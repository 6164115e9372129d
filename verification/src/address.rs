//! Network addresses as plain values.

use vstd::prelude::*;

verus! {

/// The port on which every node of a session listens.
pub const RECEIVER_PORT: u16 = 9999;

/// Where a node can be reached: an internet address and a port.
///
/// `ip` holds the address as one number in network order, so the first
/// octet of the dotted form is its most significant byte.
#[allow(inconsistent_fields)]
#[derive(Clone, Copy, Debug, PartialEq, Eq, Structural)]
pub enum Address {
    V4 { ip: u32, port: u16 },
    V6 { ip: u128, port: u16 },
}

impl Address {
    /// The port of the address.
    pub open spec fn spec_port(self) -> u16 {
        match self {
            Address::V4 { port, .. } => port,
            Address::V6 { port, .. } => port,
        }
    }

    /// The address of the same machine with another port.
    pub open spec fn spec_with_port(self, port: u16) -> Address {
        match self {
            Address::V4 { ip, .. } => Address::V4 { ip, port },
            Address::V6 { ip, .. } => Address::V6 { ip, port },
        }
    }

    /// The address on which a node listens on every interface of its
    /// machine: the unspecified IPv4 address with the receiver port.
    pub open spec fn spec_any_interface() -> Address {
        Address::V4 { ip: 0, port: RECEIVER_PORT }
    }

    /// The port of the address.
    pub fn port(&self) -> (port: u16)
        ensures
            port == self.spec_port(),
    {
        match self {
            Address::V4 { port, .. } => *port,
            Address::V6 { port, .. } => *port,
        }
    }

    /// The address of the same machine with another port.
    pub fn with_port(&self, port: u16) -> (moved: Address)
        ensures
            moved == self.spec_with_port(port),
    {
        match self {
            Address::V4 { ip, .. } => Address::V4 { ip: *ip, port },
            Address::V6 { ip, .. } => Address::V6 { ip: *ip, port },
        }
    }

    /// The address on which a node listens on every interface of its
    /// machine.
    pub fn any_interface() -> (addr: Address)
        ensures
            addr == Address::spec_any_interface(),
    {
        Address::V4 { ip: 0, port: RECEIVER_PORT }
    }

    /// Where the receiver of the node that sent from this address listens:
    /// the same machine, on the receiver port.
    pub fn receiver(&self) -> (addr: Address)
        ensures
            addr == self.spec_with_port(RECEIVER_PORT),
    {
        self.with_port(RECEIVER_PORT)
    }
}

} // verus!
