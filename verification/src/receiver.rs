//! The receiving side of a node: what a datagram that came in says.
//!
//! The program that owns the socket waits for a datagram and hands over
//! what the socket gave it; the functions here turn that into an event or
//! into the reason why there is none.

use crate::address::Address;
use crate::network::{Message, NetworkData};
use crate::wire::{
    decode, lemma_decode_inverts_encode, lemma_encoded_length, spec_decode, spec_encode,
    spec_holdable, DecodeError,
};
use vstd::prelude::*;

verus! {

/// How many bytes a datagram can carry at most.
pub const MAX_PAYLOAD: usize = 65_507;

/// How many bytes a receive buffer has to hold. A datagram cannot carry
/// more, so no message is cut short on arrival, however long the list of
/// peers in it.
pub const BUFFER_LEN: usize = 65_535;

/// The largest session whose list of peers one datagram can carry
/// whatever the addresses in it are.
pub const MAX_SESSION: usize = 2977;

/// What one wait on the socket gave.
#[derive(Clone, Debug, PartialEq, Eq)]
pub enum Arrival {
    /// A datagram: its bytes and who sent it.
    Datagram { bytes: Vec<u8>, src: Address },
    /// The wait ran out of time before a datagram came.
    TimedOut,
    /// The socket failed.
    Failed,
}

/// Why a wait on the socket gave no event.
#[derive(Clone, Copy, Debug, PartialEq, Eq, Structural)]
pub enum ReceiveError {
    /// A datagram came, but its bytes are not a message. It can be dropped.
    Decode(DecodeError),
    /// The socket failed.
    Io,
    /// No datagram came in the time allowed. This is no failure.
    TimedOut,
}

/// The receiving side of a node.
#[derive(Clone, Copy, Debug, PartialEq, Eq, Structural)]
pub struct Receiver {
    /// The address the node listens on.
    pub addr: Address,
}

/// Whether `r` is the event that the datagram `bytes` from `src` carries:
/// the decoded message with the sender and the number of bytes, or the
/// reason why the bytes are no message.
pub open spec fn spec_delivers(
    r: Result<NetworkData, ReceiveError>,
    bytes: Seq<u8>,
    src: Address,
) -> bool {
    match r {
        Ok(data) => {
            &&& data.amt == bytes.len()
            &&& data.src == src
            &&& spec_decode(bytes) == Ok::<_, DecodeError>(data.event@)
        },
        Err(ReceiveError::Decode(e)) => spec_decode(bytes) == Err::<Message, _>(e),
        Err(_) => false,
    }
}

/// The event that the datagram `bytes` from `src` carries.
fn deliver(bytes: &Vec<u8>, src: Address) -> (r: Result<NetworkData, ReceiveError>)
    ensures
        spec_delivers(r, bytes@, src),
{
    match decode(bytes.as_slice()) {
        Ok(event) => Ok(NetworkData { amt: bytes.len(), src, event }),
        Err(e) => Err(ReceiveError::Decode(e)),
    }
}

impl Receiver {
    /// The receiving side of a node that listens on `addr`.
    pub fn new(addr: Address) -> (receiver: Receiver)
        ensures
            receiver.addr == addr,
    {
        Receiver { addr }
    }

    /// The event that a wait without a time limit gave. A datagram gives
    /// its event, or a decode error if its bytes are no message; anything
    /// else the socket reports is a failure of the socket.
    pub fn poll_event(&self, arrival: &Arrival) -> (r: Result<NetworkData, ReceiveError>)
        ensures
            match *arrival {
                Arrival::Datagram { bytes, src } => spec_delivers(r, bytes@, src),
                Arrival::TimedOut => r == Err::<NetworkData, _>(ReceiveError::Io),
                Arrival::Failed => r == Err::<NetworkData, _>(ReceiveError::Io),
            },
    {
        match arrival {
            Arrival::Datagram { bytes, src } => deliver(bytes, *src),
            Arrival::TimedOut => Err(ReceiveError::Io),
            Arrival::Failed => Err(ReceiveError::Io),
        }
    }

    /// The event that a wait with a time limit gave. As `poll_event`, but
    /// a wait that ran out of time is reported as such.
    pub fn peek_event(&self, arrival: &Arrival) -> (r: Result<NetworkData, ReceiveError>)
        ensures
            match *arrival {
                Arrival::Datagram { bytes, src } => spec_delivers(r, bytes@, src),
                Arrival::TimedOut => r == Err::<NetworkData, _>(ReceiveError::TimedOut),
                Arrival::Failed => r == Err::<NetworkData, _>(ReceiveError::Io),
            },
    {
        match arrival {
            Arrival::Datagram { bytes, src } => deliver(bytes, *src),
            Arrival::TimedOut => Err(ReceiveError::TimedOut),
            Arrival::Failed => Err(ReceiveError::Io),
        }
    }
}


/// A datagram that carries an encoded message is delivered as that
/// message, with its sender and its length: whatever outcome delivers the
/// datagram is an event, never an error, and its message is the one that
/// was encoded.
pub proof fn lemma_what_was_sent_is_delivered(
    r: Result<NetworkData, ReceiveError>,
    message: Message,
    src: Address,
)
    requires
        spec_holdable(message),
        spec_delivers(r, spec_encode(message), src),
    ensures
        r matches Ok(data) && data.event@ == message && data.src == src && data.amt
            == spec_encode(message).len(),
{
    lemma_decode_inverts_encode(message, Seq::empty());
}

/// Every message of a session of up to `MAX_SESSION` nodes can be carried
/// by one datagram, and the receive buffer holds every datagram.
pub proof fn lemma_buffer_holds_every_message(message: Message)
    requires
        message matches Message::Peers(peers) ==> peers.len() <= MAX_SESSION,
    ensures
        spec_encode(message).len() <= MAX_PAYLOAD <= BUFFER_LEN,
{
    lemma_encoded_length(message);
}

} // verus!
