//! The events that pass between the nodes of a session, and between a node
//! and its keyboard.

use crate::address::Address;
use crate::game::{Direction, Point, Square};
use vstd::prelude::*;

verus! {

/// What the player asks for at the keyboard.
#[derive(Clone, Copy, Debug, PartialEq, Eq, Structural)]
pub enum GameEvent {
    Quit,
    Direction(Direction),
}

/// A position update: the player as it was when it set out, and the cell
/// it moves to.
#[derive(Clone, Copy, Debug, PartialEq, Eq, Structural)]
pub struct PlayerID {
    pub point: Point,
    pub player: Square,
}

/// A message of the session protocol. One datagram carries one message.
#[derive(Clone, Debug, PartialEq, Eq)]
pub enum NetworkEvent {
    /// A position update of one player.
    PlayerID(PlayerID),
    /// The receivers of all nodes of the session, in the order they joined.
    Peers(Vec<Address>),
    /// A node asks the host to be let in.
    PlayerJoin,
    /// A node has left. No node sends this.
    PlayerLeft,
    /// The host tells a node its identity.
    ID(usize),
}

/// A message as a mathematical value: the list of peers is a sequence.
pub ghost enum Message {
    PlayerID(PlayerID),
    Peers(Seq<Address>),
    PlayerJoin,
    PlayerLeft,
    ID(usize),
}

impl View for NetworkEvent {
    type V = Message;

    open spec fn view(&self) -> Message {
        match *self {
            NetworkEvent::PlayerID(update) => Message::PlayerID(update),
            NetworkEvent::Peers(peers) => Message::Peers(peers@),
            NetworkEvent::PlayerJoin => Message::PlayerJoin,
            NetworkEvent::PlayerLeft => Message::PlayerLeft,
            NetworkEvent::ID(id) => Message::ID(id),
        }
    }
}

/// A message as it came in: how many bytes the datagram had, who sent it,
/// and what it said.
#[derive(Clone, Debug, PartialEq, Eq)]
pub struct NetworkData {
    pub amt: usize,
    pub src: Address,
    pub event: NetworkEvent,
}

/// A datagram to send: the encoded message and where it goes.
#[derive(Clone, Debug, PartialEq, Eq)]
pub struct Datagram {
    pub to: Address,
    pub payload: Vec<u8>,
}

/// A datagram as a mathematical value.
pub ghost struct Packet {
    pub to: Address,
    pub payload: Seq<u8>,
}

impl View for Datagram {
    type V = Packet;

    open spec fn view(&self) -> Packet {
        Packet { to: self.to, payload: self.payload@ }
    }
}

/// The datagrams of `outbox` as mathematical values, in the same order.
pub open spec fn spec_packets(outbox: Seq<Datagram>) -> Seq<Packet> {
    Seq::new(outbox.len(), |i: int| outbox[i]@)
}

/// Whether `outbox` holds exactly the datagrams `packets`, in the same
/// order.
pub open spec fn spec_carries(outbox: Seq<Datagram>, packets: Seq<Packet>) -> bool {
    &&& outbox.len() == packets.len()
    &&& forall|i: int| 0 <= i < outbox.len() ==> (#[trigger] outbox[i])@ == packets[i]
}

/// An outbox holds exactly the datagrams that it is as a mathematical
/// value.
pub proof fn lemma_carries_its_packets(outbox: Seq<Datagram>, packets: Seq<Packet>)
    ensures
        spec_carries(outbox, packets) <==> spec_packets(outbox) == packets,
{
    if spec_carries(outbox, packets) {
        assert(spec_packets(outbox) =~= packets);
    }
    if spec_packets(outbox) == packets {
        assert forall|i: int| 0 <= i < outbox.len() implies (#[trigger] outbox[i])@
            == packets[i] by {
            assert(spec_packets(outbox)[i] == outbox[i]@);
        }
    }
}

} // verus!
