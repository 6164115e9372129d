//! The sending side of a node: which datagrams go to whom.
//!
//! The functions here decide and encode; the program that owns the socket
//! sends what they return, in order.

use crate::address::Address;
use crate::network::{spec_carries, Datagram, Message, NetworkEvent, Packet, PlayerID};
use crate::wire::{
    encode, lemma_decode_inverts_encode, spec_decode, spec_encode, spec_holdable, DecodeError,
};
use vstd::prelude::*;

verus! {

/// The sending side of a node.
#[derive(Clone, Debug, PartialEq, Eq)]
pub struct Sender {
    /// The address the node sends from.
    pub addr: Address,
    /// Where the host of the session listens.
    pub host_addr: Address,
    /// The receivers of the nodes of the session, in the order the host
    /// let them in.
    pub peer_addrs: Vec<Address>,
}

/// One datagram with `payload` for each of `peers`, in their order.
pub open spec fn spec_broadcast(peers: Seq<Address>, payload: Seq<u8>) -> Seq<Packet> {
    Seq::new(peers.len(), |i: int| Packet { to: peers[i], payload })
}

/// The datagrams by which a node asks to be let in: a join request to the
/// host, and before it one to the address that stands for every interface
/// of the machine, unless that is how the host was named.
pub open spec fn spec_join_request(host_addr: Address) -> Seq<Packet> {
    let request = spec_encode(Message::PlayerJoin);
    if host_addr != Address::spec_any_interface() {
        seq![
            Packet { to: Address::spec_any_interface(), payload: request },
            Packet { to: host_addr, payload: request },
        ]
    } else {
        seq![Packet { to: host_addr, payload: request }]
    }
}

/// The identity of `addr` among `peers`: the place of its first entry. For
/// an address without an entry this is the length of the list, which is
/// the place its entry gets when it is let in.
pub open spec fn spec_identity(peers: Seq<Address>, addr: Address) -> nat
    decreases peers.len(),
{
    if peers.len() == 0 || peers[0] == addr {
        0
    } else {
        1 + spec_identity(peers.skip(1), addr)
    }
}

/// The list of peers after the node at `addr` has asked to be let in: an
/// address that has an entry gets no second one, any other is put at the
/// end.
pub open spec fn spec_let_in(peers: Seq<Address>, addr: Address) -> Seq<Address> {
    if peers.contains(addr) {
        peers
    } else {
        peers.push(addr)
    }
}

/// The datagrams by which the host answers a request to be let in from
/// the node at `addr` when `peers` are in the session: the one that asked
/// is told its identity, and then every peer of the list as it is after
/// the request, in the order of the list, is sent that whole list. For a
/// newcomer the identity is the number of peers before it and the list is
/// one longer; for an address that is in the list already the identity is
/// the one it has and the list is as it was.
pub open spec fn spec_answer(peers: Seq<Address>, addr: Address) -> Seq<Packet> {
    let listed = spec_let_in(peers, addr);
    seq![
        Packet {
            to: addr,
            payload: spec_encode(Message::ID(spec_identity(peers, addr) as usize)),
        },
    ] + spec_broadcast(listed, spec_encode(Message::Peers(listed)))
}

/// The peers of a host that started alone and was asked by `joiners`, one
/// after the other, to let them in.
pub open spec fn spec_admitted(joiners: Seq<Address>) -> Seq<Address>
    decreases joiners.len(),
{
    if joiners.len() == 0 {
        Seq::empty()
    } else {
        spec_let_in(spec_admitted(joiners.drop_last()), joiners.last())
    }
}

/// One datagram with a copy of `payload` for each of `peers`.
fn broadcast(peers: &Vec<Address>, payload: &Vec<u8>) -> (outbox: Vec<Datagram>)
    ensures
        spec_carries(outbox@, spec_broadcast(peers@, payload@)),
{
    let mut outbox: Vec<Datagram> = Vec::new();
    let mut i: usize = 0;
    while i < peers.len()
        invariant
            i <= peers@.len(),
            outbox@.len() == i,
            forall|j: int|
                0 <= j < i ==> (#[trigger] outbox@[j])@ == (Packet {
                    to: peers@[j],
                    payload: payload@,
                }),
        decreases peers@.len() - i,
    {
        let copy = payload.clone();
        assert(copy@ == payload@);
        outbox.push(Datagram { to: peers[i], payload: copy });
        i += 1;
    }
    outbox
}

impl Sender {
    /// The sending side of a node that sends from `addr` and whose host
    /// listens at `host_addr`. It knows no peers yet.
    pub fn new(addr: Address, host_addr: Address) -> (sender: Sender)
        ensures
            sender.addr == addr,
            sender.host_addr == host_addr,
            sender.peer_addrs@ == Seq::<Address>::empty(),
    {
        Sender { addr, host_addr, peer_addrs: Vec::new() }
    }

    /// The datagrams that ask the host to let this node in.
    pub fn register_self(&self) -> (outbox: Vec<Datagram>)
        ensures
            spec_carries(outbox@, spec_join_request(self.host_addr)),
    {
        let mut outbox: Vec<Datagram> = Vec::new();
        let interface_addr = Address::any_interface();
        if interface_addr != self.host_addr {
            outbox.push(Datagram { to: interface_addr, payload: encode(&NetworkEvent::PlayerJoin) });
        }
        outbox.push(Datagram { to: self.host_addr, payload: encode(&NetworkEvent::PlayerJoin) });
        outbox
    }

    /// The identity of the node at `addr`: the place of its first entry in
    /// the list of peers, if it has one.
    pub fn identity_of(&self, addr: Address) -> (id: Option<usize>)
        ensures
            id is Some <==> self.peer_addrs@.contains(addr),
            id matches Some(place) ==> {
                &&& place == spec_identity(self.peer_addrs@, addr)
                &&& place < self.peer_addrs@.len()
                &&& self.peer_addrs@[place as int] == addr
            },
    {
        let mut place: usize = 0;
        while place < self.peer_addrs.len()
            invariant
                place <= self.peer_addrs@.len(),
                forall|j: int| 0 <= j < place ==> self.peer_addrs@[j] != addr,
            decreases self.peer_addrs@.len() - place,
        {
            if self.peer_addrs[place] == addr {
                proof {
                    lemma_identity_is_first_entry(self.peer_addrs@, addr, place as int);
                }
                return Some(place);
            }
            place += 1;
        }
        None
    }

    /// Answers the request of the node at `addr` to be let into the
    /// session. Only the host does this.
    ///
    /// A newcomer gets the number of peers before it as its identity and
    /// is put at the end of the list. An address that is in the list
    /// already is not put there again and keeps the identity it has, so
    /// no identity shifts. Either way the datagrams returned tell the one
    /// that asked its identity and then tell every peer the whole list as
    /// it now stands: one datagram more than the list is long.
    pub fn register_remote_socket(&mut self, addr: Address) -> (outbox: Vec<Datagram>)
        ensures
            final(self).addr == old(self).addr,
            final(self).host_addr == old(self).host_addr,
            old(self).peer_addrs@.contains(addr) ==> final(self).peer_addrs@
                == old(self).peer_addrs@,
            !old(self).peer_addrs@.contains(addr) ==> final(self).peer_addrs@
                == old(self).peer_addrs@.push(addr),
            spec_carries(outbox@, spec_answer(old(self).peer_addrs@, addr)),
    {
        let id = match self.identity_of(addr) {
            Some(known) => known,
            None => {
                proof {
                    lemma_identity_names_first_entry(self.peer_addrs@, addr);
                }
                let next = self.peer_addrs.len();
                self.peer_addrs.push(addr);
                next
            },
        };
        let mut outbox: Vec<Datagram> = Vec::new();
        outbox.push(Datagram { to: addr, payload: encode(&NetworkEvent::ID(id)) });
        let peer_addrs_clone = self.peer_addrs.clone();
        assert(peer_addrs_clone@ == self.peer_addrs@);
        let peer_addrs_bytes = encode(&NetworkEvent::Peers(peer_addrs_clone));
        let mut news = broadcast(&self.peer_addrs, &peer_addrs_bytes);
        outbox.append(&mut news);
        outbox
    }

    /// The datagrams that tell every peer where this node's player moves.
    pub fn tick(&self, player_id: PlayerID) -> (outbox: Vec<Datagram>)
        ensures
            spec_carries(
                outbox@,
                spec_broadcast(self.peer_addrs@, spec_encode(Message::PlayerID(player_id))),
            ),
    {
        let bytes = encode(&NetworkEvent::PlayerID(player_id));
        broadcast(&self.peer_addrs, &bytes)
    }
}


/// What is sent to all peers arrives as it was sent: there is one datagram
/// for each peer, in their order, and each decodes to the message that
/// was encoded. So a position update is seen by every peer with the cell
/// and the player it was sent with.
pub proof fn lemma_broadcast_reaches_every_peer(peers: Seq<Address>, message: Message)
    requires
        spec_holdable(message),
    ensures
        spec_broadcast(peers, spec_encode(message)).len() == peers.len(),
        forall|i: int|
            #![trigger spec_broadcast(peers, spec_encode(message))[i]]
            0 <= i < peers.len() ==> {
                let sent = spec_broadcast(peers, spec_encode(message))[i];
                &&& sent.to == peers[i]
                &&& spec_decode(sent.payload) == Ok::<_, DecodeError>(message)
            },
{
    lemma_decode_inverts_encode(message, Seq::empty());
}

/// Every datagram of a join request carries a join request, and the last
/// one goes to the host.
pub proof fn lemma_join_request_reaches_host(host_addr: Address)
    ensures
        spec_join_request(host_addr).len() >= 1,
        spec_join_request(host_addr).last().to == host_addr,
        forall|i: int|
            0 <= i < spec_join_request(host_addr).len() ==> spec_decode(
                (#[trigger] spec_join_request(host_addr)[i]).payload,
            ) == Ok::<_, DecodeError>(Message::PlayerJoin),
{
    lemma_decode_inverts_encode(Message::PlayerJoin, Seq::empty());
}

/// The identity of an address is the place of its first entry: if `addr`
/// stands at `place` and nowhere before it, `place` is its identity.
pub proof fn lemma_identity_is_first_entry(peers: Seq<Address>, addr: Address, place: int)
    requires
        0 <= place < peers.len(),
        peers[place] == addr,
        forall|j: int| 0 <= j < place ==> peers[j] != addr,
    ensures
        spec_identity(peers, addr) == place,
    decreases place,
{
    if place > 0 {
        let others = peers.skip(1);
        assert(others[place - 1] == addr);
        assert forall|j: int| 0 <= j < place - 1 implies others[j] != addr by {
            assert(others[j] == peers[j + 1]);
        }
        lemma_identity_is_first_entry(others, addr, place - 1);
    }
}

/// The identity of an address that is in the list names an entry of it,
/// and no entry before that one is its own; the identity of an address
/// that is not in the list is the length of the list.
pub proof fn lemma_identity_names_first_entry(peers: Seq<Address>, addr: Address)
    ensures
        spec_identity(peers, addr) <= peers.len(),
        peers.contains(addr) ==> spec_identity(peers, addr) < peers.len() && peers[spec_identity(
            peers,
            addr,
        ) as int] == addr,
        !peers.contains(addr) ==> spec_identity(peers, addr) == peers.len(),
        forall|j: int| 0 <= j < spec_identity(peers, addr) ==> peers[j] != addr,
    decreases peers.len(),
{
    if peers.len() > 0 && peers[0] != addr {
        let others = peers.skip(1);
        lemma_identity_names_first_entry(others, addr);
        if peers.contains(addr) {
            let place = choose|i: int| 0 <= i < peers.len() && peers[i] == addr;
            assert(others[place - 1] == addr);
        }
        if others.contains(addr) {
            assert(peers[spec_identity(others, addr) as int + 1] == addr);
        }
        assert forall|j: int| 0 <= j < spec_identity(peers, addr) implies peers[j] != addr by {
            if j > 0 {
                assert(others[j - 1] == peers[j]);
            }
        }
    } else if peers.len() > 0 {
        assert(peers[0] == addr);
    }
}

/// No identity shifts: whoever asks to be let in, an address that is in
/// the list keeps the identity it has.
pub proof fn lemma_identities_do_not_shift(peers: Seq<Address>, known: Address, addr: Address)
    requires
        peers.contains(known),
    ensures
        spec_let_in(peers, addr).contains(known),
        spec_identity(spec_let_in(peers, addr), known) == spec_identity(peers, known),
{
    lemma_identity_names_first_entry(peers, known);
    let place = spec_identity(peers, known) as int;
    let after = spec_let_in(peers, addr);
    assert(after[place] == known);
    assert forall|j: int| 0 <= j < place implies after[j] != known by {
        assert(after[j] == peers[j]);
    }
    lemma_identity_is_first_entry(after, known, place);
}

/// Asking twice is asking once: whoever asked is in the list afterwards,
/// an address that is in the list is not put there again, and a list that
/// holds no address twice does not come to hold one twice.
pub proof fn lemma_no_address_is_let_in_twice(peers: Seq<Address>, addr: Address)
    ensures
        spec_let_in(peers, addr).contains(addr),
        spec_let_in(spec_let_in(peers, addr), addr) == spec_let_in(peers, addr),
        peers.contains(addr) ==> spec_let_in(peers, addr) == peers,
        peers.no_duplicates() ==> spec_let_in(peers, addr).no_duplicates(),
{
    let after = spec_let_in(peers, addr);
    if !peers.contains(addr) {
        assert(after[peers.len() as int] == addr);
        if peers.no_duplicates() {
            assert forall|i: int, j: int|
                0 <= i < after.len() && 0 <= j < after.len() && i != j implies after[i]
                != after[j] by {
                if i < peers.len() {
                    assert(peers.contains(after[i]));
                }
                if j < peers.len() {
                    assert(peers.contains(after[j]));
                }
            }
        }
    }
}

/// An answer tells exactly one identity and brings the whole list to
/// every peer. The first datagram goes to the one that asked and carries
/// its identity, which is the place of its entry in the list; then there
/// is one datagram for each entry of the list as it is after the request,
/// in the order of the list, and each carries that whole list. A newcomer
/// is told the number of peers before it, and the list is one longer; an
/// address that was in the list is told the identity it had, and the list
/// is as it was.
pub proof fn lemma_answer_tells_one_identity(peers: Seq<Address>, addr: Address)
    requires
        peers.len() < usize::MAX,
    ensures
        spec_answer(peers, addr).len() == spec_let_in(peers, addr).len() + 1,
        spec_answer(peers, addr)[0].to == addr,
        spec_decode(spec_answer(peers, addr)[0].payload) == Ok::<_, DecodeError>(
            Message::ID(spec_identity(peers, addr) as usize),
        ),
        forall|i: int|
            #![trigger spec_answer(peers, addr)[i]]
            1 <= i < spec_answer(peers, addr).len() ==> {
                &&& spec_answer(peers, addr)[i].to == spec_let_in(peers, addr)[i - 1]
                &&& spec_decode(spec_answer(peers, addr)[i].payload) == Ok::<_, DecodeError>(
                    Message::Peers(spec_let_in(peers, addr)),
                )
            },
        spec_identity(peers, addr) < spec_let_in(peers, addr).len(),
        spec_let_in(peers, addr)[spec_identity(peers, addr) as int] == addr,
        !peers.contains(addr) ==> spec_identity(peers, addr) == peers.len() && spec_let_in(
            peers,
            addr,
        ).len() == peers.len() + 1,
        peers.contains(addr) ==> spec_let_in(peers, addr) == peers,
{
    let listed = spec_let_in(peers, addr);
    lemma_identity_names_first_entry(peers, addr);
    lemma_decode_inverts_encode(Message::ID(spec_identity(peers, addr) as usize), Seq::empty());
    lemma_decode_inverts_encode(Message::Peers(listed), Seq::empty());
    if !peers.contains(addr) {
        assert(listed[peers.len() as int] == addr);
    }
}

/// A host that started alone holds every address that asked to be let in,
/// and none of them twice, however often it asked.
pub proof fn lemma_admitted_once_each(joiners: Seq<Address>)
    ensures
        spec_admitted(joiners).no_duplicates(),
        spec_admitted(joiners).len() <= joiners.len(),
        forall|i: int| 0 <= i < joiners.len() ==> spec_admitted(joiners).contains(joiners[i]),
    decreases joiners.len(),
{
    if joiners.len() > 0 {
        let earlier = joiners.drop_last();
        let before = spec_admitted(earlier);
        lemma_admitted_once_each(earlier);
        lemma_no_address_is_let_in_twice(before, joiners.last());
        assert forall|i: int| 0 <= i < joiners.len() implies spec_admitted(joiners).contains(
            joiners[i],
        ) by {
            if i < earlier.len() {
                assert(before.contains(earlier[i]));
                let place = choose|k: int| 0 <= k < before.len() && before[k] == earlier[i];
                assert(spec_admitted(joiners)[place] == joiners[i]);
            }
        }
    }
}

/// The last of joiners no two of which are the same is not among the
/// earlier ones, and put behind them it gives the joiners back.
proof fn lemma_last_joiner_is_new(joiners: Seq<Address>)
    requires
        joiners.len() > 0,
        joiners.no_duplicates(),
    ensures
        joiners.drop_last().no_duplicates(),
        !joiners.drop_last().contains(joiners.last()),
        joiners.drop_last().push(joiners.last()) == joiners,
{
    let earlier = joiners.drop_last();
    if earlier.contains(joiners.last()) {
        let place = choose|k: int| 0 <= k < earlier.len() && earlier[k] == joiners.last();
        assert(joiners[place] == joiners[joiners.len() - 1]);
    }
    assert(earlier.push(joiners.last()) == joiners);
}

/// A host that started alone and was asked by `joiners`, no two of them
/// the same, has exactly them as its peers, in the order they asked.
pub proof fn lemma_admitted_in_order(joiners: Seq<Address>)
    requires
        joiners.no_duplicates(),
    ensures
        spec_admitted(joiners) == joiners,
    decreases joiners.len(),
{
    if joiners.len() > 0 {
        lemma_last_joiner_is_new(joiners);
        lemma_admitted_in_order(joiners.drop_last());
    }
}

/// After a host that started alone has answered the last of `joiners`,
/// the datagrams of that answer bring every peer, the newest too, the
/// same list: everyone the host holds, each once. Where no two of the
/// joiners are the same, that list is the joiners, as many as asked.
pub proof fn lemma_every_peer_gets_the_same_list(joiners: Seq<Address>)
    requires
        0 < joiners.len() <= usize::MAX,
    ensures
        spec_answer(spec_admitted(joiners.drop_last()), joiners.last()).len() == spec_admitted(
            joiners,
        ).len() + 1,
        forall|i: int|
            #![trigger spec_answer(spec_admitted(joiners.drop_last()), joiners.last())[i]]
            1 <= i <= spec_admitted(joiners).len() ==> {
                let sent = spec_answer(spec_admitted(joiners.drop_last()), joiners.last())[i];
                &&& sent.to == spec_admitted(joiners)[i - 1]
                &&& spec_decode(sent.payload) == Ok::<_, DecodeError>(
                    Message::Peers(spec_admitted(joiners)),
                )
            },
        joiners.no_duplicates() ==> spec_admitted(joiners) == joiners,
{
    let before = spec_admitted(joiners.drop_last());
    lemma_admitted_once_each(joiners.drop_last());
    lemma_answer_tells_one_identity(before, joiners.last());
    if joiners.no_duplicates() {
        lemma_admitted_in_order(joiners);
    }
}

} // verus!
