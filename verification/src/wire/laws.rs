//! What holds of the layout: reading is the inverse of writing.

use crate::address::Address;
use crate::game::{PlayerColor, Point, Square};
use crate::network::{Message, NetworkEvent, PlayerID};
use crate::wire::layout::{
    spec_color_number, spec_decode, spec_encode, spec_encode_address, spec_encode_addresses,
    spec_encode_color, spec_encode_ip4, spec_encode_ip6, spec_encode_point, spec_encode_square,
    spec_encode_usize, spec_holdable, spec_parse, spec_parse_address, spec_parse_addresses,
    spec_parse_color, spec_parse_ip4, spec_parse_ip6, spec_parse_point, spec_parse_square,
    spec_parse_u16, spec_parse_u32, spec_parse_u64, spec_parse_usize, spec_tag, DecodeError,
};
use vstd::bytes::*;
use vstd::prelude::*;

verus! {

// Reading inverts writing, field by field: the encoding of a field, with
// anything after it, reads as that field and leaves what came after.

proof fn lemma_parse_u16_inverts(value: u16, tail: Seq<u8>)
    ensures
        spec_parse_u16(spec_u16_to_le_bytes(value) + tail) == Ok::<_, DecodeError>((value, tail)),
{
    lemma_auto_spec_u16_to_from_le_bytes();
    let bytes = spec_u16_to_le_bytes(value);
    assert((bytes + tail).take(2) == bytes);
    assert((bytes + tail).skip(2) == tail);
}

proof fn lemma_parse_u32_inverts(value: u32, tail: Seq<u8>)
    ensures
        spec_parse_u32(spec_u32_to_le_bytes(value) + tail) == Ok::<_, DecodeError>((value, tail)),
{
    lemma_auto_spec_u32_to_from_le_bytes();
    let bytes = spec_u32_to_le_bytes(value);
    assert((bytes + tail).take(4) == bytes);
    assert((bytes + tail).skip(4) == tail);
}

proof fn lemma_parse_u64_inverts(value: u64, tail: Seq<u8>)
    ensures
        spec_parse_u64(spec_u64_to_le_bytes(value) + tail) == Ok::<_, DecodeError>((value, tail)),
{
    lemma_auto_spec_u64_to_from_le_bytes();
    let bytes = spec_u64_to_le_bytes(value);
    assert((bytes + tail).take(8) == bytes);
    assert((bytes + tail).skip(8) == tail);
}

proof fn lemma_parse_usize_inverts(value: usize, tail: Seq<u8>)
    ensures
        spec_parse_usize(spec_encode_usize(value) + tail) == Ok::<_, DecodeError>((value, tail)),
{
    lemma_parse_u64_inverts(value as u64, tail);
}

proof fn lemma_parse_color_inverts(color: PlayerColor, tail: Seq<u8>)
    ensures
        spec_parse_color(spec_encode_color(color) + tail) == Ok::<_, DecodeError>((color, tail)),
{
    lemma_parse_u32_inverts(spec_color_number(color), tail);
}

proof fn lemma_parse_point_inverts(point: Point, tail: Seq<u8>)
    ensures
        spec_parse_point(spec_encode_point(point) + tail) == Ok::<_, DecodeError>((point, tail)),
{
    let y = spec_encode_usize(point.y);
    assert(spec_encode_point(point) + tail == spec_encode_usize(point.x) + (y + tail));
    lemma_parse_usize_inverts(point.x, y + tail);
    lemma_parse_usize_inverts(point.y, tail);
}

proof fn lemma_parse_square_inverts(square: Square, tail: Seq<u8>)
    ensures
        spec_parse_square(spec_encode_square(square) + tail) == Ok::<_, DecodeError>(
            (square, tail),
        ),
{
    let id = spec_encode_usize(square.id) + tail;
    let color = spec_encode_color(square.color) + id;
    let place = spec_encode_point(square.coordinates) + color;
    assert(spec_encode_square(square) + tail == spec_encode_usize(square.side) + place);
    lemma_parse_usize_inverts(square.side, place);
    lemma_parse_point_inverts(square.coordinates, color);
    lemma_parse_color_inverts(square.color, id);
    lemma_parse_usize_inverts(square.id, tail);
}

proof fn lemma_parse_ip4_inverts(ip: u32, tail: Seq<u8>)
    ensures
        spec_parse_ip4(spec_encode_ip4(ip) + tail) == Ok::<_, DecodeError>((ip, tail)),
{
    lemma_auto_spec_u32_to_from_le_bytes();
    let bytes = spec_u32_to_le_bytes(ip);
    assert((bytes.reverse() + tail).take(4) == bytes.reverse());
    assert((bytes.reverse() + tail).skip(4) == tail);
    assert(bytes.reverse().reverse() == bytes);
}

proof fn lemma_parse_ip6_inverts(ip: u128, tail: Seq<u8>)
    ensures
        spec_parse_ip6(spec_encode_ip6(ip) + tail) == Ok::<_, DecodeError>((ip, tail)),
{
    lemma_auto_spec_u128_to_from_le_bytes();
    let bytes = spec_u128_to_le_bytes(ip);
    assert((bytes.reverse() + tail).take(16) == bytes.reverse());
    assert((bytes.reverse() + tail).skip(16) == tail);
    assert(bytes.reverse().reverse() == bytes);
}

proof fn lemma_parse_address_inverts(addr: Address, tail: Seq<u8>)
    ensures
        spec_parse_address(spec_encode_address(addr) + tail) == Ok::<_, DecodeError>(
            (addr, tail),
        ),
{
    match addr {
        Address::V4 { ip, port } => {
            let after_ip = spec_u16_to_le_bytes(port) + tail;
            let after_family = spec_encode_ip4(ip) + after_ip;
            assert(spec_encode_address(addr) + tail == spec_u32_to_le_bytes(0) + after_family);
            lemma_parse_u32_inverts(0, after_family);
            lemma_parse_ip4_inverts(ip, after_ip);
            lemma_parse_u16_inverts(port, tail);
        },
        Address::V6 { ip, port } => {
            let after_ip = spec_u16_to_le_bytes(port) + tail;
            let after_family = spec_encode_ip6(ip) + after_ip;
            assert(spec_encode_address(addr) + tail == spec_u32_to_le_bytes(1) + after_family);
            lemma_parse_u32_inverts(1, after_family);
            lemma_parse_ip6_inverts(ip, after_ip);
            lemma_parse_u16_inverts(port, tail);
        },
    }
}

proof fn lemma_parse_addresses_inverts(list: Seq<Address>, tail: Seq<u8>)
    ensures
        spec_parse_addresses(spec_encode_addresses(list) + tail, list.len()) == Ok::<
            _,
            DecodeError,
        >((list, tail)),
    decreases list.len(),
{
    if list.len() == 0 {
        assert(spec_encode_addresses(list) + tail == tail);
        assert(list == Seq::<Address>::empty());
    } else {
        let others = list.skip(1);
        let after_first = spec_encode_addresses(others) + tail;
        assert(spec_encode_addresses(list) + tail == spec_encode_address(list[0]) + after_first);
        lemma_parse_address_inverts(list[0], after_first);
        lemma_parse_addresses_inverts(others, tail);
        assert(seq![list[0]] + others == list);
    }
}

// The same for whole messages, one kind at a time.

proof fn lemma_parse_inverts_update(update: PlayerID, tail: Seq<u8>)
    ensures
        spec_parse(spec_encode(Message::PlayerID(update)) + tail) == Ok::<_, DecodeError>(
            (Message::PlayerID(update), tail),
        ),
{
    let after_point = spec_encode_square(update.player) + tail;
    let after_tag = spec_encode_point(update.point) + after_point;
    assert(spec_encode(Message::PlayerID(update)) + tail == spec_u32_to_le_bytes(0) + after_tag);
    lemma_parse_u32_inverts(0, after_tag);
    lemma_parse_point_inverts(update.point, after_point);
    lemma_parse_square_inverts(update.player, tail);
}

proof fn lemma_parse_inverts_peers(peers: Seq<Address>, tail: Seq<u8>)
    requires
        peers.len() <= usize::MAX,
    ensures
        spec_parse(spec_encode(Message::Peers(peers)) + tail) == Ok::<_, DecodeError>(
            (Message::Peers(peers), tail),
        ),
{
    let count = peers.len() as usize;
    let after_count = spec_encode_addresses(peers) + tail;
    let after_tag = spec_encode_usize(count) + after_count;
    assert(spec_encode(Message::Peers(peers)) + tail == spec_u32_to_le_bytes(1) + after_tag);
    lemma_parse_u32_inverts(1, after_tag);
    lemma_parse_usize_inverts(count, after_count);
    lemma_parse_addresses_inverts(peers, tail);
}

proof fn lemma_parse_inverts_identity(id: usize, tail: Seq<u8>)
    ensures
        spec_parse(spec_encode(Message::ID(id)) + tail) == Ok::<_, DecodeError>(
            (Message::ID(id), tail),
        ),
{
    let after_tag = spec_encode_usize(id) + tail;
    assert(spec_encode(Message::ID(id)) + tail == spec_u32_to_le_bytes(4) + after_tag);
    lemma_parse_u32_inverts(4, after_tag);
    lemma_parse_usize_inverts(id, tail);
}

proof fn lemma_parse_inverts_bare(message: Message, tail: Seq<u8>)
    requires
        message is PlayerJoin || message is PlayerLeft,
    ensures
        spec_parse(spec_encode(message) + tail) == Ok::<_, DecodeError>((message, tail)),
{
    let tag = spec_tag(message);
    assert(spec_encode(message) + tail == spec_u32_to_le_bytes(tag) + tail);
    lemma_parse_u32_inverts(tag, tail);
}

/// Reading an encoded message gives the message back, and leaves what
/// followed it.
pub proof fn lemma_parse_inverts_encode(message: Message, tail: Seq<u8>)
    requires
        spec_holdable(message),
    ensures
        spec_parse(spec_encode(message) + tail) == Ok::<_, DecodeError>((message, tail)),
{
    match message {
        Message::PlayerID(update) => lemma_parse_inverts_update(update, tail),
        Message::Peers(peers) => lemma_parse_inverts_peers(peers, tail),
        Message::PlayerJoin => lemma_parse_inverts_bare(message, tail),
        Message::PlayerLeft => lemma_parse_inverts_bare(message, tail),
        Message::ID(id) => lemma_parse_inverts_identity(id, tail),
    }
}

/// Decoding is the inverse of encoding: the bytes of a message decode to
/// that message, whatever bytes follow them in the datagram.
pub proof fn lemma_decode_inverts_encode(message: Message, tail: Seq<u8>)
    requires
        spec_holdable(message),
    ensures
        spec_decode(spec_encode(message)) == Ok::<_, DecodeError>(message),
        spec_decode(spec_encode(message) + tail) == Ok::<_, DecodeError>(message),
{
    lemma_parse_inverts_encode(message, tail);
    lemma_parse_inverts_encode(message, Seq::empty());
    assert(spec_encode(message) + Seq::<u8>::empty() == spec_encode(message));
}

/// What `encode` gives for an event, `decode` reads back as that event.
pub proof fn lemma_event_survives_the_wire(event: NetworkEvent)
    ensures
        spec_holdable(event@),
        spec_decode(spec_encode(event@)) == Ok::<_, DecodeError>(event@),
{
    if let NetworkEvent::Peers(peers) = event {
        assert(peers@.len() == peers.len());
    }
    lemma_decode_inverts_encode(event@, Seq::empty());
}

// Reading accepts only what writing gives, field by field: bytes that
// read as a field are the encoding of that field followed by what reading
// left over.

proof fn lemma_parse_u16_exact(s: Seq<u8>)
    ensures
        spec_parse_u16(s) matches Ok((value, rest)) ==> s == spec_u16_to_le_bytes(value) + rest,
{
    if s.len() >= 2 {
        lemma_auto_spec_u16_to_from_le_bytes();
        assert(spec_u16_to_le_bytes(spec_u16_from_le_bytes(s.take(2))) == s.take(2));
        assert(s.take(2) + s.skip(2) == s);
    }
}

proof fn lemma_parse_u32_exact(s: Seq<u8>)
    ensures
        spec_parse_u32(s) matches Ok((value, rest)) ==> s == spec_u32_to_le_bytes(value) + rest,
{
    if s.len() >= 4 {
        lemma_auto_spec_u32_to_from_le_bytes();
        assert(spec_u32_to_le_bytes(spec_u32_from_le_bytes(s.take(4))) == s.take(4));
        assert(s.take(4) + s.skip(4) == s);
    }
}

proof fn lemma_parse_u64_exact(s: Seq<u8>)
    ensures
        spec_parse_u64(s) matches Ok((value, rest)) ==> s == spec_u64_to_le_bytes(value) + rest,
{
    if s.len() >= 8 {
        lemma_auto_spec_u64_to_from_le_bytes();
        assert(spec_u64_to_le_bytes(spec_u64_from_le_bytes(s.take(8))) == s.take(8));
        assert(s.take(8) + s.skip(8) == s);
    }
}

proof fn lemma_parse_usize_exact(s: Seq<u8>)
    ensures
        spec_parse_usize(s) matches Ok((value, rest)) ==> s == spec_encode_usize(value) + rest,
{
    lemma_parse_u64_exact(s);
}

proof fn lemma_parse_color_exact(s: Seq<u8>)
    ensures
        spec_parse_color(s) matches Ok((color, rest)) ==> s == spec_encode_color(color) + rest,
{
    lemma_parse_u32_exact(s);
}

proof fn lemma_parse_point_exact(s: Seq<u8>)
    ensures
        spec_parse_point(s) matches Ok((point, rest)) ==> s == spec_encode_point(point) + rest,
{
    lemma_parse_usize_exact(s);
    if let Ok((x, after_x)) = spec_parse_usize(s) {
        lemma_parse_usize_exact(after_x);
        if let Ok((y, rest)) = spec_parse_usize(after_x) {
            assert(spec_encode_usize(x) + (spec_encode_usize(y) + rest) == spec_encode_point(
                Point { x, y },
            ) + rest);
        }
    }
}

proof fn lemma_parse_square_exact(s: Seq<u8>)
    ensures
        spec_parse_square(s) matches Ok((square, rest)) ==> s == spec_encode_square(square)
            + rest,
{
    lemma_parse_usize_exact(s);
    if let Ok((side, after_side)) = spec_parse_usize(s) {
        lemma_parse_point_exact(after_side);
        if let Ok((coordinates, after_place)) = spec_parse_point(after_side) {
            lemma_parse_color_exact(after_place);
            if let Ok((color, after_color)) = spec_parse_color(after_place) {
                lemma_parse_usize_exact(after_color);
                if let Ok((id, rest)) = spec_parse_usize(after_color) {
                    let square = Square { side, coordinates, color, id };
                    assert(spec_encode_usize(side) + (spec_encode_point(coordinates) + (
                    spec_encode_color(color) + (spec_encode_usize(id) + rest)))
                        == spec_encode_square(square) + rest);
                }
            }
        }
    }
}

proof fn lemma_parse_ip4_exact(s: Seq<u8>)
    ensures
        spec_parse_ip4(s) matches Ok((ip, rest)) ==> s == spec_encode_ip4(ip) + rest,
{
    if s.len() >= 4 {
        lemma_auto_spec_u32_to_from_le_bytes();
        let octets = s.take(4);
        assert(spec_u32_to_le_bytes(spec_u32_from_le_bytes(octets.reverse()))
            == octets.reverse());
        assert(octets.reverse().reverse() == octets);
        assert(octets + s.skip(4) == s);
    }
}

proof fn lemma_parse_ip6_exact(s: Seq<u8>)
    ensures
        spec_parse_ip6(s) matches Ok((ip, rest)) ==> s == spec_encode_ip6(ip) + rest,
{
    if s.len() >= 16 {
        lemma_auto_spec_u128_to_from_le_bytes();
        let octets = s.take(16);
        assert(spec_u128_to_le_bytes(spec_u128_from_le_bytes(octets.reverse()))
            == octets.reverse());
        assert(octets.reverse().reverse() == octets);
        assert(octets + s.skip(16) == s);
    }
}

proof fn lemma_parse_address_exact(s: Seq<u8>)
    ensures
        spec_parse_address(s) matches Ok((addr, rest)) ==> s == spec_encode_address(addr) + rest,
{
    lemma_parse_u32_exact(s);
    if let Ok((family, after_family)) = spec_parse_u32(s) {
        if family == 0 {
            lemma_parse_ip4_exact(after_family);
            if let Ok((ip, after_ip)) = spec_parse_ip4(after_family) {
                lemma_parse_u16_exact(after_ip);
                if let Ok((port, rest)) = spec_parse_u16(after_ip) {
                    assert(spec_u32_to_le_bytes(0) + (spec_encode_ip4(ip) + (
                    spec_u16_to_le_bytes(port) + rest)) == spec_encode_address(
                        Address::V4 { ip, port },
                    ) + rest);
                }
            }
        } else if family == 1 {
            lemma_parse_ip6_exact(after_family);
            if let Ok((ip, after_ip)) = spec_parse_ip6(after_family) {
                lemma_parse_u16_exact(after_ip);
                if let Ok((port, rest)) = spec_parse_u16(after_ip) {
                    assert(spec_u32_to_le_bytes(1) + (spec_encode_ip6(ip) + (
                    spec_u16_to_le_bytes(port) + rest)) == spec_encode_address(
                        Address::V6 { ip, port },
                    ) + rest);
                }
            }
        }
    }
}

proof fn lemma_parse_addresses_exact(s: Seq<u8>, count: nat)
    ensures
        spec_parse_addresses(s, count) matches Ok((list, rest)) ==> list.len() == count && s
            == spec_encode_addresses(list) + rest,
    decreases count,
{
    if count == 0 {
        assert(spec_encode_addresses(Seq::<Address>::empty()) + s == s);
    } else {
        lemma_parse_address_exact(s);
        if let Ok((addr, after_first)) = spec_parse_address(s) {
            lemma_parse_addresses_exact(after_first, (count - 1) as nat);
            if let Ok((others, rest)) = spec_parse_addresses(after_first, (count - 1) as nat) {
                let list = seq![addr] + others;
                assert(list.skip(1) == others);
                assert(spec_encode_address(addr) + (spec_encode_addresses(others) + rest)
                    == spec_encode_addresses(list) + rest);
            }
        }
    }
}

// The same for what follows the tag of a message, one kind at a time.

proof fn lemma_parse_update_exact(after_tag: Seq<u8>)
    ensures
        spec_parse_point(after_tag) matches Ok((point, after_point)) ==> (spec_parse_square(
            after_point,
        ) matches Ok((player, rest)) ==> spec_u32_to_le_bytes(0) + after_tag == spec_encode(
            Message::PlayerID(PlayerID { point, player }),
        ) + rest),
{
    lemma_parse_point_exact(after_tag);
    if let Ok((point, after_point)) = spec_parse_point(after_tag) {
        lemma_parse_square_exact(after_point);
        if let Ok((player, rest)) = spec_parse_square(after_point) {
            let message = Message::PlayerID(PlayerID { point, player });
            assert(spec_u32_to_le_bytes(0) + (spec_encode_point(point) + (spec_encode_square(
                player,
            ) + rest)) == spec_encode(message) + rest);
        }
    }
}

proof fn lemma_parse_peers_exact(after_tag: Seq<u8>)
    ensures
        spec_parse_usize(after_tag) matches Ok((count, after_count)) ==> (spec_parse_addresses(
            after_count,
            count as nat,
        ) matches Ok((peers, rest)) ==> peers.len() == count && spec_u32_to_le_bytes(1)
            + after_tag == spec_encode(Message::Peers(peers)) + rest),
{
    lemma_parse_usize_exact(after_tag);
    if let Ok((count, after_count)) = spec_parse_usize(after_tag) {
        lemma_parse_addresses_exact(after_count, count as nat);
        if let Ok((peers, rest)) = spec_parse_addresses(after_count, count as nat) {
            let message = Message::Peers(peers);
            assert(spec_u32_to_le_bytes(1) + (spec_encode_usize(count) + (spec_encode_addresses(
                peers,
            ) + rest)) == spec_encode(message) + rest);
        }
    }
}

proof fn lemma_parse_identity_exact(after_tag: Seq<u8>)
    ensures
        spec_parse_usize(after_tag) matches Ok((id, rest)) ==> spec_u32_to_le_bytes(4) + after_tag
            == spec_encode(Message::ID(id)) + rest,
{
    lemma_parse_usize_exact(after_tag);
    if let Ok((id, rest)) = spec_parse_usize(after_tag) {
        assert(spec_u32_to_le_bytes(4) + (spec_encode_usize(id) + rest) == spec_encode(
            Message::ID(id),
        ) + rest);
    }
}

proof fn lemma_parse_bare_exact(message: Message, after_tag: Seq<u8>)
    requires
        message is PlayerJoin || message is PlayerLeft,
    ensures
        spec_u32_to_le_bytes(spec_tag(message)) + after_tag == spec_encode(message) + after_tag,
{
    assert(spec_u32_to_le_bytes(spec_tag(message)) + Seq::<u8>::empty() == spec_u32_to_le_bytes(
        spec_tag(message),
    ));
}

/// Reading accepts only what encoding writes: bytes that read as a message
/// are the encoding of that message followed by what was left over.
pub proof fn lemma_parse_accepts_only_encodings(s: Seq<u8>)
    ensures
        spec_parse(s) matches Ok((message, rest)) ==> spec_holdable(message) && s == spec_encode(
            message,
        ) + rest,
{
    lemma_parse_u32_exact(s);
    if let Ok((tag, after_tag)) = spec_parse_u32(s) {
        if tag == 0 {
            lemma_parse_update_exact(after_tag);
        } else if tag == 1 {
            lemma_parse_peers_exact(after_tag);
        } else if tag == 2 {
            lemma_parse_bare_exact(Message::PlayerJoin, after_tag);
        } else if tag == 3 {
            lemma_parse_bare_exact(Message::PlayerLeft, after_tag);
        } else if tag == 4 {
            lemma_parse_identity_exact(after_tag);
        }
    }
}

/// Bytes decode to a message exactly when they begin with the encoding of
/// that message.
pub proof fn lemma_decode_is_the_inverse_of_encode(s: Seq<u8>, message: Message)
    requires
        spec_holdable(message),
    ensures
        spec_decode(s) == Ok::<_, DecodeError>(message) <==> exists|rest: Seq<u8>|
            s == spec_encode(message) + rest,
{
    lemma_parse_accepts_only_encodings(s);
    if spec_decode(s) == Ok::<_, DecodeError>(message) {
        let rest = spec_parse(s)->Ok_0.1;
        assert(s == spec_encode(message) + rest);
    }
    if exists|rest: Seq<u8>| s == spec_encode(message) + rest {
        let rest = choose|rest: Seq<u8>| s == spec_encode(message) + rest;
        lemma_parse_inverts_encode(message, rest);
    }
}


/// A list of addresses takes between 10 and 22 bytes for each of them.
proof fn lemma_addresses_length(list: Seq<Address>)
    ensures
        10 * list.len() <= spec_encode_addresses(list).len() <= 22 * list.len(),
    decreases list.len(),
{
    lemma_auto_spec_u16_to_from_le_bytes();
    lemma_auto_spec_u32_to_from_le_bytes();
    lemma_auto_spec_u128_to_from_le_bytes();
    if list.len() > 0 {
        lemma_addresses_length(list.skip(1));
        match list[0] {
            Address::V4 { ip, port } => {
                assert(spec_encode_address(list[0]).len() == 10);
            },
            Address::V6 { ip, port } => {
                assert(spec_encode_address(list[0]).len() == 22);
            },
        }
    }
}

/// How long a message is on the wire: a request to join and a departure
/// take 4 bytes, an identity 12, a position update 56, and a list of peers
/// 12 and then 10 for each IPv4 address and 22 for each IPv6 address.
pub proof fn lemma_encoded_length(message: Message)
    ensures
        message is PlayerJoin ==> spec_encode(message).len() == 4,
        message is PlayerLeft ==> spec_encode(message).len() == 4,
        message is ID ==> spec_encode(message).len() == 12,
        message is PlayerID ==> spec_encode(message).len() == 56,
        message matches Message::Peers(peers) ==> 12 + 10 * peers.len() <= spec_encode(
            message,
        ).len() <= 12 + 22 * peers.len(),
{
    lemma_auto_spec_u32_to_from_le_bytes();
    lemma_auto_spec_u64_to_from_le_bytes();
    if let Message::Peers(peers) = message {
        lemma_addresses_length(peers);
    }
}

} // verus!
