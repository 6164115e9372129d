//! Messages to bytes and back.

use crate::address::Address;
use crate::game::{PlayerColor, Point, Square};
use crate::network::{Message, NetworkEvent, PlayerID};
use crate::wire::layout::{
    spec_after, spec_color_number, spec_color_of, spec_decode, spec_encode, spec_encode_address,
    spec_encode_addresses, spec_encode_point, spec_encode_square, spec_encode_usize,
    spec_parse_address, spec_parse_addresses, spec_parse_color, spec_parse_ip4, spec_parse_ip6,
    spec_parse_point, spec_parse_square, spec_parse_usize, spec_read, DecodeError,
};
use crate::wire::numbers::{put_u16, put_u32, put_u64, take_u16, take_u32, take_u64};
use vstd::bytes::*;
use vstd::prelude::*;

verus! {

/// Appends a size or count to `buf`.
fn put_usize(buf: &mut Vec<u8>, value: usize)
    ensures
        final(buf)@ == old(buf)@ + spec_encode_usize(value),
{
    put_u64(buf, value as u64);
}

/// The number that stands for `color` on the wire.
fn color_number(color: PlayerColor) -> (number: u32)
    ensures
        number == spec_color_number(color),
{
    match color {
        PlayerColor::Blue => 0,
        PlayerColor::Red => 1,
        PlayerColor::Green => 2,
        PlayerColor::Yellow => 3,
        PlayerColor::Cyan => 4,
        PlayerColor::Magenta => 5,
        PlayerColor::White => 6,
        PlayerColor::Black => 7,
    }
}

/// The colour that `number` stands for, if any.
fn color_of(number: u32) -> (color: Option<PlayerColor>)
    ensures
        color == spec_color_of(number),
{
    match number {
        0 => Some(PlayerColor::Blue),
        1 => Some(PlayerColor::Red),
        2 => Some(PlayerColor::Green),
        3 => Some(PlayerColor::Yellow),
        4 => Some(PlayerColor::Cyan),
        5 => Some(PlayerColor::Magenta),
        6 => Some(PlayerColor::White),
        7 => Some(PlayerColor::Black),
        _ => None,
    }
}

/// Appends a cell to `buf`.
fn put_point(buf: &mut Vec<u8>, point: Point)
    ensures
        final(buf)@ == old(buf)@ + spec_encode_point(point),
{
    put_usize(buf, point.x);
    put_usize(buf, point.y);
    assert(buf@ == old(buf)@ + spec_encode_point(point));
}

/// Appends a square to `buf`.
fn put_square(buf: &mut Vec<u8>, square: Square)
    ensures
        final(buf)@ == old(buf)@ + spec_encode_square(square),
{
    put_usize(buf, square.side);
    put_point(buf, square.coordinates);
    put_u32(buf, color_number(square.color));
    put_usize(buf, square.id);
    assert(buf@ == old(buf)@ + spec_encode_square(square));
}

/// Appends the bytes of `bytes` to `buf`, last byte first.
fn put_reversed(buf: &mut Vec<u8>, bytes: &Vec<u8>)
    ensures
        final(buf)@ == old(buf)@ + bytes@.reverse(),
{
    let mut i: usize = bytes.len();
    while i > 0
        invariant
            i <= bytes@.len(),
            buf@ == old(buf)@ + bytes@.reverse().take(bytes@.len() - i),
        decreases i,
    {
        i -= 1;
        buf.push(bytes[i]);
    }
    assert(bytes@.reverse().take(bytes@.len() as int) == bytes@.reverse());
}

/// Appends an address to `buf`.
fn put_address(buf: &mut Vec<u8>, addr: Address)
    ensures
        final(buf)@ == old(buf)@ + spec_encode_address(addr),
{
    match addr {
        Address::V4 { ip, port } => {
            put_u32(buf, 0);
            let octets = u32_to_le_bytes(ip);
            put_reversed(buf, &octets);
            put_u16(buf, port);
        },
        Address::V6 { ip, port } => {
            put_u32(buf, 1);
            let octets = u128_to_le_bytes(ip);
            put_reversed(buf, &octets);
            put_u16(buf, port);
        },
    }
    assert(buf@ == old(buf)@ + spec_encode_address(addr));
}

/// Appends the addresses of `list` to `buf`, one after the other.
fn put_addresses(buf: &mut Vec<u8>, list: &Vec<Address>)
    ensures
        final(buf)@ == old(buf)@ + spec_encode_addresses(list@),
{
    let mut i: usize = 0;
    assert(list@.skip(0) == list@);
    assert(buf@ + spec_encode_addresses(list@) == old(buf)@ + spec_encode_addresses(list@));
    while i < list.len()
        invariant
            i <= list@.len(),
            buf@ + spec_encode_addresses(list@.skip(i as int)) == old(buf)@
                + spec_encode_addresses(list@),
        decreases list@.len() - i,
    {
        let ghost before = buf@;
        put_address(buf, list[i]);
        proof {
            let tail = list@.skip(i as int);
            assert(tail.skip(1) == list@.skip(i + 1));
            assert(before + spec_encode_addresses(tail) == buf@ + spec_encode_addresses(
                tail.skip(1),
            ));
        }
        i += 1;
    }
    assert(buf@ + spec_encode_addresses(list@.skip(i as int)) == buf@);
}

/// The bytes that carry `event` in a datagram.
pub fn encode(event: &NetworkEvent) -> (bytes: Vec<u8>)
    ensures
        bytes@ == spec_encode(event@),
{
    let mut buf: Vec<u8> = Vec::new();
    match event {
        NetworkEvent::PlayerID(update) => {
            put_u32(&mut buf, 0);
            put_point(&mut buf, update.point);
            put_square(&mut buf, update.player);
        },
        NetworkEvent::Peers(peers) => {
            put_u32(&mut buf, 1);
            put_usize(&mut buf, peers.len());
            put_addresses(&mut buf, peers);
        },
        NetworkEvent::PlayerJoin => {
            put_u32(&mut buf, 2);
        },
        NetworkEvent::PlayerLeft => {
            put_u32(&mut buf, 3);
        },
        NetworkEvent::ID(id) => {
            put_u32(&mut buf, 4);
            put_usize(&mut buf, *id);
        },
    }
    assert(buf@ == spec_encode(event@));
    buf
}

/// Reads a size or count from `bytes` at `at`.
fn take_usize(bytes: &[u8], at: usize) -> (r: Result<(usize, usize), DecodeError>)
    requires
        at <= bytes@.len(),
    ensures
        spec_read(r, bytes@, spec_parse_usize(bytes@.skip(at as int))),
{
    match take_u64(bytes, at) {
        Ok((value, next)) => {
            if value <= usize::MAX as u64 {
                Ok((value as usize, next))
            } else {
                Err(DecodeError::TooLarge)
            }
        },
        Err(e) => Err(e),
    }
}

/// Reads a colour from `bytes` at `at`.
fn take_color(bytes: &[u8], at: usize) -> (r: Result<(PlayerColor, usize), DecodeError>)
    requires
        at <= bytes@.len(),
    ensures
        spec_read(r, bytes@, spec_parse_color(bytes@.skip(at as int))),
{
    match take_u32(bytes, at) {
        Ok((number, next)) => match color_of(number) {
            Some(color) => Ok((color, next)),
            None => Err(DecodeError::UnknownColor),
        },
        Err(e) => Err(e),
    }
}

/// Reads a cell from `bytes` at `at`.
fn take_point(bytes: &[u8], at: usize) -> (r: Result<(Point, usize), DecodeError>)
    requires
        at <= bytes@.len(),
    ensures
        spec_read(r, bytes@, spec_parse_point(bytes@.skip(at as int))),
{
    match take_usize(bytes, at) {
        Ok((x, next)) => match take_usize(bytes, next) {
            Ok((y, next)) => Ok((Point { x, y }, next)),
            Err(e) => Err(e),
        },
        Err(e) => Err(e),
    }
}

/// Reads a square from `bytes` at `at`.
fn take_square(bytes: &[u8], at: usize) -> (r: Result<(Square, usize), DecodeError>)
    requires
        at <= bytes@.len(),
    ensures
        spec_read(r, bytes@, spec_parse_square(bytes@.skip(at as int))),
{
    let (side, next) = match take_usize(bytes, at) {
        Ok(read) => read,
        Err(e) => { return Err(e); },
    };
    let (coordinates, next) = match take_point(bytes, next) {
        Ok(read) => read,
        Err(e) => { return Err(e); },
    };
    let (color, next) = match take_color(bytes, next) {
        Ok(read) => read,
        Err(e) => { return Err(e); },
    };
    match take_usize(bytes, next) {
        Ok((id, next)) => Ok((Square { side, coordinates, color, id }, next)),
        Err(e) => Err(e),
    }
}

/// The `count` bytes of `bytes` from `at` on, last byte first, and the
/// position after them, if there are that many.
fn take_reversed(bytes: &[u8], at: usize, count: usize) -> (r: Option<(Vec<u8>, usize)>)
    requires
        at <= bytes@.len(),
    ensures
        r is Some <==> bytes@.len() - at >= count,
        r matches Some((octets, next)) ==> next == at + count && octets@ == bytes@.skip(
            at as int,
        ).take(count as int).reverse(),
{
    let len = bytes.len();
    if len - at < count {
        return None;
    }
    let ghost wanted = bytes@.skip(at as int).take(count as int).reverse();
    let mut octets: Vec<u8> = Vec::new();
    let mut i: usize = count;
    while i > 0
        invariant
            i <= count,
            len == bytes@.len(),
            at + count <= len,
            wanted == bytes@.skip(at as int).take(count as int).reverse(),
            octets@ == wanted.take(count - i),
        decreases i,
    {
        i -= 1;
        octets.push(bytes[at + i]);
    }
    assert(wanted.take(count as int) == wanted);
    Some((octets, at + count))
}

/// Reads the octets of an IPv4 address from `bytes` at `at`.
fn take_ip4(bytes: &[u8], at: usize) -> (r: Result<(u32, usize), DecodeError>)
    requires
        at <= bytes@.len(),
    ensures
        spec_read(r, bytes@, spec_parse_ip4(bytes@.skip(at as int))),
{
    match take_reversed(bytes, at, 4) {
        Some((octets, next)) => {
            assert(bytes@.skip(at as int).skip(4) == bytes@.skip(at + 4));
            Ok((u32_from_le_bytes(octets.as_slice()), next))
        },
        None => Err(DecodeError::Truncated),
    }
}

/// Reads the octets of an IPv6 address from `bytes` at `at`.
fn take_ip6(bytes: &[u8], at: usize) -> (r: Result<(u128, usize), DecodeError>)
    requires
        at <= bytes@.len(),
    ensures
        spec_read(r, bytes@, spec_parse_ip6(bytes@.skip(at as int))),
{
    match take_reversed(bytes, at, 16) {
        Some((octets, next)) => {
            assert(bytes@.skip(at as int).skip(16) == bytes@.skip(at + 16));
            Ok((u128_from_le_bytes(octets.as_slice()), next))
        },
        None => Err(DecodeError::Truncated),
    }
}

/// Reads an address from `bytes` at `at`.
fn take_address(bytes: &[u8], at: usize) -> (r: Result<(Address, usize), DecodeError>)
    requires
        at <= bytes@.len(),
    ensures
        spec_read(r, bytes@, spec_parse_address(bytes@.skip(at as int))),
{
    let (family, next) = match take_u32(bytes, at) {
        Ok(read) => read,
        Err(e) => { return Err(e); },
    };
    if family == 0 {
        let (ip, next) = match take_ip4(bytes, next) {
            Ok(read) => read,
            Err(e) => { return Err(e); },
        };
        match take_u16(bytes, next) {
            Ok((port, next)) => Ok((Address::V4 { ip, port }, next)),
            Err(e) => Err(e),
        }
    } else if family == 1 {
        let (ip, next) = match take_ip6(bytes, next) {
            Ok(read) => read,
            Err(e) => { return Err(e); },
        };
        match take_u16(bytes, next) {
            Ok((port, next)) => Ok((Address::V6 { ip, port }, next)),
            Err(e) => Err(e),
        }
    } else {
        Err(DecodeError::UnknownAddressFamily)
    }
}

/// Reads `count` addresses from `bytes` at `at`.
fn take_addresses(bytes: &[u8], at: usize, count: usize) -> (r: Result<
    (Vec<Address>, usize),
    DecodeError,
>)
    requires
        at <= bytes@.len(),
    ensures
        match r {
            Ok((list, next)) => next <= bytes@.len() && spec_parse_addresses(
                bytes@.skip(at as int),
                count as nat,
            ) == Ok::<_, DecodeError>((list@, bytes@.skip(next as int))),
            Err(e) => spec_parse_addresses(bytes@.skip(at as int), count as nat) == Err::<
                (Seq<Address>, Seq<u8>),
                _,
            >(e),
        },
{
    let ghost whole = spec_parse_addresses(bytes@.skip(at as int), count as nat);
    let mut list: Vec<Address> = Vec::new();
    let mut next: usize = at;
    let mut i: usize = 0;
    assert(whole == spec_after(list@, whole)) by {
        if let Ok((read, rest)) = whole {
            assert(list@ + read == read);
        }
    }
    while i < count
        invariant
            i <= count,
            next <= bytes@.len(),
            whole == spec_parse_addresses(bytes@.skip(at as int), count as nat),
            whole == spec_after(
                list@,
                spec_parse_addresses(bytes@.skip(next as int), (count - i) as nat),
            ),
        decreases count - i,
    {
        let ghost here = spec_parse_addresses(bytes@.skip(next as int), (count - i) as nat);
        match take_address(bytes, next) {
            Ok((addr, after)) => {
                proof {
                    let further = spec_parse_addresses(
                        bytes@.skip(after as int),
                        (count - i - 1) as nat,
                    );
                    assert(here == spec_after(seq![addr], further));
                    if let Ok((read, rest)) = further {
                        assert(list@ + (seq![addr] + read) == list@.push(addr) + read);
                    }
                    assert(whole == spec_after(list@.push(addr), further));
                }
                list.push(addr);
                next = after;
            },
            Err(e) => {
                assert(here == Err::<(Seq<Address>, Seq<u8>), _>(e));
                return Err(e);
            },
        }
        i += 1;
    }
    assert(list@ + Seq::<Address>::empty() == list@);
    Ok((list, next))
}

/// The message that `bytes` begins with. Bytes after the message are
/// ignored; bytes that end too early or name no message are refused.
pub fn decode(bytes: &[u8]) -> (r: Result<NetworkEvent, DecodeError>)
    ensures
        match r {
            Ok(event) => spec_decode(bytes@) == Ok::<_, DecodeError>(event@),
            Err(e) => spec_decode(bytes@) == Err::<Message, _>(e),
        },
{
    assert(bytes@.skip(0) == bytes@);
    let (tag, next) = match take_u32(bytes, 0) {
        Ok(read) => read,
        Err(e) => { return Err(e); },
    };
    if tag == 0 {
        let (point, next) = match take_point(bytes, next) {
            Ok(read) => read,
            Err(e) => { return Err(e); },
        };
        match take_square(bytes, next) {
            Ok((player, _)) => Ok(NetworkEvent::PlayerID(PlayerID { point, player })),
            Err(e) => Err(e),
        }
    } else if tag == 1 {
        let (count, next) = match take_usize(bytes, next) {
            Ok(read) => read,
            Err(e) => { return Err(e); },
        };
        match take_addresses(bytes, next, count) {
            Ok((peers, _)) => Ok(NetworkEvent::Peers(peers)),
            Err(e) => Err(e),
        }
    } else if tag == 2 {
        Ok(NetworkEvent::PlayerJoin)
    } else if tag == 3 {
        Ok(NetworkEvent::PlayerLeft)
    } else if tag == 4 {
        match take_usize(bytes, next) {
            Ok((id, _)) => Ok(NetworkEvent::ID(id)),
            Err(e) => Err(e),
        }
    } else {
        Err(DecodeError::UnknownMessage)
    }
}

} // verus!
