//! The layout itself: for every value that goes over the wire, the bytes
//! that stand for it and how those bytes are read back.
//!
//! Reading takes a value from the front of a sequence of bytes and gives
//! the value and the bytes after it, or says why there is no value.

use crate::address::Address;
use crate::game::{PlayerColor, Point, Square};
use crate::network::{Message, PlayerID};
use vstd::bytes::*;
use vstd::prelude::*;

verus! {

/// Why a sequence of bytes is not a message.
#[derive(Clone, Copy, Debug, PartialEq, Eq, Structural)]
pub enum DecodeError {
    /// The bytes end before the message does.
    Truncated,
    /// The tag names none of the messages.
    UnknownMessage,
    /// A colour number names none of the colours.
    UnknownColor,
    /// An address is neither IPv4 nor IPv6.
    UnknownAddressFamily,
    /// A size or count is larger than this machine can hold.
    TooLarge,
}

/// Reads a `u16` from the front of `s`.
pub open spec fn spec_parse_u16(s: Seq<u8>) -> Result<(u16, Seq<u8>), DecodeError> {
    if s.len() < 2 {
        Err(DecodeError::Truncated)
    } else {
        Ok((spec_u16_from_le_bytes(s.take(2)), s.skip(2)))
    }
}

/// Reads a `u32` from the front of `s`.
pub open spec fn spec_parse_u32(s: Seq<u8>) -> Result<(u32, Seq<u8>), DecodeError> {
    if s.len() < 4 {
        Err(DecodeError::Truncated)
    } else {
        Ok((spec_u32_from_le_bytes(s.take(4)), s.skip(4)))
    }
}

/// Reads a `u64` from the front of `s`.
pub open spec fn spec_parse_u64(s: Seq<u8>) -> Result<(u64, Seq<u8>), DecodeError> {
    if s.len() < 8 {
        Err(DecodeError::Truncated)
    } else {
        Ok((spec_u64_from_le_bytes(s.take(8)), s.skip(8)))
    }
}

/// Whether `r`, the outcome of reading from `bytes` with a position, is
/// what the model `expected` says: the same value, with a new position
/// after which `bytes` holds what the model left over, or the same error.
pub open spec fn spec_read<T>(
    r: Result<(T, usize), DecodeError>,
    bytes: Seq<u8>,
    expected: Result<(T, Seq<u8>), DecodeError>,
) -> bool {
    match r {
        Ok((value, next)) => next <= bytes.len() && expected == Ok::<_, DecodeError>(
            (value, bytes.skip(next as int)),
        ),
        Err(e) => expected == Err::<(T, Seq<u8>), _>(e),
    }
}

/// The number that stands for `color` on the wire: its place in the
/// palette.
pub open spec fn spec_color_number(color: PlayerColor) -> u32 {
    match color {
        PlayerColor::Blue => 0,
        PlayerColor::Red => 1,
        PlayerColor::Green => 2,
        PlayerColor::Yellow => 3,
        PlayerColor::Cyan => 4,
        PlayerColor::Magenta => 5,
        PlayerColor::White => 6,
        PlayerColor::Black => 7,
    }
}

/// The colour that `number` stands for, if any.
pub open spec fn spec_color_of(number: u32) -> Option<PlayerColor> {
    if number == 0 {
        Some(PlayerColor::Blue)
    } else if number == 1 {
        Some(PlayerColor::Red)
    } else if number == 2 {
        Some(PlayerColor::Green)
    } else if number == 3 {
        Some(PlayerColor::Yellow)
    } else if number == 4 {
        Some(PlayerColor::Cyan)
    } else if number == 5 {
        Some(PlayerColor::Magenta)
    } else if number == 6 {
        Some(PlayerColor::White)
    } else if number == 7 {
        Some(PlayerColor::Black)
    } else {
        None
    }
}

/// A size or count on the wire: eight bytes.
pub open spec fn spec_encode_usize(value: usize) -> Seq<u8> {
    spec_u64_to_le_bytes(value as u64)
}

/// Reads a size or count from the front of `s`.
pub open spec fn spec_parse_usize(s: Seq<u8>) -> Result<(usize, Seq<u8>), DecodeError> {
    match spec_parse_u64(s) {
        Ok((value, rest)) => if value <= usize::MAX {
            Ok((value as usize, rest))
        } else {
            Err(DecodeError::TooLarge)
        },
        Err(e) => Err(e),
    }
}

/// A colour on the wire: its number in four bytes.
pub open spec fn spec_encode_color(color: PlayerColor) -> Seq<u8> {
    spec_u32_to_le_bytes(spec_color_number(color))
}

/// Reads a colour from the front of `s`.
pub open spec fn spec_parse_color(s: Seq<u8>) -> Result<(PlayerColor, Seq<u8>), DecodeError> {
    match spec_parse_u32(s) {
        Ok((number, rest)) => match spec_color_of(number) {
            Some(color) => Ok((color, rest)),
            None => Err(DecodeError::UnknownColor),
        },
        Err(e) => Err(e),
    }
}

/// A cell on the wire: column, then row.
pub open spec fn spec_encode_point(point: Point) -> Seq<u8> {
    spec_encode_usize(point.x) + spec_encode_usize(point.y)
}

/// Reads a cell from the front of `s`.
pub open spec fn spec_parse_point(s: Seq<u8>) -> Result<(Point, Seq<u8>), DecodeError> {
    match spec_parse_usize(s) {
        Ok((x, rest)) => match spec_parse_usize(rest) {
            Ok((y, rest)) => Ok((Point { x, y }, rest)),
            Err(e) => Err(e),
        },
        Err(e) => Err(e),
    }
}

/// A square on the wire: side, place, colour, identity.
pub open spec fn spec_encode_square(square: Square) -> Seq<u8> {
    spec_encode_usize(square.side) + spec_encode_point(square.coordinates) + spec_encode_color(
        square.color,
    ) + spec_encode_usize(square.id)
}

/// Reads a square from the front of `s`.
pub open spec fn spec_parse_square(s: Seq<u8>) -> Result<(Square, Seq<u8>), DecodeError> {
    match spec_parse_usize(s) {
        Ok((side, rest)) => match spec_parse_point(rest) {
            Ok((coordinates, rest)) => match spec_parse_color(rest) {
                Ok((color, rest)) => match spec_parse_usize(rest) {
                    Ok((id, rest)) => Ok((Square { side, coordinates, color, id }, rest)),
                    Err(e) => Err(e),
                },
                Err(e) => Err(e),
            },
            Err(e) => Err(e),
        },
        Err(e) => Err(e),
    }
}

/// The four octets of an IPv4 address, first octet first.
pub open spec fn spec_encode_ip4(ip: u32) -> Seq<u8> {
    spec_u32_to_le_bytes(ip).reverse()
}

/// Reads the four octets of an IPv4 address from the front of `s`.
pub open spec fn spec_parse_ip4(s: Seq<u8>) -> Result<(u32, Seq<u8>), DecodeError> {
    if s.len() < 4 {
        Err(DecodeError::Truncated)
    } else {
        Ok((spec_u32_from_le_bytes(s.take(4).reverse()), s.skip(4)))
    }
}

/// The sixteen octets of an IPv6 address, first octet first.
pub open spec fn spec_encode_ip6(ip: u128) -> Seq<u8> {
    spec_u128_to_le_bytes(ip).reverse()
}

/// Reads the sixteen octets of an IPv6 address from the front of `s`.
pub open spec fn spec_parse_ip6(s: Seq<u8>) -> Result<(u128, Seq<u8>), DecodeError> {
    if s.len() < 16 {
        Err(DecodeError::Truncated)
    } else {
        Ok((spec_u128_from_le_bytes(s.take(16).reverse()), s.skip(16)))
    }
}

/// An address on the wire: the family in four bytes (0 for IPv4, 1 for
/// IPv6), the octets, the port.
pub open spec fn spec_encode_address(addr: Address) -> Seq<u8> {
    match addr {
        Address::V4 { ip, port } => spec_u32_to_le_bytes(0) + spec_encode_ip4(ip)
            + spec_u16_to_le_bytes(port),
        Address::V6 { ip, port } => spec_u32_to_le_bytes(1) + spec_encode_ip6(ip)
            + spec_u16_to_le_bytes(port),
    }
}

/// Reads an address from the front of `s`.
pub open spec fn spec_parse_address(s: Seq<u8>) -> Result<(Address, Seq<u8>), DecodeError> {
    match spec_parse_u32(s) {
        Ok((family, rest)) => if family == 0 {
            match spec_parse_ip4(rest) {
                Ok((ip, rest)) => match spec_parse_u16(rest) {
                    Ok((port, rest)) => Ok((Address::V4 { ip, port }, rest)),
                    Err(e) => Err(e),
                },
                Err(e) => Err(e),
            }
        } else if family == 1 {
            match spec_parse_ip6(rest) {
                Ok((ip, rest)) => match spec_parse_u16(rest) {
                    Ok((port, rest)) => Ok((Address::V6 { ip, port }, rest)),
                    Err(e) => Err(e),
                },
                Err(e) => Err(e),
            }
        } else {
            Err(DecodeError::UnknownAddressFamily)
        },
        Err(e) => Err(e),
    }
}

/// The addresses of `list` on the wire, one after the other.
pub open spec fn spec_encode_addresses(list: Seq<Address>) -> Seq<u8>
    decreases list.len(),
{
    if list.len() == 0 {
        Seq::empty()
    } else {
        spec_encode_address(list[0]) + spec_encode_addresses(list.skip(1))
    }
}

/// `read` with the addresses `before` put in front of what it read.
pub open spec fn spec_after(
    before: Seq<Address>,
    read: Result<(Seq<Address>, Seq<u8>), DecodeError>,
) -> Result<(Seq<Address>, Seq<u8>), DecodeError> {
    match read {
        Ok((list, rest)) => Ok((before + list, rest)),
        Err(e) => Err(e),
    }
}

/// Reads `count` addresses from the front of `s`.
pub open spec fn spec_parse_addresses(s: Seq<u8>, count: nat) -> Result<
    (Seq<Address>, Seq<u8>),
    DecodeError,
>
    decreases count,
{
    if count == 0 {
        Ok((Seq::empty(), s))
    } else {
        match spec_parse_address(s) {
            Ok((addr, rest)) => spec_after(
                seq![addr],
                spec_parse_addresses(rest, (count - 1) as nat),
            ),
            Err(e) => Err(e),
        }
    }
}

/// The tag that opens a message on the wire.
pub open spec fn spec_tag(message: Message) -> u32 {
    match message {
        Message::PlayerID(_) => 0,
        Message::Peers(_) => 1,
        Message::PlayerJoin => 2,
        Message::PlayerLeft => 3,
        Message::ID(_) => 4,
    }
}

/// A message on the wire: its tag in four bytes, then its fields. A list
/// of peers is its count followed by the addresses.
pub open spec fn spec_encode(message: Message) -> Seq<u8> {
    spec_u32_to_le_bytes(spec_tag(message)) + match message {
        Message::PlayerID(update) => spec_encode_point(update.point) + spec_encode_square(
            update.player,
        ),
        Message::Peers(peers) => spec_u64_to_le_bytes(peers.len() as u64) + spec_encode_addresses(
            peers,
        ),
        Message::PlayerJoin => Seq::empty(),
        Message::PlayerLeft => Seq::empty(),
        Message::ID(id) => spec_encode_usize(id),
    }
}

/// Reads a message from the front of `s`.
pub open spec fn spec_parse(s: Seq<u8>) -> Result<(Message, Seq<u8>), DecodeError> {
    match spec_parse_u32(s) {
        Ok((tag, rest)) => if tag == 0 {
            match spec_parse_point(rest) {
                Ok((point, rest)) => match spec_parse_square(rest) {
                    Ok((player, rest)) => Ok((Message::PlayerID(PlayerID { point, player }), rest)),
                    Err(e) => Err(e),
                },
                Err(e) => Err(e),
            }
        } else if tag == 1 {
            match spec_parse_usize(rest) {
                Ok((count, rest)) => match spec_parse_addresses(rest, count as nat) {
                    Ok((peers, rest)) => Ok((Message::Peers(peers), rest)),
                    Err(e) => Err(e),
                },
                Err(e) => Err(e),
            }
        } else if tag == 2 {
            Ok((Message::PlayerJoin, rest))
        } else if tag == 3 {
            Ok((Message::PlayerLeft, rest))
        } else if tag == 4 {
            match spec_parse_usize(rest) {
                Ok((id, rest)) => Ok((Message::ID(id), rest)),
                Err(e) => Err(e),
            }
        } else {
            Err(DecodeError::UnknownMessage)
        },
        Err(e) => Err(e),
    }
}

/// The message that `s` begins with. Bytes after the message are ignored.
pub open spec fn spec_decode(s: Seq<u8>) -> Result<Message, DecodeError> {
    match spec_parse(s) {
        Ok((message, _)) => Ok(message),
        Err(e) => Err(e),
    }
}

/// Whether `message` can be held by this machine: a list of peers has a
/// length that can be written in a `usize`. Every `NetworkEvent` can.
pub open spec fn spec_holdable(message: Message) -> bool {
    message matches Message::Peers(peers) ==> peers.len() <= usize::MAX
}

} // verus!
