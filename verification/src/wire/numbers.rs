//! Numbers on the wire, written and read by `bincode`.
//!
//! `bincode::serialize` and `bincode::deserialize` use a fixed width for
//! every integer type and put the least significant byte first. What is
//! stated of them here is taken on trust; everything else in the crate is
//! proved from it.

use crate::wire::layout::{
    spec_parse_u16, spec_parse_u32, spec_parse_u64, spec_read, DecodeError,
};
use vstd::bytes::*;
use vstd::prelude::*;
use vstd::slice::slice_subrange;

verus! {

/// The error of `bincode`. Nothing is read from it: that there is one says
/// all that is needed here.
#[verifier::external_type_specification]
#[verifier::external_body]
pub struct ExErrorKind(bincode::ErrorKind);

/// `bincode::serialize` on a `u16`. It always succeeds and gives the two
/// bytes of the number, least significant first.
#[verifier::external_body]
fn serialize_u16(value: u16) -> (r: Result<Vec<u8>, Box<bincode::ErrorKind>>)
    ensures
        r is Ok,
        r matches Ok(bytes) ==> bytes@ == spec_u16_to_le_bytes(value),
{
    bincode::serialize(&value)
}

/// `bincode::serialize` on a `u32`. It always succeeds and gives the four
/// bytes of the number, least significant first.
#[verifier::external_body]
fn serialize_u32(value: u32) -> (r: Result<Vec<u8>, Box<bincode::ErrorKind>>)
    ensures
        r is Ok,
        r matches Ok(bytes) ==> bytes@ == spec_u32_to_le_bytes(value),
{
    bincode::serialize(&value)
}

/// `bincode::serialize` on a `u64`. It always succeeds and gives the eight
/// bytes of the number, least significant first.
#[verifier::external_body]
fn serialize_u64(value: u64) -> (r: Result<Vec<u8>, Box<bincode::ErrorKind>>)
    ensures
        r is Ok,
        r matches Ok(bytes) ==> bytes@ == spec_u64_to_le_bytes(value),
{
    bincode::serialize(&value)
}

/// `bincode::deserialize` to a `u16`. It fails exactly when there are fewer
/// than two bytes; otherwise it reads the first two as a number, least
/// significant byte first, and ignores the rest.
#[verifier::external_body]
fn deserialize_u16(bytes: &[u8]) -> (r: Result<u16, Box<bincode::ErrorKind>>)
    ensures
        r is Ok <==> bytes@.len() >= 2,
        r matches Ok(value) ==> value == spec_u16_from_le_bytes(bytes@.take(2)),
{
    bincode::deserialize(bytes)
}

/// `bincode::deserialize` to a `u32`. It fails exactly when there are fewer
/// than four bytes; otherwise it reads the first four as a number, least
/// significant byte first, and ignores the rest.
#[verifier::external_body]
fn deserialize_u32(bytes: &[u8]) -> (r: Result<u32, Box<bincode::ErrorKind>>)
    ensures
        r is Ok <==> bytes@.len() >= 4,
        r matches Ok(value) ==> value == spec_u32_from_le_bytes(bytes@.take(4)),
{
    bincode::deserialize(bytes)
}

/// `bincode::deserialize` to a `u64`. It fails exactly when there are fewer
/// than eight bytes; otherwise it reads the first eight as a number, least
/// significant byte first, and ignores the rest.
#[verifier::external_body]
fn deserialize_u64(bytes: &[u8]) -> (r: Result<u64, Box<bincode::ErrorKind>>)
    ensures
        r is Ok <==> bytes@.len() >= 8,
        r matches Ok(value) ==> value == spec_u64_from_le_bytes(bytes@.take(8)),
{
    bincode::deserialize(bytes)
}

/// Appends the two bytes of `value` to `buf`.
pub(crate) fn put_u16(buf: &mut Vec<u8>, value: u16)
    ensures
        final(buf)@ == old(buf)@ + spec_u16_to_le_bytes(value),
{
    let mut bytes = serialize_u16(value).unwrap();
    buf.append(&mut bytes);
}

/// Appends the four bytes of `value` to `buf`.
pub(crate) fn put_u32(buf: &mut Vec<u8>, value: u32)
    ensures
        final(buf)@ == old(buf)@ + spec_u32_to_le_bytes(value),
{
    let mut bytes = serialize_u32(value).unwrap();
    buf.append(&mut bytes);
}

/// Appends the eight bytes of `value` to `buf`.
pub(crate) fn put_u64(buf: &mut Vec<u8>, value: u64)
    ensures
        final(buf)@ == old(buf)@ + spec_u64_to_le_bytes(value),
{
    let mut bytes = serialize_u64(value).unwrap();
    buf.append(&mut bytes);
}

/// Reads a `u16` from `bytes` at `at`, and gives the position after it.
pub(crate) fn take_u16(bytes: &[u8], at: usize) -> (r: Result<(u16, usize), DecodeError>)
    requires
        at <= bytes@.len(),
    ensures
        spec_read(r, bytes@, spec_parse_u16(bytes@.skip(at as int))),
{
    let rest = slice_subrange(bytes, at, bytes.len());
    assert(rest@ == bytes@.skip(at as int));
    match deserialize_u16(rest) {
        Ok(value) => {
            assert(bytes@.skip(at as int).skip(2) == bytes@.skip(at + 2));
            Ok((value, at + 2))
        },
        Err(_) => Err(DecodeError::Truncated),
    }
}

/// Reads a `u32` from `bytes` at `at`, and gives the position after it.
pub(crate) fn take_u32(bytes: &[u8], at: usize) -> (r: Result<(u32, usize), DecodeError>)
    requires
        at <= bytes@.len(),
    ensures
        spec_read(r, bytes@, spec_parse_u32(bytes@.skip(at as int))),
{
    let rest = slice_subrange(bytes, at, bytes.len());
    assert(rest@ == bytes@.skip(at as int));
    match deserialize_u32(rest) {
        Ok(value) => {
            assert(bytes@.skip(at as int).skip(4) == bytes@.skip(at + 4));
            Ok((value, at + 4))
        },
        Err(_) => Err(DecodeError::Truncated),
    }
}

/// Reads a `u64` from `bytes` at `at`, and gives the position after it.
pub(crate) fn take_u64(bytes: &[u8], at: usize) -> (r: Result<(u64, usize), DecodeError>)
    requires
        at <= bytes@.len(),
    ensures
        spec_read(r, bytes@, spec_parse_u64(bytes@.skip(at as int))),
{
    let rest = slice_subrange(bytes, at, bytes.len());
    assert(rest@ == bytes@.skip(at as int));
    match deserialize_u64(rest) {
        Ok(value) => {
            assert(bytes@.skip(at as int).skip(8) == bytes@.skip(at + 8));
            Ok((value, at + 8))
        },
        Err(_) => Err(DecodeError::Truncated),
    }
}

} // verus!
