//! The wire layout of the messages.
//!
//! A message is a tag of four bytes followed by its fields, each in a fixed
//! layout: numbers little-endian, sizes and counts in eight bytes, variant
//! numbers in four, ports in two, and the octets of an internet address in
//! network order. The numbers are written and read by `bincode`; which
//! number stands where is decided here.

pub mod codec;
pub mod laws;
pub mod layout;
pub mod numbers;

pub use codec::{decode, encode};
pub use laws::{
    lemma_decode_inverts_encode, lemma_decode_is_the_inverse_of_encode, lemma_encoded_length,
    lemma_event_survives_the_wire, lemma_parse_accepts_only_encodings,
    lemma_parse_inverts_encode,
};
pub use layout::{spec_decode, spec_encode, spec_holdable, spec_parse, DecodeError};
