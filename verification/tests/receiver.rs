use boxes_rs::address::Address;
use boxes_rs::network::{NetworkData, NetworkEvent};
use boxes_rs::receiver::{
    Arrival, ReceiveError, Receiver, BUFFER_LEN, MAX_PAYLOAD, MAX_SESSION,
};
use boxes_rs::wire::{encode, DecodeError};

fn listener() -> Receiver {
    Receiver::new(Address::V4 { ip: 0, port: 9999 })
}

fn from() -> Address {
    Address::V4 { ip: 0x0a00_0002, port: 9998 }
}

#[test]
fn a_receiver_keeps_its_address() {
    assert_eq!(listener().addr, Address::V4 { ip: 0, port: 9999 });
}

#[test]
fn the_buffer_holds_the_largest_datagram() {
    assert_eq!(BUFFER_LEN, 65_535);
}

#[test]
fn a_datagram_gives_its_event_its_sender_and_its_length() {
    let arrival = Arrival::Datagram { bytes: encode(&NetworkEvent::ID(3)), src: from() };
    let expected = NetworkData { amt: 12, src: from(), event: NetworkEvent::ID(3) };
    assert_eq!(listener().poll_event(&arrival), Ok(expected.clone()));
    assert_eq!(listener().peek_event(&arrival), Ok(expected));
}

#[test]
fn the_length_counts_the_bytes_after_the_message() {
    let mut bytes = encode(&NetworkEvent::PlayerJoin);
    bytes.extend_from_slice(&[0; 6]);
    let arrival = Arrival::Datagram { bytes, src: from() };
    assert_eq!(
        listener().poll_event(&arrival),
        Ok(NetworkData { amt: 10, src: from(), event: NetworkEvent::PlayerJoin })
    );
}

#[test]
fn a_foreign_datagram_is_a_decode_error() {
    let arrival = Arrival::Datagram { bytes: vec![9, 9, 9, 9], src: from() };
    assert_eq!(
        listener().poll_event(&arrival),
        Err(ReceiveError::Decode(DecodeError::UnknownMessage))
    );
    assert_eq!(
        listener().peek_event(&arrival),
        Err(ReceiveError::Decode(DecodeError::UnknownMessage))
    );
    let short = Arrival::Datagram { bytes: vec![4, 0, 0, 0, 1], src: from() };
    assert_eq!(listener().peek_event(&short), Err(ReceiveError::Decode(DecodeError::Truncated)));
}

#[test]
fn a_wait_that_ran_out_is_reported_by_peek_only() {
    assert_eq!(listener().peek_event(&Arrival::TimedOut), Err(ReceiveError::TimedOut));
    assert_eq!(listener().poll_event(&Arrival::TimedOut), Err(ReceiveError::Io));
}

#[test]
fn a_failed_socket_is_an_io_error() {
    assert_eq!(listener().peek_event(&Arrival::Failed), Err(ReceiveError::Io));
    assert_eq!(listener().poll_event(&Arrival::Failed), Err(ReceiveError::Io));
}

#[test]
fn the_largest_session_fits_one_datagram() {
    assert_eq!(MAX_SESSION, 2977);
    assert_eq!(MAX_PAYLOAD, 65_507);
    assert!(MAX_PAYLOAD <= BUFFER_LEN);
    let wide = Address::V6 { ip: u128::MAX, port: 9999 };
    let full = encode(&NetworkEvent::Peers(vec![wide; MAX_SESSION]));
    assert_eq!(full.len(), 65_506);
    assert!(full.len() <= MAX_PAYLOAD);
    let over = encode(&NetworkEvent::Peers(vec![wide; MAX_SESSION + 1]));
    assert_eq!(over.len(), 65_528);
    assert!(over.len() > MAX_PAYLOAD);
}
