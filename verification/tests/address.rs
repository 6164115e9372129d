use boxes_rs::address::{Address, RECEIVER_PORT};

#[test]
fn the_receiver_port_is_fixed() {
    assert_eq!(RECEIVER_PORT, 9999);
}

#[test]
fn the_receiver_of_a_sender_is_on_the_same_machine() {
    let src = Address::V4 { ip: 0xc0a8_0005, port: 9998 };
    assert_eq!(src.receiver(), Address::V4 { ip: 0xc0a8_0005, port: 9999 });
    let src = Address::V6 { ip: 1, port: 40000 };
    assert_eq!(src.receiver(), Address::V6 { ip: 1, port: 9999 });
}

#[test]
fn with_port_changes_the_port_only() {
    let addr = Address::V4 { ip: 0x7f00_0001, port: 1 };
    assert_eq!(addr.with_port(2), Address::V4 { ip: 0x7f00_0001, port: 2 });
    assert_eq!(addr.with_port(2).port(), 2);
    assert_eq!(addr.port(), 1);
}

#[test]
fn every_interface_is_the_unspecified_address_on_the_receiver_port() {
    assert_eq!(Address::any_interface(), Address::V4 { ip: 0, port: 9999 });
}
