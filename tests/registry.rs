use esp32_ble::ble::dev::BlePeerDeviceAddress;
use esp32_ble::ble::{BlePeerDeviceSharedState, DeviceRegistry};

fn addr(last: u8) -> BlePeerDeviceAddress {
    BlePeerDeviceAddress { kind: 0, val: [1, 2, 3, 4, 5, last] }
}

#[test]
fn shared_state_starts_disconnected() {
    let s: BlePeerDeviceSharedState<u32> = BlePeerDeviceSharedState::new(String::from("pad"));
    assert_eq!(s.conn_handle, None);
    assert_eq!(s.name, "pad");
    assert!(s.event_rx.is_none());
}

#[test]
fn address_text_is_reversed_uppercase() {
    let a = BlePeerDeviceAddress { kind: 1, val: [0x01, 0x02, 0x03, 0x04, 0x05, 0xab] };
    assert_eq!(a.to_string(), "AB:05:04:03:02:01");
}

#[test]
fn address_equality_uses_type_and_bytes() {
    assert!(addr(1) == addr(1));
    assert!(addr(1) != addr(2));
    let other_kind = BlePeerDeviceAddress { kind: 1, val: [1, 2, 3, 4, 5, 1] };
    assert!(addr(1) != other_kind);
}

#[test]
fn insert_then_overwrite() {
    let mut r: DeviceRegistry<u32> = DeviceRegistry::new();
    r.insert_discovered(addr(1), String::from("first"));
    assert!(r.set_connected(&addr(1), 7, 70));
    assert_eq!(r.conn_handle(&addr(1)), Some(7));
    r.insert_discovered(addr(1), String::from("again"));
    assert_eq!(r.conn_handle(&addr(1)), None);
    assert_eq!(r.name(&addr(1)), Some(String::from("again")));
    assert_eq!(r.take_events(&addr(1)), None);
}

#[test]
fn unknown_address_is_not_connected() {
    let mut r: DeviceRegistry<u32> = DeviceRegistry::new();
    assert_eq!(r.conn_handle(&addr(9)), None);
    assert_eq!(r.name(&addr(9)), None);
    assert!(!r.is_connected(&addr(9)));
    assert!(!r.set_connected(&addr(9), 1, 10));
}

#[test]
fn disconnect_clears_every_entry_with_the_handle() {
    let mut r: DeviceRegistry<u32> = DeviceRegistry::new();
    r.insert_discovered(addr(1), String::from("a"));
    r.insert_discovered(addr(2), String::from("b"));
    r.insert_discovered(addr(3), String::from("c"));
    r.set_connected(&addr(1), 5, 50);
    r.set_connected(&addr(2), 6, 60);
    r.set_connected(&addr(3), 5, 55);
    r.on_disconnected(5);
    assert_eq!(r.conn_handle(&addr(1)), None);
    assert_eq!(r.conn_handle(&addr(2)), Some(6));
    assert_eq!(r.conn_handle(&addr(3)), None);
    assert_eq!(r.connected_addresses(), vec![addr(2)]);
}

#[test]
fn events_are_lent_and_returned_only_while_connected() {
    let mut r: DeviceRegistry<u32> = DeviceRegistry::new();
    r.insert_discovered(addr(1), String::from("a"));
    r.set_connected(&addr(1), 4, 40);
    assert_eq!(r.take_events(&addr(1)), Some(40));
    assert_eq!(r.take_events(&addr(1)), None);
    r.return_events(&addr(1), 41);
    assert_eq!(r.take_events(&addr(1)), Some(41));
    r.on_disconnected(4);
    r.return_events(&addr(1), 42);
    assert_eq!(r.take_events(&addr(1)), None);
}

#[test]
fn take_for_disconnect_needs_handle_and_stream() {
    let mut r: DeviceRegistry<u32> = DeviceRegistry::new();
    r.insert_discovered(addr(1), String::from("a"));
    assert_eq!(r.take_for_disconnect(&addr(1)), None);
    r.set_connected(&addr(1), 3, 30);
    assert_eq!(r.take_for_disconnect(&addr(1)), Some((3, 30)));
    assert_eq!(r.take_for_disconnect(&addr(1)), None);
    assert_eq!(r.conn_handle(&addr(1)), Some(3));
}

#[test]
fn connected_addresses_keep_registry_order() {
    let mut r: DeviceRegistry<u32> = DeviceRegistry::new();
    for i in 1..=4 {
        r.insert_discovered(addr(i), String::new());
    }
    r.set_connected(&addr(4), 1, 0);
    r.set_connected(&addr(2), 2, 0);
    assert_eq!(r.connected_addresses(), vec![addr(2), addr(4)]);
    r.set_disconnected(&addr(4));
    assert_eq!(r.connected_addresses(), vec![addr(2)]);
}
