use esp32_ble::ble::client::{
    connect_resolution, finish_connect, monitor_event, on_gap_event, setup_step_event,
    BleConnectEvent, ConnectResolution, GapAction, GapEvent,
};
use esp32_ble::ble::dev::BlePeerDeviceAddress;
use esp32_ble::ble::scan::{advertised_name, record_advertisement};
use esp32_ble::ble::{BleError, DeviceRegistry};

fn addr(last: u8) -> BlePeerDeviceAddress {
    BlePeerDeviceAddress { kind: 0, val: [9, 9, 9, 9, 9, last] }
}

#[test]
fn connect_event_starts_negotiation() {
    assert!(matches!(
        on_gap_event(GapEvent::Connect { status: 0, conn_handle: 3 }),
        GapAction::Negotiate(3)
    ));
    assert!(matches!(
        on_gap_event(GapEvent::Connect { status: 13, conn_handle: 3 }),
        GapAction::Deliver(BleConnectEvent::Error(13))
    ));
}

#[test]
fn mtu_starts_security_and_encryption_connects() {
    assert!(matches!(on_gap_event(GapEvent::Mtu { conn_handle: 2 }), GapAction::Secure(2)));
    assert!(matches!(
        on_gap_event(GapEvent::EncryptionChange { conn_handle: 2 }),
        GapAction::Deliver(BleConnectEvent::Connected(2))
    ));
    assert!(matches!(
        on_gap_event(GapEvent::Disconnect { conn_handle: 2 }),
        GapAction::Deliver(BleConnectEvent::Disconnected(2))
    ));
    assert!(matches!(on_gap_event(GapEvent::Other), GapAction::Ignore));
}

#[test]
fn pushed_values_are_delivered() {
    match on_gap_event(GapEvent::NotifyRx { data: vec![1, 2], indication: false }) {
        GapAction::Deliver(BleConnectEvent::Notification(d)) => assert_eq!(d, vec![1, 2]),
        other => panic!("unexpected {:?}", other),
    }
    match on_gap_event(GapEvent::NotifyRx { data: vec![3], indication: true }) {
        GapAction::Deliver(BleConnectEvent::Indication(d)) => assert_eq!(d, vec![3]),
        other => panic!("unexpected {:?}", other),
    }
}

#[test]
fn setup_steps_report_failures() {
    assert!(setup_step_event(0).is_none());
    assert!(matches!(setup_step_event(5), Some(BleConnectEvent::Error(5))));
}

#[test]
fn resolutions() {
    assert_eq!(
        connect_resolution(&BleConnectEvent::Connected(4)),
        Some(ConnectResolution::Connected(4))
    );
    assert_eq!(connect_resolution(&BleConnectEvent::Error(2)), Some(ConnectResolution::Failed(2)));
    assert_eq!(
        connect_resolution(&BleConnectEvent::Disconnected(4)),
        Some(ConnectResolution::Disconnected)
    );
    assert_eq!(connect_resolution(&BleConnectEvent::Notification(vec![])), None);
    assert_eq!(connect_resolution(&BleConnectEvent::Indication(vec![1])), None);
}

#[test]
fn finish_connect_outcomes() {
    let mut r: DeviceRegistry<u8> = DeviceRegistry::new();
    r.insert_discovered(addr(1), String::from("x"));
    assert_eq!(finish_connect(&mut r, &addr(1), ConnectResolution::Connected(8), 1), Ok(()));
    assert_eq!(r.conn_handle(&addr(1)), Some(8));
    assert_eq!(r.take_events(&addr(1)), Some(1));
    assert_eq!(finish_connect(&mut r, &addr(1), ConnectResolution::Disconnected, 2), Ok(()));
    assert_eq!(r.conn_handle(&addr(1)), None);
    r.set_connected(&addr(1), 8, 3);
    assert_eq!(
        finish_connect(&mut r, &addr(1), ConnectResolution::Failed(26), 4),
        Err(BleError::ConnectFailed(26))
    );
    assert_eq!(r.conn_handle(&addr(1)), None);
}

#[test]
fn monitor_clears_disconnected_handle() {
    let mut r: DeviceRegistry<u8> = DeviceRegistry::new();
    r.insert_discovered(addr(1), String::new());
    r.insert_discovered(addr(2), String::new());
    r.set_connected(&addr(1), 1, 0);
    r.set_connected(&addr(2), 2, 0);
    monitor_event(&mut r, &BleConnectEvent::Notification(vec![1]));
    assert_eq!(r.connected_addresses(), vec![addr(1), addr(2)]);
    monitor_event(&mut r, &BleConnectEvent::Disconnected(2));
    assert_eq!(r.conn_handle(&addr(2)), None);
    assert_eq!(r.conn_handle(&addr(1)), Some(1));
}

#[test]
fn advertised_names() {
    assert_eq!(advertised_name(true, b"SteamController".to_vec()), "SteamController");
    assert_eq!(advertised_name(false, b"Steam".to_vec()), "");
    assert_eq!(advertised_name(true, vec![0xff, 0xfe]), "");
    assert_eq!(advertised_name(true, vec![0xc3, 0xa9]), "\u{e9}");
}

#[test]
fn advertisement_replaces_entry() {
    let mut r: DeviceRegistry<u8> = DeviceRegistry::new();
    record_advertisement(&mut r, addr(1), true, b"pad".to_vec());
    r.set_connected(&addr(1), 3, 0);
    record_advertisement(&mut r, addr(1), false, b"pad".to_vec());
    assert_eq!(r.name(&addr(1)), Some(String::new()));
    assert_eq!(r.conn_handle(&addr(1)), None);
    record_advertisement(&mut r, addr(2), true, b"other".to_vec());
    assert_eq!(r.name(&addr(2)), Some(String::from("other")));
}
