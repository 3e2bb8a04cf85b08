use esp32_ble::ble::chr::{AttrWrite, BlePeerCharacteristic, BlePeerDescriptor, WriteStep};
use esp32_ble::ble::disc::{Discovery, DiscoveryStatus, BLE_HS_EDONE};
use esp32_ble::ble::svc::BlePeerService;
use esp32_ble::ble::uuid::{position_by_uuid, BleUUID};
use esp32_ble::ble::{host_result, BleError, GattOperation};

fn chr(def_handle: u16, properties: u8) -> BlePeerCharacteristic {
    BlePeerCharacteristic {
        conn_handle: 1,
        def_handle,
        val_handle: def_handle + 1,
        end_handle: 0,
        properties,
        uuid: BleUUID::Uuid16(def_handle),
    }
}

fn dsc(handle: u16, uuid: u16) -> BlePeerDescriptor {
    BlePeerDescriptor { conn_handle: 1, chr_val_handle: 2, handle, uuid: BleUUID::Uuid16(uuid) }
}

#[test]
fn empty_discovery_is_complete_and_empty() {
    let mut d: Discovery<u16> = Discovery::new();
    assert_eq!(d.on_event(None, BLE_HS_EDONE), DiscoveryStatus::Complete);
    assert!(d.into_items().is_empty());
}

#[test]
fn discovery_keeps_report_order() {
    let mut d: Discovery<u16> = Discovery::new();
    assert_eq!(d.on_event(Some(3), 0), DiscoveryStatus::InProgress);
    assert_eq!(d.on_event(Some(1), 0), DiscoveryStatus::InProgress);
    assert_eq!(d.on_event(None, 0), DiscoveryStatus::InProgress);
    assert_eq!(d.on_event(Some(2), BLE_HS_EDONE), DiscoveryStatus::Complete);
    assert_eq!(d.on_event(Some(9), 0), DiscoveryStatus::Complete);
    assert_eq!(d.status(), DiscoveryStatus::Complete);
    assert_eq!(d.into_items(), vec![3, 1, 2]);
}

#[test]
fn discovery_failure_status() {
    let mut d: Discovery<u16> = Discovery::new();
    d.on_event(Some(1), 0);
    assert_eq!(d.on_event(None, 7), DiscoveryStatus::Failed(7));
    assert_eq!(d.on_event(None, BLE_HS_EDONE), DiscoveryStatus::Failed(7));
}

#[test]
fn end_handles_from_next_definition() {
    let svc = BlePeerService { conn_handle: 1, start_handle: 1, end_handle: 20, uuid: BleUUID::Uuid16(1) };
    let mut chrs = vec![chr(3, 0), chr(6, 0), chr(9, 0)];
    svc.set_end_handles(&mut chrs);
    let ends: Vec<u16> = chrs.iter().map(|c| c.end_handle).collect();
    assert_eq!(ends, vec![5, 8, 20]);
    assert_eq!(chrs[1].def_handle, 6);
    assert_eq!(chrs[1].val_handle, 7);
}

#[test]
fn end_handles_single_and_empty() {
    let svc = BlePeerService { conn_handle: 1, start_handle: 1, end_handle: 0xffff, uuid: BleUUID::Uuid16(1) };
    let mut one = vec![chr(4, 0)];
    svc.set_end_handles(&mut one);
    assert_eq!(one[0].end_handle, 0xffff);
    let mut none: Vec<BlePeerCharacteristic> = vec![];
    svc.set_end_handles(&mut none);
    assert!(none.is_empty());
}

#[test]
fn write_at_mtu_is_submitted() {
    let w = AttrWrite { conn_handle: 1, attr_handle: 3, len: 23, with_response: true };
    assert_eq!(w.on_mtu(23), WriteStep::Submit { len: 23 });
}

#[test]
fn write_over_mtu_fails_before_submission() {
    let w = AttrWrite { conn_handle: 1, attr_handle: 3, len: 24, with_response: false };
    assert_eq!(w.on_mtu(23), WriteStep::Failed(BleError::PayloadTooLarge { len: 24, mtu: 23 }));
}

#[test]
fn write_steps_after_submission() {
    let with = AttrWrite { conn_handle: 1, attr_handle: 3, len: 2, with_response: true };
    let without = AttrWrite { with_response: false, ..with };
    assert_eq!(with.on_submitted(0), WriteStep::AwaitStatus);
    assert_eq!(without.on_submitted(0), WriteStep::Succeeded);
    assert_eq!(with.on_submitted(6), WriteStep::Failed(BleError::HostRequest(6)));
    assert_eq!(with.on_status(0), WriteStep::Succeeded);
    assert_eq!(with.on_status(0x0103), WriteStep::Failed(BleError::Remote(0x0103)));
}

#[test]
fn host_result_codes() {
    assert_eq!(host_result(0), Ok(()));
    assert_eq!(host_result(-3), Err(BleError::HostRequest(-3)));
}

#[test]
fn properties_are_bits() {
    let c = chr(3, 0x08 | 0x10);
    assert!(c.can_write());
    assert!(c.can_notify());
    assert!(!c.can_read());
    assert!(!c.can_write_no_response());
    assert!(!c.can_indicate());
    assert!(!c.can_broadcast());
    let all = chr(3, 0x3f);
    assert!(all.can_read() && all.can_broadcast() && all.can_indicate() && all.can_write_no_response());
}

#[test]
fn characteristic_write_request_checks_capability() {
    let c = chr(3, 0x08);
    assert_eq!(
        c.write_request(6, true),
        Ok(AttrWrite { conn_handle: 1, attr_handle: 4, len: 6, with_response: true })
    );
    assert_eq!(
        c.write_request(6, false),
        Err(BleError::NotSupported(GattOperation::WriteNoResponse))
    );
    let n = chr(3, 0x04);
    assert_eq!(n.write_request(1, true), Err(BleError::NotSupported(GattOperation::Write)));
}

#[test]
fn descriptor_write_request() {
    let d = dsc(9, 0x2902);
    assert_eq!(
        d.write_request(1, false),
        AttrWrite { conn_handle: 1, attr_handle: 9, len: 1, with_response: false }
    );
}

#[test]
fn notify_config_targets_client_config_descriptor() {
    let c = chr(3, 0x10);
    let descriptors = vec![dsc(5, 0x2901), dsc(6, 0x2902), dsc(7, 0x2902)];
    let (w, value) = c.notify_config_write(&descriptors, true).unwrap();
    assert_eq!(w, AttrWrite { conn_handle: 1, attr_handle: 6, len: 2, with_response: true });
    assert_eq!(value, [1, 0]);
    let (_, off) = c.notify_config_write(&descriptors, false).unwrap();
    assert_eq!(off, [0, 0]);
}

#[test]
fn notify_config_errors() {
    let c = chr(3, 0x10);
    assert_eq!(
        c.notify_config_write(&vec![dsc(5, 0x2901)], true),
        Err(BleError::MissingConfigDescriptor)
    );
    let silent = chr(3, 0x08);
    assert_eq!(silent.check_notify(), Err(BleError::NotSupported(GattOperation::Notify)));
    assert_eq!(c.check_notify(), Ok(()));
    assert_eq!(
        silent.notify_config_write(&vec![dsc(6, 0x2902)], true),
        Err(BleError::NotSupported(GattOperation::Notify))
    );
}

#[test]
fn position_by_uuid_finds_first() {
    let descriptors = vec![dsc(5, 0x2901), dsc(6, 0x2902), dsc(7, 0x2902)];
    assert_eq!(position_by_uuid(&descriptors, &BleUUID::Uuid16(0x2902)), Some(1));
    assert_eq!(position_by_uuid(&descriptors, &BleUUID::Uuid16(0x2903)), None);
    assert_eq!(position_by_uuid(&descriptors, &BleUUID::Uuid128([0; 16])), None);
}
