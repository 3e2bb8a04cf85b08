use esp32_ble::ble::client::BleConnectEvent;
use esp32_ble::steam_controller::{
    controller_match, decode_steam_controller_packet, route_controller_event, same_text, Axis,
    Button, ControllerEvent, ControllerStep, FrameError, STEAM_CONTROLLER_BUTTON_A,
};

#[test]
fn single_button_frame_then_replay() {
    let frame = [0xc0, 0x14, 0x00, 0x80, 0x00, 0x00];
    let mut prev: u32 = 0;
    let events = decode_steam_controller_packet(&frame, &mut prev).unwrap();
    assert_eq!(events, vec![ControllerEvent::ButtonPressed(Button::South)]);
    assert_eq!(prev, STEAM_CONTROLLER_BUTTON_A);
    let again = decode_steam_controller_packet(&frame, &mut prev).unwrap();
    assert!(again.is_empty());
}

#[test]
fn button_edges_press_and_release() {
    let mut prev: u32 = STEAM_CONTROLLER_BUTTON_A;
    let frame = [0xc0, 0x14, 0x00, 0x20, 0x00, 0x00];
    let events = decode_steam_controller_packet(&frame, &mut prev).unwrap();
    assert_eq!(
        events,
        vec![
            ControllerEvent::ButtonReleased(Button::South),
            ControllerEvent::ButtonPressed(Button::East),
        ]
    );
    assert_eq!(prev, 0x200000);
}

#[test]
fn every_mapped_button_once() {
    let mut prev: u32 = 0;
    let frame = [0xc0, 0x14, 0x00, 0xff, 0xff, 0xff];
    let events = decode_steam_controller_packet(&frame, &mut prev).unwrap();
    assert_eq!(events.len(), 18);
    assert_eq!(events[3], ControllerEvent::ButtonPressed(Button::North));
    assert_eq!(events[17], ControllerEvent::ButtonPressed(Button::RightPad));
    let release = [0xc0, 0x14, 0x00, 0x00, 0x00, 0x00];
    let released = decode_steam_controller_packet(&release, &mut prev).unwrap();
    assert_eq!(released.len(), 18);
    assert!(released.iter().all(|e| matches!(e, ControllerEvent::ButtonReleased(_))));
}

#[test]
fn unmapped_bits_emit_nothing() {
    let mut prev: u32 = 0;
    let frame = [0xc0, 0x14, 0x00, 0x00, 0x0f, 0xa0];
    let events = decode_steam_controller_packet(&frame, &mut prev).unwrap();
    assert!(events.is_empty());
    assert_eq!(prev, 0x000fa0);
}

#[test]
fn paddles_and_joystick() {
    let mut prev: u32 = 0;
    let frame = [0xc0, 0xa4, 0x00, 10, 20, 0x00, 0x80, 0xff, 0x7f];
    let events = decode_steam_controller_packet(&frame, &mut prev).unwrap();
    assert_eq!(
        events,
        vec![
            ControllerEvent::TriggerChanged(Button::LeftTrigger2, 10),
            ControllerEvent::TriggerChanged(Button::RightTrigger2, 20),
            ControllerEvent::AxisChanged(Axis::LeftStickX, -32768),
            ControllerEvent::AxisChanged(Axis::LeftStickY, 32767),
        ]
    );
    assert_eq!(prev, 0);
}

#[test]
fn both_pads_follow_joystick() {
    let mut prev: u32 = 5;
    let frame = [0xc0, 0x84, 0x03, 9, 0, 8, 0, 1, 0, 2, 0, 3, 0, 0xfe, 0xff];
    let events = decode_steam_controller_packet(&frame, &mut prev).unwrap();
    assert_eq!(
        events,
        vec![
            ControllerEvent::AxisChanged(Axis::LeftStickX, 9),
            ControllerEvent::AxisChanged(Axis::LeftStickY, 8),
            ControllerEvent::AxisChanged(Axis::LeftPadX, 1),
            ControllerEvent::AxisChanged(Axis::LeftPadY, 2),
            ControllerEvent::AxisChanged(Axis::RightPadX, 3),
            ControllerEvent::AxisChanged(Axis::RightPadY, -2),
        ]
    );
    assert_eq!(prev, 5);
}

#[test]
fn non_report_frames_are_silent() {
    let mut prev: u32 = 7;
    assert_eq!(decode_steam_controller_packet(&[0xc0, 0x05], &mut prev), Ok(vec![]));
    assert_eq!(decode_steam_controller_packet(&[0xc0, 0x15, 0x00, 0xff], &mut prev), Ok(vec![]));
    assert_eq!(decode_steam_controller_packet(&[0xc0, 0x0b, 0x00], &mut prev), Ok(vec![]));
    assert_eq!(prev, 7);
}

#[test]
fn malformed_frames_are_rejected() {
    let mut prev: u32 = 7;
    assert_eq!(
        decode_steam_controller_packet(&[], &mut prev),
        Err(FrameError::Truncated { needed: 1, len: 0 })
    );
    assert_eq!(
        decode_steam_controller_packet(&[0x01, 0x14, 0x00], &mut prev),
        Err(FrameError::BadMarker(0x01))
    );
    assert_eq!(
        decode_steam_controller_packet(&[0xc0], &mut prev),
        Err(FrameError::Truncated { needed: 2, len: 1 })
    );
    assert_eq!(
        decode_steam_controller_packet(&[0xc0, 0x04], &mut prev),
        Err(FrameError::Truncated { needed: 3, len: 2 })
    );
    assert_eq!(
        decode_steam_controller_packet(&[0xc0, 0x14, 0x00, 0x80], &mut prev),
        Err(FrameError::Truncated { needed: 6, len: 4 })
    );
    assert_eq!(prev, 7);
}

#[test]
fn routing_of_stream_events() {
    let mut prev: u32 = 0;
    match route_controller_event(
        BleConnectEvent::Notification(vec![0xc0, 0x14, 0x00, 0x80, 0x00, 0x00]),
        &mut prev,
    ) {
        ControllerStep::Events(e) => {
            assert_eq!(e, vec![ControllerEvent::ButtonPressed(Button::South)])
        }
        other => panic!("unexpected {:?}", other),
    }
    assert!(matches!(
        route_controller_event(BleConnectEvent::Notification(vec![0x00]), &mut prev),
        ControllerStep::Dropped(FrameError::BadMarker(0))
    ));
    assert!(matches!(
        route_controller_event(BleConnectEvent::Indication(vec![0xc0]), &mut prev),
        ControllerStep::Skip
    ));
    assert!(matches!(
        route_controller_event(BleConnectEvent::Disconnected(1), &mut prev),
        ControllerStep::Stop
    ));
    assert_eq!(prev, STEAM_CONTROLLER_BUTTON_A);
}

#[test]
fn controller_selection() {
    let addr = "AB:05:04:03:02:01";
    assert_eq!(controller_match(addr, "other", Some(addr)), Some(true));
    assert_eq!(controller_match(addr, "SteamController", None), Some(false));
    assert_eq!(controller_match(addr, "SteamController", Some("00:00:00:00:00:00")), Some(false));
    assert_eq!(controller_match(addr, "Steam", Some("00:00:00:00:00:00")), None);
    assert_eq!(controller_match(addr, "", None), None);
}

#[test]
fn text_comparison() {
    assert!(same_text("abc", "abc"));
    assert!(!same_text("abc", "abd"));
    assert!(!same_text("abc", "ab"));
    assert!(same_text("", ""));
}
