use crate::ble::client::BleConnectEvent;
use vstd::prelude::*;

verus! {

pub const STEAM_CONTROLLER_BUTTON_A: u32 = 0x800000;

pub const STEAM_CONTROLLER_BUTTON_X: u32 = 0x400000;

pub const STEAM_CONTROLLER_BUTTON_B: u32 = 0x200000;

pub const STEAM_CONTROLLER_BUTTON_Y: u32 = 0x100000;

pub const STEAM_CONTROLLER_BUTTON_LEFT_BUMPER: u32 = 0x080000;

pub const STEAM_CONTROLLER_BUTTON_RIGHT_BUMPER: u32 = 0x040000;

pub const STEAM_CONTROLLER_BUTTON_LEFT_TRIGGER: u32 = 0x020000;

pub const STEAM_CONTROLLER_BUTTON_RIGHT_TRIGGER: u32 = 0x010000;

pub const STEAM_CONTROLLER_BUTTON_LEFT_PADDLE: u32 = 0x008000;

pub const STEAM_CONTROLLER_BUTTON_RIGHT_PADDLE: u32 = 0x000001;

pub const STEAM_CONTROLLER_BUTTON_NAV_RIGHT: u32 = 0x004000;

pub const STEAM_CONTROLLER_BUTTON_NAV_LEFT: u32 = 0x001000;

pub const STEAM_CONTROLLER_BUTTON_STEAM: u32 = 0x002000;

pub const STEAM_CONTROLLER_BUTTON_JOYSTICK: u32 = 0x000040;

pub const STEAM_CONTROLLER_BUTTON_RIGHT_PAD_TOUCH: u32 = 0x000010;

pub const STEAM_CONTROLLER_BUTTON_RIGHT_PAD_CLICK: u32 = 0x000004;

pub const STEAM_CONTROLLER_BUTTON_LEFT_PAD_TOUCH: u32 = 0x000008;

pub const STEAM_CONTROLLER_BUTTON_LEFT_PAD_CLICK: u32 = 0x000002;

pub const STEAM_CONTROLLER_FLAG_REPORT: u8 = 0x04;

pub const STEAM_CONTROLLER_FLAG_BUTTONS: u16 = 0x0010;

pub const STEAM_CONTROLLER_FLAG_PADDLES: u16 = 0x0020;

pub const STEAM_CONTROLLER_FLAG_JOYSTICK: u16 = 0x0080;

pub const STEAM_CONTROLLER_FLAG_LEFT_PAD: u16 = 0x0100;

pub const STEAM_CONTROLLER_FLAG_RIGHT_PAD: u16 = 0x0200;

/// The first byte of every controller frame.
pub const FRAME_MARKER: u8 = 0xc0;

/// The number of buttons that the button bitmask reports.
pub const BUTTON_COUNT: usize = 18;

/// The GATT service through which the controller reports.
pub const SERVICE_UUID: &'static str = "100f6c32-1735-4313-b402-38567131e5f3";

/// The characteristic that notifies controller frames.
pub const EVENTS_CHR_UUID: &'static str = "100F6C33-1735-4313-B402-38567131E5F3";

/// The characteristic that switches the controller's mode.
pub const STEAM_MODE_CHR_UUID: &'static str = "100F6C34-1735-4313-B402-38567131E5F3";

/// The name under which a controller in pairing mode advertises.
pub const CONTROLLER_NAME: &'static str = "SteamController";

/// The command that puts the controller into steam mode, with faster reports.
pub const STEAM_MODE_COMMAND: [u8; 6] = [0xc0, 0x87, 0x03, 0x08, 0x07, 0x00];

#[derive(Clone, Copy, Debug, PartialEq, Eq, Structural)]
pub enum Button {
    South,
    North,
    East,
    West,
    LeftTrigger,
    LeftTrigger2,
    RightTrigger,
    RightTrigger2,
    LeftBumper,
    RightBumper,
    LeftPaddle,
    RightPaddle,
    NavLeft,
    NavRight,
    Steam,
    LeftStick,
    LeftPad,
    LeftPad2,
    RightPad,
    RightPad2,
}

#[derive(Clone, Copy, Debug, PartialEq, Eq, Structural)]
pub enum Axis {
    LeftPadX,
    LeftPadY,
    RightPadX,
    RightPadY,
    LeftStickX,
    LeftStickY,
}

/// One change that a controller frame reports.
#[derive(Clone, Copy, Debug, PartialEq, Eq, Structural)]
pub enum ControllerEvent {
    ButtonPressed(Button),
    ButtonReleased(Button),
    /// An analog trigger's pressure, from 0 to 255.
    TriggerChanged(Button, u8),
    /// An axis position, as the signed 16-bit value the frame carries.
    AxisChanged(Axis, i16),
}

/// Why a frame was dropped.
#[derive(Clone, Copy, Debug, PartialEq, Eq, Structural)]
pub enum FrameError {
    /// The frame does not start with the marker; its first byte.
    BadMarker(u8),
    /// The frame is shorter than its flags call for.
    Truncated { needed: usize, len: usize },
}

/// The button reported by the `k`-th bit of the table, in the order in
/// which the events of one frame are listed.
pub open spec fn table_button(k: int) -> Button {
    if k == 0 {
        Button::South
    } else if k == 1 {
        Button::East
    } else if k == 2 {
        Button::West
    } else if k == 3 {
        Button::North
    } else if k == 4 {
        Button::LeftBumper
    } else if k == 5 {
        Button::RightBumper
    } else if k == 6 {
        Button::LeftTrigger
    } else if k == 7 {
        Button::RightTrigger
    } else if k == 8 {
        Button::LeftPaddle
    } else if k == 9 {
        Button::RightPaddle
    } else if k == 10 {
        Button::NavLeft
    } else if k == 11 {
        Button::NavRight
    } else if k == 12 {
        Button::Steam
    } else if k == 13 {
        Button::LeftStick
    } else if k == 14 {
        Button::LeftPad2
    } else if k == 15 {
        Button::LeftPad
    } else if k == 16 {
        Button::RightPad2
    } else {
        Button::RightPad
    }
}

/// The bit of the button bitmask for the `k`-th button of the table.
pub open spec fn table_bit(k: int) -> u32 {
    if k == 0 {
        STEAM_CONTROLLER_BUTTON_A
    } else if k == 1 {
        STEAM_CONTROLLER_BUTTON_B
    } else if k == 2 {
        STEAM_CONTROLLER_BUTTON_X
    } else if k == 3 {
        STEAM_CONTROLLER_BUTTON_Y
    } else if k == 4 {
        STEAM_CONTROLLER_BUTTON_LEFT_BUMPER
    } else if k == 5 {
        STEAM_CONTROLLER_BUTTON_RIGHT_BUMPER
    } else if k == 6 {
        STEAM_CONTROLLER_BUTTON_LEFT_TRIGGER
    } else if k == 7 {
        STEAM_CONTROLLER_BUTTON_RIGHT_TRIGGER
    } else if k == 8 {
        STEAM_CONTROLLER_BUTTON_LEFT_PADDLE
    } else if k == 9 {
        STEAM_CONTROLLER_BUTTON_RIGHT_PADDLE
    } else if k == 10 {
        STEAM_CONTROLLER_BUTTON_NAV_LEFT
    } else if k == 11 {
        STEAM_CONTROLLER_BUTTON_NAV_RIGHT
    } else if k == 12 {
        STEAM_CONTROLLER_BUTTON_STEAM
    } else if k == 13 {
        STEAM_CONTROLLER_BUTTON_JOYSTICK
    } else if k == 14 {
        STEAM_CONTROLLER_BUTTON_LEFT_PAD_CLICK
    } else if k == 15 {
        STEAM_CONTROLLER_BUTTON_LEFT_PAD_TOUCH
    } else if k == 16 {
        STEAM_CONTROLLER_BUTTON_RIGHT_PAD_CLICK
    } else {
        STEAM_CONTROLLER_BUTTON_RIGHT_PAD_TOUCH
    }
}

/// The position of a button in the table (the analog triggers have none).
pub open spec fn table_slot(b: Button) -> int {
    match b {
        Button::South => 0,
        Button::East => 1,
        Button::West => 2,
        Button::North => 3,
        Button::LeftBumper => 4,
        Button::RightBumper => 5,
        Button::LeftTrigger => 6,
        Button::RightTrigger => 7,
        Button::LeftPaddle => 8,
        Button::RightPaddle => 9,
        Button::NavLeft => 10,
        Button::NavRight => 11,
        Button::Steam => 12,
        Button::LeftStick => 13,
        Button::LeftPad2 => 14,
        Button::LeftPad => 15,
        Button::RightPad2 => 16,
        Button::RightPad => 17,
        _ => -1,
    }
}

/// The event for the `k`-th button when the bitmask goes from `prev` to
/// `now`: pressed when its bit comes on, released when it goes off,
/// nothing when it stays.
pub open spec fn edge_events(prev: u32, now: u32, k: int) -> Seq<ControllerEvent> {
    let bit = table_bit(k);
    if now & bit != 0 && prev & bit == 0 {
        seq![ControllerEvent::ButtonPressed(table_button(k))]
    } else if now & bit == 0 && prev & bit != 0 {
        seq![ControllerEvent::ButtonReleased(table_button(k))]
    } else {
        Seq::empty()
    }
}

/// The events of the first `n` buttons of the table, in table order.
pub open spec fn button_events_upto(prev: u32, now: u32, n: int) -> Seq<ControllerEvent>
    decreases n,
{
    if n <= 0 {
        Seq::empty()
    } else {
        button_events_upto(prev, now, n - 1) + edge_events(prev, now, n - 1)
    }
}

/// The button events when the bitmask goes from `prev` to `now`.
pub open spec fn button_events(prev: u32, now: u32) -> Seq<ControllerEvent> {
    button_events_upto(prev, now, BUTTON_COUNT as int)
}

/// The bit and the button of the `k`-th entry of the table.
fn table_entry(k: usize) -> (r: (u32, Button))
    requires
        k < BUTTON_COUNT,
    ensures
        r == (table_bit(k as int), table_button(k as int)),
{
    match k {
        0 => (STEAM_CONTROLLER_BUTTON_A, Button::South),
        1 => (STEAM_CONTROLLER_BUTTON_B, Button::East),
        2 => (STEAM_CONTROLLER_BUTTON_X, Button::West),
        3 => (STEAM_CONTROLLER_BUTTON_Y, Button::North),
        4 => (STEAM_CONTROLLER_BUTTON_LEFT_BUMPER, Button::LeftBumper),
        5 => (STEAM_CONTROLLER_BUTTON_RIGHT_BUMPER, Button::RightBumper),
        6 => (STEAM_CONTROLLER_BUTTON_LEFT_TRIGGER, Button::LeftTrigger),
        7 => (STEAM_CONTROLLER_BUTTON_RIGHT_TRIGGER, Button::RightTrigger),
        8 => (STEAM_CONTROLLER_BUTTON_LEFT_PADDLE, Button::LeftPaddle),
        9 => (STEAM_CONTROLLER_BUTTON_RIGHT_PADDLE, Button::RightPaddle),
        10 => (STEAM_CONTROLLER_BUTTON_NAV_LEFT, Button::NavLeft),
        11 => (STEAM_CONTROLLER_BUTTON_NAV_RIGHT, Button::NavRight),
        12 => (STEAM_CONTROLLER_BUTTON_STEAM, Button::Steam),
        13 => (STEAM_CONTROLLER_BUTTON_JOYSTICK, Button::LeftStick),
        14 => (STEAM_CONTROLLER_BUTTON_LEFT_PAD_CLICK, Button::LeftPad2),
        15 => (STEAM_CONTROLLER_BUTTON_LEFT_PAD_TOUCH, Button::LeftPad),
        16 => (STEAM_CONTROLLER_BUTTON_RIGHT_PAD_CLICK, Button::RightPad2),
        _ => (STEAM_CONTROLLER_BUTTON_RIGHT_PAD_TOUCH, Button::RightPad),
    }
}

/// Appends the button events for a bitmask that goes from `prev` to `now`.
pub fn push_button_events(events: &mut Vec<ControllerEvent>, prev: u32, now: u32)
    ensures
        final(events)@ == old(events)@ + button_events(prev, now),
{
    let mut k: usize = 0;
    while k < BUTTON_COUNT
        invariant
            k <= BUTTON_COUNT,
            events@ == old(events)@ + button_events_upto(prev, now, k as int),
        decreases BUTTON_COUNT - k,
    {
        let (bit, button) = table_entry(k);
        if now & bit != 0 && prev & bit == 0 {
            events.push(ControllerEvent::ButtonPressed(button));
        } else if now & bit == 0 && prev & bit != 0 {
            events.push(ControllerEvent::ButtonReleased(button));
        }
        k = k + 1;
        assert(events@ =~= old(events)@ + button_events_upto(prev, now, k as int));
    }
}

/// Whether the frame flags `flags` announce the field `flag`.
pub open spec fn has_flag(flags: u16, flag: u16) -> bool {
    flags & flag != 0
}

/// The bytes the field `flag` takes when announced: `n`, else none.
pub open spec fn field_len(flags: u16, flag: u16, n: int) -> int {
    if has_flag(flags, flag) {
        n
    } else {
        0
    }
}

/// Where each field starts: the fields follow the three header bytes in a
/// fixed order, each present only when its flag is set.
pub open spec fn paddles_at(flags: u16) -> int {
    3 + field_len(flags, STEAM_CONTROLLER_FLAG_BUTTONS, 3)
}

pub open spec fn joystick_at(flags: u16) -> int {
    paddles_at(flags) + field_len(flags, STEAM_CONTROLLER_FLAG_PADDLES, 2)
}

pub open spec fn left_pad_at(flags: u16) -> int {
    joystick_at(flags) + field_len(flags, STEAM_CONTROLLER_FLAG_JOYSTICK, 4)
}

pub open spec fn right_pad_at(flags: u16) -> int {
    left_pad_at(flags) + field_len(flags, STEAM_CONTROLLER_FLAG_LEFT_PAD, 4)
}

/// The length of a report frame with flags `flags`.
pub open spec fn report_len(flags: u16) -> int {
    right_pad_at(flags) + field_len(flags, STEAM_CONTROLLER_FLAG_RIGHT_PAD, 4)
}

/// The flags of a report frame: bytes 1 and 2, little-endian, low nibble cleared.
pub open spec fn frame_flags(d: Seq<u8>) -> u16 {
    ((d[1] as int + 256 * d[2] as int) as u16) & 0xfff0u16
}

/// The button bitmask in the three bytes at `p`, most significant first.
pub open spec fn buttons_at(d: Seq<u8>, p: int) -> u32 {
    (d[p] as int * 65536 + d[p + 1] as int * 256 + d[p + 2] as int) as u32
}

/// The signed 16-bit value of the little-endian bytes `lo`, `hi`.
pub open spec fn le_i16(lo: u8, hi: u8) -> i16 {
    ((lo as int + 256 * hi as int) as u16) as i16
}

/// The two axis events of the four bytes at `p`.
pub open spec fn axis_events(d: Seq<u8>, p: int, x: Axis, y: Axis) -> Seq<ControllerEvent> {
    seq![
        ControllerEvent::AxisChanged(x, le_i16(d[p], d[p + 1])),
        ControllerEvent::AxisChanged(y, le_i16(d[p + 2], d[p + 3])),
    ]
}

/// The trigger and axis events of a complete report frame `d` with flags
/// `flags`, in frame order; they do not depend on earlier frames.
pub open spec fn analog_events(d: Seq<u8>, flags: u16) -> Seq<ControllerEvent> {
    let p = paddles_at(flags);
    let paddles = if has_flag(flags, STEAM_CONTROLLER_FLAG_PADDLES) {
        seq![
            ControllerEvent::TriggerChanged(Button::LeftTrigger2, d[p]),
            ControllerEvent::TriggerChanged(Button::RightTrigger2, d[p + 1]),
        ]
    } else {
        Seq::empty()
    };
    let joystick = if has_flag(flags, STEAM_CONTROLLER_FLAG_JOYSTICK) {
        axis_events(d, joystick_at(flags), Axis::LeftStickX, Axis::LeftStickY)
    } else {
        Seq::empty()
    };
    let left = if has_flag(flags, STEAM_CONTROLLER_FLAG_LEFT_PAD) {
        axis_events(d, left_pad_at(flags), Axis::LeftPadX, Axis::LeftPadY)
    } else {
        Seq::empty()
    };
    let right = if has_flag(flags, STEAM_CONTROLLER_FLAG_RIGHT_PAD) {
        axis_events(d, right_pad_at(flags), Axis::RightPadX, Axis::RightPadY)
    } else {
        Seq::empty()
    };
    paddles + joystick + left + right
}

/// The events of a complete report frame `d` with flags `flags`, when the
/// buttons were `prev` before it: the button changes, then the analog events.
pub open spec fn report_events(d: Seq<u8>, flags: u16, prev: u32) -> Seq<ControllerEvent> {
    let buttons = if has_flag(flags, STEAM_CONTROLLER_FLAG_BUTTONS) {
        button_events(prev, buttons_at(d, 3))
    } else {
        Seq::empty()
    };
    buttons + analog_events(d, flags)
}

/// What decoding the frame `d` gives when the buttons were `prev`: its
/// events and the buttons after it, or the reason it is dropped. A frame
/// whose kind, the low nibble of byte 1, is not a report gives no events.
pub open spec fn decode_frame(d: Seq<u8>, prev: u32) -> Result<(Seq<ControllerEvent>, u32), FrameError> {
    if d.len() < 1 {
        Err(FrameError::Truncated { needed: 1, len: d.len() as usize })
    } else if d[0] != FRAME_MARKER {
        Err(FrameError::BadMarker(d[0]))
    } else if d.len() < 2 {
        Err(FrameError::Truncated { needed: 2, len: d.len() as usize })
    } else if d[1] & 0x0f != STEAM_CONTROLLER_FLAG_REPORT {
        Ok((Seq::empty(), prev))
    } else if d.len() < 3 {
        Err(FrameError::Truncated { needed: 3, len: d.len() as usize })
    } else if d.len() < report_len(frame_flags(d)) {
        Err(FrameError::Truncated { needed: report_len(frame_flags(d)) as usize, len: d.len() as usize })
    } else {
        let flags = frame_flags(d);
        let now = if has_flag(flags, STEAM_CONTROLLER_FLAG_BUTTONS) {
            buttons_at(d, 3)
        } else {
            prev
        };
        Ok((report_events(d, flags, prev), now))
    }
}

fn read_i16(lo: u8, hi: u8) -> (r: i16)
    ensures
        r == le_i16(lo, hi),
{
    (lo as u16 + 256 * hi as u16) as i16
}

fn push_axis_events(events: &mut Vec<ControllerEvent>, d: &[u8], p: usize, x: Axis, y: Axis)
    requires
        p + 4 <= d@.len(),
    ensures
        final(events)@ == old(events)@ + axis_events(d@, p as int, x, y),
{
    events.push(ControllerEvent::AxisChanged(x, read_i16(d[p], d[p + 1])));
    events.push(ControllerEvent::AxisChanged(y, read_i16(d[p + 2], d[p + 3])));
    assert(events@ =~= old(events)@ + axis_events(d@, p as int, x, y));
}

/// The bytes the field `flag` takes when the flags `flags` announce it.
fn field_size(flags: u16, flag: u16, n: usize) -> (r: usize)
    ensures
        r == field_len(flags, flag, n as int),
{
    if flags & flag != 0 {
        n
    } else {
        0
    }
}

/// The length of a report frame with flags `flags`.
fn report_size(flags: u16) -> (r: usize)
    ensures
        r == report_len(flags),
{
    3 + field_size(flags, STEAM_CONTROLLER_FLAG_BUTTONS, 3) + field_size(
        flags,
        STEAM_CONTROLLER_FLAG_PADDLES,
        2,
    ) + field_size(flags, STEAM_CONTROLLER_FLAG_JOYSTICK, 4) + field_size(
        flags,
        STEAM_CONTROLLER_FLAG_LEFT_PAD,
        4,
    ) + field_size(flags, STEAM_CONTROLLER_FLAG_RIGHT_PAD, 4)
}

/// The events of a complete report frame.
fn decode_report(data: &[u8], flags: u16, prev: u32) -> (r: Vec<ControllerEvent>)
    requires
        data@.len() >= report_len(flags),
    ensures
        r@ == report_events(data@, flags, prev),
{
    let mut events: Vec<ControllerEvent> = Vec::new();
    if flags & STEAM_CONTROLLER_FLAG_BUTTONS != 0 {
        let buttons: u32 = data[3] as u32 * 65536 + data[4] as u32 * 256 + data[5] as u32;
        push_button_events(&mut events, prev, buttons);
    }
    let pos = 3 + field_size(flags, STEAM_CONTROLLER_FLAG_BUTTONS, 3);
    if flags & STEAM_CONTROLLER_FLAG_PADDLES != 0 {
        events.push(ControllerEvent::TriggerChanged(Button::LeftTrigger2, data[pos]));
        events.push(ControllerEvent::TriggerChanged(Button::RightTrigger2, data[pos + 1]));
    }
    let pos = pos + field_size(flags, STEAM_CONTROLLER_FLAG_PADDLES, 2);
    if flags & STEAM_CONTROLLER_FLAG_JOYSTICK != 0 {
        push_axis_events(&mut events, data, pos, Axis::LeftStickX, Axis::LeftStickY);
    }
    let pos = pos + field_size(flags, STEAM_CONTROLLER_FLAG_JOYSTICK, 4);
    if flags & STEAM_CONTROLLER_FLAG_LEFT_PAD != 0 {
        push_axis_events(&mut events, data, pos, Axis::LeftPadX, Axis::LeftPadY);
    }
    let pos = pos + field_size(flags, STEAM_CONTROLLER_FLAG_LEFT_PAD, 4);
    if flags & STEAM_CONTROLLER_FLAG_RIGHT_PAD != 0 {
        push_axis_events(&mut events, data, pos, Axis::RightPadX, Axis::RightPadY);
    }
    assert(events@ =~= report_events(data@, flags, prev));
    events
}

/// Decodes one controller frame into its events, and keeps the button
/// bitmask in `prev_buttons` for the next frame. Button events mark only
/// the buttons that changed; a frame that is dropped changes nothing.
pub fn decode_steam_controller_packet(data: &[u8], prev_buttons: &mut u32) -> (r: Result<
    Vec<ControllerEvent>,
    FrameError,
>)
    ensures
        match decode_frame(data@, *old(prev_buttons)) {
            Ok((events, now)) => r matches Ok(v) && v@ == events && *final(prev_buttons) == now,
            Err(e) => r == Err::<Vec<ControllerEvent>, FrameError>(e) && *final(prev_buttons)
                == *old(prev_buttons),
        },
{
    let len = data.len();
    if len < 1 {
        return Err(FrameError::Truncated { needed: 1, len });
    }
    if data[0] != FRAME_MARKER {
        return Err(FrameError::BadMarker(data[0]));
    }
    if len < 2 {
        return Err(FrameError::Truncated { needed: 2, len });
    }
    if data[1] & 0x0f != STEAM_CONTROLLER_FLAG_REPORT {
        let none: Vec<ControllerEvent> = Vec::new();
        assert(none@ =~= Seq::<ControllerEvent>::empty());
        return Ok(none);
    }
    if len < 3 {
        return Err(FrameError::Truncated { needed: 3, len });
    }
    let flags: u16 = (data[1] as u16 + 256 * data[2] as u16) & 0xfff0u16;
    let needed = report_size(flags);
    if len < needed {
        return Err(FrameError::Truncated { needed, len });
    }
    let events = decode_report(data, flags, *prev_buttons);
    if flags & STEAM_CONTROLLER_FLAG_BUTTONS != 0 {
        *prev_buttons = data[3] as u32 * 65536 + data[4] as u32 * 256 + data[5] as u32;
    }
    Ok(events)
}

/// Whether `e` is a press or a release of `b`.
pub open spec fn names_button(e: ControllerEvent, b: Button) -> bool {
    e == ControllerEvent::ButtonPressed(b) || e == ControllerEvent::ButtonReleased(b)
}

/// The presses and releases of `b` among `events`, in order.
pub open spec fn events_about(events: Seq<ControllerEvent>, b: Button) -> Seq<ControllerEvent>
    decreases events.len(),
{
    if events.len() == 0 {
        Seq::empty()
    } else {
        let rest = events_about(events.drop_last(), b);
        if names_button(events.last(), b) {
            rest.push(events.last())
        } else {
            rest
        }
    }
}

proof fn lemma_events_about_concat(a: Seq<ControllerEvent>, c: Seq<ControllerEvent>, b: Button)
    ensures
        events_about(a + c, b) == events_about(a, b) + events_about(c, b),
    decreases c.len(),
{
    if c.len() == 0 {
        assert(a + c =~= a);
        assert(events_about(a, b) + events_about(c, b) =~= events_about(a, b));
    } else {
        lemma_events_about_concat(a, c.drop_last(), b);
        assert((a + c).drop_last() =~= a + c.drop_last());
        assert((a + c).last() == c.last());
        let rest = events_about(a, b) + events_about(c.drop_last(), b);
        if names_button(c.last(), b) {
            assert(rest.push(c.last()) =~= events_about(a, b) + events_about(c.drop_last(), b).push(
                c.last(),
            ));
        }
    }
}

proof fn lemma_table_slot(k: int)
    requires
        0 <= k < BUTTON_COUNT,
    ensures
        table_slot(table_button(k)) == k,
{
}

proof fn lemma_edge_about(prev: u32, now: u32, j: int, k: int)
    requires
        0 <= j < BUTTON_COUNT,
        0 <= k < BUTTON_COUNT,
    ensures
        events_about(edge_events(prev, now, j), table_button(k)) == if j == k {
            edge_events(prev, now, k)
        } else {
            Seq::<ControllerEvent>::empty()
        },
{
    lemma_table_slot(j);
    lemma_table_slot(k);
    let e = edge_events(prev, now, j);
    if e.len() == 1 {
        assert(e.drop_last() =~= Seq::<ControllerEvent>::empty());
        assert(events_about(e.drop_last(), table_button(k)) == Seq::<ControllerEvent>::empty());
        if j != k {
            assert(table_button(j) != table_button(k));
            assert(!names_button(e.last(), table_button(k)));
        } else {
            assert(Seq::<ControllerEvent>::empty().push(e.last()) =~= e);
        }
    }
}

proof fn lemma_events_about_upto(prev: u32, now: u32, n: int, k: int)
    requires
        0 <= n <= BUTTON_COUNT,
        0 <= k < BUTTON_COUNT,
    ensures
        events_about(button_events_upto(prev, now, n), table_button(k)) == if k < n {
            edge_events(prev, now, k)
        } else {
            Seq::<ControllerEvent>::empty()
        },
    decreases n,
{
    if n > 0 {
        lemma_events_about_upto(prev, now, n - 1, k);
        lemma_events_about_concat(
            button_events_upto(prev, now, n - 1),
            edge_events(prev, now, n - 1),
            table_button(k),
        );
        lemma_edge_about(prev, now, n - 1, k);
        let before = events_about(button_events_upto(prev, now, n - 1), table_button(k));
        let here = events_about(edge_events(prev, now, n - 1), table_button(k));
        if k == n - 1 {
            assert(Seq::<ControllerEvent>::empty() + here =~= here);
        } else {
            assert(before + Seq::<ControllerEvent>::empty() =~= before);
        }
    }
}

/// Between two button bitmasks `prev` and `now`, the events name each
/// button exactly as its bit changed: one press when the bit came on, one
/// release when it went off, and nothing when it stayed as it was.
pub proof fn lemma_button_edges(prev: u32, now: u32, k: int)
    requires
        0 <= k < BUTTON_COUNT,
    ensures
        now & table_bit(k) != 0 && prev & table_bit(k) == 0 ==> events_about(
            button_events(prev, now),
            table_button(k),
        ) == seq![ControllerEvent::ButtonPressed(table_button(k))],
        now & table_bit(k) == 0 && prev & table_bit(k) != 0 ==> events_about(
            button_events(prev, now),
            table_button(k),
        ) == seq![ControllerEvent::ButtonReleased(table_button(k))],
        (now & table_bit(k) != 0) == (prev & table_bit(k) != 0) ==> events_about(
            button_events(prev, now),
            table_button(k),
        ) == Seq::<ControllerEvent>::empty(),
{
    lemma_events_about_upto(prev, now, BUTTON_COUNT as int, k);
}

proof fn lemma_no_change_upto(b: u32, n: int)
    requires
        0 <= n <= BUTTON_COUNT,
    ensures
        button_events_upto(b, b, n) == Seq::<ControllerEvent>::empty(),
    decreases n,
{
    if n > 0 {
        lemma_no_change_upto(b, n - 1);
        assert(button_events_upto(b, b, n) =~= Seq::<ControllerEvent>::empty());
    }
}

/// A bitmask that did not change gives no button events: a frame decoded
/// again right after itself reports no presses or releases.
pub proof fn lemma_unchanged_buttons(b: u32)
    ensures
        button_events(b, b) == Seq::<ControllerEvent>::empty(),
{
    lemma_no_change_upto(b, BUTTON_COUNT as int);
}

/// What the consumer of a controller's event stream does with one event.
#[derive(Debug)]
pub enum ControllerStep {
    /// Pass these decoded events on.
    Events(Vec<ControllerEvent>),
    /// A notification held a frame that was dropped, for this reason.
    Dropped(FrameError),
    /// The controller disconnected: stop reading.
    Stop,
    /// Nothing to do with this event.
    Skip,
}

/// Routes one event of the controller's stream: notifications are decoded
/// against the buttons of the previous frame, a disconnect ends the stream.
pub fn route_controller_event(ev: BleConnectEvent, prev_buttons: &mut u32) -> (r: ControllerStep)
    ensures
        match ev {
            BleConnectEvent::Notification(data) => match decode_frame(data@, *old(prev_buttons)) {
                Ok((events, now)) => r matches ControllerStep::Events(v) && v@ == events
                    && *final(prev_buttons) == now,
                Err(e) => r matches ControllerStep::Dropped(f) && f == e && *final(prev_buttons)
                    == *old(prev_buttons),
            },
            BleConnectEvent::Disconnected(_) => r is Stop && *final(prev_buttons) == *old(
                prev_buttons,
            ),
            _ => r is Skip && *final(prev_buttons) == *old(prev_buttons),
        },
{
    match ev {
        BleConnectEvent::Notification(data) => match decode_steam_controller_packet(
            data.as_slice(),
            prev_buttons,
        ) {
            Ok(events) => ControllerStep::Events(events),
            Err(e) => ControllerStep::Dropped(e),
        },
        BleConnectEvent::Disconnected(_) => ControllerStep::Stop,
        _ => ControllerStep::Skip,
    }
}

/// Whether two texts hold the same characters.
pub fn same_text(a: &str, b: &str) -> (r: bool)
    ensures
        r == (a@ == b@),
{
    let n = a.unicode_len();
    if n != b.unicode_len() {
        return false;
    }
    let mut i: usize = 0;
    while i < n
        invariant
            i <= n,
            n == a@.len(),
            n == b@.len(),
            forall|k: int| 0 <= k < i ==> a@[k] == b@[k],
        decreases n - i,
    {
        if a.get_char(i) != b.get_char(i) {
            return false;
        }
        i = i + 1;
    }
    assert(a@ =~= b@);
    true
}

/// Decides on a peer that a scan found: `Some(true)` for the bonded
/// controller, whose address text is the one remembered; `Some(false)` for
/// another that advertises as a controller in pairing mode; `None` to keep
/// scanning.
pub fn controller_match(address_text: &str, name: &str, paired_address: Option<&str>) -> (r:
    Option<bool>)
    ensures
        (paired_address matches Some(p) && p@ == address_text@) ==> r == Some(true),
        !(paired_address matches Some(p) && p@ == address_text@) && name@ == CONTROLLER_NAME@ ==> r
            == Some(false),
        !(paired_address matches Some(p) && p@ == address_text@) && name@ != CONTROLLER_NAME@ ==> r
            is None,
{
    let bonded = match paired_address {
        Some(p) => same_text(p, address_text),
        None => false,
    };
    if bonded {
        Some(true)
    } else if same_text(name, CONTROLLER_NAME) {
        Some(false)
    } else {
        None
    }
}

/// Decoding a frame again, with the button bitmask that the first decoding
/// left, gives no button events: only the frame's trigger and axis events,
/// and the bitmask stays as it is.
pub proof fn lemma_replayed_frame(d: Seq<u8>, prev: u32)
    requires
        decode_frame(d, prev) is Ok,
    ensures
        ({
            let now = decode_frame(d, prev)->Ok_0.1;
            decode_frame(d, now) matches Ok((events, again)) && again == now && (events
                == Seq::<ControllerEvent>::empty() || events == analog_events(d, frame_flags(d)))
        }),
{
    if d[1] & 0x0f == STEAM_CONTROLLER_FLAG_REPORT {
        let flags = frame_flags(d);
        if has_flag(flags, STEAM_CONTROLLER_FLAG_BUTTONS) {
            lemma_unchanged_buttons(buttons_at(d, 3));
        }
        assert(report_events(d, flags, decode_frame(d, prev)->Ok_0.1) =~= analog_events(d, flags));
    }
}

} // verus!
