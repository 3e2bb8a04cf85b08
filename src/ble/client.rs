use crate::ble::dev::{BleConnHandle, BlePeerDeviceAddress};
use crate::ble::{after_disconnect, BleError, BlePeerDeviceSharedState, DeviceEntry, DeviceRegistry, find};
use vstd::prelude::*;

verus! {

/// How long the stack tries to set up a connection, in milliseconds.
pub const CONNECT_TIMEOUT_MS: i32 = 10000;

/// The link-layer payload, in octets, asked for once connected.
pub const SUGGESTED_TX_OCTETS: u16 = 251;

/// The link-layer transmit time, in microseconds, asked for once connected.
pub const SUGGESTED_TX_TIME: u16 = 2120;

/// The attribute MTU this side prefers.
pub const PREFERRED_MTU: u16 = 512;

/// The reason given when this side ends a connection: remote user terminated.
pub const DISCONNECT_REASON: u8 = 0x13;

/// What a connection's event stream carries.
#[derive(Debug)]
pub enum BleConnectEvent {
    /// The link is up and secured.
    Connected(BleConnHandle),
    /// A step of the connection set-up failed with this code.
    Error(i32),
    /// The connection with this handle is gone.
    Disconnected(BleConnHandle),
    /// A value the peer pushed without acknowledgement.
    Notification(Vec<u8>),
    /// A value the peer pushed and that was acknowledged.
    Indication(Vec<u8>),
}

/// A GAP event, as the host stack reports it to a connection's callback.
#[derive(Debug)]
pub enum GapEvent {
    Connect { status: i32, conn_handle: u16 },
    Disconnect { conn_handle: u16 },
    EncryptionChange { conn_handle: u16 },
    NotifyRx { data: Vec<u8>, indication: bool },
    Mtu { conn_handle: u16 },
    Other,
}

/// What a connection's callback does in answer to a GAP event.
#[derive(Debug)]
pub enum GapAction {
    /// Negotiate the new link: a larger data length, the preferred MTU,
    /// then an MTU exchange. Each step that fails is reported as an
    /// `Error` event and the next step is still taken.
    Negotiate(u16),
    /// Start pairing and bonding on the connection.
    Secure(u16),
    /// Pass the event on to the connection's stream.
    Deliver(BleConnectEvent),
    /// Nothing to do.
    Ignore,
}

/// The answer to each GAP event. The link counts as connected only once
/// its encryption has changed, after the MTU exchange that starts security.
pub open spec fn gap_action(ev: GapEvent) -> GapAction {
    match ev {
        GapEvent::Connect { status, conn_handle } => if status == 0 {
            GapAction::Negotiate(conn_handle)
        } else {
            GapAction::Deliver(BleConnectEvent::Error(status))
        },
        GapEvent::Disconnect { conn_handle } => GapAction::Deliver(
            BleConnectEvent::Disconnected(conn_handle as BleConnHandle),
        ),
        GapEvent::EncryptionChange { conn_handle } => GapAction::Deliver(
            BleConnectEvent::Connected(conn_handle as BleConnHandle),
        ),
        GapEvent::NotifyRx { data, indication } => if indication {
            GapAction::Deliver(BleConnectEvent::Indication(data))
        } else {
            GapAction::Deliver(BleConnectEvent::Notification(data))
        },
        GapEvent::Mtu { conn_handle } => GapAction::Secure(conn_handle),
        GapEvent::Other => GapAction::Ignore,
    }
}

pub fn on_gap_event(ev: GapEvent) -> (r: GapAction)
    ensures
        r == gap_action(ev),
{
    match ev {
        GapEvent::Connect { status, conn_handle } => if status == 0 {
            GapAction::Negotiate(conn_handle)
        } else {
            GapAction::Deliver(BleConnectEvent::Error(status))
        },
        GapEvent::Disconnect { conn_handle } => GapAction::Deliver(
            BleConnectEvent::Disconnected(conn_handle as BleConnHandle),
        ),
        GapEvent::EncryptionChange { conn_handle } => GapAction::Deliver(
            BleConnectEvent::Connected(conn_handle as BleConnHandle),
        ),
        GapEvent::NotifyRx { data, indication } => if indication {
            GapAction::Deliver(BleConnectEvent::Indication(data))
        } else {
            GapAction::Deliver(BleConnectEvent::Notification(data))
        },
        GapEvent::Mtu { conn_handle } => GapAction::Secure(conn_handle),
        GapEvent::Other => GapAction::Ignore,
    }
}

/// The event to report for a set-up step that the host answered with
/// `rc`: none when it went through, an `Error` otherwise.
pub fn setup_step_event(rc: i32) -> (r: Option<BleConnectEvent>)
    ensures
        rc == 0 ==> r is None,
        rc != 0 ==> r == Some(BleConnectEvent::Error(rc)),
{
    if rc == 0 {
        None
    } else {
        Some(BleConnectEvent::Error(rc))
    }
}

/// The registry after a connection event has been delivered: a disconnect
/// clears the handle wherever it is held, found by handle since the event
/// names no address. Other events leave it as it is.
pub open spec fn registry_after_event<R>(entries: Seq<DeviceEntry<R>>, ev: BleConnectEvent) -> Seq<DeviceEntry<R>> {
    match ev {
        BleConnectEvent::Disconnected(h) => entries.map_values(|e: DeviceEntry<R>| after_disconnect(e, h)),
        _ => entries,
    }
}

/// Watches every event of a connection attempt for disconnects.
pub fn monitor_event<R>(registry: &mut DeviceRegistry<R>, ev: &BleConnectEvent)
    requires
        old(registry).wf(),
    ensures
        final(registry).wf(),
        final(registry)@ == registry_after_event(old(registry)@, *ev),
{
    if let BleConnectEvent::Disconnected(h) = ev {
        registry.on_disconnected(*h);
    }
}

/// How a connection attempt ends.
#[derive(Clone, Copy, Debug, PartialEq, Eq, Structural)]
pub enum ConnectResolution {
    /// Set up and secured, with this handle.
    Connected(BleConnHandle),
    /// Failed with this code.
    Failed(i32),
    /// The link went down before set-up was over.
    Disconnected,
}

/// Whether `ev` ends a connection attempt, and how. Exactly the
/// `Connected`, `Error` and `Disconnected` events do; pushed values do not.
pub fn connect_resolution(ev: &BleConnectEvent) -> (r: Option<ConnectResolution>)
    ensures
        match *ev {
            BleConnectEvent::Connected(h) => r == Some(ConnectResolution::Connected(h)),
            BleConnectEvent::Error(rc) => r == Some(ConnectResolution::Failed(rc)),
            BleConnectEvent::Disconnected(_) => r == Some(ConnectResolution::Disconnected),
            _ => r is None,
        },
{
    match ev {
        BleConnectEvent::Connected(h) => Some(ConnectResolution::Connected(*h)),
        BleConnectEvent::Error(rc) => Some(ConnectResolution::Failed(*rc)),
        BleConnectEvent::Disconnected(_) => Some(ConnectResolution::Disconnected),
        _ => None,
    }
}

/// Ends a connection attempt to `addr`. When connected, the registry holds
/// the handle and keeps the attempt's event stream `rx` for later events;
/// a disconnect is no error, a failure is; both leave the peer without a handle.
pub fn finish_connect<R>(
    registry: &mut DeviceRegistry<R>,
    addr: &BlePeerDeviceAddress,
    resolution: ConnectResolution,
    rx: R,
) -> (r: Result<(), BleError>)
    requires
        old(registry).wf(),
    ensures
        final(registry).wf(),
        match resolution {
            ConnectResolution::Connected(h) => r is Ok && match find(old(registry)@, *addr) {
                Some(i) => final(registry)@ == old(registry)@.update(
                    i,
                    (
                        old(registry)@[i].0,
                        BlePeerDeviceSharedState {
                            conn_handle: Some(h),
                            name: old(registry)@[i].1.name,
                            event_rx: Some(rx),
                        },
                    ),
                ),
                None => final(registry)@ == old(registry)@,
            },
            _ => (match resolution {
                ConnectResolution::Failed(rc) => r == Err::<(), BleError>(BleError::ConnectFailed(rc)),
                _ => r is Ok,
            }) && match find(old(registry)@, *addr) {
                Some(i) => final(registry)@ == old(registry)@.update(
                    i,
                    (
                        old(registry)@[i].0,
                        BlePeerDeviceSharedState { conn_handle: None, ..old(registry)@[i].1 },
                    ),
                ),
                None => final(registry)@ == old(registry)@,
            },
        },
{
    match resolution {
        ConnectResolution::Connected(h) => {
            registry.set_connected(addr, h, rx);
            Ok(())
        },
        ConnectResolution::Disconnected => {
            registry.set_disconnected(addr);
            Ok(())
        },
        ConnectResolution::Failed(rc) => {
            registry.set_disconnected(addr);
            Err(BleError::ConnectFailed(rc))
        },
    }
}

} // verus!
