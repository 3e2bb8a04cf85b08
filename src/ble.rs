pub mod chr;
pub mod client;
pub mod dev;
pub mod disc;
pub mod scan;
pub mod svc;
pub mod uuid;

use crate::ble::dev::{BleConnHandle, BlePeerDeviceAddress};
use vstd::prelude::*;

verus! {

/// An operation that a characteristic may or may not allow.
#[derive(Clone, Copy, Debug, PartialEq, Eq, Structural)]
pub enum GattOperation {
    Write,
    WriteNoResponse,
    Notify,
}

/// Why a request to the stack or to a peer failed.
#[derive(Clone, Copy, Debug, PartialEq, Eq, Structural)]
pub enum BleError {
    /// The host stack refused to start the request; its return code.
    HostRequest(i32),
    /// The peer answered with a non-zero status.
    Remote(u16),
    /// The connection attempt ended with an error; the code reported.
    ConnectFailed(i32),
    /// The payload is longer than the connection's MTU.
    PayloadTooLarge { len: usize, mtu: u16 },
    /// The characteristic does not allow the operation.
    NotSupported(GattOperation),
    /// The peer is not connected.
    NotConnected,
    /// A characteristic that can notify has no client configuration descriptor.
    MissingConfigDescriptor,
}

/// The outcome of handing a request to the host stack: a return code of
/// zero means it was accepted.
pub fn host_result(rc: i32) -> (r: Result<(), BleError>)
    ensures
        r is Ok <==> rc == 0,
        r matches Err(e) ==> e == BleError::HostRequest(rc),
{
    if rc == 0 {
        Ok(())
    } else {
        Err(BleError::HostRequest(rc))
    }
}

/// What the registry holds for one peer. `R` is the stream on which the
/// peer's connection events arrive; it is present while the peer is
/// connected and the stream is not on loan to a consumer.
pub struct BlePeerDeviceSharedState<R> {
    pub conn_handle: Option<BleConnHandle>,
    pub name: String,
    pub event_rx: Option<R>,
}

impl<R> BlePeerDeviceSharedState<R> {
    /// The state of a peer just seen in a scan: not connected, no event stream.
    pub open spec fn discovered(name: String) -> BlePeerDeviceSharedState<R> {
        BlePeerDeviceSharedState { conn_handle: None, name, event_rx: None }
    }

    pub fn new(name: String) -> (r: Self)
        ensures
            r == Self::discovered(name),
    {
        BlePeerDeviceSharedState { conn_handle: None, name, event_rx: None }
    }
}

/// One registry entry: an address and what is known of that peer.
pub type DeviceEntry<R> = (BlePeerDeviceAddress, BlePeerDeviceSharedState<R>);

/// No two entries hold the same address.
pub open spec fn unique_addresses<R>(entries: Seq<DeviceEntry<R>>) -> bool {
    forall|i: int, j: int|
        0 <= i < entries.len() && 0 <= j < entries.len() && i != j ==> !(
        #[trigger] entries[i]).0.same_as(&(#[trigger] entries[j]).0)
}

/// The position of the entry for `addr`, if there is one.
pub open spec fn find<R>(entries: Seq<DeviceEntry<R>>, addr: BlePeerDeviceAddress) -> Option<int> {
    if exists|i: int| 0 <= i < entries.len() && (#[trigger] entries[i]).0.same_as(&addr) {
        Some(choose|i: int| 0 <= i < entries.len() && (#[trigger] entries[i]).0.same_as(&addr))
    } else {
        None
    }
}

/// An entry after a disconnect of connection `h` was delivered: it no longer
/// holds `h` as its connection handle.
pub open spec fn after_disconnect<R>(e: DeviceEntry<R>, h: BleConnHandle) -> DeviceEntry<R> {
    if e.1.conn_handle == Some(h) {
        (e.0, BlePeerDeviceSharedState { conn_handle: None, ..e.1 })
    } else {
        e
    }
}

/// The addresses of the connected entries, in registry order.
pub open spec fn connected_addresses_of<R>(entries: Seq<DeviceEntry<R>>) -> Seq<
    BlePeerDeviceAddress,
>
    decreases entries.len(),
{
    if entries.len() == 0 {
        Seq::empty()
    } else {
        let rest = connected_addresses_of(entries.drop_last());
        if entries.last().1.conn_handle is Some {
            rest.push(entries.last().0)
        } else {
            rest
        }
    }
}

/// The peers known to the stack, keyed by address, in the order in which
/// they were first seen.
pub struct DeviceRegistry<R> {
    entries: Vec<DeviceEntry<R>>,
}

impl<R> View for DeviceRegistry<R> {
    type V = Seq<DeviceEntry<R>>;

    closed spec fn view(&self) -> Seq<DeviceEntry<R>> {
        self.entries@
    }
}

impl<R> DeviceRegistry<R> {
    pub open spec fn wf(&self) -> bool {
        unique_addresses(self@)
    }

    pub fn new() -> (r: Self)
        ensures
            r.wf(),
            r@ == Seq::<DeviceEntry<R>>::empty(),
    {
        let r = DeviceRegistry { entries: Vec::new() };
        assert(r@ =~= Seq::<DeviceEntry<R>>::empty());
        r
    }

    /// The position of the entry for `addr`.
    fn index_of(&self, addr: &BlePeerDeviceAddress) -> (r: Option<usize>)
        requires
            self.wf(),
        ensures
            r matches Some(i) ==> find(self@, *addr) == Some(i as int),
            r is None ==> find(self@, *addr) is None,
    {
        let mut i: usize = 0;
        while i < self.entries.len()
            invariant
                i <= self@.len(),
                self.entries@ == self@,
                self.wf(),
                forall|k: int| 0 <= k < i ==> !(#[trigger] self@[k]).0.same_as(addr),
            decreases self@.len() - i,
        {
            if self.entries[i].0 == *addr {
                proof {
                    let j = choose|j: int| 0 <= j < self@.len() && (#[trigger] self@[j]).0.same_as(addr);
                    assert(self@[i as int].0.same_as(addr));
                    if j != i {
                        assert(!self@[i as int].0.same_as(&self@[j].0));
                    }
                }
                return Some(i);
            }
            i = i + 1;
        }
        None
    }

    /// Records a peer seen in a scan. An entry already held for the address
    /// is replaced by the fresh one.
    pub fn insert_discovered(&mut self, address: BlePeerDeviceAddress, name: String)
        requires
            old(self).wf(),
        ensures
            final(self).wf(),
            match find(old(self)@, address) {
                Some(i) => final(self)@ == old(self)@.update(
                    i,
                    (address, BlePeerDeviceSharedState::discovered(name)),
                ),
                None => final(self)@ == old(self)@.push(
                    (address, BlePeerDeviceSharedState::discovered(name)),
                ),
            },
    {
        let state = BlePeerDeviceSharedState::new(name);
        match self.index_of(&address) {
            Some(i) => {
                self.entries[i] = (address, state);
            },
            None => {
                self.entries.push((address, state));
            },
        }
    }

    /// Clears the connection handle of every entry that holds `h`: the
    /// disconnect event names the connection only, not the peer.
    pub fn on_disconnected(&mut self, h: BleConnHandle)
        requires
            old(self).wf(),
        ensures
            final(self).wf(),
            final(self)@ == old(self)@.map_values(|e: DeviceEntry<R>| after_disconnect(e, h)),
    {
        let ghost start = self@;
        let mut i: usize = 0;
        while i < self.entries.len()
            invariant
                i <= self@.len(),
                self.entries@ == self@,
                self@.len() == start.len(),
                unique_addresses(start),
                forall|k: int| 0 <= k < i ==> self@[k] == after_disconnect(#[trigger] start[k], h),
                forall|k: int| i <= k < self@.len() ==> self@[k] == #[trigger] start[k],
            decreases self@.len() - i,
        {
            let clear = match self.entries[i].1.conn_handle {
                Some(c) => c == h,
                None => false,
            };
            if clear {
                self.entries[i].1.conn_handle = None;
            }
            i = i + 1;
        }
        assert(self@ =~= start.map_values(|e: DeviceEntry<R>| after_disconnect(e, h)));
        assert forall|a: int, b: int|
            0 <= a < self@.len() && 0 <= b < self@.len() && a != b implies !(
            #[trigger] self@[a]).0.same_as(&(#[trigger] self@[b]).0) by {
            assert(self@[a].0 == start[a].0);
            assert(self@[b].0 == start[b].0);
        }
    }

    /// The connection handle of the peer at `addr`; `None` when it is not
    /// connected or not known.
    pub fn conn_handle(&self, addr: &BlePeerDeviceAddress) -> (r: Option<BleConnHandle>)
        requires
            self.wf(),
        ensures
            match find(self@, *addr) {
                Some(i) => r == self@[i].1.conn_handle,
                None => r is None,
            },
    {
        match self.index_of(addr) {
            Some(i) => self.entries[i].1.conn_handle,
            None => None,
        }
    }

    /// The advertised name of the peer at `addr`, if it is known.
    pub fn name(&self, addr: &BlePeerDeviceAddress) -> (r: Option<String>)
        requires
            self.wf(),
        ensures
            match find(self@, *addr) {
                Some(i) => r matches Some(n) && n@ == self@[i].1.name@,
                None => r is None,
            },
    {
        match self.index_of(addr) {
            Some(i) => Some(self.entries[i].1.name.clone()),
            None => None,
        }
    }

    /// Whether the peer at `addr` is known and connected.
    pub fn is_connected(&self, addr: &BlePeerDeviceAddress) -> (r: bool)
        requires
            self.wf(),
        ensures
            r == (find(self@, *addr) matches Some(i) && self@[i].1.conn_handle is Some),
    {
        self.conn_handle(addr).is_some()
    }

    /// Records that the connection to `addr` is set up, with handle `h` and
    /// its event stream. Returns false, and changes nothing, for an unknown
    /// address.
    pub fn set_connected(&mut self, addr: &BlePeerDeviceAddress, h: BleConnHandle, rx: R) -> (r:
        bool)
        requires
            old(self).wf(),
        ensures
            final(self).wf(),
            r == find(old(self)@, *addr) is Some,
            match find(old(self)@, *addr) {
                Some(i) => final(self)@ == old(self)@.update(
                    i,
                    (
                        old(self)@[i].0,
                        BlePeerDeviceSharedState {
                            conn_handle: Some(h),
                            name: old(self)@[i].1.name,
                            event_rx: Some(rx),
                        },
                    ),
                ),
                None => final(self)@ == old(self)@,
            },
    {
        match self.index_of(addr) {
            Some(i) => {
                self.entries[i].1.conn_handle = Some(h);
                self.entries[i].1.event_rx = Some(rx);
                proof {
                    assert(unique_addresses(self@)) by {
                        assert forall|a: int, b: int|
                            0 <= a < self@.len() && 0 <= b < self@.len() && a != b implies !(
                            #[trigger] self@[a]).0.same_as(&(#[trigger] self@[b]).0) by {
                            assert(self@[a].0 == old(self)@[a].0);
                            assert(self@[b].0 == old(self)@[b].0);
                        }
                    }
                }
                true
            },
            None => false,
        }
    }

    /// Records that the peer at `addr` is not connected.
    pub fn set_disconnected(&mut self, addr: &BlePeerDeviceAddress)
        requires
            old(self).wf(),
        ensures
            final(self).wf(),
            match find(old(self)@, *addr) {
                Some(i) => final(self)@ == old(self)@.update(
                    i,
                    (old(self)@[i].0, BlePeerDeviceSharedState { conn_handle: None, ..old(self)@[i].1 }),
                ),
                None => final(self)@ == old(self)@,
            },
    {
        if let Some(i) = self.index_of(addr) {
            self.entries[i].1.conn_handle = None;
            proof {
                assert(unique_addresses(self@)) by {
                    assert forall|a: int, b: int|
                        0 <= a < self@.len() && 0 <= b < self@.len() && a != b implies !(
                        #[trigger] self@[a]).0.same_as(&(#[trigger] self@[b]).0) by {
                        assert(self@[a].0 == old(self)@[a].0);
                        assert(self@[b].0 == old(self)@[b].0);
                    }
                }
            }
        }
    }

    /// Lends out the event stream of the peer at `addr`: the registry holds
    /// none for it until one is handed back.
    pub fn take_events(&mut self, addr: &BlePeerDeviceAddress) -> (r: Option<R>)
        requires
            old(self).wf(),
        ensures
            final(self).wf(),
            match find(old(self)@, *addr) {
                Some(i) => r == old(self)@[i].1.event_rx && final(self)@ == old(self)@.update(
                    i,
                    (old(self)@[i].0, BlePeerDeviceSharedState { event_rx: None, ..old(self)@[i].1 }),
                ),
                None => r is None && final(self)@ == old(self)@,
            },
    {
        match self.index_of(addr) {
            Some(i) => {
                let r = self.entries[i].1.event_rx.take();
                proof {
                    assert(unique_addresses(self@)) by {
                        assert forall|a: int, b: int|
                            0 <= a < self@.len() && 0 <= b < self@.len() && a != b implies !(
                            #[trigger] self@[a]).0.same_as(&(#[trigger] self@[b]).0) by {
                            assert(self@[a].0 == old(self)@[a].0);
                            assert(self@[b].0 == old(self)@[b].0);
                        }
                    }
                    assert(self@ =~= old(self)@.update(
                        i as int,
                        (old(self)@[i as int].0, BlePeerDeviceSharedState { event_rx: None, ..old(self)@[i as int].1 }),
                    ));
                }
                r
            },
            None => None,
        }
    }

    /// Hands back a lent event stream. It is kept only while the peer is
    /// still connected; otherwise it is dropped.
    pub fn return_events(&mut self, addr: &BlePeerDeviceAddress, rx: R)
        requires
            old(self).wf(),
        ensures
            final(self).wf(),
            match find(old(self)@, *addr) {
                Some(i) => if old(self)@[i].1.conn_handle is Some {
                    final(self)@ == old(self)@.update(
                        i,
                        (old(self)@[i].0, BlePeerDeviceSharedState { event_rx: Some(rx), ..old(self)@[i].1 }),
                    )
                } else {
                    final(self)@ == old(self)@
                },
                None => final(self)@ == old(self)@,
            },
    {
        if let Some(i) = self.index_of(addr) {
            if self.entries[i].1.conn_handle.is_some() {
                self.entries[i].1.event_rx = Some(rx);
                proof {
                    assert(unique_addresses(self@)) by {
                        assert forall|a: int, b: int|
                            0 <= a < self@.len() && 0 <= b < self@.len() && a != b implies !(
                            #[trigger] self@[a]).0.same_as(&(#[trigger] self@[b]).0) by {
                            assert(self@[a].0 == old(self)@[a].0);
                            assert(self@[b].0 == old(self)@[b].0);
                        }
                    }
                    assert(self@ =~= old(self)@.update(
                        i as int,
                        (old(self)@[i as int].0, BlePeerDeviceSharedState { event_rx: Some(rx), ..old(self)@[i as int].1 }),
                    ));
                }
            }
        }
    }

    /// Takes what a disconnect needs: the connection handle and the event
    /// stream of the peer at `addr`. Only when both are held is the stream
    /// taken out; otherwise nothing changes.
    pub fn take_for_disconnect(&mut self, addr: &BlePeerDeviceAddress) -> (r: Option<(BleConnHandle, R)>)
        requires
            old(self).wf(),
        ensures
            final(self).wf(),
            match find(old(self)@, *addr) {
                Some(i) => match (old(self)@[i].1.conn_handle, old(self)@[i].1.event_rx) {
                    (Some(h), Some(rx)) => r == Some((h, rx)) && final(self)@ == old(self)@.update(
                        i,
                        (old(self)@[i].0, BlePeerDeviceSharedState { event_rx: None, ..old(self)@[i].1 }),
                    ),
                    _ => r is None && final(self)@ == old(self)@,
                },
                None => r is None && final(self)@ == old(self)@,
            },
    {
        match self.index_of(addr) {
            Some(i) => {
                if self.entries[i].1.conn_handle.is_none() || self.entries[i].1.event_rx.is_none() {
                    return None;
                }
                let h = match self.entries[i].1.conn_handle {
                    Some(h) => h,
                    None => 0,
                };
                let rx = self.take_events(addr);
                match rx {
                    Some(rx) => Some((h, rx)),
                    None => None,
                }
            },
            None => None,
        }
    }

    /// The addresses of the connected peers, in registry order.
    pub fn connected_addresses(&self) -> (r: Vec<BlePeerDeviceAddress>)
        ensures
            r@ == connected_addresses_of(self@),
    {
        let mut r: Vec<BlePeerDeviceAddress> = Vec::new();
        let mut i: usize = 0;
        while i < self.entries.len()
            invariant
                i <= self@.len(),
                self.entries@ == self@,
                r@ == connected_addresses_of(self@.subrange(0, i as int)),
            decreases self@.len() - i,
        {
            proof {
                assert(self@.subrange(0, i + 1).drop_last() =~= self@.subrange(0, i as int));
            }
            if self.entries[i].1.conn_handle.is_some() {
                r.push(self.entries[i].0);
            }
            i = i + 1;
        }
        assert(self@.subrange(0, i as int) =~= self@);
        r
    }
}

/// Once a disconnect of connection `h` has been delivered, no entry that
/// held `h` holds a connection handle, and every other entry is as it was.
pub proof fn lemma_disconnect_clears_handle<R>(
    before: Seq<DeviceEntry<R>>,
    after: Seq<DeviceEntry<R>>,
    h: BleConnHandle,
)
    requires
        after == before.map_values(|e: DeviceEntry<R>| after_disconnect(e, h)),
    ensures
        after.len() == before.len(),
        forall|i: int|
            0 <= i < before.len() && before[i].1.conn_handle == Some(h) ==> (
            #[trigger] after[i]).1.conn_handle is None,
        forall|i: int|
            0 <= i < before.len() && before[i].1.conn_handle != Some(h) ==> #[trigger] after[i]
                == before[i],
{
}

} // verus!
