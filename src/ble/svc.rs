use crate::ble::chr::BlePeerCharacteristic;
use crate::ble::uuid::{BleUUID, GattItem};
use vstd::prelude::*;

verus! {

/// A primary service of a peer, on one connection, with the range of
/// attribute handles it spans.
#[derive(Clone, Copy, Debug)]
pub struct BlePeerService {
    pub conn_handle: u16,
    pub start_handle: u16,
    pub end_handle: u16,
    pub uuid: BleUUID,
}

impl GattItem for BlePeerService {
    open spec fn spec_uuid(&self) -> BleUUID {
        self.uuid
    }

    fn item_uuid(&self) -> (r: &BleUUID) {
        &self.uuid
    }
}

/// The handle just before `h`; a handle of zero has none and gives zero.
pub open spec fn handle_before(h: u16) -> u16 {
    if h > 0 {
        (h - 1) as u16
    } else {
        0
    }
}

/// The end handle of the `i`-th of the characteristics `chrs` of a service
/// that ends at `service_end`: the handle before the next characteristic's
/// definition, or the service's end for the last one.
pub open spec fn derived_end_handle(
    chrs: Seq<BlePeerCharacteristic>,
    i: int,
    service_end: u16,
) -> u16 {
    if i + 1 < chrs.len() {
        handle_before(chrs[i + 1].def_handle)
    } else {
        service_end
    }
}

/// The characteristic `c` ending at `end`.
pub open spec fn ended_at(c: BlePeerCharacteristic, end: u16) -> BlePeerCharacteristic {
    BlePeerCharacteristic { end_handle: end, ..c }
}

/// Whether `chrs` is `before` with every end handle derived, and nothing else changed.
pub open spec fn with_end_handles(
    before: Seq<BlePeerCharacteristic>,
    chrs: Seq<BlePeerCharacteristic>,
    service_end: u16,
) -> bool {
    &&& chrs.len() == before.len()
    &&& forall|i: int|
        0 <= i < before.len() ==> #[trigger] chrs[i] == ended_at(before[i], derived_end_handle(before, i, service_end))
}

impl BlePeerService {
    pub fn uuid(&self) -> (r: &BleUUID)
        ensures
            *r == self.uuid,
    {
        &self.uuid
    }

    /// Sets the end handle of each of the service's characteristics, which
    /// the host reports with their start only, from the characteristic that
    /// follows it or, for the last one, from the service's own end.
    pub fn set_end_handles(&self, chrs: &mut Vec<BlePeerCharacteristic>)
        ensures
            with_end_handles(old(chrs)@, final(chrs)@, self.end_handle),
    {
        let n = chrs.len();
        let mut i: usize = 0;
        while i < n
            invariant
                i <= n,
                n == chrs@.len(),
                chrs@.len() == old(chrs)@.len(),
                forall|k: int|
                    0 <= k < i ==> #[trigger] chrs@[k] == ended_at(
                        old(chrs)@[k],
                        derived_end_handle(old(chrs)@, k, self.end_handle),
                    ),
                forall|k: int| i <= k < n ==> #[trigger] chrs@[k] == old(chrs)@[k],
            decreases n - i,
        {
            let end = if i + 1 < n {
                let next = chrs[i + 1].def_handle;
                if next > 0 {
                    next - 1
                } else {
                    0
                }
            } else {
                self.end_handle
            };
            chrs[i].end_handle = end;
            i = i + 1;
        }
    }
}

/// With definition handles d1 < d2 < ... < dN under a service that ends at
/// E, the end handles come out as d2 - 1, d3 - 1, ..., dN - 1, E.
pub proof fn lemma_end_handles(
    before: Seq<BlePeerCharacteristic>,
    chrs: Seq<BlePeerCharacteristic>,
    service_end: u16,
)
    requires
        with_end_handles(before, chrs, service_end),
        forall|i: int, j: int|
            0 <= i < j < before.len() ==> before[i].def_handle < before[j].def_handle,
    ensures
        forall|i: int|
            0 <= i < chrs.len() - 1 ==> (#[trigger] chrs[i]).end_handle == before[i + 1].def_handle
                - 1,
        chrs.len() > 0 ==> chrs[chrs.len() - 1].end_handle == service_end,
{
    assert forall|i: int| 0 <= i < chrs.len() - 1 implies (#[trigger] chrs[i]).end_handle
        == before[i + 1].def_handle - 1 by {
        assert(before[i].def_handle < before[i + 1].def_handle);
    }
    if chrs.len() > 0 {
        assert(chrs[chrs.len() - 1] == ended_at(
            before[chrs.len() - 1],
            derived_end_handle(before, chrs.len() - 1, service_end),
        ));
    }
}

} // verus!
