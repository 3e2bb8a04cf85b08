use vstd::prelude::*;

verus! {

/// The status with which the host ends a discovery that went through.
pub const BLE_HS_EDONE: u16 = 14;

/// Where a discovery stands.
#[derive(Clone, Copy, Debug, PartialEq, Eq, Structural)]
pub enum DiscoveryStatus {
    /// Results may still come.
    InProgress,
    /// The host signalled the end; the results are all in.
    Complete,
    /// The host ended the discovery with this error status.
    Failed(u16),
}

/// What a discovery has gathered, and where it stands.
pub type DiscoveryState<T> = (Seq<T>, DiscoveryStatus);

/// The status that a host report with `status` leads to.
pub open spec fn status_after(status: u16) -> DiscoveryStatus {
    if status == 0 {
        DiscoveryStatus::InProgress
    } else if status == BLE_HS_EDONE {
        DiscoveryStatus::Complete
    } else {
        DiscoveryStatus::Failed(status)
    }
}

/// One host report: an optional result and a status. A result is appended
/// in the order reported; once the discovery has ended, reports change nothing.
pub open spec fn discovery_step<T>(d: DiscoveryState<T>, item: Option<T>, status: u16) -> DiscoveryState<T> {
    if d.1 != DiscoveryStatus::InProgress {
        d
    } else {
        let items = match item {
            Some(x) => d.0.push(x),
            None => d.0,
        };
        (items, status_after(status))
    }
}

/// The state after the reports `events`, from a fresh discovery.
pub open spec fn run_discovery<T>(events: Seq<(Option<T>, u16)>) -> DiscoveryState<T>
    decreases events.len(),
{
    if events.len() == 0 {
        (Seq::empty(), DiscoveryStatus::InProgress)
    } else {
        let prev = run_discovery(events.drop_last());
        discovery_step(prev, events.last().0, events.last().1)
    }
}

/// Gathers the results of one discovery procedure (services,
/// characteristics or descriptors), which the host reports one at a time
/// before a final completion report.
pub struct Discovery<T> {
    items: Vec<T>,
    status: DiscoveryStatus,
}

impl<T> View for Discovery<T> {
    type V = DiscoveryState<T>;

    closed spec fn view(&self) -> DiscoveryState<T> {
        (self.items@, self.status)
    }
}

impl<T> Discovery<T> {
    pub fn new() -> (r: Self)
        ensures
            r@ == run_discovery(Seq::<(Option<T>, u16)>::empty()),
    {
        let r = Discovery { items: Vec::new(), status: DiscoveryStatus::InProgress };
        assert(r@.0 =~= Seq::<T>::empty());
        r
    }

    /// Takes one host report and says where the discovery now stands.
    pub fn on_event(&mut self, item: Option<T>, status: u16) -> (r: DiscoveryStatus)
        ensures
            final(self)@ == discovery_step(old(self)@, item, status),
            r == final(self)@.1,
    {
        if self.status != DiscoveryStatus::InProgress {
            return self.status;
        }
        if let Some(x) = item {
            self.items.push(x);
        }
        self.status = if status == 0 {
            DiscoveryStatus::InProgress
        } else if status == BLE_HS_EDONE {
            DiscoveryStatus::Complete
        } else {
            DiscoveryStatus::Failed(status)
        };
        self.status
    }

    pub fn status(&self) -> (r: DiscoveryStatus)
        ensures
            r == self@.1,
    {
        self.status
    }

    /// The results, in the order the host reported them.
    pub fn into_items(self) -> (r: Vec<T>)
        ensures
            r@ == self@.0,
    {
        self.items
    }
}

/// Reports that carry no result, with status 0 while the discovery runs and
/// the completion status at the end.
pub open spec fn empty_then_done<T>(events: Seq<(Option<T>, u16)>) -> bool {
    &&& events.len() > 0
    &&& forall|i: int| 0 <= i < events.len() ==> (#[trigger] events[i]).0 is None
    &&& forall|i: int| 0 <= i < events.len() - 1 ==> (#[trigger] events[i]).1 == 0
    &&& events.last().1 == BLE_HS_EDONE
}

/// A discovery that receives no result before the completion report is
/// complete, with no results: an empty outcome, not an error.
pub proof fn lemma_empty_discovery<T>(events: Seq<(Option<T>, u16)>)
    requires
        empty_then_done(events),
    ensures
        run_discovery(events) == (Seq::<T>::empty(), DiscoveryStatus::Complete),
{
    lemma_quiet_prefix(events, events.len() - 1);
    assert(events.drop_last() =~= events.subrange(0, events.len() - 1));
}

proof fn lemma_quiet_prefix<T>(events: Seq<(Option<T>, u16)>, n: int)
    requires
        0 <= n < events.len(),
        forall|i: int| 0 <= i < events.len() ==> (#[trigger] events[i]).0 is None,
        forall|i: int| 0 <= i < events.len() - 1 ==> (#[trigger] events[i]).1 == 0,
    ensures
        run_discovery(events.subrange(0, n)) == (Seq::<T>::empty(), DiscoveryStatus::InProgress),
    decreases n,
{
    if n > 0 {
        lemma_quiet_prefix(events, n - 1);
        assert(events.subrange(0, n).drop_last() =~= events.subrange(0, n - 1));
        assert(events.subrange(0, n).last() == events[n - 1]);
    } else {
        assert(events.subrange(0, 0) =~= Seq::<(Option<T>, u16)>::empty());
    }
}

} // verus!
