//! One refresh cycle: progress reporting, then install-or-restore.
//!
//! A cycle captures the pre-cycle state, publishes a `Loading` value for
//! every progress event the fetch emits, and settles in exactly one of two
//! ways: a successful fetch installs the new snapshot — the only point at
//! which a stale snapshot is ever discarded — and a failed fetch puts the
//! captured pre-cycle state back, so a failure never loses an older usable
//! snapshot. The caller drives the fetch itself and sleeps between cycles;
//! failures are non-fatal and simply wait for the next cycle.

use vstd::prelude::*;

use crate::progress::initial_estimator;
use crate::progress::LoadEvent;
use crate::progress::ProgressEstimator;
use crate::snapshot::DatasetSnapshot;
use crate::store::LifecycleState;
use crate::store::SnapshotStore;
use crate::store::StateView;

verus! {

/// Why a fetch cycle failed, kept for observability only.
#[derive(Clone, Debug, PartialEq, Eq)]
pub struct FetchError {
    pub message: String,
}

/// One in-flight refresh cycle over a [`SnapshotStore`].
pub struct RefreshCycle {
    /// The state the store held when the cycle began, put back on failure.
    prev: LifecycleState,
    /// Progress over the events seen so far in this cycle.
    est: ProgressEstimator,
}

impl RefreshCycle {
    /// The captured pre-cycle state.
    pub closed spec fn prev_view(&self) -> StateView {
        self.prev@
    }

    /// The estimator state over the events seen so far.
    pub closed spec fn est_view(&self) -> ProgressEstimator {
        self.est
    }

    /// Well-formedness: the estimator is within its phase band.
    pub open spec fn wf(&self) -> bool {
        self.est_view().wf()
    }

    /// Starts a cycle: captures the current state (to be restored if the
    /// fetch fails) and a fresh estimator. The store is not written yet.
    pub fn begin(store: &SnapshotStore) -> (c: RefreshCycle)
        ensures
            c.prev_view() == store@,
            c.est_view() == initial_estimator(),
            c.wf(),
    {
        RefreshCycle { prev: store.read().duplicate(), est: ProgressEstimator::start() }
    }

    /// Reports one progress event: maps it through the estimator and
    /// publishes the resulting `Loading(fraction, rate)` pair. `now` is in
    /// whole seconds since the cycle began. The published fraction never
    /// decreases over the cycle.
    pub fn on_event(&mut self, store: &mut SnapshotStore, ev: LoadEvent, now: u64)
        requires
            old(self).wf(),
        ensures
            final(self).wf(),
            final(self).prev_view() == old(self).prev_view(),
            final(self).est_view() == old(self).est_view().step(ev, now),
            final(store)@ == StateView::Loading(
                final(self).est_view().frac,
                old(self).est_view().step_rate(ev, now),
            ),
            old(self).est_view().frac.le(final(self).est_view().frac),
    {
        let (frac, rate) = self.est.observe(ev, now);
        store.write(LifecycleState::Loading(frac, rate));
    }

    /// Settles the cycle. A successful fetch installs the new snapshot; a
    /// failed fetch puts the pre-cycle state back and hands the error out
    /// for observability.
    pub fn finish(self, store: &mut SnapshotStore, outcome: Result<DatasetSnapshot, FetchError>)
        -> (r: Option<FetchError>)
        ensures
            match outcome {
                Ok(snap) => final(store)@ == StateView::Loaded(snap@) && r is None,
                Err(e) => final(store)@ == self.prev_view() && r == Some(e),
            },
    {
        match outcome {
            Ok(snap) => {
                store.write(LifecycleState::Loaded(snap));
                None
            },
            Err(e) => {
                store.write(self.prev);
                Some(e)
            },
        }
    }
}

/// Runs one whole refresh cycle over a pre-recorded trace: the timestamped
/// progress events the fetch emitted, then its outcome. A successful fetch
/// always leaves the store `Loaded` with the new snapshot, no matter how
/// many `Loading` values were published before; a failed fetch leaves the
/// store exactly as it was before the cycle.
pub fn run_cycle(
    store: &mut SnapshotStore,
    events: &Vec<(LoadEvent, u64)>,
    outcome: Result<DatasetSnapshot, FetchError>,
) -> (r: Option<FetchError>)
    ensures
        match outcome {
            Ok(snap) => final(store)@ == StateView::Loaded(snap@) && r is None,
            Err(e) => final(store)@ == old(store)@ && r == Some(e),
        },
{
    let mut cycle = RefreshCycle::begin(store);
    let n: usize = events.len();
    for i in 0..n
        invariant
            n == events.len(),
            cycle.wf(),
            cycle.prev_view() == old(store)@,
    {
        let (ev, now) = events[i];
        cycle.on_event(store, ev, now);
    }
    cycle.finish(store, outcome)
}

} // verus!
