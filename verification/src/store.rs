//! The lifecycle state and the shared cell that holds it.
//!
//! Exactly one [`LifecycleState`] value is authoritative at any instant. It
//! is written only by the refresh cycle and read by every query handler.
//! Both operations touch nothing but the cell itself, so a caller that
//! guards the store with a lock holds that lock only for a single read or a
//! single replacement, never across fetch, parse or scoring work.

use vstd::prelude::*;

use crate::ratio::Ratio;
use crate::snapshot::DatasetSnapshot;
use crate::snapshot::SnapshotView;

verus! {

/// Ghost mirror of [`LifecycleState`].
pub ghost enum StateView {
    NotLoaded,
    Loading(Ratio, Ratio),
    Loaded(SnapshotView),
}

/// Whether a usable snapshot exists, and how far along a refresh is.
///
/// `NotLoaded` is the initial state. `Loading(fraction, rate)` means a
/// refresh is in flight and no snapshot is guaranteed; it replaces the view
/// of any previous snapshot until the refresh settles. `Loaded` holds the
/// result of the last successful refresh.
#[derive(Clone, Debug, PartialEq)]
pub enum LifecycleState {
    NotLoaded,
    Loading(Ratio, Ratio),
    Loaded(DatasetSnapshot),
}

impl View for LifecycleState {
    type V = StateView;

    open spec fn view(&self) -> StateView {
        match self {
            LifecycleState::NotLoaded => StateView::NotLoaded,
            LifecycleState::Loading(frac, rate) => StateView::Loading(*frac, *rate),
            LifecycleState::Loaded(snap) => StateView::Loaded(snap@),
        }
    }
}

impl LifecycleState {
    /// An exact copy, equal to `self` view for view.
    pub fn duplicate(&self) -> (r: LifecycleState)
        ensures
            r@ == self@,
    {
        match self {
            LifecycleState::NotLoaded => LifecycleState::NotLoaded,
            LifecycleState::Loading(frac, rate) => LifecycleState::Loading(*frac, *rate),
            LifecycleState::Loaded(snap) => LifecycleState::Loaded(snap.duplicate()),
        }
    }
}

/// The single authoritative cell holding the current [`LifecycleState`].
pub struct SnapshotStore {
    state: LifecycleState,
}

impl View for SnapshotStore {
    type V = StateView;

    closed spec fn view(&self) -> StateView {
        self.state@
    }
}

impl SnapshotStore {
    /// A fresh store, before any refresh has ever run.
    pub fn new() -> (s: SnapshotStore)
        ensures
            s@ == StateView::NotLoaded,
    {
        SnapshotStore { state: LifecycleState::NotLoaded }
    }

    /// Reads the current state. The returned reference is valid without any
    /// further coordination; the value it points at is never mutated in
    /// place, only replaced wholesale by [`SnapshotStore::write`].
    pub fn read(&self) -> (r: &LifecycleState)
        ensures
            r@ == self@,
    {
        &self.state
    }

    /// Replaces the current state atomically (the whole variant at once).
    pub fn write(&mut self, s: LifecycleState)
        ensures
            final(self)@ == s@,
    {
        self.state = s;
    }
}

} // verus!
