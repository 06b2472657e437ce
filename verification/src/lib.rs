//! Core of a statistics server over a periodically refreshed dataset:
//! the lifecycle state machine for the shared snapshot cell, the two-phase
//! weighted progress estimator, the refresh-cycle discipline that installs a
//! new snapshot only on full success, and the query layer (direct lookup,
//! bounded fuzzy search, upcoming listings, pairwise selection) that runs
//! against whatever snapshot is currently installed.

pub mod codec;
pub mod progress;
pub mod query;
pub mod ratio;
pub mod refresh;
pub mod search;
pub mod snapshot;
pub mod store;
pub mod weblog;
