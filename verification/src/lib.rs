//! Core of a host-metrics publisher: magnitude formatting, snapshots, the
//! latest-value cache, the broadcast hub and the decisions of the sampling and
//! streaming loops.

pub mod cache;
pub mod format;
pub mod hub;
pub mod sampler;
pub mod snapshot;
pub mod stream;
