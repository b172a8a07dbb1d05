//! A rotating suggestion feed: an ordered in-memory store of suggestion
//! records, a rotator that cyclically permutes the order by a fixed stride on
//! every tick, and a query service that snapshots the currently visible
//! prefix of the order together with a capture timestamp.

pub mod math;
pub mod query;
pub mod rotation;
pub mod rotator;
pub mod store;
pub mod suggestion;
