use vstd::prelude::*;

use crate::store::{visible_prefix, SuggestionStore, VISIBLE_WINDOW};
use crate::suggestion::Suggestion;

verus! {

/// What one query returns: up to `VISIBLE_WINDOW` suggestion snapshots in
/// store order, plus the capture time in whole seconds since the Unix epoch.
/// Built fresh per request and never stored.
pub struct QueryResponse {
    pub suggestions: Vec<Suggestion>,
    pub timestamp: u64,
}

/// Relies on std::time::SystemTime: the wall clock now, as whole seconds
/// since the Unix epoch (zero under a clock set before the epoch). The value
/// depends on the machine's clock, so nothing is promised of it.
#[verifier::external_body]
fn now_epoch_seconds() -> u64 {
    match std::time::SystemTime::now().duration_since(std::time::UNIX_EPOCH) {
        Ok(elapsed) => elapsed.as_secs(),
        Err(_) => 0,
    }
}

/// Builds the response for one query against the current order, stamped with
/// the given capture time. The returned items are exactly the visible prefix
/// of that one order: the first `VISIBLE_WINDOW` items where the store holds
/// at least that many, all of them otherwise. A query never fails: an empty
/// store yields an empty list, and the store is left untouched.
pub fn answer_query_at(store: &SuggestionStore, timestamp: u64) -> (r: QueryResponse)
    ensures
        r.suggestions@ == visible_prefix(store@),
        r.timestamp == timestamp,
        store@.len() >= VISIBLE_WINDOW ==> r.suggestions@ == store@.take(VISIBLE_WINDOW as int),
        store@.len() == 0 ==> r.suggestions@.len() == 0,
{
    QueryResponse { suggestions: store.snapshot_prefix(), timestamp }
}

/// Answers one inbound query: snapshots the visible prefix of the order the
/// store holds at this moment and stamps it with the current wall-clock
/// time. Nothing is promised of the timestamp, which depends on the clock.
pub fn answer_query(store: &SuggestionStore) -> (r: QueryResponse)
    ensures
        r.suggestions@ == visible_prefix(store@),
        store@.len() >= VISIBLE_WINDOW ==> r.suggestions@ == store@.take(VISIBLE_WINDOW as int),
        store@.len() == 0 ==> r.suggestions@.len() == 0,
{
    let timestamp = now_epoch_seconds();
    answer_query_at(store, timestamp)
}

} // verus!
