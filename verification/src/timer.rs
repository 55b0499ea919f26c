//! The timer of the random Kademlia queries.
use async_std::stream::Interval;
use vstd::prelude::*;

verus! {

/// The number of seconds from one firing of an interval to the next.
pub uninterp spec fn interval_secs(interval: Interval) -> nat;

/// [`async_std::stream::interval`]: a timer that fires every `secs` seconds.
#[verifier::external_body]
pub(crate) fn new_interval(secs: u64) -> (interval: Interval)
    ensures
        interval_secs(interval) == secs,
{
    async_std::stream::interval(std::time::Duration::from_secs(secs))
}

/// The `Debug` of [`Interval`]. Its text tells of instants of the machine's
/// clock, and is left open.
#[verifier::external_body]
pub(crate) fn debug_interval(interval: &Interval) -> (text: String) {
    format!("{:?}", interval)
}

/// Tells whether `text` is what the `Debug` of an interval wrote.
pub closed spec fn written_of_interval(interval: Interval, text: Seq<char>) -> bool {
    exists|written: String|
        written@ == text && #[trigger] call_ensures(debug_interval, (&interval,), written)
}

/// Only what the `Debug` of the very interval wrote counts as written of it.
pub(crate) proof fn interval_was_written(interval: Interval, text: Seq<char>)
    ensures
        written_of_interval(interval, text) <==> exists|written: String|
            written@ == text && #[trigger] call_ensures(debug_interval, (&interval,), written),
{
}

/// The period of an optional interval.
pub open spec fn period_of(interval: Option<Interval>) -> Option<nat> {
    match interval {
        Some(interval) => Some(interval_secs(interval)),
        None => None,
    }
}

} // verus!
