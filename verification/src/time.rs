//! Spans of time as the standard library keeps them.

use std::time::Duration;
use vstd::prelude::*;

verus! {

/// The length of a span of time in nanoseconds: what `Duration::as_nanos`
/// returns.
pub uninterp spec fn duration_nanos(d: Duration) -> nat;

/// `Duration::as_nanos` gives the whole span in nanoseconds.
pub assume_specification[ Duration::as_nanos ](d: &Duration) -> (nanos: u128)
    ensures
        nanos == duration_nanos(*d),
;

/// `Duration::from_millis` makes a span of that many milliseconds, each a
/// million nanoseconds.
pub assume_specification[ Duration::from_millis ](millis: u64) -> (d: Duration)
    ensures
        duration_nanos(d) == millis * 1_000_000,
;

/// `Duration::from_nanos` makes a span of that many nanoseconds.
pub assume_specification[ Duration::from_nanos ](nanos: u64) -> (d: Duration)
    ensures
        duration_nanos(d) == nanos,
;

} // verus!
