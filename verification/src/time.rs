//! What `std` promises of the parts of [`Duration`] that the workers use.

use std::time::Duration;

use vstd::prelude::*;

verus! {

/// The length of a duration in nanoseconds, which is what `Duration::as_nanos` reports.
pub uninterp spec fn duration_nanos(d: Duration) -> nat;

/// The number of whole microseconds in a duration.
pub open spec fn duration_micros(d: Duration) -> nat {
    duration_nanos(d) / 1_000
}

/// `Duration::new`: a duration of `secs` seconds and `nanos` further nanoseconds. It panics where
/// the seconds carried over from `nanos` overflow the seconds counter.
pub assume_specification[ Duration::new ](secs: u64, nanos: u32) -> (d: Duration)
    requires
        secs + nanos / 1_000_000_000 <= u64::MAX,
    ensures
        duration_nanos(d) == secs * 1_000_000_000 + nanos,
;

/// `Duration::is_zero`: whether the duration spans no time.
pub assume_specification[ Duration::is_zero ](d: &Duration) -> (zero: bool)
    ensures
        zero == (duration_nanos(*d) == 0),
;

/// `Duration::as_micros`: the number of whole microseconds in the duration.
pub assume_specification[ Duration::as_micros ](d: &Duration) -> (micros: u128)
    ensures
        micros == duration_micros(*d),
;

/// `Duration::as_secs`: the number of whole seconds in the duration.
pub assume_specification[ Duration::as_secs ](d: &Duration) -> (secs: u64)
    ensures
        secs == duration_nanos(*d) / 1_000_000_000,
;

/// `Duration::subsec_nanos`: the part of the duration past its last whole second.
pub assume_specification[ Duration::subsec_nanos ](d: &Duration) -> (nanos: u32)
    ensures
        nanos == duration_nanos(*d) % 1_000_000_000,
;


/// Whole microseconds are counted: no more than the duration spans, and not one fewer.
pub proof fn law_microseconds_are_whole(d: Duration)
    ensures
        duration_micros(d) * 1_000 <= duration_nanos(d) < (duration_micros(d) + 1) * 1_000,
{
}

} // verus!
