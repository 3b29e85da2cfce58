//! How large the ring buffer of a stream has to be.

use std::time::Duration;

use vstd::arithmetic::power2::{
    lemma2_to64, lemma_pow2_strictly_increases, lemma_pow2_unfold, pow2,
};
use vstd::prelude::*;

use crate::time::{duration_micros, duration_nanos};

verus! {

/// The number of samples per second of a stream.
pub type SampleRate = u32;

/// The buffer of a stream was to last for no time at all.
#[derive(Debug, Clone, Copy, PartialEq, Eq, Structural)]
pub struct DurationWasZero;

impl DurationWasZero {
    /// The text of the error.
    pub fn message(self) -> (message: &'static str)
        ensures
            message@ == "duration was zero"@,
    {
        "duration was zero"
    }
}

/// The largest capacity exponent that [`compute_capacity_exponent`] gives.
pub const MAX_CAPACITY_EXPONENT: u32 = 31;

/// The capacity of the largest buffer.
pub const MAX_CAPACITY: u32 = 0x8000_0000;

/// The number of samples that arrive in `micros` microseconds, one that arrives in part counted as
/// a whole one.
pub open spec fn samples_within(sample_rate: SampleRate, micros: nat) -> nat {
    (micros * sample_rate + 999_999) as nat / 1_000_000
}

/// Whether `exponent` is the smallest one for which a buffer of two to its power holds `samples`.
pub open spec fn is_capacity_exponent(exponent: nat, samples: nat) -> bool {
    &&& samples <= pow2(exponent)
    &&& exponent > 0 ==> pow2((exponent - 1) as nat) < samples
}

/// Whether a buffer for `buffer_duration` has at least one sample to hold, and no more than the
/// largest buffer does.
pub open spec fn capacity_in_range(sample_rate: SampleRate, buffer_duration: Duration) -> bool {
    1 <= samples_within(sample_rate, duration_micros(buffer_duration)) <= MAX_CAPACITY
}

/// The smallest exponent for which a buffer of two to its power holds `samples`.
pub fn capacity_exponent(samples: u32) -> (exponent: u32)
    requires
        samples <= MAX_CAPACITY,
    ensures
        exponent <= MAX_CAPACITY_EXPONENT,
        is_capacity_exponent(exponent as nat, samples as nat),
{
    let mut exponent: u32 = 0;
    let mut size: u32 = 1;
    proof {
        lemma2_to64();
    }
    while size < samples
        invariant
            samples <= MAX_CAPACITY,
            exponent <= MAX_CAPACITY_EXPONENT,
            size == pow2(exponent as nat),
            exponent > 0 ==> pow2((exponent - 1) as nat) < samples,
        decreases MAX_CAPACITY_EXPONENT - exponent,
    {
        proof {
            lemma2_to64();
            lemma_pow2_unfold((exponent + 1) as nat);
            if exponent < 30 {
                lemma_pow2_strictly_increases(exponent as nat, 30);
            }
        }
        size = size * 2;
        exponent = exponent + 1;
    }
    exponent
}

/// The number of samples that a stream of `sample_rate` delivers in `buffer_duration`, if a buffer
/// can be made that holds them, and there are any.
pub fn samples_to_buffer(sample_rate: SampleRate, buffer_duration: Duration) -> (samples: Option<
    u32,
>)
    ensures
        samples is Some <==> capacity_in_range(sample_rate, buffer_duration),
        samples matches Some(n) ==> n == samples_within(
            sample_rate,
            duration_micros(buffer_duration),
        ),
{
    let micros: u128 = buffer_duration.as_micros();
    match micros.checked_mul(sample_rate as u128) {
        None => None,
        Some(product) => {
            if product == 0 || product > 0x8000_0000 * 1_000_000 {
                return None;
            }
            let samples: u128 = (product + 999_999) / 1_000_000;
            Some(samples as u32)
        },
    }
}

/// The base 2 logarithm of the capacity that a buffer needs to hold what a stream of `sample_rate`
/// delivers in `buffer_duration`.
pub fn compute_capacity_exponent(
    sample_rate: SampleRate,
    buffer_duration: Duration,
) -> (exponent: Result<u32, DurationWasZero>)
    requires
        duration_nanos(buffer_duration) > 0 ==> capacity_in_range(sample_rate, buffer_duration),
    ensures
        exponent is Err <==> duration_nanos(buffer_duration) == 0,
        exponent matches Ok(e) ==> {
            &&& e <= MAX_CAPACITY_EXPONENT
            &&& is_capacity_exponent(
                e as nat,
                samples_within(sample_rate, duration_micros(buffer_duration)),
            )
        },
{
    if buffer_duration.is_zero() {
        return Err(DurationWasZero);
    }
    match samples_to_buffer(sample_rate, buffer_duration) {
        Some(samples) => Ok(capacity_exponent(samples)),
        None => unreached(),
    }
}

/// The capacity of a buffer for `buffer_duration`, if there can be one: a power of two that holds
/// all that arrives in that time.
pub fn buffer_capacity(sample_rate: SampleRate, buffer_duration: Duration) -> (capacity: Option<
    usize,
>)
    ensures
        capacity is Some <==> capacity_in_range(sample_rate, buffer_duration),
        capacity matches Some(c) ==> exists|e: nat|
            {
                &&& #[trigger] pow2(e) == c
                &&& e <= MAX_CAPACITY_EXPONENT
                &&& is_capacity_exponent(
                    e,
                    samples_within(sample_rate, duration_micros(buffer_duration)),
                )
            },
{
    match samples_to_buffer(sample_rate, buffer_duration) {
        None => {
            return None;
        },
        Some(_) => {},
    }
    proof {
        if duration_nanos(buffer_duration) == 0 {
            assert(0 * sample_rate == 0);
            assert(samples_within(sample_rate, 0) == 0);
        }
    }
    match compute_capacity_exponent(sample_rate, buffer_duration) {
        Err(_) => unreached(),
        Ok(exponent) => {
            proof {
                vstd::bits::lemma_usize_pow2_no_overflow(exponent as nat);
                vstd::bits::lemma_usize_shl_is_mul(1, exponent as usize);
            }
            Some(1usize << exponent)
        },
    }
}

/// A buffer holds all that arrives in its duration: if it starts empty, nothing is dropped while it
/// is not emptied for that long.
pub proof fn law_buffer_outlasts_duration(
    sample_rate: SampleRate,
    micros: nat,
    exponent: nat,
    arrived: nat,
)
    requires
        is_capacity_exponent(exponent, samples_within(sample_rate, micros)),
        arrived * 1_000_000 <= micros * sample_rate,
    ensures
        arrived <= pow2(exponent),
{
}

/// A buffer is no larger than it has to be: half of it would not do.
pub proof fn law_buffer_is_tight(sample_rate: SampleRate, micros: nat, exponent: nat)
    requires
        exponent > 0,
        is_capacity_exponent(exponent, samples_within(sample_rate, micros)),
    ensures
        pow2(exponent) < 2 * samples_within(sample_rate, micros),
{
    lemma_pow2_unfold(exponent);
}

/// There is only one capacity exponent.
pub proof fn law_capacity_exponent_unique(e1: nat, e2: nat, samples: nat)
    requires
        is_capacity_exponent(e1, samples),
        is_capacity_exponent(e2, samples),
    ensures
        e1 == e2,
{
    law_capacity_exponent_monotonic(e1, samples, e2, samples);
    law_capacity_exponent_monotonic(e2, samples, e1, samples);
}

/// More samples never need a smaller buffer.
pub proof fn law_capacity_exponent_monotonic(e1: nat, samples1: nat, e2: nat, samples2: nat)
    requires
        is_capacity_exponent(e1, samples1),
        is_capacity_exponent(e2, samples2),
        samples1 <= samples2,
    ensures
        e1 <= e2,
{
    if e2 < e1 && e2 < e1 - 1 {
        lemma_pow2_strictly_increases(e2, (e1 - 1) as nat);
    }
}

/// A stream that runs faster or is buffered for longer delivers no fewer samples.
pub proof fn law_samples_within_monotonic(rate1: SampleRate, micros1: nat, rate2: SampleRate, micros2: nat)
    requires
        rate1 <= rate2,
        micros1 <= micros2,
    ensures
        samples_within(rate1, micros1) <= samples_within(rate2, micros2),
{
    assert(micros1 * rate1 <= micros2 * rate2) by (nonlinear_arith)
        requires
            rate1 <= rate2,
            micros1 <= micros2,
    ;
}


/// The samples of a duration are counted whole: so many last for all of its whole microseconds, and
/// one fewer would not.
pub proof fn law_samples_are_counted_whole(sample_rate: SampleRate, buffer_duration: Duration)
    ensures
        ({
            let arriving = (duration_nanos(buffer_duration) / 1_000) * sample_rate;
            let samples = samples_within(sample_rate, duration_micros(buffer_duration)) as int;
            &&& arriving <= samples * 1_000_000
            &&& (samples - 1) * 1_000_000 < arriving
        }),
{
}

/// The exponent is the least whose power of two is enough: every smaller power of two is too small.
pub proof fn law_smaller_buffers_are_too_small(exponent: nat, samples: nat, smaller: nat)
    requires
        is_capacity_exponent(exponent, samples),
        smaller < exponent,
    ensures
        samples <= pow2(exponent),
        pow2(smaller) < samples,
{
    if smaller < exponent - 1 {
        lemma_pow2_strictly_increases(smaller, (exponent - 1) as nat);
    }
}

/// A buffer of the capacity for a duration holds what arrives in all of its whole microseconds, and
/// half of it would not.
pub proof fn law_capacity_is_the_least_that_lasts(
    sample_rate: SampleRate,
    buffer_duration: Duration,
    exponent: nat,
)
    requires
        is_capacity_exponent(
            exponent,
            samples_within(sample_rate, duration_micros(buffer_duration)),
        ),
    ensures
        (duration_nanos(buffer_duration) / 1_000) * sample_rate <= pow2(exponent) * 1_000_000,
        exponent > 0 ==> pow2((exponent - 1) as nat) * 1_000_000 < (duration_nanos(buffer_duration)
            / 1_000) * sample_rate,
{
    law_samples_are_counted_whole(sample_rate, buffer_duration);
}

/// A buffer has an exponent for just those durations in which something arrives, and no more than
/// two to the power of 31 samples do.
pub proof fn law_durations_that_can_be_buffered(sample_rate: SampleRate, buffer_duration: Duration)
    ensures
        capacity_in_range(sample_rate, buffer_duration) <==> 0 < (duration_nanos(buffer_duration)
            / 1_000) * sample_rate <= 0x8000_0000 * 1_000_000,
{
    law_samples_are_counted_whole(sample_rate, buffer_duration);
}

} // verus!
