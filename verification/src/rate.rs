//! The rate estimator: run the generate-encode-test step for a fixed number
//! of iterations on one thread and compute attempts per second.
//!
//! Rates are carried as integers in nano-keys per second (10^-9 keys per
//! second), so the arithmetic is exact and total: the elapsed time gets a
//! floor of one nanosecond, and the result is a finite, non-negative
//! integer for every input.

use vstd::prelude::*;
use crate::matcher::Matcher;
use crate::search::attempt;

verus! {

/// How many attempts the estimator samples.
pub const SAMPLE_ATTEMPTS: u64 = 500;

/// One second, and one key, in nanos: the factor taking attempts per
/// elapsed-nanosecond to nano-keys per second.
pub const RATE_SCALE: u128 = 1_000_000_000_000_000_000;

/// Attempts per second in nano-keys per second: attempts * 10^18 divided by
/// the elapsed nanoseconds, one nanosecond at least.
pub open spec fn rate_nanos_spec(attempts: int, elapsed_nanos: int) -> int {
    attempts * RATE_SCALE as int / (if elapsed_nanos <= 0 {
        1int
    } else {
        elapsed_nanos
    })
}

/// The throughput a sample shows.  Total: a zero elapsed time is read as
/// one nanosecond, so the division is always defined, and the result is
/// never negative.
pub fn compute_rate(attempts: u64, elapsed_nanos: u64) -> (r: u128)
    ensures
        r == rate_nanos_spec(attempts as int, elapsed_nanos as int),
        r <= attempts as u128 * RATE_SCALE,
{
    let a = attempts as u128;
    let e: u128 = if elapsed_nanos == 0 {
        1
    } else {
        elapsed_nanos as u128
    };
    (a * RATE_SCALE) / e
}

/// A rate is defined, never negative, and at most attempts * RATE_SCALE,
/// whatever elapsed time the clock showed - a zero or negative reading
/// included.
pub proof fn lemma_rate_bounds(attempts: int, elapsed_nanos: int)
    requires
        0 <= attempts,
    ensures
        0 <= rate_nanos_spec(attempts, elapsed_nanos) <= attempts * RATE_SCALE as int,
{
    let e: int = if elapsed_nanos <= 0 {
        1int
    } else {
        elapsed_nanos
    };
    vstd::arithmetic::div_mod::lemma_div_is_ordered_by_denominator(
        attempts * RATE_SCALE as int,
        1,
        e,
    );
}

#[verifier::external_type_specification]
#[verifier::external_body]
pub struct ExInstant(std::time::Instant);

/// Relies on `std::time::Instant::now`: an opaque reading of the monotonic
/// clock; nothing is promised of its value.
#[verifier::external_body]
fn clock_now() -> (r: std::time::Instant) {
    std::time::Instant::now()
}

/// Relies on `std::time::Instant::elapsed`: the nanoseconds since the
/// reading, capped at `u64::MAX`; nothing is promised of the value.
#[verifier::external_body]
fn nanos_since(start: &std::time::Instant) -> (r: u64) {
    let n = start.elapsed().as_nanos();
    if n > u64::MAX as u128 {
        u64::MAX
    } else {
        n as u64
    }
}

/// Run the sample on one thread and compute its throughput.  The elapsed
/// time is whatever the clock showed: the result is the exact rate for some
/// elapsed reading, never gating the search itself.
pub fn measure_rate(m: &Matcher) -> (r: u128)
    ensures
        exists|e: int| 0 <= e && r == rate_nanos_spec(SAMPLE_ATTEMPTS as int, e),
        r <= SAMPLE_ATTEMPTS as u128 * RATE_SCALE,
{
    let start = clock_now();
    let mut i: u64 = 0;
    while i < SAMPLE_ATTEMPTS
        invariant
            i <= SAMPLE_ATTEMPTS,
        decreases SAMPLE_ATTEMPTS - i,
    {
        let _ = attempt(m);
        i = i + 1;
    }
    let elapsed = nanos_since(&start);
    let r = compute_rate(SAMPLE_ATTEMPTS, elapsed);
    proof {
        assert(r == rate_nanos_spec(SAMPLE_ATTEMPTS as int, elapsed as int));
    }
    r
}

} // verus!
