//! When to try again what failed.

use vstd::prelude::*;

use crate::time::{Duration, NANOS_PER_MILLI};

verus! {

/// The first delay, in milliseconds; each further delay is that many times longer.
pub const RETRY_BASE_MILLIS: u64 = 100;

/// How often a failed attempt is tried again.
pub const RETRIES: usize = 3;

/// The delay before retry `i`, counted from zero: the base, multiplied by itself once more for
/// each retry before, and cut off at the end of the range.
pub open spec fn backoff_millis(base: u64, i: nat) -> u64
    decreases i,
{
    if i == 0 {
        base
    } else {
        let longer = backoff_millis(base, (i - 1) as nat) * base;
        if longer <= u64::MAX {
            longer as u64
        } else {
            u64::MAX
        }
    }
}

/// `tokio_retry::strategy::ExponentialBackoff`, made by `from_millis`: the first `count` delays
/// that it yields, in whole milliseconds.
#[verifier::external_body]
fn exponential_backoff(base: u64, count: usize) -> (delays: Vec<u64>)
    ensures
        delays@ == Seq::new(count as nat, |i: int| backoff_millis(base, i as nat)),
{
    tokio_retry::strategy::ExponentialBackoff::from_millis(base)
        .take(count)
        .map(|delay| delay.as_millis() as u64)
        .collect()
}

/// `tokio_retry::strategy::jitter`: a delay drawn at random between zero and the given one, here
/// in nanoseconds. Which one is not said: each call draws anew.
#[verifier::external_body]
fn jitter(millis: u64) -> (nanos: u64)
    requires
        millis <= 1_000_000,
    ensures
        nanos <= millis * 1_000_000,
{
    tokio_retry::strategy::jitter(std::time::Duration::from_millis(millis)).as_nanos() as u64
}

/// The longest delay before each retry, in milliseconds.
pub fn longest_delays() -> (delays: Vec<u64>)
    ensures
        delays@ == seq![100u64, 10_000u64, 1_000_000u64],
{
    let delays: Vec<u64> = exponential_backoff(RETRY_BASE_MILLIS, RETRIES);
    proof {
        reveal_with_fuel(backoff_millis, 3);
        assert(delays@[0] == 100);
        assert(delays@[1] == 10_000);
        assert(delays@[2] == 1_000_000);
        assert(delays@ =~= seq![100u64, 10_000u64, 1_000_000u64]);
    }
    delays
}

/// Draws the delay before each retry, so that those who failed together do not come back
/// together.
pub fn retry_delays() -> (delays: Vec<Duration>)
    ensures
        delays@.len() == RETRIES,
        delays@[0].nanos <= 100 * NANOS_PER_MILLI,
        delays@[1].nanos <= 10_000 * NANOS_PER_MILLI,
        delays@[2].nanos <= 1_000_000 * NANOS_PER_MILLI,
{
    let longest = longest_delays();
    let mut delays: Vec<Duration> = Vec::new();
    for i in 0..longest.len()
        invariant
            longest@ == seq![100u64, 10_000u64, 1_000_000u64],
            delays@.len() == i,
            forall|j: int|
                0 <= j < i ==> (#[trigger] delays@[j]).nanos <= longest@[j] * NANOS_PER_MILLI,
    {
        let nanos: u64 = jitter(longest[i]);
        delays.push(Duration { nanos: nanos as u128 });
    }
    delays
}

} // verus!
