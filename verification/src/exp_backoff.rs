//! Exponential backoff calculator.

use core::time::Duration;
use vstd::prelude::*;

verus! {

/// The length of a duration in nanoseconds, as `Duration::as_nanos` reports it.
pub uninterp spec fn duration_nanos(d: Duration) -> nat;

/// The length of `Duration::MAX` in nanoseconds: `u64::MAX` whole seconds and
/// one nanosecond less than another second.
pub open spec fn max_duration_nanos() -> nat {
    18_446_744_073_709_551_615_999_999_999nat
}

/// The delay that follows `value` under `factor`, capped by `max`
/// (all in nanoseconds).
pub open spec fn next_delay(value: nat, factor: nat, max: nat) -> nat {
    let scaled = if value * factor <= max_duration_nanos() {
        value * factor
    } else {
        max_duration_nanos()
    };
    if scaled <= max {
        scaled
    } else {
        max
    }
}

/// `Clone` for `Duration`, a `Copy` type: the clone is the value itself.
pub assume_specification[ <Duration as Clone>::clone ](d: &Duration) -> (r: Duration)
    ensures
        r == *d,
;

/// An exponential backoff state.
#[derive(Debug, Clone)]
pub struct State {
    /// Factor to multiply the current delay to calculate the next one.
    pub factor: u32,
    /// Delay clamp.
    pub max: Duration,
    /// Precomputed delay value to return.
    ///
    /// Initialize with the first delay value to expect.
    pub value: Duration,
}

/// Nanoseconds in a second.
pub const NANOS_PER_SEC: u64 = 1_000_000_000;

/// `Duration::from_secs`: the duration of a whole number of seconds.
/// Trusted: the body is the std call.
#[verifier::external_body]
pub(crate) fn duration_from_secs(secs: u64) -> (d: Duration)
    ensures
        duration_nanos(d) == secs * NANOS_PER_SEC,
{
    Duration::from_secs(secs)
}

/// `<` on durations: whether the first is shorter than the second.
/// Trusted: the body is the std comparison.
#[verifier::external_body]
pub(crate) fn duration_is_shorter(a: Duration, b: Duration) -> (r: bool)
    ensures
        r == (duration_nanos(a) < duration_nanos(b)),
{
    a < b
}

/// `Duration::saturating_mul`: the product of a duration and a factor, or
/// `Duration::MAX` where the product does not fit. Trusted: the body is the
/// std call.
#[verifier::external_body]
fn duration_saturating_mul(d: Duration, factor: u32) -> (r: Duration)
    ensures
        duration_nanos(r) == if duration_nanos(d) * (factor as nat) <= max_duration_nanos() {
            duration_nanos(d) * (factor as nat)
        } else {
            max_duration_nanos()
        },
{
    d.saturating_mul(factor)
}

/// `Ord::min` on durations: the shorter of the two, and the first where they
/// are equally long, which are then the same duration; it is not longer
/// than either, and neither is longer than `Duration::MAX`, the longest
/// duration there is. Trusted: the body is the std call.
#[verifier::external_body]
fn duration_min(a: Duration, b: Duration) -> (r: Duration)
    ensures
        r == (if duration_nanos(a) <= duration_nanos(b) { a } else { b }),
        duration_nanos(a) == duration_nanos(b) ==> r == b,
        duration_nanos(r) <= duration_nanos(a) <= max_duration_nanos(),
        duration_nanos(r) <= duration_nanos(b) <= max_duration_nanos(),
{
    a.min(b)
}

impl State {
    /// The stored delay in nanoseconds.
    pub open spec fn value_nanos(self) -> nat {
        duration_nanos(self.value)
    }

    /// The delay clamp in nanoseconds.
    pub open spec fn max_nanos(self) -> nat {
        duration_nanos(self.max)
    }

    /// Obtain the stored delay value and precompute next one: the stored
    /// delay times the factor, and the clamp where that is longer. With a
    /// factor of at least one and a delay that is not above the clamp, the
    /// next delay is at least as long and not above the clamp either; with
    /// a factor above one it is longer as long as the delay is positive and
    /// below the clamp; and a delay at the clamp stays there.
    pub fn advance(&mut self) -> (current: Duration)
        ensures
            current == old(self).value,
            final(self).factor == old(self).factor,
            final(self).max == old(self).max,
            final(self).value_nanos() == next_delay(
                old(self).value_nanos(),
                old(self).factor as nat,
                old(self).max_nanos(),
            ),
            final(self).value_nanos() <= final(self).max_nanos() <= max_duration_nanos(),
            old(self).factor >= 1 && old(self).value_nanos() <= old(self).max_nanos()
                ==> old(self).value_nanos() <= final(self).value_nanos(),
            old(self).factor > 1 && 0 < old(self).value_nanos() < old(self).max_nanos()
                ==> old(self).value_nanos() < final(self).value_nanos(),
            old(self).factor >= 1 && old(self).value_nanos() == old(self).max_nanos()
                ==> final(self).value == old(self).max,
            final(self).value_nanos() == final(self).max_nanos()
                ==> final(self).value == final(self).max,
    {
        let current = self.value;
        self.value = duration_min(duration_saturating_mul(current, self.factor), self.max);
        proof {
            if old(self).factor >= 1 && old(self).value_nanos() <= old(self).max_nanos() {
                lemma_next_delay_grows(
                    old(self).value_nanos(),
                    old(self).factor as nat,
                    old(self).max_nanos(),
                );
            }
        }
        current
    }

    /// Peek the stored delay value.
    pub fn peek(&self) -> (current: Duration)
        ensures
            current == self.value,
    {
        self.value
    }
}

/// The delay that the call of `advance` number `n` (counted from zero)
/// returns, in nanoseconds, where the state started from `value`.
pub open spec fn delay_at(value: nat, factor: nat, max: nat, n: nat) -> nat
    decreases n,
{
    if n == 0 {
        value
    } else {
        next_delay(delay_at(value, factor, max, (n - 1) as nat), factor, max)
    }
}

/// How many calls of `advance` it takes until the clamp is returned.
pub open spec fn calls_to_max(value: nat, factor: nat, max: nat) -> nat
    decreases max - value,
{
    if factor > 1 && value < next_delay(value, factor, max) {
        1 + calls_to_max(next_delay(value, factor, max), factor, max)
    } else {
        0
    }
}

/// With a factor of at least one, a delay that is not above the clamp is
/// followed by one that is at least as long and not above the clamp either.
pub proof fn lemma_next_delay_grows(value: nat, factor: nat, max: nat)
    requires
        factor >= 1,
        value <= max <= max_duration_nanos(),
    ensures
        value <= next_delay(value, factor, max) <= max,
        factor > 1 && 0 < value < max ==> value < next_delay(value, factor, max),
        value == max ==> next_delay(value, factor, max) == max,
{
    assert(value * factor >= value) by (nonlinear_arith)
        requires
            factor >= 1,
    ;
    if factor > 1 && value > 0 {
        assert(value * factor > value) by (nonlinear_arith)
            requires
                factor > 1,
                value > 0,
        ;
    }
}

/// Backoff is monotone: with a factor of at least one and a first delay that
/// is not above the clamp, each call of `advance` returns at least what the
/// call before it returned, and never more than the clamp. (The clamp of
/// every state is at most `Duration::MAX`, as `advance` states.)
pub proof fn lemma_delays_grow(value: nat, factor: nat, max: nat, n: nat)
    requires
        factor >= 1,
        value <= max <= max_duration_nanos(),
    ensures
        delay_at(value, factor, max, n) <= delay_at(value, factor, max, n + 1) <= max,
    decreases n,
{
    if n > 0 {
        lemma_delays_grow(value, factor, max, (n - 1) as nat);
    }
    lemma_next_delay_grows(delay_at(value, factor, max, n), factor, max);
}

/// The delays after the first are those of a state that starts one call
/// later.
pub proof fn lemma_delay_at_shift(value: nat, factor: nat, max: nat, n: nat)
    ensures
        delay_at(value, factor, max, n + 1) == delay_at(
            next_delay(value, factor, max),
            factor,
            max,
            n,
        ),
    decreases n,
{
    if n > 0 {
        lemma_delay_at_shift(value, factor, max, (n - 1) as nat);
        assert(delay_at(value, factor, max, n + 1) == next_delay(
            delay_at(value, factor, max, n),
            factor,
            max,
        ));
    } else {
        assert(delay_at(value, factor, max, 1) == next_delay(
            delay_at(value, factor, max, 0),
            factor,
            max,
        ));
    }
}

/// Backoff reaches its clamp: with a factor above one and a first delay that
/// is positive and not above the clamp, every call of `advance` from number
/// `calls_to_max` on returns the clamp.
pub proof fn lemma_delays_reach_max(value: nat, factor: nat, max: nat, n: nat)
    requires
        factor > 1,
        0 < value <= max <= max_duration_nanos(),
        n >= calls_to_max(value, factor, max),
    ensures
        delay_at(value, factor, max, n) == max,
    decreases max - value, n,
{
    lemma_next_delay_grows(value, factor, max);
    if value < max {
        lemma_delay_at_shift(value, factor, max, (n - 1) as nat);
        lemma_delays_reach_max(next_delay(value, factor, max), factor, max, (n - 1) as nat);
    } else if n > 0 {
        lemma_delay_at_shift(value, factor, max, (n - 1) as nat);
        lemma_delays_reach_max(next_delay(value, factor, max), factor, max, (n - 1) as nat);
    }
}

} // verus!
