//! Randomised exponential backoff for operations against the remote store.
//!
//! Delays are whole nanoseconds. Growth factors are whole millionths, so a
//! factor of 1 500 000 multiplies by one and a half.

use vstd::prelude::*;

verus! {

/// The first delay is at least this long: one millisecond.
pub const FIRST_DELAY_MIN_NANOS: u64 = 1_000_000;

/// The first delay is shorter than this: two hundred milliseconds.
pub const FIRST_DELAY_END_NANOS: u64 = 200_000_000;

/// One whole, in growth-factor units.
pub const FACTOR_UNIT: u64 = 1_000_000;

/// Growth factors are at least this: one and a half.
pub const FACTOR_MIN: u64 = 1_500_000;

/// Growth factors are smaller than this: two and a half.
pub const FACTOR_END: u64 = 2_500_000;

/// Operations and pauses longer than this are worth reporting: two seconds.
pub const LONG_OPERATION_NANOS: u64 = 2_000_000_000;

/// `delay * factor / FACTOR_UNIT`, rounded up.
pub open spec fn scaled_delay(delay: u64, factor: u64) -> int {
    (delay * factor + (FACTOR_UNIT - 1)) / (FACTOR_UNIT as int)
}

/// The delay that follows `delay` under `factor`: the scaled delay, or
/// `u64::MAX` where that no longer fits.
pub open spec fn next_delay(delay: u64, factor: u64) -> u64 {
    if scaled_delay(delay, factor) > u64::MAX {
        u64::MAX
    } else {
        scaled_delay(delay, factor) as u64
    }
}

/// Whether `factor` is a growth factor between one and a half (inclusive) and
/// two and a half (exclusive).
pub open spec fn valid_factor(factor: u64) -> bool {
    FACTOR_MIN <= factor < FACTOR_END
}

/// Whether `delay` can be a first delay.
pub open spec fn valid_first_delay(delay: u64) -> bool {
    FIRST_DELAY_MIN_NANOS <= delay < FIRST_DELAY_END_NANOS
}

/// Each delay is at least one and a half times, and less than two and a half
/// times, the delay before it, as long as the result still fits in 64 bits.
pub proof fn law_successive_delay_bounds(delay: u64, factor: u64)
    requires
        delay >= FIRST_DELAY_MIN_NANOS,
        valid_factor(factor),
        scaled_delay(delay, factor) <= u64::MAX,
    ensures
        3 * delay <= 2 * next_delay(delay, factor),
        2 * next_delay(delay, factor) < 5 * delay,
{
    let p = delay as int;
    let f = factor as int;
    let n = scaled_delay(delay, factor);
    let m = 1_000_000int;
    assert(n == (p * f + 999_999) / m);
    assert(n * m <= p * f + 999_999 && p * f + 999_999 < n * m + m) by (nonlinear_arith)
        requires
            n == (p * f + 999_999) / m,
            m == 1_000_000,
    ;
    assert(p * 1_500_000 <= p * f && p * f <= p * 2_499_999) by (nonlinear_arith)
        requires
            1_500_000 <= f <= 2_499_999,
            p >= 0,
    ;
    assert(3 * p <= 2 * n) by (nonlinear_arith)
        requires
            p * 1_500_000 <= p * f,
            p * f + 999_999 < n * m + m,
            m == 1_000_000,
    ;
    assert(2 * n < 5 * p) by (nonlinear_arith)
        requires
            n * m <= p * f + 999_999,
            p * f <= p * 2_499_999,
            p >= 1_000_000,
            m == 1_000_000,
    ;
}

/// A delay never shrinks from one retry to the next.
pub proof fn lemma_delay_never_shrinks(delay: u64, factor: u64)
    requires
        delay >= FIRST_DELAY_MIN_NANOS,
        valid_factor(factor),
    ensures
        next_delay(delay, factor) >= delay,
{
    if scaled_delay(delay, factor) <= u64::MAX {
        law_successive_delay_bounds(delay, factor);
    }
}

/// The pause before retry number `i`, counted from zero, of an operation
/// whose first pause is `first` and whose retries draw `factors` in turn.
pub open spec fn pause(first: u64, factors: Seq<u64>, i: nat) -> u64
    decreases i,
{
    if i == 0 {
        first
    } else {
        next_delay(pause(first, factors, (i - 1) as nat), factors[i - 1])
    }
}

/// Whether every factor of `factors` is a growth factor.
pub open spec fn valid_factors(factors: Seq<u64>) -> bool {
    forall|j: int| 0 <= j < factors.len() ==> valid_factor(#[trigger] factors[j])
}

/// No pause of an operation is shorter than its first.
pub proof fn lemma_pause_floor(first: u64, factors: Seq<u64>, i: nat)
    requires
        first >= FIRST_DELAY_MIN_NANOS,
        valid_factors(factors),
        i <= factors.len(),
    ensures
        pause(first, factors, i) >= first,
    decreases i,
{
    if i > 0 {
        lemma_pause_floor(first, factors, (i - 1) as nat);
        assert(valid_factor(factors[i - 1]));
        lemma_delay_never_shrinks(pause(first, factors, (i - 1) as nat), factors[i - 1]);
    }
}

/// However often an operation fails, its first pause is at least one
/// millisecond and less than two hundred, and every later pause is at least
/// one and a half times, and less than two and a half times, the pause before
/// it, as long as the grown pause still fits in 64 bits of nanoseconds.
pub proof fn law_every_pause_is_bounded_by_the_one_before(first: u64, factors: Seq<u64>, i: nat)
    requires
        valid_first_delay(first),
        valid_factors(factors),
        1 <= i <= factors.len(),
        scaled_delay(pause(first, factors, (i - 1) as nat), factors[i - 1]) <= u64::MAX,
    ensures
        FIRST_DELAY_MIN_NANOS <= pause(first, factors, 0) < FIRST_DELAY_END_NANOS,
        3 * pause(first, factors, (i - 1) as nat) <= 2 * pause(first, factors, i),
        2 * pause(first, factors, i) < 5 * pause(first, factors, (i - 1) as nat),
{
    lemma_pause_floor(first, factors, (i - 1) as nat);
    assert(valid_factor(factors[i - 1]));
    law_successive_delay_bounds(pause(first, factors, (i - 1) as nat), factors[i - 1]);
}

/// What the caller does after an attempt.
#[derive(Debug, Copy, Clone, PartialEq, Eq, Structural)]
pub enum RetryAction {
    /// The attempt's result is final: hand it to the caller.
    Finish,
    /// Pause for `delay_nanos`, then attempt again. `long` says that the
    /// pause is longer than `LONG_OPERATION_NANOS`.
    Sleep { delay_nanos: u64, long: bool },
}

/// The action that follows an attempt made while the current delay is
/// `delay`.
pub open spec fn action_after(delay: u64, retryable: bool, failed: bool) -> RetryAction {
    if retryable && failed {
        RetryAction::Sleep { delay_nanos: delay, long: delay > LONG_OPERATION_NANOS }
    } else {
        RetryAction::Finish
    }
}

/// The current delay after an attempt made while it was `delay`.
pub open spec fn delay_after(delay: u64, retryable: bool, failed: bool, factor: u64) -> u64 {
    if retryable && failed {
        next_delay(delay, factor)
    } else {
        delay
    }
}

/// Calls `rand::Rng::gen_range` on the thread's generator with the half-open
/// range from `low` to `high`. The range must not be empty. The result lies
/// in the range; nothing more is known of it.
#[verifier::external_body]
fn random_in_range(low: u64, high: u64) -> (drawn: u64)
    requires
        low < high,
    ensures
        low <= drawn < high,
{
    rand::Rng::gen_range(&mut rand::thread_rng(), low..high)
}

/// Backoff state of one retried operation: the pause before the next retry.
#[derive(Debug)]
pub struct Backoff {
    delay_nanos: u64,
}

impl Backoff {
    #[verifier::type_invariant]
    spec fn at_least_first_minimum(self) -> bool {
        self.delay_nanos >= FIRST_DELAY_MIN_NANOS
    }

    /// The pause, in nanoseconds, that the next retry will be preceded by.
    pub closed spec fn delay(self) -> u64 {
        self.delay_nanos
    }

    /// The state of an operation whose first pause is `first_delay_nanos`.
    pub fn with_first_delay(first_delay_nanos: u64) -> (backoff: Backoff)
        requires
            valid_first_delay(first_delay_nanos),
        ensures
            backoff.delay() == first_delay_nanos,
    {
        Backoff { delay_nanos: first_delay_nanos }
    }

    /// The state of an operation that begins now: its first pause is drawn at
    /// random from one millisecond up to, but not including, two hundred.
    pub fn begin() -> (backoff: Backoff)
        ensures
            valid_first_delay(backoff.delay()),
    {
        Backoff::with_first_delay(random_in_range(FIRST_DELAY_MIN_NANOS, FIRST_DELAY_END_NANOS))
    }

    /// The pause, in nanoseconds, that the next retry will be preceded by.
    /// It is never shorter than a millisecond.
    pub fn delay_nanos(&self) -> (delay: u64)
        ensures
            delay == self.delay(),
            delay >= FIRST_DELAY_MIN_NANOS,
    {
        proof {
            use_type_invariant(self);
        }
        self.delay_nanos
    }

    /// Decides what follows an attempt. A failure that may be retried asks
    /// for a pause of the current delay, and the delay then grows by
    /// `factor`; anything else finishes the operation and leaves the delay
    /// alone. There is no limit on the number of retries.
    pub fn on_attempt(&mut self, retryable: bool, failed: bool, factor: u64) -> (action:
        RetryAction)
        requires
            valid_factor(factor),
        ensures
            action == action_after(old(self).delay(), retryable, failed),
            final(self).delay() == delay_after(old(self).delay(), retryable, failed, factor),
    {
        proof {
            use_type_invariant(&*self);
        }
        if retryable && failed {
            let delay: u64 = self.delay_nanos;
            proof {
                lemma_delay_never_shrinks(delay, factor);
            }
            self.delay_nanos = grow_delay(delay, factor);
            RetryAction::Sleep { delay_nanos: delay, long: delay > LONG_OPERATION_NANOS }
        } else {
            RetryAction::Finish
        }
    }

    /// Decides what follows an attempt, with a growth factor drawn at random
    /// from one and a half up to, but not including, two and a half.
    pub fn after_attempt(&mut self, retryable: bool, failed: bool) -> (action: RetryAction)
        ensures
            action == action_after(old(self).delay(), retryable, failed),
            exists|factor: u64|
                valid_factor(factor) && final(self).delay() == #[trigger] delay_after(
                    old(self).delay(),
                    retryable,
                    failed,
                    factor,
                ),
    {
        let factor: u64 = random_in_range(FACTOR_MIN, FACTOR_END);
        self.on_attempt(retryable, failed, factor)
    }
}

/// `delay` grown by `factor`, rounded up to a whole nanosecond and capped at
/// `u64::MAX`.
pub fn grow_delay(delay: u64, factor: u64) -> (grown: u64)
    requires
        valid_factor(factor),
    ensures
        grown == next_delay(delay, factor),
{
    let wide_delay: u128 = delay as u128;
    let wide_factor: u128 = factor as u128;
    assert(wide_delay * wide_factor <= 0xffff_ffff_ffff_ffff * 2_500_000) by (nonlinear_arith)
        requires
            wide_delay <= 0xffff_ffff_ffff_ffff,
            wide_factor <= 2_500_000,
    ;
    let scaled: u128 = (wide_delay * wide_factor + 999_999) / 1_000_000;
    if scaled > 0xffff_ffff_ffff_ffff {
        u64::MAX
    } else {
        scaled as u64
    }
}

/// Whether something that took `elapsed_nanos` took longer than
/// `LONG_OPERATION_NANOS`.
pub fn is_long_operation(elapsed_nanos: u128) -> (long: bool)
    ensures
        long == (elapsed_nanos > LONG_OPERATION_NANOS),
{
    elapsed_nanos > 2_000_000_000
}

} // verus!
