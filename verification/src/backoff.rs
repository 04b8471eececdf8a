use std::time::Duration;
use vstd::arithmetic::power2::{lemma_pow2_unfold, pow2};
use vstd::prelude::*;

verus! {

/// Nanoseconds held by a `Duration`, as `Duration::as_nanos` reports them.
pub uninterp spec fn duration_nanos(d: Duration) -> nat;

/// The number of nanoseconds in `Duration::MAX`.
pub open spec fn max_duration_nanos() -> nat {
    18_446_744_073_709_551_615nat * 1_000_000_000nat + 999_999_999nat
}

/// Calls `Duration::as_nanos`: the total number of nanoseconds in `d`, which
/// never exceeds that of `Duration::MAX`.
#[verifier::external_body]
fn duration_as_nanos(d: &Duration) -> (n: u128)
    ensures
        n == duration_nanos(*d),
        n <= max_duration_nanos(),
{
    d.as_nanos()
}

/// Calls `Duration::from_secs`: a span of exactly `secs` whole seconds.
#[verifier::external_body]
pub(crate) fn duration_from_secs(secs: u64) -> (d: Duration)
    ensures
        duration_nanos(d) == secs * 1_000_000_000,
{
    Duration::from_secs(secs)
}

/// Calls `<Duration as Mul<u32>>::mul`, which panics exactly when the product
/// exceeds `Duration::MAX`; otherwise the span is multiplied by `factor`.
#[verifier::external_body]
fn duration_mul(d: Duration, factor: u32) -> (r: Duration)
    requires
        duration_nanos(d) * factor <= max_duration_nanos(),
    ensures
        duration_nanos(r) == duration_nanos(d) * factor,
{
    d * factor
}

/// Delay policy for reconnecting to niri: the delay doubles after each quick
/// failure up to `max`, and falls back to `initial` once an attempt lasted
/// longer than `warm_after`.
pub struct Backoff {
    initial: Duration,
    current: Duration,
    max: Duration,
    warm_after: Duration,
}

/// The delay that follows `current` after an attempt of `attempt` nanoseconds.
pub open spec fn next_delay(initial: nat, current: nat, max: nat, warm_after: nat, attempt: nat) -> nat {
    if attempt > warm_after {
        initial
    } else if 2 * current <= max {
        2 * current
    } else {
        max
    }
}

impl Backoff {
    pub closed spec fn initial_nanos(&self) -> nat {
        duration_nanos(self.initial)
    }

    pub closed spec fn current_nanos(&self) -> nat {
        duration_nanos(self.current)
    }

    pub closed spec fn max_nanos(&self) -> nat {
        duration_nanos(self.max)
    }

    pub closed spec fn warm_after_nanos(&self) -> nat {
        duration_nanos(self.warm_after)
    }

    /// Whether `advance` may be called with an attempt of `attempt`
    /// nanoseconds: doubling the current delay must stay within `Duration::MAX`
    /// when the attempt was not long enough to reset it.
    pub open spec fn can_advance(&self, attempt: nat) -> bool {
        attempt > self.warm_after_nanos() || 2 * self.current_nanos() <= max_duration_nanos()
    }

    /// A new backoff whose current delay is `initial`.
    pub fn new(initial: Duration, max: Duration, warm_after: Duration) -> (b: Self)
        ensures
            b.initial_nanos() == duration_nanos(initial),
            b.current_nanos() == duration_nanos(initial),
            b.max_nanos() == duration_nanos(max),
            b.warm_after_nanos() == duration_nanos(warm_after),
    {
        Backoff { initial, current: initial, max, warm_after }
    }

    /// The backoff used for niri connections: start at one second, cap at
    /// thirty, reset after an attempt that lasted over ten.
    pub fn niri_default() -> (b: Self)
        ensures
            b.initial_nanos() == 1_000_000_000,
            b.current_nanos() == 1_000_000_000,
            b.max_nanos() == 30_000_000_000,
            b.warm_after_nanos() == 10_000_000_000,
    {
        Self::new(duration_from_secs(1), duration_from_secs(30), duration_from_secs(10))
    }

    /// Like [`Backoff::advance`], except where doubling the current delay
    /// would exceed `Duration::MAX` (where `advance` cannot be called): then
    /// it returns `None` and leaves the backoff as it was.
    pub fn try_advance(&mut self, attempt_duration: Duration) -> (delay: Option<Duration>)
        ensures
            old(self).can_advance(duration_nanos(attempt_duration)) ==> {
                &&& final(self).current_nanos() == next_delay(
                    old(self).initial_nanos(),
                    old(self).current_nanos(),
                    old(self).max_nanos(),
                    old(self).warm_after_nanos(),
                    duration_nanos(attempt_duration),
                )
                &&& delay matches Some(d) && duration_nanos(d) == final(self).current_nanos()
            },
            !old(self).can_advance(duration_nanos(attempt_duration)) ==> delay is None
                && final(self).current_nanos() == old(self).current_nanos(),
            final(self).initial_nanos() == old(self).initial_nanos(),
            final(self).max_nanos() == old(self).max_nanos(),
            final(self).warm_after_nanos() == old(self).warm_after_nanos(),
    {
        let attempt = duration_as_nanos(&attempt_duration);
        let warm_after = duration_as_nanos(&self.warm_after);
        let current = duration_as_nanos(&self.current);
        // half of the nanoseconds in `Duration::MAX`, rounded down
        let half_max: u128 = 9_223_372_036_854_775_807_999_999_999;
        assert(2 * half_max + 1 == max_duration_nanos());
        if attempt > warm_after || current <= half_max {
            Some(self.advance(attempt_duration))
        } else {
            None
        }
    }

    /// Records an attempt that lasted `attempt_duration` and returns the delay
    /// to wait before the next one.
    pub fn advance(&mut self, attempt_duration: Duration) -> (delay: Duration)
        requires
            old(self).can_advance(duration_nanos(attempt_duration)),
        ensures
            final(self).current_nanos() == next_delay(
                old(self).initial_nanos(),
                old(self).current_nanos(),
                old(self).max_nanos(),
                old(self).warm_after_nanos(),
                duration_nanos(attempt_duration),
            ),
            duration_nanos(delay) == final(self).current_nanos(),
            final(self).initial_nanos() == old(self).initial_nanos(),
            final(self).max_nanos() == old(self).max_nanos(),
            final(self).warm_after_nanos() == old(self).warm_after_nanos(),
    {
        let attempt = duration_as_nanos(&attempt_duration);
        let warm_after = duration_as_nanos(&self.warm_after);
        self.current = if attempt > warm_after {
            self.initial
        } else {
            let doubled = duration_mul(self.current, 2);
            let max = duration_as_nanos(&self.max);
            if duration_as_nanos(&doubled) <= max {
                doubled
            } else {
                self.max
            }
        };
        self.current
    }
}

/// The delay after `k` attempts in a row that each ended within the warm-up
/// time, starting from the delay `initial`.
pub open spec fn quick_delay(initial: nat, max: nat, k: nat) -> nat
    decreases k,
{
    if k == 0 {
        initial
    } else {
        let prev = quick_delay(initial, max, (k - 1) as nat);
        if 2 * prev <= max {
            2 * prev
        } else {
            max
        }
    }
}

/// An attempt that ended within the warm-up time takes the delay one step
/// along [`quick_delay`].
pub proof fn lemma_quick_attempt_step(initial: nat, max: nat, warm_after: nat, k: nat, attempt: nat)
    requires
        attempt <= warm_after,
    ensures
        next_delay(initial, quick_delay(initial, max, k), max, warm_after, attempt) == quick_delay(
            initial,
            max,
            k + 1,
        ),
{
}

/// An attempt that lasted longer than the warm-up time resets the delay to
/// `initial`, whatever it was.
pub proof fn lemma_long_attempt_resets(initial: nat, current: nat, max: nat, warm_after: nat, attempt: nat)
    requires
        attempt > warm_after,
    ensures
        next_delay(initial, current, max, warm_after, attempt) == initial,
{
}

/// Exponential backoff with a cap: starting from `initial <= max`, after `k`
/// quick attempts the delay is `initial * 2^k`, or `max` once that exceeds it.
pub proof fn lemma_quick_delay_doubles_to_cap(initial: nat, max: nat, k: nat)
    requires
        initial <= max,
    ensures
        quick_delay(initial, max, k) == (if initial * pow2(k) <= max {
            initial * pow2(k)
        } else {
            max
        }),
    decreases k,
{
    if k == 0 {
        assert(pow2(0) == 1) by {
            vstd::arithmetic::power2::lemma2_to64();
        }
        assert(initial * pow2(0) == initial) by (nonlinear_arith)
            requires
                pow2(0) == 1,
        ;
    } else {
        let km = (k - 1) as nat;
        lemma_quick_delay_doubles_to_cap(initial, max, km);
        lemma_pow2_unfold(k);
        let a = initial * pow2(km);
        assert(initial * pow2(k) == 2 * a) by (nonlinear_arith)
            requires
                pow2(k) == 2 * pow2(km),
                a == initial * pow2(km),
        ;
    }
}

/// Settings whose `initial` and `max` can both be doubled within
/// `Duration::MAX` keep every delay at `initial` or at most `max`, so the
/// backoff can be advanced forever without overflow.
pub proof fn lemma_advance_stays_safe(initial: nat, current: nat, max: nat, warm_after: nat, attempt: nat)
    requires
        2 * initial <= max_duration_nanos(),
        2 * max <= max_duration_nanos(),
        current == initial || current <= max,
    ensures
        2 * current <= max_duration_nanos(),
        next_delay(initial, current, max, warm_after, attempt) == initial || next_delay(
            initial,
            current,
            max,
            warm_after,
            attempt,
        ) <= max,
{
}

/// The delays a backoff returns for the attempts `attempts` (in
/// nanoseconds, in order), when its current delay is `current` before the
/// first of them.
pub open spec fn delays(initial: nat, current: nat, max: nat, warm_after: nat, attempts: Seq<nat>) -> Seq<nat>
    decreases attempts.len(),
{
    if attempts.len() == 0 {
        Seq::empty()
    } else {
        let prev = delays(initial, current, max, warm_after, attempts.drop_last());
        let before = if prev.len() == 0 {
            current
        } else {
            prev.last()
        };
        prev.push(next_delay(initial, before, max, warm_after, attempts.last()))
    }
}

proof fn lemma_delays_len(initial: nat, current: nat, max: nat, warm_after: nat, attempts: Seq<nat>)
    ensures
        delays(initial, current, max, warm_after, attempts).len() == attempts.len(),
    decreases attempts.len(),
{
    if attempts.len() > 0 {
        lemma_delays_len(initial, current, max, warm_after, attempts.drop_last());
    }
}

/// A run of quick attempts from a fresh backoff: when every attempt ends
/// within the warm-up time and `initial <= max`, the `j`-th delay returned
/// (counting from 1) is `initial * 2^j`, or `max` once that exceeds it.
pub proof fn lemma_quick_run_doubles_to_cap(initial: nat, max: nat, warm_after: nat, attempts: Seq<nat>)
    requires
        initial <= max,
        forall|j: int| 0 <= j < attempts.len() ==> #[trigger] attempts[j] <= warm_after,
    ensures
        delays(initial, initial, max, warm_after, attempts).len() == attempts.len(),
        forall|j: int|
            0 <= j < attempts.len() ==> #[trigger] delays(initial, initial, max, warm_after, attempts)[j] == (if initial
                * pow2((j + 1) as nat) <= max {
                initial * pow2((j + 1) as nat)
            } else {
                max
            }),
    decreases attempts.len(),
{
    lemma_delays_len(initial, initial, max, warm_after, attempts);
    if attempts.len() > 0 {
        let init = attempts.drop_last();
        lemma_quick_run_doubles_to_cap(initial, max, warm_after, init);
        let d = delays(initial, initial, max, warm_after, attempts);
        let p = delays(initial, initial, max, warm_after, init);
        let n = attempts.len() - 1;
        assert forall|j: int| 0 <= j < attempts.len() implies #[trigger] d[j] == (if initial * pow2((j + 1) as nat) <= max {
            initial * pow2((j + 1) as nat)
        } else {
            max
        }) by {
            if j < n {
                assert(d[j] == p[j]);
            } else {
                lemma_quick_delay_doubles_to_cap(initial, max, (j + 1) as nat);
                if n > 0 {
                    lemma_quick_delay_doubles_to_cap(initial, max, j as nat);
                    assert(p[n - 1] == quick_delay(initial, max, j as nat));
                } else {
                    assert(quick_delay(initial, max, 0) == initial);
                }
                assert(attempts.last() <= warm_after);
            }
        }
    }
}

/// A backoff whose `initial` and `max` can be doubled within
/// `Duration::MAX`, and whose current delay is `initial` or at most `max` (as
/// after `new`), can take any run of attempts: before each of them doubling
/// the current delay stays within `Duration::MAX`, so `advance` never panics.
pub proof fn lemma_sane_run_never_overflows(
    initial: nat,
    current: nat,
    max: nat,
    warm_after: nat,
    attempts: Seq<nat>,
)
    requires
        2 * initial <= max_duration_nanos(),
        2 * max <= max_duration_nanos(),
        current == initial || current <= max,
    ensures
        2 * current <= max_duration_nanos(),
        delays(initial, current, max, warm_after, attempts).len() == attempts.len(),
        forall|j: int|
            0 <= j < attempts.len() ==> {
                let d = #[trigger] delays(initial, current, max, warm_after, attempts)[j];
                &&& d == initial || d <= max
                &&& 2 * d <= max_duration_nanos()
            },
    decreases attempts.len(),
{
    lemma_delays_len(initial, current, max, warm_after, attempts);
    if attempts.len() > 0 {
        let init = attempts.drop_last();
        lemma_sane_run_never_overflows(initial, current, max, warm_after, init);
        let p = delays(initial, current, max, warm_after, init);
        let before = if p.len() == 0 {
            current
        } else {
            p.last()
        };
        if p.len() > 0 {
            assert(p.last() == p[p.len() - 1]);
        }
        lemma_advance_stays_safe(initial, before, max, warm_after, attempts.last());
    }
}

} // verus!
