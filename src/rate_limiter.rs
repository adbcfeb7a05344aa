use vstd::prelude::*;

use crate::rate_limit::Quota;

verus! {

/// Answer of a rate limiter asked whether its handler may run at a given instant.
#[derive(Clone, Copy, Debug, PartialEq, Eq, Structural)]
pub enum RateLimitCheck {
    /// A token was available and has been taken.
    Allowed,
    /// No token is available before this instant, in nanoseconds.
    NotUntil(u64),
}

/// A token bucket of capacity one, on a clock of nanoseconds.
///
/// It reads no clock itself: every answer depends only on the instants handed
/// to it, so the same clock readings always give the same schedule.
#[derive(Clone, Copy, Debug, PartialEq, Eq, Structural)]
pub struct RateLimiter {
    /// Time between two token refills, in nanoseconds.
    pub replenish_interval_nanos: u64,
    /// The earliest instant at which a token is available.
    pub next_allowed_nanos: u64,
}

/// The instant `interval` after `now`, held at the end of the clock.
pub open spec fn instant_after(now: u64, interval: u64) -> u64 {
    if now as int + interval as int > u64::MAX as int {
        u64::MAX
    } else {
        (now + interval) as u64
    }
}

/// What checking `limiter` at `now` answers, and the limiter that it leaves.
pub open spec fn check_spec(limiter: RateLimiter, now: u64) -> (RateLimiter, RateLimitCheck) {
    if now >= limiter.next_allowed_nanos {
        (
            RateLimiter {
                next_allowed_nanos: instant_after(now, limiter.replenish_interval_nanos),
                ..limiter
            },
            RateLimitCheck::Allowed,
        )
    } else {
        (limiter, RateLimitCheck::NotUntil(limiter.next_allowed_nanos))
    }
}

impl RateLimiter {
    /// Returns a limiter for `quota` whose bucket is full: the first check is allowed.
    pub fn new(quota: Quota) -> (r: RateLimiter)
        ensures
            r.replenish_interval_nanos == quota.replenish_interval_nanos,
            r.next_allowed_nanos == 0,
    {
        RateLimiter { replenish_interval_nanos: quota.replenish_interval_nanos, next_allowed_nanos: 0 }
    }

    /// Takes a token if one is available at `now`; otherwise reports the
    /// earliest instant at which one will be, and changes nothing.
    pub fn check_now(&mut self, now: u64) -> (r: RateLimitCheck)
        ensures
            (*final(self), r) == check_spec(*old(self), now),
    {
        if now >= self.next_allowed_nanos {
            self.next_allowed_nanos = now.saturating_add(self.replenish_interval_nanos);
            RateLimitCheck::Allowed
        } else {
            RateLimitCheck::NotUntil(self.next_allowed_nanos)
        }
    }

    /// Returns the earliest instant at which a token is available.
    pub fn next_allowed(&self) -> (r: u64)
        ensures
            r == self.next_allowed_nanos,
    {
        self.next_allowed_nanos
    }
}

/// A check that is allowed leaves the next token one interval after `now`;
/// one that is refused names an instant after `now`, and a check at that
/// instant is allowed.
pub proof fn lemma_check_wait(limiter: RateLimiter, now: u64)
    ensures
        check_spec(limiter, now).1 is Allowed ==> check_spec(limiter, now).0.next_allowed_nanos
            == instant_after(now, limiter.replenish_interval_nanos),
        check_spec(limiter, now).1 matches RateLimitCheck::NotUntil(t) ==> t > now
            && check_spec(limiter, now).0 == limiter
            && check_spec(check_spec(limiter, now).0, t).1 is Allowed,
{
}

/// After a token was taken at `first`, a check at a later `second` that is
/// refused names the instant one interval after `first`: the wait is never
/// longer than one interval.
pub proof fn lemma_wait_at_most_one_interval(limiter: RateLimiter, first: u64, second: u64)
    requires
        check_spec(limiter, first).1 is Allowed,
        second >= first,
        check_spec(check_spec(limiter, first).0, second).1 is NotUntil,
    ensures
        check_spec(check_spec(limiter, first).0, second).1 == RateLimitCheck::NotUntil(
            instant_after(first, limiter.replenish_interval_nanos),
        ),
        instant_after(first, limiter.replenish_interval_nanos) - second
            <= limiter.replenish_interval_nanos,
{
}

/// Two checks that are both allowed lie at least one interval apart: a
/// limited handler never runs more often than its quota.
pub proof fn lemma_allowed_checks_spaced(limiter: RateLimiter, first: u64, second: u64)
    requires
        check_spec(limiter, first).1 is Allowed,
        check_spec(check_spec(limiter, first).0, second).1 is Allowed,
    ensures
        second as int >= first as int + limiter.replenish_interval_nanos as int
            || second == u64::MAX,
{
}

} // verus!
