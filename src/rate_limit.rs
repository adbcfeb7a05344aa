use vstd::prelude::*;

use crate::error::Error;

verus! {

/// Nanoseconds in one second.
pub const NANOS_PER_SECOND: u64 = 1_000_000_000;

/// Nanoseconds in one millisecond.
pub const NANOS_PER_MILLI: u64 = 1_000_000;

/// A token bucket policy with a capacity of one token, refilled once per
/// replenish interval.
#[derive(Clone, Copy, Debug, PartialEq, Eq, Structural)]
pub struct Quota {
    /// Time between two token refills, in nanoseconds.
    pub replenish_interval_nanos: u64,
}

/// The quota that allows `fps` runs per second.
pub open spec fn per_second_spec(fps: u32) -> Quota
    recommends
        fps > 0,
{
    Quota { replenish_interval_nanos: (NANOS_PER_SECOND / fps as u64) as u64 }
}

/// The quota that allows one run per `period` nanoseconds; none for a zero period.
pub open spec fn with_period_spec(period_nanos: u64) -> Option<Quota> {
    if period_nanos == 0 {
        None
    } else {
        Some(Quota { replenish_interval_nanos: period_nanos })
    }
}

impl Quota {
    /// The replenish interval in nanoseconds.
    pub open spec fn interval_nanos(&self) -> nat {
        self.replenish_interval_nanos as nat
    }

    /// The replenish interval in whole milliseconds, rounded down.
    pub open spec fn interval_millis(&self) -> nat {
        self.replenish_interval_nanos as nat / NANOS_PER_MILLI as nat
    }

    /// Returns the quota that allows `fps` runs per second: one token every
    /// second divided by `fps`, in whole nanoseconds.
    pub fn per_second(fps: u32) -> (r: Quota)
        requires
            fps > 0,
        ensures
            r == per_second_spec(fps),
    {
        Quota { replenish_interval_nanos: NANOS_PER_SECOND / (fps as u64) }
    }

    /// Returns the quota that allows one run per `period_nanos`, or `None`
    /// for a zero period, which places no limit.
    pub fn with_period(period_nanos: u64) -> (r: Option<Quota>)
        ensures
            r == with_period_spec(period_nanos),
    {
        if period_nanos == 0 {
            None
        } else {
            Some(Quota { replenish_interval_nanos: period_nanos })
        }
    }

    /// Returns the time between two token refills, in nanoseconds.
    pub fn replenish_interval_nanos(&self) -> (r: u64)
        ensures
            r == self.interval_nanos(),
    {
        self.replenish_interval_nanos
    }

    /// Returns the time between two token refills, in whole milliseconds.
    pub fn replenish_interval_millis(&self) -> (r: u64)
        ensures
            r == self.interval_millis(),
    {
        self.replenish_interval_nanos / NANOS_PER_MILLI
    }
}

/// Limits how often an event handler runs.
#[derive(Clone, Copy, Debug, PartialEq, Eq, Structural)]
pub enum RateLimit {
    /// At most so many runs per second; built by [`RateLimit::fps`].
    Fps(Quota),
    /// At least so long between two runs; built by [`RateLimit::interval`].
    /// A zero interval places no limit.
    Interval(Option<Quota>),
}

/// What `RateLimit::fps` returns.
pub open spec fn fps_spec(fps: u32) -> Result<RateLimit, Error> {
    if fps == 0 {
        Err(Error::RateLimitFpsZero)
    } else {
        Ok(RateLimit::Fps(per_second_spec(fps)))
    }
}

/// What `RateLimit::interval` returns.
pub open spec fn interval_spec(interval_nanos: u64) -> RateLimit {
    RateLimit::Interval(with_period_spec(interval_nanos))
}

impl RateLimit {
    /// The quota that this rate limit stands for, if it limits at all.
    pub open spec fn quota_spec(self) -> Option<Quota> {
        match self {
            RateLimit::Fps(q) => Some(q),
            RateLimit::Interval(q) => q,
        }
    }

    /// Returns a `RateLimit::Fps` after checking that `fps` is not zero.
    pub fn fps(fps: u32) -> (r: Result<RateLimit, Error>)
        ensures
            r == fps_spec(fps),
            r is Err <==> fps == 0,
    {
        if fps == 0 {
            Err(Error::RateLimitFpsZero)
        } else {
            Ok(RateLimit::Fps(Quota::per_second(fps)))
        }
    }

    /// Returns a `RateLimit::Interval` that asks for `interval_nanos`
    /// nanoseconds between two runs.
    pub fn interval(interval_nanos: u64) -> (r: RateLimit)
        ensures
            r == interval_spec(interval_nanos),
    {
        RateLimit::Interval(Quota::with_period(interval_nanos))
    }

    /// Returns the quota, if any.
    pub fn quota(self) -> (r: Option<Quota>)
        ensures
            r == self.quota_spec(),
    {
        match self {
            RateLimit::Fps(q) => Some(q),
            RateLimit::Interval(q) => q,
        }
    }
}

/// A zero FPS is refused; any other FPS gives a quota whose interval is
/// `1000 / fps` milliseconds, rounded down.
pub proof fn lemma_fps_quota(fps: u32)
    ensures
        fps == 0 ==> fps_spec(fps) == Err::<RateLimit, Error>(Error::RateLimitFpsZero),
        fps > 0 ==> fps_spec(fps) is Ok,
        fps > 0 ==> fps_spec(fps)->Ok_0.quota_spec() is Some,
        fps > 0 ==> fps_spec(fps)->Ok_0.quota_spec()->Some_0.interval_millis() == 1000nat / (fps as nat),
        fps > 0 ==> fps_spec(fps)->Ok_0.quota_spec()->Some_0.interval_nanos()
            == 1_000_000_000nat / (fps as nat),
{
    if fps > 0 {
        let n = fps as int;
        assert((1_000_000_000int / n) / 1_000_000int == 1000int / n) by (nonlinear_arith)
            requires n > 0;
    }
}

/// A non-zero interval gives a quota with exactly that interval; a zero
/// interval gives no quota.
pub proof fn lemma_interval_quota(interval_nanos: u64)
    ensures
        interval_nanos > 0 ==> interval_spec(interval_nanos).quota_spec() == Some(
            Quota { replenish_interval_nanos: interval_nanos },
        ),
        interval_nanos > 0 ==> interval_spec(interval_nanos).quota_spec()->Some_0.interval_nanos()
            == interval_nanos,
        interval_nanos == 0 ==> interval_spec(interval_nanos).quota_spec() is None,
{
}

/// Building a rate limit twice from the same input gives equal rate limits,
/// and so equal quotas.
pub proof fn lemma_construction_deterministic(
    fps: u32,
    interval_nanos: u64,
    a: Result<RateLimit, Error>,
    b: Result<RateLimit, Error>,
    c: RateLimit,
    d: RateLimit,
)
    requires
        a == fps_spec(fps),
        b == fps_spec(fps),
        c == interval_spec(interval_nanos),
        d == interval_spec(interval_nanos),
    ensures
        a == b,
        a is Ok ==> a->Ok_0.quota_spec() == b->Ok_0.quota_spec(),
        c == d,
        c.quota_spec() == d.quota_spec(),
{
}

} // verus!
