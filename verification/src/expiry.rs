//! How long entries live: deadlines from times to live, and what is left of them.
use crate::cache::{instant_of, CacheValue};
use crate::timestamp::{
    clock_showed, elapsed, instant_at, Lifetime, Timestamp, TimestampView, MAX_SECS,
};
use vstd::prelude::*;

verus! {

/// The deadline of what is stored at `now` to live for `ttl` milliseconds.
pub open spec fn deadline_spec(now: TimestampView, ttl: Option<u64>) -> Option<TimestampView> {
    match ttl {
        Some(ttl) => Some(instant_at(now.total_nanos() + ttl * 1_000_000)),
        None => None,
    }
}

/// Whether the calendar holds the deadline of what is stored at `now` to live for `ttl`
/// milliseconds.
pub open spec fn deadline_in_range(now: TimestampView, ttl: Option<u64>) -> bool {
    ttl matches Some(ttl) ==> instant_at(now.total_nanos() + ttl * 1_000_000).secs <= MAX_SECS
}

/// The nanoseconds that an entry with this deadline has left at `now`: nothing where there is no
/// deadline or it has passed.
pub open spec fn nanos_left(deadline: Option<TimestampView>, now: TimestampView) -> Option<int> {
    match deadline {
        Some(deadline) => if elapsed(deadline, now) > 0 {
            Some(elapsed(deadline, now))
        } else {
            None
        },
        None => None,
    }
}

/// Whether `lifetime` is what an entry with this deadline has left at `now`.
pub open spec fn is_lifetime_left(
    lifetime: Option<Lifetime>,
    deadline: Option<TimestampView>,
    now: TimestampView,
) -> bool {
    match nanos_left(deadline, now) {
        Some(nanos) => lifetime matches Some(left) && left.normal() && left.total_nanos() == nanos,
        None => lifetime is None,
    }
}

/// Whether an entry with this deadline is still to be had at `now`.
pub open spec fn is_live(deadline: Option<TimestampView>, now: TimestampView) -> bool {
    deadline matches Some(deadline) ==> elapsed(deadline, now) > 0
}

/// The time to live ends after the last instant of the calendar.
#[derive(Debug, Clone, Copy, PartialEq, Eq, Structural)]
pub struct DeadlineOutOfRange;

/// The deadline of what is stored at `now` to live for `ttl` milliseconds, or for good.
pub fn deadline_after(now: &Timestamp, ttl: Option<u64>) -> (deadline: Result<
    Option<Timestamp>,
    DeadlineOutOfRange,
>)
    requires
        !now@.is_leap(),
    ensures
        match deadline {
            Ok(deadline) => deadline_in_range(now@, ttl) && instant_of(deadline) == deadline_spec(
                now@,
                ttl,
            ),
            Err(_) => !deadline_in_range(now@, ttl),
        },
{
    match ttl {
        Some(ttl) => match now.plus_millis(ttl) {
            Some(deadline) => Ok(Some(deadline)),
            None => Err(DeadlineOutOfRange),
        },
        None => Ok(None),
    }
}

/// The deadline of what is stored now to live for `ttl` milliseconds, or for good.
pub fn calculate_deadline(ttl: Option<u64>) -> (deadline: Result<
    Option<Timestamp>,
    DeadlineOutOfRange,
>)
    ensures
        exists|now: TimestampView|
            clock_showed(now) && now.is_clock_reading() && match deadline {
                Ok(deadline) => deadline_in_range(now, ttl) && instant_of(deadline)
                    == #[trigger] deadline_spec(now, ttl),
                Err(_) => !deadline_in_range(now, ttl),
            },
        ttl is None ==> deadline == Ok::<Option<Timestamp>, DeadlineOutOfRange>(None),
{
    let now = Timestamp::now();
    let deadline = deadline_after(&now, ttl);
    assert(deadline_spec(now@, ttl) == deadline_spec(now@, ttl));
    deadline
}

/// When entries of the cache expire: each at its own deadline, whatever is done with it.
#[derive(Debug, Clone, Copy)]
pub struct ExpiryPolicyForCacheExt;

impl ExpiryPolicyForCacheExt {
    /// What an entry has left once it was read: what it had left before.
    pub fn expire_after_read(&self, duration_until_expiry: Option<Lifetime>) -> (left: Option<
        Lifetime,
    >)
        ensures
            left == duration_until_expiry,
    {
        duration_until_expiry
    }

    /// What a new entry has left when the clock shows `now`.
    pub fn lifetime_at(&self, value: &CacheValue, now: &Timestamp) -> (left: Option<Lifetime>)
        ensures
            is_lifetime_left(left, instant_of(value.0), now@),
    {
        match &value.0 {
            Some(deadline) => deadline.time_left(now),
            None => None,
        }
    }

    /// What a new entry has left.
    pub fn expire_after_create(&self, value: &CacheValue) -> (left: Option<Lifetime>)
        ensures
            exists|now: TimestampView|
                clock_showed(now) && now.is_clock_reading() && #[trigger] is_lifetime_left(
                    left,
                    instant_of(value.0),
                    now,
                ),
            value.0 is None ==> left is None,
    {
        let now = Timestamp::now();
        self.lifetime_at(value, &now)
    }

    /// What an entry has left once its value was replaced: what it had left before.
    pub fn expire_after_update(&self, duration_until_expiry: Option<Lifetime>) -> (left: Option<
        Lifetime,
    >)
        ensures
            left == duration_until_expiry,
    {
        duration_until_expiry
    }
}

/// Whether an entry with this deadline is still to be had at `now`.
pub fn live_at(deadline: &Option<Timestamp>, now: &Timestamp) -> (live: bool)
    ensures
        live == is_live(instant_of(*deadline), now@),
{
    match deadline {
        Some(deadline) => deadline.time_left(now).is_some(),
        None => true,
    }
}

} // verus!
