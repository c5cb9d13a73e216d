//! Instants on the UTC time line, and the time that lies between them.
use vstd::prelude::*;

verus! {

/// The first second of the year -262143, the earliest that the calendar holds.
pub const MIN_SECS: i64 = -8_334_601_228_800;

/// The last second of the year 262142, the latest that the calendar holds.
pub const MAX_SECS: i64 = 8_210_266_876_799;

/// An instant: non-leap seconds since 1970-01-01T00:00:00Z, and nanoseconds into that second.
///
/// Nanoseconds of one thousand million and more stand for a leap second, which can only follow the
/// last second of a minute.
#[derive(Debug, Clone, Copy)]
pub struct Timestamp {
    secs: i64,
    nanos: u32,
}

/// What a [`Timestamp`] stands for.
pub struct TimestampView {
    pub secs: int,
    pub nanos: int,
}

impl TimestampView {
    /// Whether the calendar holds this instant.
    pub open spec fn valid(self) -> bool {
        &&& MIN_SECS <= self.secs <= MAX_SECS
        &&& 0 <= self.nanos < 2_000_000_000
        &&& self.is_leap() ==> self.secs % 60 == 59
    }

    /// Whether the instant lies within a leap second.
    pub open spec fn is_leap(self) -> bool {
        self.nanos >= 1_000_000_000
    }

    /// Nanoseconds since 1970-01-01T00:00:00Z, leap seconds not counted.
    pub open spec fn total_nanos(self) -> int {
        self.secs * 1_000_000_000 + self.nanos
    }

    /// Seconds since the last midnight.
    pub open spec fn second_of_day(self) -> int {
        self.secs % 86_400
    }

    /// Whether the system clock can show this instant: not before 1970, and never a leap second.
    pub open spec fn is_clock_reading(self) -> bool {
        &&& self.valid()
        &&& self.secs >= 0
        &&& !self.is_leap()
    }
}

/// The nanoseconds from `earlier` to `later`, negative where `later` comes first.
///
/// Where one of the two lies in a leap second, and its second of the day comes before the other's,
/// that leap second counts too.
pub open spec fn elapsed(later: TimestampView, earlier: TimestampView) -> int {
    let leap_seconds: int = if later.second_of_day() > earlier.second_of_day() && earlier.is_leap() {
        1
    } else if later.second_of_day() < earlier.second_of_day() && later.is_leap() {
        -1
    } else {
        0
    };
    later.total_nanos() - earlier.total_nanos() + leap_seconds * 1_000_000_000
}

/// The instant `nanos` nanoseconds after 1970-01-01T00:00:00Z, leap seconds not counted.
pub open spec fn instant_at(nanos: int) -> TimestampView {
    TimestampView { secs: nanos / 1_000_000_000, nanos: nanos % 1_000_000_000 }
}

/// Reads the system clock through `chrono::Utc::now`.
///
/// Claimed: the reading is an instant of the calendar, not before 1970, and not in a leap second.
/// Which instant it is depends on the machine, so nothing more is said. `chrono::Utc::now` panics
/// on a machine whose clock stands before 1970 or beyond the calendar.
#[verifier::external_body]
fn utc_now() -> (now: (i64, u32))
    ensures
        (TimestampView { secs: now.0 as int, nanos: now.1 as int }).is_clock_reading(),
{
    let now = chrono::Utc::now();
    (now.timestamp(), now.timestamp_subsec_nanos())
}

/// Whether a reading of the system clock showed this instant.
pub closed spec fn clock_showed(instant: TimestampView) -> bool {
    exists|parts: (i64, u32)| #[trigger]
        call_ensures(utc_now, (), parts) && instant == (TimestampView {
            secs: parts.0 as int,
            nanos: parts.1 as int,
        })
}

/// What the clock showed is what was read from it, and nothing else.
proof fn clock_showed_what_was_read(instant: TimestampView) -> (parts: (i64, u32))
    requires
        clock_showed(instant),
    ensures
        call_ensures(utc_now, (), parts),
        parts.0 == instant.secs,
        parts.1 == instant.nanos,
{
    choose|parts: (i64, u32)| #[trigger]
        call_ensures(utc_now, (), parts) && instant == (TimestampView {
            secs: parts.0 as int,
            nanos: parts.1 as int,
        })
}

/// The clock shows only what it can show: an instant of the calendar since 1970, and never one in
/// a leap second.
pub proof fn clock_shows_readings(instant: TimestampView)
    requires
        clock_showed(instant),
    ensures
        instant.is_clock_reading(),
        0 <= instant.secs <= MAX_SECS,
        0 <= instant.nanos < 1_000_000_000,
{
    clock_showed_what_was_read(instant);
}

/// Adds milliseconds to an instant with `chrono::DateTime::checked_add_signed`.
///
/// Claimed: for an instant that is not in a leap second, the sum is the instant that many
/// milliseconds later, and it is missing exactly where that lies beyond the last second of the
/// calendar.
#[verifier::external_body]
fn checked_add_millis(secs: i64, nanos: u32, millis: u64) -> (sum: Option<(i64, u32)>)
    requires
        (TimestampView { secs: secs as int, nanos: nanos as int }).valid(),
        nanos < 1_000_000_000,
    ensures
        ({
            let end = instant_at(secs * 1_000_000_000 + nanos + millis * 1_000_000);
            match sum {
                Some(parts) => end == (TimestampView { secs: parts.0 as int, nanos: parts.1 as int })
                    && end.secs <= MAX_SECS,
                None => end.secs > MAX_SECS,
            }
        }),
{
    let start = chrono::DateTime::<chrono::Utc>::from_timestamp(secs, nanos)?;
    let delta = chrono::TimeDelta::from_std(std::time::Duration::from_millis(millis)).ok()?;
    let end = start.checked_add_signed(delta)?;
    Some((end.timestamp(), end.timestamp_subsec_nanos()))
}

/// The time between two instants, from `chrono::DateTime::signed_duration_since`.
///
/// Claimed: the whole seconds and the nanoseconds left over add up to the time elapsed from
/// `earlier` to `later`, and neither has the other's opposite sign.
#[verifier::external_body]
fn signed_duration_since(later: (i64, u32), earlier: (i64, u32)) -> (delta: (i64, i32))
    requires
        (TimestampView { secs: later.0 as int, nanos: later.1 as int }).valid(),
        (TimestampView { secs: earlier.0 as int, nanos: earlier.1 as int }).valid(),
    ensures
        delta.0 * 1_000_000_000 + delta.1 == elapsed(
            TimestampView { secs: later.0 as int, nanos: later.1 as int },
            TimestampView { secs: earlier.0 as int, nanos: earlier.1 as int },
        ),
        -1_000_000_000 < delta.1 < 1_000_000_000,
        delta.0 > 0 ==> delta.1 >= 0,
        delta.0 < 0 ==> delta.1 <= 0,
{
    let later = chrono::DateTime::<chrono::Utc>::from_timestamp(later.0, later.1).unwrap();
    let earlier = chrono::DateTime::<chrono::Utc>::from_timestamp(earlier.0, earlier.1).unwrap();
    let delta = later.signed_duration_since(earlier);
    (delta.num_seconds(), delta.subsec_nanos())
}

/// A length of time that is not negative, in seconds and nanoseconds.
#[derive(Debug, Clone, Copy, PartialEq, Eq, Structural)]
pub struct Lifetime {
    pub secs: u64,
    pub nanos: u32,
}

impl Lifetime {
    /// The length in nanoseconds.
    pub open spec fn total_nanos(self) -> int {
        self.secs * 1_000_000_000 + self.nanos
    }

    /// Whether the nanoseconds make up less than a second.
    pub open spec fn normal(self) -> bool {
        self.nanos < 1_000_000_000
    }
}

impl View for Timestamp {
    type V = TimestampView;

    closed spec fn view(&self) -> TimestampView {
        TimestampView { secs: self.secs as int, nanos: self.nanos as int }
    }
}

impl Timestamp {
    #[verifier::type_invariant]
    spec fn in_calendar(self) -> bool {
        self@.valid()
    }

    /// The instant with these parts, where the calendar holds it.
    pub fn new(secs: i64, nanos: u32) -> (instant: Option<Timestamp>)
        ensures
            match instant {
                Some(instant) => instant@ == (TimestampView {
                    secs: secs as int,
                    nanos: nanos as int,
                }) && instant@.valid(),
                None => !(TimestampView { secs: secs as int, nanos: nanos as int }).valid(),
            },
    {
        if secs < MIN_SECS || secs > MAX_SECS || nanos >= 2_000_000_000 {
            return None;
        }
        if nanos >= 1_000_000_000 {
            // Counted from the start of the calendar, which begins a minute.
            let minute_second: i64 = (secs - MIN_SECS) % 60;
            assert(minute_second == secs % 60);
            if minute_second != 59 {
                return None;
            }
        }
        Some(Timestamp { secs, nanos })
    }

    /// Seconds since 1970-01-01T00:00:00Z.
    pub fn secs(&self) -> (secs: i64)
        ensures
            secs == self@.secs,
    {
        self.secs
    }

    /// Nanoseconds into the second.
    pub fn nanos(&self) -> (nanos: u32)
        ensures
            nanos == self@.nanos,
    {
        self.nanos
    }

    /// What the system clock shows.
    pub fn now() -> (now: Timestamp)
        ensures
            clock_showed(now@),
            now@.is_clock_reading(),
    {
        let (secs, nanos) = utc_now();
        Timestamp { secs, nanos }
    }

    /// The instant `millis` milliseconds after this one, where the calendar holds it.
    pub fn plus_millis(&self, millis: u64) -> (sum: Option<Timestamp>)
        requires
            !self@.is_leap(),
        ensures
            ({
                let end = instant_at(self@.total_nanos() + millis * 1_000_000);
                match sum {
                    Some(sum) => sum@ == end && end.valid(),
                    None => end.secs > MAX_SECS,
                }
            }),
    {
        proof {
            use_type_invariant(self);
        }
        match checked_add_millis(self.secs, self.nanos, millis) {
            Some((secs, nanos)) => {
                Some(Timestamp { secs, nanos })
            },
            None => None,
        }
    }

    /// The time left from `now` until this instant, where there is any.
    pub fn time_left(&self, now: &Timestamp) -> (left: Option<Lifetime>)
        ensures
            match left {
                Some(left) => left.normal() && left.total_nanos() == elapsed(self@, now@)
                    && left.total_nanos() > 0,
                None => elapsed(self@, now@) <= 0,
            },
    {
        proof {
            use_type_invariant(self);
            use_type_invariant(now);
        }
        let (secs, nanos) = signed_duration_since((self.secs, self.nanos), (now.secs, now.nanos));
        if secs > 0 || (secs == 0 && nanos > 0) {
            Some(Lifetime { secs: secs as u64, nanos: nanos as u32 })
        } else {
            None
        }
    }
}

} // verus!
