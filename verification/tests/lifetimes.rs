use cache_service::cache::{mb_to_bytes, weigh, CacheValue};
use cache_service::expiry::{
    calculate_deadline, deadline_after, live_at, DeadlineOutOfRange, ExpiryPolicyForCacheExt,
};
use cache_service::settings::{Settings, MAX_CAPACITY_MB};
use cache_service::timestamp::{Lifetime, Timestamp, MAX_SECS, MIN_SECS};
use chrono::{DateTime, TimeDelta, Utc};

fn at(secs: i64, nanos: u32) -> Timestamp {
    Timestamp::new(secs, nanos).unwrap()
}

fn chrono_of(instant: &Timestamp) -> DateTime<Utc> {
    DateTime::from_timestamp(instant.secs(), instant.nanos()).unwrap()
}

fn parts(instant: Timestamp) -> (i64, u32) {
    (instant.secs(), instant.nanos())
}

#[test]
fn timestamps_are_the_instants_of_the_calendar() {
    for secs in [MIN_SECS - 1, MIN_SECS, -1, 0, 59, 60, MAX_SECS, MAX_SECS + 1, i64::MIN, i64::MAX] {
        for nanos in [0, 999_999_999, 1_000_000_000, 1_999_999_999, 2_000_000_000, u32::MAX] {
            assert_eq!(
                Timestamp::new(secs, nanos).is_some(),
                DateTime::<Utc>::from_timestamp(secs, nanos).is_some(),
                "{} {}",
                secs,
                nanos
            );
        }
    }
    assert_eq!(MIN_SECS, DateTime::<Utc>::MIN_UTC.timestamp());
    assert_eq!(MAX_SECS, DateTime::<Utc>::MAX_UTC.timestamp());
    assert!(Timestamp::new(-1, 1_500_000_000).is_some());
    assert!(Timestamp::new(0, 1_500_000_000).is_none());
}

#[test]
fn now_is_what_the_clock_shows() {
    let before = Utc::now();
    let now = chrono_of(&Timestamp::now());
    let after = Utc::now();
    assert!(before <= now && now <= after);
}

#[test]
fn deadlines_lie_their_ttl_ahead() {
    assert_eq!(deadline_after(&at(100, 0), None).unwrap().is_none(), true);
    assert_eq!(parts(deadline_after(&at(100, 0), Some(0)).unwrap().unwrap()), (100, 0));
    assert_eq!(
        parts(deadline_after(&at(100, 999_000_001), Some(60_001)).unwrap().unwrap()),
        (161, 1)
    );
    assert_eq!(
        parts(deadline_after(&at(-1, 500_000_000), Some(600)).unwrap().unwrap()),
        (0, 100_000_000)
    );
    assert_eq!(
        parts(deadline_after(&at(MAX_SECS, 1), Some(999)).unwrap().unwrap()),
        (MAX_SECS, 999_000_001)
    );
    assert_eq!(
        deadline_after(&at(MAX_SECS, 1_000_000), Some(999)).unwrap_err(),
        DeadlineOutOfRange
    );
    assert!(deadline_after(&at(0, 0), Some(u64::MAX)).is_err());
    assert!(deadline_after(&at(0, 0), Some(8_210_266_876_799_999)).is_ok());
    assert!(deadline_after(&at(0, 0), Some(8_210_266_876_800_000)).is_err());
}

#[test]
fn deadlines_count_from_the_clock() {
    assert!(calculate_deadline(None).unwrap().is_none());
    let before = Utc::now();
    let deadline = chrono_of(&calculate_deadline(Some(5_000)).unwrap().unwrap());
    let after = Utc::now();
    assert!(before + TimeDelta::seconds(5) <= deadline);
    assert!(deadline <= after + TimeDelta::seconds(5));
    assert!(calculate_deadline(Some(u64::MAX)).is_err());
}

#[test]
fn new_entries_live_until_their_deadline() {
    let policy = ExpiryPolicyForCacheExt;
    let value: CacheValue = (Some(at(100, 250_000_000)), vec![1]);
    assert_eq!(
        policy.lifetime_at(&value, &at(90, 500_000_000)),
        Some(Lifetime { secs: 9, nanos: 750_000_000 })
    );
    assert_eq!(
        policy.lifetime_at(&value, &at(100, 249_999_999)),
        Some(Lifetime { secs: 0, nanos: 1 })
    );
    assert_eq!(policy.lifetime_at(&value, &at(100, 250_000_000)), None);
    assert_eq!(policy.lifetime_at(&value, &at(101, 0)), None);
    assert_eq!(policy.lifetime_at(&(None, vec![1]), &at(0, 0)), None);
}

#[test]
fn lifetimes_count_leap_seconds_as_the_calendar_does() {
    let instants = [
        at(59, 0), at(59, 1_500_000_000), at(60, 250_000_000), at(86_399, 1_999_999_999),
        at(86_400, 0), at(90_000, 7), at(86_459, 1_000_000_000), at(MIN_SECS, 0), at(MAX_SECS, 3),
    ];
    let policy = ExpiryPolicyForCacheExt;
    for deadline in instants {
        for now in instants {
            let expected = (chrono_of(&deadline) - chrono_of(&now)).to_std().ok();
            let expected = expected.filter(|left| !left.is_zero());
            let left = policy.lifetime_at(&(Some(deadline), vec![]), &now);
            assert_eq!(
                left.map(|left| std::time::Duration::new(left.secs, left.nanos)),
                expected
            );
            assert_eq!(live_at(&Some(deadline), &now), expected.is_some());
        }
    }
    assert!(live_at(&None, &at(0, 0)));
}

#[test]
fn new_entries_count_from_the_clock() {
    let policy = ExpiryPolicyForCacheExt;
    let deadline = calculate_deadline(Some(3_600_000)).unwrap();
    let left = policy.expire_after_create(&(deadline, vec![])).unwrap();
    assert!(left.secs == 3_599 || (left.secs == 3_600 && left.nanos == 0));
    assert_eq!(policy.expire_after_create(&(None, vec![])), None);
    assert_eq!(policy.expire_after_create(&(Some(at(0, 0)), vec![])), None);
}

#[test]
fn reading_and_replacing_leave_the_lifetime_alone() {
    let policy = ExpiryPolicyForCacheExt;
    let left = Some(Lifetime { secs: 3, nanos: 4 });
    assert_eq!(policy.expire_after_read(left), left);
    assert_eq!(policy.expire_after_read(None), None);
    assert_eq!(policy.expire_after_update(left), left);
    assert_eq!(policy.expire_after_update(None), None);
}

#[test]
fn time_left_shrinks_as_the_clock_goes_on() {
    let deadline = at(1_000, 5);
    let early = deadline.time_left(&at(100, 0)).unwrap();
    let late = deadline.time_left(&at(700, 10)).unwrap();
    assert_eq!(early, Lifetime { secs: 900, nanos: 5 });
    assert_eq!(late, Lifetime { secs: 299, nanos: 999_999_995 });
}

#[test]
fn entries_expire_at_one_instant_whenever_they_are_brought_back() {
    let policy = ExpiryPolicyForCacheExt;
    let value: CacheValue = (Some(at(10_000, 7)), vec![1]);
    for now in [at(1_000, 0), at(5_000, 999_999_999), at(9_999, 8)] {
        let left = policy.lifetime_at(&value, &now).unwrap();
        let end = chrono_of(&now) + std::time::Duration::new(left.secs, left.nanos);
        assert_eq!(end, chrono_of(&at(10_000, 7)));
    }
}

#[test]
fn values_weigh_their_bytes() {
    assert_eq!(weigh(&(None, vec![])), 0);
    assert_eq!(weigh(&(Some(at(0, 0)), vec![0; 300])), 300);
}

#[test]
fn megabytes_are_counted_in_bytes() {
    assert_eq!(mb_to_bytes(0), 0);
    assert_eq!(mb_to_bytes(1), 1_048_576);
    assert_eq!(mb_to_bytes(MAX_CAPACITY_MB), 2_147_483_648);
    assert_eq!(mb_to_bytes(17_592_186_044_415), 18_446_744_073_708_503_040);
}

#[test]
fn settings_have_defaults() {
    let settings = Settings::from_vars(None, None);
    assert_eq!(settings.port, "8080");
    assert_eq!(settings.snapshot_path, "cache-snapshot.rmp");
    let settings = Settings::from_vars(Some("99".to_string()), Some("/tmp/x".to_string()));
    assert_eq!(settings.port, "99");
    assert_eq!(settings.snapshot_path, "/tmp/x");
}
