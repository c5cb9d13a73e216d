//! What each operation gives: how the fields of its result follow from those of its arguments.
use crate::cache::{
    entry_view, entry_views, instant_of, key_matches, mb_to_bytes, weigh, CacheCommand, CacheExt,
    CachePlan, CacheValue, CommandView, EntryView,
};
use crate::codec::{
    decode_value, encode_value, encoder_failed, msgpack_decoding, msgpack_encoding,
    value_from_base64, value_to_base64, CodecError,
};
use crate::error::ApplicationError;
use crate::expiry::{
    calculate_deadline, deadline_after, deadline_in_range, deadline_spec, is_lifetime_left,
    is_live, live_at, DeadlineOutOfRange, ExpiryPolicyForCacheExt,
};
use crate::handlers::{
    delete_cache, duration_text, fallback, fetched, find_cache_by_key, found, health_check,
    invalidate_by_text, is_listed, is_saved, list_entries, listing, listing_reply,
    load_cache_entries, save_bytes, save_cache, saved_reply, LoadCacheEntriesResult, Reply,
    ReplyBody, SaveError, SetPayload,
};
use crate::msgpack::{free_of_marker, nesting};
use crate::routes::{Endpoint, Method};
use crate::settings::Settings;
use crate::singleflight::{FlightAction, FlightEvent, SingleFlight};
use crate::snapshot::{
    bytes_of, encode_snapshot, encoder_failed_on, entry_fits, is_restoration, live_entries,
    load_cache_snapshot, restore_entries, restore_plan, restore_snapshot, save_cache_snapshot,
    snapshot_decoding, snapshot_fits, SnapshotError,
};
use crate::store::{walked, SharedCache};
use crate::text::{begins_with, occurs_at};
use crate::timestamp::{
    clock_showed, clock_shows_readings, elapsed, Lifetime, Timestamp, TimestampView, MAX_SECS,
    MIN_SECS,
};
use serde_json::Value;
use vstd::prelude::*;

verus! {

/// Whether one instant comes after another, neither in a leap second: in a later second, or later
/// in the same second.
pub open spec fn comes_after(later: TimestampView, earlier: TimestampView) -> bool {
    later.secs > earlier.secs || (later.secs == earlier.secs && later.nanos > earlier.nanos)
}

/// Whether one instant is so many nanoseconds after another, and not in a leap second.
pub open spec fn is_after_by(later: TimestampView, earlier: TimestampView, nanos: int) -> bool {
    &&& later.secs * 1_000_000_000 + later.nanos == earlier.secs * 1_000_000_000 + earlier.nanos
        + nanos
    &&& 0 <= later.nanos < 1_000_000_000
}

/// A timestamp has the parts that it was made of.
pub proof fn timestamp_has_its_parts(
    secs: i64,
    nanos: u32,
    instant: Option<Timestamp>,
    its_secs: i64,
    its_nanos: u32,
)
    requires
        call_ensures(Timestamp::new, (secs, nanos), instant),
        instant matches Some(instant) ==> call_ensures(Timestamp::secs, (&instant,), its_secs),
        instant matches Some(instant) ==> call_ensures(Timestamp::nanos, (&instant,), its_nanos),
    ensures
        instant is Some ==> its_secs == secs && its_nanos == nanos,
        instant is Some <==> MIN_SECS <= secs <= MAX_SECS && (nanos < 1_000_000_000 || (nanos
            < 2_000_000_000 && secs % 60 == 59)),
{
}

/// Adding milliseconds moves an instant by exactly so many, and is refused only where that leads
/// beyond the calendar.
pub proof fn sum_is_later_by_the_milliseconds(
    start: Timestamp,
    millis: u64,
    sum: Option<Timestamp>,
)
    requires
        !start@.is_leap(),
        call_ensures(Timestamp::plus_millis, (&start, millis), sum),
    ensures
        match sum {
            Some(sum) => is_after_by(sum@, start@, millis * 1_000_000),
            None => start@.secs * 1_000_000_000 + start@.nanos + millis * 1_000_000 >= (MAX_SECS + 1)
                * 1_000_000_000,
        },
{
}

/// What is left until an instant, added to the time at which it is left, gives the instant.
pub proof fn time_left_leads_to_the_end(end: Timestamp, now: Timestamp, left: Option<Lifetime>)
    requires
        end@.valid() && !end@.is_leap(),
        now@.valid() && !now@.is_leap(),
        call_ensures(Timestamp::time_left, (&end, &now), left),
    ensures
        left is Some <==> comes_after(end@, now@),
        left matches Some(left) ==> is_after_by(
            end@,
            now@,
            left.secs * 1_000_000_000 + left.nanos,
        ) && left.nanos < 1_000_000_000,
{
}

/// The time from one instant to another is that between their seconds and nanoseconds, and one
/// second more where the earlier lies in a leap second and the later has a later second of the
/// day. Counted the other way it is the opposite.
pub proof fn time_between_instants(later: TimestampView, earlier: TimestampView)
    ensures
        elapsed(later, earlier) == -elapsed(earlier, later),
        ({
            let apart = (later.secs - earlier.secs) * 1_000_000_000 + later.nanos - earlier.nanos;
            let leap = earlier.nanos >= 1_000_000_000;
            &&& later.nanos < 1_000_000_000 && !leap ==> elapsed(later, earlier) == apart
            &&& later.secs % 86_400 == earlier.secs % 86_400 ==> elapsed(later, earlier) == apart
            &&& later.secs % 86_400 > earlier.secs % 86_400 && leap ==> elapsed(later, earlier)
                == apart + 1_000_000_000
            &&& later.secs % 86_400 > earlier.secs % 86_400 && !leap ==> elapsed(later, earlier)
                == apart
        }),
{
}

/// What is left until an instant is the time from now to it, leap seconds or not, where that is any
/// time at all.
pub proof fn time_left_is_the_time_between(end: Timestamp, now: Timestamp, left: Option<Lifetime>)
    requires
        call_ensures(Timestamp::time_left, (&end, &now), left),
    ensures
        left is Some <==> elapsed(end@, now@) > 0,
        left matches Some(left) ==> left.secs * 1_000_000_000 + left.nanos == elapsed(end@, now@)
            && left.nanos < 1_000_000_000,
{
}

/// An entry is live, and a new one is given time, exactly as long as there is time left until its
/// deadline, leap seconds or not; and what it is given is what is left.
pub proof fn live_as_long_as_time_is_left(
    policy: ExpiryPolicyForCacheExt,
    value: CacheValue,
    now: Timestamp,
    live: bool,
    given: Option<Lifetime>,
    left: Option<Lifetime>,
)
    requires
        call_ensures(live_at, (&value.0, &now), live),
        call_ensures(ExpiryPolicyForCacheExt::lifetime_at, (&policy, &value, &now), given),
        value.0 matches Some(deadline) ==> call_ensures(
            Timestamp::time_left,
            (&deadline, &now),
            left,
        ),
    ensures
        match value.0 {
            Some(_) => (live <==> left is Some) && given == left,
            None => live && given is None,
        },
{
}

/// A deadline is its time to live after the instant from which that counts; there is none exactly
/// where there is no time to live, and it is refused exactly where it leads beyond the calendar.
pub proof fn deadline_is_later_by_the_ttl(
    now: Timestamp,
    ttl: Option<u64>,
    deadline: Result<Option<Timestamp>, DeadlineOutOfRange>,
)
    requires
        !now@.is_leap(),
        call_ensures(deadline_after, (&now, ttl), deadline),
    ensures
        match (ttl, deadline) {
            (None, Ok(None)) => true,
            (Some(millis), Ok(Some(deadline))) => is_after_by(
                deadline@,
                now@,
                millis * 1_000_000,
            ) && deadline@.secs <= MAX_SECS,
            (Some(millis), Err(_)) => now@.secs * 1_000_000_000 + now@.nanos + millis * 1_000_000
                >= (MAX_SECS + 1) * 1_000_000_000,
            _ => false,
        },
{
}

/// A deadline that counts from now is its time to live after what the clock showed.
pub proof fn deadline_counts_from_the_clock(
    ttl: Option<u64>,
    deadline: Result<Option<Timestamp>, DeadlineOutOfRange>,
) -> (now: TimestampView)
    requires
        call_ensures(calculate_deadline, (ttl,), deadline),
    ensures
        clock_showed(now),
        match (ttl, deadline) {
            (None, Ok(None)) => true,
            (Some(millis), Ok(Some(deadline))) => is_after_by(deadline@, now, millis * 1_000_000),
            (Some(millis), Err(_)) => now.secs * 1_000_000_000 + now.nanos + millis * 1_000_000
                >= (MAX_SECS + 1) * 1_000_000_000,
            _ => false,
        },
{
    let now = choose|now: TimestampView|
        clock_showed(now) && now.is_clock_reading() && match deadline {
            Ok(deadline) => deadline_in_range(now, ttl) && instant_of(deadline)
                == #[trigger] deadline_spec(now, ttl),
            Err(_) => !deadline_in_range(now, ttl),
        };
    clock_shows_readings(now);
    now
}

/// Whether an entry is to be had at `now`: it has no deadline, or one that comes after `now`.
pub open spec fn is_to_be_had(deadline: Option<TimestampView>, now: TimestampView) -> bool {
    deadline matches Some(deadline) ==> comes_after(deadline, now)
}

/// An entry is live exactly where it has no deadline or one that is still to come.
pub proof fn live_until_the_deadline(deadline: Option<Timestamp>, now: Timestamp, live: bool)
    requires
        deadline matches Some(deadline) ==> deadline@.valid() && !deadline@.is_leap(),
        now@.valid() && !now@.is_leap(),
        call_ensures(live_at, (&deadline, &now), live),
    ensures
        live == is_to_be_had(instant_of(deadline), now@),
        deadline is None ==> live,
{
}

/// Whether what an entry was given at `now` ends at its deadline: nothing where there is none or
/// it has passed.
pub open spec fn ends_at(
    left: Option<Lifetime>,
    deadline: Option<Timestamp>,
    now: TimestampView,
) -> bool {
    match deadline {
        Some(deadline) => {
            &&& left is Some <==> comes_after(deadline@, now)
            &&& left matches Some(left) ==> left.nanos < 1_000_000_000 && is_after_by(
                deadline@,
                now,
                left.secs * 1_000_000_000 + left.nanos,
            )
        },
        None => left is None,
    }
}

/// A new entry is given what is left until its deadline.
pub proof fn new_entry_ends_at_its_deadline(
    policy: ExpiryPolicyForCacheExt,
    value: CacheValue,
    now: Timestamp,
    left: Option<Lifetime>,
)
    requires
        value.0 matches Some(deadline) ==> deadline@.valid() && !deadline@.is_leap(),
        now@.valid() && !now@.is_leap(),
        call_ensures(ExpiryPolicyForCacheExt::lifetime_at, (&policy, &value, &now), left),
    ensures
        ends_at(left, value.0, now@),
{
}

/// A new entry is given what is left, from what the clock showed, until its deadline.
pub proof fn created_entry_ends_at_its_deadline(
    policy: ExpiryPolicyForCacheExt,
    value: CacheValue,
    left: Option<Lifetime>,
) -> (now: TimestampView)
    requires
        value.0 matches Some(deadline) ==> deadline@.valid() && !deadline@.is_leap(),
        call_ensures(ExpiryPolicyForCacheExt::expire_after_create, (&policy, &value), left),
    ensures
        clock_showed(now),
        ends_at(left, value.0, now),
{
    let now = choose|now: TimestampView|
        clock_showed(now) && now.is_clock_reading() && #[trigger] is_lifetime_left(
            left,
            instant_of(value.0),
            now,
        );
    clock_shows_readings(now);
    now
}

/// A new entry is given, leap seconds or not, the time from what the clock showed to its deadline,
/// where that is any time at all.
pub proof fn created_entry_has_the_time_between(
    policy: ExpiryPolicyForCacheExt,
    value: CacheValue,
    left: Option<Lifetime>,
) -> (now: TimestampView)
    requires
        call_ensures(ExpiryPolicyForCacheExt::expire_after_create, (&policy, &value), left),
    ensures
        clock_showed(now),
        left is Some <==> (value.0 matches Some(deadline) && elapsed(deadline@, now) > 0),
        left matches Some(left) ==> (value.0 matches Some(deadline) && left.secs * 1_000_000_000
            + left.nanos == elapsed(deadline@, now) && left.nanos < 1_000_000_000),
{
    choose|now: TimestampView|
        clock_showed(now) && now.is_clock_reading() && #[trigger] is_lifetime_left(
            left,
            instant_of(value.0),
            now,
        )
}

/// Reading and replacing leave what an entry has left as it is.
pub proof fn use_does_not_move_the_end(
    policy: ExpiryPolicyForCacheExt,
    before: Option<Lifetime>,
    read: Option<Lifetime>,
    updated: Option<Lifetime>,
)
    requires
        call_ensures(ExpiryPolicyForCacheExt::expire_after_read, (&policy, before), read),
        call_ensures(ExpiryPolicyForCacheExt::expire_after_update, (&policy, before), updated),
    ensures
        read == before,
        updated == before,
{
}

/// Whether a reply says that all is well, with this message.
pub open spec fn says(reply: Reply, message: Seq<char>) -> bool {
    reply.status == 200 && (reply.body matches ReplyBody::Message { message: said } && said@
        == message)
}

/// Whether the changes drop what is stored under the key and then store these bytes there, with
/// this deadline, and do nothing else.
pub open spec fn stores(
    plan: CachePlan,
    key: Seq<char>,
    bytes: Seq<u8>,
    deadline: Option<TimestampView>,
) -> bool {
    &&& plan.commands@.len() == 2
    &&& plan.commands@[0] matches CacheCommand::Invalidate(dropped) && dropped@ == key
    &&& plan.commands@[1] matches CacheCommand::Insert(stored, value) && stored@ == key && value.1@
        == bytes && (value.0 matches Some(expires_at) ==> deadline == Some(expires_at@)) && (
    value.0 is None ==> deadline is None)
}

/// Whether the changes drop what is stored under the key and do nothing else.
pub open spec fn drops(plan: CachePlan, key: Seq<char>) -> bool {
    &&& plan.commands@.len() == 1
    &&& plan.commands@[0] matches CacheCommand::Invalidate(dropped) && dropped@ == key
}

/// Bytes that are saved are stored as they are, under the key and with the deadline that they came
/// with, unless they are to live for no time; then what is stored there only goes.
pub proof fn saved_bytes_are_stored(
    key: String,
    bytes: Vec<u8>,
    deadline: Option<Timestamp>,
    ttl: Option<u64>,
    done: (CachePlan, Reply),
)
    requires
        call_ensures(save_bytes, (key, bytes, deadline, ttl), done),
    ensures
        ttl == Some(0u64) ==> drops(done.0, key@),
        ttl != Some(0u64) ==> stores(
            done.0,
            key@,
            bytes@,
            match deadline {
                Some(deadline) => Some(deadline@),
                None => None,
            },
        ),
        ttl is None ==> says(done.1, "Key "@ + key@ + " set successfully with no expiration"@),
        ttl matches Some(millis) ==> says(
            done.1,
            "Key "@ + key@ + " set successfully with TTL "@ + duration_text(millis),
        ),
{
    let plan = done.0;
    assert(plan@.len() == plan.commands@.len());
    assert(plan@[0] == plan.commands@[0]@);
    if ttl != Some(0u64) {
        assert(plan@[1] == plan.commands@[1]@);
    }
}

/// A value that is saved is stored in its encoding, under its key, with a deadline that is its
/// time to live after what the clock showed, or with none where it has no time to live. What is to
/// live for no time only drops what is stored there. Nothing is stored only where the deadline
/// would lie beyond the calendar, or the value could not be encoded.
pub proof fn saved_value_is_stored_for_its_ttl(
    key: String,
    payload: SetPayload,
    done: Result<(CachePlan, Reply), SaveError>,
) -> (now: TimestampView)
    requires
        call_ensures(save_cache, (key, payload), done),
        !(done matches Err(SaveError::Value(_))),
    ensures
        clock_showed(now),
        match (payload.ttl, done) {
            (None, Ok((plan, reply))) => {
                &&& stores(plan, key@, msgpack_encoding(payload.value), None)
                &&& says(reply, "Key "@ + key@ + " set successfully with no expiration"@)
            },
            (Some(millis), Ok((plan, reply))) => {
                &&& millis == 0 ==> drops(plan, key@)
                &&& millis > 0 ==> exists|deadline: TimestampView| #[trigger]
                    is_after_by(deadline, now, millis * 1_000_000) && stores(
                        plan,
                        key@,
                        msgpack_encoding(payload.value),
                        Some(deadline),
                    )
                &&& says(
                    reply,
                    "Key "@ + key@ + " set successfully with TTL "@ + duration_text(millis),
                )
            },
            (Some(millis), Err(SaveError::Deadline(_))) => now.secs * 1_000_000_000 + now.nanos
                + millis * 1_000_000 >= (MAX_SECS + 1) * 1_000_000_000,
            _ => false,
        },
{
    let now = choose|now: TimestampView|
        clock_showed(now) && now.is_clock_reading() && #[trigger] is_saved(
            done,
            key@,
            payload,
            now,
        );
    clock_shows_readings(now);
    if let Ok((plan, reply)) = done {
        assert(plan@.len() == plan.commands@.len());
        assert(plan@[0] == plan.commands@[0]@);
        if payload.ttl != Some(0u64) {
            assert(plan@[1] == plan.commands@[1]@);
        }
        if let Some(millis) = payload.ttl {
            if millis > 0 {
                let deadline = deadline_spec(now, payload.ttl)->0;
                assert(is_after_by(deadline, now, millis * 1_000_000));
            }
        }
    }
    now
}

/// Storing fails for want of memory only where the encoder was called on the value and failed.
pub proof fn save_fails_only_where_the_encoder_did(
    key: String,
    payload: SetPayload,
    done: Result<(CachePlan, Reply), SaveError>,
)
    requires
        call_ensures(save_cache, (key, payload), done),
    ensures
        done matches Err(SaveError::Value(error)) ==> error == CodecError::Encode && encoder_failed(
            payload.value,
        ),
{
}

/// Whether the reply holds the value under the key.
pub open spec fn holds(reply: Reply, key: Seq<char>, value: Value) -> bool {
    reply.status == 200 && (reply.body matches ReplyBody::Entry { key: its_key, value: its_value }
        && its_key@ == key && its_value == value)
}

/// Whether the reply says what went wrong.
pub open spec fn complains(
    reply: Reply,
    status: u16,
    message: Seq<char>,
    error_code: Seq<char>,
) -> bool {
    reply.status == status && (reply.body matches ReplyBody::Failure {
        message: its_message,
        error_code: its_code,
    } && its_message@ == message && its_code@ == error_code)
}

/// The answer to a lookup that found a value holds that key and that value.
pub proof fn found_value_is_answered(key: String, value: Value, reply: Reply)
    requires
        call_ensures(found, (key, value), reply),
    ensures
        holds(reply, key@, value),
{
}

/// A lookup gives the bytes that the cache shows, and else that the key is not there.
pub proof fn lookup_gives_what_is_shown(
    key: String,
    shown: Option<CacheValue>,
    given: Result<Vec<u8>, ApplicationError>,
)
    requires
        call_ensures(fetched, (key, shown), given),
    ensures
        match shown {
            Some(value) => given matches Ok(bytes) && bytes@ == value.1@,
            None => given matches Err(ApplicationError::KeyNotFound(missing)) && missing@ == key@,
        },
{
}

/// A lookup is answered with its key and the value that the bytes stand for; with what went wrong
/// where it failed; and not at all where the bytes stand for no value.
pub proof fn lookup_is_answered(
    key: String,
    given: Result<Vec<u8>, ApplicationError>,
    reply: Result<Reply, CodecError>,
)
    requires
        call_ensures(find_cache_by_key, (key, given), reply),
    ensures
        match given {
            Ok(bytes) => match msgpack_decoding(bytes@) {
                Some(value) => reply matches Ok(reply) && holds(reply, key@, value),
                None => reply matches Err(error) && error == CodecError::Decode,
            },
            Err(ApplicationError::KeyNotFound(_)) => reply matches Ok(reply) && complains(
                reply,
                404,
                "Key not found"@,
                "KEY_NOT_FOUND"@,
            ),
            Err(ApplicationError::Unknown) => reply matches Ok(reply) && complains(
                reply,
                500,
                "Unknown error occurred"@,
                "UNKNOWN_ERROR"@,
            ),
        },
{
}

/// What is set under a key is what is got under it: where a save stored something, a lookup that
/// is shown this is answered with status 200, the key and the very value.
///
/// Left out are values whose encoding nests too deep or is too long to be read back, or has a map
/// that begins with the key that `serde_json` keeps for its own use.
pub proof fn what_is_set_is_got(
    key: String,
    payload: SetPayload,
    done: (CachePlan, Reply),
    given: Result<Vec<u8>, ApplicationError>,
    reply: Result<Reply, CodecError>,
)
    requires
        call_ensures(save_cache, (key, payload), Ok::<(CachePlan, Reply), SaveError>(done)),
        payload.ttl != Some(0u64),
        msgpack_encoding(payload.value).len() <= u32::MAX,
        free_of_marker(msgpack_encoding(payload.value)),
        nesting(msgpack_encoding(payload.value)) < 1024,
        done.0.commands@.last() matches CacheCommand::Insert(_, value) && call_ensures(
            fetched,
            (key, Some(value)),
            given,
        ),
        call_ensures(find_cache_by_key, (key, given), reply),
    ensures
        reply matches Ok(reply) && holds(reply, key@, payload.value),
        done.0.commands@.last() matches CacheCommand::Insert(stored, _) && stored@ == key@,
{
    let now = saved_value_is_stored_for_its_ttl(
        key,
        payload,
        Ok::<(CachePlan, Reply), SaveError>(done),
    );
    lookup_is_answered(key, given, reply);
}

/// A key that was deleted is dropped, nothing else is, and the answer names it.
pub proof fn deletion_drops_the_key(key: String, done: (CachePlan, Reply))
    requires
        call_ensures(delete_cache, (key,), done),
    ensures
        drops(done.0, key@),
        says(done.1, "Cache key "@ + key@ + " deleted."@),
{
    assert(done.0@.len() == done.0.commands@.len());
    assert(done.0@[0] == done.0.commands@[0]@);
}

/// Invalidation by a text asks for exactly what that text matches to be dropped.
pub proof fn invalidation_passes_the_text_on(text: String, done: (CachePlan, Reply))
    requires
        call_ensures(invalidate_by_text, (text,), done),
    ensures
        done.0.commands@.len() == 1,
        done.0.commands@[0] matches CacheCommand::InvalidateMatching(passed) && passed@ == text@,
        says(done.1, "Cache keys invalidated"@),
{
    assert(done.0@.len() == done.0.commands@.len());
    assert(done.0@[0] == done.0.commands@[0]@);
}

/// A text matches a key exactly where the key is made up of something, the text, and something.
pub proof fn text_matches_keys_around_it(key: &str, text: &str, matches: bool)
    requires
        call_ensures(key_matches, (key, text), matches),
    ensures
        matches <==> exists|before: Seq<char>, after: Seq<char>|
            key@ == #[trigger] (before + text@ + after),
{
    if matches {
        let at = choose|at: int| occurs_at(text@, key@, at);
        let before = key@.take(at);
        let after = key@.skip(at + text@.len());
        assert(key@ =~= before + text@ + after);
    }
    if exists|before: Seq<char>, after: Seq<char>| key@ == #[trigger] (before + text@ + after) {
        let (before, after) = choose|before: Seq<char>, after: Seq<char>|
            key@ == #[trigger] (before + text@ + after);
        assert(key@.subrange(before.len() as int, (before.len() + text@.len()) as int) =~= text@);
        assert(occurs_at(text@, key@, before.len() as int));
    }
}

/// The remaining replies say what they are documented to say.
pub proof fn other_replies(
    up: Reply,
    uri: &str,
    lost: Reply,
    key: &str,
    text: Option<String>,
    saved: Reply,
)
    requires
        call_ensures(health_check, (), up),
        call_ensures(fallback, (uri,), lost),
        call_ensures(saved_reply, (key, text), saved),
    ensures
        says(up, "ok"@),
        complains(lost, 404, "No route for "@ + uri@, "ROUTE_NOT_FOUND"@),
        text is None ==> says(saved, "Key "@ + key@ + " set successfully with no expiration"@),
        text matches Some(text) ==> says(
            saved,
            "Key "@ + key@ + " set successfully with TTL "@ + text@,
        ),
{
}

/// Whether the positions pick so many out of so many, in their order.
pub open spec fn picks(from: Seq<int>, picked: nat, all: nat) -> bool {
    &&& from.len() == picked
    &&& forall|j: int| 0 <= j < from.len() ==> 0 <= #[trigger] from[j] < all
    &&& forall|j: int, k: int| 0 <= j < k < from.len() ==> #[trigger] from[j] < #[trigger] from[k]
}

/// A filter picks out exactly what it is to keep.
proof fn filter_picks<A>(all: Seq<A>, keep: spec_fn(A) -> bool) -> (from: Seq<int>)
    ensures
        picks(from, all.filter(keep).len(), all.len()),
        forall|j: int| 0 <= j < from.len() ==> all.filter(keep)[j] == all[#[trigger] from[j]],
        forall|i: int|
            0 <= i < all.len() ==> (#[trigger] from.contains(i) <==> keep(all[i])),
    decreases all.len(),
{
    reveal(Seq::filter);
    if all.len() == 0 {
        Seq::empty()
    } else {
        let before = all.drop_last();
        let last = all.len() - 1;
        let earlier = filter_picks(before, keep);
        let from = if keep(all[last]) {
            earlier.push(last)
        } else {
            earlier
        };
        assert forall|i: int| 0 <= i < all.len() implies (#[trigger] from.contains(i) <==> keep(
            all[i],
        )) by {
            if i < last {
                assert(before[i] == all[i]);
                assert(earlier.contains(i) <==> keep(all[i]));
                if earlier.contains(i) {
                    let j = choose|j: int| 0 <= j < earlier.len() && earlier[j] == i;
                    assert(from[j] == i);
                }
                if from.contains(i) {
                    let j = choose|j: int| 0 <= j < from.len() && from[j] == i;
                    assert(earlier[j] == i);
                }
            } else if keep(all[last]) {
                assert(from[from.len() - 1] == last);
            } else if from.contains(i) {
                let j = choose|j: int| 0 <= j < earlier.len() && earlier[j] == i;
                assert(earlier[j] < before.len());
            }
        }
        assert forall|j: int| 0 <= j < from.len() implies all.filter(keep)[j]
            == all[#[trigger] from[j]] by {
            if j < earlier.len() {
                assert(from[j] == earlier[j]);
                assert(before.filter(keep)[j] == before[earlier[j]]);
            }
        }
        from
    }
}

/// Whether two optional timestamps show the same.
pub open spec fn same_instant(one: Option<Timestamp>, other: Option<TimestampView>) -> bool {
    match one {
        Some(one) => other == Some(one@),
        None => other is None,
    }
}

/// Whether a key begins with a prefix, character by character.
pub open spec fn has_prefix(key: Seq<char>, prefix: Seq<char>) -> bool {
    &&& prefix.len() <= key.len()
    &&& forall|i: int| 0 <= i < prefix.len() ==> #[trigger] key[i] == prefix[i]
}

/// Whether the reply lists, of these rows, the picked ones: each with its key and the deadline that
/// is stored with it.
pub open spec fn lists_rows(
    reply: Reply,
    rows: Seq<(String, CacheValue)>,
    from: Seq<int>,
) -> bool {
    reply.status == 200 && (reply.body matches ReplyBody::Listing { count, entries: lines } && {
        &&& count == lines@.len()
        &&& picks(from, lines@.len(), rows.len())
        &&& forall|j: int|
            0 <= j < lines@.len() ==> (#[trigger] lines@[j]).key@ == rows[from[j]].0@
                && same_instant(lines@[j].ttl, instant_of(rows[from[j]].1.0))
    })
}

/// A listing under a prefix shows, of what it was given, every key that begins with the prefix and
/// no other, in order, each with the deadline that is stored with it.
pub proof fn listing_shows_keys_and_deadlines(
    rows: Vec<(String, CacheValue)>,
    prefix: &str,
    reply: Reply,
) -> (from: Seq<int>)
    requires
        call_ensures(list_entries, (rows, prefix), reply),
    ensures
        lists_rows(reply, rows@, from),
        forall|i: int|
            0 <= i < rows@.len() ==> (#[trigger] from.contains(i) <==> has_prefix(
                rows@[i].0@,
                prefix@,
            )),
{
    listing_picks(rows@, prefix@, reply)
}

/// A listing's reply shows the rows whose keys begin with the prefix.
proof fn listing_picks(
    rows: Seq<(String, CacheValue)>,
    prefix: Seq<char>,
    reply: Reply,
) -> (from: Seq<int>)
    requires
        reply@ == listing_reply(listing(entry_views(rows), prefix)),
    ensures
        lists_rows(reply, rows, from),
        forall|i: int|
            0 <= i < rows.len() ==> (#[trigger] from.contains(i) <==> has_prefix(
                rows[i].0@,
                prefix,
            )),
{
    let views = entry_views(rows);
    let wanted = |entry: EntryView| is_listed(entry, prefix);
    let from = filter_picks(views, wanted);
    let kept = views.filter(wanted);
    let lines = listing(views, prefix);
    if let ReplyBody::Listing { count, entries } = reply.body {
        let shown = entries@.map_values(|line: LoadCacheEntriesResult| line@);
        assert(shown == lines);
        assert forall|j: int| 0 <= j < entries@.len() implies (#[trigger] entries@[j]).key@
            == rows[from[j]].0@ && same_instant(
            entries@[j].ttl,
            instant_of(rows[from[j]].1.0),
        ) by {
            assert(shown[j] == entries@[j]@);
            assert(kept[j] == views[from[j]]);
            assert(views[from[j]] == entry_view(rows[from[j]]));
        }
    }
    assert forall|i: int| 0 <= i < rows.len() implies (#[trigger] from.contains(i) <==> has_prefix(
        rows[i].0@,
        prefix,
    )) by {
        let key = rows[i].0@;
        assert(views[i] == entry_view(rows[i]));
        if begins_with(key, prefix) {
            assert forall|c: int| 0 <= c < prefix.len() implies #[trigger] key[c] == prefix[c] by {
                assert(key.subrange(0, prefix.len() as int)[c] == key[c]);
            }
        }
        if has_prefix(key, prefix) {
            assert(key.subrange(0, prefix.len() as int) =~= prefix);
        }
    }
    from
}

/// A request for a listing is answered with every entry that the walk over the cache handed out
/// and whose key begins with the prefix, and no other, each with the deadline that is stored with
/// it.
pub proof fn listing_shows_the_cache(cache: SharedCache, prefix: &str, reply: Reply) -> (shown: (
    Seq<(String, CacheValue)>,
    Seq<int>,
))
    requires
        call_ensures(load_cache_entries, (&cache, prefix), reply),
    ensures
        walked(cache, shown.0),
        lists_rows(reply, shown.0, shown.1),
        forall|i: int|
            0 <= i < shown.0.len() ==> (#[trigger] shown.1.contains(i) <==> has_prefix(
                shown.0[i].0@,
                prefix@,
            )),
{
    let rows = choose|rows: Seq<(String, CacheValue)>|
        {
            &&& #[trigger] walked(cache, rows)
            &&& reply@ == listing_reply(listing(entry_views(rows), prefix@))
        };
    (rows, listing_picks(rows, prefix@, reply))
}

/// Whether an entry of a snapshot is what a row of the cache holds: its key, its deadline and its
/// bytes.
pub open spec fn is_row(entry: EntryView, row: (String, CacheValue)) -> bool {
    &&& entry.key == row.0@
    &&& entry.stored.bytes == row.1.1@
    &&& same_instant(row.1.0, entry.stored.expires_at)
}

/// Whether entries are, one by one, what the rows hold.
pub open spec fn are_rows(entries: Seq<EntryView>, rows: Seq<(String, CacheValue)>) -> bool {
    &&& entries.len() == rows.len()
    &&& forall|i: int| 0 <= i < rows.len() ==> is_row(#[trigger] entries[i], rows[i])
}

/// Whether a row is too long for the format to count.
pub open spec fn is_too_long(row: (String, CacheValue)) -> bool {
    row.1.1@.len() > u32::MAX || vstd::utf8::encode_utf8(row.0@).len() > u32::MAX
}

/// Entries stand for the rows that they were made of.
proof fn views_are_rows(rows: Seq<(String, CacheValue)>)
    ensures
        are_rows(entry_views(rows), rows),
{
    assert forall|i: int| 0 <= i < rows.len() implies is_row(
        #[trigger] entry_views(rows)[i],
        rows[i],
    ) by {
        assert(entry_views(rows)[i] == entry_view(rows[i]));
    }
}

/// Entries do not fit exactly where there are too many or one is too long.
proof fn fitting_is_counting(rows: Seq<(String, CacheValue)>)
    ensures
        !snapshot_fits(entry_views(rows)) <==> rows.len() > u32::MAX || exists|
            i: int,
        | 0 <= i < rows.len() && is_too_long(#[trigger] rows[i]),
{
    let views = entry_views(rows);
    assert forall|i: int| 0 <= i < rows.len() implies (is_too_long(#[trigger] rows[i])
        <==> !entry_fits(views[i])) by {
        assert(views[i] == entry_view(rows[i]));
    }
    if !snapshot_fits(views) && rows.len() <= u32::MAX {
        let i = choose|i: int|
            0 <= i < views.len() && !(#[trigger] entry_fits(views[i]));
        assert(is_too_long(rows[i]));
    }
}

/// A snapshot holds every row that it was made of, with its key, deadline and bytes, and nothing
/// else. It is refused exactly where the format cannot count what is in it, or the encoder failed.
pub proof fn snapshot_holds_its_rows(
    rows: Vec<(String, CacheValue)>,
    snapshot: Result<Vec<u8>, SnapshotError>,
)
    requires
        call_ensures(encode_snapshot, (&rows,), snapshot),
    ensures
        match snapshot {
            Ok(data) => snapshot_decoding(data@) matches Some(entries) && are_rows(entries, rows@),
            Err(SnapshotError::TooLarge) => rows@.len() > u32::MAX || exists|i: int|
                0 <= i < rows@.len() && is_too_long(#[trigger] rows@[i]),
            Err(error) => error == SnapshotError::Encode && encoder_failed_on(entry_views(rows@)),
        },
{
    views_are_rows(rows@);
    fitting_is_counting(rows@);
}

/// The snapshot of a cache holds every entry that the walk over it handed out, with its key,
/// deadline and bytes, and nothing else.
pub proof fn snapshot_holds_the_cache(
    cache: SharedCache,
    snapshot: Result<Vec<u8>, SnapshotError>,
) -> (rows: Seq<(String, CacheValue)>)
    requires
        call_ensures(save_cache_snapshot, (&cache,), snapshot),
    ensures
        walked(cache, rows),
        match snapshot {
            Ok(data) => snapshot_decoding(data@) matches Some(entries) && are_rows(entries, rows),
            Err(SnapshotError::TooLarge) => rows.len() > u32::MAX || exists|i: int|
                0 <= i < rows.len() && is_too_long(#[trigger] rows[i]),
            Err(error) => error == SnapshotError::Encode && encoder_failed_on(entry_views(rows)),
        },
{
    let rows = choose|rows: Seq<(String, CacheValue)>| #[trigger]
        walked(cache, rows) && match snapshot {
            Ok(data) => snapshot_decoding(data@) == Some(entry_views(rows)),
            Err(SnapshotError::TooLarge) => !snapshot_fits(entry_views(rows)),
            Err(_) => snapshot_fits(entry_views(rows)) && encoder_failed_on(
                entry_views(rows),
            ),
        };
    views_are_rows(rows);
    fitting_is_counting(rows);
    rows
}

/// Whether the change stores an entry of a snapshot as it is.
pub open spec fn brings_back(command: CacheCommand, entry: EntryView) -> bool {
    command matches CacheCommand::Insert(key, value) && is_row(entry, (key, value))
}

/// Whether the changes store, of these entries, the picked ones, in order, and do nothing else; and
/// the picked ones are those that are to be had at `now`: those with no deadline, or with one until
/// which there is time.
pub open spec fn brings_back_unexpired(
    plan: CachePlan,
    entries: Seq<EntryView>,
    now: TimestampView,
    from: Seq<int>,
) -> bool {
    &&& picks(from, plan.commands@.len(), entries.len())
    &&& forall|j: int|
        0 <= j < plan.commands@.len() ==> brings_back(
            #[trigger] plan.commands@[j],
            entries[from[j]],
        )
    &&& forall|i: int|
        0 <= i < entries.len() && (entries[i].stored.expires_at matches Some(deadline)
            ==> 0 <= deadline.nanos < 1_000_000_000) ==> (#[trigger] from.contains(i) <==> is_to_be_had(
            entries[i].stored.expires_at,
            now,
        ))
    &&& forall|i: int|
        0 <= i < entries.len() ==> (#[trigger] from.contains(i) <==> (
        entries[i].stored.expires_at matches Some(deadline) ==> elapsed(deadline, now) > 0))
}

/// The plan to restore entries brings back those that are to be had.
proof fn restoring_picks(plan: CachePlan, entries: Seq<EntryView>, now: TimestampView) -> (from: Seq<
    int,
>)
    requires
        plan@ == restore_plan(entries, now),
        0 <= now.nanos < 1_000_000_000,
    ensures
        brings_back_unexpired(plan, entries, now, from),
{
    let live = |entry: EntryView| is_live(entry.stored.expires_at, now);
    let from = filter_picks(entries, live);
    let kept = live_entries(entries, now);
    assert(kept == entries.filter(live));
    assert(plan@.len() == plan.commands@.len());
    assert forall|j: int| 0 <= j < plan.commands@.len() implies brings_back(
        #[trigger] plan.commands@[j],
        entries[from[j]],
    ) by {
        assert(plan@[j] == plan.commands@[j]@);
        assert(kept[j] == entries[from[j]]);
    }
    from
}

/// Of entries that are to be brought back at `now`, exactly the unexpired ones are, each as it is.
pub proof fn restored_rows_are_the_unexpired(
    rows: Vec<(String, CacheValue)>,
    now: Timestamp,
    plan: CachePlan,
) -> (from: Seq<int>)
    requires
        now@.valid() && !now@.is_leap(),
        call_ensures(restore_entries, (rows, &now), plan),
    ensures
        brings_back_unexpired(plan, entry_views(rows@), now@, from),
        are_rows(entry_views(rows@), rows@),
{
    views_are_rows(rows@);
    restoring_picks(plan, entry_views(rows@), now@)
}

/// A snapshot that is read at `now` brings back exactly its unexpired entries, each with its key,
/// deadline and bytes; data that is none is refused, and where there is no data nothing is done.
pub proof fn snapshot_brings_back_the_unexpired(
    data: Option<Vec<u8>>,
    now: Timestamp,
    plan: Result<CachePlan, SnapshotError>,
) -> (from: Seq<int>)
    requires
        now@.valid() && !now@.is_leap(),
        call_ensures(restore_snapshot, (&data, &now), plan),
    ensures
        restores(data, now@, plan, from),
{
    restoration_picks(data, now@, plan)
}

/// Whether a plan is what is owed for the data at `now`.
pub open spec fn restores(
    data: Option<Vec<u8>>,
    now: TimestampView,
    plan: Result<CachePlan, SnapshotError>,
    from: Seq<int>,
) -> bool {
    match data {
        Some(data) => match snapshot_decoding(data@) {
            Some(entries) => plan matches Ok(plan) && brings_back_unexpired(
                plan,
                entries,
                now,
                from,
            ),
            None => plan matches Err(error) && error == SnapshotError::Decode,
        },
        None => plan matches Ok(plan) && plan.commands@.len() == 0,
    }
}

/// A restoration picks the unexpired entries.
proof fn restoration_picks(
    data: Option<Vec<u8>>,
    now: TimestampView,
    plan: Result<CachePlan, SnapshotError>,
) -> (from: Seq<int>)
    requires
        0 <= now.nanos < 1_000_000_000,
        is_restoration(plan, bytes_of(data), now),
    ensures
        restores(data, now, plan, from),
{
    if let Ok(plan) = plan {
        assert(plan@.len() == plan.commands@.len());
        if let Some(bytes) = data {
            restoring_picks(plan, snapshot_decoding(bytes@)->0, now)
        } else {
            Seq::empty()
        }
    } else {
        Seq::empty()
    }
}

/// Loading a snapshot brings back exactly the entries that are unexpired at what the clock showed,
/// each with its key, deadline and bytes.
pub proof fn loading_brings_back_the_unexpired(
    data: Option<Vec<u8>>,
    plan: Result<CachePlan, SnapshotError>,
) -> (loaded: (TimestampView, Seq<int>))
    requires
        call_ensures(load_cache_snapshot, (&data,), plan),
    ensures
        clock_showed(loaded.0),
        restores(data, loaded.0, plan, loaded.1),
{
    let now = choose|now: TimestampView|
        clock_showed(now) && now.is_clock_reading() && #[trigger] is_restoration(
            plan,
            bytes_of(data),
            now,
        );
    clock_shows_readings(now);
    (now, restoration_picks(data, now, plan))
}

/// After a restart, every entry that the walk over the cache handed out is back with its key,
/// deadline and bytes, unless it had expired when the clock was read; and nothing else is.
///
/// An entry without a deadline is always back.
pub proof fn restart_brings_the_cache_back(
    cache: SharedCache,
    data: Vec<u8>,
    plan: Result<CachePlan, SnapshotError>,
) -> (back: (Seq<(String, CacheValue)>, TimestampView, Seq<int>))
    requires
        call_ensures(save_cache_snapshot, (&cache,), Ok::<Vec<u8>, SnapshotError>(data)),
        call_ensures(load_cache_snapshot, (&Some(data),), plan),
    ensures
        walked(cache, back.0),
        clock_showed(back.1),
        plan matches Ok(plan) && {
            &&& picks(back.2, plan.commands@.len(), back.0.len())
            &&& forall|j: int|
                0 <= j < plan.commands@.len() ==> (
                #[trigger] plan.commands@[j] matches CacheCommand::Insert(key, value) && key@
                    == back.0[back.2[j]].0@ && value.1@ == back.0[back.2[j]].1.1@ && same_instant(
                    value.0,
                    instant_of(back.0[back.2[j]].1.0),
                ))
        },
        forall|i: int|
            0 <= i < back.0.len() ==> match back.0[i].1.0 {
                None => #[trigger] back.2.contains(i),
                Some(deadline) => {
                    &&& back.2.contains(i) <==> elapsed(deadline@, back.1) > 0
                    &&& 0 <= deadline@.nanos < 1_000_000_000 ==> (back.2.contains(i)
                        <==> comes_after(deadline@, back.1))
                },
            },
{
    let rows = snapshot_holds_the_cache(cache, Ok::<Vec<u8>, SnapshotError>(data));
    let (now, from) = loading_brings_back_the_unexpired(Some(data), plan);
    let entries = snapshot_decoding(data@)->0;
    assert forall|i: int| 0 <= i < rows.len() implies match rows[i].1.0 {
        None => #[trigger] from.contains(i),
        Some(deadline) => {
            &&& from.contains(i) <==> elapsed(deadline@, now) > 0
            &&& 0 <= deadline@.nanos < 1_000_000_000 ==> (from.contains(i) <==> comes_after(
                deadline@,
                now,
            ))
        },
    } by {
        assert(is_row(entries[i], rows[i]));
    }
    let commands = plan->Ok_0.commands@;
    assert forall|j: int| 0 <= j < commands.len() implies (
    #[trigger] commands[j] matches CacheCommand::Insert(key, value) && key@ == rows[from[j]].0@
        && value.1@ == rows[from[j]].1.1@ && same_instant(
        value.0,
        instant_of(rows[from[j]].1.0),
    )) by {
        assert(brings_back(commands[j], entries[from[j]]));
        assert(is_row(entries[from[j]], rows[from[j]]));
    }
    (rows, now, from)
}

/// A value is read back from its encoding.
///
/// Left out are values whose encoding nests too deep or is too long to be read back, or has a map
/// that begins with the key that `serde_json` keeps for its own use.
pub proof fn value_is_read_back(
    value: Value,
    bytes: Vec<u8>,
    slice: &[u8],
    decoded: Result<Value, CodecError>,
)
    requires
        call_ensures(encode_value, (&value,), Ok::<Vec<u8>, CodecError>(bytes)),
        bytes@.len() <= u32::MAX,
        free_of_marker(bytes@),
        nesting(bytes@) < 1024,
        slice@ == bytes@,
        call_ensures(decode_value, (slice,), decoded),
    ensures
        decoded == Ok::<Value, CodecError>(value),
{
}

/// A value is read back from its text.
///
/// Left out is what is left out for its encoding.
pub proof fn value_is_read_back_from_text(
    value: Value,
    text: String,
    letters: &str,
    read: Result<Value, CodecError>,
)
    requires
        call_ensures(value_to_base64, (&value,), Ok::<String, CodecError>(text)),
        msgpack_encoding(value).len() <= u32::MAX,
        free_of_marker(msgpack_encoding(value)),
        nesting(msgpack_encoding(value)) < 1024,
        letters@ == text@,
        call_ensures(value_from_base64, (letters,), read),
    ensures
        read == Ok::<Value, CodecError>(value),
{
}

/// A value has no encoding, and no text, only where the encoder was called on it and failed.
pub proof fn encoding_fails_only_where_the_encoder_did(
    value: Value,
    encoded: Result<Vec<u8>, CodecError>,
    text: Result<String, CodecError>,
)
    requires
        call_ensures(encode_value, (&value,), encoded),
        call_ensures(value_to_base64, (&value,), text),
    ensures
        encoded matches Ok(bytes) ==> bytes@ == msgpack_encoding(value),
        encoded is Err ==> encoded == Err::<Vec<u8>, CodecError>(CodecError::Encode)
            && encoder_failed(value),
        text is Err ==> text == Err::<String, CodecError>(CodecError::Encode) && encoder_failed(
            value,
        ),
{
}

/// A change is added last, and leaves those before it as they are.
pub proof fn change_is_added_last(plan: &mut CachePlan, command: CacheCommand)
    requires
        call_ensures(CachePlan::push, (plan, command), ()),
    ensures
        final(plan)@.len() == old(plan)@.len() + 1,
        final(plan)@.last() == command@,
        forall|i: int| 0 <= i < old(plan)@.len() ==> final(plan)@[i] == old(plan)@[i],
{
}

/// What a change stands for shows what it is: the keys, texts, bytes and deadlines that it holds.
pub proof fn changes_are_what_they_show(command: CacheCommand)
    ensures
        match command {
            CacheCommand::Invalidate(key) => command@ == (CommandView::Invalidate { key: key@ }),
            CacheCommand::Insert(key, value) => command@ matches CommandView::Insert {
                key: its_key,
                stored,
            } && its_key == key@ && stored.bytes == value.1@ && same_instant(
                value.0,
                stored.expires_at,
            ),
            CacheCommand::InvalidateMatching(text) => command@ == (
            CommandView::InvalidateMatching { text: text@ }),
        },
{
}

/// Storing under a deadline drops what is stored under the key, then stores the value there with
/// that deadline, after all changes that were there before.
pub proof fn value_is_stored_until_its_deadline(
    plan: &mut CachePlan,
    key: String,
    value: Vec<u8>,
    ttl: Option<Timestamp>,
)
    requires
        call_ensures(
            <CachePlan as CacheExt<String, Vec<u8>>>::insert_with_ttl,
            (plan, key, value, ttl),
            (),
        ),
    ensures
        final(plan)@.len() == old(plan)@.len() + 2,
        forall|i: int| 0 <= i < old(plan)@.len() ==> final(plan)@[i] == old(plan)@[i],
        final(plan)@[old(plan)@.len() as int] == (CommandView::Invalidate { key: key@ }),
        final(plan)@.last() matches CommandView::Insert { key: stored_under, stored }
            && stored_under == key@ && stored.bytes == value@ && same_instant(
            ttl,
            stored.expires_at,
        ),
{
}

/// A caller begins the work where none is in flight for its key, and else joins what is; work is
/// in flight from when it was begun until it lands, and no event touches another key.
pub proof fn calls_share_work<H: Clone>(
    flights: &mut SingleFlight<H>,
    event: FlightEvent<H>,
    action: FlightAction<H>,
    other: Seq<char>,
)
    requires
        call_ensures(SingleFlight::<H>::do_call, (flights, event), action),
    ensures
        match event {
            FlightEvent::Arrived(key) => {
                &&& final(flights)@ == old(flights)@
                &&& action is Begin <==> !old(flights)@.dom().contains(key@)
                &&& action is Begin || (action matches FlightAction::Join(handle) && cloned(
                    old(flights)@[key@],
                    handle,
                ))
            },
            FlightEvent::Begun(key, handle) => {
                &&& final(flights)@.dom().contains(key@)
                &&& final(flights)@[key@] == handle
                &&& action is Await
                &&& other != key@ ==> (final(flights)@.dom().contains(other) <==> old(
                    flights,
                )@.dom().contains(other)) && final(flights)@[other] == old(flights)@[other]
            },
            FlightEvent::Landed(key) => {
                &&& !final(flights)@.dom().contains(key@)
                &&& action is Return
                &&& other != key@ ==> (final(flights)@.dom().contains(other) <==> old(
                    flights,
                )@.dom().contains(other))
                &&& other != key@ && old(flights)@.dom().contains(other) ==> final(flights)@[other]
                    == old(flights)@[other]
            },
        },
{
}

/// A setting that is given is taken as it is; where none is given there is a default.
pub proof fn given_settings_are_taken(
    port: Option<String>,
    location: Option<String>,
    settings: Settings,
)
    requires
        call_ensures(Settings::from_vars, (port, location), settings),
    ensures
        port matches Some(port) ==> settings.port@ == port@,
        port is None ==> settings.port@ == "8080"@,
        location matches Some(location) ==> settings.snapshot_path@ == location@,
        location is None ==> settings.snapshot_path@ == "cache-snapshot.rmp"@,
{
}

/// An error says what went wrong, and names the key that is missing.
pub proof fn errors_name_the_key(error: ApplicationError, message: String)
    requires
        call_ensures(ApplicationError::message, (&error,), message),
    ensures
        match error {
            ApplicationError::KeyNotFound(key) => message@ == "Key not found: "@ + key@,
            ApplicationError::Unknown => message@ == "Unknown error"@,
        },
{
}

/// Each endpoint is where it is documented to be.
pub proof fn endpoints_are_where_documented(endpoint: Endpoint, method: Method, path: &'static str)
    requires
        call_ensures(Endpoint::method, (endpoint,), method),
        call_ensures(Endpoint::path, (endpoint,), path),
    ensures
        match endpoint {
            Endpoint::LoadCacheEntries => method == Method::Get && path@ == "/cache"@,
            Endpoint::FindCacheByKey => method == Method::Get && path@ == "/cache/{key}"@,
            Endpoint::SaveCache => method == Method::Post && path@ == "/cache/{key}"@,
            Endpoint::DeleteCache => method == Method::Delete && path@ == "/cache/{key}"@,
            Endpoint::InvalidateByText => method == Method::Delete && path@
                == "/cache/patterns/{text}"@,
            Endpoint::HealthCheck => method == Method::Get && path@ == "/health-check"@,
        },
{
}

/// A value weighs its bytes, as far as a weight can count, and a megabyte has two to the twentieth.
pub proof fn weights_and_sizes(value: CacheValue, weight: u32, mb: u64, bytes: u64)
    requires
        mb * 1_048_576 <= u64::MAX,
        call_ensures(weigh, (&value,), weight),
        call_ensures(mb_to_bytes, (mb,), bytes),
    ensures
        weight <= value.1@.len(),
        weight < value.1@.len() ==> weight == u32::MAX,
        bytes == mb * 1_048_576,
{
}

} // verus!
