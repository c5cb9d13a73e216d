//! The cache on disk: what goes into a snapshot and what comes back out of one.
use crate::cache::{
    distinct_keys, entry_view, entry_views, CacheCommand, CachePlan, CacheValue, CommandView, EntryView,
};
use crate::expiry::{is_live, live_at};
use crate::store::{entries_of, walked, SharedCache};
use crate::timestamp::{clock_showed, Timestamp, TimestampView};
use vstd::prelude::*;

verus! {

broadcast use crate::store::what_came_out_was_walked;

/// The bytes that `rmp_serde::encode::to_vec` writes for a list of entries.
pub uninterp spec fn snapshot_encoding(entries: Seq<EntryView>) -> Seq<u8>;

/// The list of entries that `rmp_serde::decode::from_slice` reads from bytes, where it reads one.
pub uninterp spec fn snapshot_decoding(data: Seq<u8>) -> Option<Seq<EntryView>>;

/// Why a snapshot could not be written or read.
#[derive(Debug, Clone, Copy, PartialEq, Eq, Structural)]
pub enum SnapshotError {
    /// There are more entries, or a longer key or value, than the format can count.
    TooLarge,
    /// The entries could not be encoded: memory ran out.
    Encode,
    /// The data is not a snapshot.
    Decode,
}

/// Whether the format can count the bytes of an entry's key and of its value.
pub open spec fn entry_fits(entry: EntryView) -> bool {
    &&& vstd::utf8::encode_utf8(entry.key).len() <= u32::MAX
    &&& entry.stored.bytes.len() <= u32::MAX
}

/// Whether the format can count the entries, and the bytes of each key and value.
pub open spec fn snapshot_fits(entries: Seq<EntryView>) -> bool {
    &&& entries.len() <= u32::MAX
    &&& forall|i: int| 0 <= i < entries.len() ==> #[trigger] entry_fits(entries[i])
}

/// Calls `rmp_serde::encode::to_vec` on the entries, each deadline as a `chrono::DateTime`.
///
/// Claimed: what is written depends on the entries alone, and `rmp_serde::decode::from_slice`
/// reads the same entries back from it, in the same order. Whether the call fails depends on the
/// memory that can be had, so nothing is said of that.
#[verifier::external_body]
fn encode_entries(entries: &Vec<(String, CacheValue)>) -> (encoded: Result<
    Vec<u8>,
    rmp_serde::encode::Error,
>)
    requires
        snapshot_fits(entry_views(entries@)),
    ensures
        encoded matches Ok(data) ==> data@ == snapshot_encoding(entry_views(entries@)),
        encoded matches Ok(data) ==> snapshot_decoding(data@) == Some(entry_views(entries@)),
{
    let rows: Vec<_> = entries.iter().map(|(key, (expires_at, bytes))| {
        let expires_at = expires_at.map(|at| {
            chrono::DateTime::<chrono::Utc>::from_timestamp(at.secs(), at.nanos()).unwrap()
        });
        (key, (expires_at, bytes))
    }).collect();
    rmp_serde::encode::to_vec(&rows)
}

/// Whether the encoder was called on entries that stand for these and failed.
pub closed spec fn encoder_failed_on(entries: Seq<EntryView>) -> bool {
    exists|rows: Vec<(String, CacheValue)>, error: rmp_serde::encode::Error| #[trigger]
        call_ensures(
            encode_entries,
            (&rows,),
            Err::<Vec<u8>, rmp_serde::encode::Error>(error),
        ) && entry_views(rows@) == entries
}

/// Where the encoder failed on entries, a call of it on them gave an error.
proof fn encoder_failed_in_a_call(entries: Seq<EntryView>) -> (failed: (
    Vec<(String, CacheValue)>,
    rmp_serde::encode::Error,
))
    requires
        encoder_failed_on(entries),
    ensures
        entry_views(failed.0@) == entries,
        call_ensures(
            encode_entries,
            (&failed.0,),
            Err::<Vec<u8>, rmp_serde::encode::Error>(failed.1),
        ),
{
    choose|rows: Vec<(String, CacheValue)>, error: rmp_serde::encode::Error| #[trigger]
        call_ensures(
            encode_entries,
            (&rows,),
            Err::<Vec<u8>, rmp_serde::encode::Error>(error),
        ) && entry_views(rows@) == entries
}

/// Calls `rmp_serde::decode::from_slice` for a list of entries, each deadline a
/// `chrono::DateTime`.
///
/// Claimed: whether entries are read, and which, depends on the data alone.
#[verifier::external_body]
fn decode_entries(data: &[u8]) -> (decoded: Result<
    Vec<(String, CacheValue)>,
    rmp_serde::decode::Error,
>)
    ensures
        match decoded {
            Ok(entries) => snapshot_decoding(data@) == Some(entry_views(entries@)),
            Err(_) => snapshot_decoding(data@) is None,
        },
{
    let rows: Vec<(String, (Option<chrono::DateTime<chrono::Utc>>, Vec<u8>))> =
        rmp_serde::decode::from_slice(data)?;
    Ok(rows.into_iter().map(|(key, (expires_at, bytes))| {
        let expires_at = expires_at.map(|at| {
            Timestamp::new(at.timestamp(), at.timestamp_subsec_nanos()).unwrap()
        });
        (key, (expires_at, bytes))
    }).collect())
}

/// Whether the format can count the entries, and the bytes of each key and value.
fn fits(entries: &Vec<(String, CacheValue)>) -> (fits: bool)
    ensures
        fits == snapshot_fits(entry_views(entries@)),
{
    let max: u64 = u32::MAX as u64;
    if entries.len() as u64 > max {
        return false;
    }
    for i in 0..entries.len()
        invariant
            max == u32::MAX,
            forall|j: int| 0 <= j < i ==> #[trigger] entry_fits(entry_views(entries@)[j]),
    {
        let entry = &entries[i];
        assert(entry_views(entries@)[i as int] == entry_view(*entry));
        if entry.0.as_str().as_bytes().len() as u64 > max || entry.1.1.len() as u64 > max {
            assert(!entry_fits(entry_views(entries@)[i as int]));
            return false;
        }
    }
    true
}

/// The snapshot of these entries.
pub fn encode_snapshot(entries: &Vec<(String, CacheValue)>) -> (snapshot: Result<
    Vec<u8>,
    SnapshotError,
>)
    ensures
        match snapshot {
            Ok(data) => {
                &&& snapshot_fits(entry_views(entries@))
                &&& data@ == snapshot_encoding(entry_views(entries@))
                &&& snapshot_decoding(data@) == Some(entry_views(entries@))
            },
            Err(SnapshotError::TooLarge) => !snapshot_fits(entry_views(entries@)),
            Err(error) => error == SnapshotError::Encode && snapshot_fits(entry_views(entries@))
                && encoder_failed_on(entry_views(entries@)),
        },
{
    if !fits(entries) {
        return Err(SnapshotError::TooLarge);
    }
    match encode_entries(entries) {
        Ok(data) => Ok(data),
        Err(_) => Err(SnapshotError::Encode),
    }
}

/// The snapshot of all that the cache shows, each key once.
pub fn save_cache_snapshot(cache: &SharedCache) -> (snapshot: Result<Vec<u8>, SnapshotError>)
    ensures
        match snapshot {
            Ok(data) => snapshot_decoding(data@) matches Some(entries) && distinct_keys(entries)
                && snapshot_fits(entries) && data@ == snapshot_encoding(entries),
            Err(error) => error != SnapshotError::Decode,
        },
        exists|rows: Seq<(String, CacheValue)>| #[trigger]
            walked(*cache, rows) && match snapshot {
                Ok(data) => snapshot_decoding(data@) == Some(entry_views(rows)),
                Err(SnapshotError::TooLarge) => !snapshot_fits(entry_views(rows)),
                Err(_) => snapshot_fits(entry_views(rows)) && encoder_failed_on(entry_views(rows)),
            },
{
    let entries = entries_of(cache);
    encode_snapshot(&entries)
}

/// The entries of a snapshot that are still to be had at `now`, in its order.
pub open spec fn live_entries(entries: Seq<EntryView>, now: TimestampView) -> Seq<EntryView> {
    entries.filter(|entry: EntryView| is_live(entry.stored.expires_at, now))
}

/// The change that stores an entry as it is.
pub open spec fn restoring(entry: EntryView) -> CommandView {
    CommandView::Insert { key: entry.key, stored: entry.stored }
}

/// The changes that bring back what a snapshot holds and is still to be had at `now`.
pub open spec fn restore_plan(entries: Seq<EntryView>, now: TimestampView) -> Seq<CommandView> {
    live_entries(entries, now).map_values(|entry: EntryView| restoring(entry))
}

/// Whether `plan` is what is owed for this snapshot at `now`: nothing where there is no snapshot,
/// and a refusal where the data is none.
pub open spec fn is_restoration(
    plan: Result<CachePlan, SnapshotError>,
    data: Option<Seq<u8>>,
    now: TimestampView,
) -> bool {
    match data {
        Some(data) => match snapshot_decoding(data) {
            Some(entries) => plan matches Ok(plan) && plan@ == restore_plan(entries, now),
            None => plan matches Err(error) && error == SnapshotError::Decode,
        },
        None => plan matches Ok(plan) && plan@ == Seq::<CommandView>::empty(),
    }
}

/// The bytes of a snapshot that could be read, if any could.
pub open spec fn bytes_of(data: Option<Vec<u8>>) -> Option<Seq<u8>> {
    match data {
        Some(data) => Some(data@),
        None => None,
    }
}

/// One more entry in a snapshot adds its change where it is still to be had, and nothing else.
pub proof fn restore_plan_push(entries: Seq<EntryView>, entry: EntryView, now: TimestampView)
    ensures
        restore_plan(entries.push(entry), now) == if is_live(entry.stored.expires_at, now) {
            restore_plan(entries, now).push(restoring(entry))
        } else {
            restore_plan(entries, now)
        },
{
    reveal(Seq::filter);
    assert(entries.push(entry).drop_last() =~= entries);
    assert(restore_plan(entries.push(entry), now) =~= if is_live(entry.stored.expires_at, now) {
        restore_plan(entries, now).push(restoring(entry))
    } else {
        restore_plan(entries, now)
    });
}

/// The changes that bring back the entries that are still to be had at `now`.
pub fn restore_entries(entries: Vec<(String, CacheValue)>, now: &Timestamp) -> (plan: CachePlan)
    ensures
        plan@ == restore_plan(entry_views(entries@), now@),
{
    let ghost views = entry_views(entries@);
    let mut plan = CachePlan::new();
    assert(restore_plan(views.take(0), now@) =~= Seq::<CommandView>::empty()) by {
        reveal(Seq::filter);
    }
    for entry in rows: entries.into_iter()
        invariant
            views == entry_views(rows.seq()),
            plan@ == restore_plan(views.take(rows.index()), now@),
    {
        proof {
            let next = views[rows.index() as int];
            assert(next == entry_view(entry));
            assert(views.take(rows.index() + 1) =~= views.take(rows.index()).push(next));
            restore_plan_push(views.take(rows.index()), next, now@);
        }
        let (key, value) = entry;
        if live_at(&value.0, now) {
            plan.push(CacheCommand::Insert(key, value));
        }
    }
    assert(views.take(views.len() as int) =~= views);
    plan
}

/// The changes that bring back, at `now`, what a snapshot holds.
pub fn restore_snapshot(data: &Option<Vec<u8>>, now: &Timestamp) -> (plan: Result<
    CachePlan,
    SnapshotError,
>)
    ensures
        is_restoration(plan, bytes_of(*data), now@),
{
    match data {
        Some(data) => match decode_entries(data) {
            Ok(entries) => Ok(restore_entries(entries, now)),
            Err(_) => Err(SnapshotError::Decode),
        },
        None => Ok(CachePlan::new()),
    }
}

/// The changes that bring back what a snapshot holds, if one could be read.
pub fn load_cache_snapshot(data: &Option<Vec<u8>>) -> (plan: Result<CachePlan, SnapshotError>)
    ensures
        exists|now: TimestampView|
            clock_showed(now) && now.is_clock_reading() && #[trigger] is_restoration(
                plan,
                bytes_of(*data),
                now,
            ),
{
    let now = Timestamp::now();
    restore_snapshot(data, &now)
}

} // verus!
