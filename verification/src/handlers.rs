//! What each request does to the cache, and what it is answered.
use crate::cache::{
    distinct_keys, entry_view, entry_views, instant_of, saving, CacheCommand, CacheExt, CachePlan,
    CacheValue, CommandView, EntryView,
};
use crate::codec::{
    decode_value, encode_value, encoder_failed, msgpack_decoding, msgpack_encoding, reads_back,
    CodecError,
};
use crate::error::ApplicationError;
use crate::expiry::{calculate_deadline, deadline_in_range, deadline_spec, DeadlineOutOfRange};
use crate::store::{entries_of, walked, SharedCache};
use crate::text::{begins_with, sentence, starts_with};
use crate::timestamp::{clock_showed, Timestamp, TimestampView};
use serde_json::Value;
use vstd::prelude::*;

verus! {

broadcast use crate::store::what_came_out_was_walked;

/// The status of an answer: it is as asked.
pub const OK: u16 = 200;

/// The status of an answer: there is no such thing.
pub const NOT_FOUND: u16 = 404;

/// The status of an answer: something went wrong here.
pub const INTERNAL_SERVER_ERROR: u16 = 500;

/// What a client asks to store: a value, and how many milliseconds it is to live.
#[derive(Debug)]
pub struct SetPayload {
    pub value: Value,
    pub ttl: Option<u64>,
}

/// One line of a listing: a key, and when what is stored under it expires.
#[derive(Debug)]
pub struct LoadCacheEntriesResult {
    pub key: String,
    pub ttl: Option<Timestamp>,
}

/// What a [`LoadCacheEntriesResult`] stands for.
pub struct ListedView {
    pub key: Seq<char>,
    pub ttl: Option<TimestampView>,
}

impl View for LoadCacheEntriesResult {
    type V = ListedView;

    open spec fn view(&self) -> ListedView {
        ListedView { key: self.key@, ttl: instant_of(self.ttl) }
    }
}

/// The body of an answer.
#[derive(Debug)]
pub enum ReplyBody {
    /// A message.
    Message { message: String },
    /// What went wrong.
    Failure { message: String, error_code: String },
    /// What is stored under a key.
    Entry { key: String, value: Value },
    /// A listing.
    Listing { count: usize, entries: Vec<LoadCacheEntriesResult> },
}

/// What a [`ReplyBody`] stands for.
pub enum ReplyBodyView {
    Message { message: Seq<char> },
    Failure { message: Seq<char>, error_code: Seq<char> },
    Entry { key: Seq<char>, value: Value },
    Listing { count: nat, entries: Seq<ListedView> },
}

impl View for ReplyBody {
    type V = ReplyBodyView;

    open spec fn view(&self) -> ReplyBodyView {
        match *self {
            ReplyBody::Message { message } => ReplyBodyView::Message { message: message@ },
            ReplyBody::Failure { message, error_code } => ReplyBodyView::Failure {
                message: message@,
                error_code: error_code@,
            },
            ReplyBody::Entry { key, value } => ReplyBodyView::Entry { key: key@, value },
            ReplyBody::Listing { count, entries } => ReplyBodyView::Listing {
                count: count as nat,
                entries: entries@.map_values(|entry: LoadCacheEntriesResult| entry@),
            },
        }
    }
}

/// An answer: its status and its body.
#[derive(Debug)]
pub struct Reply {
    pub status: u16,
    pub body: ReplyBody,
}

/// What a [`Reply`] stands for.
pub struct ReplyView {
    pub status: u16,
    pub body: ReplyBodyView,
}

impl View for Reply {
    type V = ReplyView;

    open spec fn view(&self) -> ReplyView {
        ReplyView { status: self.status, body: self.body@ }
    }
}

/// An answer that all is well, with a message.
pub open spec fn ok_message(message: Seq<char>) -> ReplyView {
    ReplyView { status: OK, body: ReplyBodyView::Message { message } }
}

/// An answer that something is wrong.
pub open spec fn failure(status: u16, message: Seq<char>, error_code: Seq<char>) -> ReplyView {
    ReplyView { status, body: ReplyBodyView::Failure { message, error_code } }
}

/// The answer to a lookup that found a value.
pub open spec fn found_reply(key: Seq<char>, value: Value) -> ReplyView {
    ReplyView { status: OK, body: ReplyBodyView::Entry { key, value } }
}

/// The answer to a lookup that found these bytes, where they are the encoding of a value.
pub open spec fn stored_reply(key: Seq<char>, bytes: Seq<u8>) -> Option<ReplyView> {
    match msgpack_decoding(bytes) {
        Some(value) => Some(found_reply(key, value)),
        None => None,
    }
}

/// The answer to a lookup that found nothing.
pub open spec fn not_found_reply() -> ReplyView {
    failure(NOT_FOUND, "Key not found"@, "KEY_NOT_FOUND"@)
}

/// The answer to a lookup that failed.
pub open spec fn lookup_failure(error: ApplicationError) -> ReplyView {
    match error {
        ApplicationError::KeyNotFound(_) => not_found_reply(),
        ApplicationError::Unknown => failure(
            INTERNAL_SERVER_ERROR,
            "Unknown error occurred"@,
            "UNKNOWN_ERROR"@,
        ),
    }
}

/// Whether an entry's key begins with the prefix.
pub open spec fn is_listed(entry: EntryView, prefix: Seq<char>) -> bool {
    begins_with(entry.key, prefix)
}

/// The line of a listing for an entry.
pub open spec fn listed(entry: EntryView) -> ListedView {
    ListedView { key: entry.key, ttl: entry.stored.expires_at }
}

/// The listing of the entries whose keys begin with the prefix, in their order.
pub open spec fn listing(entries: Seq<EntryView>, prefix: Seq<char>) -> Seq<ListedView> {
    entries.filter(|entry: EntryView| is_listed(entry, prefix)).map_values(
        |entry: EntryView| listed(entry),
    )
}

/// The answer to a request for a listing.
pub open spec fn listing_reply(lines: Seq<ListedView>) -> ReplyView {
    ReplyView { status: OK, body: ReplyBodyView::Listing { count: lines.len(), entries: lines } }
}

/// How `std::time::Duration` shows so many milliseconds in its `Debug` form.
pub uninterp spec fn duration_text(millis: u64) -> Seq<char>;

/// Formats a `std::time::Duration` of so many milliseconds in its `Debug` form.
///
/// Claimed: the text depends on the number alone. Which text it is, the documentation of the
/// standard library leaves open.
#[verifier::external_body]
fn format_millis(millis: u64) -> (text: String)
    ensures
        text@ == duration_text(millis),
{
    format!("{:?}", std::time::Duration::from_millis(millis))
}

/// How a time to live is shown, where there is one.
pub open spec fn ttl_text(ttl: Option<u64>) -> Option<Seq<char>> {
    match ttl {
        Some(millis) => Some(duration_text(millis)),
        None => None,
    }
}

/// What a client is told once a value was stored to live as long as the text shows.
pub open spec fn saved_message(key: Seq<char>, text: Option<Seq<char>>) -> Seq<char> {
    match text {
        Some(text) => "Key "@ + key + " set successfully with TTL "@ + text,
        None => "Key "@ + key + " set successfully with no expiration"@,
    }
}

/// Why a value could not be stored.
#[derive(Debug, Clone, Copy, PartialEq, Eq, Structural)]
pub enum SaveError {
    /// The value could not be encoded.
    Value(CodecError),
    /// It would live beyond the last instant of the calendar.
    Deadline(DeadlineOutOfRange),
}

/// An answer that all is well, with a message.
fn ok_with(message: String) -> (reply: Reply)
    ensures
        reply@ == ok_message(message@),
{
    Reply { status: OK, body: ReplyBody::Message { message } }
}

/// An answer that something is wrong.
fn failed_with(status: u16, message: String, error_code: &str) -> (reply: Reply)
    ensures
        reply@ == failure(status, message@, error_code@),
{
    Reply { status, body: ReplyBody::Failure { message, error_code: error_code.to_owned() } }
}

/// One more entry adds its line to a listing where its key begins with the prefix, and nothing
/// else.
proof fn listing_push(entries: Seq<EntryView>, entry: EntryView, prefix: Seq<char>)
    ensures
        listing(entries.push(entry), prefix) == if is_listed(entry, prefix) {
            listing(entries, prefix).push(listed(entry))
        } else {
            listing(entries, prefix)
        },
{
    reveal(Seq::filter);
    assert(entries.push(entry).drop_last() =~= entries);
    assert(listing(entries.push(entry), prefix) =~= if is_listed(entry, prefix) {
        listing(entries, prefix).push(listed(entry))
    } else {
        listing(entries, prefix)
    });
}

/// The listing of the entries whose keys begin with the prefix.
pub fn list_entries(entries: Vec<(String, CacheValue)>, prefix: &str) -> (reply: Reply)
    ensures
        reply@ == listing_reply(listing(entry_views(entries@), prefix@)),
{
    let ghost views = entry_views(entries@);
    let mut lines: Vec<LoadCacheEntriesResult> = Vec::new();
    assert(listing(views.take(0), prefix@) =~= Seq::<ListedView>::empty()) by {
        reveal(Seq::filter);
    }
    let ghost line_view = |line: LoadCacheEntriesResult| line@;
    assert(lines@.map_values(line_view) =~= Seq::<ListedView>::empty());
    for entry in rows: entries.into_iter()
        invariant
            views == entry_views(rows.seq()),
            line_view == (|line: LoadCacheEntriesResult| line@),
            lines@.map_values(line_view) == listing(views.take(rows.index()), prefix@),
    {
        let ghost before = lines@.map_values(line_view);
        proof {
            let next = views[rows.index() as int];
            assert(next == entry_view(entry));
            assert(views.take(rows.index() + 1) =~= views.take(rows.index()).push(next));
            listing_push(views.take(rows.index()), next, prefix@);
        }
        let (key, (ttl, _)) = entry;
        if starts_with(key.as_str(), prefix) {
            let line = LoadCacheEntriesResult { key, ttl };
            lines.push(line);
            assert(lines@.map_values(line_view) =~= before.push(line@));
        }
    }
    assert(views.take(views.len() as int) =~= views);
    let count: usize = lines.len();
    Reply { status: OK, body: ReplyBody::Listing { count, entries: lines } }
}

/// Whether no two lines of a listing show the same key.
pub open spec fn distinct_lines(lines: Seq<ListedView>) -> bool {
    forall|i: int, j: int|
        0 <= i < j < lines.len() ==> #[trigger] lines[i].key != #[trigger] lines[j].key
}

/// A listing of entries with different keys shows different keys, all of them keys of entries.
pub proof fn listing_keeps_keys_apart(entries: Seq<EntryView>, prefix: Seq<char>)
    requires
        distinct_keys(entries),
    ensures
        distinct_lines(listing(entries, prefix)),
        forall|k: int|
            0 <= k < listing(entries, prefix).len() ==> exists|i: int|
                0 <= i < entries.len() && #[trigger] entries[i].key == (#[trigger] listing(
                    entries,
                    prefix,
                )[k]).key,
    decreases entries.len(),
{
    let lines = listing(entries, prefix);
    if entries.len() == 0 {
        reveal(Seq::filter);
    } else {
        let before = entries.drop_last();
        let last = entries.last();
        assert(entries =~= before.push(last));
        assert forall|i: int, j: int| 0 <= i < j < before.len() implies #[trigger] before[i].key
            != #[trigger] before[j].key by {
            assert(entries[i].key != entries[j].key);
        }
        listing_keeps_keys_apart(before, prefix);
        listing_push(before, last, prefix);
        let earlier = listing(before, prefix);
        assert forall|k: int| 0 <= k < lines.len() implies exists|i: int|
            0 <= i < entries.len() && #[trigger] entries[i].key == (#[trigger] lines[k]).key by {
            if k < earlier.len() {
                assert(lines[k] == earlier[k]);
                let i = choose|i: int|
                    0 <= i < before.len() && #[trigger] before[i].key == earlier[k].key;
                assert(entries[i].key == lines[k].key);
            } else {
                assert(entries[entries.len() - 1].key == lines[k].key);
            }
        }
        assert forall|j: int, k: int| 0 <= j < k < lines.len() implies #[trigger] lines[j].key
            != #[trigger] lines[k].key by {
            assert(lines[j] == earlier[j]);
            let i = choose|i: int|
                0 <= i < before.len() && #[trigger] before[i].key == earlier[j].key;
            if k < earlier.len() {
                assert(lines[k] == earlier[k]);
            } else {
                assert(entries[i].key != entries[entries.len() - 1].key);
            }
        }
    }
}

/// Answers a request for a listing of the keys that begin with the prefix, each key once.
pub fn load_cache_entries(cache: &SharedCache, prefix: &str) -> (reply: Reply)
    ensures
        exists|rows: Seq<(String, CacheValue)>|
            {
                &&& #[trigger] walked(*cache, rows)
                &&& distinct_keys(entry_views(rows))
                &&& distinct_lines(listing(entry_views(rows), prefix@))
                &&& reply@ == listing_reply(listing(entry_views(rows), prefix@))
            },
{
    let entries = entries_of(cache);
    proof {
        listing_keeps_keys_apart(entry_views(entries@), prefix@);
    }
    list_entries(entries, prefix)
}

/// What a lookup of the key gives, from what the cache shows there.
pub fn fetched(key: String, found: Option<CacheValue>) -> (fetched: Result<
    Vec<u8>,
    ApplicationError,
>)
    ensures
        match found {
            Some(value) => fetched == Ok::<Vec<u8>, ApplicationError>(value.1),
            None => fetched == Err::<Vec<u8>, ApplicationError>(ApplicationError::KeyNotFound(key)),
        },
{
    match found {
        Some((_, bytes)) => Ok(bytes),
        None => Err(ApplicationError::KeyNotFound(key)),
    }
}

/// Answers a lookup that found a value.
pub fn found(key: String, value: Value) -> (reply: Reply)
    ensures
        reply@ == found_reply(key@, value),
{
    Reply { status: OK, body: ReplyBody::Entry { key, value } }
}

/// Answers a lookup, from what it gave. There is no answer where the bytes that it gave are not
/// the encoding of a value.
pub fn find_cache_by_key(key: String, fetched: Result<Vec<u8>, ApplicationError>) -> (reply: Result<
    Reply,
    CodecError,
>)
    ensures
        match fetched {
            Ok(bytes) => match stored_reply(key@, bytes@) {
                Some(owed) => reply matches Ok(reply) && reply@ == owed,
                None => reply matches Err(error) && error == CodecError::Decode,
            },
            Err(error) => reply matches Ok(reply) && reply@ == lookup_failure(error),
        },
{
    match fetched {
        Ok(bytes) => match decode_value(&bytes) {
            Ok(value) => Ok(found(key, value)),
            Err(error) => Err(error),
        },
        Err(ApplicationError::KeyNotFound(_)) => Ok(
            failed_with(NOT_FOUND, "Key not found".to_owned(), "KEY_NOT_FOUND"),
        ),
        Err(ApplicationError::Unknown) => Ok(
            failed_with(
                INTERNAL_SERVER_ERROR,
                "Unknown error occurred".to_owned(),
                "UNKNOWN_ERROR",
            ),
        ),
    }
}

/// Answers a request to store a value under the key, to live as long as the text shows.
pub fn saved_reply(key: &str, text: Option<String>) -> (reply: Reply)
    ensures
        reply@ == ok_message(
            saved_message(
                key@,
                match text {
                    Some(text) => Some(text@),
                    None => None,
                },
            ),
        ),
{
    match text {
        Some(text) => ok_with(
            sentence("Key ", key, " set successfully with TTL ").concat(text.as_str()),
        ),
        None => ok_with(sentence("Key ", key, " set successfully with no expiration")),
    }
}

/// Stores encoded bytes under the key until the deadline, and answers the request to store them
/// for `ttl` milliseconds.
pub fn save_bytes(
    key: String,
    bytes: Vec<u8>,
    deadline: Option<Timestamp>,
    ttl: Option<u64>,
) -> (done: (CachePlan, Reply))
    ensures
        done.0@ == saving(key@, bytes@, instant_of(deadline), ttl),
        done.1@ == ok_message(saved_message(key@, ttl_text(ttl))),
{
    let text = match ttl {
        Some(millis) => Some(format_millis(millis)),
        None => None,
    };
    let reply = saved_reply(key.as_str(), text);
    let mut plan = CachePlan::new();
    match ttl {
        Some(0) => plan.push(CacheCommand::Invalidate(key)),
        _ => plan.insert_with_ttl(key, bytes, deadline),
    }
    assert(plan@ =~= saving(key@, bytes@, instant_of(deadline), ttl));
    (plan, reply)
}

/// Whether `done` is what is owed to a client that asks, at `now`, to store the payload, once its
/// value was encoded.
pub open spec fn is_saved(
    done: Result<(CachePlan, Reply), SaveError>,
    key: Seq<char>,
    payload: SetPayload,
    now: TimestampView,
) -> bool {
    if deadline_in_range(now, payload.ttl) {
        done matches Ok((plan, reply)) && plan@ == saving(
            key,
            msgpack_encoding(payload.value),
            deadline_spec(now, payload.ttl),
            payload.ttl,
        ) && reply@ == ok_message(saved_message(key, ttl_text(payload.ttl)))
    } else {
        done matches Err(SaveError::Deadline(_))
    }
}

/// Stores a value under the key for as long as it is to live, and answers the request.
pub fn save_cache(key: String, payload: SetPayload) -> (done: Result<
    (CachePlan, Reply),
    SaveError,
>)
    ensures
        match done {
            Err(SaveError::Value(error)) => error == CodecError::Encode && encoder_failed(
                payload.value,
            ),
            _ => exists|now: TimestampView|
                clock_showed(now) && now.is_clock_reading() && #[trigger] is_saved(
                    done,
                    key@,
                    payload,
                    now,
                ),
        },
        done is Ok ==> reads_back(msgpack_encoding(payload.value), payload.value),
{
    let bytes = match encode_value(&payload.value) {
        Ok(bytes) => bytes,
        Err(error) => {
            return Err(SaveError::Value(error));
        },
    };
    let ttl = payload.ttl;
    let deadline = calculate_deadline(ttl);
    let ghost now = choose|now: TimestampView|
        clock_showed(now) && now.is_clock_reading() && match deadline {
            Ok(deadline) => deadline_in_range(now, ttl) && instant_of(deadline)
                == #[trigger] deadline_spec(now, ttl),
            Err(_) => !deadline_in_range(now, ttl),
        };
    let done = match deadline {
        Ok(deadline) => Ok(save_bytes(key, bytes, deadline, ttl)),
        Err(error) => Err(SaveError::Deadline(error)),
    };
    assert(is_saved(done, key@, payload, now));
    done
}

/// Drops what is stored under the key, and answers the request.
pub fn delete_cache(key: String) -> (done: (CachePlan, Reply))
    ensures
        done.0@ == seq![CommandView::Invalidate { key: key@ }],
        done.1@ == ok_message("Cache key "@ + key@ + " deleted."@),
{
    let message = sentence("Cache key ", key.as_str(), " deleted.");
    let mut plan = CachePlan::new();
    plan.push(CacheCommand::Invalidate(key));
    assert(plan@ =~= seq![CommandView::Invalidate { key: key@ }]);
    (plan, ok_with(message))
}

/// Drops what is stored under every key that holds the text, and answers the request.
pub fn invalidate_by_text(text: String) -> (done: (CachePlan, Reply))
    ensures
        done.0@ == seq![CommandView::InvalidateMatching { text: text@ }],
        done.1@ == ok_message("Cache keys invalidated"@),
{
    let mut plan = CachePlan::new();
    plan.push(CacheCommand::InvalidateMatching(text));
    assert(plan@ =~= seq![CommandView::InvalidateMatching { text: text@ }]);
    (plan, ok_with("Cache keys invalidated".to_owned()))
}

/// Answers whether the service is up.
pub fn health_check() -> (reply: Reply)
    ensures
        reply@ == ok_message("ok"@),
{
    ok_with("ok".to_owned())
}

/// Answers a request that no endpoint serves.
pub fn fallback(uri: &str) -> (reply: Reply)
    ensures
        reply@ == failure(NOT_FOUND, "No route for "@ + uri@, "ROUTE_NOT_FOUND"@),
{
    failed_with(NOT_FOUND, "No route for ".to_owned().concat(uri), "ROUTE_NOT_FOUND")
}

} // verus!
