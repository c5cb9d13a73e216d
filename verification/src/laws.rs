//! What the service as a whole promises.
use crate::cache::{
    after_command, after_plan, distinct_keys, insertion, saving, CachePlan, CommandView, EntryView,
    Held, StoredView,
};
use crate::codec::{
    base64_bytes, msgpack_decoding, msgpack_encoding, reads_back, NESTING_LIMIT,
};
use crate::expiry::{deadline_in_range, deadline_spec, is_lifetime_left, is_live, nanos_left};
use crate::handlers::{
    found_reply, is_listed, listed, listing, not_found_reply, stored_reply, ListedView, ReplyView,
    NOT_FOUND, OK,
};
use crate::msgpack::{free_of_marker, nesting};
use crate::snapshot::{
    is_restoration, restore_plan, restore_plan_push, restoring, snapshot_decoding, SnapshotError,
};
use crate::text::{begins_with, occurs_in, prefix_occurs};
use crate::timestamp::{elapsed, instant_at, Lifetime, TimestampView};
use serde_json::Value;
use vstd::prelude::*;

verus! {

/// What a lookup of the key is answered when the cache holds this: nothing where the bytes that
/// are stored there are not the encoding of a value.
pub open spec fn answer(held: Held, key: Seq<char>) -> Option<ReplyView> {
    if held.contains_key(key) {
        stored_reply(key, held[key].bytes)
    } else {
        Some(not_found_reply())
    }
}

/// What the cache holds after two changes.
proof fn after_two(one: CommandView, other: CommandView, held: Held)
    ensures
        after_plan(seq![one, other], held) == after_command(other, after_command(one, held)),
{
    reveal_with_fuel(after_plan, 3);
    assert(seq![one, other].drop_last() =~= seq![one]);
    assert(seq![one].drop_last() =~= Seq::<CommandView>::empty());
}

/// What the cache holds after one change.
proof fn after_one(command: CommandView, held: Held)
    ensures
        after_plan(seq![command], held) == after_command(command, held),
{
    reveal_with_fuel(after_plan, 2);
    assert(seq![command].drop_last() =~= Seq::<CommandView>::empty());
}

/// What the cache holds after a value was stored.
proof fn after_insertion(held: Held, key: Seq<char>, bytes: Seq<u8>, ttl: Option<TimestampView>)
    ensures
        after_plan(insertion(key, bytes, ttl), held) == held.insert(
            key,
            StoredView { expires_at: ttl, bytes },
        ),
{
    let stored = StoredView { expires_at: ttl, bytes };
    after_two(CommandView::Invalidate { key }, CommandView::Insert { key, stored }, held);
    assert(held.remove(key).insert(key, stored) =~= held.insert(key, stored));
}

/// What the cache holds after a value was saved.
proof fn after_saving(
    held: Held,
    key: Seq<char>,
    bytes: Seq<u8>,
    deadline: Option<TimestampView>,
    ttl: Option<u64>,
)
    ensures
        after_plan(saving(key, bytes, deadline, ttl), held) == if ttl == Some(0u64) {
            held.remove(key)
        } else {
            held.insert(key, StoredView { expires_at: deadline, bytes })
        },
{
    after_insertion(held, key, bytes, deadline);
    after_one(CommandView::Invalidate { key }, held);
}

/// A lookup after a value was saved gives that value, wherever it nests no deeper than can be
/// read, and has no answer where it does.
///
/// Left out are values that are to live for no time at all, encodings with more bytes than 32 bits
/// can count, and maps that begin with the key that `serde_json` keeps for its own use. That the
/// encoding can be read back is what saving the value ensures.
pub proof fn saved_value_is_read_back(
    held: Held,
    key: Seq<char>,
    value: Value,
    deadline: Option<TimestampView>,
    ttl: Option<u64>,
)
    requires
        ttl != Some(0u64),
        reads_back(msgpack_encoding(value), value),
        msgpack_encoding(value).len() <= u32::MAX,
        free_of_marker(msgpack_encoding(value)),
    ensures
        answer(after_plan(saving(key, msgpack_encoding(value), deadline, ttl), held), key)
            == if nesting(msgpack_encoding(value)) < NESTING_LIMIT {
            Some(found_reply(key, value))
        } else {
            None
        },
{
    after_saving(held, key, msgpack_encoding(value), deadline, ttl);
}

/// A value that is saved replaces what was stored under its key before, its deadline with it.
pub proof fn last_save_wins(
    held: Held,
    key: Seq<char>,
    first: Seq<u8>,
    first_deadline: Option<TimestampView>,
    first_ttl: Option<u64>,
    second: Seq<u8>,
    second_deadline: Option<TimestampView>,
    second_ttl: Option<u64>,
)
    ensures
        ({
            let last = saving(key, second, second_deadline, second_ttl);
            let between = after_plan(saving(key, first, first_deadline, first_ttl), held);
            &&& after_plan(last, between) == after_plan(last, held)
            &&& second_ttl == Some(0u64) ==> !after_plan(last, held).contains_key(key)
            &&& second_ttl != Some(0u64) ==> after_plan(last, held).contains_key(key)
            &&& second_ttl != Some(0u64) ==> after_plan(last, held)[key] == (StoredView {
                expires_at: second_deadline,
                bytes: second,
            })
        }),
{
    after_saving(held, key, first, first_deadline, first_ttl);
    let between = after_plan(saving(key, first, first_deadline, first_ttl), held);
    after_saving(between, key, second, second_deadline, second_ttl);
    after_saving(held, key, second, second_deadline, second_ttl);
    let last = saving(key, second, second_deadline, second_ttl);
    assert(after_plan(last, between) =~= after_plan(last, held));
}

/// Saving a value leaves what is stored under other keys as it is.
pub proof fn save_keeps_other_keys(
    held: Held,
    key: Seq<char>,
    bytes: Seq<u8>,
    deadline: Option<TimestampView>,
    ttl: Option<u64>,
    other: Seq<char>,
)
    requires
        other != key,
    ensures
        answer(after_plan(saving(key, bytes, deadline, ttl), held), other) == answer(held, other),
{
    after_saving(held, key, bytes, deadline, ttl);
}

/// A key that was deleted is not found, and every other is answered as before.
pub proof fn deleted_key_is_not_found(held: Held, key: Seq<char>, other: Seq<char>)
    requires
        other != key,
    ensures
        ({
            let left = after_plan(seq![CommandView::Invalidate { key }], held);
            &&& answer(left, key) == Some(not_found_reply())
            &&& answer(left, other) == answer(held, other)
        }),
{
    after_one(CommandView::Invalidate { key }, held);
}

/// Invalidation by a text drops exactly what is stored under keys that hold the text.
pub proof fn invalidation_drops_matching_keys(held: Held, text: Seq<char>, key: Seq<char>)
    ensures
        ({
            let left = after_plan(seq![CommandView::InvalidateMatching { text }], held);
            if occurs_in(text, key) {
                answer(left, key) == Some(not_found_reply())
            } else {
                answer(left, key) == answer(held, key)
            }
        }),
{
    after_one(CommandView::InvalidateMatching { text }, held);
}

/// Whatever a listing under a prefix shows is gone after invalidation by that prefix.
pub proof fn listed_keys_can_be_invalidated(held: Held, entry: EntryView, prefix: Seq<char>)
    requires
        is_listed(entry, prefix),
    ensures
        answer(
            after_plan(seq![CommandView::InvalidateMatching { text: prefix }], held),
            entry.key,
        ) == Some(not_found_reply()),
{
    prefix_occurs(entry.key, prefix);
    invalidation_drops_matching_keys(held, prefix, entry.key);
}

/// A lookup that is answered says that all is well exactly where something is stored.
pub proof fn lookup_status_tells_presence(held: Held, key: Seq<char>)
    requires
        answer(held, key) is Some,
    ensures
        held.contains_key(key) ==> answer(held, key)->0.status == OK,
        !held.contains_key(key) ==> answer(held, key)->0.status == NOT_FOUND,
{
}

/// A listing shows exactly the entries whose keys begin with the prefix.
pub proof fn listing_shows_keys_with_prefix(
    entries: Seq<EntryView>,
    prefix: Seq<char>,
    line: ListedView,
)
    ensures
        listing(entries, prefix).contains(line) <==> exists|i: int|
            0 <= i < entries.len() && #[trigger] is_listed(entries[i], prefix) && listed(entries[i])
                == line,
{
    let wanted = |entry: EntryView| is_listed(entry, prefix);
    let kept = entries.filter(wanted);
    broadcast use vstd::seq_lib::group_filter_ensures;

    if listing(entries, prefix).contains(line) {
        let k = choose|k: int| 0 <= k < kept.len() && listing(entries, prefix)[k] == line;
        assert(kept.contains(kept[k]) && wanted(kept[k]));
        entries.lemma_filter_contains_rev(wanted, kept[k]);
        let i = choose|i: int| 0 <= i < entries.len() && entries[i] == kept[k];
        assert(is_listed(entries[i], prefix));
    }
    if exists|i: int|
        0 <= i < entries.len() && #[trigger] is_listed(entries[i], prefix) && listed(entries[i])
            == line {
        let i = choose|i: int|
            0 <= i < entries.len() && #[trigger] is_listed(entries[i], prefix) && listed(entries[i])
                == line;
        assert(wanted(entries[i]));
        assert(kept.contains(entries[i]));
        let k = choose|k: int| 0 <= k < kept.len() && kept[k] == entries[i];
        assert(listing(entries, prefix)[k] == line);
    }
}

/// The empty prefix lists everything.
pub proof fn empty_prefix_lists_everything(entries: Seq<EntryView>)
    ensures
        listing(entries, Seq::empty()) == entries.map_values(|entry: EntryView| listed(entry)),
    decreases entries.len(),
{
    reveal(Seq::filter);
    let lines = |entry: EntryView| listed(entry);
    if entries.len() > 0 {
        empty_prefix_lists_everything(entries.drop_last());
        let last = entries.last();
        assert(last.key.subrange(0, 0) =~= Seq::<char>::empty());
        assert(is_listed(last, Seq::empty()));
        assert(entries =~= entries.drop_last().push(last));
        assert(listing(entries, Seq::empty()) =~= listing(
            entries.drop_last(),
            Seq::empty(),
        ).push(listed(last)));
        assert(entries.map_values(lines) =~= entries.drop_last().map_values(lines).push(
            listed(last),
        ));
    } else {
        assert(listing(entries, Seq::empty()) =~= entries.map_values(lines));
    }
}

/// What a longer prefix lists, a shorter one lists too.
pub proof fn shorter_prefix_lists_more(
    entries: Seq<EntryView>,
    shorter: Seq<char>,
    longer: Seq<char>,
    line: ListedView,
)
    requires
        begins_with(longer, shorter),
        listing(entries, longer).contains(line),
    ensures
        listing(entries, shorter).contains(line),
{
    listing_shows_keys_with_prefix(entries, longer, line);
    listing_shows_keys_with_prefix(entries, shorter, line);
    let i = choose|i: int|
        0 <= i < entries.len() && #[trigger] is_listed(entries[i], longer) && listed(entries[i])
            == line;
    assert(entries[i].key.subrange(0, shorter.len() as int) =~= longer.subrange(
        0,
        shorter.len() as int,
    ));
    assert(is_listed(entries[i], shorter));
}

/// Whether the entries are what the cache holds, each key once.
pub open spec fn lists(entries: Seq<EntryView>, held: Held) -> bool {
    &&& distinct_keys(entries)
    &&& forall|i: int|
        0 <= i < entries.len() ==> held.contains_key(#[trigger] entries[i].key)
            && held[entries[i].key] == entries[i].stored
    &&& forall|key: Seq<char>|
        held.contains_key(key) ==> exists|i: int|
            0 <= i < entries.len() && #[trigger] entries[i].key == key
}

/// The part of what the cache holds that is still to be had at `now`.
pub open spec fn live_part(held: Held, now: TimestampView) -> Held {
    held.restrict(held.dom().filter(|key: Seq<char>| is_live(held[key].expires_at, now)))
}

/// Bringing back the entries of a cache into an empty one gives it what is still to be had.
proof fn restoring_gives_live_part(entries: Seq<EntryView>, held: Held, now: TimestampView)
    requires
        lists(entries, held),
    ensures
        after_plan(restore_plan(entries, now), Map::empty()) == live_part(held, now),
    decreases entries.len(),
{
    if entries.len() == 0 {
        assert(restore_plan(entries, now) =~= Seq::<CommandView>::empty()) by {
            reveal(Seq::filter);
        }
        assert forall|key: Seq<char>| !held.contains_key(key) by {}
        assert(live_part(held, now) =~= Map::empty());
    } else {
        let before = entries.drop_last();
        let last = entries.last();
        let held_before = held.remove(last.key);
        assert(entries =~= before.push(last));
        assert forall|i: int| 0 <= i < before.len() implies held_before.contains_key(
            #[trigger] before[i].key,
        ) && held_before[before[i].key] == before[i].stored by {
            assert(before[i] == entries[i]);
            assert(entries[i].key != entries[entries.len() - 1].key);
        }
        assert forall|key: Seq<char>| held_before.contains_key(key) implies exists|i: int|
            0 <= i < before.len() && #[trigger] before[i].key == key by {
            let i = choose|i: int| 0 <= i < entries.len() && #[trigger] entries[i].key == key;
            assert(before[i].key == key);
        }
        assert forall|i: int, j: int| 0 <= i < j < before.len() implies #[trigger] before[i].key
            != #[trigger] before[j].key by {
            assert(entries[i].key != entries[j].key);
        }
        restoring_gives_live_part(before, held_before, now);
        restore_plan_push(before, last, now);
        assert(held.contains_key(entries[entries.len() - 1].key));
        let plan = restore_plan(before, now);
        if is_live(last.stored.expires_at, now) {
            assert(plan.push(restoring(last)).drop_last() =~= plan);
            assert(live_part(held_before, now).insert(last.key, last.stored) =~= live_part(
                held,
                now,
            ));
        } else {
            assert(live_part(held_before, now) =~= live_part(held, now));
        }
    }
}

/// A restart brings back exactly what is still to be had: every lookup of it is answered as
/// before, its deadline is the same, and what has expired is not found.
pub proof fn restart_keeps_what_is_live(
    entries: Seq<EntryView>,
    held: Held,
    data: Seq<u8>,
    plan: Result<CachePlan, SnapshotError>,
    now: TimestampView,
    key: Seq<char>,
)
    requires
        lists(entries, held),
        snapshot_decoding(data) == Some(entries),
        is_restoration(plan, Some(data), now),
    ensures
        plan matches Ok(plan) && {
            let restored = after_plan(plan@, Map::empty());
            if held.contains_key(key) && is_live(held[key].expires_at, now) {
                &&& restored.contains_key(key)
                &&& restored[key] == held[key]
                &&& answer(restored, key) == answer(held, key)
            } else {
                answer(restored, key) == Some(not_found_reply())
            }
        },
{
    restoring_gives_live_part(entries, held, now);
}

/// Data that is no snapshot is refused, and no data changes nothing.
pub proof fn bad_snapshot_is_refused(
    plan: Result<CachePlan, SnapshotError>,
    data: Option<Seq<u8>>,
    now: TimestampView,
    held: Held,
)
    requires
        is_restoration(plan, data, now),
        data matches Some(data) ==> snapshot_decoding(data) is None,
    ensures
        data is Some ==> plan == Err::<CachePlan, SnapshotError>(SnapshotError::Decode),
        data is None ==> plan is Ok && after_plan(plan->Ok_0@, held) == held,
{
}

/// What is stored has, at that moment, exactly its time to live left.
pub proof fn deadline_is_ttl_away(now: TimestampView, ttl: u64)
    requires
        now.is_clock_reading(),
        deadline_in_range(now, Some(ttl)),
    ensures
        deadline_spec(now, Some(ttl)) matches Some(deadline) && deadline.valid() && elapsed(
            deadline,
            now,
        ) == ttl * 1_000_000,
{
}

/// What is stored is to be had until its time to live is over, and no longer.
pub proof fn entry_lives_for_its_ttl(stored_at: TimestampView, ttl: u64, now: TimestampView)
    requires
        stored_at.is_clock_reading(),
        now.is_clock_reading(),
        deadline_in_range(stored_at, Some(ttl)),
    ensures
        is_live(deadline_spec(stored_at, Some(ttl)), now) <==> elapsed(now, stored_at) < ttl
            * 1_000_000,
{
}

/// What is stored without a time to live is to be had for good, across any number of restarts.
pub proof fn entry_without_ttl_lives_on(stored_at: TimestampView, now: TimestampView)
    ensures
        is_live(deadline_spec(stored_at, None), now),
{
}

/// As the clock goes on, the time left until a deadline shrinks by as much: an entry expires at
/// the same instant, whenever it is looked at or brought back.
pub proof fn deadline_does_not_move(
    deadline: TimestampView,
    earlier: TimestampView,
    later: TimestampView,
)
    requires
        deadline.valid(),
        !deadline.is_leap(),
        earlier.is_clock_reading(),
        later.is_clock_reading(),
    ensures
        elapsed(deadline, later) == elapsed(deadline, earlier) - elapsed(later, earlier),
{
}

/// A new entry is given time to live exactly where it has a deadline that is still ahead, and
/// then what it is given ends at the deadline.
pub proof fn lifetime_ends_at_deadline(
    lifetime: Option<Lifetime>,
    deadline: TimestampView,
    now: TimestampView,
)
    requires
        deadline.valid(),
        !deadline.is_leap(),
        now.is_clock_reading(),
        is_lifetime_left(lifetime, Some(deadline), now),
    ensures
        lifetime is Some <==> is_live(Some(deadline), now),
        lifetime matches Some(left) ==> instant_at(now.total_nanos() + left.total_nanos())
            == deadline,
{
}

/// An entry that is brought back expires at the instant at which it would have expired had it
/// never left the cache.
pub proof fn restart_keeps_expiry(
    deadline: TimestampView,
    created_at: TimestampView,
    first: Lifetime,
    restored_at: TimestampView,
    second: Lifetime,
)
    requires
        deadline.valid(),
        !deadline.is_leap(),
        created_at.is_clock_reading(),
        restored_at.is_clock_reading(),
        is_lifetime_left(Some(first), Some(deadline), created_at),
        is_lifetime_left(Some(second), Some(deadline), restored_at),
    ensures
        instant_at(created_at.total_nanos() + first.total_nanos()) == instant_at(
            restored_at.total_nanos() + second.total_nanos(),
        ),
{
    lifetime_ends_at_deadline(Some(first), deadline, created_at);
    lifetime_ends_at_deadline(Some(second), deadline, restored_at);
}

/// What the cache keeps under a key: what is stored there, and when it drops it, in nanoseconds
/// since 1970. It never does where no such time is set.
pub struct KeptView {
    pub stored: StoredView,
    pub ends: Option<int>,
}

/// What the cache keeps, as long as nothing in it is evicted.
pub type Kept = Map<Seq<char>, KeptView>;

/// What the cache keeps of a new entry that it was given at `at`: for as long as the expiry policy
/// gives it then, and for good where that sets no time.
pub open spec fn keeping(stored: StoredView, at: TimestampView) -> KeptView {
    KeptView {
        stored,
        ends: match nanos_left(stored.expires_at, at) {
            Some(nanos) => Some(at.total_nanos() + nanos),
            None => None,
        },
    }
}

/// What the cache keeps after one change that was made at `at`.
///
/// A value that replaces another is dropped when that would have been: the policy leaves the time
/// alone.
pub open spec fn kept_after_command(command: CommandView, kept: Kept, at: TimestampView) -> Kept {
    match command {
        CommandView::Invalidate { key } => kept.remove(key),
        CommandView::Insert { key, stored } => if !is_live(stored.expires_at, at) {
            kept.remove(key)
        } else if kept.contains_key(key) {
            kept.insert(key, KeptView { stored, ends: kept[key].ends })
        } else {
            kept.insert(key, keeping(stored, at))
        },
        CommandView::InvalidateMatching { text } => kept.restrict(
            kept.dom().filter(|key: Seq<char>| !occurs_in(text, key)),
        ),
    }
}

/// What the cache keeps after changes that were made in order at `at`.
pub open spec fn kept_after_plan(plan: Seq<CommandView>, kept: Kept, at: TimestampView) -> Kept
    decreases plan.len(),
{
    if plan.len() == 0 {
        kept
    } else {
        kept_after_command(plan.last(), kept_after_plan(plan.drop_last(), kept, at), at)
    }
}

/// Changes, and when they were made.
pub struct Step {
    pub plan: Seq<CommandView>,
    pub at: TimestampView,
}

/// What the cache keeps after a history that began with nothing in it.
pub open spec fn kept_of(history: Seq<Step>) -> Kept
    decreases history.len(),
{
    if history.len() == 0 {
        Map::empty()
    } else {
        let last = history.last();
        kept_after_plan(last.plan, kept_of(history.drop_last()), last.at)
    }
}

/// What the cache shows at `now`: all that it keeps and has not dropped by then.
pub open spec fn shown(kept: Kept, now: TimestampView) -> Held {
    Map::new(
        |key: Seq<char>|
            kept.contains_key(key) && (kept[key].ends matches Some(end) ==> now.total_nanos() < end),
        |key: Seq<char>| kept[key].stored,
    )
}

/// Whether a deadline is an instant of the calendar outside leap seconds, where there is one.
pub open spec fn is_plain(deadline: Option<TimestampView>) -> bool {
    deadline matches Some(deadline) ==> deadline.valid() && !deadline.is_leap()
}

/// Whether whatever the changes store has a plain deadline or none, and replaces nothing.
pub open spec fn is_plain_plan(plan: Seq<CommandView>, kept: Kept, at: TimestampView) -> bool
    decreases plan.len(),
{
    plan.len() == 0 || {
        &&& is_plain_plan(plan.drop_last(), kept, at)
        &&& plan.last() matches CommandView::Insert { key, stored } ==> is_plain(stored.expires_at)
            && !kept_after_plan(plan.drop_last(), kept, at).contains_key(key)
    }
}

/// Whether all changes of a history were plain, and made when the clock could show it.
pub open spec fn is_plain_history(history: Seq<Step>) -> bool
    decreases history.len(),
{
    history.len() == 0 || {
        let last = history.last();
        &&& is_plain_history(history.drop_last())
        &&& last.at.is_clock_reading()
        &&& is_plain_plan(last.plan, kept_of(history.drop_last()), last.at)
    }
}

/// Whatever is asked of the service makes for plain changes, whatever the cache keeps.
pub proof fn requests_are_plain(
    kept: Kept,
    at: TimestampView,
    key: Seq<char>,
    bytes: Seq<u8>,
    ttl: Option<u64>,
    saved_at: TimestampView,
    text: Seq<char>,
)
    requires
        saved_at.is_clock_reading(),
        deadline_in_range(saved_at, ttl),
    ensures
        is_plain_plan(saving(key, bytes, deadline_spec(saved_at, ttl), ttl), kept, at),
        is_plain_plan(seq![CommandView::Invalidate { key }], kept, at),
        is_plain_plan(seq![CommandView::InvalidateMatching { text }], kept, at),
{
    reveal_with_fuel(is_plain_plan, 3);
    reveal_with_fuel(kept_after_plan, 3);
    let deadline = deadline_spec(saved_at, ttl);
    let drop = seq![CommandView::Invalidate { key }];
    assert(drop.drop_last() =~= Seq::<CommandView>::empty());
    assert(seq![CommandView::InvalidateMatching { text }].drop_last() =~= Seq::<
        CommandView,
    >::empty());
    assert(insertion(key, bytes, deadline).drop_last() =~= drop);
}

/// Bringing back a snapshot into an empty cache makes for plain changes, where its deadlines are.
pub proof fn restoring_is_plain(entries: Seq<EntryView>, now: TimestampView, at: TimestampView)
    requires
        distinct_keys(entries),
        forall|i: int|
            0 <= i < entries.len() ==> is_plain((#[trigger] entries[i]).stored.expires_at),
    ensures
        is_plain_plan(restore_plan(entries, now), Map::empty(), at),
        forall|key: Seq<char>| #[trigger]
            kept_after_plan(restore_plan(entries, now), Map::empty(), at).contains_key(key)
                ==> exists|i: int| 0 <= i < entries.len() && #[trigger] entries[i].key == key,
    decreases entries.len(),
{
    if entries.len() == 0 {
        assert(restore_plan(entries, now) =~= Seq::<CommandView>::empty()) by {
            reveal(Seq::filter);
        }
    } else {
        let before = entries.drop_last();
        let last = entries[entries.len() - 1];
        assert(entries =~= before.push(last));
        assert forall|i: int| 0 <= i < before.len() implies is_plain(
            (#[trigger] before[i]).stored.expires_at,
        ) by {
            assert(before[i] == entries[i]);
        }
        assert forall|i: int, j: int| 0 <= i < j < before.len() implies #[trigger] before[i].key
            != #[trigger] before[j].key by {
            assert(entries[i].key != entries[j].key);
        }
        restoring_is_plain(before, now, at);
        restore_plan_push(before, last, now);
        let plan = restore_plan(before, now);
        let kept = kept_after_plan(plan, Map::empty(), at);
        assert(plan.push(restoring(last)).drop_last() =~= plan);
        if kept.contains_key(last.key) {
            let i = choose|i: int| 0 <= i < before.len() && #[trigger] before[i].key == last.key;
            assert(entries[i].key != entries[entries.len() - 1].key);
        }
        assert forall|key: Seq<char>| #[trigger]
            kept_after_plan(restore_plan(entries, now), Map::empty(), at).contains_key(
                key,
            ) implies exists|i: int| 0 <= i < entries.len() && #[trigger] entries[i].key == key by {
            if kept.contains_key(key) {
                let i = choose|i: int| 0 <= i < before.len() && #[trigger] before[i].key == key;
                assert(entries[i].key == key);
            } else {
                assert(entries[entries.len() - 1].key == key);
            }
        }
    }
}

/// Whether whatever is kept is dropped at its deadline, and for good where it has none.
spec fn ends_at_deadlines(kept: Kept) -> bool {
    forall|key: Seq<char>| #[trigger]
        kept.contains_key(key) ==> match kept[key].stored.expires_at {
            Some(deadline) => deadline.valid() && !deadline.is_leap() && kept[key].ends == Some(
                deadline.total_nanos(),
            ),
            None => kept[key].ends is None,
        }
}

/// Plain changes leave what is kept to be dropped at its deadline.
proof fn plan_keeps_ends(plan: Seq<CommandView>, kept: Kept, at: TimestampView)
    requires
        ends_at_deadlines(kept),
        at.is_clock_reading(),
        is_plain_plan(plan, kept, at),
    ensures
        ends_at_deadlines(kept_after_plan(plan, kept, at)),
    decreases plan.len(),
{
    if plan.len() > 0 {
        plan_keeps_ends(plan.drop_last(), kept, at);
    }
}

/// Whatever was done to the cache, what it keeps is dropped at its deadline.
proof fn history_keeps_ends(history: Seq<Step>)
    requires
        is_plain_history(history),
    ensures
        ends_at_deadlines(kept_of(history)),
    decreases history.len(),
{
    if history.len() > 0 {
        let before = history.drop_last();
        let last = history.last();
        history_keeps_ends(before);
        plan_keeps_ends(last.plan, kept_of(before), last.at);
    }
}

/// Whatever was done to the cache, a lookup at `now` finds what is kept exactly where it is still
/// to be had, and is answered that the key is not found where it is not.
pub proof fn lookup_finds_only_what_is_live(
    history: Seq<Step>,
    key: Seq<char>,
    now: TimestampView,
)
    requires
        is_plain_history(history),
        now.is_clock_reading(),
    ensures
        ({
            let kept = kept_of(history);
            let held = shown(kept, now);
            if kept.contains_key(key) && is_live(kept[key].stored.expires_at, now) {
                held.contains_key(key) && held[key] == kept[key].stored
            } else {
                answer(held, key) == Some(not_found_reply())
            }
        }),
{
    history_keeps_ends(history);
}

/// What was saved at `saved_at` is found until its time to live is over, and no longer, whatever
/// was done to the cache before: not at all where that is no time, or was over by the time the
/// changes were made.
pub proof fn saved_value_is_found_for_its_ttl(
    history: Seq<Step>,
    key: Seq<char>,
    bytes: Seq<u8>,
    ttl: Option<u64>,
    saved_at: TimestampView,
    made_at: TimestampView,
    now: TimestampView,
)
    requires
        is_plain_history(history),
        saved_at.is_clock_reading(),
        made_at.is_clock_reading(),
        now.is_clock_reading(),
        deadline_in_range(saved_at, ttl),
    ensures
        ({
            let deadline = deadline_spec(saved_at, ttl);
            let plan = saving(key, bytes, deadline, ttl);
            let held = shown(kept_of(history.push(Step { plan, at: made_at })), now);
            let in_time = ttl matches Some(millis) ==> elapsed(made_at, saved_at) < millis * 1_000_000
                && elapsed(now, saved_at) < millis * 1_000_000;
            if in_time && ttl != Some(0u64) {
                &&& held.contains_key(key)
                &&& held[key] == (StoredView { expires_at: deadline, bytes })
                &&& answer(held, key) == stored_reply(key, bytes)
            } else {
                answer(held, key) == Some(not_found_reply())
            }
        }),
{
    let deadline = deadline_spec(saved_at, ttl);
    let plan = saving(key, bytes, deadline, ttl);
    let step = Step { plan, at: made_at };
    let stored = StoredView { expires_at: deadline, bytes };
    history_keeps_ends(history);
    assert(history.push(step).drop_last() =~= history);
    reveal_with_fuel(kept_after_plan, 3);
    if ttl == Some(0u64) {
        assert(plan.drop_last() =~= Seq::<CommandView>::empty());
    } else {
        assert(plan.drop_last() =~= seq![CommandView::Invalidate { key }]);
        assert(plan.drop_last().drop_last() =~= Seq::<CommandView>::empty());
        assert(plan.last() == (CommandView::Insert { key, stored }));
    }
}

/// A value that was written as text is read back from it, wherever it nests no deeper than can be
/// read, and refused where it does.
///
/// Left out are encodings with more bytes than 32 bits can count, and maps that begin with the key
/// that `serde_json` keeps for its own use. What is asked of the text is what writing the value
/// ensures.
pub proof fn value_survives_base64(text: Seq<char>, value: Value)
    requires
        base64_bytes(text) == Some(msgpack_encoding(value)),
        reads_back(msgpack_encoding(value), value),
        msgpack_encoding(value).len() <= u32::MAX,
        free_of_marker(msgpack_encoding(value)),
    ensures
        base64_bytes(text) matches Some(bytes) && msgpack_decoding(bytes) == if nesting(bytes)
            < NESTING_LIMIT {
            Some(value)
        } else {
            None
        },
{
}

} // verus!
