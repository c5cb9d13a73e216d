//! What the service asks of its cache, and what the cache holds after that.
use crate::text::{contains, occurs_in};
use crate::timestamp::{Timestamp, TimestampView};
use vstd::prelude::*;

verus! {

/// What is stored under a key: when it expires, if ever, and the encoded value.
pub type CacheValue = (Option<Timestamp>, Vec<u8>);

/// What a [`CacheValue`] stands for.
pub struct StoredView {
    pub expires_at: Option<TimestampView>,
    pub bytes: Seq<u8>,
}

/// A key with what is stored under it.
pub struct EntryView {
    pub key: Seq<char>,
    pub stored: StoredView,
}

/// The instant that an optional timestamp stands for.
pub open spec fn instant_of(timestamp: Option<Timestamp>) -> Option<TimestampView> {
    match timestamp {
        Some(timestamp) => Some(timestamp@),
        None => None,
    }
}

/// What a stored value stands for.
pub open spec fn stored_view(value: CacheValue) -> StoredView {
    StoredView { expires_at: instant_of(value.0), bytes: value.1@ }
}

/// What a key and its stored value stand for.
pub open spec fn entry_view(entry: (String, CacheValue)) -> EntryView {
    EntryView { key: entry.0@, stored: stored_view(entry.1) }
}

/// What a list of entries stands for.
pub open spec fn entry_views(entries: Seq<(String, CacheValue)>) -> Seq<EntryView> {
    entries.map_values(|entry: (String, CacheValue)| entry_view(entry))
}

/// Whether no two entries have the same key.
pub open spec fn distinct_keys(entries: Seq<EntryView>) -> bool {
    forall|i: int, j: int|
        0 <= i < j < entries.len() ==> #[trigger] entries[i].key != #[trigger] entries[j].key
}

/// One change to the cache.
#[derive(Debug)]
pub enum CacheCommand {
    /// Drop what is stored under the key.
    Invalidate(String),
    /// Store the value under the key; where its deadline has passed by then, drop it again.
    Insert(String, CacheValue),
    /// Drop what is stored under every key that holds the text.
    InvalidateMatching(String),
}

/// What a [`CacheCommand`] stands for.
pub enum CommandView {
    Invalidate { key: Seq<char> },
    Insert { key: Seq<char>, stored: StoredView },
    InvalidateMatching { text: Seq<char> },
}

impl View for CacheCommand {
    type V = CommandView;

    open spec fn view(&self) -> CommandView {
        match *self {
            CacheCommand::Invalidate(key) => CommandView::Invalidate { key: key@ },
            CacheCommand::Insert(key, value) => CommandView::Insert {
                key: key@,
                stored: stored_view(value),
            },
            CacheCommand::InvalidateMatching(text) => CommandView::InvalidateMatching {
                text: text@,
            },
        }
    }
}

/// Changes to the cache, to be made in order.
#[derive(Debug)]
pub struct CachePlan {
    pub commands: Vec<CacheCommand>,
}

impl View for CachePlan {
    type V = Seq<CommandView>;

    open spec fn view(&self) -> Seq<CommandView> {
        self.commands@.map_values(|command: CacheCommand| command@)
    }
}

/// What the cache holds, as long as nothing in it expires or is evicted.
pub type Held = Map<Seq<char>, StoredView>;

/// What the cache holds after one change.
pub open spec fn after_command(command: CommandView, held: Held) -> Held {
    match command {
        CommandView::Invalidate { key } => held.remove(key),
        CommandView::Insert { key, stored } => held.insert(key, stored),
        CommandView::InvalidateMatching { text } => held.restrict(
            held.dom().filter(|key: Seq<char>| !occurs_in(text, key)),
        ),
    }
}

/// What the cache holds after changes made in order.
pub open spec fn after_plan(plan: Seq<CommandView>, held: Held) -> Held
    decreases plan.len(),
{
    if plan.len() == 0 {
        held
    } else {
        after_command(plan.last(), after_plan(plan.drop_last(), held))
    }
}

/// The changes that store a value under a key with its own deadline.
///
/// What was stored there goes first, so that the new value never takes over its deadline.
pub open spec fn insertion(key: Seq<char>, bytes: Seq<u8>, ttl: Option<TimestampView>) -> Seq<
    CommandView,
> {
    seq![
        CommandView::Invalidate { key },
        CommandView::Insert { key, stored: StoredView { expires_at: ttl, bytes } },
    ]
}

/// The changes that store a value to live for `ttl` milliseconds, which is until the deadline.
///
/// What is to live for no time at all is not stored. What was stored there goes all the same.
pub open spec fn saving(
    key: Seq<char>,
    bytes: Seq<u8>,
    deadline: Option<TimestampView>,
    ttl: Option<u64>,
) -> Seq<CommandView> {
    if ttl == Some(0u64) {
        seq![CommandView::Invalidate { key }]
    } else {
        insertion(key, bytes, deadline)
    }
}

/// Storing under a deadline.
pub trait CacheExt<K, V> {
    /// Stores the value under the key until `ttl`, or for good where there is none.
    fn insert_with_ttl(&mut self, key: K, value: V, ttl: Option<Timestamp>);
}

impl CacheExt<String, Vec<u8>> for CachePlan {
    fn insert_with_ttl(&mut self, key: String, value: Vec<u8>, ttl: Option<Timestamp>)
        ensures
            final(self)@ == old(self)@ + insertion(key@, value@, instant_of(ttl)),
    {
        let ghost wanted = self@ + insertion(key@, value@, instant_of(ttl));
        self.push(CacheCommand::Invalidate(key.clone()));
        self.push(CacheCommand::Insert(key, (ttl, value)));
        assert(self@ =~= wanted);
    }
}

impl CachePlan {
    /// No change at all.
    pub fn new() -> (plan: CachePlan)
        ensures
            plan@ == Seq::<CommandView>::empty(),
    {
        let plan = CachePlan { commands: Vec::new() };
        assert(plan@ =~= Seq::<CommandView>::empty());
        plan
    }

    /// Adds one more change, to be made last.
    pub fn push(&mut self, command: CacheCommand)
        ensures
            final(self)@ == old(self)@.push(command@),
    {
        let ghost wanted = self@.push(command@);
        self.commands.push(command);
        assert(self@ =~= wanted);
    }
}

/// Whether [`CacheCommand::InvalidateMatching`] drops what is stored under the key.
pub fn key_matches(key: &str, text: &str) -> (matches: bool)
    ensures
        matches == occurs_in(text@, key@),
{
    contains(key, text)
}

/// How much of the cache's capacity a stored value takes: one for each byte, as far as a weight
/// can count.
pub fn weigh(value: &CacheValue) -> (weight: u32)
    ensures
        weight == if value.1@.len() <= u32::MAX {
            value.1@.len() as int
        } else {
            u32::MAX as int
        },
{
    let len: usize = value.1.len();
    if len as u64 <= u32::MAX as u64 {
        len as u32
    } else {
        u32::MAX
    }
}

/// The bytes in so many megabytes.
pub fn mb_to_bytes(mb: u64) -> (bytes: u64)
    requires
        mb * 1024 * 1024 <= u64::MAX,
    ensures
        bytes == mb * 1024 * 1024,
{
    mb * 1024 * 1024
}

} // verus!
