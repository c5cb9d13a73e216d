//! The cache that all requests share.
use crate::cache::{distinct_keys, entry_views, CacheValue};
use vstd::prelude::*;

verus! {

/// A concurrent cache, shared by handles to it.
#[verifier::external_type_specification]
#[verifier::external_body]
#[verifier::reject_recursive_types(K)]
#[verifier::reject_recursive_types(V)]
#[verifier::reject_recursive_types(S)]
pub struct ExCache<K, V, S>(moka::future::Cache<K, V, S>);

/// The cache of the service.
pub type SharedCache = moka::future::Cache<String, CacheValue>;

/// Walks the cache with `moka::future::Cache::iter` and hands out what it shows.
///
/// Claimed: no key comes out twice. Other requests change the cache meanwhile, entries expire, and
/// the order is arbitrary, so nothing is said of which entries come out.
#[verifier::external_body]
pub(crate) fn entries_of(cache: &SharedCache) -> (entries: Vec<(String, CacheValue)>)
    ensures
        distinct_keys(entry_views(entries@)),
{
    cache.iter().map(|(key, value)| (key.to_string(), value)).collect()
}

/// Whether a walk over the cache handed out these entries, in this order.
pub closed spec fn walked(cache: SharedCache, entries: Seq<(String, CacheValue)>) -> bool {
    exists|rows: Vec<(String, CacheValue)>| #[trigger]
        call_ensures(entries_of, (&cache,), rows) && rows@ == entries
}

/// A walk hands out what it came by in the cache, all of it, and nothing else.
pub(crate) proof fn walked_is_what_came_out(
    cache: SharedCache,
    entries: Seq<(String, CacheValue)>,
) -> (rows: Vec<(String, CacheValue)>)
    requires
        walked(cache, entries),
    ensures
        call_ensures(entries_of, (&cache,), rows),
        rows@ == entries,
        distinct_keys(entry_views(entries)),
{
    choose|rows: Vec<(String, CacheValue)>| #[trigger]
        call_ensures(entries_of, (&cache,), rows) && rows@ == entries
}

/// Whatever a walk handed out was walked.
pub(crate) broadcast proof fn what_came_out_was_walked(
    cache: SharedCache,
    rows: Vec<(String, CacheValue)>,
)
    requires
        #[trigger] call_ensures(entries_of, (&cache,), rows),
    ensures
        walked(cache, rows@),
{
}

} // verus!
