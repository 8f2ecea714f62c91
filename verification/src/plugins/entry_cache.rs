//! Storage of the cache plugin: a `moka::sync::Cache` of answers, and the
//! monotonic clock that their lifetimes are measured on.
use vstd::prelude::*;
use crate::dns::{DnsQueryView, DnsRecord, DnsRecordView, records_view};
use crate::names::ascii_lower;
use moka::sync::Cache as MokaCache;

verus! {

/// Key of a question in the cache: its name lower-cased, its type and class.
pub type CacheKey = (Vec<char>, u16, u16);

/// The cache of answers.
pub type EntryCache = MokaCache<(Vec<char>, u16, u16), CacheEntry>;

/// The value of a cache key.
pub type CacheKeyView = (Seq<char>, u16, u16);

/// The contents of a cache that holds nothing.
pub open spec fn no_entries() -> Map<CacheKeyView, CacheEntryView> {
    Map::empty()
}

/// A point of the system's monotonic clock.
pub type Clock = std::time::Instant;

/// Nanoseconds per second.
pub const NANOS_PER_SEC: u128 = 1_000_000_000;

/// A stored answer and the time at which it expires.
#[derive(Debug, Clone)]
pub struct CacheEntry {
    /// The answer's records.
    pub message: Vec<DnsRecord>,
    /// Expiry time on the plugin's clock, in nanoseconds.
    pub expires_at: u128,
}

/// The mathematical value of a [`CacheEntry`].
pub struct CacheEntryView {
    pub message: Seq<DnsRecordView>,
    pub expires_at: u128,
}

impl View for CacheEntry {
    type V = CacheEntryView;

    open spec fn view(&self) -> CacheEntryView {
        CacheEntryView { message: records_view(self.message@), expires_at: self.expires_at }
    }
}

/// The key of a question in the cache: its name lower-cased, its type and class.
pub open spec fn cache_key(q: DnsQueryView) -> CacheKeyView {
    (ascii_lower(q.name), q.query_type, q.query_class)
}

#[verifier::external_type_specification]
#[verifier::external_body]
#[verifier::reject_recursive_types(K)]
#[verifier::reject_recursive_types(V)]
#[verifier::reject_recursive_types(S)]
pub struct ExMokaCache<K, V, S>(MokaCache<K, V, S>);

#[verifier::external_type_specification]
#[verifier::external_body]
pub struct ExInstant(std::time::Instant);

/// The entries that a `moka::sync::Cache` holds, by key.
pub uninterp spec fn cache_contents(c: EntryCache) -> Map<CacheKeyView, CacheEntryView>;

/// The entry capacity that a `moka::sync::Cache` was made with (each entry
/// weighs one, as no weigher is set).
pub uninterp spec fn cache_capacity(c: EntryCache) -> u64;

/// `moka::sync::Cache::new(max_capacity)`: a cache that holds no entry, with
/// room for `max_capacity` entries.
#[verifier::external_body]
pub(crate) fn cache_new(max_capacity: u64) -> (r: EntryCache)
    ensures
        cache_contents(r) == no_entries(),
        cache_capacity(r) == max_capacity,
{
    moka::sync::Cache::new(max_capacity)
}

/// `moka::sync::Cache::get`: a clone of the value the cache holds for the key
/// (the cache has no time-to-live and no invalidation predicates).  Upkeep
/// during the call may evict entries, and never adds one.
#[verifier::external_body]
pub(crate) fn cache_get(c: &mut EntryCache, key: &CacheKey) -> (r: Option<CacheEntry>)
    ensures
        match r {
            Some(v) => cache_contents(*old(c)).contains_key((key.0@, key.1, key.2))
                && cache_contents(*old(c))[(key.0@, key.1, key.2)] == v@,
            None => !cache_contents(*old(c)).contains_key((key.0@, key.1, key.2)),
        },
        cache_contents(*final(c)).submap_of(cache_contents(*old(c))),
        cache_capacity(*final(c)) == cache_capacity(*old(c)),
{
    c.get(key)
}

/// `moka::sync::Cache::insert`: stores the value under the key.  When the
/// cache has room for at least one entry, the key holds this value after the
/// call, whether or not it was held before: the cache's upkeep during the
/// call applies only earlier writes, and it neither evicts nor rejects an
/// entry whose own write is still pending.  (With no room, moka's map is
/// disabled and the call stores nothing.)  That upkeep may evict or reject
/// other entries, even while fewer entries are held than the capacity (an
/// earlier removal not yet applied still counts against it), so of the rest
/// the contract states only that nothing else is added.
#[verifier::external_body]
pub(crate) fn cache_insert(c: &mut EntryCache, key: CacheKey, value: CacheEntry)
    ensures
        cache_contents(*final(c)).submap_of(cache_contents(*old(c)).insert((key.0@, key.1, key.2), value@)),
        cache_capacity(*old(c)) > 0 ==> (
            cache_contents(*final(c)).contains_key((key.0@, key.1, key.2))
            && cache_contents(*final(c))[(key.0@, key.1, key.2)] == value@),
        cache_capacity(*final(c)) == cache_capacity(*old(c)),
{
    c.insert(key, value)
}

/// `moka::sync::Cache::invalidate`: discards the value of the key.  Upkeep
/// during the call may evict other entries, and never adds one.
#[verifier::external_body]
pub(crate) fn cache_invalidate(c: &mut EntryCache, key: &CacheKey)
    ensures
        cache_contents(*final(c)).submap_of(cache_contents(*old(c)).remove((key.0@, key.1, key.2))),
        cache_capacity(*final(c)) == cache_capacity(*old(c)),
{
    c.invalidate(key)
}

/// `std::time::Instant::now`.  Nothing is stated of the result.
#[verifier::external_body]
pub(crate) fn instant_now() -> Clock {
    std::time::Instant::now()
}

/// `std::time::Instant::elapsed`.  Nothing is stated of the result.
#[verifier::external_body]
pub(crate) fn instant_elapsed(i: &Clock) -> core::time::Duration {
    i.elapsed()
}

/// `core::time::Duration::as_nanos`.  Nothing is stated of the result.
#[verifier::external_body]
pub(crate) fn duration_as_nanos(d: &core::time::Duration) -> u128 {
    d.as_nanos()
}

} // verus!
