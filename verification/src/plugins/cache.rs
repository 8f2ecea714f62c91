//! cache: serves answers stored earlier, until their lifetime runs out.
//!
//! The entries live in a `moka::sync::Cache`.  Time is the plugin's
//! monotonic clock: nanoseconds since the plugin was made.
use vstd::prelude::*;
use crate::config::new_config::{Cache as CacheConfig, CacheView};
use crate::dns::{DnsMessage, DnsMessageView, DnsQuery, DnsQueryView, DnsRecord, DnsRecordView, RCODE_SERV_FAIL, records_view};
use crate::names::{lower_chars, same_name};
use crate::plugins::entry_cache::{
    CacheEntry, CacheEntryView, CacheKey, CacheKeyView, EntryCache, no_entries, NANOS_PER_SEC, cache_capacity, cache_contents, cache_get, cache_insert,
    cache_invalidate, cache_key, cache_new, duration_as_nanos, instant_elapsed, instant_now,
};
use crate::plugins::plugin::{Plugin, PluginAction, PluginActionView, outcome_view};

verus! {

/// `x` limited to `[lo, hi]` (`u32::clamp`).
pub open spec fn clamp(x: u32, lo: u32, hi: u32) -> u32 {
    if x < lo {
        lo
    } else if x > hi {
        hi
    } else {
        x
    }
}

/// The smallest TTL of a non-empty list of records.
pub open spec fn min_ttl(rs: Seq<DnsRecordView>) -> u32
    decreases rs.len(),
{
    if rs.len() <= 1 {
        rs[0].ttl
    } else {
        let m = min_ttl(rs.drop_last());
        if rs.last().ttl < m {
            rs.last().ttl
        } else {
            m
        }
    }
}

/// The lifetime of a stored answer, in seconds: its smallest TTL limited to
/// the configured bounds.
pub open spec fn cached_lifetime(rs: Seq<DnsRecordView>, cfg: CacheView) -> u32 {
    clamp(min_ttl(rs), cfg.min_ttl, cfg.max_ttl)
}

/// `now` plus `secs` seconds, saturating at the largest time.
pub open spec fn expiry_time(now: u128, secs: u32) -> u128 {
    if now + secs * NANOS_PER_SEC <= u128::MAX {
        (now + secs * NANOS_PER_SEC) as u128
    } else {
        u128::MAX
    }
}

/// The answer that the cache gives `request` at time `now` when it holds
/// `contents`: the stored records of the first question when they have not
/// expired; otherwise the request continues unchanged.
pub open spec fn cache_action(contents: Map<CacheKeyView, CacheEntryView>, request: DnsMessageView, now: u128) -> Result<PluginActionView, u16> {
    if request.queries.len() == 0 {
        Err(RCODE_SERV_FAIL)
    } else {
        let k = cache_key(request.queries[0]);
        if contents.contains_key(k) && contents[k].expires_at > now {
            Ok(PluginActionView::Response(contents[k].message))
        } else {
            Ok(PluginActionView::Continue(request))
        }
    }
}

/// The entry that storing `records` at time `now` makes: the records, to
/// expire after their lifetime.
pub open spec fn stored_entry(records: Seq<DnsRecordView>, cfg: CacheView, now: u128) -> CacheEntryView {
    CacheEntryView { message: records, expires_at: expiry_time(now, cached_lifetime(records, cfg)) }
}

/// What storing entry `e` under key `k` does to a cache holding `before`
/// with room for `capacity` entries: nothing but this entry is added, and
/// when there is room for any entry the key holds `e` afterwards, replacing
/// what it held before.
pub open spec fn store_outcome(
    before: Map<CacheKeyView, CacheEntryView>,
    after: Map<CacheKeyView, CacheEntryView>,
    k: CacheKeyView,
    e: CacheEntryView,
    capacity: u64,
) -> bool {
    &&& after.submap_of(before.insert(k, e))
    &&& capacity > 0 ==> (after.contains_key(k) && after[k] == e)
}

/// After serving `request` at time `now`: an entry of the first question that
/// had expired by then is gone.
pub open spec fn expired_removed(
    before: Map<CacheKeyView, CacheEntryView>,
    after: Map<CacheKeyView, CacheEntryView>,
    request: DnsMessageView,
    now: u128,
) -> bool {
    request.queries.len() > 0 && before.contains_key(cache_key(request.queries[0]))
        && before[cache_key(request.queries[0])].expires_at <= now
        ==> !after.contains_key(cache_key(request.queries[0]))
}

/// A cached answer lives at least `min_ttl` and at most `max_ttl` seconds
/// when the bounds are ordered, whatever the answer's TTLs.
pub proof fn lemma_lifetime_within_bounds(rs: Seq<DnsRecordView>, cfg: CacheView)
    requires
        cfg.min_ttl <= cfg.max_ttl,
    ensures
        cfg.min_ttl <= cached_lifetime(rs, cfg) <= cfg.max_ttl,
{
}

/// Two questions share a cache key exactly when they ask for the same name
/// (up to ASCII case), the same type and the same class.
pub proof fn lemma_cache_key_identifies(q1: DnsQueryView, q2: DnsQueryView)
    ensures
        cache_key(q1) == cache_key(q2) <==> (same_name(q1.name, q2.name)
            && q1.query_type == q2.query_type && q1.query_class == q2.query_class),
{
}

/// An answer stored for one question is never served to a question that
/// differs from it in name (beyond ASCII case), type or class: storing it
/// leaves the cache's action on every such request as it was.
pub proof fn lemma_stored_answer_only_for_its_question(
    contents: Map<CacheKeyView, CacheEntryView>,
    stored: DnsQueryView,
    e: CacheEntryView,
    request: DnsMessageView,
    now: u128,
)
    requires
        request.queries.len() > 0,
        !(same_name(request.queries[0].name, stored.name)
            && request.queries[0].query_type == stored.query_type
            && request.queries[0].query_class == stored.query_class),
    ensures
        cache_action(contents.insert(cache_key(stored), e), request, now) == cache_action(contents, request, now),
{
    lemma_cache_key_identifies(request.queries[0], stored);
}

/// An answer stored at time `t` in a cache with room for any entry replaces
/// whatever the cache held for its question, and is served to a later
/// question with the same name (up to ASCII case), type and class until its
/// lifetime runs out; from then on the request continues.
pub proof fn lemma_stored_answer_served(
    before: Map<CacheKeyView, CacheEntryView>,
    after: Map<CacheKeyView, CacheEntryView>,
    query: DnsQueryView,
    records: Seq<DnsRecordView>,
    cfg: CacheView,
    t: u128,
    request: DnsMessageView,
    later: u128,
)
    requires
        store_outcome(before, after, cache_key(query), stored_entry(records, cfg, t), cfg.max_size),
        cfg.max_size > 0,
        request.queries.len() > 0,
        cache_key(request.queries[0]) == cache_key(query),
    ensures
        after[cache_key(query)] == stored_entry(records, cfg, t),
        later < expiry_time(t, cached_lifetime(records, cfg)) ==> cache_action(after, request, later)
            == Ok::<PluginActionView, u16>(PluginActionView::Response(records)),
        later >= expiry_time(t, cached_lifetime(records, cfg)) ==> cache_action(after, request, later)
            == Ok::<PluginActionView, u16>(PluginActionView::Continue(request)),
{
}

/// Every answer in `m` is non-empty.
pub open spec fn answers_nonempty(m: Map<CacheKeyView, CacheEntryView>) -> bool {
    forall|k: CacheKeyView| #[trigger] m.contains_key(k) ==> m[k].message.len() > 0
}

proof fn lemma_submap_keeps_nonempty(small: Map<CacheKeyView, CacheEntryView>, big: Map<CacheKeyView, CacheEntryView>)
    requires
        small.submap_of(big),
        answers_nonempty(big),
    ensures
        answers_nonempty(small),
{
    assert forall|k: CacheKeyView| #[trigger] small.contains_key(k) implies small[k].message.len() > 0 by {
        assert(big.contains_key(k));
        assert(small[k] == big[k]);
    }
}

proof fn lemma_submap_trans(a: Map<CacheKeyView, CacheEntryView>, b: Map<CacheKeyView, CacheEntryView>, c: Map<CacheKeyView, CacheEntryView>)
    requires
        a.submap_of(b),
        b.submap_of(c),
    ensures
        a.submap_of(c),
{
    vstd::map_lib::lemma_submap_of_trans(a, b, c);
}

/// The cache plugin: its configuration, the cache and the clock's origin.
pub struct CachePlugin {
    config: CacheConfig,
    cache: EntryCache,
    origin: crate::plugins::entry_cache::Clock,
}

impl CachePlugin {
    /// The configuration the plugin was made from.
    pub closed spec fn config_view(&self) -> CacheView {
        self.config@
    }

    /// The entries the cache holds.
    pub closed spec fn contents(&self) -> Map<CacheKeyView, CacheEntryView> {
        cache_contents(self.cache)
    }

    /// The number of entries the cache has room for.
    pub closed spec fn capacity(&self) -> u64 {
        cache_capacity(self.cache)
    }

    /// The plugin's invariant: no stored answer is empty, and the cache has
    /// room for the configured number of entries.
    pub open spec fn wf(&self) -> bool {
        &&& answers_nonempty(self.contents())
        &&& self.capacity() == self.config_view().max_size
    }

    /// An empty cache with room for `max_size` entries.
    pub fn new(config: CacheConfig) -> (r: CachePlugin)
        ensures
            r.wf(),
            r.config_view() == config@,
            r.contents() == no_entries(),
            r.capacity() == config@.max_size,
    {
        let cache = cache_new(config.max_size);
        let origin = instant_now();
        CachePlugin { cache, config, origin }
    }

    /// Whether the configured lifetime bounds are ordered (`min_ttl <= max_ttl`).
    pub fn bounds_ordered(&self) -> (r: bool)
        ensures
            r == (self.config_view().min_ttl <= self.config_view().max_ttl),
    {
        self.config.min_ttl <= self.config.max_ttl
    }

    /// The current time on the plugin's clock, in nanoseconds.  Nothing is
    /// stated of it: it comes from the system's monotonic clock.
    pub fn now(&self) -> u128 {
        let d = instant_elapsed(&self.origin);
        duration_as_nanos(&d)
    }

    /// The key of a question.
    fn key_of(q: &DnsQuery) -> (r: CacheKey)
        ensures
            (r.0@, r.1, r.2) == cache_key(q@),
    {
        (lower_chars(&q.name), q.query_type, q.query_class)
    }

    /// Stores a non-empty answer under its question, to expire at `now` plus
    /// its smallest TTL limited to `[min_ttl, max_ttl]` seconds (see
    /// [`stored_entry`]); an empty answer changes nothing.  Storing a
    /// non-empty answer needs ordered bounds (`u32::clamp` panics otherwise).
    pub fn store_at(&mut self, query: DnsQuery, records: Vec<DnsRecord>, now: u128)
        requires
            old(self).wf(),
            records@.len() > 0 ==> old(self).config_view().min_ttl <= old(self).config_view().max_ttl,
        ensures
            final(self).wf(),
            final(self).config_view() == old(self).config_view(),
            records@.len() == 0 ==> final(self).contents() == old(self).contents(),
            records@.len() > 0 ==> store_outcome(
                old(self).contents(),
                final(self).contents(),
                cache_key(query@),
                stored_entry(records_view(records@), old(self).config_view(), now),
                old(self).config_view().max_size,
            ),
    {
        if records.len() > 0 {
            let mut m: u32 = records[0].ttl;
            let mut i: usize = 1;
            assert(records_view(records@).take(1) =~= seq![records_view(records@)[0]]);
            while i < records.len()
                invariant
                    1 <= i <= records.len(),
                    m == min_ttl(records_view(records@).take(i as int)),
                decreases records.len() - i,
            {
                let ghost rs = records_view(records@);
                assert(rs.take(i + 1).drop_last() =~= rs.take(i as int));
                if records[i].ttl < m {
                    m = records[i].ttl;
                }
                i = i + 1;
            }
            assert(records_view(records@).take(records.len() as int) =~= records_view(records@));
            let lo = self.config.min_ttl;
            let hi = self.config.max_ttl;
            let final_ttl = if m < lo {
                lo
            } else if m > hi {
                hi
            } else {
                m
            };
            let delta: u128 = (final_ttl as u128) * NANOS_PER_SEC;
            let expires_at = if now <= u128::MAX - delta {
                now + delta
            } else {
                u128::MAX
            };
            let key = Self::key_of(&query);
            let entry = CacheEntry { message: records, expires_at };
            let ghost before = cache_contents(self.cache);
            let ghost kv = (key.0@, key.1, key.2);
            let ghost ev = entry@;
            cache_insert(&mut self.cache, key, entry);
            proof {
                assert(answers_nonempty(before.insert(kv, ev))) by {
                    assert forall|k: CacheKeyView| #[trigger] before.insert(kv, ev).contains_key(k) implies before.insert(kv, ev)[k].message.len() > 0 by {
                        if k != kv {
                            assert(before.contains_key(k));
                        }
                    }
                }
                lemma_submap_keeps_nonempty(cache_contents(self.cache), before.insert(kv, ev));
            }
        }
    }

    /// Stores an answer at the current time; see [`CachePlugin::store_at`].
    pub fn store(&mut self, query: DnsQuery, records: Vec<DnsRecord>)
        requires
            old(self).wf(),
            records@.len() > 0 ==> old(self).config_view().min_ttl <= old(self).config_view().max_ttl,
        ensures
            final(self).wf(),
            final(self).config_view() == old(self).config_view(),
            records@.len() == 0 ==> final(self).contents() == old(self).contents(),
            records@.len() > 0 ==> exists|now: u128| store_outcome(
                old(self).contents(),
                final(self).contents(),
                cache_key(query@),
                stored_entry(records_view(records@), old(self).config_view(), now),
                old(self).config_view().max_size,
            ),
    {
        let now = self.now();
        self.store_at(query, records, now);
    }

    /// Serves the first question's stored answer when it has not expired at
    /// time `now`; an expired answer is discarded, and the request continues
    /// unchanged.  A request without a question is a server failure.
    pub fn handle_request_at(&mut self, request: DnsMessage, now: u128) -> (r: Result<PluginAction, u16>)
        requires
            old(self).wf(),
        ensures
            final(self).wf(),
            final(self).config_view() == old(self).config_view(),
            outcome_view(r) == cache_action(old(self).contents(), request@, now),
            final(self).contents().submap_of(old(self).contents()),
            expired_removed(old(self).contents(), final(self).contents(), request@, now),
    {
        if request.queries.len() == 0 {
            return Err(RCODE_SERV_FAIL);
        }
        let key = Self::key_of(&request.queries[0]);
        let ghost before = cache_contents(self.cache);
        let found = cache_get(&mut self.cache, &key);
        proof {
            lemma_submap_keeps_nonempty(cache_contents(self.cache), before);
        }
        if let Some(entry) = found {
            if entry.expires_at > now {
                return Ok(PluginAction::Response(entry.message));
            } else {
                let ghost mid = cache_contents(self.cache);
                cache_invalidate(&mut self.cache, &key);
                proof {
                    let kv = (key.0@, key.1, key.2);
                    assert(!mid.remove(kv).dom().contains(kv));
                    assert(!cache_contents(self.cache).contains_key(kv));
                    assert(mid.remove(kv).submap_of(mid));
                    lemma_submap_trans(cache_contents(self.cache), mid.remove(kv), mid);
                    lemma_submap_trans(cache_contents(self.cache), mid, before);
                    lemma_submap_keeps_nonempty(cache_contents(self.cache), before);
                }
            }
        } else {
            assert(!before.contains_key((key.0@, key.1, key.2)));
        }
        Ok(PluginAction::Continue(request))
    }

    /// Serves a request at the current time; see [`CachePlugin::handle_request_at`].
    pub fn handle_request(&mut self, request: DnsMessage) -> (r: Result<PluginAction, u16>)
        requires
            old(self).wf(),
        ensures
            final(self).wf(),
            final(self).config_view() == old(self).config_view(),
            exists|now: u128| outcome_view(r) == cache_action(old(self).contents(), request@, now)
                && expired_removed(old(self).contents(), final(self).contents(), request@, now),
            final(self).contents().submap_of(old(self).contents()),
    {
        let now = self.now();
        self.handle_request_at(request, now)
    }
}

impl Plugin for CachePlugin {
    fn name(&self) -> (r: &'static str)
        ensures
            r@ == "cache"@,
    {
        "cache"
    }
}

} // verus!
