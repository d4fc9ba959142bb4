//! Memory-efficient data handling: an LRU cache with size-based eviction,
//! pagination, and memory pressure levels.

use crate::text::str_eq;
use std::time::Instant;
use vstd::prelude::*;

verus! {

/// Configuration for memory optimization.
#[derive(Debug, Clone, Copy)]
pub struct MemoryConfig {
    /// Soft limit on memory use, in bytes.
    pub max_memory_bytes: usize,
    /// Maximum number of cached items.
    pub max_cache_items: usize,
    /// Default page size.
    pub default_page_size: usize,
    /// Largest page size allowed.
    pub max_page_size: usize,
    /// How long a cache entry lives, in milliseconds.
    pub cache_ttl_ms: u64,
    /// Whether eviction runs automatically.
    pub auto_eviction: bool,
    /// How often eviction runs, in milliseconds.
    pub eviction_interval_ms: u64,
    /// The pressure level, in percent, from which memory counts as low.
    pub low_memory_threshold_percent: usize,
}

impl Default for MemoryConfig {
    fn default() -> (r: MemoryConfig)
        ensures
            r.max_memory_bytes == 100 * 1024 * 1024,
            r.max_cache_items == 1000,
            r.default_page_size == 20,
            r.max_page_size == 100,
            r.cache_ttl_ms == 3_600_000,
            r.auto_eviction,
            r.eviction_interval_ms == 60_000,
            r.low_memory_threshold_percent == 80,
    {
        MemoryConfig {
            max_memory_bytes: 100 * 1024 * 1024,
            max_cache_items: 1000,
            default_page_size: 20,
            max_page_size: 100,
            cache_ttl_ms: 3_600_000,
            auto_eviction: true,
            eviction_interval_ms: 60_000,
            low_memory_threshold_percent: 80,
        }
    }
}

/// Memory usage statistics.
#[derive(Debug, Clone, Copy)]
pub struct MemoryStats {
    /// Current estimated memory use.
    pub current_usage: usize,
    /// Peak memory use.
    pub peak_usage: usize,
    /// Number of cache hits.
    pub cache_hits: u64,
    /// Number of cache misses.
    pub cache_misses: u64,
    /// Number of evictions.
    pub evictions: u64,
    /// Number of cached items.
    pub cached_items: usize,
}

impl Default for MemoryStats {
    fn default() -> (r: MemoryStats)
        ensures
            r.current_usage == 0 && r.peak_usage == 0 && r.cache_hits == 0 && r.cache_misses == 0
                && r.evictions == 0 && r.cached_items == 0,
    {
        MemoryStats {
            current_usage: 0,
            peak_usage: 0,
            cache_hits: 0,
            cache_misses: 0,
            evictions: 0,
            cached_items: 0,
        }
    }
}

// ─── Pagination ──────────────────────────────────────────────────────────────

/// Sort order for pagination.
#[derive(Debug, Clone, Copy, PartialEq, Eq, Structural)]
pub enum SortOrder {
    /// Newest first.
    Descending,
    /// Oldest first.
    Ascending,
}

/// A request for one page.
#[derive(Debug, Clone, Copy)]
pub struct PageRequest {
    /// Page number, from 0.
    pub page: usize,
    /// Items per page.
    pub page_size: usize,
    /// Sort order.
    pub sort_order: SortOrder,
}

impl Default for PageRequest {
    fn default() -> (r: PageRequest)
        ensures
            r.page == 0 && r.page_size == 20 && r.sort_order == SortOrder::Descending,
    {
        PageRequest { page: 0, page_size: 20, sort_order: SortOrder::Descending }
    }
}

impl PageRequest {
    /// A request for `page` with `page_size` items, newest first.
    pub fn new(page: usize, page_size: usize) -> (r: PageRequest)
        ensures
            r.page == page && r.page_size == page_size && r.sort_order == SortOrder::Descending,
    {
        PageRequest { page, page_size, sort_order: SortOrder::Descending }
    }

    /// The index of the page's first item.
    pub fn offset(&self) -> (r: usize)
        requires
            self.page * self.page_size <= usize::MAX,
        ensures
            r == self.page * self.page_size,
    {
        self.page * self.page_size
    }

    /// The same request with another sort order.
    pub fn with_sort_order(self, order: SortOrder) -> (r: PageRequest)
        ensures
            r.page == self.page && r.page_size == self.page_size && r.sort_order == order,
    {
        PageRequest { sort_order: order, ..self }
    }
}

/// One page of results.
#[derive(Debug, Clone)]
pub struct PageResponse<T> {
    /// The page's items.
    pub items: Vec<T>,
    /// Total number of items.
    pub total_items: usize,
    /// Total number of pages.
    pub total_pages: usize,
    /// This page's number.
    pub current_page: usize,
    /// Items per page.
    pub page_size: usize,
    /// Whether a later page exists.
    pub has_next: bool,
    /// Whether an earlier page exists.
    pub has_previous: bool,
}

/// The number of pages `total` items fill, `page_size` to a page.
pub open spec fn pages_for(total: int, page_size: int) -> int {
    (total + page_size - 1) / page_size
}

impl<T> PageResponse<T> {
    /// A page of `items`: page `page` of `page_size` items out of
    /// `total_items`.
    pub fn new(items: Vec<T>, total_items: usize, page: usize, page_size: usize) -> (r:
        PageResponse<T>)
        requires
            page_size > 0,
            total_items + page_size <= usize::MAX,
            page < usize::MAX,
        ensures
            r.items@ == items@,
            r.total_items == total_items,
            r.total_pages == pages_for(total_items as int, page_size as int),
            r.current_page == page,
            r.page_size == page_size,
            r.has_next == (page + 1 < r.total_pages),
            r.has_previous == (page > 0),
    {
        let total_pages = (total_items + page_size - 1) / page_size;
        PageResponse {
            items,
            total_items,
            total_pages,
            current_page: page,
            page_size,
            has_next: page + 1 < total_pages,
            has_previous: page > 0,
        }
    }

    /// The same page with each item mapped by `f`.
    pub fn map<U, F: Fn(T) -> U>(self, f: F) -> (r: PageResponse<U>)
        requires
            forall|i: int| 0 <= i < self.items@.len() ==> f.requires((self.items@[i],)),
        ensures
            r.items@.len() == self.items@.len(),
            forall|i: int|
                0 <= i < self.items@.len() ==> f.ensures((self.items@[i],), #[trigger] r.items@[i]),
            r.total_items == self.total_items,
            r.total_pages == self.total_pages,
            r.current_page == self.current_page,
            r.page_size == self.page_size,
            r.has_next == self.has_next,
            r.has_previous == self.has_previous,
    {
        let ghost orig = self.items@;
        let mut src = self.items;
        let mut out: Vec<U> = Vec::new();
        let n = src.len();
        let mut i: usize = 0;
        while i < n
            invariant
                i <= n == orig.len(),
                src@ == orig.skip(i as int),
                out@.len() == i,
                forall|j: int| 0 <= j < orig.len() ==> f.requires((orig[j],)),
                forall|j: int| 0 <= j < i ==> f.ensures((orig[j],), #[trigger] out@[j]),
            decreases n - i,
        {
            let x = src.remove(0);
            assert(x == orig[i as int]);
            assert(src@ =~= orig.skip(i + 1));
            out.push(f(x));
            i += 1;
        }
        PageResponse {
            items: out,
            total_items: self.total_items,
            total_pages: self.total_pages,
            current_page: self.current_page,
            page_size: self.page_size,
            has_next: self.has_next,
            has_previous: self.has_previous,
        }
    }
}

// ─── Memory pressure ─────────────────────────────────────────────────────────

/// Memory pressure state.
#[derive(Debug, Clone, Copy, PartialEq, Eq, Structural)]
pub enum PressureState {
    /// Normal operation.
    Normal,
    /// Moderate pressure: consider eviction.
    Moderate,
    /// High pressure: evict aggressively.
    High,
    /// Critical: evict now.
    Critical,
}

/// The state of a pressure level: up to 50 normal, up to 80 moderate, up to
/// 95 high, critical above.
pub open spec fn state_of(level: int) -> PressureState {
    if level <= 50 {
        PressureState::Normal
    } else if level <= 80 {
        PressureState::Moderate
    } else if level <= 95 {
        PressureState::High
    } else {
        PressureState::Critical
    }
}

/// Tracks the memory pressure level, in percent (0 to 100).
pub struct MemoryPressureDetector {
    config: MemoryConfig,
    pressure_level: usize,
}

impl MemoryPressureDetector {
    /// The configuration.
    pub closed spec fn cfg(&self) -> MemoryConfig {
        self.config
    }

    /// The current pressure level.
    pub closed spec fn level(&self) -> int {
        self.pressure_level as int
    }

    /// A detector at level 0.
    pub fn new(config: MemoryConfig) -> (r: MemoryPressureDetector)
        ensures
            r.cfg() == config,
            r.level() == 0,
    {
        MemoryPressureDetector { config, pressure_level: 0 }
    }

    /// Records a measured pressure, capped at 100.
    pub fn record_pressure(&mut self, pressure: usize)
        ensures
            final(self).cfg() == old(self).cfg(),
            final(self).level() == if pressure < 100 {
                pressure as int
            } else {
                100
            },
    {
        self.pressure_level = if pressure < 100 {
            pressure
        } else {
            100
        };
    }

    /// The current pressure level (0 to 100).
    pub fn pressure_level(&self) -> (r: usize)
        ensures
            r == self.level(),
    {
        self.pressure_level
    }

    /// Whether the level has reached the low-memory threshold.
    pub fn is_under_pressure(&self) -> (r: bool)
        ensures
            r == (self.level() >= self.cfg().low_memory_threshold_percent),
    {
        self.pressure_level >= self.config.low_memory_threshold_percent
    }

    /// The pressure state of the current level.
    pub fn state(&self) -> (r: PressureState)
        ensures
            r == state_of(self.level()),
    {
        let level = self.pressure_level;
        if level <= 50 {
            PressureState::Normal
        } else if level <= 80 {
            PressureState::Moderate
        } else if level <= 95 {
            PressureState::High
        } else {
            PressureState::Critical
        }
    }
}

// ─── LRU cache ───────────────────────────────────────────────────────────────

/// A cached value with its size and when it was stored.
pub struct CacheEntry<V> {
    /// The value.
    pub value: V,
    /// Its size in bytes.
    pub size: usize,
    /// When it was stored.
    pub created_at: Instant,
}

/// Whether an entry stored at `created_at` has outlived `ttl_ms`, by the
/// monotonic clock.
fn outlived(created_at: &Instant, ttl_ms: u64) -> bool {
    let age = crate::bootstrap::instant_elapsed(created_at);
    crate::bootstrap::duration_as_nanos(&age) > (ttl_ms as u128) * 1_000_000
}

/// The keys of cache entries, least recently used first.
pub open spec fn entry_keys<V>(s: Seq<(String, CacheEntry<V>)>) -> Seq<Seq<char>> {
    s.map_values(|e: (String, CacheEntry<V>)| e.0@)
}

/// The total size of cache entries.
pub open spec fn total_size<V>(s: Seq<(String, CacheEntry<V>)>) -> nat
    decreases s.len(),
{
    if s.len() == 0 {
        0
    } else {
        total_size(s.drop_last()) + s.last().1.size as nat
    }
}

/// Whether no key occurs twice.
pub open spec fn unique_keys<V>(s: Seq<(String, CacheEntry<V>)>) -> bool {
    forall|i: int, j: int| 0 <= i < j < s.len() ==> #[trigger] s[i].0@ != #[trigger] s[j].0@
}

/// The entries whose flag is not set, in order.
pub open spec fn kept<V>(s: Seq<(String, CacheEntry<V>)>, flags: Seq<bool>) -> Seq<
    (String, CacheEntry<V>),
>
    decreases s.len(),
{
    if s.len() == 0 || flags.len() == 0 {
        Seq::empty()
    } else {
        kept(s.drop_last(), flags.drop_last()) + if flags.last() {
            Seq::empty()
        } else {
            seq![s.last()]
        }
    }
}

/// What is kept is no longer than the entries, and each of its items is one
/// of them.
proof fn lemma_kept_within<V>(s: Seq<(String, CacheEntry<V>)>, flags: Seq<bool>)
    ensures
        kept(s, flags).len() <= s.len(),
        forall|j: int| 0 <= j < kept(s, flags).len() ==> s.contains(#[trigger] kept(s, flags)[j]),
    decreases s.len(),
{
    if s.len() > 0 && flags.len() > 0 {
        let pre = s.drop_last();
        lemma_kept_within(pre, flags.drop_last());
        let kp = kept(pre, flags.drop_last());
        assert forall|j: int| 0 <= j < kept(s, flags).len() implies s.contains(#[trigger] kept(s, flags)[j]) by {
            if j < kp.len() {
                assert(kept(s, flags)[j] == kp[j]);
                let w = choose|x: int| 0 <= x < pre.len() && pre[x] == kp[j];
                assert(s[w] == pre[w]);
            } else {
                assert(kept(s, flags)[j] == s[s.len() - 1]);
            }
        }
    }
}

/// Whether adding `size` bytes to entries of `used` bytes and `count` items
/// calls for an eviction first.
pub open spec fn over_limit(used: int, count: int, size: int, cfg: MemoryConfig) -> bool {
    used + size > cfg.max_memory_bytes || count >= cfg.max_cache_items
}

/// How many of the oldest entries are evicted to make room for `size`
/// bytes: the oldest goes while the limits call for it and entries remain.
pub open spec fn evictions_for<V>(s: Seq<(String, CacheEntry<V>)>, size: int, cfg: MemoryConfig) -> nat
    decreases s.len(),
{
    if s.len() > 0 && over_limit(total_size(s) as int, s.len() as int, size, cfg) {
        1 + evictions_for(s.drop_first(), size, cfg)
    } else {
        0
    }
}

/// Whether an entry is stored under another key than `key`.
pub open spec fn other_key<V>(key: Seq<char>) -> spec_fn((String, CacheEntry<V>)) -> bool {
    |e: (String, CacheEntry<V>)| e.0@ != key
}

/// The entries without the one stored under `key`.
pub open spec fn without_key<V>(s: Seq<(String, CacheEntry<V>)>, key: Seq<char>) -> Seq<
    (String, CacheEntry<V>),
> {
    s.filter(other_key(key))
}

/// The value stored under `key`, if any.
pub open spec fn lookup<V>(s: Seq<(String, CacheEntry<V>)>, key: Seq<char>) -> Option<V>
    decreases s.len(),
{
    if s.len() == 0 {
        None
    } else if s.last().0@ == key {
        Some(s.last().1.value)
    } else {
        lookup(s.drop_last(), key)
    }
}

/// Removing the entry at `i` lowers the total by its size.
proof fn lemma_total_remove<V>(s: Seq<(String, CacheEntry<V>)>, i: int)
    requires
        0 <= i < s.len(),
    ensures
        total_size(s.remove(i)) + s[i].1.size == total_size(s),
    decreases s.len(),
{
    if i < s.len() - 1 {
        lemma_total_remove(s.drop_last(), i);
        assert(s.remove(i).drop_last() =~= s.drop_last().remove(i));
    } else {
        assert(s.remove(i) =~= s.drop_last());
    }
}

/// With unique keys, removing the entry at `i` is removing its key.
proof fn lemma_remove_is_without<V>(s: Seq<(String, CacheEntry<V>)>, i: int)
    requires
        0 <= i < s.len(),
        unique_keys(s),
    ensures
        s.remove(i) == without_key(s, s[i].0@),
        unique_keys(s.remove(i)),
    decreases s.len(),
{
    let key = s[i].0@;
    let f = other_key::<V>(key);
    let pre = s.drop_last();
    assert(s =~= pre.push(s.last()));
    pre.lemma_filter_push(s.last(), f);
    assert(unique_keys(pre));
    if i < s.len() - 1 {
        lemma_remove_is_without(pre, i);
        assert(s.remove(i) =~= pre.remove(i).push(s.last()));
        assert(s.last().0@ != key);
    } else {
        assert(s.remove(i) =~= pre);
        assert forall|j: int| 0 <= j < pre.len() implies f(pre[j]) by {
            assert(s[j].0@ != s[i].0@);
        }
        lemma_filter_all(pre, f);
    }
    assert forall|a: int, b: int| 0 <= a < b < s.remove(i).len() implies #[trigger] s.remove(
        i,
    )[a].0@ != #[trigger] s.remove(i)[b].0@ by {
        let a0 = if a < i { a } else { a + 1 };
        let b0 = if b < i { b } else { b + 1 };
        assert(s[a0].0@ != s[b0].0@);
    }
}

/// Filtering by a predicate that every element meets keeps everything.
proof fn lemma_filter_all<A>(s: Seq<A>, f: spec_fn(A) -> bool)
    requires
        forall|j: int| 0 <= j < s.len() ==> f(s[j]),
    ensures
        s.filter(f) == s,
    decreases s.len(),
{
    reveal(Seq::filter);
    if s.len() > 0 {
        lemma_filter_all(s.drop_last(), f);
        assert(s.drop_last().push(s.last()) =~= s);
    }
}

/// Without any entry for `key`, filtering it out keeps everything.
proof fn lemma_without_absent<V>(s: Seq<(String, CacheEntry<V>)>, key: Seq<char>)
    requires
        forall|j: int| 0 <= j < s.len() ==> #[trigger] s[j].0@ != key,
    ensures
        without_key(s, key) == s,
{
    let f = other_key::<V>(key);
    assert forall|j: int| 0 <= j < s.len() implies f(s[j]) by {}
    lemma_filter_all(s, f);
}

/// Dropping the oldest entry keeps the keys unique.
proof fn lemma_unique_skip<V>(s: Seq<(String, CacheEntry<V>)>, k: int)
    requires
        unique_keys(s),
        0 <= k <= s.len(),
    ensures
        unique_keys(s.skip(k)),
{
    assert forall|a: int, b: int| 0 <= a < b < s.skip(k).len() implies #[trigger] s.skip(k)[a].0@
        != #[trigger] s.skip(k)[b].0@ by {
        assert(s[a + k].0@ != s[b + k].0@);
    }
}

/// A cache that evicts its least recently used entries when it exceeds its
/// item or byte limits, and whose entries expire after the configured time.
pub struct LruCache<V> {
    entries: Vec<(String, CacheEntry<V>)>,
    config: MemoryConfig,
    current_size: usize,
    stats: MemoryStats,
}

impl<V> LruCache<V> {
    /// The entries, least recently used first.
    pub closed spec fn items(&self) -> Seq<(String, CacheEntry<V>)> {
        self.entries@
    }

    /// The configuration.
    pub closed spec fn cfg(&self) -> MemoryConfig {
        self.config
    }

    /// The statistics.
    pub closed spec fn counters(&self) -> MemoryStats {
        self.stats
    }

    /// The keys, least recently used first.
    pub open spec fn keys(&self) -> Seq<Seq<char>> {
        entry_keys(self.items())
    }

    /// The cache's invariant: keys are unique, the byte count is the total
    /// of the entries' sizes, and the statistics agree with the entries.
    pub closed spec fn wf(&self) -> bool {
        &&& unique_keys(self.entries@)
        &&& self.current_size == total_size(self.entries@)
        &&& self.stats.current_usage == self.current_size
        &&& self.stats.cached_items == self.entries@.len()
        &&& self.stats.peak_usage >= self.current_size
    }

    /// An empty cache.
    pub fn new(config: MemoryConfig) -> (r: LruCache<V>)
        ensures
            r.wf(),
            r.items().len() == 0,
            r.cfg() == config,
            r.counters().cache_hits == 0 && r.counters().cache_misses == 0
                && r.counters().evictions == 0 && r.counters().peak_usage == 0,
    {
        LruCache {
            entries: Vec::new(),
            config,
            current_size: 0,
            stats: MemoryStats::default(),
        }
    }

    /// The index of the entry for `key`, if any.
    fn position(&self, key: &str) -> (r: Option<usize>)
        ensures
            match r {
                Some(i) => i < self.entries@.len() && self.entries@[i as int].0@ == key@,
                None => forall|j: int|
                    0 <= j < self.entries@.len() ==> #[trigger] self.entries@[j].0@ != key@,
            },
    {
        let mut i: usize = 0;
        while i < self.entries.len()
            invariant
                i <= self.entries@.len(),
                forall|j: int| 0 <= j < i ==> #[trigger] self.entries@[j].0@ != key@,
            decreases self.entries@.len() - i,
        {
            if str_eq(self.entries[i].0.as_str(), key) {
                return Some(i);
            }
            i += 1;
        }
        None
    }

    /// Takes out the entry at `i`, keeping the byte count.
    fn take_at(&mut self, i: usize) -> (r: (String, CacheEntry<V>))
        requires
            i < old(self).entries@.len(),
            unique_keys(old(self).entries@),
            old(self).current_size == total_size(old(self).entries@),
        ensures
            r == old(self).entries@[i as int],
            final(self).entries@ == old(self).entries@.remove(i as int),
            final(self).entries@ == without_key(old(self).entries@, r.0@),
            unique_keys(final(self).entries@),
            final(self).current_size == total_size(final(self).entries@),
            final(self).current_size + r.1.size == old(self).current_size,
            final(self).config == old(self).config,
            final(self).stats == old(self).stats,
    {
        proof {
            lemma_total_remove(self.entries@, i as int);
            lemma_remove_is_without(self.entries@, i as int);
        }
        let e = self.entries.remove(i);
        self.current_size = self.current_size - e.1.size;
        e
    }

    /// Whether adding `size` bytes calls for an eviction.
    fn should_evict(&self, size: usize) -> (r: bool)
        ensures
            r == over_limit(self.current_size as int, self.entries@.len() as int, size as int, self.config),
    {
        size > self.config.max_memory_bytes || self.current_size > self.config.max_memory_bytes
            - size || self.entries.len() >= self.config.max_cache_items
    }

    /// Inserts `value` under `key` with its size: an entry under the same key
    /// goes first, then the oldest entries while the limits call for it, and
    /// the new entry becomes the most recently used.
    pub fn insert(&mut self, key: String, value: V, size: usize)
        requires
            old(self).wf(),
            old(self).counters().evictions + old(self).items().len() <= u64::MAX,
        ensures
            final(self).wf(),
            ({
                let base = without_key(old(self).items(), key@);
                let k = evictions_for(base, size as int, old(self).cfg());
                &&& final(self).items().drop_last() == base.skip(k as int)
                &&& final(self).items().last().0@ == key@
                &&& final(self).items().last().1.value == value
                &&& final(self).items().last().1.size == size
                &&& final(self).counters().evictions == old(self).counters().evictions + k
            }),
            final(self).cfg() == old(self).cfg(),
            final(self).counters().cache_hits == old(self).counters().cache_hits,
            final(self).counters().cache_misses == old(self).counters().cache_misses,
    {
        let ghost old_len = self.entries@.len();
        match self.position(key.as_str()) {
            Some(i) => {
                self.take_at(i);
            },
            None => {
                proof {
                    lemma_without_absent(self.entries@, key@);
                }
            },
        }
        let ghost base = self.entries@;
        assert(base == without_key(old(self).entries@, key@));
        assert(base.len() <= old_len) by {
            old(self).entries@.lemma_filter_len(other_key::<V>(key@));
        }
        let ghost mut k: nat = 0;
        while self.should_evict(size) && self.entries.len() > 0
            invariant
                unique_keys(self.entries@),
                self.current_size == total_size(self.entries@),
                k <= base.len(),
                self.entries@ == base.skip(k as int),
                evictions_for(base, size as int, self.config) == k + evictions_for(
                    self.entries@,
                    size as int,
                    self.config,
                ),
                self.config == old(self).config,
                self.stats.evictions == old(self).stats.evictions + k,
                old(self).stats.evictions + old_len <= u64::MAX,
                base.len() <= old_len,
                self.stats.cache_hits == old(self).stats.cache_hits,
                self.stats.cache_misses == old(self).stats.cache_misses,
                self.stats.peak_usage >= old(self).stats.peak_usage,
            decreases self.entries@.len(),
        {
            let ghost cur = self.entries@;
            assert(cur.drop_first() =~= cur.remove(0));
            assert(base.skip(k + 1 as int) =~= cur.drop_first());
            self.take_at(0);
            self.stats.evictions = self.stats.evictions + 1;
            self.stats.current_usage = self.current_size;
            self.stats.cached_items = self.entries.len();
            proof {
                k = k + 1;
            }
        }
        assert(evictions_for(self.entries@, size as int, self.config) == 0);
        proof {
            lemma_unique_skip(base, k as int);
            if self.entries@.len() == 0 {
                assert(total_size(self.entries@) == 0);
            }
        }
        let ghost before = self.entries@;
        let created_at = crate::bootstrap::instant_now();
        let entry = CacheEntry { value, size, created_at };
        proof {
            assert forall|j: int| 0 <= j < before.len() implies #[trigger] before[j].0@ != key@ by {
                assert(before[j] == base[j + k]);
                old(self).entries@.lemma_filter_pred(other_key::<V>(key@), j + k);
            }
        }
        self.entries.push((key, entry));
        self.current_size = self.current_size + size;
        proof {
            assert(self.entries@.drop_last() =~= before);
            assert forall|a: int, b: int| 0 <= a < b < self.entries@.len() implies #[trigger] self.entries@[a].0@
                != #[trigger] self.entries@[b].0@ by {
                if b < before.len() {
                    assert(before[a].0@ != before[b].0@);
                }
            }
        }
        self.stats.current_usage = self.current_size;
        if self.stats.peak_usage < self.stats.current_usage {
            self.stats.peak_usage = self.stats.current_usage;
        }
        self.stats.cached_items = self.entries.len();
    }

    /// The value stored under `key`, unless it is missing or has expired;
    /// a found value becomes the most recently used entry. Hits and misses
    /// are counted. Whether a stored entry has expired depends on the clock.
    pub fn get(&mut self, key: &str) -> (r: Option<&V>)
        requires
            old(self).wf(),
            old(self).counters().cache_hits < u64::MAX,
            old(self).counters().cache_misses < u64::MAX,
        ensures
            final(self).wf(),
            final(self).cfg() == old(self).cfg(),
            final(self).counters().evictions == old(self).counters().evictions,
            match r {
                Some(v) => {
                    &&& lookup(old(self).items(), key@) == Some(*v)
                    &&& final(self).items().drop_last() == without_key(old(self).items(), key@)
                    &&& final(self).items().last().0@ == key@
                    &&& final(self).items().last().1.value == *v
                    &&& final(self).counters().cache_hits == old(self).counters().cache_hits + 1
                    &&& final(self).counters().cache_misses == old(self).counters().cache_misses
                },
                None => {
                    &&& final(self).items() == old(self).items()
                    &&& final(self).counters().cache_hits == old(self).counters().cache_hits
                    &&& final(self).counters().cache_misses == old(self).counters().cache_misses + 1
                },
            },
    {
        match self.position(key) {
            None => {
                proof {
                    lemma_lookup_absent(self.entries@, key@);
                }
                self.stats.cache_misses = self.stats.cache_misses + 1;
                None
            },
            Some(i) => {
                if outlived(&self.entries[i].1.created_at, self.config.cache_ttl_ms) {
                    self.stats.cache_misses = self.stats.cache_misses + 1;
                    None
                } else {
                    proof {
                        lemma_lookup_at(self.entries@, i as int);
                    }
                    let ghost before = self.entries@;
                    let e = self.take_at(i);
                    let ghost mid = self.entries@;
                    proof {
                        assert forall|j: int| 0 <= j < mid.len() implies #[trigger] mid[j].0@ != e.0@ by {
                            let j0 = if j < i { j } else { j + 1 };
                            assert(mid[j] == before[j0]);
                            assert(before[j0].0@ != before[i as int].0@);
                        }
                    }
                    let sz = e.1.size;
                    self.entries.push(e);
                    self.current_size = self.current_size + sz;
                    proof {
                        assert(self.entries@.drop_last() =~= mid);
                        assert(total_size(self.entries@) == total_size(mid) + sz);
                        assert forall|a: int, b: int| 0 <= a < b < self.entries@.len() implies #[trigger] self.entries@[a].0@
                            != #[trigger] self.entries@[b].0@ by {
                            if b < mid.len() {
                                assert(mid[a].0@ != mid[b].0@);
                            }
                        }
                    }
                    self.stats.cache_hits = self.stats.cache_hits + 1;
                    let n = self.entries.len();
                    Some(&self.entries[n - 1].1.value)
                }
            },
        }
    }

    /// Removes the entry stored under `key` and gives back its value.
    pub fn remove(&mut self, key: &str) -> (r: Option<V>)
        requires
            old(self).wf(),
        ensures
            final(self).wf(),
            r == lookup(old(self).items(), key@),
            final(self).items() == without_key(old(self).items(), key@),
            final(self).cfg() == old(self).cfg(),
            final(self).counters().cache_hits == old(self).counters().cache_hits,
            final(self).counters().cache_misses == old(self).counters().cache_misses,
            final(self).counters().evictions == old(self).counters().evictions,
    {
        match self.position(key) {
            Some(i) => {
                proof {
                    lemma_lookup_at(self.entries@, i as int);
                }
                let e = self.take_at(i);
                self.stats.current_usage = self.current_size;
                self.stats.cached_items = self.entries.len();
                Some(e.1.value)
            },
            None => {
                proof {
                    lemma_lookup_absent(self.entries@, key@);
                    lemma_without_absent(self.entries@, key@);
                }
                None
            },
        }
    }

    /// Removes the entries whose flag is set; the others stay, in order.
    fn remove_flagged(&mut self, expired: &Vec<bool>)
        requires
            old(self).wf(),
            expired@.len() == old(self).items().len(),
        ensures
            final(self).wf(),
            final(self).items() == kept(old(self).items(), expired@),
            final(self).cfg() == old(self).cfg(),
            final(self).counters().cache_hits == old(self).counters().cache_hits,
            final(self).counters().cache_misses == old(self).counters().cache_misses,
            final(self).counters().evictions == old(self).counters().evictions,
    {
        let ghost s0 = self.entries@;
        let ghost f = expired@;
        let n = expired.len();
        let mut i: usize = 0;
        let mut k: usize = 0;
        assert(s0.take(0) =~= Seq::<(String, CacheEntry<V>)>::empty());
        assert(f.take(0) =~= Seq::<bool>::empty());
        assert(s0.skip(0) =~= s0);
        while k < n
            invariant
                n == f.len() == s0.len(),
                f == expired@,
                s0 == old(self).entries@,
                k <= n,
                self.entries@ == kept(s0.take(k as int), f.take(k as int)) + s0.skip(k as int),
                i == kept(s0.take(k as int), f.take(k as int)).len(),
                unique_keys(self.entries@),
                self.current_size == total_size(self.entries@),
                self.current_size <= old(self).current_size,
                self.config == old(self).config,
                self.stats == old(self).stats,
            decreases n - k,
        {
            let ghost pre = kept(s0.take(k as int), f.take(k as int));
            assert(s0.take(k + 1).drop_last() =~= s0.take(k as int));
            assert(f.take(k + 1).drop_last() =~= f.take(k as int));
            assert(self.entries@[i as int] == s0[k as int]);
            if expired[k] {
                self.take_at(i);
                assert(self.entries@ =~= pre + s0.skip(k + 1));
            } else {
                assert(self.entries@ =~= (pre + seq![s0[k as int]]) + s0.skip(k + 1));
                let len_now = self.entries.len();
                assert(i < len_now);
                i += 1;
            }
            k += 1;
        }
        assert(s0.take(n as int) =~= s0);
        assert(f.take(n as int) =~= f);
        assert(s0.skip(n as int) =~= Seq::<(String, CacheEntry<V>)>::empty());
        assert(self.entries@ =~= kept(s0, f));
        self.stats.current_usage = self.current_size;
        self.stats.cached_items = self.entries.len();
    }

    /// Removes every entry that has expired by the clock; the others stay,
    /// in order. Which entries have expired rests on the clock.
    pub fn cleanup_expired(&mut self)
        requires
            old(self).wf(),
        ensures
            final(self).wf(),
            exists|expired: Seq<bool>|
                expired.len() == old(self).items().len() && #[trigger] kept(old(self).items(), expired)
                    == final(self).items(),
            final(self).items().len() <= old(self).items().len(),
            forall|j: int|
                0 <= j < final(self).items().len() ==> old(self).items().contains(
                    #[trigger] final(self).items()[j],
                ),
            final(self).cfg() == old(self).cfg(),
            final(self).counters().cache_hits == old(self).counters().cache_hits,
            final(self).counters().cache_misses == old(self).counters().cache_misses,
            final(self).counters().evictions == old(self).counters().evictions,
    {
        let n = self.entries.len();
        let mut expired: Vec<bool> = Vec::new();
        let mut i: usize = 0;
        while i < n
            invariant
                i <= n == self.entries@.len(),
                expired@.len() == i,
            decreases n - i,
        {
            expired.push(outlived(&self.entries[i].1.created_at, self.config.cache_ttl_ms));
            i += 1;
        }
        let ghost f = expired@;
        self.remove_flagged(&expired);
        proof {
            lemma_kept_within(old(self).entries@, f);
        }
    }

    /// The bytes in use.
    pub fn memory_usage(&self) -> (r: usize)
        requires
            self.wf(),
        ensures
            r == total_size(self.items()),
    {
        self.current_size
    }

    /// The number of entries.
    pub fn len(&self) -> (r: usize)
        ensures
            r == self.items().len(),
    {
        self.entries.len()
    }

    /// Whether the cache is empty.
    pub fn is_empty(&self) -> (r: bool)
        ensures
            r == (self.items().len() == 0),
    {
        self.entries.len() == 0
    }

    /// The statistics.
    pub fn stats(&self) -> (r: MemoryStats)
        ensures
            r == self.counters(),
    {
        self.stats
    }

    /// Removes every entry.
    pub fn clear(&mut self)
        requires
            old(self).wf(),
        ensures
            final(self).wf(),
            final(self).items().len() == 0,
            final(self).cfg() == old(self).cfg(),
            final(self).counters().cache_hits == old(self).counters().cache_hits,
            final(self).counters().cache_misses == old(self).counters().cache_misses,
            final(self).counters().evictions == old(self).counters().evictions,
    {
        self.entries = Vec::new();
        self.current_size = 0;
        self.stats.current_usage = 0;
        self.stats.cached_items = 0;
    }
}

/// Without an entry for `key`, nothing is found under it.
proof fn lemma_lookup_absent<V>(s: Seq<(String, CacheEntry<V>)>, key: Seq<char>)
    requires
        forall|j: int| 0 <= j < s.len() ==> #[trigger] s[j].0@ != key,
    ensures
        lookup(s, key) is None,
    decreases s.len(),
{
    if s.len() > 0 {
        let pre = s.drop_last();
        assert forall|j: int| 0 <= j < pre.len() implies #[trigger] pre[j].0@ != key by {
            assert(pre[j] == s[j]);
        }
        lemma_lookup_absent(pre, key);
    }
}

/// With unique keys, the entry at `i` is what its key finds.
proof fn lemma_lookup_at<V>(s: Seq<(String, CacheEntry<V>)>, i: int)
    requires
        unique_keys(s),
        0 <= i < s.len(),
    ensures
        lookup(s, s[i].0@) == Some(s[i].1.value),
    decreases s.len(),
{
    if i < s.len() - 1 {
        let pre = s.drop_last();
        assert(pre[i] == s[i]);
        assert(s[i].0@ != s[s.len() - 1].0@);
        lemma_lookup_at(pre, i);
    }
}

} // verus!
