//! The table behind a response cache: entries by key with their sizes,
//! tags, lifetimes and use, the byte count, and what the cache has done.
//!
//! Times are milliseconds of a clock the caller keeps (since the cache was
//! made); which entry to evict when room is needed is the caller's choice,
//! made by its own ranking, and carried out here.

use crate::cache::{is_expired, CachedResponse};
use crate::text::{owned, str_eq, string_views};
use vstd::prelude::*;

verus! {

/// A cached entry.
#[derive(Debug)]
pub struct CacheSlot {
    /// The key it is stored under.
    pub key: String,
    /// The cached response.
    pub response: CachedResponse,
    /// Its estimated size in bytes.
    pub size: usize,
    /// Tags, to invalidate entries together.
    pub tags: Vec<String>,
    /// How long it lives, in milliseconds; `None` for ever.
    pub ttl_ms: Option<u64>,
    /// When it was stored.
    pub created_ms: u64,
    /// When it was last used.
    pub accessed_ms: u64,
    /// How often it was used, its storing included.
    pub access_count: u64,
}

/// Whether a slot has expired at `now`: it has a lifetime and is older.
pub open spec fn slot_expired(s: CacheSlot, now: u64) -> bool {
    match s.ttl_ms {
        Some(t) => (if now >= s.created_ms {
            (now - s.created_ms) as u64
        } else {
            0u64
        }) > t,
        None => false,
    }
}

/// Whether a slot carries the tag.
pub open spec fn slot_tagged(s: CacheSlot, tag: Seq<char>) -> bool {
    string_views(s.tags@).contains(tag)
}

/// The total size of slots.
pub open spec fn sizes(ss: Seq<CacheSlot>) -> int
    decreases ss.len(),
{
    if ss.len() == 0 {
        0
    } else {
        sizes(ss.drop_last()) + ss.last().size
    }
}

/// The index of the first slot under the key.
pub open spec fn slot_index(ss: Seq<CacheSlot>, key: Seq<char>) -> Option<int>
    decreases ss.len(),
{
    if ss.len() == 0 {
        None
    } else {
        match slot_index(ss.drop_last(), key) {
            Some(i) => Some(i),
            None => if ss.last().key@ == key {
                Some(ss.len() - 1)
            } else {
                None
            },
        }
    }
}

/// The slots without those the predicate picks, in order.
pub open spec fn slots_without(ss: Seq<CacheSlot>, pick: spec_fn(CacheSlot) -> bool) -> Seq<CacheSlot> {
    ss.filter(|s: CacheSlot| !pick(s))
}

/// What the cache has done.
#[derive(Debug, Clone, Copy, PartialEq, Eq, Structural)]
pub struct TableCounters {
    /// Lookups that found a live entry.
    pub hits: u64,
    /// Lookups that found none.
    pub misses: u64,
    /// Entries removed to make room or by tag.
    pub evictions: u64,
    /// Entries removed because they expired.
    pub expirations: u64,
}

/// What a lookup found.
#[derive(Debug)]
pub enum Lookup {
    /// A live entry: its response.
    Hit(CachedResponse),
    /// An expired entry, now removed.
    Expired,
    /// No entry under the key.
    Absent,
}

/// The table of a response cache.
pub struct CacheTable {
    slots: Vec<CacheSlot>,
    total_size: usize,
    counters: TableCounters,
}

/// A copy of a cached response, equal field by field.
pub fn copy_response(r: &CachedResponse) -> (c: CachedResponse)
    ensures
        c.content@ == r.content@,
        c.model@ == r.model@,
        c.tokens == r.tokens,
        c.original_query@ == r.original_query@,
        c.metadata@.map_values(|e: (String, String)| (e.0@, e.1@)) == r.metadata@.map_values(
            |e: (String, String)| (e.0@, e.1@),
        ),
{
    let mut metadata: Vec<(String, String)> = Vec::new();
    let mut i: usize = 0;
    while i < r.metadata.len()
        invariant
            i <= r.metadata@.len(),
            metadata@.map_values(|e: (String, String)| (e.0@, e.1@)) == r.metadata@.take(
                i as int,
            ).map_values(|e: (String, String)| (e.0@, e.1@)),
        decreases r.metadata@.len() - i,
    {
        let ghost o = metadata@;
        let e = (owned(r.metadata[i].0.as_str()), owned(r.metadata[i].1.as_str()));
        metadata.push(e);
        assert(metadata@.map_values(|e: (String, String)| (e.0@, e.1@)) =~= o.map_values(
            |e: (String, String)| (e.0@, e.1@),
        ).push((r.metadata@[i as int].0@, r.metadata@[i as int].1@)));
        assert(r.metadata@.take(i + 1) =~= r.metadata@.take(i as int).push(r.metadata@[i as int]));
        assert(metadata@.map_values(|e: (String, String)| (e.0@, e.1@)) =~= r.metadata@.take(
            i + 1,
        ).map_values(|e: (String, String)| (e.0@, e.1@)));
        i += 1;
    }
    assert(r.metadata@.take(r.metadata@.len() as int) =~= r.metadata@);
    CachedResponse {
        content: owned(r.content.as_str()),
        model: owned(r.model.as_str()),
        tokens: r.tokens,
        original_query: owned(r.original_query.as_str()),
        metadata,
    }
}

proof fn lemma_sizes_nonneg(ss: Seq<CacheSlot>)
    ensures
        sizes(ss) >= 0,
    decreases ss.len(),
{
    if ss.len() > 0 {
        lemma_sizes_nonneg(ss.drop_last());
    }
}

/// Removing a slot takes its size off the total.
proof fn lemma_sizes_remove(ss: Seq<CacheSlot>, i: int)
    requires
        0 <= i < ss.len(),
    ensures
        sizes(ss.remove(i)) == sizes(ss) - ss[i].size,
    decreases ss.len(),
{
    if i < ss.len() - 1 {
        assert(ss.remove(i).drop_last() =~= ss.drop_last().remove(i));
        lemma_sizes_remove(ss.drop_last(), i);
    } else {
        assert(ss.remove(i) =~= ss.drop_last());
    }
}

/// Replacing a slot changes the total by the difference of sizes.
proof fn lemma_sizes_update(ss: Seq<CacheSlot>, i: int, s: CacheSlot)
    requires
        0 <= i < ss.len(),
    ensures
        sizes(ss.update(i, s)) == sizes(ss) - ss[i].size + s.size,
    decreases ss.len(),
{
    if i < ss.len() - 1 {
        assert(ss.update(i, s).drop_last() =~= ss.drop_last().update(i, s));
        lemma_sizes_update(ss.drop_last(), i, s);
    } else {
        assert(ss.update(i, s).drop_last() =~= ss.drop_last());
    }
}

/// The first slot under a key is where `slot_index` says.
proof fn lemma_slot_index(ss: Seq<CacheSlot>, key: Seq<char>)
    ensures
        slot_index(ss, key) matches Some(i) ==> 0 <= i < ss.len() && ss[i].key@ == key && forall|j: int|
            0 <= j < i ==> #[trigger] ss[j].key@ != key,
        slot_index(ss, key) is None ==> forall|j: int| 0 <= j < ss.len() ==> #[trigger] ss[j].key@ != key,
    decreases ss.len(),
{
    if ss.len() > 0 {
        lemma_slot_index(ss.drop_last(), key);
        assert forall|j: int| 0 <= j < ss.len() - 1 implies ss.drop_last()[j] == ss[j] by {}
    }
}

impl CacheTable {
    /// The entries, in the order they were stored.
    pub closed spec fn entries(&self) -> Seq<CacheSlot> {
        self.slots@
    }

    /// The byte count.
    pub closed spec fn bytes(&self) -> usize {
        self.total_size
    }

    /// What the cache has done.
    pub closed spec fn done(&self) -> TableCounters {
        self.counters
    }

    /// The byte count is the total size of the entries.
    pub closed spec fn wf(&self) -> bool {
        self.total_size == sizes(self.slots@)
    }

    /// The byte count of a well-formed table is the total size of its
    /// entries.
    pub proof fn lemma_bytes_are_sizes(&self)
        requires
            self.wf(),
        ensures
            self.bytes() == sizes(self.entries()),
    {
    }

    /// An empty table that has done nothing.
    pub fn new() -> (r: CacheTable)
        ensures
            r.wf(),
            r.entries().len() == 0,
            r.bytes() == 0,
            r.done() == (TableCounters { hits: 0, misses: 0, evictions: 0, expirations: 0 }),
    {
        CacheTable {
            slots: Vec::new(),
            total_size: 0,
            counters: TableCounters { hits: 0, misses: 0, evictions: 0, expirations: 0 },
        }
    }

    /// The number of entries.
    pub fn len(&self) -> (r: usize)
        ensures
            r == self.entries().len(),
    {
        self.slots.len()
    }

    /// The byte count.
    pub fn total_size(&self) -> (r: usize)
        ensures
            r == self.bytes(),
    {
        self.total_size
    }

    /// What the cache has done.
    pub fn counters(&self) -> (r: TableCounters)
        ensures
            r == self.done(),
    {
        self.counters
    }

    /// The entries, in the order they were stored.
    pub fn slots(&self) -> (r: &[CacheSlot])
        ensures
            r@ == self.entries(),
    {
        self.slots.as_slice()
    }

    fn position(&self, key: &str) -> (r: Option<usize>)
        ensures
            match r {
                Some(i) => slot_index(self.slots@, key@) == Some(i as int),
                None => slot_index(self.slots@, key@) is None,
            },
    {
        proof {
            lemma_slot_index(self.slots@, key@);
        }
        let mut i: usize = 0;
        while i < self.slots.len()
            invariant
                i <= self.slots@.len(),
                forall|j: int| 0 <= j < i ==> #[trigger] self.slots@[j].key@ != key@,
                slot_index(self.slots@, key@) matches Some(k) ==> i <= k,
            decreases self.slots@.len() - i,
        {
            proof {
                lemma_slot_index(self.slots@, key@);
            }
            if str_eq(self.slots[i].key.as_str(), key) {
                return Some(i);
            }
            i += 1;
        }
        None
    }

    /// Counts a lookup that found a live entry elsewhere.
    pub fn record_hit(&mut self)
        requires
            old(self).done().hits < u64::MAX,
        ensures
            final(self).done() == (TableCounters { hits: (old(self).done().hits + 1) as u64, ..old(self).done() }),
            final(self).entries() == old(self).entries(),
            final(self).bytes() == old(self).bytes(),
            final(self).wf() == old(self).wf(),
    {
        self.counters.hits = self.counters.hits + 1;
    }

    /// Counts a lookup that found nothing.
    pub fn record_miss(&mut self)
        requires
            old(self).done().misses < u64::MAX,
        ensures
            final(self).done() == (TableCounters {
                misses: (old(self).done().misses + 1) as u64,
                ..old(self).done()
            }),
            final(self).entries() == old(self).entries(),
            final(self).bytes() == old(self).bytes(),
            final(self).wf() == old(self).wf(),
    {
        self.counters.misses = self.counters.misses + 1;
    }

    /// Looks up the entry under `key` at `now_ms`: an expired one is
    /// removed and counted as an expiry and a miss; a live one is counted
    /// as a hit, marked used at `now_ms`, and its response given back; a
    /// missing one changes nothing.
    pub fn lookup(&mut self, key: &str, now_ms: u64) -> (r: Lookup)
        requires
            old(self).wf(),
            old(self).done().hits < u64::MAX,
            old(self).done().misses < u64::MAX,
            old(self).done().expirations < u64::MAX,
            forall|j: int| 0 <= j < old(self).entries().len() ==> #[trigger] old(self).entries()[j].access_count < u64::MAX,
        ensures
            final(self).wf(),
            match slot_index(old(self).entries(), key@) {
                None => r is Absent && *final(self) == *old(self),
                Some(i) => if slot_expired(old(self).entries()[i], now_ms) {
                    &&& r is Expired
                    &&& final(self).entries() == old(self).entries().remove(i)
                    &&& final(self).bytes() == old(self).bytes() - old(self).entries()[i].size
                    &&& final(self).done() == (TableCounters {
                        expirations: (old(self).done().expirations + 1) as u64,
                        misses: (old(self).done().misses + 1) as u64,
                        ..old(self).done()
                    })
                } else {
                    let s = old(self).entries()[i];
                    &&& r matches Lookup::Hit(resp) && resp.content@ == s.response.content@ && resp.model@
                        == s.response.model@ && resp.tokens == s.response.tokens && resp.original_query@
                        == s.response.original_query@
                    &&& final(self).entries() == old(self).entries().update(
                        i,
                        CacheSlot { accessed_ms: now_ms, access_count: (s.access_count + 1) as u64, ..s },
                    )
                    &&& final(self).bytes() == old(self).bytes()
                    &&& final(self).done() == (TableCounters { hits: (old(self).done().hits + 1) as u64, ..old(self).done() })
                },
            },
    {
        match self.position(key) {
            None => Lookup::Absent,
            Some(i) => {
                proof {
                    lemma_slot_index(self.slots@, key@);
                }
                let expired = {
                    let s = &self.slots[i];
                    let age: u64 = if now_ms >= s.created_ms {
                        now_ms - s.created_ms
                    } else {
                        0
                    };
                    is_expired(age, s.ttl_ms)
                };
                if expired {
                    proof {
                        lemma_sizes_remove(self.slots@, i as int);
                        lemma_sizes_nonneg(self.slots@.remove(i as int));
                    }
                    let s = self.slots.remove(i);
                    self.total_size = self.total_size - s.size;
                    self.counters.expirations = self.counters.expirations + 1;
                    self.counters.misses = self.counters.misses + 1;
                    Lookup::Expired
                } else {
                    let resp = copy_response(&self.slots[i].response);
                    let ghost s0 = self.slots@[i as int];
                    proof {
                        assert(s0.access_count < u64::MAX);
                    }
                    let mut s = self.slots.remove(i);
                    s.accessed_ms = now_ms;
                    s.access_count = s.access_count + 1;
                    self.slots.insert(i, s);
                    proof {
                        assert(self.slots@ =~= old(self).slots@.update(i as int, s));
                        lemma_sizes_update(old(self).slots@, i as int, s);
                    }
                    self.counters.hits = self.counters.hits + 1;
                    Lookup::Hit(resp)
                }
            },
        }
    }

    /// Stores `response` under `key` with its size, tags and lifetime at
    /// `now_ms`, used once: it replaces an entry under the same key, or
    /// else comes last. The byte count loses the replaced entry's size and
    /// gains the new one's.
    pub fn insert(
        &mut self,
        key: String,
        response: CachedResponse,
        size: usize,
        tags: Vec<String>,
        ttl_ms: Option<u64>,
        now_ms: u64,
    )
        requires
            old(self).wf(),
            old(self).bytes() + size <= usize::MAX,
        ensures
            final(self).wf(),
            final(self).bytes() == match slot_index(old(self).entries(), key@) {
                Some(i) => old(self).bytes() - old(self).entries()[i].size + size,
                None => old(self).bytes() + size,
            },
            final(self).done() == old(self).done(),
            ({
                let s = CacheSlot {
                    key,
                    response,
                    size,
                    tags,
                    ttl_ms,
                    created_ms: now_ms,
                    accessed_ms: now_ms,
                    access_count: 1,
                };
                match slot_index(old(self).entries(), key@) {
                    Some(i) => final(self).entries() == old(self).entries().update(i, s),
                    None => final(self).entries() == old(self).entries().push(s),
                }
            }),
    {
        let found = self.position(key.as_str());
        let s = CacheSlot {
            key,
            response,
            size,
            tags,
            ttl_ms,
            created_ms: now_ms,
            accessed_ms: now_ms,
            access_count: 1,
        };
        match found {
            Some(i) => {
                proof {
                    lemma_slot_index(self.slots@, s.key@);
                    lemma_sizes_update(self.slots@, i as int, s);
                    lemma_sizes_nonneg(self.slots@.remove(i as int));
                    lemma_sizes_remove(self.slots@, i as int);
                }
                let old_size = self.slots[i].size;
                self.slots.set(i, s);
                self.total_size = self.total_size - old_size + size;
            },
            None => {
                let ghost o = self.slots@;
                self.slots.push(s);
                assert(self.slots@.drop_last() =~= o);
                self.total_size = self.total_size + size;
            },
        }
    }

    /// Whether storing `needed` more bytes calls for room first: the table
    /// holds `max_entries` or more, or the bytes would pass `max_bytes`.
    pub fn needs_room(&self, needed: usize, max_entries: usize, max_bytes: usize) -> (r: bool)
        ensures
            r == (self.entries().len() >= max_entries || self.bytes() + needed > max_bytes),
    {
        self.slots.len() >= max_entries || self.total_size > max_bytes || needed > max_bytes
            - self.total_size
    }

    /// Removes the entry at `i` to make room, counting an eviction.
    pub fn evict_at(&mut self, i: usize)
        requires
            old(self).wf(),
            i < old(self).entries().len(),
            old(self).done().evictions < u64::MAX,
        ensures
            final(self).wf(),
            final(self).entries() == old(self).entries().remove(i as int),
            final(self).bytes() == old(self).bytes() - old(self).entries()[i as int].size,
            final(self).done() == (TableCounters {
                evictions: (old(self).done().evictions + 1) as u64,
                ..old(self).done()
            }),
    {
        proof {
            lemma_sizes_remove(self.slots@, i as int);
            lemma_sizes_nonneg(self.slots@.remove(i as int));
        }
        let s = self.slots.remove(i);
        self.total_size = self.total_size - s.size;
        self.counters.evictions = self.counters.evictions + 1;
    }

    /// Removes the entries that `remove` marks (one mark per entry),
    /// taking their sizes off the byte count; gives back how many went.
    fn remove_marked(&mut self, remove: &Vec<bool>) -> (r: usize)
        requires
            old(self).wf(),
            remove@.len() == old(self).entries().len(),
        ensures
            final(self).wf(),
            final(self).done() == old(self).done(),
            final(self).entries() == marked_kept(old(self).entries(), remove@),
            final(self).bytes() == old(self).bytes() - (sizes(old(self).entries()) - sizes(
                final(self).entries(),
            )),
            r == old(self).entries().len() - final(self).entries().len(),
    {
        let ghost s0 = self.slots@;
        let ghost f = remove@;
        let n = remove.len();
        let mut i: usize = 0;
        let mut k: usize = 0;
        assert(s0.take(0) =~= Seq::<CacheSlot>::empty());
        assert(f.take(0) =~= Seq::<bool>::empty());
        assert(s0.skip(0) =~= s0);
        while k < n
            invariant
                n == f.len() == s0.len(),
                f == remove@,
                s0 == old(self).slots@,
                k <= n,
                self.slots@ == marked_kept(s0.take(k as int), f.take(k as int)) + s0.skip(k as int),
                i == marked_kept(s0.take(k as int), f.take(k as int)).len(),
                self.total_size == sizes(self.slots@),
                old(self).total_size == sizes(s0),
                self.counters == old(self).counters,
            decreases n - k,
        {
            let ghost pre = marked_kept(s0.take(k as int), f.take(k as int));
            assert(s0.take(k + 1).drop_last() =~= s0.take(k as int));
            assert(f.take(k + 1).drop_last() =~= f.take(k as int));
            assert(self.slots@[i as int] == s0[k as int]);
            if remove[k] {
                proof {
                    lemma_sizes_remove(self.slots@, i as int);
                    lemma_sizes_nonneg(self.slots@.remove(i as int));
                }
                let s = self.slots.remove(i);
                self.total_size = self.total_size - s.size;
                assert(self.slots@ =~= pre + s0.skip(k + 1));
            } else {
                assert(self.slots@ =~= (pre + seq![s0[k as int]]) + s0.skip(k + 1));
                let len_now = self.slots.len();
                assert(i < len_now);
                i += 1;
            }
            k += 1;
        }
        assert(s0.take(n as int) =~= s0);
        assert(f.take(n as int) =~= f);
        assert(s0.skip(n as int) =~= Seq::<CacheSlot>::empty());
        assert(self.slots@ =~= marked_kept(s0, f));
        proof {
            lemma_marked_kept_len(s0, f);
        }
        n - self.slots.len()
    }

    /// Removes every entry expired at `now_ms`, counting each as an expiry.
    pub fn remove_expired(&mut self, now_ms: u64) -> (r: usize)
        requires
            old(self).wf(),
            old(self).done().expirations + old(self).entries().len() <= u64::MAX,
        ensures
            final(self).wf(),
            final(self).entries() == old(self).entries().filter(live_at(now_ms)),
            final(self).bytes() == old(self).bytes() - (sizes(old(self).entries()) - sizes(
                final(self).entries(),
            )),
            r == old(self).entries().len() - final(self).entries().len(),
            final(self).done() == (TableCounters {
                expirations: (old(self).done().expirations + r) as u64,
                ..old(self).done()
            }),
    {
        let n = self.slots.len();
        let mut marks: Vec<bool> = Vec::new();
        let mut i: usize = 0;
        while i < n
            invariant
                i <= n == self.slots@.len(),
                marks@.len() == i,
                forall|j: int| 0 <= j < i ==> #[trigger] marks@[j] == !live_at(now_ms)(self.slots@[j]),
            decreases n - i,
        {
            let s = &self.slots[i];
            let age: u64 = if now_ms >= s.created_ms {
                now_ms - s.created_ms
            } else {
                0
            };
            marks.push(is_expired(age, s.ttl_ms));
            i += 1;
        }
        let ghost s0 = self.slots@;
        proof {
            lemma_marked_kept_is_filter(s0, marks@, live_at(now_ms));
        }
        let gone = self.remove_marked(&marks);
        self.counters.expirations = self.counters.expirations + gone as u64;
        gone
    }

    /// Removes every entry carrying the tag, counting each as an eviction.
    pub fn invalidate_by_tag(&mut self, tag: &str) -> (r: usize)
        requires
            old(self).wf(),
            old(self).done().evictions + old(self).entries().len() <= u64::MAX,
        ensures
            final(self).wf(),
            final(self).entries() == old(self).entries().filter(untagged(tag@)),
            final(self).bytes() == old(self).bytes() - (sizes(old(self).entries()) - sizes(
                final(self).entries(),
            )),
            r == old(self).entries().len() - final(self).entries().len(),
            final(self).done() == (TableCounters {
                evictions: (old(self).done().evictions + r) as u64,
                ..old(self).done()
            }),
    {
        let n = self.slots.len();
        let mut marks: Vec<bool> = Vec::new();
        let mut i: usize = 0;
        while i < n
            invariant
                i <= n == self.slots@.len(),
                marks@.len() == i,
                forall|j: int| 0 <= j < i ==> #[trigger] marks@[j] == !untagged(tag@)(self.slots@[j]),
            decreases n - i,
        {
            marks.push(crate::text::contains_str(&self.slots[i].tags, tag));
            i += 1;
        }
        let ghost s0 = self.slots@;
        proof {
            lemma_marked_kept_is_filter(s0, marks@, untagged(tag@));
        }
        let gone = self.remove_marked(&marks);
        self.counters.evictions = self.counters.evictions + gone as u64;
        gone
    }

    /// Removes the entry under `key`, if any; gives back whether one went.
    pub fn remove(&mut self, key: &str) -> (r: bool)
        requires
            old(self).wf(),
        ensures
            final(self).wf(),
            final(self).done() == old(self).done(),
            match slot_index(old(self).entries(), key@) {
                Some(i) => r && final(self).entries() == old(self).entries().remove(i)
                    && final(self).bytes() == old(self).bytes() - old(self).entries()[i].size,
                None => !r && final(self).entries() == old(self).entries() && final(self).bytes()
                    == old(self).bytes(),
            },
    {
        proof {
            lemma_slot_index(self.slots@, key@);
        }
        match self.position(key) {
            Some(i) => {
                proof {
                    lemma_sizes_remove(self.slots@, i as int);
                    lemma_sizes_nonneg(self.slots@.remove(i as int));
                }
                let s = self.slots.remove(i);
                self.total_size = self.total_size - s.size;
                true
            },
            None => false,
        }
    }

    /// Removes every entry; the byte count goes to zero.
    pub fn clear(&mut self)
        ensures
            final(self).wf(),
            final(self).entries().len() == 0,
            final(self).bytes() == 0,
            final(self).done() == old(self).done(),
    {
        self.slots = Vec::new();
        self.total_size = 0;
    }
}

/// The slots whose mark is not set, in order.
pub open spec fn marked_kept(ss: Seq<CacheSlot>, marks: Seq<bool>) -> Seq<CacheSlot>
    decreases ss.len(),
{
    if ss.len() == 0 || marks.len() == 0 {
        Seq::empty()
    } else {
        marked_kept(ss.drop_last(), marks.drop_last()) + if marks.last() {
            Seq::empty()
        } else {
            seq![ss.last()]
        }
    }
}

proof fn lemma_marked_kept_len(ss: Seq<CacheSlot>, marks: Seq<bool>)
    ensures
        marked_kept(ss, marks).len() <= ss.len(),
    decreases ss.len(),
{
    if ss.len() > 0 && marks.len() > 0 {
        lemma_marked_kept_len(ss.drop_last(), marks.drop_last());
    }
}

/// Whether a slot is still live at `now`.
pub open spec fn live_at(now: u64) -> spec_fn(CacheSlot) -> bool {
    |s: CacheSlot| !slot_expired(s, now)
}

/// Whether a slot lacks the tag.
pub open spec fn untagged(tag: Seq<char>) -> spec_fn(CacheSlot) -> bool {
    |s: CacheSlot| !slot_tagged(s, tag)
}

/// Keeping the unmarked slots, when the marks say which slots fail `keep`,
/// is filtering by `keep`.
proof fn lemma_marked_kept_is_filter(ss: Seq<CacheSlot>, marks: Seq<bool>, keep: spec_fn(CacheSlot) -> bool)
    requires
        marks.len() == ss.len(),
        forall|j: int| 0 <= j < ss.len() ==> #[trigger] marks[j] == !keep(ss[j]),
    ensures
        marked_kept(ss, marks) == ss.filter(keep),
    decreases ss.len(),
{
    if ss.len() > 0 {
        assert forall|j: int| 0 <= j < ss.len() - 1 implies #[trigger] marks.drop_last()[j] == !keep(
            ss.drop_last()[j],
        ) by {
            assert(marks.drop_last()[j] == marks[j]);
            assert(ss.drop_last()[j] == ss[j]);
        }
        lemma_marked_kept_is_filter(ss.drop_last(), marks.drop_last(), keep);
        assert(ss =~= ss.drop_last().push(ss.last()));
        ss.drop_last().lemma_filter_push(ss.last(), keep);
        assert(marks.last() == !keep(ss.last()));
    }
}

} // verus!
