//! Memories an agent keeps across a conversation: facts, summaries,
//! preferences. Each has an importance, in thousandths from 0 to 1000;
//! when a store with a size limit overflows, the least important go first.

use crate::clock::{in_clock_range, now_millis};
use crate::collaboration::{find_key, key_index, lemma_key_index};
use crate::ids::new_uuid_v4;
use crate::text::{chars_of, contains, contains_chars, owned, str_eq, str_lower, str_to_lowercase};
use vstd::prelude::*;

verus! {

/// The greatest importance, standing for 1.0.
pub const MAX_IMPORTANCE: u32 = 1000;

/// The importance of a new entry, standing for 0.5.
pub const DEFAULT_IMPORTANCE: u32 = 500;

/// The kind of a memory.
#[derive(Debug, Clone, Copy, PartialEq, Eq, Hash, Structural)]
pub enum MemoryType {
    /// A piece of information.
    Fact,
    /// A summary of a conversation.
    Summary,
    /// A preference or setting of the user.
    Preference,
    /// Something that happened.
    Event,
    /// A pattern or insight learned.
    Insight,
    /// Anything else.
    Custom,
}

/// One memory.
#[derive(Debug, Clone)]
pub struct MemoryEntry {
    /// Its identifier.
    pub id: String,
    /// What is remembered.
    pub content: String,
    /// Its kind.
    pub entry_type: MemoryType,
    /// When it was made, in milliseconds since the Unix epoch.
    pub created_at: i64,
    /// When it was last used, in milliseconds since the Unix epoch.
    pub last_accessed: i64,
    /// How much it matters, in thousandths (0 to 1000).
    pub importance: u32,
    /// Further keys and values.
    pub metadata: Vec<(String, String)>,
}

impl MemoryEntry {
    /// A memory with the given identifier, made at `now`.
    pub fn new_at(content: &str, entry_type: MemoryType, id: String, now: i64) -> (r: MemoryEntry)
        ensures
            r.id == id,
            r.content@ == content@,
            r.entry_type == entry_type,
            r.created_at == now,
            r.last_accessed == now,
            r.importance == DEFAULT_IMPORTANCE,
            r.metadata@.len() == 0,
    {
        MemoryEntry {
            id,
            content: owned(content),
            entry_type,
            created_at: now,
            last_accessed: now,
            importance: DEFAULT_IMPORTANCE,
            metadata: Vec::new(),
        }
    }

    /// A memory with a fresh random identifier, made now.
    pub fn new(content: &str, entry_type: MemoryType) -> (r: MemoryEntry)
        ensures
            r.id@.len() == 36,
            r.content@ == content@,
            r.entry_type == entry_type,
            r.created_at == r.last_accessed,
            in_clock_range(r.created_at as int),
            r.importance == DEFAULT_IMPORTANCE,
            r.metadata@.len() == 0,
    {
        let id = new_uuid_v4();
        let now = now_millis();
        MemoryEntry::new_at(content, entry_type, id, now)
    }

    /// A fact.
    pub fn fact(content: &str) -> (r: MemoryEntry)
        ensures
            r.content@ == content@,
            r.entry_type == MemoryType::Fact,
            r.importance == DEFAULT_IMPORTANCE,
            r.metadata@.len() == 0,
    {
        MemoryEntry::new(content, MemoryType::Fact)
    }

    /// A summary.
    pub fn summary(content: &str) -> (r: MemoryEntry)
        ensures
            r.content@ == content@,
            r.entry_type == MemoryType::Summary,
            r.importance == DEFAULT_IMPORTANCE,
            r.metadata@.len() == 0,
    {
        MemoryEntry::new(content, MemoryType::Summary)
    }

    /// A preference.
    pub fn preference(content: &str) -> (r: MemoryEntry)
        ensures
            r.content@ == content@,
            r.entry_type == MemoryType::Preference,
            r.importance == DEFAULT_IMPORTANCE,
            r.metadata@.len() == 0,
    {
        MemoryEntry::new(content, MemoryType::Preference)
    }

    /// The same memory with the importance, capped at 1000.
    pub fn with_importance(self, importance: u32) -> (r: MemoryEntry)
        ensures
            r.importance == (if importance > MAX_IMPORTANCE {
                MAX_IMPORTANCE
            } else {
                importance
            }),
            r == (MemoryEntry { importance: r.importance, ..self }),
    {
        let mut me = self;
        me.importance = if importance > MAX_IMPORTANCE {
            MAX_IMPORTANCE
        } else {
            importance
        };
        me
    }

    /// The same memory with a metadata entry, replacing one under the key.
    pub fn with_metadata(self, key: &str, value: &str) -> (r: MemoryEntry)
        ensures
            r == (MemoryEntry { metadata: r.metadata, ..self }),
            match key_index(self.metadata@, key@) {
                Some(i) => r.metadata@ == self.metadata@.update(i, (r.metadata@[i].0, r.metadata@[i].1))
                    && r.metadata@[i].0@ == key@ && r.metadata@[i].1@ == value@,
                None => r.metadata@.drop_last() == self.metadata@ && r.metadata@.len()
                    == self.metadata@.len() + 1 && r.metadata@.last().0@ == key@
                    && r.metadata@.last().1@ == value@,
            },
    {
        let mut me = self;
        proof {
            lemma_key_index(me.metadata@, key@);
        }
        match find_key(&me.metadata, key) {
            Some(i) => {
                me.metadata.set(i, (owned(key), owned(value)));
            },
            None => {
                let ghost m0 = me.metadata@;
                me.metadata.push((owned(key), owned(value)));
                assert(me.metadata@.drop_last() =~= m0);
            },
        }
        me
    }

    /// Marks the memory used at `now`.
    pub fn touch_at(&mut self, now: i64)
        ensures
            *final(self) == (MemoryEntry { last_accessed: now, ..*old(self) }),
    {
        self.last_accessed = now;
    }

    /// Marks the memory used now.
    pub fn touch(&mut self)
        ensures
            *final(self) == (MemoryEntry { last_accessed: final(self).last_accessed, ..*old(self) }),
            in_clock_range(final(self).last_accessed as int),
    {
        let now = now_millis();
        self.touch_at(now);
    }
}

/// The first entry with the identifier.
pub open spec fn id_index(es: Seq<MemoryEntry>, id: Seq<char>) -> Option<int>
    decreases es.len(),
{
    if es.len() == 0 {
        None
    } else {
        match id_index(es.drop_last(), id) {
            Some(i) => Some(i),
            None => if es.last().id@ == id {
                Some(es.len() - 1)
            } else {
                None
            },
        }
    }
}

/// The entries with the new one stored: it replaces an entry with its
/// identifier, in place, or else comes last.
pub open spec fn put_entry(es: Seq<MemoryEntry>, e: MemoryEntry) -> Seq<MemoryEntry> {
    match id_index(es, e.id@) {
        Some(i) => es.update(i, e),
        None => es.push(e),
    }
}

/// The index of the first entry of least importance, looking at the first
/// `n` entries.
pub open spec fn least_index(es: Seq<MemoryEntry>, n: nat) -> int
    decreases n,
{
    if n <= 1 {
        0
    } else {
        let i = least_index(es, (n - 1) as nat);
        if es[n - 1].importance < es[i].importance {
            n - 1
        } else {
            i
        }
    }
}

/// The entries after removing least important ones until at most `max`
/// are left.
pub open spec fn evict(es: Seq<MemoryEntry>, max: nat) -> Seq<MemoryEntry>
    decreases es.len(),
{
    if es.len() <= max {
        es
    } else {
        proof {
            lemma_least_index(es, es.len());
        }
        evict(es.remove(least_index(es, es.len())), max)
    }
}

/// The entries of one kind, in order.
pub open spec fn of_type(es: Seq<MemoryEntry>, t: MemoryType) -> Seq<MemoryEntry>
    decreases es.len(),
{
    if es.len() == 0 {
        seq![]
    } else if es.last().entry_type == t {
        of_type(es.drop_last(), t).push(es.last())
    } else {
        of_type(es.drop_last(), t)
    }
}

/// Whether an entry's content, in lowercase, holds the query in lowercase.
pub open spec fn matches_query(e: MemoryEntry, query: Seq<char>) -> bool {
    contains(str_lower(e.content@), str_lower(query))
}

/// The entries that match the query, in order.
pub open spec fn matching(es: Seq<MemoryEntry>, query: Seq<char>) -> Seq<MemoryEntry>
    decreases es.len(),
{
    if es.len() == 0 {
        seq![]
    } else if matches_query(es.last(), query) {
        matching(es.drop_last(), query).push(es.last())
    } else {
        matching(es.drop_last(), query)
    }
}

/// Search ignores the case of the query: queries that agree once
/// lower-cased find the same entries.
pub proof fn lemma_search_ignores_query_case(es: Seq<MemoryEntry>, q1: Seq<char>, q2: Seq<char>)
    requires
        str_lower(q1) == str_lower(q2),
    ensures
        matching(es, q1) == matching(es, q2),
    decreases es.len(),
{
    if es.len() > 0 {
        lemma_search_ignores_query_case(es.drop_last(), q1, q2);
    }
}

/// An ASCII query and its upper-case find the same entries.
pub proof fn lemma_search_upper_query(es: Seq<MemoryEntry>, q: Seq<char>)
    requires
        crate::text::all_ascii(q),
    ensures
        matching(es, q) == matching(es, crate::text::str_upper(q)),
{
    crate::text::lemma_lower_of_upper(q);
    lemma_search_ignores_query_case(es, q, crate::text::str_upper(q));
}

/// Search ignores the case of the content: entries whose contents agree
/// once lower-cased match the same queries.
pub proof fn lemma_match_ignores_content_case(e1: MemoryEntry, e2: MemoryEntry, q: Seq<char>)
    requires
        str_lower(e1.content@) == str_lower(e2.content@),
    ensures
        matches_query(e1, q) == matches_query(e2, q),
{
}

/// Whether `c`, from index `i` on, spells `q` character by character with
/// ASCII case ignored.
pub open spec fn spells_at_ignoring_case(c: Seq<char>, q: Seq<char>, i: int) -> bool {
    &&& 0 <= i
    &&& i + q.len() <= c.len()
    &&& forall|j: int|
        0 <= j < q.len() ==> crate::text::ascii_lower(#[trigger] c[i + j]) == crate::text::ascii_lower(q[j])
}

/// On ASCII text, an entry matches a query exactly when, at some position,
/// its content spells the query with ASCII case ignored.
pub proof fn lemma_match_ascii(e: MemoryEntry, q: Seq<char>)
    requires
        crate::text::all_ascii(e.content@),
        crate::text::all_ascii(q),
    ensures
        matches_query(e, q) <==> exists|i: int| #[trigger] spells_at_ignoring_case(e.content@, q, i),
{
    let c = e.content@;
    let lc = str_lower(c);
    let lq = str_lower(q);
    assert(lc.len() == c.len());
    assert(lq.len() == q.len());
    if matches_query(e, q) {
        let i = choose|i: int| crate::text::has_at(lc, lq, i);
        assert forall|j: int| 0 <= j < q.len() implies crate::text::ascii_lower(#[trigger] c[i + j])
            == crate::text::ascii_lower(q[j]) by {
            assert(lc.subrange(i, i + lq.len())[j] == lq[j]);
            assert(lc[i + j] == crate::text::ascii_lower(c[i + j]));
        }
        assert(spells_at_ignoring_case(c, q, i));
    }
    if exists|i: int| #[trigger] spells_at_ignoring_case(c, q, i) {
        let i = choose|i: int| #[trigger] spells_at_ignoring_case(c, q, i);
        assert forall|j: int| 0 <= j < lq.len() implies #[trigger] lc.subrange(i, i + lq.len())[j] == lq[j] by {
            assert(crate::text::ascii_lower(c[i + j]) == crate::text::ascii_lower(q[j]));
        }
        assert(lc.subrange(i, i + lq.len()) =~= lq);
        assert(crate::text::has_at(lc, lq, i));
    }
}

/// What entries are ranked by: importance, or the time of last use.
pub open spec fn rank(e: MemoryEntry, recency: bool) -> int {
    if recency {
        e.last_accessed as int
    } else {
        e.importance as int
    }
}

/// Where `e` goes into a ranking, looking from index `i` on: before the
/// first entry that ranks strictly lower.
pub open spec fn rank_pos(s: Seq<MemoryEntry>, e: MemoryEntry, recency: bool, i: nat) -> nat
    decreases s.len() - i,
{
    if i >= s.len() {
        s.len()
    } else if rank(s[i as int], recency) < rank(e, recency) {
        i
    } else {
        rank_pos(s, e, recency, i + 1)
    }
}

/// The entries ranked from highest to lowest; entries that rank equal keep
/// their order.
pub open spec fn ranked(es: Seq<MemoryEntry>, recency: bool) -> Seq<MemoryEntry>
    decreases es.len(),
{
    if es.len() == 0 {
        seq![]
    } else {
        let r = ranked(es.drop_last(), recency);
        r.insert(rank_pos(r, es.last(), recency, 0) as int, es.last())
    }
}

/// The entries that references point to.
pub open spec fn derefs(v: Seq<&MemoryEntry>) -> Seq<MemoryEntry> {
    Seq::new(v.len(), |i: int| *v[i])
}

/// What an entry is ranked by.
fn rank_of(e: &MemoryEntry, recency: bool) -> (r: i64)
    ensures
        r == rank(*e, recency),
{
    if recency {
        e.last_accessed
    } else {
        e.importance as i64
    }
}

/// A store of memories, optionally bounded in size.
#[derive(Debug)]
pub struct Memory {
    entries: Vec<MemoryEntry>,
    max_entries: Option<usize>,
}

impl Default for Memory {
    fn default() -> (r: Self)
        ensures
            r.entry_list().len() == 0,
            r.limit() is None,
    {
        Memory { entries: Vec::new(), max_entries: None }
    }
}

proof fn lemma_id_index(es: Seq<MemoryEntry>, id: Seq<char>)
    ensures
        id_index(es, id) matches Some(i) ==> 0 <= i < es.len() && es[i].id@ == id,
        id_index(es, id) is None ==> forall|j: int| 0 <= j < es.len() ==> #[trigger] es[j].id@ != id,
    decreases es.len(),
{
    if es.len() > 0 {
        lemma_id_index(es.drop_last(), id);
        if id_index(es, id) is None {
            assert forall|j: int| 0 <= j < es.len() implies #[trigger] es[j].id@ != id by {
                if j < es.len() - 1 {
                    assert(es.drop_last()[j] == es[j]);
                }
            }
        }
    }
}

/// The first entry of least importance has no more importance than any
/// other.
pub proof fn lemma_least_index(es: Seq<MemoryEntry>, n: nat)
    requires
        0 < n <= es.len(),
    ensures
        0 <= least_index(es, n) < n,
        forall|j: int| 0 <= j < n ==> es[least_index(es, n)].importance <= #[trigger] es[j].importance,
    decreases n,
{
    if n > 1 {
        lemma_least_index(es, (n - 1) as nat);
    }
}

/// A store with a limit never keeps more entries than the limit: eviction
/// leaves `min(len, max)` entries.
pub proof fn lemma_evict_len(es: Seq<MemoryEntry>, max: nat)
    ensures
        evict(es, max).len() == if es.len() <= max {
            es.len()
        } else {
            max
        },
    decreases es.len(),
{
    if es.len() > max {
        lemma_least_index(es, es.len());
        lemma_evict_len(es.remove(least_index(es, es.len())), max);
    }
}

proof fn lemma_rank_pos_le(s: Seq<MemoryEntry>, e: MemoryEntry, recency: bool, i: nat)
    requires
        i <= s.len(),
    ensures
        i <= rank_pos(s, e, recency, i) <= s.len(),
    decreases s.len() - i,
{
    if i < s.len() && !(rank(s[i as int], recency) < rank(e, recency)) {
        lemma_rank_pos_le(s, e, recency, i + 1);
    }
}

proof fn lemma_ranked_len(es: Seq<MemoryEntry>, recency: bool)
    ensures
        ranked(es, recency).len() == es.len(),
    decreases es.len(),
{
    if es.len() > 0 {
        lemma_ranked_len(es.drop_last(), recency);
        lemma_rank_pos_le(ranked(es.drop_last(), recency), es.last(), recency, 0);
    }
}

/// Where the first entry with an identifier is, it is so in every longer
/// prefix.
proof fn lemma_id_index_prefix(es: Seq<MemoryEntry>, n: int, id: Seq<char>)
    requires
        0 < n <= es.len(),
        id_index(es.take(n - 1), id) is None,
    ensures
        es[n - 1].id@ == id ==> id_index(es, id) == Some(n - 1) && id_index(es.take(n), id) == Some(
            n - 1,
        ),
        es[n - 1].id@ != id ==> id_index(es.take(n), id) is None,
    decreases es.len(),
{
    assert(es.take(n).drop_last() =~= es.take(n - 1));
    if n < es.len() {
        assert(es.drop_last().take(n) =~= es.take(n));
        assert(es.drop_last().take(n - 1) =~= es.take(n - 1));
        lemma_id_index_prefix(es.drop_last(), n, id);
    } else {
        assert(es.take(n) =~= es);
    }
}

impl Memory {
    /// The entries, in the order they were added.
    pub closed spec fn entry_list(&self) -> Seq<MemoryEntry> {
        self.entries@
    }

    /// The size limit, if any.
    pub closed spec fn limit(&self) -> Option<usize> {
        self.max_entries
    }

    /// An empty, unbounded store.
    pub fn new() -> (r: Self)
        ensures
            r.entry_list().len() == 0,
            r.limit() is None,
    {
        Memory { entries: Vec::new(), max_entries: None }
    }

    /// An empty store that keeps at most `max` entries.
    pub fn with_max_entries(max: usize) -> (r: Self)
        ensures
            r.entry_list().len() == 0,
            r.limit() == Some(max),
    {
        Memory { entries: Vec::new(), max_entries: Some(max) }
    }

    /// The index of the first entry with the identifier.
    fn find(&self, id: &str) -> (r: Option<usize>)
        ensures
            match r {
                Some(i) => id_index(self.entry_list(), id@) == Some(i as int) && i
                    < self.entry_list().len(),
                None => id_index(self.entry_list(), id@) is None,
            },
    {
        let ghost es = self.entries@;
        let mut i: usize = 0;
        while i < self.entries.len()
            invariant
                i <= es.len(),
                es == self.entries@,
                id_index(es.take(i as int), id@) is None,
            decreases es.len() - i,
        {
            proof {
                assert(es.take(i + 1).drop_last() =~= es.take(i as int));
            }
            if str_eq(self.entries[i].id.as_str(), id) {
                proof {
                    lemma_id_index_prefix(es, i as int + 1, id@);
                }
                return Some(i);
            }
            proof {
                lemma_id_index_prefix(es, i as int + 1, id@);
            }
            i += 1;
        }
        proof {
            assert(es.take(i as int) =~= es);
        }
        None
    }

    /// Stores an entry and returns its identifier. An entry with the same
    /// identifier is replaced; then, while the store holds more than its
    /// limit, the least important entry (the first of them) is removed.
    pub fn add(&mut self, entry: MemoryEntry) -> (r: String)
        ensures
            r == entry.id,
            final(self).limit() == old(self).limit(),
            final(self).entry_list() == match old(self).limit() {
                Some(max) => evict(put_entry(old(self).entry_list(), entry), max as nat),
                None => put_entry(old(self).entry_list(), entry),
            },
    {
        let id = entry.id.clone();
        match self.find(entry.id.as_str()) {
            Some(i) => {
                self.entries.set(i, entry);
            },
            None => {
                self.entries.push(entry);
            },
        }
        if let Some(max) = self.max_entries {
            while self.entries.len() > max
                invariant
                    self.max_entries == Some(max),
                    evict(self.entries@, max as nat) == evict(
                        put_entry(old(self).entries@, entry),
                        max as nat,
                    ),
                decreases self.entries@.len(),
            {
                let k = self.least_important();
                proof {
                    lemma_least_index(self.entries@, self.entries@.len());
                }
                self.entries.remove(k);
            }
        }
        id
    }

    /// The index of the first entry of least importance.
    fn least_important(&self) -> (r: usize)
        requires
            self.entry_list().len() > 0,
        ensures
            r == least_index(self.entry_list(), self.entry_list().len()),
    {
        let mut best: usize = 0;
        let mut i: usize = 1;
        while i < self.entries.len()
            invariant
                1 <= i <= self.entries@.len(),
                best == least_index(self.entries@, i as nat),
                best < i,
            decreases self.entries@.len() - i,
        {
            proof {
                lemma_least_index(self.entries@, i as nat);
            }
            if self.entries[i].importance < self.entries[best].importance {
                best = i;
            }
            i += 1;
        }
        best
    }

    /// The entry with the identifier.
    pub fn get(&self, id: &str) -> (r: Option<&MemoryEntry>)
        ensures
            r == (match id_index(self.entry_list(), id@) {
                Some(i) => Some(&self.entry_list()[i]),
                None => None,
            }),
    {
        match self.find(id) {
            Some(i) => Some(&self.entries[i]),
            None => None,
        }
    }

    /// Removes the entry with the identifier and returns it.
    pub fn remove(&mut self, id: &str) -> (r: Option<MemoryEntry>)
        ensures
            final(self).limit() == old(self).limit(),
            match id_index(old(self).entry_list(), id@) {
                Some(i) => r == Some(old(self).entry_list()[i]) && final(self).entry_list()
                    == old(self).entry_list().remove(i),
                None => r is None && final(self).entry_list() == old(self).entry_list(),
            },
    {
        match self.find(id) {
            Some(i) => Some(self.entries.remove(i)),
            None => None,
        }
    }

    /// The entries of one kind, in the order they were added.
    pub fn get_by_type(&self, entry_type: MemoryType) -> (r: Vec<&MemoryEntry>)
        ensures
            derefs(r@) == of_type(self.entry_list(), entry_type),
    {
        let ghost es = self.entries@;
        let mut out: Vec<&MemoryEntry> = Vec::new();
        let mut i: usize = 0;
        while i < self.entries.len()
            invariant
                i <= es.len(),
                es == self.entries@,
                derefs(out@) == of_type(es.take(i as int), entry_type),
            decreases es.len() - i,
        {
            let ghost before = out@;
            if self.entries[i].entry_type == entry_type {
                out.push(&self.entries[i]);
                assert(derefs(out@) =~= derefs(before).push(es[i as int]));
            }
            assert(es.take(i + 1).drop_last() =~= es.take(i as int));
            i += 1;
        }
        assert(es.take(es.len() as int) =~= es);
        out
    }

    /// Every entry, in the order they were added.
    pub fn all(&self) -> (r: &[MemoryEntry])
        ensures
            r@ == self.entry_list(),
    {
        self.entries.as_slice()
    }

    /// The number of entries.
    pub fn len(&self) -> (r: usize)
        ensures
            r == self.entry_list().len(),
    {
        self.entries.len()
    }

    /// Whether there are no entries.
    pub fn is_empty(&self) -> (r: bool)
        ensures
            r == (self.entry_list().len() == 0),
    {
        self.entries.len() == 0
    }

    /// The entries whose content holds the query, ignoring case.
    pub fn search(&self, query: &str) -> (r: Vec<&MemoryEntry>)
        ensures
            derefs(r@) == matching(self.entry_list(), query@),
    {
        let q = str_to_lowercase(query);
        let qc = chars_of(q.as_str());
        let ghost es = self.entries@;
        let mut out: Vec<&MemoryEntry> = Vec::new();
        let mut i: usize = 0;
        while i < self.entries.len()
            invariant
                i <= es.len(),
                es == self.entries@,
                qc@ == str_lower(query@),
                derefs(out@) == matching(es.take(i as int), query@),
            decreases es.len() - i,
        {
            let ghost before = out@;
            let c = str_to_lowercase(self.entries[i].content.as_str());
            let cc = chars_of(c.as_str());
            if contains_chars(&cc, &qc) {
                out.push(&self.entries[i]);
                assert(derefs(out@) =~= derefs(before).push(es[i as int]));
            }
            assert(es.take(i + 1).drop_last() =~= es.take(i as int));
            i += 1;
        }
        assert(es.take(es.len() as int) =~= es);
        out
    }

    /// The entries ranked from highest to lowest, then cut to `n`.
    fn top(&self, n: usize, recency: bool) -> (r: Vec<&MemoryEntry>)
        ensures
            derefs(r@) == ranked(self.entry_list(), recency).take(
                if n < self.entry_list().len() {
                    n as int
                } else {
                    self.entry_list().len() as int
                },
            ),
    {
        let ghost es = self.entries@;
        let mut out: Vec<&MemoryEntry> = Vec::new();
        let mut j: usize = 0;
        while j < self.entries.len()
            invariant
                j <= es.len(),
                es == self.entries@,
                derefs(out@) == ranked(es.take(j as int), recency),
            decreases es.len() - j,
        {
            let e = &self.entries[j];
            let ghost sv = derefs(out@);
            proof {
                lemma_ranked_len(es.take(j as int), recency);
            }
            let key = rank_of(e, recency);
            let mut p: usize = 0;
            while p < out.len() && !(rank_of(out[p], recency) < key)
                invariant
                    p <= out@.len(),
                    sv == derefs(out@),
                    sv.len() == out@.len(),
                    key == rank(*e, recency),
                    rank_pos(sv, *e, recency, 0) == rank_pos(sv, *e, recency, p as nat),
                decreases out@.len() - p,
            {
                p += 1;
            }
            out.insert(p, e);
            proof {
                assert(es.take(j + 1).drop_last() =~= es.take(j as int));
                assert(es.take(j + 1).last() == *e);
                assert(derefs(out@) =~= sv.insert(p as int, *e));
            }
            j += 1;
        }
        proof {
            assert(es.take(es.len() as int) =~= es);
            lemma_ranked_len(es, recency);
        }
        let ghost full = derefs(out@);
        let mut k = out.len();
        assert(full.take(k as int) =~= full);
        while k > n
            invariant
                k == out@.len(),
                k <= full.len(),
                full == ranked(es, recency),
                full.len() == es.len(),
                k >= n || k == full.len(),
                derefs(out@) == full.take(k as int),
            decreases k,
        {
            out.pop();
            k -= 1;
            assert(derefs(out@) =~= full.take(k as int));
        }
        out
    }

    /// The `n` most important entries, most important first; entries of
    /// equal importance keep the order they were added in.
    pub fn most_important(&self, n: usize) -> (r: Vec<&MemoryEntry>)
        ensures
            derefs(r@) == ranked(self.entry_list(), false).take(
                if n < self.entry_list().len() {
                    n as int
                } else {
                    self.entry_list().len() as int
                },
            ),
    {
        self.top(n, false)
    }

    /// The `n` most recently used entries, latest first.
    pub fn most_recent(&self, n: usize) -> (r: Vec<&MemoryEntry>)
        ensures
            derefs(r@) == ranked(self.entry_list(), true).take(
                if n < self.entry_list().len() {
                    n as int
                } else {
                    self.entry_list().len() as int
                },
            ),
    {
        self.top(n, true)
    }

    /// Removes every entry.
    pub fn clear(&mut self)
        ensures
            final(self).entry_list().len() == 0,
            final(self).limit() == old(self).limit(),
    {
        self.entries = Vec::new();
    }
}

/// Reading after writing: once an entry is stored, looking up its
/// identifier finds exactly that entry.
pub proof fn lemma_put_then_get(es: Seq<MemoryEntry>, e: MemoryEntry)
    ensures
        id_index(put_entry(es, e), e.id@) matches Some(i) && put_entry(es, e)[i] == e,
{
    lemma_id_index(es, e.id@);
    match id_index(es, e.id@) {
        Some(i) => {
            lemma_id_index_update(es, i, e, e.id@);
        },
        None => {
            let p = es.push(e);
            assert(p.drop_last() =~= es);
        },
    }
}

/// Replacing an entry by one with the same identifier moves no
/// identifier.
proof fn lemma_id_index_update(es: Seq<MemoryEntry>, i: int, e: MemoryEntry, id: Seq<char>)
    requires
        0 <= i < es.len(),
        es[i].id@ == e.id@,
    ensures
        id_index(es.update(i, e), id) == id_index(es, id),
    decreases es.len(),
{
    let u = es.update(i, e);
    if es.len() > 0 {
        if i < es.len() - 1 {
            assert(u.drop_last() =~= es.drop_last().update(i, e));
            lemma_id_index_update(es.drop_last(), i, e, id);
        } else {
            assert(u.drop_last() =~= es.drop_last());
        }
    }
}

/// Whether entries are ranked from highest to lowest.
pub open spec fn ranked_down(s: Seq<MemoryEntry>, recency: bool) -> bool {
    forall|a: int, b: int| 0 <= a < b < s.len() ==> rank(s[a], recency) >= rank(s[b], recency)
}

proof fn lemma_rank_pos(s: Seq<MemoryEntry>, e: MemoryEntry, recency: bool, i: nat)
    requires
        ranked_down(s, recency),
        i <= s.len(),
        forall|j: int| 0 <= j < i ==> rank(#[trigger] s[j], recency) >= rank(e, recency),
    ensures
        forall|j: int|
            0 <= j < rank_pos(s, e, recency, i) ==> rank(#[trigger] s[j], recency) >= rank(
                e,
                recency,
            ),
        forall|j: int|
            rank_pos(s, e, recency, i) <= j < s.len() ==> rank(#[trigger] s[j], recency) < rank(
                e,
                recency,
            ),
    decreases s.len() - i,
{
    if i < s.len() {
        if rank(s[i as int], recency) < rank(e, recency) {
            assert forall|j: int| i <= j < s.len() implies rank(#[trigger] s[j], recency) < rank(
                e,
                recency,
            ) by {
                if j > i {
                    assert(rank(s[i as int], recency) >= rank(s[j], recency));
                }
            }
        } else {
            lemma_rank_pos(s, e, recency, i + 1);
        }
    }
}

/// The ranking is ordered: highest first, never a higher one after a
/// lower one. This is what the most important and the most recent entries
/// are taken from.
pub proof fn lemma_ranked_sorted(es: Seq<MemoryEntry>, recency: bool)
    ensures
        ranked_down(ranked(es, recency), recency),
        ranked(es, recency).len() == es.len(),
    decreases es.len(),
{
    lemma_ranked_len(es, recency);
    if es.len() > 0 {
        let r = ranked(es.drop_last(), recency);
        let e = es.last();
        lemma_ranked_sorted(es.drop_last(), recency);
        lemma_rank_pos(r, e, recency, 0);
        lemma_rank_pos_le(r, e, recency, 0);
        let p = rank_pos(r, e, recency, 0) as int;
        let t = r.insert(p, e);
        assert forall|x: int| 0 <= x < t.len() implies #[trigger] t[x] == (if x < p {
            r[x]
        } else if x == p {
            e
        } else {
            r[x - 1]
        }) by {}
        assert forall|a: int, b: int| 0 <= a < b < t.len() implies rank(t[a], recency) >= rank(
            t[b],
            recency,
        ) by {
            assert(t[a] == t[a]);
            assert(t[b] == t[b]);
        }
    }
}

} // verus!
