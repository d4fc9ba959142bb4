//! The parts of response caching that decide what is stored under which
//! key: cached responses and their estimated size, the keys that queries
//! and tool calls are stored under, the normal form of a query used for
//! fuzzy matching, and expiry.

use crate::context_manager::byte_len;
use crate::text::{
    chars_eq, chars_of, extend_chars, extend_str, join, owned, split_words, str_lower, str_to_lowercase,
    string_from_chars, trim, trim_chars, views, words,
};
use vstd::prelude::*;

verus! {

/// A cached model response.
#[derive(Debug, Clone, PartialEq, Eq)]
pub struct CachedResponse {
    /// The response.
    pub content: String,
    /// The model that gave it.
    pub model: String,
    /// Its tokens.
    pub tokens: u32,
    /// The query it answered.
    pub original_query: String,
    /// Further keys and values.
    pub metadata: Vec<(String, String)>,
}

/// The bytes of the metadata's keys and values.
pub open spec fn metadata_size(m: Seq<(String, String)>) -> int
    decreases m.len(),
{
    if m.len() == 0 {
        0
    } else {
        metadata_size(m.drop_last()) + byte_len(m.last().0@) + byte_len(m.last().1@)
    }
}

/// The estimated size of a response in bytes: its texts and metadata, and
/// 100 bytes of overhead.
pub open spec fn response_size(r: CachedResponse) -> int {
    byte_len(r.content@) + byte_len(r.model@) + byte_len(r.original_query@) + metadata_size(
        r.metadata@,
    ) + 100
}

proof fn lemma_metadata_size_prefix(m: Seq<(String, String)>, i: int)
    requires
        0 <= i <= m.len(),
    ensures
        0 <= metadata_size(m.take(i)) <= metadata_size(m),
    decreases m.len(),
{
    if i < m.len() {
        assert(m.drop_last().take(i) =~= m.take(i));
        lemma_metadata_size_prefix(m.drop_last(), i);
    } else {
        assert(m.take(i) =~= m);
    }
    if m.len() > 0 {
        lemma_metadata_size_prefix(m.drop_last(), m.len() - 1);
    }
}

/// The estimated size of a response in bytes.
pub fn estimate_size(response: &CachedResponse) -> (r: usize)
    requires
        response_size(*response) <= usize::MAX,
    ensures
        r == response_size(*response),
{
    let m = &response.metadata;
    proof {
        lemma_metadata_size_prefix(m@, m@.len() as int);
    }
    let mut meta: usize = 0;
    let mut i: usize = 0;
    while i < m.len()
        invariant
            i <= m@.len(),
            meta == metadata_size(m@.take(i as int)),
            response_size(*response) <= usize::MAX,
            m@ == response.metadata@,
            metadata_size(m@) <= usize::MAX,
        decreases m@.len() - i,
    {
        assert(m@.take(i + 1).drop_last() =~= m@.take(i as int));
        proof {
            lemma_metadata_size_prefix(m@, i + 1);
        }
        let k = m[i].0.as_str().len();
        let v = m[i].1.as_str().len();
        proof {
            assert(k as int == byte_len(m@[i as int].0@));
            assert(v as int == byte_len(m@[i as int].1@));
        }
        meta = meta + k + v;
        i += 1;
    }
    assert(m@.take(m@.len() as int) =~= m@);
    let c = response.content.as_str().len();
    let md = response.model.as_str().len();
    let q = response.original_query.as_str().len();
    proof {
        assert(c as int == byte_len(response.content@));
        assert(md as int == byte_len(response.model@));
        assert(q as int == byte_len(response.original_query@));
    }
    c + md + q + meta + 100
}

/// The text a query is stored under: lowercase, without surrounding
/// whitespace.
pub open spec fn query_key_text(query: Seq<char>) -> Seq<char> {
    trim(str_lower(query))
}

/// The text a query is stored under: lowercase, without surrounding
/// whitespace.
pub fn query_key(query: &str) -> (r: String)
    ensures
        r@ == query_key_text(query@),
{
    let lower = str_to_lowercase(query);
    let c = chars_of(lower.as_str());
    let t = trim_chars(&c);
    string_from_chars(&t)
}

/// The normal form of a query for fuzzy matching: lowercase, words
/// separated by single spaces.
pub open spec fn normal_query(query: Seq<char>) -> Seq<char> {
    join(words(str_lower(query)), " "@)
}

/// The normal form of a query for fuzzy matching: lowercase, words
/// separated by single spaces.
pub fn normalize_query(query: &str) -> (r: String)
    ensures
        r@ == normal_query(query@),
{
    let lower = str_to_lowercase(query);
    let c = chars_of(lower.as_str());
    let ws = split_words(&c);
    let ghost parts = views(ws@);
    let mut out: Vec<char> = Vec::new();
    let mut k: usize = 0;
    while k < ws.len()
        invariant
            k <= ws@.len(),
            parts == views(ws@),
            out@ == join(parts.take(k as int), " "@),
        decreases ws@.len() - k,
    {
        if k > 0 {
            extend_str(&mut out, " ");
        }
        extend_chars(&mut out, ws[k].as_slice());
        proof {
            let t = parts.take(k + 1);
            assert(t.drop_last() =~= parts.take(k as int));
            assert(t.last() == ws@[k as int]@);
            if k == 0 {
                assert(out@ =~= join(t, " "@));
            }
        }
        k += 1;
    }
    assert(parts.take(ws@.len() as int) =~= parts);
    string_from_chars(&out)
}

/// The text a tool call's result is stored under: the tool's name, a
/// colon, and its arguments.
pub fn tool_key(tool_name: &str, args: &str) -> (r: String)
    ensures
        r@ == tool_name@ + ":"@ + args@,
{
    let mut v: Vec<char> = Vec::new();
    extend_str(&mut v, tool_name);
    extend_str(&mut v, ":");
    extend_str(&mut v, args);
    string_from_chars(&v)
}

/// The cached form of a tool's result: the result as content, the tool as
/// model, the arguments as query, no tokens and no metadata.
pub fn tool_response(tool_name: &str, args: &str, result: &str) -> (r: CachedResponse)
    ensures
        r.content@ == result@,
        r.model@ == tool_name@,
        r.tokens == 0,
        r.original_query@ == args@,
        r.metadata@.len() == 0,
{
    CachedResponse {
        content: owned(result),
        model: owned(tool_name),
        tokens: 0,
        original_query: owned(args),
        metadata: Vec::new(),
    }
}

/// Whether an entry of the age has outlived its time to live; an entry
/// without one never expires.
pub fn is_expired(age_ms: u64, ttl_ms: Option<u64>) -> (r: bool)
    ensures
        r == (match ttl_ms {
            Some(t) => age_ms > t,
            None => false,
        }),
{
    match ttl_ms {
        Some(t) => age_ms > t,
        None => false,
    }
}

/// The distinct lowercase words of a query.
pub open spec fn word_set(query: Seq<char>) -> Set<Seq<char>> {
    words(str_lower(query)).to_set()
}

/// Whether a buffer's characters occur among the buffers.
fn has_word(ws: &Vec<Vec<char>>, w: &Vec<char>) -> (r: bool)
    ensures
        r == views(ws@).contains(w@),
{
    let mut i: usize = 0;
    while i < ws.len()
        invariant
            i <= ws@.len(),
            forall|j: int| 0 <= j < i ==> views(ws@)[j] != w@,
        decreases ws@.len() - i,
    {
        if chars_eq(ws[i].as_slice(), w.as_slice()) {
            assert(views(ws@)[i as int] == w@);
            return true;
        }
        i += 1;
    }
    false
}

/// The distinct words, each once, in their first order.
fn distinct_words(ws: &Vec<Vec<char>>) -> (r: Vec<Vec<char>>)
    ensures
        views(r@).no_duplicates(),
        views(r@).to_set() == views(ws@).to_set(),
{
    let mut out: Vec<Vec<char>> = Vec::new();
    let mut i: usize = 0;
    while i < ws.len()
        invariant
            i <= ws@.len(),
            views(out@).no_duplicates(),
            views(out@).to_set() == views(ws@).take(i as int).to_set(),
        decreases ws@.len() - i,
    {
        let ghost before = views(out@);
        assert(views(ws@).take(i + 1) =~= views(ws@).take(i as int).push(ws@[i as int]@));
        proof {
            views(ws@).take(i as int).lemma_push_to_set_commute(ws@[i as int]@);
        }
        if !has_word(&out, &ws[i]) {
            out.push(copy_chars(&ws[i]));
            assert(views(out@) =~= before.push(ws@[i as int]@));
            proof {
                before.lemma_push_to_set_commute(ws@[i as int]@);
            }
        } else {
            assert(before.to_set().contains(ws@[i as int]@));
            assert(before.to_set().insert(ws@[i as int]@) =~= before.to_set());
        }
        i += 1;
    }
    assert(views(ws@).take(ws@.len() as int) =~= views(ws@));
    out
}

/// A copy of a buffer.
fn copy_chars(v: &Vec<char>) -> (r: Vec<char>)
    ensures
        r@ == v@,
{
    let mut out: Vec<char> = Vec::new();
    extend_chars(&mut out, v.as_slice());
    out
}

/// The lowercase words of a query, each once.
fn query_words(query: &str) -> (r: Vec<Vec<char>>)
    ensures
        views(r@).no_duplicates(),
        views(r@).to_set() == word_set(query@),
{
    let lower = str_to_lowercase(query);
    let c = chars_of(lower.as_str());
    let ws = split_words(&c);
    distinct_words(&ws)
}

/// How many distinct words two queries share, and how many distinct words
/// they have together, ignoring case: the parts of their word similarity.
pub fn word_overlap(q1: &str, q2: &str) -> (r: (usize, usize))
    ensures
        r.0 == word_set(q1@).intersect(word_set(q2@)).len(),
        r.1 == if word_set(q1@).union(word_set(q2@)).len() > usize::MAX {
            usize::MAX as nat
        } else {
            word_set(q1@).union(word_set(q2@)).len()
        },
{
    let a = query_words(q1);
    let b = query_words(q2);
    let ghost sa = views(a@);
    let ghost sb = views(b@);
    let mut common: usize = 0;
    let ghost mut shared: Seq<Seq<char>> = seq![];
    let mut i: usize = 0;
    while i < a.len()
        invariant
            i <= a@.len(),
            sa == views(a@),
            sb == views(b@),
            sa.no_duplicates(),
            common == shared.len(),
            shared.no_duplicates(),
            shared.to_set() == sa.take(i as int).to_set().intersect(sb.to_set()),
            common <= i,
        decreases a@.len() - i,
    {
        let ghost t0 = sa.take(i as int);
        assert(sa.take(i + 1) =~= t0.push(sa[i as int]));
        proof {
            t0.lemma_push_to_set_commute(sa[i as int]);
        }
        if has_word(&b, &a[i]) {
            proof {
                assert(!t0.to_set().contains(sa[i as int])) by {
                    if t0.to_set().contains(sa[i as int]) {
                        let j = choose|j: int| 0 <= j < t0.len() && t0[j] == sa[i as int];
                        assert(sa[j] == sa[i as int]);
                    }
                }
                assert(!shared.contains(sa[i as int])) by {
                    if shared.contains(sa[i as int]) {
                        let j = choose|j: int| 0 <= j < shared.len() && shared[j] == sa[i as int];
                        assert(shared.to_set().contains(sa[i as int]));
                    }
                }
                shared.lemma_push_to_set_commute(sa[i as int]);
                shared = shared.push(sa[i as int]);
                assert(shared.to_set() =~= sa.take(i + 1).to_set().intersect(sb.to_set()));
            }
            common += 1;
        } else {
            proof {
                assert(shared.to_set() =~= sa.take(i + 1).to_set().intersect(sb.to_set()));
            }
        }
        i += 1;
    }
    proof {
        assert(sa.take(a@.len() as int) =~= sa);
        shared.unique_seq_to_set();
        sa.unique_seq_to_set();
        sb.unique_seq_to_set();
        vstd::set_lib::lemma_set_intersect_union_lens(sa.to_set(), sb.to_set());
    }
    proof {
        vstd::set_lib::lemma_len_intersect(sb.to_set(), sa.to_set());
        assert(sb.to_set().intersect(sa.to_set()) =~= sa.to_set().intersect(sb.to_set()));
    }
    let rest = b.len() - common;
    let union = if a.len() > usize::MAX - rest {
        usize::MAX
    } else {
        a.len() + rest
    };
    (common, union)
}

} // verus!
