//! Configuration from several sources, merged by priority: user defaults,
//! then project settings, then machine-local overrides. Objects merge key
//! by key, recursively; any other value replaces what was there.
//!
//! Reading the files is left to the caller; their JSON is handled here as a
//! tree of plain values.

use crate::error::Error;
use crate::text::{chars_of, dec, extend_str, join, owned, push_dec, str_eq, string_from_chars, string_views};
use vstd::prelude::*;

verus! {

/// Where a configuration entry came from.
#[derive(Debug, Clone, Copy, PartialEq, Eq, Hash, Structural)]
pub enum ConfigSource {
    /// `~/.ember/config.json`: global user defaults.
    User,
    /// `.ember/config.json` in the project root.
    Project,
    /// `.ember/config.local.json` in the project root.
    Local,
}

/// The label of a source.
pub open spec fn source_label(s: ConfigSource) -> Seq<char> {
    match s {
        ConfigSource::User => "user (~/.ember/config.json)"@,
        ConfigSource::Project => "project (.ember/config.json)"@,
        ConfigSource::Local => "local (.ember/config.local.json)"@,
    }
}

/// The priority of a source: higher wins.
pub open spec fn source_priority(s: ConfigSource) -> u8 {
    match s {
        ConfigSource::User => 0,
        ConfigSource::Project => 1,
        ConfigSource::Local => 2,
    }
}

impl ConfigSource {
    /// A human-readable label.
    pub fn label(&self) -> (r: &'static str)
        ensures
            r@ == source_label(*self),
    {
        match self {
            ConfigSource::User => "user (~/.ember/config.json)",
            ConfigSource::Project => "project (.ember/config.json)",
            ConfigSource::Local => "local (.ember/config.local.json)",
        }
    }

    /// The priority: higher wins during a merge.
    pub fn priority(&self) -> (r: u8)
        ensures
            r == source_priority(*self),
    {
        match self {
            ConfigSource::User => 0,
            ConfigSource::Project => 1,
            ConfigSource::Local => 2,
        }
    }
}

/// A JSON value. Numbers are kept as their text; an object keeps its
/// members in order.
#[derive(Debug, PartialEq, Eq)]
pub enum JsonValue {
    /// `null`.
    Null,
    /// A boolean.
    Bool(bool),
    /// A number, as written.
    Number(String),
    /// A string.
    Str(String),
    /// An array.
    Array(Vec<JsonValue>),
    /// An object: keys and values.
    Object(Vec<(String, JsonValue)>),
}

/// The shape of a JSON value as mathematics sees it.
pub enum Json {
    /// `null`.
    Null,
    /// A boolean.
    Bool(bool),
    /// A number, as written.
    Number(Seq<char>),
    /// A string.
    Str(Seq<char>),
    /// An array.
    Array(Seq<Json>),
    /// An object: keys and values.
    Object(Seq<(Seq<char>, Json)>),
}

/// The view of a JSON value.
pub open spec fn json(v: JsonValue) -> Json
    decreases v, 0nat,
{
    match v {
        JsonValue::Null => Json::Null,
        JsonValue::Bool(b) => Json::Bool(b),
        JsonValue::Number(n) => Json::Number(n@),
        JsonValue::Str(s) => Json::Str(s@),
        JsonValue::Array(a) => Json::Array(json_items(a@, a@.len())),
        JsonValue::Object(o) => Json::Object(json_members(o@, o@.len())),
    }
}

/// The views of the first `n` items.
pub open spec fn json_items(s: Seq<JsonValue>, n: nat) -> Seq<Json>
    decreases s, n,
{
    if n == 0 || n > s.len() {
        seq![]
    } else {
        json_items(s, (n - 1) as nat).push(json(s[n - 1]))
    }
}

/// The views of the first `n` members.
pub open spec fn json_members(s: Seq<(String, JsonValue)>, n: nat) -> Seq<(Seq<char>, Json)>
    decreases s, n,
{
    if n == 0 || n > s.len() {
        seq![]
    } else {
        json_members(s, (n - 1) as nat).push((s[n - 1].0@, json(s[n - 1].1)))
    }
}

/// The first member of an object with the key, if any.
pub open spec fn member_index(m: Seq<(Seq<char>, Json)>, key: Seq<char>) -> Option<int>
    decreases m.len(),
{
    if m.len() == 0 {
        None
    } else {
        match member_index(m.drop_last(), key) {
            Some(i) => Some(i),
            None => if m.last().0 == key {
                Some(m.len() - 1)
            } else {
                None
            },
        }
    }
}

/// `overlay` merged into `base`: two objects merge member by member;
/// otherwise the overlay replaces the base.
pub open spec fn merge(base: Json, overlay: Json) -> Json
    decreases overlay, 0nat,
{
    match (base, overlay) {
        (Json::Object(b), Json::Object(o)) => Json::Object(merge_members(b, o, o.len())),
        _ => overlay,
    }
}

/// The members of `b` with the first `n` members of `o` merged in, in
/// order: a member under a present key merges into it, one under a new key
/// is added at the end, merged into `null`.
pub open spec fn merge_members(b: Seq<(Seq<char>, Json)>, o: Seq<(Seq<char>, Json)>, n: nat) -> Seq<
    (Seq<char>, Json),
>
    decreases o, n,
{
    if n == 0 || n > o.len() {
        b
    } else {
        let acc = merge_members(b, o, (n - 1) as nat);
        let k = o[n - 1].0;
        match member_index(acc, k) {
            Some(i) => acc.update(i, (k, merge(acc[i].1, o[n - 1].1))),
            None => acc.push((k, merge(Json::Null, o[n - 1].1))),
        }
    }
}

/// The views of items depend only on those items.
proof fn lemma_items_prefix(s1: Seq<JsonValue>, s2: Seq<JsonValue>, n: nat)
    requires
        n <= s1.len(),
        n <= s2.len(),
        forall|i: int| 0 <= i < n ==> s1[i] == s2[i],
    ensures
        json_items(s1, n) == json_items(s2, n),
    decreases n,
{
    if n > 0 {
        lemma_items_prefix(s1, s2, (n - 1) as nat);
    }
}

/// The views of members depend only on those members.
proof fn lemma_members_prefix(s1: Seq<(String, JsonValue)>, s2: Seq<(String, JsonValue)>, n: nat)
    requires
        n <= s1.len(),
        n <= s2.len(),
        forall|i: int| 0 <= i < n ==> s1[i] == s2[i],
    ensures
        json_members(s1, n) == json_members(s2, n),
    decreases n,
{
    if n > 0 {
        lemma_members_prefix(s1, s2, (n - 1) as nat);
    }
}

/// Item views have one view per item.
proof fn lemma_items_index(s: Seq<JsonValue>, n: nat)
    requires
        n <= s.len(),
    ensures
        json_items(s, n).len() == n,
        forall|i: int| 0 <= i < n ==> #[trigger] json_items(s, n)[i] == json(s[i]),
    decreases n,
{
    if n > 0 {
        lemma_items_index(s, (n - 1) as nat);
    }
}

/// Member views have one view per member.
proof fn lemma_members_index(s: Seq<(String, JsonValue)>, n: nat)
    requires
        n <= s.len(),
    ensures
        json_members(s, n).len() == n,
        forall|i: int| 0 <= i < n ==> #[trigger] json_members(s, n)[i] == (s[i].0@, json(s[i].1)),
    decreases n,
{
    if n > 0 {
        lemma_members_index(s, (n - 1) as nat);
    }
}

/// The first member index lies in range and has the key; without one, no
/// member has it.
proof fn lemma_member_index(m: Seq<(Seq<char>, Json)>, key: Seq<char>)
    ensures
        member_index(m, key) matches Some(i) ==> 0 <= i < m.len() && m[i].0 == key && forall|
            j: int,
        |
            0 <= j < i ==> #[trigger] m[j].0 != key,
        member_index(m, key) is None ==> forall|j: int| 0 <= j < m.len() ==> #[trigger] m[j].0 != key,
    decreases m.len(),
{
    if m.len() > 0 {
        lemma_member_index(m.drop_last(), key);
        if member_index(m, key) is None {
            assert forall|j: int| 0 <= j < m.len() implies #[trigger] m[j].0 != key by {
                if j < m.len() - 1 {
                    assert(m.drop_last()[j] == m[j]);
                }
            }
        }
        if let Some(i) = member_index(m, key) {
            assert forall|j: int| 0 <= j < i implies #[trigger] m[j].0 != key by {
                assert(m.drop_last()[j] == m[j]);
            }
        }
    }
}

/// The first member with the key is the one found first.
proof fn lemma_member_index_first(m: Seq<(Seq<char>, Json)>, i: int, key: Seq<char>)
    requires
        0 <= i < m.len(),
        m[i].0 == key,
        forall|j: int| 0 <= j < i ==> #[trigger] m[j].0 != key,
    ensures
        member_index(m, key) == Some(i),
    decreases m.len(),
{
    if i < m.len() - 1 {
        lemma_member_index_first(m.drop_last(), i, key);
    } else {
        lemma_member_index_none(m.drop_last(), key);
    }
}

/// Without a member with the key, there is no index.
proof fn lemma_member_index_none(m: Seq<(Seq<char>, Json)>, key: Seq<char>)
    requires
        forall|j: int| 0 <= j < m.len() ==> #[trigger] m[j].0 != key,
    ensures
        member_index(m, key) is None,
    decreases m.len(),
{
    if m.len() > 0 {
        assert forall|j: int| 0 <= j < m.len() - 1 implies #[trigger] m.drop_last()[j].0 != key by {
            assert(m.drop_last()[j] == m[j]);
        }
        lemma_member_index_none(m.drop_last(), key);
    }
}

/// A copy of a JSON value.
pub fn copy_json(v: &JsonValue) -> (r: JsonValue)
    ensures
        json(r) == json(*v),
    decreases v,
{
    match v {
        JsonValue::Null => JsonValue::Null,
        JsonValue::Bool(b) => JsonValue::Bool(*b),
        JsonValue::Number(n) => JsonValue::Number(owned(n.as_str())),
        JsonValue::Str(t) => JsonValue::Str(owned(t.as_str())),
        JsonValue::Array(a) => {
            let mut out: Vec<JsonValue> = Vec::new();
            let mut i: usize = 0;
            while i < a.len()
                invariant
                    i <= a@.len(),
                    *v == JsonValue::Array(*a),
                    out@.len() == i,
                    json_items(out@, i as nat) == json_items(a@, i as nat),
                decreases a@.len() - i,
            {
                proof {
                    let ghost vv: JsonValue = *v;
                    assert(decreases_to!(vv => vv->Array_0));
                    assert(decreases_to!(*a => a[i as int]));
                }
                let c = copy_json(&a[i]);
                let ghost o = out@;
                out.push(c);
                proof {
                    lemma_items_prefix(out@, o, i as nat);
                }
                i += 1;
            }
            JsonValue::Array(out)
        },
        JsonValue::Object(m) => {
            let mut out: Vec<(String, JsonValue)> = Vec::new();
            let mut i: usize = 0;
            while i < m.len()
                invariant
                    i <= m@.len(),
                    *v == JsonValue::Object(*m),
                    out@.len() == i,
                    json_members(out@, i as nat) == json_members(m@, i as nat),
                decreases m@.len() - i,
            {
                proof {
                    let ghost vv: JsonValue = *v;
                    assert(decreases_to!(vv => vv->Object_0));
                    assert(decreases_to!(*m => m[i as int]));
                    assert(decreases_to!(m[i as int] => m[i as int].1));
                }
                let c = copy_json(&m[i].1);
                let ghost o = out@;
                out.push((owned(m[i].0.as_str()), c));
                proof {
                    lemma_members_prefix(out@, o, i as nat);
                }
                i += 1;
            }
            JsonValue::Object(out)
        },
    }
}

/// The index of the first member with the key.
fn find_member(m: &Vec<(String, JsonValue)>, key: &str) -> (r: Option<usize>)
    ensures
        match r {
            Some(k) => member_index(json_members(m@, m@.len()), key@) == Some(k as int) && k < m@.len(),
            None => member_index(json_members(m@, m@.len()), key@) is None,
        },
{
    proof {
        lemma_members_index(m@, m@.len());
    }
    let ghost mv = json_members(m@, m@.len());
    let mut i: usize = 0;
    while i < m.len()
        invariant
            i <= m@.len(),
            mv == json_members(m@, m@.len()),
            mv.len() == m@.len(),
            forall|j: int| 0 <= j < mv.len() ==> #[trigger] mv[j] == (m@[j].0@, json(m@[j].1)),
            forall|j: int| 0 <= j < i ==> #[trigger] mv[j].0 != key@,
        decreases m@.len() - i,
    {
        if str_eq(m[i].0.as_str(), key) {
            proof {
                lemma_member_index_first(mv, i as int, key@);
            }
            return Some(i);
        }
        i += 1;
    }
    proof {
        lemma_member_index_none(mv, key@);
    }
    None
}

/// Merges `overlay` into `base`: objects merge member by member,
/// recursively; anything else replaces the base.
pub fn deep_merge(base: &mut JsonValue, overlay: &JsonValue)
    ensures
        json(*final(base)) == merge(json(*old(base)), json(*overlay)),
    decreases overlay, 0nat,
{
    let mut taken = JsonValue::Null;
    std::mem::swap(&mut taken, base);
    match (taken, overlay) {
        (JsonValue::Object(b), JsonValue::Object(o)) => {
            let mut b = b;
            proof {
                let ghost ovv: JsonValue = *overlay;
                assert(decreases_to!(ovv => ovv->Object_0));
                lemma_members_index(o@, o@.len());
            }
            merge_into(&mut b, o);
            *base = JsonValue::Object(b);
        },
        (_, ov) => {
            *base = copy_json(ov);
        },
    }
}

/// Merges the members of `o` into the members of `b`, in order: a member
/// under a key already present merges into it, one under a new key is
/// added at the end.
pub fn merge_into(b: &mut Vec<(String, JsonValue)>, o: &Vec<(String, JsonValue)>)
    ensures
        json_members(final(b)@, final(b)@.len()) == merge_members(
            json_members(old(b)@, old(b)@.len()),
            json_members(o@, o@.len()),
            o@.len(),
        ),
    decreases o, 1nat,
{
    let ghost b0 = json_members(b@, b@.len());
    let ghost ov = json_members(o@, o@.len());
    proof {
        lemma_members_index(o@, o@.len());
    }
    let mut i: usize = 0;
    while i < o.len()
        invariant
            i <= o@.len(),
            ov == json_members(o@, o@.len()),
            ov.len() == o@.len(),
            forall|j: int| 0 <= j < ov.len() ==> #[trigger] ov[j] == (o@[j].0@, json(o@[j].1)),
            json_members(b@, b@.len()) == merge_members(b0, ov, i as nat),
        decreases o@.len() - i,
    {
        let key = o[i].0.as_str();
        let ghost acc = json_members(b@, b@.len());
        proof {
            assert(decreases_to!(*o => o[i as int]));
            assert(decreases_to!(o[i as int] => o[i as int].1));
            lemma_members_index(b@, b@.len());
            assert(ov[i as int] == (o@[i as int].0@, json(o@[i as int].1)));
        }
        match find_member(b, key) {
            Some(k) => {
                let mut e = b.remove(k);
                deep_merge(&mut e.1, &o[i].1);
                b.insert(k, e);
                proof {
                    lemma_members_index(b@, b@.len());
                    lemma_member_index(acc, key@);
                    assert(json_members(b@, b@.len()) =~= acc.update(
                        k as int,
                        (key@, merge(acc[k as int].1, json(o@[i as int].1))),
                    ));
                }
            },
            None => {
                let mut v = JsonValue::Null;
                deep_merge(&mut v, &o[i].1);
                let ghost old_b = b@;
                b.push((owned(key), v));
                proof {
                    lemma_members_index(b@, b@.len());
                    lemma_members_index(old_b, old_b.len());
                    assert(json_members(b@, b@.len()) =~= acc.push(
                        (key@, merge(Json::Null, json(o@[i as int].1))),
                    ));
                }
            },
        }
        i += 1;
    }
}

/// Whether `a` comes before `b`, looking from index `i` on: characters
/// compare by code point, and a proper prefix comes first. This is the
/// order of `String`.
pub open spec fn key_lt_from(a: Seq<char>, b: Seq<char>, i: nat) -> bool
    decreases a.len() - i,
{
    if i >= b.len() {
        false
    } else if i >= a.len() {
        true
    } else if a[i as int] != b[i as int] {
        (a[i as int] as u32) < (b[i as int] as u32)
    } else {
        key_lt_from(a, b, i + 1)
    }
}

/// Whether key `a` sorts before key `b`.
pub open spec fn key_lt(a: Seq<char>, b: Seq<char>) -> bool {
    key_lt_from(a, b, 0)
}

/// Whether key `a` sorts before key `b`.
pub fn key_less(a: &str, b: &str) -> (r: bool)
    ensures
        r == key_lt(a@, b@),
{
    let x = chars_of(a);
    let y = chars_of(b);
    let mut i: usize = 0;
    while i < x.len() && i < y.len()
        invariant
            i <= x@.len(),
            i <= y@.len(),
            x@ == a@,
            y@ == b@,
            key_lt(a@, b@) == key_lt_from(a@, b@, i as nat),
        decreases x@.len() - i,
    {
        if x[i] != y[i] {
            return (x[i] as u32) < (y[i] as u32);
        }
        i += 1;
    }
    i < y.len()
}

/// Where `k` goes into `s`, looking from index `i` on: before the first key
/// that sorts after it.
pub open spec fn insert_pos(s: Seq<Seq<char>>, k: Seq<char>, i: nat) -> nat
    decreases s.len() - i,
{
    if i >= s.len() {
        s.len()
    } else if key_lt(k, s[i as int]) {
        i
    } else {
        insert_pos(s, k, i + 1)
    }
}

/// The keys in sorted order, equal keys in their original order.
pub open spec fn sort_keys(s: Seq<Seq<char>>) -> Seq<Seq<char>>
    decreases s.len(),
{
    if s.len() == 0 {
        seq![]
    } else {
        let r = sort_keys(s.drop_last());
        r.insert(insert_pos(r, s.last(), 0) as int, s.last())
    }
}

/// The keys of members.
pub open spec fn member_keys(m: Seq<(String, JsonValue)>) -> Seq<Seq<char>> {
    Seq::new(m.len(), |i: int| m[i].0@)
}

proof fn lemma_insert_pos_le(s: Seq<Seq<char>>, k: Seq<char>, i: nat)
    requires
        i <= s.len(),
    ensures
        i <= insert_pos(s, k, i) <= s.len(),
    decreases s.len() - i,
{
    if i < s.len() && !key_lt(k, s[i as int]) {
        lemma_insert_pos_le(s, k, i + 1);
    }
}

proof fn lemma_sort_keys_len(s: Seq<Seq<char>>)
    ensures
        sort_keys(s).len() == s.len(),
    decreases s.len(),
{
    if s.len() > 0 {
        lemma_sort_keys_len(s.drop_last());
        lemma_insert_pos_le(sort_keys(s.drop_last()), s.last(), 0);
    }
}

/// The keys of the members, sorted.
fn sorted_keys(m: &Vec<(String, JsonValue)>) -> (r: Vec<String>)
    ensures
        string_views(r@) == sort_keys(member_keys(m@)),
{
    let ghost keys = member_keys(m@);
    let mut out: Vec<String> = Vec::new();
    let mut j: usize = 0;
    while j < m.len()
        invariant
            j <= m@.len(),
            keys == member_keys(m@),
            string_views(out@) == sort_keys(keys.take(j as int)),
        decreases m@.len() - j,
    {
        let key = m[j].0.as_str();
        let ghost sv = string_views(out@);
        proof {
            lemma_sort_keys_len(keys.take(j as int));
        }
        let mut p: usize = 0;
        while p < out.len() && !key_less(key, out[p].as_str())
            invariant
                p <= out@.len(),
                sv == string_views(out@),
                sv.len() == out@.len(),
                insert_pos(sv, key@, 0) == insert_pos(sv, key@, p as nat),
            decreases out@.len() - p,
        {
            p += 1;
        }
        let ghost before = out@;
        out.insert(p, owned(key));
        proof {
            assert(keys.take(j + 1).drop_last() =~= keys.take(j as int));
            assert(keys.take(j + 1).last() == key@);
            assert(string_views(out@) =~= sv.insert(p as int, key@));
        }
        j += 1;
    }
    proof {
        assert(keys.take(m@.len() as int) =~= keys);
    }
    out
}

/// One loaded configuration file.
#[derive(Debug)]
pub struct ConfigEntry {
    /// Which source it came from.
    pub source: ConfigSource,
    /// The path it was loaded from.
    pub path: String,
    /// Its top-level keys and values.
    pub values: Vec<(String, JsonValue)>,
}

/// Whether some member has the key.
pub open spec fn has_key(m: Seq<(String, JsonValue)>, key: Seq<char>) -> bool {
    exists|j: int| 0 <= j < m.len() && #[trigger] m[j].0@ == key
}

/// The source of the last entry that has the key.
pub open spec fn source_for(es: Seq<ConfigEntry>, key: Seq<char>) -> Option<ConfigSource>
    decreases es.len(),
{
    if es.len() == 0 {
        None
    } else if has_key(es.last().values@, key) {
        Some(es.last().source)
    } else {
        source_for(es.drop_last(), key)
    }
}

/// The merged view of the entries, applied in order: each entry's members
/// merge into what the earlier entries gave.
pub open spec fn merge_entries(es: Seq<ConfigEntry>) -> Seq<(Seq<char>, Json)>
    decreases es.len(),
{
    if es.len() == 0 {
        seq![]
    } else {
        let o = json_members(es.last().values@, es.last().values@.len());
        merge_members(merge_entries(es.drop_last()), o, o.len())
    }
}

/// The lines that list keys.
pub open spec fn key_lines(ks: Seq<Seq<char>>) -> Seq<char>
    decreases ks.len(),
{
    if ks.len() == 0 {
        seq![]
    } else {
        key_lines(ks.drop_last()) + "  - "@ + ks.last() + "\n"@
    }
}

/// The description of one entry: its source, its path and its keys.
pub open spec fn entry_text(e: ConfigEntry) -> Seq<char> {
    "["@ + source_label(e.source) + "]\n  path: "@ + e.path@ + "\n"@ + if e.values@.len() == 0 {
        "  (no keys)\n"@
    } else {
        key_lines(sort_keys(member_keys(e.values@)))
    }
}

/// The descriptions of the entries, one after the other.
pub open spec fn entries_text(es: Seq<ConfigEntry>) -> Seq<char>
    decreases es.len(),
{
    if es.len() == 0 {
        seq![]
    } else {
        entries_text(es.drop_last()) + entry_text(es.last())
    }
}

/// The summary of a merged configuration.
pub open spec fn debug_text(es: Seq<ConfigEntry>, merged: Seq<(String, JsonValue)>) -> Seq<char> {
    if es.len() == 0 {
        "No configuration sources found."@
    } else {
        entries_text(es) + "\nMerged keys ("@ + dec(merged.len()) + "): "@ + join(
            sort_keys(member_keys(merged)),
            ", "@,
        ) + "\n"@
    }
}

/// The result of merging every configuration source found.
#[derive(Debug)]
pub struct MergedConfig {
    /// The entries that contributed, lowest priority first.
    pub entries: Vec<ConfigEntry>,
    /// The merged top-level keys and values.
    pub merged: Vec<(String, JsonValue)>,
}

impl Default for MergedConfig {
    fn default() -> (r: Self)
        ensures
            r.entries@.len() == 0,
            r.merged@.len() == 0,
    {
        MergedConfig { entries: Vec::new(), merged: Vec::new() }
    }
}

impl MergedConfig {
    /// The merged value under a top-level key, if any.
    pub fn get_value(&self, key: &str) -> (r: Option<&JsonValue>)
        ensures
            r == (match member_index(json_members(self.merged@, self.merged@.len()), key@) {
                Some(i) => Some(&self.merged@[i].1),
                None => None,
            }),
    {
        match find_member(&self.merged, key) {
            Some(k) => Some(&self.merged[k].1),
            None => None,
        }
    }

    /// The highest-priority source that has a top-level key.
    pub fn get_source(&self, key: &str) -> (r: Option<ConfigSource>)
        ensures
            r == source_for(self.entries@, key@),
    {
        let mut i: usize = self.entries.len();
        proof {
            assert(self.entries@.take(i as int) =~= self.entries@);
        }
        while i > 0
            invariant
                i <= self.entries@.len(),
                source_for(self.entries@, key@) == source_for(self.entries@.take(i as int), key@),
            decreases i,
        {
            let e = &self.entries[i - 1];
            proof {
                assert(self.entries@.take(i as int).drop_last() =~= self.entries@.take(i - 1));
                assert(self.entries@.take(i as int).last() == *e);
            }
            if find_member(&e.values, key).is_some() {
                proof {
                    lemma_values_have_key(e.values@, key@);
                }
                return Some(e.source);
            }
            proof {
                lemma_values_have_key(e.values@, key@);
            }
            i -= 1;
        }
        proof {
            assert(self.entries@.take(0) =~= Seq::<ConfigEntry>::empty());
        }
        None
    }

    /// A summary of every source and the keys it provides, then the merged
    /// keys.
    pub fn format_debug(&self) -> (r: String)
        ensures
            r@ == debug_text(self.entries@, self.merged@),
    {
        if self.entries.len() == 0 {
            return owned("No configuration sources found.");
        }
        let mut out: Vec<char> = Vec::new();
        let mut i: usize = 0;
        while i < self.entries.len()
            invariant
                i <= self.entries@.len(),
                out@ == entries_text(self.entries@.take(i as int)),
            decreases self.entries@.len() - i,
        {
            let e = &self.entries[i];
            let ghost before = out@;
            extend_str(&mut out, "[");
            extend_str(&mut out, e.source.label());
            extend_str(&mut out, "]\n  path: ");
            extend_str(&mut out, e.path.as_str());
            extend_str(&mut out, "\n");
            if e.values.len() == 0 {
                extend_str(&mut out, "  (no keys)\n");
            } else {
                let keys = sorted_keys(&e.values);
                let ghost mid = out@;
                let mut k: usize = 0;
                while k < keys.len()
                    invariant
                        k <= keys@.len(),
                        out@ == mid + key_lines(string_views(keys@).take(k as int)),
                    decreases keys@.len() - k,
                {
                    let ghost prev = out@;
                    extend_str(&mut out, "  - ");
                    extend_str(&mut out, keys[k].as_str());
                    extend_str(&mut out, "\n");
                    proof {
                        let t = string_views(keys@).take(k + 1);
                        assert(t.drop_last() =~= string_views(keys@).take(k as int));
                        assert(out@ =~= mid + key_lines(t));
                    }
                    k += 1;
                }
                proof {
                    assert(string_views(keys@).take(keys@.len() as int) =~= string_views(keys@));
                }
            }
            proof {
                let t = self.entries@.take(i + 1);
                assert(t.drop_last() =~= self.entries@.take(i as int));
                assert(out@ =~= entries_text(t));
            }
            i += 1;
        }
        proof {
            assert(self.entries@.take(self.entries@.len() as int) =~= self.entries@);
        }
        let n = self.merged.len();
        extend_str(&mut out, "\nMerged keys (");
        push_dec(&mut out, n as u64);
        extend_str(&mut out, "): ");
        let names = sorted_keys(&self.merged);
        let ghost mid = out@;
        let mut k: usize = 0;
        while k < names.len()
            invariant
                k <= names@.len(),
                out@ == mid + join(string_views(names@).take(k as int), ", "@),
            decreases names@.len() - k,
        {
            let ghost prev = out@;
            if k > 0 {
                extend_str(&mut out, ", ");
            }
            extend_str(&mut out, names[k].as_str());
            proof {
                let t = string_views(names@).take(k + 1);
                assert(t.drop_last() =~= string_views(names@).take(k as int));
                if k == 0 {
                    assert(out@ =~= mid + join(t, ", "@));
                } else {
                    assert(out@ =~= mid + join(t, ", "@));
                }
            }
            k += 1;
        }
        proof {
            assert(string_views(names@).take(names@.len() as int) =~= string_views(names@));
        }
        extend_str(&mut out, "\n");
        string_from_chars(&out)
    }
}

/// Finding a member is finding its key among the member keys.
proof fn lemma_values_have_key(m: Seq<(String, JsonValue)>, key: Seq<char>)
    ensures
        member_index(json_members(m, m.len()), key) is Some <==> has_key(m, key),
{
    lemma_members_index(m, m.len());
    let mv = json_members(m, m.len());
    lemma_member_index(mv, key);
    if has_key(m, key) {
        let j = choose|j: int| 0 <= j < m.len() && #[trigger] m[j].0@ == key;
        assert(mv[j].0 == key);
    }
    if let Some(i) = member_index(mv, key) {
        assert(m[i].0@ == key);
    }
}

/// The entries from one source, in their order.
pub open spec fn from_source(es: Seq<ConfigEntry>, src: ConfigSource) -> Seq<ConfigEntry>
    decreases es.len(),
{
    if es.len() == 0 {
        seq![]
    } else if es.last().source == src {
        from_source(es.drop_last(), src).push(es.last())
    } else {
        from_source(es.drop_last(), src)
    }
}

/// The entries by ascending priority; entries of one source keep their
/// order.
pub open spec fn by_priority(es: Seq<ConfigEntry>) -> Seq<ConfigEntry> {
    from_source(es, ConfigSource::User) + from_source(es, ConfigSource::Project) + from_source(
        es,
        ConfigSource::Local,
    )
}

/// Whether some entry was loaded from the path.
pub open spec fn has_path(es: Seq<ConfigEntry>, path: Seq<char>) -> bool {
    exists|j: int| 0 <= j < es.len() && #[trigger] es[j].path@ == path
}

/// The entries with the found ones added in order, each skipped when an
/// entry from its path is already there.
pub open spec fn add_found(es: Seq<ConfigEntry>, found: Seq<ConfigEntry>) -> Seq<ConfigEntry>
    decreases found.len(),
{
    if found.len() == 0 {
        es
    } else {
        let acc = add_found(es, found.drop_last());
        if has_path(acc, found.last().path@) {
            acc
        } else {
            acc.push(found.last())
        }
    }
}

/// Loads configuration entries and merges them.
#[derive(Debug)]
pub struct ConfigLoader {
    entries: Vec<ConfigEntry>,
}

impl Default for ConfigLoader {
    fn default() -> (r: Self)
        ensures
            r.entry_list().len() == 0,
    {
        ConfigLoader { entries: Vec::new() }
    }
}

impl ConfigLoader {
    /// The entries added so far.
    pub closed spec fn entry_list(&self) -> Seq<ConfigEntry> {
        self.entries@
    }

    /// An empty loader.
    pub fn new() -> (r: Self)
        ensures
            r.entry_list().len() == 0,
    {
        ConfigLoader { entries: Vec::new() }
    }

    /// Adds discovered entries; an entry whose path is already present is
    /// skipped, so adding the same files again changes nothing.
    pub fn discover(self, found: Vec<ConfigEntry>) -> (r: Self)
        ensures
            r.entry_list() == add_found(self.entry_list(), found@),
    {
        let mut entries = self.entries;
        let ghost e0 = entries@;
        let ghost f0 = found@;
        let mut found = found;
        let n = found.len();
        let mut k: usize = 0;
        while found.len() > 0
            invariant
                f0.len() == n,
                k + found@.len() == f0.len(),
                found@ == f0.skip(k as int),
                entries@ == add_found(e0, f0.take(k as int)),
            decreases found@.len(),
        {
            let e = found.remove(0);
            let mut present = false;
            let mut j: usize = 0;
            while j < entries.len()
                invariant
                    j <= entries@.len(),
                    present <==> has_path(entries@.take(j as int), e.path@),
                decreases entries@.len() - j,
            {
                if str_eq(entries[j].path.as_str(), e.path.as_str()) {
                    present = true;
                }
                proof {
                    let t = entries@.take(j + 1);
                    if has_path(t, e.path@) && !has_path(entries@.take(j as int), e.path@) {
                        let w = choose|w: int| 0 <= w < t.len() && #[trigger] t[w].path@ == e.path@;
                        assert(w == j);
                    }
                    if has_path(entries@.take(j as int), e.path@) {
                        let w = choose|w: int|
                            0 <= w < j && #[trigger] entries@.take(j as int)[w].path@ == e.path@;
                        assert(t[w] == entries@.take(j as int)[w]);
                    }
                    if present && !has_path(entries@.take(j as int), e.path@) {
                        assert(t[j as int].path@ == e.path@);
                    }
                }
                j += 1;
            }
            proof {
                assert(entries@.take(entries@.len() as int) =~= entries@);
                assert(f0.take(k + 1).drop_last() =~= f0.take(k as int));
                assert(f0.take(k + 1).last() == e);
                assert(found@ =~= f0.skip(k + 1));
            }
            if !present {
                entries.push(e);
            }
            k += 1;
        }
        proof {
            assert(f0.take(k as int) =~= f0);
        }
        ConfigLoader { entries }
    }

    /// Adds one entry.
    pub fn add_entry(self, entry: ConfigEntry) -> (r: Self)
        ensures
            r.entry_list() == self.entry_list().push(entry),
    {
        let mut entries = self.entries;
        entries.push(entry);
        ConfigLoader { entries }
    }

    /// Merges the entries in ascending priority, so that a higher-priority
    /// source overrides a lower one.
    pub fn merge(self) -> (r: MergedConfig)
        ensures
            r.entries@ == by_priority(self.entry_list()),
            json_members(r.merged@, r.merged@.len()) == merge_entries(r.entries@),
    {
        let mut rest = self.entries;
        let ghost all = rest@;
        let mut user: Vec<ConfigEntry> = Vec::new();
        let mut project: Vec<ConfigEntry> = Vec::new();
        let mut local: Vec<ConfigEntry> = Vec::new();
        let n = rest.len();
        let mut k: usize = 0;
        while rest.len() > 0
            invariant
                all.len() == n,
                k + rest@.len() == all.len(),
                rest@ == all.skip(k as int),
                user@ == from_source(all.take(k as int), ConfigSource::User),
                project@ == from_source(all.take(k as int), ConfigSource::Project),
                local@ == from_source(all.take(k as int), ConfigSource::Local),
            decreases rest@.len(),
        {
            let e = rest.remove(0);
            proof {
                assert(all.take(k + 1).drop_last() =~= all.take(k as int));
                assert(all.take(k + 1).last() == e);
                assert(rest@ =~= all.skip(k + 1));
            }
            match e.source {
                ConfigSource::User => user.push(e),
                ConfigSource::Project => project.push(e),
                ConfigSource::Local => local.push(e),
            }
            k += 1;
        }
        proof {
            assert(all.take(k as int) =~= all);
        }
        let mut entries = user;
        entries.append(&mut project);
        entries.append(&mut local);
        let mut merged: Vec<(String, JsonValue)> = Vec::new();
        let mut i: usize = 0;
        while i < entries.len()
            invariant
                i <= entries@.len(),
                json_members(merged@, merged@.len()) == merge_entries(entries@.take(i as int)),
            decreases entries@.len() - i,
        {
            merge_into(&mut merged, &entries[i].values);
            proof {
                let t = entries@.take(i + 1);
                assert(t.drop_last() =~= entries@.take(i as int));
                lemma_members_index(entries@[i as int].values@, entries@[i as int].values@.len());
            }
            i += 1;
        }
        proof {
            assert(entries@.take(entries@.len() as int) =~= entries@);
        }
        MergedConfig { entries, merged }
    }
}

/// What serde_json's `from_str::<serde_json::Value>` makes of a text: the
/// value, as the library holds it (`JsonValue`, numbers as serde_json
/// writes them, object members in serde_json's key order), or the parse
/// error's message.
pub uninterp spec fn json_text_parse(text: Seq<char>) -> Result<Json, Seq<char>>;

/// `serde_json::from_str::<serde_json::Value>`: the value as the library
/// holds it, or the message of the parse error.
#[verifier::external_body]
pub fn parse_json_text(text: &str) -> (r: Result<JsonValue, String>)
    ensures
        match r {
            Ok(v) => json_text_parse(text@) == Ok::<Json, Seq<char>>(json(v)),
            Err(e) => json_text_parse(text@) == Err::<Json, Seq<char>>(e@),
        },
{
    match serde_json::from_str::<serde_json::Value>(text) {
        Ok(v) => Ok(json_from_serde(v)),
        Err(e) => Err(e.to_string()),
    }
}

/// A `serde_json::Value` as the library holds it: one variant for each,
/// numbers as serde_json writes them, array items and object members in
/// serde_json's order.
#[verifier::external_body]
fn json_from_serde(v: serde_json::Value) -> JsonValue {
    match v {
        serde_json::Value::Null => JsonValue::Null,
        serde_json::Value::Bool(b) => JsonValue::Bool(b),
        serde_json::Value::Number(n) => JsonValue::Number(n.to_string()),
        serde_json::Value::String(s) => JsonValue::Str(s),
        serde_json::Value::Array(a) => JsonValue::Array(a.into_iter().map(json_from_serde).collect()),
        serde_json::Value::Object(m) => JsonValue::Object(m.into_iter().map(|(k, v)| (k, json_from_serde(v))).collect()),
    }
}

/// The entries of a configuration file's text: its JSON object's members;
/// a text that is not JSON, or JSON that is not an object, is an error
/// naming the path.
pub fn parse_config_text(text: &str, path: &str) -> (r: Result<Vec<(String, JsonValue)>, Error>)
    ensures
        match json_text_parse(text@) {
            Err(e) => r matches Err(Error::Config(m)) && m@ == "Invalid JSON in "@ + path@ + ": "@ + e,
            Ok(j) => match j {
                Json::Object(ms) => r matches Ok(m) && json_members(m@, m@.len()) == ms,
                _ => r matches Err(Error::Config(m)) && m@ == "Config file must be a JSON object: "@
                    + path@,
            },
        },
{
    match parse_json_text(text) {
        Err(e) => {
            let mut msg: Vec<char> = Vec::new();
            extend_str(&mut msg, "Invalid JSON in ");
            extend_str(&mut msg, path);
            extend_str(&mut msg, ": ");
            extend_str(&mut msg, e.as_str());
            Err(Error::Config(string_from_chars(&msg)))
        },
        Ok(v) => config_object(v, path),
    }
}

/// The top-level members of a configuration file's JSON, which must be an
/// object.
pub fn config_object(value: JsonValue, path: &str) -> (r: Result<Vec<(String, JsonValue)>, Error>)
    ensures
        (match value {
            JsonValue::Object(m) => r == Ok::<Vec<(String, JsonValue)>, Error>(m),
            _ => (match r {
                Err(Error::Config(msg)) => msg@ == "Config file must be a JSON object: "@ + path@,
                _ => false,
            }),
        }),
{
    match value {
        JsonValue::Object(m) => Ok(m),
        _ => {
            let mut msg: Vec<char> = Vec::new();
            extend_str(&mut msg, "Config file must be a JSON object: ");
            extend_str(&mut msg, path);
            Err(Error::Config(string_from_chars(&msg)))
        },
    }
}

/// Replacing a member by one under the same key does not move any key.
proof fn lemma_member_index_update(
    m: Seq<(Seq<char>, Json)>,
    i: int,
    x: (Seq<char>, Json),
    key: Seq<char>,
)
    requires
        0 <= i < m.len(),
        x.0 == m[i].0,
    ensures
        member_index(m.update(i, x), key) == member_index(m, key),
{
    let u = m.update(i, x);
    lemma_member_index(m, key);
    assert forall|j: int| 0 <= j < m.len() implies #[trigger] u[j].0 == m[j].0 by {}
    match member_index(m, key) {
        Some(p) => {
            lemma_member_index_first(u, p, key);
        },
        None => {
            lemma_member_index_none(u, key);
        },
    }
}

/// Adding a member under another key does not move the key.
proof fn lemma_member_index_push_other(m: Seq<(Seq<char>, Json)>, x: (Seq<char>, Json), key: Seq<char>)
    requires
        x.0 != key,
    ensures
        member_index(m.push(x), key) == member_index(m, key),
{
    assert(m.push(x).drop_last() =~= m);
}

/// Merging members under other keys leaves the member under `key` where it
/// was, with its value.
proof fn lemma_merge_other_keys(
    b: Seq<(Seq<char>, Json)>,
    o: Seq<(Seq<char>, Json)>,
    n0: nat,
    n: nat,
    key: Seq<char>,
)
    requires
        n0 <= n <= o.len(),
        forall|j: int| n0 <= j < n ==> #[trigger] o[j].0 != key,
    ensures
        member_index(merge_members(b, o, n), key) == member_index(merge_members(b, o, n0), key),
        member_index(merge_members(b, o, n0), key) matches Some(i) ==> merge_members(b, o, n)[i]
            == merge_members(b, o, n0)[i],
    decreases n - n0,
{
    if n > n0 {
        lemma_merge_other_keys(b, o, n0, (n - 1) as nat, key);
        let acc = merge_members(b, o, (n - 1) as nat);
        let k = o[n - 1].0;
        assert(k != key);
        lemma_member_index(acc, k);
        lemma_member_index(acc, key);
        match member_index(acc, k) {
            Some(p) => {
                lemma_member_index_update(acc, p, (k, merge(acc[p].1, o[n - 1].1)), key);
            },
            None => {
                lemma_member_index_push_other(acc, (k, merge(Json::Null, o[n - 1].1)), key);
            },
        }
    }
}

/// Deep merge keeps what the overlay does not touch: a member of the base
/// under a key that no overlay member has keeps its place and its value.
pub proof fn lemma_base_member_kept(b: Seq<(Seq<char>, Json)>, o: Seq<(Seq<char>, Json)>, key: Seq<char>)
    requires
        forall|j: int| 0 <= j < o.len() ==> #[trigger] o[j].0 != key,
    ensures
        member_index(merge_members(b, o, o.len()), key) == member_index(b, key),
        member_index(b, key) matches Some(i) ==> merge_members(b, o, o.len())[i] == b[i],
{
    lemma_merge_other_keys(b, o, 0, o.len(), key);
}

/// The overlay wins: when the overlay's one member under `key` holds
/// anything but an object, the merge holds that value under `key`.
pub proof fn lemma_overlay_value_wins(
    b: Seq<(Seq<char>, Json)>,
    o: Seq<(Seq<char>, Json)>,
    key: Seq<char>,
    m: int,
)
    requires
        0 <= m < o.len(),
        o[m].0 == key,
        !(o[m].1 is Object),
        forall|j: int| 0 <= j < o.len() && j != m ==> #[trigger] o[j].0 != key,
    ensures
        member_index(merge_members(b, o, o.len()), key) matches Some(i) && merge_members(
            b,
            o,
            o.len(),
        )[i].1 == o[m].1,
{
    let acc = merge_members(b, o, m as nat);
    lemma_member_index(acc, key);
    let r1 = merge_members(b, o, (m + 1) as nat);
    assert(merge_members(b, o, (m + 1) as nat) == (match member_index(acc, key) {
        Some(i) => acc.update(i, (key, merge(acc[i].1, o[m].1))),
        None => acc.push((key, merge(Json::Null, o[m].1))),
    }));
    match member_index(acc, key) {
        Some(p) => {
            lemma_member_index_update(acc, p, (key, merge(acc[p].1, o[m].1)), key);
        },
        None => {
            lemma_member_index_first(r1, acc.len() as int, key);
        },
    }
    lemma_merge_other_keys(b, o, (m + 1) as nat, o.len(), key);
}

/// Higher priority wins: in the merge of the entries, a top-level key
/// holds the value that the last entry with that key gives it, when that
/// value is not an object.
pub proof fn lemma_last_entry_wins(es: Seq<ConfigEntry>, key: Seq<char>, j: int, m: int)
    requires
        0 <= j < es.len(),
        0 <= m < es[j].values@.len(),
        es[j].values@[m].0@ == key,
        !(json(es[j].values@[m].1) is Object),
        forall|q: int|
            0 <= q < es[j].values@.len() && q != m ==> #[trigger] es[j].values@[q].0@ != key,
        forall|l: int| j < l < es.len() ==> !has_key(#[trigger] es[l].values@, key),
    ensures
        member_index(merge_entries(es), key) matches Some(i) && merge_entries(es)[i].1 == json(
            es[j].values@[m].1,
        ),
    decreases es.len(),
{
    let e = es.last();
    let o = json_members(e.values@, e.values@.len());
    lemma_members_index(e.values@, e.values@.len());
    if j == es.len() - 1 {
        assert forall|q: int| 0 <= q < o.len() && q != m implies #[trigger] o[q].0 != key by {
            assert(o[q] == (e.values@[q].0@, json(e.values@[q].1)));
        }
        lemma_overlay_value_wins(merge_entries(es.drop_last()), o, key, m);
    } else {
        let d = es.drop_last();
        assert(d[j] == es[j]);
        assert forall|l: int| j < l < d.len() implies !has_key(#[trigger] d[l].values@, key) by {
            assert(d[l] == es[l]);
        }
        lemma_last_entry_wins(d, key, j, m);
        assert(!has_key(e.values@, key));
        assert forall|q: int| 0 <= q < o.len() implies #[trigger] o[q].0 != key by {
            assert(o[q] == (e.values@[q].0@, json(e.values@[q].1)));
        }
        lemma_base_member_kept(merge_entries(d), o, key);
    }
}

/// Every entry taken from one source has that source.
proof fn lemma_from_source(es: Seq<ConfigEntry>, src: ConfigSource)
    ensures
        forall|k: int| 0 <= k < from_source(es, src).len() ==> #[trigger] from_source(es, src)[k].source
            == src,
    decreases es.len(),
{
    if es.len() > 0 {
        lemma_from_source(es.drop_last(), src);
    }
}

/// Ordered by priority: an entry never comes after one of higher priority.
pub proof fn lemma_by_priority_sorted(es: Seq<ConfigEntry>, i: int, k: int)
    requires
        0 <= i < k < by_priority(es).len(),
    ensures
        source_priority(by_priority(es)[i].source) <= source_priority(by_priority(es)[k].source),
{
    let u = from_source(es, ConfigSource::User);
    let p = from_source(es, ConfigSource::Project);
    let l = from_source(es, ConfigSource::Local);
    lemma_from_source(es, ConfigSource::User);
    lemma_from_source(es, ConfigSource::Project);
    lemma_from_source(es, ConfigSource::Local);
    let s = by_priority(es);
    assert forall|x: int| 0 <= x < s.len() implies #[trigger] s[x].source == (if x < u.len() {
        ConfigSource::User
    } else if x < u.len() + p.len() {
        ConfigSource::Project
    } else {
        ConfigSource::Local
    }) by {
        if x < u.len() {
            assert(s[x] == u[x]);
        } else if x < u.len() + p.len() {
            assert(s[x] == p[x - u.len()]);
        } else {
            assert(s[x] == l[x - u.len() - p.len()]);
        }
    }
    assert(s[i].source == s[i].source);
    assert(s[k].source == s[k].source);
}

} // verus!
