//! The store of a knowledge graph: entities by identifier, an index from
//! lower-cased names to identifiers, and relationships between entities in
//! the order they were added.
//!
//! What an entity or a relationship carries beyond its identifiers (its
//! properties, confidence, timestamps) is the caller's, held as an opaque
//! payload; decisions on it are handed in as values or closures.

use crate::collaboration::{find_key, lemma_key_index, unique_keys_of};
use crate::error::Error;
use crate::text::{chars_of, dec, extend_str, owned, push_dec, str_eq, str_lower, str_to_lowercase, string_from_chars};
use vstd::prelude::*;

verus! {

/// The values of a keyed list by key: later entries win over earlier ones.
pub open spec fn keyed_map<T>(s: Seq<(String, T)>) -> Map<Seq<char>, T>
    decreases s.len(),
{
    if s.len() == 0 {
        Map::empty()
    } else {
        keyed_map(s.drop_last()).insert(s.last().0@, s.last().1)
    }
}

/// The keys of the map are the keys of the list.
pub proof fn lemma_keyed_dom<T>(s: Seq<(String, T)>, key: Seq<char>)
    ensures
        keyed_map(s).dom().contains(key) <==> exists|i: int| 0 <= i < s.len() && #[trigger] s[i].0@ == key,
    decreases s.len(),
{
    if s.len() > 0 {
        let pre = s.drop_last();
        lemma_keyed_dom(pre, key);
        if keyed_map(pre).dom().contains(key) {
            let i = choose|i: int| 0 <= i < pre.len() && #[trigger] pre[i].0@ == key;
            assert(s[i].0@ == key);
        }
        if exists|i: int| 0 <= i < s.len() && #[trigger] s[i].0@ == key {
            let i = choose|i: int| 0 <= i < s.len() && #[trigger] s[i].0@ == key;
            if i < s.len() - 1 {
                assert(pre[i].0@ == key);
            }
        }
    }
}

/// With unique keys, the map gives each entry's value for its key.
pub proof fn lemma_keyed_value<T>(s: Seq<(String, T)>, i: int)
    requires
        unique_keys_of(s),
        0 <= i < s.len(),
    ensures
        keyed_map(s).dom().contains(s[i].0@),
        keyed_map(s)[s[i].0@] == s[i].1,
    decreases s.len(),
{
    let pre = s.drop_last();
    if i < s.len() - 1 {
        assert(unique_keys_of(pre)) by {
            assert forall|a: int, b: int| 0 <= a < b < pre.len() implies #[trigger] pre[a].0@
                != #[trigger] pre[b].0@ by {
                assert(s[a].0@ != s[b].0@);
            }
        }
        assert(pre[i] == s[i]);
        lemma_keyed_value(pre, i);
        assert(s[i].0@ != s[s.len() - 1].0@);
    }
}

/// With unique keys, the map has as many keys as the list has entries.
pub proof fn lemma_keyed_len<T>(s: Seq<(String, T)>)
    requires
        unique_keys_of(s),
    ensures
        keyed_map(s).dom().finite(),
        keyed_map(s).dom().len() == s.len(),
    decreases s.len(),
{
    if s.len() > 0 {
        let pre = s.drop_last();
        assert(unique_keys_of(pre)) by {
            assert forall|a: int, b: int| 0 <= a < b < pre.len() implies #[trigger] pre[a].0@
                != #[trigger] pre[b].0@ by {
                assert(s[a].0@ != s[b].0@);
            }
        }
        lemma_keyed_len(pre);
        lemma_keyed_dom(pre, s.last().0@);
        if keyed_map(pre).dom().contains(s.last().0@) {
            let i = choose|i: int| 0 <= i < pre.len() && #[trigger] pre[i].0@ == s.last().0@;
            assert(s[i].0@ != s[s.len() - 1].0@);
        }
    }
}

/// Replacing the entry at `i` by one with the same key replaces that key's
/// value.
pub proof fn lemma_keyed_update<T>(s: Seq<(String, T)>, i: int, e: (String, T))
    requires
        unique_keys_of(s),
        0 <= i < s.len(),
        e.0@ == s[i].0@,
    ensures
        keyed_map(s.update(i, e)) =~= keyed_map(s).insert(e.0@, e.1),
        unique_keys_of(s.update(i, e)),
    decreases s.len(),
{
    let n = s.len();
    let upd = s.update(i, e);
    let pre = s.drop_last();
    assert(upd.drop_last() =~= if i == n - 1 {
        pre
    } else {
        pre.update(i, e)
    });
    assert(unique_keys_of(pre)) by {
        assert forall|a: int, b: int| 0 <= a < b < pre.len() implies #[trigger] pre[a].0@
            != #[trigger] pre[b].0@ by {
            assert(s[a].0@ != s[b].0@);
        }
    }
    if i < n - 1 {
        lemma_keyed_update(pre, i, e);
        assert(s[n - 1].0@ != s[i].0@);
    }
    assert forall|a: int, b: int| 0 <= a < b < upd.len() implies #[trigger] upd[a].0@
        != #[trigger] upd[b].0@ by {
        assert(s[a].0@ != s[b].0@);
    }
}

/// Removing the entry at `i` removes its key.
pub proof fn lemma_keyed_remove<T>(s: Seq<(String, T)>, i: int)
    requires
        unique_keys_of(s),
        0 <= i < s.len(),
    ensures
        keyed_map(s.remove(i)) =~= keyed_map(s).remove(s[i].0@),
        unique_keys_of(s.remove(i)),
    decreases s.len(),
{
    let n = s.len();
    let key = s[i].0@;
    let rem = s.remove(i);
    let pre = s.drop_last();
    assert(unique_keys_of(pre)) by {
        assert forall|a: int, b: int| 0 <= a < b < pre.len() implies #[trigger] pre[a].0@
            != #[trigger] pre[b].0@ by {
            assert(s[a].0@ != s[b].0@);
        }
    }
    if i == n - 1 {
        assert(rem =~= pre);
        lemma_keyed_dom(pre, key);
        if keyed_map(pre).dom().contains(key) {
            let j = choose|j: int| 0 <= j < pre.len() && #[trigger] pre[j].0@ == key;
            assert(s[j].0@ != s[i].0@);
        }
    } else {
        assert(rem.drop_last() =~= pre.remove(i));
        assert(rem.last() == s.last());
        lemma_keyed_remove(pre, i);
        assert(s[n - 1].0@ != key);
    }
    assert forall|a: int, b: int| 0 <= a < b < rem.len() implies #[trigger] rem[a].0@
        != #[trigger] rem[b].0@ by {
        let a0 = if a < i {
            a
        } else {
            a + 1
        };
        let b0 = if b < i {
            b
        } else {
            b + 1
        };
        assert(rem[a] == s[a0]);
        assert(rem[b] == s[b0]);
        assert(s[a0].0@ != s[b0].0@);
    }
}

/// Appending an entry with a new key adds that key.
pub proof fn lemma_keyed_push<T>(s: Seq<(String, T)>, e: (String, T))
    requires
        unique_keys_of(s),
        !keyed_map(s).dom().contains(e.0@),
    ensures
        keyed_map(s.push(e)) == keyed_map(s).insert(e.0@, e.1),
        unique_keys_of(s.push(e)),
{
    let p = s.push(e);
    assert(p.drop_last() =~= s);
    lemma_keyed_dom(s, e.0@);
    assert forall|a: int, b: int| 0 <= a < b < p.len() implies #[trigger] p[a].0@ != #[trigger] p[b].0@ by {
        if b == s.len() {
            assert(s[a].0@ != e.0@);
        } else {
            assert(s[a].0@ != s[b].0@);
        }
    }
}

/// The index of an entry with the key, if any.
fn position<T>(s: &Vec<(String, T)>, key: &str) -> (r: Option<usize>)
    ensures
        match r {
            Some(i) => i < s@.len() && s@[i as int].0@ == key@,
            None => !keyed_map(s@).dom().contains(key@),
        },
{
    proof {
        lemma_key_index(s@, key@);
        lemma_keyed_dom(s@, key@);
    }
    find_key(s, key)
}

/// A relationship as the store holds it.
#[derive(Debug)]
pub struct StoredRelationship<R> {
    /// Its identifier.
    pub id: String,
    /// The entity it starts at.
    pub source: String,
    /// The entity it ends at.
    pub target: String,
    /// What the caller keeps with it.
    pub data: R,
}

/// A stored relationship as identifier, source, target and payload.
pub type RelationshipView<R> = (Seq<char>, Seq<char>, Seq<char>, R);

/// The views of stored relationships.
pub open spec fn relationship_views<R>(s: Seq<StoredRelationship<R>>) -> Seq<RelationshipView<R>> {
    s.map_values(|x: StoredRelationship<R>| (x.id@, x.source@, x.target@, x.data))
}

/// Whether a relationship does not touch the entity.
pub open spec fn avoids<R>(x: RelationshipView<R>, id: Seq<char>) -> bool {
    x.1 != id && x.2 != id
}

/// The test of whether a relationship does not touch the entity.
pub open spec fn avoiding<R>(id: Seq<char>) -> spec_fn(RelationshipView<R>) -> bool {
    |x: RelationshipView<R>| avoids(x, id)
}

/// The entity views of a keyed list of entities: name and payload by
/// identifier.
pub open spec fn entity_views<E>(s: Seq<(String, (String, E))>) -> Map<Seq<char>, (Seq<char>, E)> {
    keyed_map(s).map_values(|v: (String, E)| (v.0@, v.1))
}

/// The message of a refused addition past the limit of entities.
pub open spec fn entities_full(max: usize) -> Seq<char> {
    "Maximum entities reached: "@ + dec(max as nat)
}

/// The message of a missing entity.
pub open spec fn entity_missing(id: Seq<char>) -> Seq<char> {
    "Entity not found: "@ + id
}

/// The items of `s` whose flag is set, in order; `flags` has one flag for
/// each item.
pub open spec fn kept_by<T>(s: Seq<T>, flags: Seq<bool>) -> Seq<T>
    decreases s.len(),
{
    if s.len() == 0 {
        s
    } else {
        let p = kept_by(s.drop_last(), flags.drop_last());
        if flags.last() {
            p.push(s.last())
        } else {
            p
        }
    }
}

/// Keeping by flags that tell whether a relationship avoids an entity is
/// filtering by that.
pub proof fn lemma_kept_by_avoiding<R>(s: Seq<RelationshipView<R>>, flags: Seq<bool>, id: Seq<char>)
    requires
        flags.len() == s.len(),
        forall|i: int| 0 <= i < s.len() ==> #[trigger] flags[i] == avoids(s[i], id),
    ensures
        kept_by(s, flags) == s.filter(avoiding::<R>(id)),
    decreases s.len(),
{
    if s.len() == 0 {
        reveal(Seq::filter);
    } else {
        let p = s.drop_last();
        let f = flags.drop_last();
        assert forall|i: int| 0 <= i < p.len() implies #[trigger] f[i] == avoids(p[i], id) by {
            assert(f[i] == flags[i]);
            assert(p[i] == s[i]);
        }
        lemma_kept_by_avoiding(p, f, id);
        assert(flags.last() == flags[s.len() - 1]);
        assert(s.last() == s[s.len() - 1]);
        assert(p.push(s.last()) =~= s);
        p.lemma_filter_push(s.last(), avoiding::<R>(id));
        assert(s.filter(avoiding::<R>(id)) == if avoids(s.last(), id) {
            p.filter(avoiding::<R>(id)).push(s.last())
        } else {
            p.filter(avoiding::<R>(id))
        });
    }
}

/// The index of the first relationship with the identifier.
pub open spec fn first_relationship<R>(s: Seq<RelationshipView<R>>, id: Seq<char>, i: int) -> bool {
    &&& 0 <= i < s.len()
    &&& s[i].0 == id
    &&& forall|j: int| 0 <= j < i ==> #[trigger] s[j].0 != id
}

/// What `{:?}` writes for a string: the string quoted, with the characters
/// that need it escaped.
pub uninterp spec fn debug_str(s: Seq<char>) -> Seq<char>;

/// `format!("{:?}", s)`: the string as `Debug` shows it.
#[verifier::external_body]
fn debug_text(s: &str) -> (r: String)
    ensures
        r@ == debug_str(s@),
{
    format!("{:?}", s)
}

/// The message of a missing relationship.
pub open spec fn relationship_missing(id: Seq<char>) -> Seq<char> {
    "Relationship not found: "@ + debug_str(id)
}

/// The message of a refused relationship past the limit.
pub open spec fn relationships_full(max: usize) -> Seq<char> {
    "Maximum relationships reached: "@ + dec(max as nat)
}

/// Once an entity is removed, as `GraphStore::remove_entity` and
/// `GraphStore::merge_entities` leave the relationships, none of them starts
/// or ends at it.
pub proof fn lemma_no_relationship_of_removed<R>(list: Seq<RelationshipView<R>>, id: Seq<char>)
    ensures
        forall|i: int|
            0 <= i < list.filter(avoiding::<R>(id)).len() ==> #[trigger] list.filter(avoiding::<R>(id))[i].1
                != id && list.filter(avoiding::<R>(id))[i].2 != id,
{
    list.filter_lemma(avoiding::<R>(id));
    assert forall|i: int| 0 <= i < list.filter(avoiding::<R>(id)).len() implies #[trigger] list.filter(
        avoiding::<R>(id),
    )[i].1 != id && list.filter(avoiding::<R>(id))[i].2 != id by {
        assert(avoiding::<R>(id)(list.filter(avoiding::<R>(id))[i]));
    }
}

/// The store of a knowledge graph, with its limits.
pub struct GraphStore<E, R> {
    entities: Vec<(String, (String, E))>,
    names: Vec<(String, String)>,
    relationships: Vec<StoredRelationship<R>>,
    max_entities: usize,
    max_relationships: usize,
}

impl<E, R> GraphStore<E, R> {
    /// The store's invariant: no identifier is stored twice, and no name
    /// is indexed twice.
    pub closed spec fn wf(&self) -> bool {
        unique_keys_of(self.entities@) && unique_keys_of(self.names@)
    }

    /// The entities: name and payload by identifier.
    pub closed spec fn entity_map(&self) -> Map<Seq<char>, (Seq<char>, E)> {
        entity_views(self.entities@)
    }

    /// The name index: identifier by lower-cased name.
    pub closed spec fn name_index(&self) -> Map<Seq<char>, Seq<char>> {
        keyed_map(self.names@).map_values(|v: String| v@)
    }

    /// The relationships, in the order they were added.
    pub closed spec fn relationship_list(&self) -> Seq<RelationshipView<R>> {
        relationship_views(self.relationships@)
    }

    /// The largest number of entities.
    pub closed spec fn entity_limit(&self) -> usize {
        self.max_entities
    }

    /// The largest number of relationships.
    pub closed spec fn relationship_limit(&self) -> usize {
        self.max_relationships
    }

    /// An empty store with the limits.
    pub fn new(max_entities: usize, max_relationships: usize) -> (r: GraphStore<E, R>)
        ensures
            r.wf(),
            r.entity_map() == Map::<Seq<char>, (Seq<char>, E)>::empty(),
            r.name_index() == Map::<Seq<char>, Seq<char>>::empty(),
            r.relationship_list() == Seq::<RelationshipView<R>>::empty(),
            r.entity_limit() == max_entities,
            r.relationship_limit() == max_relationships,
    {
        let r = GraphStore {
            entities: Vec::new(),
            names: Vec::new(),
            relationships: Vec::new(),
            max_entities,
            max_relationships,
        };
        assert(r.entity_map() =~= Map::<Seq<char>, (Seq<char>, E)>::empty());
        assert(r.name_index() =~= Map::<Seq<char>, Seq<char>>::empty());
        assert(r.relationship_list() =~= Seq::<RelationshipView<R>>::empty());
        r
    }

    /// How many entities are stored.
    pub fn entity_count(&self) -> (r: usize)
        requires
            self.wf(),
        ensures
            r == self.entity_map().dom().len(),
            self.entity_map().dom().finite(),
    {
        proof {
            lemma_keyed_len(self.entities@);
            assert(self.entity_map().dom() =~= keyed_map(self.entities@).dom());
        }
        self.entities.len()
    }

    /// How many relationships are stored.
    pub fn relationship_count(&self) -> (r: usize)
        ensures
            r == self.relationship_list().len(),
    {
        self.relationships.len()
    }

    /// Stores an entity under its identifier, replacing any there, and
    /// indexes its lower-cased name; refused when the store already holds
    /// its limit of entities. Gives back the identifier.
    pub fn add_entity(&mut self, id: String, name: String, data: E) -> (r: Result<String, Error>)
        requires
            old(self).wf(),
        ensures
            final(self).wf(),
            old(self).entity_map().dom().len() >= old(self).entity_limit() ==> {
                &&& r matches Err(Error::ResourceExhausted(m)) && m@ == entities_full(old(self).entity_limit())
                &&& final(self).entity_map() == old(self).entity_map()
                &&& final(self).name_index() == old(self).name_index()
            },
            old(self).entity_map().dom().len() < old(self).entity_limit() ==> {
                &&& r matches Ok(x) && x@ == id@
                &&& final(self).entity_map() == old(self).entity_map().insert(id@, (name@, data))
                &&& final(self).name_index() == old(self).name_index().insert(str_lower(name@), id@)
            },
            final(self).relationship_list() == old(self).relationship_list(),
            final(self).entity_limit() == old(self).entity_limit(),
            final(self).relationship_limit() == old(self).relationship_limit(),
    {
        proof {
            lemma_keyed_len(self.entities@);
            assert(self.entity_map().dom() =~= keyed_map(self.entities@).dom());
        }
        if self.entities.len() >= self.max_entities {
            let mut m = chars_of("Maximum entities reached: ");
            push_dec(&mut m, self.max_entities as u64);
            return Err(Error::ResourceExhausted(string_from_chars(&m)));
        }
        let lower = str_to_lowercase(name.as_str());
        let ghost n0 = self.names@;
        let name_entry = (lower, owned(id.as_str()));
        match position(&self.names, name_entry.0.as_str()) {
            Some(i) => {
                proof {
                    lemma_keyed_update(n0, i as int, name_entry);
                }
                self.names.set(i, name_entry);
            },
            None => {
                proof {
                    lemma_keyed_push(n0, name_entry);
                }
                self.names.push(name_entry);
            },
        }
        assert(self.name_index() =~= keyed_map(n0).map_values(|v: String| v@).insert(
            str_lower(name@),
            id@,
        ));
        let r = owned(id.as_str());
        let ghost e0 = self.entities@;
        let entry = (id, (name, data));
        match position(&self.entities, entry.0.as_str()) {
            Some(i) => {
                proof {
                    lemma_keyed_update(e0, i as int, entry);
                }
                self.entities.set(i, entry);
            },
            None => {
                proof {
                    lemma_keyed_push(e0, entry);
                }
                self.entities.push(entry);
            },
        }
        assert(self.entity_map() =~= entity_views(e0).insert(r@, (entry.1.0@, entry.1.1)));
        Ok(r)
    }

    /// The payload of the entity with the identifier.
    pub fn get_entity(&self, id: &str) -> (r: Option<&E>)
        requires
            self.wf(),
        ensures
            match r {
                Some(x) => self.entity_map().dom().contains(id@) && *x == self.entity_map()[id@].1,
                None => !self.entity_map().dom().contains(id@),
            },
    {
        match position(&self.entities, id) {
            Some(i) => {
                proof {
                    lemma_keyed_value(self.entities@, i as int);
                }
                Some(&self.entities[i].1.1)
            },
            None => None,
        }
    }

    /// The payload of the entity that the name, lower-cased, is indexed to.
    pub fn get_entity_by_name(&self, name: &str) -> (r: Option<&E>)
        requires
            self.wf(),
        ensures
            match self.name_index().get(str_lower(name@)) {
                Some(id) => match r {
                    Some(x) => self.entity_map().dom().contains(id) && *x == self.entity_map()[id].1,
                    None => !self.entity_map().dom().contains(id),
                },
                None => r is None,
            },
    {
        let lower = str_to_lowercase(name);
        match position(&self.names, lower.as_str()) {
            Some(i) => {
                proof {
                    lemma_keyed_value(self.names@, i as int);
                }
                self.get_entity(self.names[i].1.as_str())
            },
            None => None,
        }
    }

    /// The stored entities, as identifier, name and payload.
    pub fn entity_entries(&self) -> (r: &Vec<(String, (String, E))>)
        requires
            self.wf(),
        ensures
            entity_views(r@) == self.entity_map(),
            unique_keys_of(r@),
    {
        &self.entities
    }

    /// The stored relationships, in the order they were added.
    pub fn relationships(&self) -> (r: &Vec<StoredRelationship<R>>)
        ensures
            relationship_views(r@) == self.relationship_list(),
    {
        &self.relationships
    }

    /// Keeps the relationships whose flag is set, in order.
    pub fn keep_relationships(&mut self, flags: &Vec<bool>)
        requires
            flags@.len() == old(self).relationship_list().len(),
        ensures
            final(self).relationship_list() == kept_by(old(self).relationship_list(), flags@),
            final(self).wf() == old(self).wf(),
            final(self).entity_map() == old(self).entity_map(),
            final(self).name_index() == old(self).name_index(),
            final(self).entity_limit() == old(self).entity_limit(),
            final(self).relationship_limit() == old(self).relationship_limit(),
    {
        let mut rest: Vec<StoredRelationship<R>> = Vec::new();
        std::mem::swap(&mut rest, &mut self.relationships);
        let ghost orig = rest@;
        let ghost all = relationship_views(rest@);
        let n = rest.len();
        let mut kept: Vec<StoredRelationship<R>> = Vec::new();
        let mut k: usize = 0;
        while k < n
            invariant
                n == all.len() == flags@.len(),
                k <= n,
                orig.len() == n,
                all == relationship_views(orig),
                rest@ == orig.skip(k as int),
                relationship_views(kept@) == kept_by(all.take(k as int), flags@.take(k as int)),
            decreases n - k,
        {
            let ghost k0 = kept@;
            let x = rest.remove(0);
            assert(rest@ =~= orig.skip(k + 1));
            assert(x == orig[k as int]);
            assert(all.take(k + 1).drop_last() =~= all.take(k as int));
            assert(flags@.take(k + 1).drop_last() =~= flags@.take(k as int));
            if flags[k] {
                kept.push(x);
                assert(relationship_views(kept@) =~= relationship_views(k0).push(all[k as int]));
            }
            k += 1;
        }
        assert(all.take(n as int) =~= all);
        assert(flags@.take(n as int) =~= flags@);
        self.relationships = kept;
    }

    /// Drops the relationships that start or end at the entity.
    fn drop_relationships_of(&mut self, id: &str)
        ensures
            final(self).relationship_list() == old(self).relationship_list().filter(avoiding::<R>(id@)),
            final(self).wf() == old(self).wf(),
            final(self).entity_map() == old(self).entity_map(),
            final(self).name_index() == old(self).name_index(),
            final(self).entity_limit() == old(self).entity_limit(),
            final(self).relationship_limit() == old(self).relationship_limit(),
    {
        let ghost all = self.relationship_list();
        let mut flags: Vec<bool> = Vec::new();
        let mut i: usize = 0;
        while i < self.relationships.len()
            invariant
                i <= self.relationships@.len(),
                all == self.relationship_list(),
                flags@.len() == i,
                forall|j: int| 0 <= j < i ==> #[trigger] flags@[j] == avoids(all[j], id@),
            decreases self.relationships@.len() - i,
        {
            let x = &self.relationships[i];
            let keep = !(str_eq(x.source.as_str(), id) || str_eq(x.target.as_str(), id));
            flags.push(keep);
            i += 1;
        }
        proof {
            lemma_kept_by_avoiding(all, flags@, id@);
        }
        self.keep_relationships(&flags);
    }

    /// Removes the entity, its name from the index, and the relationships
    /// that start or end at it; gives back its payload. A missing entity is
    /// `NotFound`.
    pub fn remove_entity(&mut self, id: &str) -> (r: Result<E, Error>)
        requires
            old(self).wf(),
        ensures
            final(self).wf(),
            !old(self).entity_map().dom().contains(id@) ==> {
                &&& r matches Err(Error::NotFound(m)) && m@ == entity_missing(id@)
                &&& final(self).entity_map() == old(self).entity_map()
                &&& final(self).name_index() == old(self).name_index()
                &&& final(self).relationship_list() == old(self).relationship_list()
            },
            old(self).entity_map().dom().contains(id@) ==> {
                &&& r matches Ok(d) && d == old(self).entity_map()[id@].1
                &&& final(self).entity_map() == old(self).entity_map().remove(id@)
                &&& final(self).name_index() == old(self).name_index().remove(
                    str_lower(old(self).entity_map()[id@].0),
                )
                &&& final(self).relationship_list() == old(self).relationship_list().filter(avoiding::<R>(id@))
            },
            final(self).entity_limit() == old(self).entity_limit(),
            final(self).relationship_limit() == old(self).relationship_limit(),
    {
        match position(&self.entities, id) {
            None => {
                let mut m = chars_of("Entity not found: ");
                extend_str(&mut m, id);
                Err(Error::NotFound(string_from_chars(&m)))
            },
            Some(i) => {
                let ghost e0 = self.entities@;
                let ghost n0 = self.names@;
                proof {
                    lemma_keyed_value(e0, i as int);
                    lemma_keyed_remove(e0, i as int);
                }
                let (_, (name, data)) = self.entities.remove(i);
                assert(self.entity_map() =~= entity_views(e0).remove(id@));
                let lower = str_to_lowercase(name.as_str());
                match position(&self.names, lower.as_str()) {
                    Some(j) => {
                        proof {
                            lemma_keyed_remove(n0, j as int);
                        }
                        self.names.remove(j);
                    },
                    None => {
                        assert(keyed_map(n0).remove(lower@) =~= keyed_map(n0));
                    },
                }
                assert(self.name_index() =~= keyed_map(n0).map_values(|v: String| v@).remove(lower@));
                self.drop_relationships_of(id);
                Ok(data)
            },
        }
    }

    /// Adds a relationship between two stored entities, after any there;
    /// gives back its identifier. A missing source, then a missing target,
    /// is `NotFound`; a store at its limit of relationships refuses it.
    pub fn add_relationship(&mut self, id: String, source: String, target: String, data: R) -> (r:
        Result<String, Error>)
        requires
            old(self).wf(),
        ensures
            final(self).wf(),
            final(self).entity_map() == old(self).entity_map(),
            final(self).name_index() == old(self).name_index(),
            final(self).entity_limit() == old(self).entity_limit(),
            final(self).relationship_limit() == old(self).relationship_limit(),
            !old(self).entity_map().dom().contains(source@) ==> (r matches Err(Error::NotFound(m))
                && m@ == "Source entity not found: "@ + source@),
            old(self).entity_map().dom().contains(source@) && !old(self).entity_map().dom().contains(
                target@,
            ) ==> (r matches Err(Error::NotFound(m)) && m@ == "Target entity not found: "@ + target@),
            old(self).entity_map().dom().contains(source@) && old(self).entity_map().dom().contains(
                target@,
            ) && old(self).relationship_list().len() >= old(self).relationship_limit() ==> (r matches Err(
                Error::ResourceExhausted(m),
            ) && m@ == relationships_full(old(self).relationship_limit())),
            r is Err ==> final(self).relationship_list() == old(self).relationship_list(),
            old(self).entity_map().dom().contains(source@) && old(self).entity_map().dom().contains(
                target@,
            ) && old(self).relationship_list().len() < old(self).relationship_limit() ==> {
                &&& r matches Ok(x) && x@ == id@
                &&& final(self).relationship_list() == old(self).relationship_list().push(
                    (id@, source@, target@, data),
                )
            },
    {
        proof {
            lemma_keyed_dom(self.entities@, source@);
            lemma_keyed_dom(self.entities@, target@);
            assert(self.entity_map().dom() =~= keyed_map(self.entities@).dom());
        }
        if position(&self.entities, source.as_str()).is_none() {
            let mut m = chars_of("Source entity not found: ");
            extend_str(&mut m, source.as_str());
            return Err(Error::NotFound(string_from_chars(&m)));
        }
        if position(&self.entities, target.as_str()).is_none() {
            let mut m = chars_of("Target entity not found: ");
            extend_str(&mut m, target.as_str());
            return Err(Error::NotFound(string_from_chars(&m)));
        }
        if self.relationships.len() >= self.max_relationships {
            let mut m = chars_of("Maximum relationships reached: ");
            push_dec(&mut m, self.max_relationships as u64);
            return Err(Error::ResourceExhausted(string_from_chars(&m)));
        }
        let r = owned(id.as_str());
        let ghost l0 = self.relationships@;
        self.relationships.push(StoredRelationship { id, source, target, data });
        assert(self.relationship_list() =~= relationship_views(l0).push(
            (r@, self.relationships@.last().source@, self.relationships@.last().target@, self.relationships@.last().data),
        ));
        Ok(r)
    }

    /// The index of the first relationship with the identifier.
    fn relationship_position(&self, id: &str) -> (r: Option<usize>)
        ensures
            match r {
                Some(i) => first_relationship(self.relationship_list(), id@, i as int),
                None => forall|j: int|
                    0 <= j < self.relationship_list().len() ==> #[trigger] self.relationship_list()[j].0
                        != id@,
            },
    {
        let mut i: usize = 0;
        while i < self.relationships.len()
            invariant
                i <= self.relationships@.len(),
                forall|j: int| 0 <= j < i ==> #[trigger] self.relationship_list()[j].0 != id@,
            decreases self.relationships@.len() - i,
        {
            if str_eq(self.relationships[i].id.as_str(), id) {
                return Some(i);
            }
            i += 1;
        }
        None
    }

    /// The payload of the first relationship with the identifier.
    pub fn get_relationship(&self, id: &str) -> (r: Option<&R>)
        ensures
            match r {
                Some(x) => exists|i: int|
                    first_relationship(self.relationship_list(), id@, i) && *x == #[trigger] self.relationship_list()[i].3,
                None => forall|j: int|
                    0 <= j < self.relationship_list().len() ==> #[trigger] self.relationship_list()[j].0
                        != id@,
            },
    {
        match self.relationship_position(id) {
            Some(i) => {
                assert(self.relationship_list()[i as int].3 == self.relationships@[i as int].data);
                Some(&self.relationships[i].data)
            },
            None => None,
        }
    }

    /// Removes the first relationship with the identifier and gives back its
    /// payload; without one, `NotFound`.
    pub fn remove_relationship(&mut self, id: &str) -> (r: Result<R, Error>)
        requires
            old(self).wf(),
        ensures
            final(self).wf(),
            final(self).entity_map() == old(self).entity_map(),
            final(self).name_index() == old(self).name_index(),
            final(self).entity_limit() == old(self).entity_limit(),
            final(self).relationship_limit() == old(self).relationship_limit(),
            match r {
                Ok(d) => exists|i: int|
                    first_relationship(old(self).relationship_list(), id@, i) && d == #[trigger] old(
                        self,
                    ).relationship_list()[i].3 && final(self).relationship_list() == old(
                        self,
                    ).relationship_list().remove(i),
                Err(e) => {
                    &&& forall|j: int|
                        0 <= j < old(self).relationship_list().len() ==> #[trigger] old(
                            self,
                        ).relationship_list()[j].0 != id@
                    &&& e matches Error::NotFound(m) && m@ == relationship_missing(id@)
                    &&& final(self).relationship_list() == old(self).relationship_list()
                },
            },
    {
        match self.relationship_position(id) {
            Some(i) => {
                let ghost l0 = self.relationships@;
                let x = self.relationships.remove(i);
                assert(self.relationship_list() =~= relationship_views(l0).remove(i as int));
                assert(relationship_views(l0)[i as int].3 == x.data);
                Ok(x.data)
            },
            None => {
                let mut m = chars_of("Relationship not found: ");
                let d = debug_text(id);
                extend_str(&mut m, d.as_str());
                Err(Error::NotFound(string_from_chars(&m)))
            },
        }
    }

    /// Changes the entity's name and payload by `update`, which is handed
    /// the current ones; the name index stays as it is. A missing entity is
    /// `NotFound`.
    pub fn update_entity<F: FnOnce(String, E) -> (String, E)>(&mut self, id: &str, update: F) -> (r:
        Result<(), Error>)
        requires
            old(self).wf(),
            forall|n: String, d: E| call_requires(update, (n, d)),
        ensures
            final(self).wf(),
            final(self).name_index() == old(self).name_index(),
            final(self).relationship_list() == old(self).relationship_list(),
            final(self).entity_limit() == old(self).entity_limit(),
            final(self).relationship_limit() == old(self).relationship_limit(),
            !old(self).entity_map().dom().contains(id@) ==> (r matches Err(Error::NotFound(m)) && m@
                == entity_missing(id@) && final(self).entity_map() == old(self).entity_map()),
            old(self).entity_map().dom().contains(id@) ==> (r is Ok && exists|n0: String, n: String, d: E|
                n0@ == old(self).entity_map()[id@].0 && call_ensures(
                    update,
                    (n0, old(self).entity_map()[id@].1),
                    (n, d),
                ) && #[trigger] final(self).entity_map() == old(self).entity_map().insert(id@, (n@, d))),
    {
        match position(&self.entities, id) {
            None => {
                let mut m = chars_of("Entity not found: ");
                extend_str(&mut m, id);
                Err(Error::NotFound(string_from_chars(&m)))
            },
            Some(i) => {
                let ghost e0 = self.entities@;
                proof {
                    lemma_keyed_value(e0, i as int);
                }
                let (k, (n, d)) = self.entities.remove(i);
                let ghost n0 = n;
                let ghost d0 = d;
                assert(n0@ == old(self).entity_map()[id@].0 && d0 == old(self).entity_map()[id@].1);
                let (n2, d2) = update(n, d);
                let ghost n2g = n2;
                let ghost d2g = d2;
                let entry = (k, (n2, d2));
                self.entities.insert(i, entry);
                assert(self.entities@ =~= e0.update(i as int, entry));
                proof {
                    lemma_keyed_update(e0, i as int, entry);
                }
                assert(self.entity_map() =~= entity_views(e0).insert(id@, (n2g@, d2g)));
                assert(call_ensures(update, (n0, d0), (n2g, d2g)));
                assert(n0@ == old(self).entity_map()[id@].0 && call_ensures(
                    update,
                    (n0, old(self).entity_map()[id@].1),
                    (n2g, d2g),
                ) && self.entity_map() == old(self).entity_map().insert(id@, (n2g@, d2g)));
                Ok(())
            },
        }
    }

    /// Merges the entity `remove` into `keep`: `keep`'s payload becomes what
    /// `combine` makes of it and of `remove`'s, then `remove` goes as
    /// `remove_entity` takes it away. A missing `remove`, then a missing
    /// `keep`, is `NotFound` and changes nothing; merging an entity into
    /// itself removes it and is an internal error, as nothing is left to
    /// give back.
    pub fn merge_entities<F: FnOnce(E, &E) -> E>(&mut self, keep: &str, remove: &str, combine: F) -> (r:
        Result<(), Error>)
        requires
            old(self).wf(),
            forall|a: E, b: &E| call_requires(combine, (a, b)),
        ensures
            final(self).wf(),
            final(self).entity_limit() == old(self).entity_limit(),
            final(self).relationship_limit() == old(self).relationship_limit(),
            !old(self).entity_map().dom().contains(remove@) ==> (r matches Err(Error::NotFound(m)) && m@
                == entity_missing(remove@)),
            old(self).entity_map().dom().contains(remove@) && !old(self).entity_map().dom().contains(
                keep@,
            ) ==> (r matches Err(Error::NotFound(m)) && m@ == entity_missing(keep@)),
            !(old(self).entity_map().dom().contains(remove@) && old(self).entity_map().dom().contains(
                keep@,
            )) ==> {
                &&& final(self).entity_map() == old(self).entity_map()
                &&& final(self).name_index() == old(self).name_index()
                &&& final(self).relationship_list() == old(self).relationship_list()
            },
            old(self).entity_map().dom().contains(remove@) && old(self).entity_map().dom().contains(
                keep@,
            ) ==> {
                &&& final(self).name_index() == old(self).name_index().remove(
                    str_lower(old(self).entity_map()[remove@].0),
                )
                &&& final(self).relationship_list() == old(self).relationship_list().filter(
                    avoiding::<R>(remove@),
                )
            },
            old(self).entity_map().dom().contains(keep@) && keep@ == remove@ ==> {
                &&& r matches Err(Error::Internal(m)) && m@ == "Failed to get merged entity"@
                &&& final(self).entity_map() == old(self).entity_map().remove(remove@)
            },
            old(self).entity_map().dom().contains(remove@) && old(self).entity_map().dom().contains(
                keep@,
            ) && keep@ != remove@ ==> (r is Ok && exists|d: E|
                call_ensures(
                    combine,
                    (old(self).entity_map()[keep@].1, &old(self).entity_map()[remove@].1),
                    d,
                ) && #[trigger] final(self).entity_map() == old(self).entity_map().insert(
                    keep@,
                    (old(self).entity_map()[keep@].0, d),
                ).remove(remove@)),
    {
        proof {
            lemma_keyed_dom(self.entities@, remove@);
            lemma_keyed_dom(self.entities@, keep@);
            assert(self.entity_map().dom() =~= keyed_map(self.entities@).dom());
        }
        let j = match position(&self.entities, remove) {
            None => {
                let mut m = chars_of("Entity not found: ");
                extend_str(&mut m, remove);
                return Err(Error::NotFound(string_from_chars(&m)));
            },
            Some(j) => j,
        };
        let i = match position(&self.entities, keep) {
            None => {
                let mut m = chars_of("Entity not found: ");
                extend_str(&mut m, keep);
                return Err(Error::NotFound(string_from_chars(&m)));
            },
            Some(i) => i,
        };
        let ghost e0 = self.entities@;
        proof {
            lemma_keyed_value(e0, i as int);
            lemma_keyed_value(e0, j as int);
        }
        if i == j {
            let _ = self.remove_entity(remove);
            return Err(Error::Internal(owned("Failed to get merged entity")));
        }
        let (k, (n, d)) = self.entities.remove(i);
        let jj = if j > i {
            j - 1
        } else {
            j
        };
        assert(self.entities@[jj as int] == e0[j as int]);
        let d2 = combine(d, &self.entities[jj].1.1);
        let ghost d2g = d2;
        let entry = (k, (n, d2));
        self.entities.insert(i, entry);
        assert(self.entities@ =~= e0.update(i as int, entry));
        proof {
            lemma_keyed_update(e0, i as int, entry);
        }
        assert(self.entity_map() =~= entity_views(e0).insert(keep@, (entity_views(e0)[keep@].0, d2g)));
        let _ = self.remove_entity(remove);
        Ok(())
    }
}

} // verus!
