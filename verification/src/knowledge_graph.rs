//! Traversal of a knowledge graph: breadth-first search from an entity
//! along typed relationships, with limits on depth and on the number of
//! entities visited.
//!
//! The graph is seen through its entity identifiers and its relationships
//! as edges, in the order they were added; whether a relationship's
//! confidence reaches the minimum is decided by the caller and handed in
//! with each edge.

use crate::error::Error;
use crate::text::{contains_str, extend_str, str_eq, string_from_chars, string_views, owned};
use vstd::prelude::*;

verus! {

/// Which relationships of an entity to follow.
#[derive(Debug, Clone, Copy, PartialEq, Eq, Hash, Structural)]
pub enum RelationDirection {
    /// Those that start at the entity.
    Outgoing,
    /// Those that end at the entity.
    Incoming,
    /// Both.
    Both,
}

/// How a property filter compares.
#[derive(Debug, Clone, Copy, PartialEq, Eq, Hash, Structural)]
pub enum FilterOperation {
    /// Equal.
    Equals,
    /// Not equal.
    NotEquals,
    /// Greater (numbers).
    GreaterThan,
    /// Less (numbers).
    LessThan,
    /// Contains (text or list).
    Contains,
    /// Starts with (text).
    StartsWith,
    /// Ends with (text).
    EndsWith,
    /// The property is present.
    Exists,
}

/// A relationship as traversal sees it.
#[derive(Debug, Clone)]
pub struct Edge {
    /// The entity it starts at.
    pub source: String,
    /// The entity it ends at.
    pub target: String,
    /// Its type.
    pub relation_type: String,
    /// Whether its confidence reaches the traversal's minimum.
    pub admitted: bool,
}

/// The limits of a traversal.
#[derive(Debug, Clone)]
pub struct TraversalPlan {
    /// The deepest level expanded.
    pub max_depth: usize,
    /// The relationship types followed; empty follows all.
    pub relationship_types: Vec<String>,
    /// Which relationships to follow.
    pub direction: RelationDirection,
    /// The most entities visited.
    pub max_entities: usize,
}

/// The result of a traversal.
#[derive(Debug, Clone)]
pub struct Traversal {
    /// The entities visited in order: identifier, depth, and the indices
    /// of the edges that lead to it from the start.
    pub visited: Vec<(String, usize, Vec<usize>)>,
    /// The indices of the edges by which new entities were reached.
    pub relationships: Vec<usize>,
}

/// An entry of the search: an entity, its depth, and the edges leading to
/// it.
pub type Entry = (Seq<char>, nat, Seq<int>);

/// The state of the search.
pub struct Bfs {
    /// Every entity queued so far, in order.
    pub queue: Seq<Entry>,
    /// The next entry to take.
    pub head: nat,
    /// The entities visited.
    pub visited: Seq<Entry>,
    /// The edges by which new entities were reached.
    pub rels: Seq<int>,
    /// Whether the entity limit stopped the search.
    pub stopped: bool,
}

/// The indices, below `n`, of the edges that start at `cur`.
pub open spec fn edges_from(es: Seq<Edge>, cur: Seq<char>, n: nat) -> Seq<int>
    decreases n,
{
    if n == 0 || n > es.len() {
        seq![]
    } else if es[n - 1].source@ == cur {
        edges_from(es, cur, (n - 1) as nat).push(n - 1)
    } else {
        edges_from(es, cur, (n - 1) as nat)
    }
}

/// The indices, below `n`, of the edges that end at `cur`.
pub open spec fn edges_to(es: Seq<Edge>, cur: Seq<char>, n: nat) -> Seq<int>
    decreases n,
{
    if n == 0 || n > es.len() {
        seq![]
    } else if es[n - 1].target@ == cur {
        edges_to(es, cur, (n - 1) as nat).push(n - 1)
    } else {
        edges_to(es, cur, (n - 1) as nat)
    }
}

/// The edges of an entity in the direction: outgoing ones first.
pub open spec fn neighbors(es: Seq<Edge>, cur: Seq<char>, dir: RelationDirection) -> Seq<int> {
    (if dir != RelationDirection::Incoming {
        edges_from(es, cur, es.len())
    } else {
        seq![]
    }) + (if dir != RelationDirection::Outgoing {
        edges_to(es, cur, es.len())
    } else {
        seq![]
    })
}

/// Whether an edge's type is followed.
pub open spec fn type_followed(types: Seq<Seq<char>>, t: Seq<char>) -> bool {
    types.len() == 0 || types.contains(t)
}

/// The far end of an edge seen from `cur`.
pub open spec fn other_end(e: Edge, cur: Seq<char>) -> Seq<char> {
    if e.source@ == cur {
        e.target@
    } else {
        e.source@
    }
}

/// The entities of the entries.
pub open spec fn entry_ids(q: Seq<Entry>) -> Seq<Seq<char>> {
    Seq::new(q.len(), |i: int| q[i].0)
}

/// The search after following the first `n` of the edges `nb` from the
/// entry `(cur, d, p)`: each followed edge to an entity not yet queued
/// queues it one level deeper.
pub open spec fn expand(
    es: Seq<Edge>,
    types: Seq<Seq<char>>,
    s: Bfs,
    cur: Seq<char>,
    d: nat,
    p: Seq<int>,
    nb: Seq<int>,
    n: nat,
) -> Bfs
    decreases n,
{
    if n == 0 || n > nb.len() {
        s
    } else {
        let t = expand(es, types, s, cur, d, p, nb, (n - 1) as nat);
        let k = nb[n - 1];
        let e = es[k];
        if type_followed(types, e.relation_type@) && e.admitted && !entry_ids(t.queue).contains(
            other_end(e, cur),
        ) {
            Bfs {
                queue: t.queue.push((other_end(e, cur), d + 1, p.push(k))),
                rels: t.rels.push(k),
                ..t
            }
        } else {
            t
        }
    }
}

/// Whether the search is over.
pub open spec fn bfs_done(s: Bfs) -> bool {
    s.stopped || s.head >= s.queue.len()
}

/// One step of the search: stop at the entity limit, or take the next
/// entry, visit it if the entity exists, and expand it unless it is at the
/// depth limit.
pub open spec fn bfs_step(es: Seq<Edge>, ids: Seq<Seq<char>>, plan: TraversalPlan, s: Bfs) -> Bfs {
    if bfs_done(s) {
        s
    } else if s.visited.len() >= plan.max_entities {
        Bfs { stopped: true, ..s }
    } else {
        let en = s.queue[s.head as int];
        let s1 = Bfs {
            head: s.head + 1,
            visited: if ids.contains(en.0) {
                s.visited.push(en)
            } else {
                s.visited
            },
            ..s
        };
        if en.1 >= plan.max_depth {
            s1
        } else {
            let nb = neighbors(es, en.0, plan.direction);
            expand(
                es,
                string_views(plan.relationship_types@),
                s1,
                en.0,
                en.1,
                en.2,
                nb,
                nb.len(),
            )
        }
    }
}

/// The search after `k` steps.
pub open spec fn bfs_run(es: Seq<Edge>, ids: Seq<Seq<char>>, plan: TraversalPlan, s: Bfs, k: nat) -> Bfs
    decreases k,
{
    if k == 0 {
        s
    } else {
        bfs_run(es, ids, plan, bfs_step(es, ids, plan, s), (k - 1) as nat)
    }
}

/// The search before its first step.
pub open spec fn bfs_start(start: Seq<char>) -> Bfs {
    Bfs { queue: seq![(start, 0nat, seq![])], head: 0, visited: seq![], rels: seq![], stopped: false }
}

/// The view of a queued or visited entry.
pub open spec fn entry_view(e: (String, usize, Vec<usize>)) -> Entry {
    (e.0@, e.1 as nat, index_views(e.2@))
}

/// The views of entries.
pub open spec fn entry_views(v: Seq<(String, usize, Vec<usize>)>) -> Seq<Entry> {
    Seq::new(v.len(), |i: int| entry_view(v[i]))
}

/// The views of indices.
pub open spec fn index_views(v: Seq<usize>) -> Seq<int> {
    v.map_values(|x: usize| x as int)
}

/// Every entity an edge touches, and the start.
pub open spec fn candidates(es: Seq<Edge>, start: Seq<char>) -> Set<Seq<char>> {
    Set::new(
        |x: Seq<char>|
            x == start || exists|i: int| 0 <= i < es.len() && (#[trigger] es[i].source@ == x
                || es[i].target@ == x),
    )
}

/// The candidates that were not queued yet.
pub open spec fn unqueued(es: Seq<Edge>, start: Seq<char>, q: Seq<Entry>) -> Set<Seq<char>> {
    candidates(es, start).difference(entry_ids(q).to_set())
}

proof fn lemma_candidates_finite(es: Seq<Edge>, start: Seq<char>)
    ensures
        candidates(es, start).finite(),
{
    let all = Seq::new(es.len(), |i: int| es[i].source@) + Seq::new(es.len(), |i: int| es[i].target@)
        + seq![start];
    assert forall|x: Seq<char>| candidates(es, start).contains(x) implies all.to_set().contains(
        x,
    ) by {
        if x == start {
            assert(all[2 * es.len() as int] == x);
        } else {
            let i = choose|i: int| 0 <= i < es.len() && (#[trigger] es[i].source@ == x || es[i].target@ == x);
            if es[i].source@ == x {
                assert(all[i] == x);
            } else {
                assert(all[es.len() + i] == x);
            }
        }
    }
    vstd::set_lib::lemma_len_subset(candidates(es, start), all.to_set());
}

/// Queueing a candidate that was not queued leaves one fewer.
proof fn lemma_queue_shrinks(es: Seq<Edge>, start: Seq<char>, q: Seq<Entry>, en: Entry)
    requires
        candidates(es, start).contains(en.0),
        !entry_ids(q).contains(en.0),
    ensures
        unqueued(es, start, q.push(en)).len() < unqueued(es, start, q).len(),
{
    lemma_candidates_finite(es, start);
    assert(entry_ids(q.push(en)) =~= entry_ids(q).push(en.0));
    entry_ids(q).lemma_push_to_set_commute(en.0);
    assert(unqueued(es, start, q.push(en)) =~= unqueued(es, start, q).remove(en.0));
    assert(unqueued(es, start, q).contains(en.0));
}

/// The far end of an edge is a candidate.
proof fn lemma_other_end_candidate(es: Seq<Edge>, start: Seq<char>, k: int, cur: Seq<char>)
    requires
        0 <= k < es.len(),
    ensures
        candidates(es, start).contains(other_end(es[k], cur)),
{
    assert(es[k].source@ == es[k].source@);
}

/// Whether the entity is queued.
fn queued(q: &Vec<(String, usize, Vec<usize>)>, x: &str) -> (r: bool)
    ensures
        r == entry_ids(entry_views(q@)).contains(x@),
{
    let ghost ids = entry_ids(entry_views(q@));
    let mut i: usize = 0;
    while i < q.len()
        invariant
            i <= q@.len(),
            ids == entry_ids(entry_views(q@)),
            ids.len() == q@.len(),
            forall|j: int| 0 <= j < i ==> ids[j] != x@,
        decreases q@.len() - i,
    {
        if str_eq(q[i].0.as_str(), x) {
            assert(ids[i as int] == x@);
            return true;
        }
        i += 1;
    }
    false
}

/// The indices of the edges that start at `cur`.
fn edge_indices_from(es: &Vec<Edge>, cur: &str) -> (r: Vec<usize>)
    ensures
        index_views(r@) == edges_from(es@, cur@, es@.len()),
        forall|j: int| 0 <= j < r@.len() ==> r@[j] < es@.len(),
{
    let mut out: Vec<usize> = Vec::new();
    let mut i: usize = 0;
    while i < es.len()
        invariant
            i <= es@.len(),
            index_views(out@) == edges_from(es@, cur@, i as nat),
            forall|j: int| 0 <= j < out@.len() ==> out@[j] < i,
        decreases es@.len() - i,
    {
        if str_eq(es[i].source.as_str(), cur) {
            let ghost o = out@;
            out.push(i);
            assert(index_views(out@) =~= index_views(o).push(i as int));
        }
        i += 1;
    }
    out
}

/// The indices of the edges that end at `cur`.
fn edge_indices_to(es: &Vec<Edge>, cur: &str) -> (r: Vec<usize>)
    ensures
        index_views(r@) == edges_to(es@, cur@, es@.len()),
        forall|j: int| 0 <= j < r@.len() ==> r@[j] < es@.len(),
{
    let mut out: Vec<usize> = Vec::new();
    let mut i: usize = 0;
    while i < es.len()
        invariant
            i <= es@.len(),
            index_views(out@) == edges_to(es@, cur@, i as nat),
            forall|j: int| 0 <= j < out@.len() ==> out@[j] < i,
        decreases es@.len() - i,
    {
        if str_eq(es[i].target.as_str(), cur) {
            let ghost o = out@;
            out.push(i);
            assert(index_views(out@) =~= index_views(o).push(i as int));
        }
        i += 1;
    }
    out
}

/// The indices of the edges of an entity in the direction, outgoing ones
/// first, each kind in the order the edges were added.
pub fn neighbor_indices(es: &Vec<Edge>, cur: &str, dir: RelationDirection) -> (r: Vec<usize>)
    ensures
        index_views(r@) == neighbors(es@, cur@, dir),
        forall|j: int| 0 <= j < r@.len() ==> r@[j] < es@.len(),
{
    let mut out: Vec<usize> = if dir != RelationDirection::Incoming {
        edge_indices_from(es, cur)
    } else {
        Vec::new()
    };
    let ghost first = out@;
    let mut second: Vec<usize> = if dir != RelationDirection::Outgoing {
        edge_indices_to(es, cur)
    } else {
        Vec::new()
    };
    let ghost sec = second@;
    out.append(&mut second);
    assert(index_views(out@) =~= index_views(first) + index_views(sec));
    out
}

/// A copy of a path.
fn copy_path(p: &Vec<usize>) -> (r: Vec<usize>)
    ensures
        r@ == p@,
{
    let mut out: Vec<usize> = Vec::new();
    let mut i: usize = 0;
    while i < p.len()
        invariant
            i <= p@.len(),
            out@ == p@.take(i as int),
        decreases p@.len() - i,
    {
        out.push(p[i]);
        assert(p@.take(i + 1) =~= p@.take(i as int).push(p@[i as int]));
        i += 1;
    }
    assert(p@.take(p@.len() as int) =~= p@);
    out
}

/// Traverses the graph breadth-first from `start`: entities are visited in
/// order of depth, each once; an entity at the depth limit is visited but
/// not expanded; the search stops once the entity limit is reached. Edges
/// are followed when their type is followed and the caller admitted them.
/// `ids` are the entities of the graph; a start that is not among them is
/// an error.
pub fn traverse(ids: &Vec<String>, es: &Vec<Edge>, start: &str, plan: &TraversalPlan) -> (r: Result<
    Traversal,
    Error,
>)
    ensures
        match r {
            Ok(t) => string_views(ids@).contains(start@) && exists|k: nat|
                {
                    let s = #[trigger] bfs_run(es@, string_views(ids@), *plan, bfs_start(start@), k);
                    bfs_done(s) && entry_views(t.visited@) == s.visited && index_views(
                        t.relationships@,
                    ) == s.rels
                },
            Err(e) => !string_views(ids@).contains(start@) && (match e {
                Error::NotFound(m) => m@ == "Start entity not found: "@ + start@,
                _ => false,
            }),
        },
{
    if !contains_str(ids, start) {
        let mut m: Vec<char> = Vec::new();
        extend_str(&mut m, "Start entity not found: ");
        extend_str(&mut m, start);
        return Err(Error::NotFound(string_from_chars(&m)));
    }
    let ghost idv = string_views(ids@);
    let ghost types = string_views(plan.relationship_types@);
    let mut queue: Vec<(String, usize, Vec<usize>)> = Vec::new();
    let empty: Vec<usize> = Vec::new();
    assert(index_views(empty@) =~= Seq::<int>::empty());
    queue.push((owned(start), 0, empty));
    let mut head: usize = 0;
    let mut visited: Vec<(String, usize, Vec<usize>)> = Vec::new();
    let mut rels: Vec<usize> = Vec::new();
    let mut stopped = false;
    let ghost mut k: nat = 0;
    proof {
        assert(entry_views(queue@) =~= bfs_start(start@).queue);
        assert(entry_views(visited@) =~= Seq::<Entry>::empty());
        assert(index_views(rels@) =~= Seq::<int>::empty());
    }
    while !stopped && head < queue.len()
        invariant
            head <= queue@.len(),
            idv == string_views(ids@),
            types == string_views(plan.relationship_types@),
            forall|j: int| 0 <= j < queue@.len() ==> #[trigger] queue@[j].1 <= plan.max_depth,
            forall|j: int, m: int|
                0 <= j < queue@.len() && 0 <= m < queue@[j].2@.len() ==> #[trigger] queue@[j].2@[m]
                    < es@.len(),
            bfs_run(es@, idv, *plan, bfs_start(start@), k) == (Bfs {
                queue: entry_views(queue@),
                head: head as nat,
                visited: entry_views(visited@),
                rels: index_views(rels@),
                stopped,
            }),
        decreases (if stopped {
            0nat
        } else {
            1nat
        }), unqueued(es@, start@, entry_views(queue@)).len(), queue@.len() - head,
    {
        let ghost s0 = bfs_run(es@, idv, *plan, bfs_start(start@), k);
        proof {
            lemma_run_step(es@, idv, *plan, bfs_start(start@), k);
            lemma_candidates_finite(es@, start@);
        }
        if visited.len() >= plan.max_entities {
            stopped = true;
        } else {
            let cur = owned(queue[head].0.as_str());
            let d = queue[head].1;
            let p = copy_path(&queue[head].2);
            head += 1;
            if contains_str(ids, cur.as_str()) {
                let ghost v0 = visited@;
                visited.push((owned(cur.as_str()), d, copy_path(&p)));
                assert(entry_views(visited@) =~= entry_views(v0).push(s0.queue[s0.head as int]));
            }
            if d < plan.max_depth {
                let nb = neighbor_indices(es, cur.as_str(), plan.direction);
                let ghost s1 = Bfs {
                    queue: entry_views(queue@),
                    head: head as nat,
                    visited: entry_views(visited@),
                    rels: index_views(rels@),
                    stopped,
                };
                let ghost q1 = entry_views(queue@);
                let mut j: usize = 0;
                while j < nb.len()
                    invariant
                        j <= nb@.len(),
                        head <= queue@.len(),
                        d < plan.max_depth,
                        types == string_views(plan.relationship_types@),
                        forall|m: int| 0 <= m < nb@.len() ==> nb@[m] < es@.len(),
                        forall|m: int| 0 <= m < p@.len() ==> p@[m] < es@.len(),
                        forall|x: int| 0 <= x < queue@.len() ==> #[trigger] queue@[x].1 <= plan.max_depth,
                        forall|x: int, m: int|
                            0 <= x < queue@.len() && 0 <= m < queue@[x].2@.len() ==> #[trigger] queue@[x].2@[m]
                                < es@.len(),
                        expand(es@, types, s1, cur@, d as nat, index_views(p@), index_views(nb@), j as nat)
                            == (Bfs {
                            queue: entry_views(queue@),
                            head: head as nat,
                            visited: entry_views(visited@),
                            rels: index_views(rels@),
                            stopped,
                        }),
                        queue@.len() == q1.len() ==> entry_views(queue@) == q1,
                        queue@.len() > q1.len() ==> unqueued(es@, start@, entry_views(queue@)).len()
                            < unqueued(es@, start@, q1).len(),
                        queue@.len() >= q1.len(),
                    decreases nb@.len() - j,
                {
                    let e = &es[nb[j]];
                    let follow = plan.relationship_types.len() == 0 || contains_str(
                        &plan.relationship_types,
                        e.relation_type.as_str(),
                    );
                    if follow && e.admitted {
                        let next = if str_eq(e.source.as_str(), cur.as_str()) {
                            owned(e.target.as_str())
                        } else {
                            owned(e.source.as_str())
                        };
                        if !queued(&queue, next.as_str()) {
                            let mut np = copy_path(&p);
                            np.push(nb[j]);
                            let ghost qb = entry_views(queue@);
                            let ghost rb = index_views(rels@);
                            proof {
                                lemma_other_end_candidate(es@, start@, nb@[j as int] as int, cur@);
                                lemma_queue_shrinks(
                                    es@,
                                    start@,
                                    qb,
                                    (next@, (d + 1) as nat, index_views(p@).push(nb@[j as int] as int)),
                                );
                            }
                            queue.push((next, d + 1, np));
                            rels.push(nb[j]);
                            proof {
                                assert(index_views(np@) =~= index_views(p@).push(nb@[j as int] as int));
                                assert(entry_views(queue@) =~= qb.push(
                                    (next@, (d + 1) as nat, index_views(p@).push(nb@[j as int] as int)),
                                ));
                                assert(index_views(rels@) =~= rb.push(nb@[j as int] as int));
                            }
                        }
                    }
                    proof {
                        assert(index_views(nb@)[j as int] == nb@[j as int] as int);
                    }
                    j += 1;
                }
                proof {
                    assert(index_views(nb@).len() == nb@.len());
                }
            }
        }
        proof {
            k = k + 1;
        }
    }
    proof {
        assert(bfs_done(bfs_run(es@, idv, *plan, bfs_start(start@), k)));
    }
    Ok(Traversal { visited, relationships: rels })
}

/// One more step of the search is the step after the others.
proof fn lemma_run_step(es: Seq<Edge>, ids: Seq<Seq<char>>, plan: TraversalPlan, s: Bfs, k: nat)
    ensures
        bfs_run(es, ids, plan, s, k + 1) == bfs_step(es, ids, plan, bfs_run(es, ids, plan, s, k)),
    decreases k,
{
    if k > 0 {
        lemma_run_step(es, ids, plan, bfs_step(es, ids, plan, s), (k - 1) as nat);
        assert(bfs_run(es, ids, plan, s, k) == bfs_run(
            es,
            ids,
            plan,
            bfs_step(es, ids, plan, s),
            (k - 1) as nat,
        ));
    } else {
        assert(bfs_run(es, ids, plan, bfs_step(es, ids, plan, s), 0) == bfs_step(es, ids, plan, s));
    }
}

/// Whether an edge touches the entity.
pub open spec fn incident(e: Edge, x: Seq<char>) -> bool {
    e.source@ == x || e.target@ == x
}

/// Where a walk along the edges `p` from `start` ends: each edge leads to
/// its far end.
pub open spec fn walk_end(es: Seq<Edge>, start: Seq<char>, p: Seq<int>) -> Seq<char>
    decreases p.len(),
{
    if p.len() == 0 {
        start
    } else {
        other_end(es[p.last()], walk_end(es, start, p.drop_last()))
    }
}

/// Whether the edges `p` form a walk from `start`: each edge exists and
/// touches the entity the walk has reached.
pub open spec fn walk_ok(es: Seq<Edge>, start: Seq<char>, p: Seq<int>) -> bool
    decreases p.len(),
{
    p.len() == 0 || (walk_ok(es, start, p.drop_last()) && 0 <= p.last() < es.len() && incident(
        es[p.last()],
        walk_end(es, start, p.drop_last()),
    ))
}

/// Whether an entry's path is a walk from the start to its entity, as
/// long as its depth, which lies within the limit.
pub open spec fn entry_ok(es: Seq<Edge>, start: Seq<char>, max_depth: nat, en: Entry) -> bool {
    &&& en.2.len() == en.1
    &&& en.1 <= max_depth
    &&& walk_ok(es, start, en.2)
    &&& walk_end(es, start, en.2) == en.0
}

/// What holds of every state of a search.
pub open spec fn bfs_inv(es: Seq<Edge>, start: Seq<char>, plan: TraversalPlan, s: Bfs) -> bool {
    &&& forall|i: int|
        0 <= i < s.queue.len() ==> entry_ok(es, start, plan.max_depth as nat, #[trigger] s.queue[i])
    &&& forall|i: int|
        0 <= i < s.visited.len() ==> entry_ok(
            es,
            start,
            plan.max_depth as nat,
            #[trigger] s.visited[i],
        )
    &&& s.visited.len() <= plan.max_entities || s.visited.len() == 0
}

proof fn lemma_edges_from(es: Seq<Edge>, cur: Seq<char>, n: nat)
    ensures
        forall|j: int|
            0 <= j < edges_from(es, cur, n).len() ==> 0 <= #[trigger] edges_from(es, cur, n)[j]
                < es.len() && es[edges_from(es, cur, n)[j]].source@ == cur,
    decreases n,
{
    if n > 0 && n <= es.len() {
        lemma_edges_from(es, cur, (n - 1) as nat);
        let r = edges_from(es, cur, (n - 1) as nat);
        assert forall|j: int| 0 <= j < edges_from(es, cur, n).len() implies 0 <= #[trigger] edges_from(
            es,
            cur,
            n,
        )[j] < es.len() && es[edges_from(es, cur, n)[j]].source@ == cur by {
            if j < r.len() {
                assert(edges_from(es, cur, n)[j] == r[j]);
            }
        }
    }
}

proof fn lemma_edges_to(es: Seq<Edge>, cur: Seq<char>, n: nat)
    ensures
        forall|j: int|
            0 <= j < edges_to(es, cur, n).len() ==> 0 <= #[trigger] edges_to(es, cur, n)[j]
                < es.len() && es[edges_to(es, cur, n)[j]].target@ == cur,
    decreases n,
{
    if n > 0 && n <= es.len() {
        lemma_edges_to(es, cur, (n - 1) as nat);
        let r = edges_to(es, cur, (n - 1) as nat);
        assert forall|j: int| 0 <= j < edges_to(es, cur, n).len() implies 0 <= #[trigger] edges_to(
            es,
            cur,
            n,
        )[j] < es.len() && es[edges_to(es, cur, n)[j]].target@ == cur by {
            if j < r.len() {
                assert(edges_to(es, cur, n)[j] == r[j]);
            }
        }
    }
}

proof fn lemma_neighbors(es: Seq<Edge>, cur: Seq<char>, dir: RelationDirection)
    ensures
        forall|j: int|
            0 <= j < neighbors(es, cur, dir).len() ==> 0 <= #[trigger] neighbors(es, cur, dir)[j]
                < es.len() && incident(es[neighbors(es, cur, dir)[j]], cur),
{
    lemma_edges_from(es, cur, es.len());
    lemma_edges_to(es, cur, es.len());
    let a = if dir != RelationDirection::Incoming {
        edges_from(es, cur, es.len())
    } else {
        seq![]
    };
    let b = if dir != RelationDirection::Outgoing {
        edges_to(es, cur, es.len())
    } else {
        seq![]
    };
    assert forall|j: int| 0 <= j < neighbors(es, cur, dir).len() implies 0 <= #[trigger] neighbors(
        es,
        cur,
        dir,
    )[j] < es.len() && incident(es[neighbors(es, cur, dir)[j]], cur) by {
        if j < a.len() {
            assert(neighbors(es, cur, dir)[j] == a[j]);
        } else {
            assert(neighbors(es, cur, dir)[j] == b[j - a.len()]);
        }
    }
}

proof fn lemma_expand_inv(
    es: Seq<Edge>,
    types: Seq<Seq<char>>,
    start: Seq<char>,
    plan: TraversalPlan,
    s: Bfs,
    cur: Seq<char>,
    d: nat,
    p: Seq<int>,
    nb: Seq<int>,
    n: nat,
)
    requires
        bfs_inv(es, start, plan, s),
        d < plan.max_depth,
        p.len() == d,
        walk_ok(es, start, p),
        walk_end(es, start, p) == cur,
        forall|j: int| 0 <= j < nb.len() ==> 0 <= #[trigger] nb[j] < es.len() && incident(es[nb[j]], cur),
    ensures
        bfs_inv(es, start, plan, expand(es, types, s, cur, d, p, nb, n)),
        expand(es, types, s, cur, d, p, nb, n).visited == s.visited,
    decreases n,
{
    if n > 0 && n <= nb.len() {
        lemma_expand_inv(es, types, start, plan, s, cur, d, p, nb, (n - 1) as nat);
        let t = expand(es, types, s, cur, d, p, nb, (n - 1) as nat);
        let k = nb[n - 1];
        let np = p.push(k);
        assert(np.drop_last() =~= p);
        assert(entry_ok(es, start, plan.max_depth as nat, (other_end(es[k], cur), d + 1, np)));
        let u = expand(es, types, s, cur, d, p, nb, n);
        assert forall|i: int| 0 <= i < u.queue.len() implies entry_ok(
            es,
            start,
            plan.max_depth as nat,
            #[trigger] u.queue[i],
        ) by {
            if i < t.queue.len() {
                assert(u.queue[i] == t.queue[i]);
            }
        }
    }
}

proof fn lemma_step_inv(es: Seq<Edge>, ids: Seq<Seq<char>>, start: Seq<char>, plan: TraversalPlan, s: Bfs)
    requires
        bfs_inv(es, start, plan, s),
    ensures
        bfs_inv(es, start, plan, bfs_step(es, ids, plan, s)),
{
    if !bfs_done(s) && s.visited.len() < plan.max_entities {
        let en = s.queue[s.head as int];
        assert(entry_ok(es, start, plan.max_depth as nat, en));
        let s1 = Bfs {
            head: s.head + 1,
            visited: if ids.contains(en.0) {
                s.visited.push(en)
            } else {
                s.visited
            },
            ..s
        };
        assert forall|i: int| 0 <= i < s1.visited.len() implies entry_ok(
            es,
            start,
            plan.max_depth as nat,
            #[trigger] s1.visited[i],
        ) by {
            if i < s.visited.len() {
                assert(s1.visited[i] == s.visited[i]);
            }
        }
        assert(bfs_inv(es, start, plan, s1));
        if en.1 < plan.max_depth {
            let nb = neighbors(es, en.0, plan.direction);
            lemma_neighbors(es, en.0, plan.direction);
            lemma_expand_inv(
                es,
                string_views(plan.relationship_types@),
                start,
                plan,
                s1,
                en.0,
                en.1,
                en.2,
                nb,
                nb.len(),
            );
        }
    }
}

/// Traversal finds real paths: at every step of the search, each entity
/// queued or visited carries a path of its depth that walks the graph from
/// the start to it, the depth never passes the limit, and no more entities
/// are visited than the limit allows.
pub proof fn lemma_traversal_paths(
    es: Seq<Edge>,
    ids: Seq<Seq<char>>,
    plan: TraversalPlan,
    start: Seq<char>,
    k: nat,
)
    ensures
        bfs_inv(es, start, plan, bfs_run(es, ids, plan, bfs_start(start), k)),
    decreases k,
{
    if k == 0 {
        let s = bfs_start(start);
        assert forall|i: int| 0 <= i < s.queue.len() implies entry_ok(
            es,
            start,
            plan.max_depth as nat,
            #[trigger] s.queue[i],
        ) by {
            assert(s.queue[i] == (start, 0nat, Seq::<int>::empty()));
        }
    } else {
        lemma_traversal_paths(es, ids, plan, start, (k - 1) as nat);
        lemma_run_step(es, ids, plan, bfs_start(start), (k - 1) as nat);
        lemma_step_inv(es, ids, start, plan, bfs_run(es, ids, plan, bfs_start(start), (k - 1) as nat));
    }
}

/// The first visited entry of the entity.
pub open spec fn visit_of(v: Seq<Entry>, x: Seq<char>) -> Option<int>
    decreases v.len(),
{
    if v.len() == 0 {
        None
    } else {
        match visit_of(v.drop_last(), x) {
            Some(i) => Some(i),
            None => if v.last().0 == x {
                Some(v.len() - 1)
            } else {
                None
            },
        }
    }
}

proof fn lemma_visit_of_prefix(v: Seq<Entry>, n: int, x: Seq<char>)
    requires
        0 < n <= v.len(),
        visit_of(v.take(n - 1), x) is None,
    ensures
        v[n - 1].0 == x ==> visit_of(v.take(n), x) == Some(n - 1),
        v[n - 1].0 != x ==> visit_of(v.take(n), x) is None,
{
    assert(v.take(n).drop_last() =~= v.take(n - 1));
}

/// The path that a traversal from `from` finds to `to`: the edges by which
/// `to` was first reached, or none when it was not visited.
pub fn find_path(
    ids: &Vec<String>,
    es: &Vec<Edge>,
    from: &str,
    to: &str,
    plan: &TraversalPlan,
) -> (r: Result<Option<Vec<usize>>, Error>)
    ensures
        match r {
            Ok(found) => string_views(ids@).contains(from@) && exists|k: nat|
                {
                    let s = #[trigger] bfs_run(es@, string_views(ids@), *plan, bfs_start(from@), k);
                    bfs_done(s) && match visit_of(s.visited, to@) {
                        Some(i) => found matches Some(p) && index_views(p@) == s.visited[i].2,
                        None => found is None,
                    }
                },
            Err(e) => !string_views(ids@).contains(from@) && (match e {
                Error::NotFound(m) => m@ == "Start entity not found: "@ + from@,
                _ => false,
            }),
        },
{
    let t = match traverse(ids, es, from, plan) {
        Ok(t) => t,
        Err(e) => {
            return Err(e);
        },
    };
    let ghost v = entry_views(t.visited@);
    let ghost k = choose|k: nat|
        {
            let s = #[trigger] bfs_run(es@, string_views(ids@), *plan, bfs_start(from@), k);
            bfs_done(s) && entry_views(t.visited@) == s.visited && index_views(t.relationships@)
                == s.rels
        };
    let ghost fin = bfs_run(es@, string_views(ids@), *plan, bfs_start(from@), k);
    proof {
        lemma_visit_of(v, to@);
    }
    let mut i: usize = 0;
    while i < t.visited.len()
        invariant
            i <= t.visited@.len(),
            v == entry_views(t.visited@),
            v == fin.visited,
            bfs_done(fin),
            string_views(ids@).contains(from@),
            fin == bfs_run(es@, string_views(ids@), *plan, bfs_start(from@), k),
            visit_of(v.take(i as int), to@) is None,
        decreases t.visited@.len() - i,
    {
        proof {
            lemma_visit_of_prefix(v, i + 1, to@);
        }
        if str_eq(t.visited[i].0.as_str(), to) {
            proof {
                if i + 1 < v.len() {
                    lemma_visit_of_extend(v, i + 1, to@);
                } else {
                    assert(v.take(i + 1) =~= v);
                }
            }
            let found = copy_path(&t.visited[i].2);
            proof {
                assert(v[i as int] == entry_view(t.visited@[i as int]));
                assert(visit_of(v, to@) == Some(i as int));
                assert(index_views(found@) == v[i as int].2);
                let s = bfs_run(es@, string_views(ids@), *plan, bfs_start(from@), k);
                assert(s == fin);
                assert(match visit_of(s.visited, to@) {
                    Some(j) => Some(found) matches Some(p) && index_views(p@) == s.visited[j].2,
                    None => Some(found) is None,
                });
            }
            return Ok(Some(found));
        }
        i += 1;
    }
    proof {
        assert(v.take(v.len() as int) =~= v);
    }
    Ok(None)
}

proof fn lemma_visit_of(v: Seq<Entry>, x: Seq<char>)
    ensures
        visit_of(v, x) matches Some(i) ==> 0 <= i < v.len() && v[i].0 == x,
    decreases v.len(),
{
    if v.len() > 0 {
        lemma_visit_of(v.drop_last(), x);
    }
}

/// Once the first visit is found in a prefix, it is the first visit in
/// the whole.
proof fn lemma_visit_of_extend(v: Seq<Entry>, n: int, x: Seq<char>)
    requires
        0 < n <= v.len(),
        visit_of(v.take(n), x) is Some,
    ensures
        visit_of(v, x) == visit_of(v.take(n), x),
    decreases v.len() - n,
{
    if n < v.len() {
        assert(v.take(n + 1).drop_last() =~= v.take(n));
        lemma_visit_of_extend(v, n + 1, x);
    } else {
        assert(v.take(n) =~= v);
    }
}

} // verus!
