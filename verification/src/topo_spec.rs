use vstd::prelude::*;
use crate::shadow_graph::{
    Edge, ShadowGraph, has_edge, endpoints_are_nodes, validation_refusal, lemma_valid_endpoints,
};
use crate::graph_spec::{
    edge_targets, vertices, lemma_push_contains, lemma_target_is_vertex, lemma_edge_targets_finite,
    lemma_vertices_finite, lemma_distinct_within, is_prefix, has_reachable_cycle, revisits, is_walk,
};
use crate::sorting::{ascending_ids, lemma_ascending_ids};
use vstd::set_lib::{lemma_len_subset, lemma_len_union};

verus! {

/// Number of edges into `v` whose source is not in `removed`.
pub open spec fn indegree(edges: Seq<Edge>, v: u32, removed: Seq<u32>) -> nat
    decreases edges.len(),
{
    if edges.len() == 0 {
        0
    } else {
        indegree(edges.drop_last(), v, removed) + if edges.last().to_node_id == v && !removed.contains(
            edges.last().from_node_id,
        ) {
            1nat
        } else {
            0nat
        }
    }
}

/// Removing more sources never raises an in-degree.
pub proof fn lemma_indegree_mono(edges: Seq<Edge>, v: u32, d1: Seq<u32>, d2: Seq<u32>)
    requires
        forall|x: u32| d1.contains(x) ==> d2.contains(x),
    ensures
        indegree(edges, v, d2) <= indegree(edges, v, d1),
    decreases edges.len(),
{
    if edges.len() > 0 {
        lemma_indegree_mono(edges.drop_last(), v, d1, d2);
    }
}

/// With in-degree zero, the source of every edge into `v` is removed.
pub proof fn lemma_indegree_zero(edges: Seq<Edge>, v: u32, d: Seq<u32>, i: int)
    requires
        indegree(edges, v, d) == 0,
        0 <= i < edges.len(),
        edges[i].to_node_id == v,
    ensures
        d.contains(edges[i].from_node_id),
    decreases edges.len(),
{
    if i < edges.len() - 1 {
        assert(edges.drop_last()[i] == edges[i]);
        lemma_indegree_zero(edges.drop_last(), v, d, i);
    }
}

/// A positive in-degree has a witness edge.
pub proof fn lemma_indegree_pos(edges: Seq<Edge>, v: u32, d: Seq<u32>)
    requires
        indegree(edges, v, d) > 0,
    ensures
        exists|i: int|
            0 <= i < edges.len() && edges[i].to_node_id == v && !d.contains(
                #[trigger] edges[i].from_node_id,
            ),
    decreases edges.len(),
{
    let last = edges.last();
    if last.to_node_id == v && !d.contains(last.from_node_id) {
        assert(edges[edges.len() - 1] == last);
    } else {
        lemma_indegree_pos(edges.drop_last(), v, d);
        let i = choose|i: int|
            0 <= i < edges.drop_last().len() && edges.drop_last()[i].to_node_id == v && !d.contains(
                #[trigger] edges.drop_last()[i].from_node_id,
            );
        assert(edges[i] == edges.drop_last()[i]);
    }
}

/// Removing `u` lowers the in-degree of `v` only through edges from `u`.
pub proof fn lemma_indegree_drop(edges: Seq<Edge>, v: u32, d: Seq<u32>, u: u32)
    requires
        indegree(edges, v, d.push(u)) < indegree(edges, v, d),
    ensures
        has_edge(edges, u, v),
    decreases edges.len(),
{
    let last = edges.last();
    lemma_push_contains(d, u, last.from_node_id);
    if last.to_node_id == v && !d.contains(last.from_node_id) && last.from_node_id == u {
        assert(edges[edges.len() - 1] == last);
    } else {
        lemma_indegree_drop(edges.drop_last(), v, d, u);
        let i = choose|i: int|
            0 <= i < edges.drop_last().len() && edges.drop_last()[i].from_node_id == u
                && edges.drop_last()[i].to_node_id == v;
        assert(edges[i] == edges.drop_last()[i]);
    }
}

/// In-degrees add up over concatenated edge lists.
pub proof fn lemma_indegree_concat(a: Seq<Edge>, b: Seq<Edge>, v: u32, d: Seq<u32>)
    ensures
        indegree(a + b, v, d) == indegree(a, v, d) + indegree(b, v, d),
    decreases b.len(),
{
    if b.len() == 0 {
        assert(a + b == a);
    } else {
        assert((a + b).drop_last() == a + b.drop_last());
        assert((a + b).last() == b.last());
        lemma_indegree_concat(a, b.drop_last(), v, d);
    }
}

/// In-degree of a single edge.
pub proof fn lemma_indegree_single(e: Edge, v: u32, d: Seq<u32>)
    ensures
        indegree(seq![e], v, d) == if e.to_node_id == v && !d.contains(e.from_node_id) {
            1nat
        } else {
            0nat
        },
{
    assert(seq![e].drop_last() == Seq::<Edge>::empty());
    assert(indegree(Seq::<Edge>::empty(), v, d) == 0);
    assert(seq![e].last() == e);
}

/// The in-degree is bounded by the number of edges.
pub proof fn lemma_indegree_bound(edges: Seq<Edge>, v: u32, d: Seq<u32>)
    ensures
        indegree(edges, v, d) <= edges.len(),
    decreases edges.len(),
{
    if edges.len() > 0 {
        lemma_indegree_bound(edges.drop_last(), v, d);
    }
}

// ---------------------------------------------------------------------
// Kahn's algorithm with a FIFO queue, sources in ascending id order, and
// the vertices freed by each step appended in ascending id order.
// ---------------------------------------------------------------------

/// Vertices whose last in-edge from a vertex not yet output comes from `u`,
/// once `u` is output after `done`.
pub open spec fn newly_ready(g: ShadowGraph, u: u32, done: Seq<u32>) -> Set<u32> {
    Set::new(|v: u32| has_edge(g.edges@, u, v) && indegree(g.edges@, v, done.push(u)) == 0)
}

/// Nodes without incoming edges.
pub open spec fn source_nodes(g: ShadowGraph) -> Set<u32> {
    Set::new(|v: u32| g.nodes@.contains_key(v) && indegree(g.edges@, v, Seq::empty()) == 0)
}

/// Run Kahn's algorithm from the output `done` and the queue `queue` for
/// at most `fuel` steps.
pub open spec fn kahn_run(g: ShadowGraph, done: Seq<u32>, queue: Seq<u32>, fuel: nat) -> Seq<u32>
    decreases fuel,
{
    if fuel == 0 || queue.len() == 0 {
        done
    } else {
        let u = queue[0];
        kahn_run(
            g,
            done.push(u),
            queue.drop_first() + ascending_ids(newly_ready(g, u, done)),
            (fuel - 1) as nat,
        )
    }
}

/// More steps than the algorithm can ever take on `g`.
pub open spec fn kahn_bound(g: ShadowGraph) -> nat {
    g.nodes@.len() + g.edges@.len() + 1
}

/// The vertices of `g` in the order Kahn's algorithm outputs them.
pub open spec fn kahn_order(g: ShadowGraph) -> Seq<u32> {
    kahn_run(g, Seq::empty(), ascending_ids(source_nodes(g)), kahn_bound(g))
}

/// What holds of Kahn's algorithm between steps.
pub open spec fn kahn_state(g: ShadowGraph, done: Seq<u32>, queue: Seq<u32>) -> bool {
    let all = done + queue;
    &&& all.no_duplicates()
    &&& forall|i: int| 0 <= i < all.len() ==> vertices(g).contains(#[trigger] all[i])
    &&& forall|i: int| 0 <= i < all.len() ==> indegree(g.edges@, #[trigger] all[i], done) == 0
    &&& forall|v: u32|
        vertices(g).contains(v) && #[trigger] indegree(g.edges@, v, done) == 0 ==> all.contains(v)
    &&& forall|i: int, a: u32|
        0 <= i < done.len() && #[trigger] has_edge(g.edges@, a, done[i]) ==> exists|j: int|
            0 <= j < i && done[j] == a
}

pub proof fn lemma_vertex_count(g: ShadowGraph)
    ensures
        vertices(g).finite(),
        vertices(g).len() < kahn_bound(g),
{
    lemma_vertices_finite(g);
    lemma_edge_targets_finite(g.edges@);
    let tos = g.edges@.map_values(|e: Edge| e.to_node_id);
    assert(edge_targets(g.edges@).subset_of(tos.to_set())) by {
        assert forall|v: u32| edge_targets(g.edges@).contains(v) implies tos.to_set().contains(v) by {
            let i = choose|i: int| 0 <= i < g.edges@.len() && g.edges@[i].to_node_id == v;
            assert(tos[i] == v);
        }
    }
    vstd::seq_lib::seq_to_set_is_finite(tos);
    lemma_len_subset(edge_targets(g.edges@), tos.to_set());
    tos.lemma_cardinality_of_set();
    lemma_len_union(g.nodes@.dom(), edge_targets(g.edges@));
}

proof fn lemma_newly_ready_finite(g: ShadowGraph, u: u32, done: Seq<u32>)
    ensures
        newly_ready(g, u, done).finite(),
        forall|v: u32| #[trigger] newly_ready(g, u, done).contains(v) ==> vertices(g).contains(v),
{
    lemma_edge_targets_finite(g.edges@);
    assert(newly_ready(g, u, done).subset_of(edge_targets(g.edges@))) by {
        assert forall|v: u32| newly_ready(g, u, done).contains(v) implies edge_targets(
            g.edges@,
        ).contains(v) by {
            lemma_target_is_vertex(g, u, v);
            let i = choose|i: int|
                0 <= i < g.edges@.len() && g.edges@[i].from_node_id == u && g.edges@[i].to_node_id
                    == v;
        }
    }
    lemma_len_subset(newly_ready(g, u, done), edge_targets(g.edges@));
    assert forall|v: u32| #[trigger] newly_ready(g, u, done).contains(v) implies vertices(g).contains(
        v,
    ) by {
        lemma_target_is_vertex(g, u, v);
    }
}

/// The starting state: nothing output, the sources queued in ascending order.
pub proof fn lemma_kahn_initial(g: ShadowGraph)
    ensures
        kahn_state(g, Seq::empty(), ascending_ids(source_nodes(g))),
{
    let src = source_nodes(g);
    assert(src.subset_of(g.nodes@.dom()));
    lemma_len_subset(src, g.nodes@.dom());
    lemma_ascending_ids(src);
    let q = ascending_ids(src);
    let done = Seq::<u32>::empty();
    let all = done + q;
    assert(all =~= q);
    assert forall|i: int| 0 <= i < all.len() implies vertices(g).contains(#[trigger] all[i]) && indegree(
        g.edges@,
        all[i],
        done,
    ) == 0 by {
        assert(q.to_set().contains(q[i]));
    }
    assert forall|v: u32|
        vertices(g).contains(v) && #[trigger] indegree(g.edges@, v, done) == 0 implies all.contains(
        v,
    ) by {
        if !g.nodes@.contains_key(v) {
            assert(edge_targets(g.edges@).contains(v));
            let i = choose|i: int| 0 <= i < g.edges@.len() && g.edges@[i].to_node_id == v;
            lemma_indegree_zero(g.edges@, v, done, i);
        }
        assert(src.contains(v));
        assert(q.to_set().contains(v));
    }
}

/// One step of the algorithm keeps its invariant.
pub proof fn lemma_kahn_step(g: ShadowGraph, done: Seq<u32>, queue: Seq<u32>)
    requires
        kahn_state(g, done, queue),
        queue.len() > 0,
    ensures
        kahn_state(
            g,
            done.push(queue[0]),
            queue.drop_first() + ascending_ids(newly_ready(g, queue[0], done)),
        ),
{
    let u = queue[0];
    let nr = newly_ready(g, u, done);
    lemma_newly_ready_finite(g, u, done);
    lemma_ascending_ids(nr);
    let asc = ascending_ids(nr);
    let all = done + queue;
    let d2 = done.push(u);
    let q2 = queue.drop_first() + asc;
    let all2 = d2 + q2;
    assert(all2 =~= all + asc);
    assert(all[done.len() as int] == u);
    assert(!done.contains(u)) by {
        if done.contains(u) {
            let j = choose|j: int| 0 <= j < done.len() && done[j] == u;
            assert(all[j] == u);
        }
    }
    assert forall|x: u32| done.contains(x) implies d2.contains(x) by {
        lemma_push_contains(done, u, x);
    }
    // Freed vertices were not queued or output before.
    assert forall|k: int| 0 <= k < asc.len() implies !all.contains(#[trigger] asc[k]) && vertices(
        g,
    ).contains(asc[k]) && indegree(g.edges@, asc[k], d2) == 0 by {
        let v = asc[k];
        assert(asc.to_set().contains(v));
        assert(nr.contains(v));
        let i = choose|i: int|
            0 <= i < g.edges@.len() && g.edges@[i].from_node_id == u && g.edges@[i].to_node_id == v;
        if indegree(g.edges@, v, done) == 0 {
            lemma_indegree_zero(g.edges@, v, done, i);
        }
        if all.contains(v) {
            let j = choose|j: int| 0 <= j < all.len() && all[j] == v;
            assert(indegree(g.edges@, all[j], done) == 0);
        }
    }
    assert forall|i: int, j: int| 0 <= i < all.len() && 0 <= j < asc.len() implies all[i] != asc[j] by {
        if all[i] == asc[j] {
            assert(all.contains(asc[j]));
        }
    }
    vstd::seq_lib::lemma_no_dup_in_concat(all, asc);
    assert forall|i: int| 0 <= i < all2.len() implies vertices(g).contains(#[trigger] all2[i])
        && indegree(g.edges@, all2[i], d2) == 0 by {
        if i < all.len() {
            assert(all2[i] == all[i]);
            lemma_indegree_mono(g.edges@, all[i], done, d2);
        } else {
            assert(all2[i] == asc[i - all.len()]);
        }
    }
    assert forall|v: u32|
        vertices(g).contains(v) && #[trigger] indegree(g.edges@, v, d2) == 0 implies all2.contains(
        v,
    ) by {
        if indegree(g.edges@, v, done) == 0 {
            assert(all.contains(v));
            let j = choose|j: int| 0 <= j < all.len() && all[j] == v;
            assert(all2[j] == v);
        } else {
            lemma_indegree_drop(g.edges@, v, done, u);
            assert(nr.contains(v));
            assert(asc.to_set().contains(v));
            let j = choose|j: int| 0 <= j < asc.len() && asc[j] == v;
            assert(all2[all.len() + j] == v);
        }
    }
    assert forall|i: int, a: u32|
        0 <= i < d2.len() && #[trigger] has_edge(g.edges@, a, d2[i]) implies exists|j: int|
        0 <= j < i && d2[j] == a by {
        if i < done.len() {
            assert(d2[i] == done[i]);
            let j = choose|j: int| 0 <= j < i && done[j] == a;
            assert(d2[j] == a);
        } else {
            assert(d2[i] == u);
            let k = choose|k: int|
                0 <= k < g.edges@.len() && g.edges@[k].from_node_id == a && g.edges@[k].to_node_id
                    == u;
            assert(indegree(g.edges@, all[done.len() as int], done) == 0);
            lemma_indegree_zero(g.edges@, u, done, k);
            let j = choose|j: int| 0 <= j < done.len() && done[j] == a;
            assert(d2[j] == a);
        }
    }
}

/// Output and queue together never outnumber the vertices.
pub proof fn lemma_kahn_size(g: ShadowGraph, done: Seq<u32>, queue: Seq<u32>)
    requires
        kahn_state(g, done, queue),
    ensures
        done.len() + queue.len() < kahn_bound(g),
{
    lemma_vertex_count(g);
    lemma_distinct_within(done + queue, vertices(g));
}

/// With enough fuel the run ends with an empty queue, and the invariant holds
/// of what it outputs.
pub proof fn lemma_kahn_run(g: ShadowGraph, done: Seq<u32>, queue: Seq<u32>, fuel: nat)
    requires
        kahn_state(g, done, queue),
        done.len() + fuel >= kahn_bound(g),
    ensures
        kahn_state(g, kahn_run(g, done, queue, fuel), Seq::empty()),
        is_prefix(done, kahn_run(g, done, queue, fuel)),
    decreases fuel,
{
    lemma_kahn_size(g, done, queue);
    if queue.len() == 0 {
        assert(done + queue =~= done + Seq::<u32>::empty());
    } else {
        let u = queue[0];
        lemma_kahn_step(g, done, queue);
        let q2 = queue.drop_first() + ascending_ids(newly_ready(g, u, done));
        lemma_kahn_run(g, done.push(u), q2, (fuel - 1) as nat);
        let r = kahn_run(g, done.push(u), q2, (fuel - 1) as nat);
        assert forall|i: int| 0 <= i < done.len() implies r[i] == done[i] by {
            assert(done.push(u)[i] == done[i]);
        }
    }
}

/// The invariant holds of the final output of the algorithm.
pub proof fn lemma_kahn_order(g: ShadowGraph)
    ensures
        kahn_state(g, kahn_order(g), Seq::empty()),
{
    lemma_kahn_initial(g);
    lemma_kahn_run(g, Seq::empty(), ascending_ids(source_nodes(g)), kahn_bound(g));
}

pub open spec fn msg_incomplete() -> Seq<char> {
    "Graph has cycles (topological sort incomplete)"@
}

/// What `topological_sort` answers: the validation refusal first, then
/// Kahn's order when it covers as many vertices as there are nodes.
pub open spec fn sort_outcome(g: ShadowGraph) -> Result<Seq<u32>, Seq<char>> {
    if validation_refusal(g) is Some {
        Err(validation_refusal(g).unwrap())
    } else if kahn_order(g).len() == g.nodes@.len() {
        Ok(kahn_order(g))
    } else {
        Err(msg_incomplete())
    }
}

/// `order` lists every node exactly once, and every edge goes from an
/// earlier node to a later one.
pub open spec fn is_topological_order(g: ShadowGraph, order: Seq<u32>) -> bool {
    &&& order.no_duplicates()
    &&& order.to_set() == g.nodes@.dom()
    &&& forall|k: int|
        #![trigger g.edges@[k]]
        0 <= k < g.edges@.len() ==> exists|i: int, j: int|
            0 <= i < j < order.len() && order[i] == g.edges@[k].from_node_id && order[j]
                == g.edges@[k].to_node_id
}

/// When every edge joins two nodes, every vertex is a node.
proof fn lemma_wf_vertices(g: ShadowGraph)
    requires
        endpoints_are_nodes(g),
    ensures
        vertices(g) == g.nodes@.dom(),
{
    assert forall|v: u32| vertices(g).contains(v) implies g.nodes@.contains_key(v) by {
        if edge_targets(g.edges@).contains(v) {
            let i = choose|i: int| 0 <= i < g.edges@.len() && g.edges@[i].to_node_id == v;
            assert(g.edges@[i] == g.edges@[i]);
        }
    }
    assert(vertices(g) =~= g.nodes@.dom());
}

/// Some node that is not output yet, followed backwards along an edge
/// from another node that is not output yet.
spec fn pred_outside(g: ShadowGraph, done: Seq<u32>, v: u32) -> u32 {
    choose|a: u32| has_edge(g.edges@, a, v) && g.nodes@.contains_key(a) && !done.contains(a)
}

/// Every node outside `done` has an edge from another node outside `done`.
#[verifier::opaque]
spec fn outside_has_pred(g: ShadowGraph, done: Seq<u32>) -> bool {
    forall|v: u32|
        g.nodes@.contains_key(v) && !done.contains(v) ==> exists|a: u32|
            has_edge(g.edges@, a, v) && g.nodes@.contains_key(a) && !done.contains(a)
}

spec fn back_chain(g: ShadowGraph, done: Seq<u32>, start: u32, k: nat) -> Seq<u32>
    decreases k,
{
    if k == 0 {
        seq![start]
    } else {
        let c = back_chain(g, done, start, (k - 1) as nat);
        c.push(pred_outside(g, done, c.last()))
    }
}

proof fn lemma_back_chain(g: ShadowGraph, done: Seq<u32>, start: u32, k: nat)
    requires
        g.nodes@.contains_key(start),
        !done.contains(start),
        outside_has_pred(g, done),
    ensures
        back_chain(g, done, start, k).len() == k + 1,
        forall|t: int|
            0 <= t <= k ==> g.nodes@.contains_key(#[trigger] back_chain(g, done, start, k)[t])
                && !done.contains(back_chain(g, done, start, k)[t]),
        forall|t: int|
            #![trigger back_chain(g, done, start, k)[t]]
            0 <= t < k ==> has_edge(
                g.edges@,
                back_chain(g, done, start, k)[t + 1],
                back_chain(g, done, start, k)[t],
            ),
    decreases k,
{
    if k > 0 {
        reveal(outside_has_pred);
        lemma_back_chain(g, done, start, (k - 1) as nat);
        let c = back_chain(g, done, start, (k - 1) as nat);
        let last = c[k - 1];
        assert(c.last() == last);
        let a = pred_outside(g, done, last);
        assert(has_edge(g.edges@, a, last) && g.nodes@.contains_key(a) && !done.contains(a));
        let c2 = back_chain(g, done, start, k);
        assert(c2 == c.push(a));
        assert forall|t: int| 0 <= t < k implies has_edge(g.edges@, #[trigger] c2[t + 1], c2[t]) by {
            if t < k - 1 {
                assert(c2[t] == c[t] && c2[t + 1] == c[t + 1]);
            } else {
                assert(c2[t] == last && c2[t + 1] == a);
            }
        }
    }
}

proof fn lemma_some_node_missing(g: ShadowGraph, done: Seq<u32>)
    requires
        done.len() < g.nodes@.len(),
    ensures
        exists|v: u32| g.nodes@.contains_key(v) && !done.contains(v),
{
    if !exists|v: u32| g.nodes@.contains_key(v) && !done.contains(v) {
        assert(g.nodes@.dom().subset_of(done.to_set())) by {
            assert forall|v: u32| g.nodes@.dom().contains(v) implies done.to_set().contains(v) by {
                assert(done.contains(v));
            }
        }
        vstd::seq_lib::seq_to_set_is_finite(done);
        lemma_len_subset(g.nodes@.dom(), done.to_set());
        done.lemma_cardinality_of_set();
    }
}

proof fn lemma_outside_has_pred(g: ShadowGraph, done: Seq<u32>)
    requires
        endpoints_are_nodes(g),
        kahn_state(g, done, Seq::empty()),
    ensures
        outside_has_pred(g, done),
{
    assert(done + Seq::<u32>::empty() == done);
    reveal(outside_has_pred);
    assert forall|v: u32| g.nodes@.contains_key(v) && !done.contains(v) implies exists|a: u32|
        has_edge(g.edges@, a, v) && g.nodes@.contains_key(a) && !done.contains(a) by {
        assert(vertices(g).contains(v));
        if indegree(g.edges@, v, done) == 0 {
            assert((done + Seq::<u32>::empty()).contains(v));
        }
        lemma_indegree_pos(g.edges@, v, done);
        let i = choose|i: int|
            0 <= i < g.edges@.len() && g.edges@[i].to_node_id == v && !done.contains(
                #[trigger] g.edges@[i].from_node_id,
            );
        let a = g.edges@[i].from_node_id;
        assert(has_edge(g.edges@, a, v));
        assert(g.nodes@.contains_key(a));
    }
}

/// A node met twice while walking edges backwards closes a reachable cycle.
proof fn lemma_chain_repeat_cycle(g: ShadowGraph, c: Seq<u32>, lo: int, hi: int)
    requires
        0 <= lo < hi < c.len(),
        c[lo] == c[hi],
        g.nodes@.contains_key(c[hi]),
        forall|t: int| #![trigger c[t]] 0 <= t < c.len() - 1 ==> has_edge(g.edges@, c[t + 1], c[t]),
    ensures
        has_reachable_cycle(g),
{
    let w = Seq::new((hi - lo + 1) as nat, |t: int| c[hi - t]);
    assert forall|t: int| #![trigger w[t]] 0 <= t < w.len() - 1 implies has_edge(g.edges@, w[t], w[t + 1]) by {
        assert(w[t] == c[hi - t]);
        assert(w[t + 1] == c[hi - t - 1]);
        let s = hi - t - 1;
        assert(has_edge(g.edges@, c[s + 1], c[s]));
    }
    assert(w[0] == c[hi]);
    assert(w[w.len() - 1] == c[lo]);
    assert(w[0] == w[w.len() - 1]);
    assert(revisits(g, w));
}

/// If every node outside `done` has an edge from another node outside
/// `done`, and some node is outside, a cycle is reachable.
proof fn lemma_cycle_from_preds(g: ShadowGraph, done: Seq<u32>, start: u32)
    requires
        g.nodes@.contains_key(start),
        !done.contains(start),
        outside_has_pred(g, done),
    ensures
        has_reachable_cycle(g),
{
    let n = g.nodes@.len();
    lemma_back_chain(g, done, start, n);
    let c = back_chain(g, done, start, n);
    if c.no_duplicates() {
        assert forall|t: int| 0 <= t < c.len() implies g.nodes@.dom().contains(#[trigger] c[t]) by {}
        lemma_distinct_within(c, g.nodes@.dom());
    }
    let (a, b) = choose|a: int, b: int|
        0 <= a < c.len() && 0 <= b < c.len() && a != b && c[a] == c[b];
    assert forall|t: int| #![trigger c[t]] 0 <= t < c.len() - 1 implies has_edge(g.edges@, c[t + 1], c[t]) by {}
    if a < b {
        assert(g.nodes@.contains_key(c[b]));
        lemma_chain_repeat_cycle(g, c, a, b);
    } else {
        assert(g.nodes@.contains_key(c[a]));
        lemma_chain_repeat_cycle(g, c, b, a);
    }
}

proof fn lemma_kahn_outside_has_pred(g: ShadowGraph)
    requires
        endpoints_are_nodes(g),
    ensures
        outside_has_pred(g, kahn_order(g)),
{
    lemma_kahn_order(g);
    lemma_wf_vertices(g);
    lemma_outside_has_pred(g, kahn_order(g));
}

/// When every edge joins two nodes, Kahn's output falling short of the
/// nodes means a cycle is reachable.
pub proof fn lemma_short_order_cycle(g: ShadowGraph)
    requires
        endpoints_are_nodes(g),
        kahn_order(g).len() < g.nodes@.len(),
    ensures
        has_reachable_cycle(g),
{
    let done = kahn_order(g);
    lemma_some_node_missing(g, done);
    let start = choose|v: u32| g.nodes@.contains_key(v) && !done.contains(v);
    lemma_kahn_outside_has_pred(g);
    lemma_cycle_from_preds(g, done, start);
}

/// An order in which every edge's source comes first rules out reachable
/// cycles when it holds every node and every edge joins two nodes.
proof fn lemma_full_order_acyclic(g: ShadowGraph, order: Seq<u32>)
    requires
        endpoints_are_nodes(g),
        kahn_state(g, order, Seq::empty()),
        forall|v: u32| g.nodes@.contains_key(v) ==> order.contains(v),
    ensures
        !has_reachable_cycle(g),
{
    assert(order + Seq::<u32>::empty() == order);
    if has_reachable_cycle(g) {
        let w = choose|w: Seq<u32>| revisits(g, w);
        let j = choose|j: int| 0 <= j < w.len() - 1 && #[trigger] w[j] == w[w.len() - 1];
        lemma_walk_ascends(g, order, w, j, w.len() - 1);
    }
}

spec fn opos(order: Seq<u32>, v: u32) -> int {
    choose|j: int| 0 <= j < order.len() && order[j] == v
}

proof fn lemma_walk_in_order(g: ShadowGraph, order: Seq<u32>, w: Seq<u32>, k: int)
    requires
        endpoints_are_nodes(g),
        kahn_state(g, order, Seq::empty()),
        forall|v: u32| g.nodes@.contains_key(v) ==> order.contains(v),
        is_walk(g.edges@, w),
        g.nodes@.contains_key(w[0]),
        0 <= k < w.len(),
    ensures
        order.contains(w[k]),
        k > 0 ==> opos(order, w[k - 1]) < opos(order, w[k]),
    decreases k,
{
    assert(order + Seq::<u32>::empty() == order);
    if k > 0 {
        lemma_walk_in_order(g, order, w, k - 1);
        assert(has_edge(g.edges@, w[k - 1], w[k]));
        let e = choose|i: int|
            0 <= i < g.edges@.len() && g.edges@[i].from_node_id == w[k - 1] && g.edges@[i].to_node_id
                == w[k];
        assert(g.edges@[e] == g.edges@[e]);
        assert(order.contains(w[k]));
        let p = opos(order, w[k]);
        assert(has_edge(g.edges@, w[k - 1], order[p]));
        let j = choose|j: int| 0 <= j < p && order[j] == w[k - 1];
        assert(opos(order, w[k - 1]) == j);
    }
}

proof fn lemma_walk_ascends(g: ShadowGraph, order: Seq<u32>, w: Seq<u32>, j: int, m: int)
    requires
        endpoints_are_nodes(g),
        kahn_state(g, order, Seq::empty()),
        forall|v: u32| g.nodes@.contains_key(v) ==> order.contains(v),
        is_walk(g.edges@, w),
        g.nodes@.contains_key(w[0]),
        0 <= j < m < w.len(),
    ensures
        opos(order, w[j]) < opos(order, w[m]),
    decreases m - j,
{
    lemma_walk_in_order(g, order, w, m);
    if m - 1 > j {
        lemma_walk_ascends(g, order, w, j, m - 1);
    }
}

/// Every vertex Kahn's algorithm outputs is a node when every edge joins
/// two nodes.
pub proof fn lemma_order_in_nodes(g: ShadowGraph)
    requires
        endpoints_are_nodes(g),
    ensures
        forall|i: int|
            0 <= i < kahn_order(g).len() ==> g.nodes@.contains_key(#[trigger] kahn_order(g)[i]),
{
    lemma_kahn_order(g);
    lemma_wf_vertices(g);
    let order = kahn_order(g);
    assert(order + Seq::<u32>::empty() == order);
    assert forall|i: int| 0 <= i < order.len() implies g.nodes@.contains_key(#[trigger] order[i]) by {
        assert(vertices(g).contains((order + Seq::<u32>::empty())[i]));
    }
}

proof fn lemma_kahn_run_views(
    g1: ShadowGraph,
    g2: ShadowGraph,
    done: Seq<u32>,
    queue: Seq<u32>,
    fuel: nat,
)
    requires
        g1.nodes@ == g2.nodes@,
        g1.edges@ == g2.edges@,
    ensures
        kahn_run(g1, done, queue, fuel) == kahn_run(g2, done, queue, fuel),
    decreases fuel,
{
    if fuel > 0 && queue.len() > 0 {
        let u = queue[0];
        assert(newly_ready(g1, u, done) =~= newly_ready(g2, u, done));
        let q2 = queue.drop_first() + ascending_ids(newly_ready(g1, u, done));
        lemma_kahn_run_views(g1, g2, done.push(u), q2, (fuel - 1) as nat);
    }
}

/// Law: the outcome of the sort depends only on the nodes, the edges and
/// the output node, so repeated calls on the same graph agree.
pub proof fn law_sort_deterministic(g1: ShadowGraph, g2: ShadowGraph)
    requires
        g1.nodes@ == g2.nodes@,
        g1.edges@ == g2.edges@,
        g1.output_node_id == g2.output_node_id,
    ensures
        sort_outcome(g1) == sort_outcome(g2),
        has_reachable_cycle(g1) == has_reachable_cycle(g2),
{
    assert(source_nodes(g1) =~= source_nodes(g2));
    lemma_kahn_run_views(g1, g2, Seq::empty(), ascending_ids(source_nodes(g1)), kahn_bound(g1));
    assert forall|w: Seq<u32>| revisits(g1, w) == revisits(g2, w) by {}
    assert(has_reachable_cycle(g1) == has_reachable_cycle(g2));
}

/// When every edge joins two nodes, Kahn's order covers every node exactly
/// when no cycle is reachable, and then it lists every node once with every
/// edge pointing forward.
pub proof fn lemma_kahn_complete_iff_acyclic(g: ShadowGraph)
    requires
        endpoints_are_nodes(g),
    ensures
        (kahn_order(g).len() == g.nodes@.len()) <==> !has_reachable_cycle(g),
        kahn_order(g).len() == g.nodes@.len() ==> is_topological_order(g, kahn_order(g)),
{
    let order = kahn_order(g);
    lemma_kahn_order(g);
    lemma_wf_vertices(g);
    assert(order + Seq::<u32>::empty() == order);
    if order.len() < g.nodes@.len() {
        lemma_short_order_cycle(g);
    } else {
        // The output is a set of distinct nodes at least as large as the node set.
        assert forall|i: int| 0 <= i < order.len() implies g.nodes@.contains_key(#[trigger] order[i]) by {
            assert(vertices(g).contains(order[i]));
        }
        lemma_distinct_within(order, g.nodes@.dom());
        order.unique_seq_to_set();
        assert(order.to_set().subset_of(g.nodes@.dom()));
        assert(order.to_set() =~= g.nodes@.dom()) by {
            if !(order.to_set() =~= g.nodes@.dom()) {
                let v = choose|v: u32| g.nodes@.contains_key(v) && !order.to_set().contains(v);
                vstd::set_lib::lemma_len_subset(order.to_set().insert(v), g.nodes@.dom());
            }
        }
        assert forall|v: u32| g.nodes@.contains_key(v) implies order.contains(v) by {
            assert(order.to_set().contains(v));
        }
        lemma_full_order_acyclic(g, order);
        assert forall|k: int|
            #![trigger g.edges@[k]]
            0 <= k < g.edges@.len() implies exists|i: int, j: int|
            0 <= i < j < order.len() && order[i] == g.edges@[k].from_node_id && order[j]
                == g.edges@[k].to_node_id by {
            let e = g.edges@[k];
            assert(order.contains(e.to_node_id));
            let j = choose|j: int| 0 <= j < order.len() && order[j] == e.to_node_id;
            assert(has_edge(g.edges@, e.from_node_id, order[j]));
            let i = choose|i: int| 0 <= i < j && order[i] == e.from_node_id;
        }
    }
}

/// Law: the topological sort succeeds exactly when the graph passes
/// validation (its output node exists, every edge joins existing nodes
/// through existing ports, and no cycle is reachable), and what it returns
/// lists every node once with every edge pointing forward.
pub proof fn law_sort_succeeds_iff_valid(g: ShadowGraph)
    ensures
        sort_outcome(g) is Ok <==> validation_refusal(g) is None,
        sort_outcome(g) matches Ok(order) ==> is_topological_order(g, order),
{
    if validation_refusal(g) is None {
        lemma_valid_endpoints(g);
        lemma_kahn_complete_iff_acyclic(g);
    }
}

} // verus!
