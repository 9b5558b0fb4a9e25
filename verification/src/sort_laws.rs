//! What the execution order depends on, and how it begins.

use vstd::prelude::*;
use crate::graph_spec::{has_reachable_cycle, is_walk, revisits};
use crate::shadow_graph::{has_edge, validation_refusal, Edge, ShadowGraph};
use crate::sorting::{ascending_ids, lemma_ascending_ids, strictly_ascending};
use crate::topo_spec::{
    indegree, kahn_bound, kahn_order, kahn_run, lemma_indegree_pos, lemma_indegree_zero,
    law_sort_succeeds_iff_valid, newly_ready, sort_outcome, source_nodes,
};
use vstd::set_lib::lemma_len_subset;

verus! {

/// Which node feeds which, one pair per edge, in edge order.
pub open spec fn edge_pairs(edges: Seq<Edge>) -> Seq<(u32, u32)> {
    edges.map_values(|e: Edge| (e.from_node_id, e.to_node_id))
}

/// The two graphs have the same node ids and the same feeding pairs,
/// counted with multiplicity; edge order, ports and node kinds may differ.
pub open spec fn same_wiring(g1: ShadowGraph, g2: ShadowGraph) -> bool {
    &&& g1.nodes@.dom() == g2.nodes@.dom()
    &&& edge_pairs(g1.edges@).to_multiset() == edge_pairs(g2.edges@).to_multiset()
}

/// Nodes into which no edge leads.
pub open spec fn entry_nodes(g: ShadowGraph) -> Set<u32> {
    Set::new(
        |v: u32|
            g.nodes@.contains_key(v) && !exists|i: int|
                0 <= i < g.edges@.len() && #[trigger] g.edges@[i].to_node_id == v,
    )
}

spec fn pair_indegree(s: Seq<(u32, u32)>, v: u32, removed: Seq<u32>) -> nat
    decreases s.len(),
{
    if s.len() == 0 {
        0
    } else {
        pair_indegree(s.drop_last(), v, removed) + if s.last().1 == v && !removed.contains(
            s.last().0,
        ) {
            1nat
        } else {
            0nat
        }
    }
}

proof fn lemma_pair_indegree(edges: Seq<Edge>, v: u32, r: Seq<u32>)
    ensures
        indegree(edges, v, r) == pair_indegree(edge_pairs(edges), v, r),
    decreases edges.len(),
{
    if edges.len() > 0 {
        assert(edge_pairs(edges).drop_last() =~= edge_pairs(edges.drop_last()));
        lemma_pair_indegree(edges.drop_last(), v, r);
    }
}

proof fn lemma_pair_indegree_remove(s: Seq<(u32, u32)>, j: int, v: u32, r: Seq<u32>)
    requires
        0 <= j < s.len(),
    ensures
        pair_indegree(s, v, r) == pair_indegree(s.remove(j), v, r) + if s[j].1 == v && !r.contains(
            s[j].0,
        ) {
            1nat
        } else {
            0nat
        },
    decreases s.len(),
{
    if j == s.len() - 1 {
        assert(s.remove(j) =~= s.drop_last());
    } else {
        assert(s.remove(j).drop_last() =~= s.drop_last().remove(j));
        assert(s.remove(j).last() == s.last());
        lemma_pair_indegree_remove(s.drop_last(), j, v, r);
    }
}

proof fn lemma_pair_indegree_perm(s1: Seq<(u32, u32)>, s2: Seq<(u32, u32)>, v: u32, r: Seq<u32>)
    requires
        s1.to_multiset() == s2.to_multiset(),
    ensures
        pair_indegree(s1, v, r) == pair_indegree(s2, v, r),
    decreases s1.len(),
{
    broadcast use vstd::seq_lib::group_to_multiset_ensures;
    broadcast use vstd::multiset::group_multiset_axioms;

    if s1.len() == 0 {
        assert(s2.to_multiset().len() == 0);
        assert(s2.len() == 0);
    } else {
        let x = s1.last();
        let a = s1.drop_last();
        assert(a.push(x) =~= s1);
        assert(s1.to_multiset() =~= a.to_multiset().insert(x));
        assert(s2.to_multiset().count(x) > 0);
        assert(s2.contains(x));
        let j = choose|j: int| 0 <= j < s2.len() && s2[j] == x;
        assert(s2.remove(j).to_multiset() =~= s2.to_multiset().remove(x));
        assert(a.to_multiset() =~= s2.remove(j).to_multiset());
        lemma_pair_indegree_perm(a, s2.remove(j), v, r);
        lemma_pair_indegree_remove(s2, j, v, r);
    }
}

proof fn lemma_has_edge_pairs(edges: Seq<Edge>, u: u32, v: u32)
    ensures
        has_edge(edges, u, v) <==> edge_pairs(edges).contains((u, v)),
{
    if has_edge(edges, u, v) {
        let i = choose|i: int|
            0 <= i < edges.len() && edges[i].from_node_id == u && edges[i].to_node_id == v;
        assert(edge_pairs(edges)[i] == (u, v));
    }
    if edge_pairs(edges).contains((u, v)) {
        let i = choose|i: int| 0 <= i < edge_pairs(edges).len() && edge_pairs(edges)[i] == (u, v);
        assert(edges[i].from_node_id == u && edges[i].to_node_id == v);
    }
}

proof fn lemma_same_wiring_facts(g1: ShadowGraph, g2: ShadowGraph)
    requires
        same_wiring(g1, g2),
    ensures
        forall|u: u32, v: u32| has_edge(g1.edges@, u, v) == has_edge(g2.edges@, u, v),
        forall|v: u32, r: Seq<u32>| indegree(g1.edges@, v, r) == indegree(g2.edges@, v, r),
        g1.edges@.len() == g2.edges@.len(),
        g1.nodes@.len() == g2.nodes@.len(),
{
    broadcast use vstd::seq_lib::group_to_multiset_ensures;

    let p1 = edge_pairs(g1.edges@);
    let p2 = edge_pairs(g2.edges@);
    assert forall|u: u32, v: u32| has_edge(g1.edges@, u, v) == has_edge(g2.edges@, u, v) by {
        lemma_has_edge_pairs(g1.edges@, u, v);
        lemma_has_edge_pairs(g2.edges@, u, v);
        assert(p1.contains((u, v)) <==> p1.to_multiset().count((u, v)) > 0);
        assert(p2.contains((u, v)) <==> p2.to_multiset().count((u, v)) > 0);
    }
    assert forall|v: u32, r: Seq<u32>| indegree(g1.edges@, v, r) == indegree(g2.edges@, v, r) by {
        lemma_pair_indegree(g1.edges@, v, r);
        lemma_pair_indegree(g2.edges@, v, r);
        lemma_pair_indegree_perm(p1, p2, v, r);
    }
    assert(p1.len() == p1.to_multiset().len());
    assert(p2.len() == p2.to_multiset().len());
}

proof fn lemma_kahn_run_wiring(
    g1: ShadowGraph,
    g2: ShadowGraph,
    done: Seq<u32>,
    queue: Seq<u32>,
    fuel: nat,
)
    requires
        same_wiring(g1, g2),
    ensures
        kahn_run(g1, done, queue, fuel) == kahn_run(g2, done, queue, fuel),
    decreases fuel,
{
    if fuel > 0 && queue.len() > 0 {
        lemma_same_wiring_facts(g1, g2);
        let u = queue[0];
        assert(newly_ready(g1, u, done) =~= newly_ready(g2, u, done));
        let q2 = queue.drop_first() + ascending_ids(newly_ready(g1, u, done));
        lemma_kahn_run_wiring(g1, g2, done.push(u), q2, (fuel - 1) as nat);
    }
}

/// Law: Kahn's execution order, and whether a cycle is reachable, depend
/// only on which node ids exist and on which node feeds which, counted with
/// multiplicity: not on the order in which nodes and edges were added, on
/// the ports the edges use, or on the nodes' kinds. So two such graphs that
/// both pass validation sort to the same order.
pub proof fn law_sort_ignores_edge_order_and_ports(g1: ShadowGraph, g2: ShadowGraph)
    requires
        same_wiring(g1, g2),
    ensures
        kahn_order(g1) == kahn_order(g2),
        has_reachable_cycle(g1) == has_reachable_cycle(g2),
        validation_refusal(g1) is None && validation_refusal(g2) is None ==> {
            &&& sort_outcome(g1) is Ok
            &&& sort_outcome(g1) == sort_outcome(g2)
        },
{
    lemma_same_wiring_facts(g1, g2);
    assert(source_nodes(g1) =~= source_nodes(g2));
    assert(kahn_bound(g1) == kahn_bound(g2));
    lemma_kahn_run_wiring(g1, g2, Seq::empty(), ascending_ids(source_nodes(g1)), kahn_bound(g1));
    assert forall|w: Seq<u32>| revisits(g1, w) == revisits(g2, w) by {
        assert(is_walk(g1.edges@, w) == is_walk(g2.edges@, w));
    }
    law_sort_succeeds_iff_valid(g1);
    law_sort_succeeds_iff_valid(g2);
}

proof fn lemma_kahn_run_keeps_done(g: ShadowGraph, done: Seq<u32>, queue: Seq<u32>, fuel: nat)
    ensures
        done.len() <= kahn_run(g, done, queue, fuel).len(),
        kahn_run(g, done, queue, fuel).take(done.len() as int) == done,
    decreases fuel,
{
    if fuel > 0 && queue.len() > 0 {
        let u = queue[0];
        let q2 = queue.drop_first() + ascending_ids(newly_ready(g, u, done));
        lemma_kahn_run_keeps_done(g, done.push(u), q2, (fuel - 1) as nat);
        let r = kahn_run(g, done, queue, fuel);
        assert(r.take(done.len() as int) =~= r.take(done.len() + 1int).take(done.len() as int));
        assert(done.push(u).take(done.len() as int) =~= done);
    } else {
        assert(done.take(done.len() as int) =~= done);
    }
}

/// Within its fuel, the run outputs its first `k` queued vertices right
/// after `done`, in queue order.
proof fn lemma_kahn_run_prefix(g: ShadowGraph, done: Seq<u32>, queue: Seq<u32>, fuel: nat, k: nat)
    requires
        k <= queue.len(),
        k <= fuel,
    ensures
        done.len() + k <= kahn_run(g, done, queue, fuel).len(),
        kahn_run(g, done, queue, fuel).take(done.len() + k as int) == done + queue.take(k as int),
    decreases k,
{
    if k == 0 {
        lemma_kahn_run_keeps_done(g, done, queue, fuel);
        assert(done + queue.take(0) =~= done);
    } else {
        let u = queue[0];
        let q2 = queue.drop_first() + ascending_ids(newly_ready(g, u, done));
        lemma_kahn_run_prefix(g, done.push(u), q2, (fuel - 1) as nat, (k - 1) as nat);
        assert(done.push(u) + q2.take(k - 1) =~= done + queue.take(k as int));
    }
}

/// Law: a successful sort starts with exactly the nodes into which no edge
/// leads, in ascending id order.
pub proof fn law_sort_starts_with_entry_nodes(g: ShadowGraph)
    ensures
        sort_outcome(g) matches Ok(order) ==> {
            let k = entry_nodes(g).len();
            &&& k <= order.len()
            &&& strictly_ascending(order.take(k as int))
            &&& order.take(k as int).to_set() == entry_nodes(g)
        },
{
    assert(entry_nodes(g) =~= source_nodes(g)) by {
        assert forall|v: u32| entry_nodes(g).contains(v) <==> source_nodes(g).contains(v) by {
            if g.nodes@.contains_key(v) {
                if indegree(g.edges@, v, Seq::empty()) == 0 {
                    if exists|i: int| 0 <= i < g.edges@.len() && #[trigger] g.edges@[i].to_node_id == v {
                        let i = choose|i: int|
                            0 <= i < g.edges@.len() && #[trigger] g.edges@[i].to_node_id == v;
                        lemma_indegree_zero(g.edges@, v, Seq::empty(), i);
                    }
                } else {
                    lemma_indegree_pos(g.edges@, v, Seq::empty());
                }
            }
        }
    }
    let src = source_nodes(g);
    assert(src.subset_of(g.nodes@.dom()));
    lemma_len_subset(src, g.nodes@.dom());
    lemma_ascending_ids(src);
    let q = ascending_ids(src);
    lemma_kahn_run_prefix(g, Seq::empty(), q, kahn_bound(g), q.len());
    assert(Seq::<u32>::empty() + q.take(q.len() as int) =~= q);
}

} // verus!
