use vstd::prelude::*;
use vstd::set_lib::lemma_len_subset;
use crate::shadow_graph::{Edge, ShadowGraph, has_edge};

verus! {

/// Ids that are the target of some edge.
pub open spec fn edge_targets(edges: Seq<Edge>) -> Set<u32> {
    Set::new(|v: u32| exists|i: int| 0 <= i < edges.len() && edges[i].to_node_id == v)
}

/// Every id the graph algorithms can meet: node ids and edge targets.
pub open spec fn vertices(g: ShadowGraph) -> Set<u32> {
    g.nodes@.dom().union(edge_targets(g.edges@))
}

/// `w` is a non-empty walk along the edges.
pub open spec fn is_walk(edges: Seq<Edge>, w: Seq<u32>) -> bool {
    &&& w.len() >= 1
    &&& forall|i: int| #![trigger w[i]] 0 <= i < w.len() - 1 ==> has_edge(edges, w[i], w[i + 1])
}

/// `w` starts at a node and ends on a vertex it has already visited.
pub open spec fn revisits(g: ShadowGraph, w: Seq<u32>) -> bool {
    &&& is_walk(g.edges@, w)
    &&& g.nodes@.contains_key(w[0])
    &&& exists|j: int| 0 <= j < w.len() - 1 && #[trigger] w[j] == w[w.len() - 1]
}

/// Some cycle can be reached by following edges from a node.
pub open spec fn has_reachable_cycle(g: ShadowGraph) -> bool {
    exists|w: Seq<u32>| revisits(g, w)
}

pub proof fn lemma_edge_targets_finite(edges: Seq<Edge>)
    ensures
        edge_targets(edges).finite(),
{
    let all = edges.map_values(|e: Edge| e.to_node_id).to_set();
    assert(edge_targets(edges).subset_of(all)) by {
        assert forall|v: u32| edge_targets(edges).contains(v) implies all.contains(v) by {
            let i = choose|i: int| 0 <= i < edges.len() && edges[i].to_node_id == v;
            assert(edges.map_values(|e: Edge| e.to_node_id)[i] == v);
        }
    }
    vstd::seq_lib::seq_to_set_is_finite(edges.map_values(|e: Edge| e.to_node_id));
    lemma_len_subset(edge_targets(edges), all);
}

pub proof fn lemma_vertices_finite(g: ShadowGraph)
    ensures
        vertices(g).finite(),
{
    lemma_edge_targets_finite(g.edges@);
}

/// The target of an edge is a vertex.
pub proof fn lemma_target_is_vertex(g: ShadowGraph, u: u32, v: u32)
    requires
        has_edge(g.edges@, u, v),
    ensures
        vertices(g).contains(v),
{
    let i = choose|i: int|
        0 <= i < g.edges@.len() && g.edges@[i].from_node_id == u && g.edges@[i].to_node_id == v;
    assert(edge_targets(g.edges@).contains(v));
}

/// A sequence without repeats drawn from a finite set is no longer than the set.
pub proof fn lemma_distinct_within(s: Seq<u32>, bound: Set<u32>)
    requires
        s.no_duplicates(),
        bound.finite(),
        forall|i: int| 0 <= i < s.len() ==> bound.contains(#[trigger] s[i]),
    ensures
        s.len() <= bound.len(),
{
    s.unique_seq_to_set();
    assert(s.to_set().subset_of(bound));
    lemma_len_subset(s.to_set(), bound);
}

// ---------------------------------------------------------------------
// Depth-first cycle search: the state it keeps, and why its answers hold.
// ---------------------------------------------------------------------

/// Colour of `v`: 0 unvisited (also when absent), 1 on the search stack,
/// 2 finished.
pub open spec fn color_of(c: Map<u32, u8>, v: u32) -> u8 {
    if c.contains_key(v) {
        c[v]
    } else {
        0
    }
}

/// The colour map agrees with the search stack and the finished list.
pub open spec fn colors_match(c: Map<u32, u8>, stack: Seq<u32>, done: Seq<u32>) -> bool {
    forall|v: u32|
        #[trigger] color_of(c, v) == (if stack.contains(v) {
            1u8
        } else if done.contains(v) {
            2u8
        } else {
            0u8
        })
}

/// Every successor of a finished vertex finished before it.
pub open spec fn finished_closed(edges: Seq<Edge>, done: Seq<u32>) -> bool {
    forall|i: int, v: u32|
        0 <= i < done.len() && #[trigger] has_edge(edges, done[i], v) ==> exists|j: int|
            0 <= j < i && done[j] == v
}

/// The search stack is a walk from a node.
pub open spec fn stack_is_walk(g: ShadowGraph, stack: Seq<u32>) -> bool {
    stack.len() > 0 ==> {
        &&& g.nodes@.contains_key(stack[0])
        &&& is_walk(g.edges@, stack)
    }
}

/// Invariant of the depth-first search.
pub open spec fn search_state(g: ShadowGraph, stack: Seq<u32>, done: Seq<u32>) -> bool {
    &&& stack.no_duplicates()
    &&& done.no_duplicates()
    &&& forall|v: u32| !(stack.contains(v) && done.contains(v))
    &&& forall|i: int| 0 <= i < stack.len() ==> vertices(g).contains(#[trigger] stack[i])
    &&& forall|i: int| 0 <= i < done.len() ==> vertices(g).contains(#[trigger] done[i])
    &&& stack_is_walk(g, stack)
    &&& finished_closed(g.edges@, done)
}

/// `a` is a prefix of `b`.
pub open spec fn is_prefix(a: Seq<u32>, b: Seq<u32>) -> bool {
    &&& a.len() <= b.len()
    &&& forall|i: int| 0 <= i < a.len() ==> b[i] == a[i]
}

/// Position of `v` in `done`.
pub open spec fn pos(done: Seq<u32>, v: u32) -> int {
    choose|j: int| 0 <= j < done.len() && done[j] == v
}

proof fn lemma_walk_finished(g: ShadowGraph, done: Seq<u32>, w: Seq<u32>, k: int)
    requires
        finished_closed(g.edges@, done),
        done.no_duplicates(),
        is_walk(g.edges@, w),
        done.contains(w[0]),
        0 <= k < w.len(),
    ensures
        done.contains(w[k]),
        k > 0 ==> pos(done, w[k]) < pos(done, w[k - 1]),
    decreases k,
{
    if k > 0 {
        lemma_walk_finished(g, done, w, k - 1);
        let u = w[k - 1];
        let i = pos(done, u);
        assert(has_edge(g.edges@, w[k - 1], w[k]));
        assert(has_edge(g.edges@, done[i], w[k]));
        let j = choose|j: int| 0 <= j < i && done[j] == w[k];
        assert(done.contains(w[k]));
        let p = pos(done, w[k]);
        assert(done[p] == w[k] && done[j] == w[k]);
        assert(p == j);
    }
}

proof fn lemma_walk_descends(g: ShadowGraph, done: Seq<u32>, w: Seq<u32>, j: int, m: int)
    requires
        finished_closed(g.edges@, done),
        done.no_duplicates(),
        is_walk(g.edges@, w),
        done.contains(w[0]),
        0 <= j < m < w.len(),
    ensures
        pos(done, w[m]) < pos(done, w[j]),
    decreases m - j,
{
    lemma_walk_finished(g, done, w, m);
    if m - 1 > j {
        lemma_walk_descends(g, done, w, j, m - 1);
    }
}

/// When every node has finished and finishing is closed under successors,
/// no cycle is reachable from a node.
pub proof fn lemma_finished_acyclic(g: ShadowGraph, done: Seq<u32>)
    requires
        finished_closed(g.edges@, done),
        done.no_duplicates(),
        forall|v: u32| g.nodes@.contains_key(v) ==> done.contains(v),
    ensures
        !has_reachable_cycle(g),
{
    if has_reachable_cycle(g) {
        let w = choose|w: Seq<u32>| revisits(g, w);
        let j = choose|j: int| 0 <= j < w.len() - 1 && #[trigger] w[j] == w[w.len() - 1];
        lemma_walk_descends(g, done, w, j, w.len() - 1);
    }
}

/// Meeting a vertex that is still on the stack closes a cycle.
pub proof fn lemma_back_edge_cycle(g: ShadowGraph, stack: Seq<u32>, next: u32)
    requires
        stack.len() > 0,
        stack_is_walk(g, stack),
        stack.contains(next),
        has_edge(g.edges@, stack.last(), next),
    ensures
        has_reachable_cycle(g),
{
    let w = stack.push(next);
    let j = choose|j: int| 0 <= j < stack.len() && stack[j] == next;
    assert(w[j] == w[w.len() - 1]);
    assert forall|i: int| #![trigger w[i]] 0 <= i < w.len() - 1 implies has_edge(
        g.edges@,
        w[i],
        w[i + 1],
    ) by {
        if i < stack.len() - 1 {
            assert(stack[i] == w[i] && stack[i + 1] == w[i + 1]);
        }
    }
    assert(revisits(g, w));
}

/// Membership after a push.
pub proof fn lemma_push_contains(s: Seq<u32>, x: u32, v: u32)
    ensures
        s.push(x).contains(v) <==> (s.contains(v) || v == x),
{
    if s.contains(v) {
        let j = choose|j: int| 0 <= j < s.len() && s[j] == v;
        assert(s.push(x)[j] == v);
    }
    if v == x {
        assert(s.push(x)[s.len() as int] == v);
    }
    if s.push(x).contains(v) {
        let j = choose|j: int| 0 <= j < s.push(x).len() && s.push(x)[j] == v;
        if j < s.len() {
            assert(s[j] == v);
        }
    }
}

/// Marking an unvisited vertex as on the stack.
pub proof fn lemma_colors_enter(c: Map<u32, u8>, stack: Seq<u32>, done: Seq<u32>, node: u32)
    requires
        colors_match(c, stack, done),
    ensures
        colors_match(c.insert(node, 1), stack.push(node), done),
{
    assert forall|v: u32| #[trigger] color_of(c.insert(node, 1), v) == (if stack.push(node).contains(v) {
        1u8
    } else if done.contains(v) {
        2u8
    } else {
        0u8
    }) by {
        lemma_push_contains(stack, node, v);
        if v == node {
            assert(c.insert(node, 1).contains_key(v));
            assert(c.insert(node, 1)[v] == 1u8);
        } else {
            assert(c.insert(node, 1).contains_key(v) == c.contains_key(v));
            assert(color_of(c.insert(node, 1), v) == color_of(c, v));
        }
    }
}

/// Marking the top of the stack as finished.
pub proof fn lemma_colors_leave(c: Map<u32, u8>, stack: Seq<u32>, cur: Seq<u32>, node: u32)
    requires
        colors_match(c, stack.push(node), cur),
        !stack.contains(node),
    ensures
        colors_match(c.insert(node, 2), stack, cur.push(node)),
{
    assert forall|v: u32| #[trigger] color_of(c.insert(node, 2), v) == (if stack.contains(v) {
        1u8
    } else if cur.push(node).contains(v) {
        2u8
    } else {
        0u8
    }) by {
        lemma_push_contains(stack, node, v);
        lemma_push_contains(cur, node, v);
        lemma_push_contains(stack, node, node);
        if v == node {
            assert(c.insert(node, 2).contains_key(v));
            assert(c.insert(node, 2)[v] == 2u8);
        } else {
            assert(c.insert(node, 2).contains_key(v) == c.contains_key(v));
            assert(color_of(c.insert(node, 2), v) == color_of(c, v));
        }
    }
}

/// Entering `node` from the top of the stack keeps the search invariant.
pub proof fn lemma_search_enter(g: ShadowGraph, stack: Seq<u32>, done: Seq<u32>, node: u32)
    requires
        search_state(g, stack, done),
        !stack.contains(node),
        !done.contains(node),
        vertices(g).contains(node),
        stack.len() == 0 ==> g.nodes@.contains_key(node),
        stack.len() > 0 ==> has_edge(g.edges@, stack.last(), node),
    ensures
        search_state(g, stack.push(node), done),
{
    let s2 = stack.push(node);
    assert forall|v: u32| !(s2.contains(v) && done.contains(v)) by {
        lemma_push_contains(stack, node, v);
    }
    assert forall|i: int| #![trigger s2[i]] 0 <= i < s2.len() - 1 implies has_edge(
        g.edges@,
        s2[i],
        s2[i + 1],
    ) by {
        if i < stack.len() - 1 {
            assert(stack[i] == s2[i] && stack[i + 1] == s2[i + 1]);
        }
    }
    assert forall|i: int| 0 <= i < s2.len() implies vertices(g).contains(#[trigger] s2[i]) by {
        if i < stack.len() {
            assert(s2[i] == stack[i]);
        }
    }
}

/// Leaving `node` once all its successors have finished keeps the search
/// invariant, with `node` finished last.
pub proof fn lemma_search_leave(g: ShadowGraph, stack: Seq<u32>, cur: Seq<u32>, node: u32)
    requires
        search_state(g, stack.push(node), cur),
        forall|v: u32| has_edge(g.edges@, node, v) ==> cur.contains(v),
    ensures
        search_state(g, stack, cur.push(node)),
{
    let s2 = stack.push(node);
    let fin = cur.push(node);
    assert(s2[stack.len() as int] == node);
    assert(!cur.contains(node));
    assert(stack.no_duplicates()) by {
        assert forall|i: int, j: int| 0 <= i < stack.len() && 0 <= j < stack.len() && i != j implies stack[i]
            != stack[j] by {
            assert(s2[i] == stack[i] && s2[j] == stack[j]);
        }
    }
    assert(!stack.contains(node)) by {
        if stack.contains(node) {
            let j = choose|j: int| 0 <= j < stack.len() && stack[j] == node;
            assert(s2[j] == node);
        }
    }
    assert forall|v: u32| !(stack.contains(v) && fin.contains(v)) by {
        lemma_push_contains(stack, node, v);
        lemma_push_contains(cur, node, v);
    }
    assert forall|i: int| 0 <= i < stack.len() implies vertices(g).contains(#[trigger] stack[i]) by {
        assert(s2[i] == stack[i]);
    }
    assert forall|i: int| 0 <= i < fin.len() implies vertices(g).contains(#[trigger] fin[i]) by {
        if i < cur.len() {
            assert(fin[i] == cur[i]);
        }
    }
    assert(stack_is_walk(g, stack)) by {
        if stack.len() > 0 {
            assert(s2[0] == stack[0]);
            assert forall|i: int| #![trigger stack[i]] 0 <= i < stack.len() - 1 implies has_edge(
                g.edges@,
                stack[i],
                stack[i + 1],
            ) by {
                assert(s2[i] == stack[i] && s2[i + 1] == stack[i + 1]);
            }
        }
    }
    assert forall|i: int, v: u32|
        0 <= i < fin.len() && #[trigger] has_edge(g.edges@, fin[i], v) implies exists|j: int|
        0 <= j < i && fin[j] == v by {
        if i < cur.len() {
            assert(fin[i] == cur[i]);
            let j = choose|j: int| 0 <= j < i && cur[j] == v;
            assert(fin[j] == v);
        } else {
            assert(cur.contains(v));
            let j = choose|j: int| 0 <= j < cur.len() && cur[j] == v;
            assert(fin[j] == v);
        }
    }
    assert(fin.no_duplicates()) by {
        assert forall|i: int, j: int| 0 <= i < fin.len() && 0 <= j < fin.len() && i != j implies fin[i]
            != fin[j] by {
            if i < cur.len() && j < cur.len() {
                assert(fin[i] == cur[i] && fin[j] == cur[j]);
            } else if i < cur.len() {
                assert(cur.contains(fin[i]));
            } else if j < cur.len() {
                assert(cur.contains(fin[j]));
            }
        }
    }
}

/// The stack and the finished list together never outnumber the vertices.
pub proof fn lemma_search_size(g: ShadowGraph, stack: Seq<u32>, done: Seq<u32>)
    requires
        search_state(g, stack, done),
    ensures
        stack.len() + done.len() <= vertices(g).len(),
{
    lemma_vertices_finite(g);
    assert forall|i: int, j: int| 0 <= i < stack.len() && 0 <= j < done.len() implies stack[i]
        != done[j] by {
        if stack[i] == done[j] {
            assert(stack.contains(stack[i]) && done.contains(stack[i]));
        }
    }
    vstd::seq_lib::lemma_no_dup_in_concat(stack, done);
    let both = stack + done;
    assert forall|i: int| 0 <= i < both.len() implies vertices(g).contains(#[trigger] both[i]) by {
        if i < stack.len() {
            assert(both[i] == stack[i]);
        } else {
            assert(both[i] == done[i - stack.len()]);
        }
    }
    lemma_distinct_within(both, vertices(g));
}

} // verus!
