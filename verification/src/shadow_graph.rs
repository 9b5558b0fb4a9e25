use vstd::prelude::*;
use vstd::string::StringExecFns;
use std::collections::HashMap;
use vstd::std_specs::iter::IteratorSpec;
use crate::ffi::{NodeConnection, NodeDesc, NodeType};
use crate::sorting::{sort_ids, lemma_is_ascending_ids, ascending_ids};
use crate::topo_spec::{
    indegree, kahn_state, kahn_run, kahn_bound, kahn_order, newly_ready, source_nodes,
    lemma_kahn_initial, lemma_kahn_step, lemma_kahn_size, lemma_indegree_bound, sort_outcome,
    lemma_indegree_concat, lemma_indegree_single, lemma_order_in_nodes,
};
use crate::text::{decimal, render_decimal, text_with_number};
use crate::graph_spec::{
    color_of, colors_match, has_reachable_cycle, is_prefix, lemma_back_edge_cycle,
    lemma_colors_enter, lemma_colors_leave, lemma_finished_acyclic, lemma_push_contains,
    lemma_search_enter, lemma_search_leave, lemma_search_size, lemma_target_is_vertex, search_state,
    vertices, edge_targets,
};

verus! {

/// Maximum number of nodes allowed in a single graph.
pub const MAX_NODES: usize = 256;

/// Maximum number of edges allowed in a single graph.
pub const MAX_EDGES: usize = 1024;

/// A processing node of the user's patch.
///
/// `parameters` maps a parameter hash to the IEEE-754 bit pattern of its
/// `f32` value.
#[derive(Debug, Clone)]
pub struct Node {
    pub id: u32,
    pub node_type: NodeType,
    pub num_inputs: u32,
    pub num_outputs: u32,
    pub parameters: HashMap<u32, u32>,
}

/// A wire from output port `from_output_idx` of `from_node_id` to input port
/// `to_input_idx` of `to_node_id`.
#[derive(Debug, Clone, Copy, PartialEq, Eq)]
pub struct Edge {
    pub from_node_id: u32,
    pub from_output_idx: u32,
    pub to_node_id: u32,
    pub to_input_idx: u32,
}

/// Rust-side copy of the audio graph: nodes by id, the wires in insertion
/// order, and the id of the node that feeds the audio output.
#[derive(Debug, Clone)]
pub struct ShadowGraph {
    pub nodes: HashMap<u32, Node>,
    pub edges: Vec<Edge>,
    pub output_node_id: u32,
}

pub open spec fn msg_node_exists(id: u32) -> Seq<char> {
    "Node "@ + decimal(id as nat) + " already exists"@
}

pub open spec fn msg_max_nodes() -> Seq<char> {
    "Maximum node count (256) reached"@
}

pub open spec fn msg_no_node(id: u32) -> Seq<char> {
    "Node "@ + decimal(id as nat) + " does not exist"@
}

pub open spec fn msg_max_edges() -> Seq<char> {
    "Maximum edge count (1024) reached"@
}

pub open spec fn msg_no_source(id: u32) -> Seq<char> {
    "Source node "@ + decimal(id as nat) + " does not exist"@
}

pub open spec fn msg_no_target(id: u32) -> Seq<char> {
    "Target node "@ + decimal(id as nat) + " does not exist"@
}

pub open spec fn msg_port(id: u32, count: u32, kind: Seq<char>, idx: u32) -> Seq<char> {
    "Node "@ + decimal(id as nat) + " has "@ + decimal(count as nat) + kind + decimal(idx as nat)
}

pub open spec fn msg_outputs(id: u32, count: u32, idx: u32) -> Seq<char> {
    msg_port(id, count, " outputs, requested idx "@, idx)
}

pub open spec fn msg_inputs(id: u32, count: u32, idx: u32) -> Seq<char> {
    msg_port(id, count, " inputs, requested idx "@, idx)
}

pub open spec fn msg_cycle() -> Seq<char> {
    "Graph contains a cycle"@
}

pub open spec fn msg_no_edge(from: u32, to: u32) -> Seq<char> {
    "No edge from "@ + decimal(from as nat) + " to "@ + decimal(to as nat)
}

pub open spec fn msg_no_output_node(id: u32) -> Seq<char> {
    "Output node "@ + decimal(id as nat) + " does not exist"@
}

/// Why edge `e` does not fit the nodes `nodes`, or `None` when it does:
/// the source must exist, its output port must exist, the target must
/// exist and its input port must exist, checked in this order.
pub open spec fn edge_fault(nodes: Map<u32, Node>, e: Edge) -> Option<Seq<char>> {
    if !nodes.contains_key(e.from_node_id) {
        Some(msg_no_source(e.from_node_id))
    } else if e.from_output_idx >= nodes[e.from_node_id].num_outputs {
        Some(msg_outputs(e.from_node_id, nodes[e.from_node_id].num_outputs, e.from_output_idx))
    } else if !nodes.contains_key(e.to_node_id) {
        Some(msg_no_target(e.to_node_id))
    } else if e.to_input_idx >= nodes[e.to_node_id].num_inputs {
        Some(msg_inputs(e.to_node_id, nodes[e.to_node_id].num_inputs, e.to_input_idx))
    } else {
        None
    }
}

/// The fault of the first edge of `edges` that does not fit `nodes`.
pub open spec fn edges_fault(nodes: Map<u32, Node>, edges: Seq<Edge>) -> Option<Seq<char>>
    decreases edges.len(),
{
    if edges.len() == 0 {
        None
    } else {
        match edges_fault(nodes, edges.drop_last()) {
            Some(m) => Some(m),
            None => edge_fault(nodes, edges.last()),
        }
    }
}

/// Why `validate` refuses `g`, or `None` when it accepts it: the output
/// node must exist, then every edge must fit the nodes, then no cycle may
/// be reachable.
pub open spec fn validation_refusal(g: ShadowGraph) -> Option<Seq<char>> {
    if !g.nodes@.contains_key(g.output_node_id) {
        Some(msg_no_output_node(g.output_node_id))
    } else {
        match edges_fault(g.nodes@, g.edges@) {
            Some(m) => Some(m),
            None => if has_reachable_cycle(g) {
                Some(msg_cycle())
            } else {
                None
            },
        }
    }
}

/// No edge has a fault exactly when each edge fits the nodes.
pub proof fn lemma_edges_fault_none(nodes: Map<u32, Node>, edges: Seq<Edge>)
    ensures
        edges_fault(nodes, edges) is None <==> forall|i: int|
            0 <= i < edges.len() ==> edge_fault(nodes, #[trigger] edges[i]) is None,
    decreases edges.len(),
{
    if edges.len() > 0 {
        lemma_edges_fault_none(nodes, edges.drop_last());
        assert forall|i: int| 0 <= i < edges.len() - 1 implies edges.drop_last()[i] == edges[i] by {}
        if edges_fault(nodes, edges) is None {
            assert forall|i: int| 0 <= i < edges.len() implies edge_fault(
                nodes,
                #[trigger] edges[i],
            ) is None by {
                if i < edges.len() - 1 {
                    assert(edges.drop_last()[i] == edges[i]);
                }
            }
        }
        if forall|i: int| 0 <= i < edges.len() ==> edge_fault(nodes, #[trigger] edges[i]) is None {
            assert forall|i: int| 0 <= i < edges.drop_last().len() implies edge_fault(
                nodes,
                #[trigger] edges.drop_last()[i],
            ) is None by {
                assert(edges.drop_last()[i] == edges[i]);
            }
            assert(edges[edges.len() - 1] == edges.last());
        }
    }
}

/// A graph that passes validation has every edge joining two nodes.
pub proof fn lemma_valid_endpoints(g: ShadowGraph)
    requires
        validation_refusal(g) is None,
    ensures
        endpoints_are_nodes(g),
        !has_reachable_cycle(g),
        g.nodes@.contains_key(g.output_node_id),
{
    lemma_edges_fault_none(g.nodes@, g.edges@);
    assert forall|i: int| 0 <= i < g.edges@.len() implies {
        let e = #[trigger] g.edges@[i];
        &&& g.nodes@.contains_key(e.from_node_id)
        &&& g.nodes@.contains_key(e.to_node_id)
    } by {
        assert(edge_fault(g.nodes@, g.edges@[i]) is None);
    }
}

/// In a well-formed graph every edge fits the nodes.
pub proof fn lemma_well_formed_edges_fit(g: ShadowGraph)
    requires
        g.well_formed(),
    ensures
        edges_fault(g.nodes@, g.edges@) is None,
{
    lemma_edges_fault_none(g.nodes@, g.edges@);
    assert forall|i: int| 0 <= i < g.edges@.len() implies edge_fault(
        g.nodes@,
        #[trigger] g.edges@[i],
    ) is None by {
        let e = g.edges@[i];
    }
}

/// The engine's descriptor of node `n` under id `id`.
pub open spec fn desc_of(id: u32, n: Node) -> NodeDesc {
    NodeDesc { node_id: id, node_type: n.node_type, num_inputs: n.num_inputs, num_outputs: n.num_outputs }
}

/// The engine's connection for edge `e`.
pub open spec fn connection_of(e: Edge) -> NodeConnection {
    NodeConnection {
        from_node_id: e.from_node_id,
        from_output_idx: e.from_output_idx,
        to_node_id: e.to_node_id,
        to_input_idx: e.to_input_idx,
    }
}

/// Why `add_edge` refuses `e` on graph `g`, or `None` when it accepts it:
/// the edge limit first, then whether the edge fits the nodes.
pub open spec fn add_edge_refusal(g: ShadowGraph, e: Edge) -> Option<Seq<char>> {
    if g.edges@.len() >= MAX_EDGES {
        Some(msg_max_edges())
    } else {
        edge_fault(g.nodes@, e)
    }
}

/// Edges that survive the removal of node `id`.
pub open spec fn not_touching(id: u32) -> spec_fn(Edge) -> bool {
    |e: Edge| e.from_node_id != id && e.to_node_id != id
}

/// Edges that survive the removal of the wires from `from` to `to`.
pub open spec fn not_between(from: u32, to: u32) -> spec_fn(Edge) -> bool {
    |e: Edge| !(e.from_node_id == from && e.to_node_id == to)
}

/// Some edge runs from `from` to `to`.
pub open spec fn has_edge(edges: Seq<Edge>, from: u32, to: u32) -> bool {
    exists|i: int| 0 <= i < edges.len() && edges[i].from_node_id == from && edges[i].to_node_id == to
}

/// Every edge starts and ends at a node.
pub open spec fn endpoints_are_nodes(g: ShadowGraph) -> bool {
    forall|i: int|
        0 <= i < g.edges@.len() ==> {
            let e = #[trigger] g.edges@[i];
            &&& g.nodes@.contains_key(e.from_node_id)
            &&& g.nodes@.contains_key(e.to_node_id)
        }
}

impl ShadowGraph {
    /// Every edge joins existing nodes through existing ports, and the
    /// size limits hold. Every graph built through this API satisfies it.
    pub open spec fn well_formed(self) -> bool {
        &&& self.nodes@.len() <= MAX_NODES
        &&& self.edges@.len() <= MAX_EDGES
        &&& forall|i: int|
            0 <= i < self.edges@.len() ==> {
                let e = #[trigger] self.edges@[i];
                &&& self.nodes@.contains_key(e.from_node_id)
                &&& self.nodes@.contains_key(e.to_node_id)
                &&& e.from_output_idx < self.nodes@[e.from_node_id].num_outputs
                &&& e.to_input_idx < self.nodes@[e.to_node_id].num_inputs
            }
    }

    /// An empty graph whose audio output is taken from `output_node_id`.
    pub fn new(output_node_id: u32) -> (g: Self)
        ensures
            g.nodes@ == Map::<u32, Node>::empty(),
            g.edges@ == Seq::<Edge>::empty(),
            g.output_node_id == output_node_id,
            g.well_formed(),
    {
        ShadowGraph { nodes: HashMap::new(), edges: Vec::new(), output_node_id }
    }

    /// Add `node` under its id. Refused when the id is taken, then when the
    /// graph already holds `MAX_NODES` nodes.
    pub fn add_node(&mut self, node: Node) -> (r: Result<(), String>)
        ensures
            final(self).edges@ == old(self).edges@,
            final(self).output_node_id == old(self).output_node_id,
            old(self).well_formed() ==> final(self).well_formed(),
            match r {
                Ok(()) => {
                    &&& !old(self).nodes@.contains_key(node.id)
                    &&& old(self).nodes@.len() < MAX_NODES
                    &&& final(self).nodes@ == old(self).nodes@.insert(node.id, node)
                },
                Err(e) => {
                    &&& final(self).nodes@ == old(self).nodes@
                    &&& if old(self).nodes@.contains_key(node.id) {
                        e@ == msg_node_exists(node.id)
                    } else {
                        old(self).nodes@.len() >= MAX_NODES && e@ == msg_max_nodes()
                    }
                },
            },
    {
        if self.nodes.contains_key(&node.id) {
            return Err(text_with_number("Node ", node.id, " already exists"));
        }
        if self.nodes.len() >= MAX_NODES {
            return Err(String::from_str("Maximum node count (256) reached"));
        }
        let id = node.id;
        self.nodes.insert(id, node);
        proof {
            if old(self).well_formed() {
                assert forall|i: int| 0 <= i < self.edges@.len() implies {
                    let e = #[trigger] self.edges@[i];
                    &&& self.nodes@.contains_key(e.from_node_id)
                    &&& self.nodes@.contains_key(e.to_node_id)
                    &&& e.from_output_idx < self.nodes@[e.from_node_id].num_outputs
                    &&& e.to_input_idx < self.nodes@[e.to_node_id].num_inputs
                } by {
                    assert(old(self).edges@[i] == self.edges@[i]);
                }
            }
        }
        Ok(())
    }

    /// Remove node `node_id` and every edge that starts or ends at it.
    pub fn remove_node(&mut self, node_id: u32) -> (r: Result<(), String>)
        ensures
            final(self).output_node_id == old(self).output_node_id,
            old(self).well_formed() ==> final(self).well_formed(),
            r is Ok <==> old(self).nodes@.contains_key(node_id),
            match r {
                Ok(()) => {
                    &&& final(self).nodes@ == old(self).nodes@.remove(node_id)
                    &&& final(self).edges@ == old(self).edges@.filter(not_touching(node_id))
                },
                Err(e) => {
                    &&& final(self).nodes@ == old(self).nodes@
                    &&& final(self).edges@ == old(self).edges@
                    &&& e@ == msg_no_node(node_id)
                },
            },
    {
        match self.nodes.remove(&node_id) {
            None => {
                return Err(text_with_number("Node ", node_id, " does not exist"));
            },
            Some(_) => {},
        }
        let kept = edges_filtered(&self.edges, node_id, node_id, true);
        self.edges = kept;
        proof {
            if old(self).well_formed() {
                broadcast use vstd::seq_lib::group_filter_ensures;
                let p = not_touching(node_id);
                old(self).edges@.lemma_filter_len(p);
                assert forall|i: int| 0 <= i < self.edges@.len() implies {
                    let e = #[trigger] self.edges@[i];
                    &&& self.nodes@.contains_key(e.from_node_id)
                    &&& self.nodes@.contains_key(e.to_node_id)
                    &&& e.from_output_idx < self.nodes@[e.from_node_id].num_outputs
                    &&& e.to_input_idx < self.nodes@[e.to_node_id].num_inputs
                } by {
                    let e = self.edges@[i];
                    old(self).edges@.lemma_filter_pred(p, i);
                    assert(self.edges@.contains(e));
                    old(self).edges@.lemma_filter_contains_rev(p, e);
                    let j = choose|j: int| 0 <= j < old(self).edges@.len() && old(self).edges@[j] == e;
                    assert(old(self).edges@[j] == e);
                }
                assert(self.nodes@.len() <= old(self).nodes@.len());
            }
        }
        Ok(())
    }

    /// Append `edge` after checking, in this order, the edge limit, the
    /// source node, its output port, the target node and its input port.
    pub fn add_edge(&mut self, edge: Edge) -> (r: Result<(), String>)
        ensures
            final(self).nodes@ == old(self).nodes@,
            final(self).output_node_id == old(self).output_node_id,
            old(self).well_formed() ==> final(self).well_formed(),
            r is Ok <==> add_edge_refusal(*old(self), edge) is None,
            match r {
                Ok(()) => final(self).edges@ == old(self).edges@.push(edge),
                Err(e) => {
                    &&& final(self).edges@ == old(self).edges@
                    &&& add_edge_refusal(*old(self), edge) == Some(e@)
                },
            },
    {
        if self.edges.len() >= MAX_EDGES {
            return Err(String::from_str("Maximum edge count (1024) reached"));
        }
        match edge_check(&self.nodes, edge) {
            Ok(()) => {},
            Err(e) => {
                return Err(e);
            },
        }
        self.edges.push(edge);
        proof {
            if old(self).well_formed() {
                assert forall|i: int| 0 <= i < self.edges@.len() implies {
                    let e = #[trigger] self.edges@[i];
                    &&& self.nodes@.contains_key(e.from_node_id)
                    &&& self.nodes@.contains_key(e.to_node_id)
                    &&& e.from_output_idx < self.nodes@[e.from_node_id].num_outputs
                    &&& e.to_input_idx < self.nodes@[e.to_node_id].num_inputs
                } by {
                    if i < old(self).edges@.len() {
                        assert(old(self).edges@[i] == self.edges@[i]);
                    }
                }
            }
        }
        Ok(())
    }

    /// Remove every edge from `from_node_id` to `to_node_id`; refused when
    /// there is none.
    pub fn remove_edge(&mut self, from_node_id: u32, to_node_id: u32) -> (r: Result<(), String>)
        ensures
            final(self).nodes@ == old(self).nodes@,
            final(self).output_node_id == old(self).output_node_id,
            old(self).well_formed() ==> final(self).well_formed(),
            r is Ok <==> has_edge(old(self).edges@, from_node_id, to_node_id),
            match r {
                Ok(()) => final(self).edges@ == old(self).edges@.filter(
                    not_between(from_node_id, to_node_id),
                ),
                Err(e) => {
                    &&& final(self).edges@ == old(self).edges@
                    &&& e@ == msg_no_edge(from_node_id, to_node_id)
                },
            },
    {
        let before = self.edges.len();
        let kept = edges_filtered(&self.edges, from_node_id, to_node_id, false);
        if kept.len() == before {
            proof {
                lemma_filter_same_len(old(self).edges@, not_between(from_node_id, to_node_id));
            }
            let mut msg = text_with_number("No edge from ", from_node_id, " to ");
            let d = render_decimal(to_node_id);
            msg.append(d.as_str());
            return Err(msg);
        }
        proof {
            lemma_filter_shorter(old(self).edges@, not_between(from_node_id, to_node_id));
        }
        self.edges = kept;
        proof {
            if old(self).well_formed() {
                broadcast use vstd::seq_lib::group_filter_ensures;
                let p = not_between(from_node_id, to_node_id);
                old(self).edges@.lemma_filter_len(p);
                assert forall|i: int| 0 <= i < self.edges@.len() implies {
                    let e = #[trigger] self.edges@[i];
                    &&& self.nodes@.contains_key(e.from_node_id)
                    &&& self.nodes@.contains_key(e.to_node_id)
                    &&& e.from_output_idx < self.nodes@[e.from_node_id].num_outputs
                    &&& e.to_input_idx < self.nodes@[e.to_node_id].num_inputs
                } by {
                    let e = self.edges@[i];
                    old(self).edges@.lemma_filter_pred(p, i);
                    assert(self.edges@.contains(e));
                    old(self).edges@.lemma_filter_contains_rev(p, e);
                    let j = choose|j: int| 0 <= j < old(self).edges@.len() && old(self).edges@[j] == e;
                    assert(old(self).edges@[j] == e);
                }
            }
        }
        Ok(())
    }

    /// Check the graph before it is compiled: the output node must exist,
    /// every edge must join existing nodes through existing ports (the
    /// first edge that does not is reported), and no cycle may be reachable
    /// from any node, which a depth-first search decides.
    pub fn validate(&self) -> (r: Result<(), String>)
        ensures
            r is Ok <==> validation_refusal(*self) is None,
            r matches Err(e) ==> validation_refusal(*self) == Some(e@),
    {
        if !self.nodes.contains_key(&self.output_node_id) {
            return Err(text_with_number("Output node ", self.output_node_id, " does not exist"));
        }
        let mut k: usize = 0;
        while k < self.edges.len()
            invariant
                k <= self.edges@.len(),
                self.nodes@.contains_key(self.output_node_id),
                edges_fault(self.nodes@, self.edges@.take(k as int)) is None,
            decreases self.edges@.len() - k,
        {
            let e = self.edges[k];
            proof {
                assert(self.edges@.take(k + 1).drop_last() == self.edges@.take(k as int));
                assert(self.edges@.take(k + 1).last() == e);
            }
            match edge_check(&self.nodes, e) {
                Ok(()) => {},
                Err(m) => {
                    proof {
                        lemma_edges_fault_extends(self.nodes@, self.edges@, k + 1);
                    }
                    return Err(m);
                },
            }
            k = k + 1;
        }
        proof {
            assert(self.edges@.take(self.edges@.len() as int) == self.edges@);
        }
        let ids = node_ids(&self.nodes);
        let mut color: HashMap<u32, u8> = HashMap::new();
        let ghost mut done: Seq<u32> = Seq::empty();
        let mut i: usize = 0;
        while i < ids.len()
            invariant
                i <= ids@.len(),
                self.nodes@.contains_key(self.output_node_id),
                edges_fault(self.nodes@, self.edges@) is None,
                ids@.to_set() == self.nodes@.dom(),
                colors_match(color@, Seq::empty(), done),
                search_state(*self, Seq::empty(), done),
                forall|k: int| 0 <= k < i ==> done.contains(#[trigger] ids@[k]),
            decreases ids@.len() - i,
        {
            let id = ids[i];
            let c: u8 = match color.get(&id) {
                Some(c) => *c,
                None => 0,
            };
            assert(color_of(color@, id) == c);
            if c == 0 {
                proof {
                    assert(ids@.to_set().contains(id));
                    assert(vertices(*self).contains(id));
                }
                let (r, Ghost(done2)) = self.dfs_cycle(
                    id,
                    &mut color,
                    Ghost(Seq::empty()),
                    Ghost(done),
                );
                match r {
                    Err(e) => {
                        return Err(e);
                    },
                    Ok(()) => {},
                }
                proof {
                    assert forall|k: int| 0 <= k < i + 1 implies done2.contains(#[trigger] ids@[k]) by {
                        if k < i {
                            let j = choose|j: int| 0 <= j < done.len() && done[j] == ids@[k];
                            assert(done2[j] == ids@[k]);
                        }
                    }
                    done = done2;
                }
            } else {
                proof {
                    assert(done.contains(id));
                }
            }
            i = i + 1;
        }
        proof {
            assert forall|v: u32| self.nodes@.contains_key(v) implies done.contains(v) by {
                assert(ids@.to_set().contains(v));
                let k = choose|k: int| 0 <= k < ids@.len() && ids@[k] == v;
                assert(done.contains(ids@[k]));
            }
            lemma_finished_acyclic(*self, done);
        }
        Ok(())
    }

    /// Execution order of the nodes: fails as `validate` does, and otherwise
    /// gives Kahn's order, sources in ascending id order
    /// and each node's newly freed successors in ascending id order.
    pub fn topological_sort(&self) -> (r: Result<Vec<u32>, String>)
        ensures
            match r {
                Ok(order) => sort_outcome(*self) == Ok::<Seq<u32>, Seq<char>>(order@),
                Err(e) => sort_outcome(*self) == Err::<Seq<u32>, Seq<char>>(e@),
            },
    {
        match self.validate() {
            Err(e) => {
                return Err(e);
            },
            Ok(()) => {},
        }
        let order = kahn_sort(self);
        if order.len() != self.nodes.len() {
            return Err(String::from_str("Graph has cycles (topological sort incomplete)"));
        }
        Ok(order)
    }

    /// The graph in the form the DSP engine takes: node descriptors in
    /// execution order, every edge as a connection in edge order, and the
    /// execution order itself. Fails as `topological_sort` does.
    pub fn compile(&self) -> (r: Result<(Vec<NodeDesc>, Vec<NodeConnection>, Vec<u32>), String>)
        ensures
            match r {
                Ok((descs, conns, order)) => {
                    &&& sort_outcome(*self) == Ok::<Seq<u32>, Seq<char>>(order@)
                    &&& descs@.len() == order@.len()
                    &&& forall|i: int|
                        0 <= i < order@.len() ==> #[trigger] descs@[i] == desc_of(
                            order@[i],
                            self.nodes@[order@[i]],
                        )
                    &&& conns@ == self.edges@.map_values(|e: Edge| connection_of(e))
                    &&& conns@.len() == self.edges@.len()
                    &&& forall|i: int|
                        0 <= i < conns@.len() ==> {
                            &&& (#[trigger] conns@[i]).from_node_id == self.edges@[i].from_node_id
                            &&& conns@[i].from_output_idx == self.edges@[i].from_output_idx
                            &&& conns@[i].to_node_id == self.edges@[i].to_node_id
                            &&& conns@[i].to_input_idx == self.edges@[i].to_input_idx
                        }
                    &&& forall|i: int|
                        0 <= i < descs@.len() ==> {
                            &&& (#[trigger] descs@[i]).node_id == order@[i]
                            &&& descs@[i].node_type == self.nodes@[order@[i]].node_type
                            &&& descs@[i].num_inputs == self.nodes@[order@[i]].num_inputs
                            &&& descs@[i].num_outputs == self.nodes@[order@[i]].num_outputs
                        }
                },
                Err(e) => sort_outcome(*self) == Err::<Seq<u32>, Seq<char>>(e@),
            },
    {
        let exec_order = match self.topological_sort() {
            Err(e) => {
                return Err(e);
            },
            Ok(order) => order,
        };
        proof {
            assert forall|k: int| 0 <= k < exec_order@.len() implies self.nodes@.contains_key(
                #[trigger] exec_order@[k],
            ) by {
                assert(sort_outcome(*self) == Ok::<Seq<u32>, Seq<char>>(exec_order@));
                assert(exec_order@ == kahn_order(*self));
                lemma_valid_endpoints(*self);
                lemma_order_in_nodes(*self);
                assert(self.nodes@.contains_key(kahn_order(*self)[k]));
            }
        }
        let mut descs: Vec<NodeDesc> = Vec::new();
        let mut i: usize = 0;
        while i < exec_order.len()
            invariant
                i <= exec_order@.len(),
                forall|k: int|
                    0 <= k < exec_order@.len() ==> self.nodes@.contains_key(#[trigger] exec_order@[k]),
                descs@.len() == i,
                forall|k: int|
                    0 <= k < i ==> #[trigger] descs@[k] == desc_of(
                        exec_order@[k],
                        self.nodes@[exec_order@[k]],
                    ),
            decreases exec_order@.len() - i,
        {
            let id = exec_order[i];
            assert(self.nodes@.contains_key(exec_order@[i as int]));
            let n = self.nodes.get(&id).unwrap();
            descs.push(
                NodeDesc {
                    node_id: id,
                    node_type: n.node_type,
                    num_inputs: n.num_inputs,
                    num_outputs: n.num_outputs,
                },
            );
            i = i + 1;
        }
        let mut conns: Vec<NodeConnection> = Vec::new();
        let mut j: usize = 0;
        while j < self.edges.len()
            invariant
                j <= self.edges@.len(),
                conns@ == self.edges@.take(j as int).map_values(|e: Edge| connection_of(e)),
            decreases self.edges@.len() - j,
        {
            let e = self.edges[j];
            conns.push(
                NodeConnection {
                    from_node_id: e.from_node_id,
                    from_output_idx: e.from_output_idx,
                    to_node_id: e.to_node_id,
                    to_input_idx: e.to_input_idx,
                },
            );
            proof {
                assert(self.edges@.take(j + 1).map_values(|e: Edge| connection_of(e)) =~= self.edges@.take(
                    j as int,
                ).map_values(|e: Edge| connection_of(e)).push(connection_of(e)));
            }
            j = j + 1;
        }
        proof {
            assert(self.edges@.take(self.edges@.len() as int) == self.edges@);
        }
        Ok((descs, conns, exec_order))
    }

    /// Depth-first visit of the unvisited vertex `node`. Reports a cycle as
    /// soon as an edge leads back onto the search stack; otherwise finishes
    /// `node` and everything newly reached from it.
    fn dfs_cycle(
        &self,
        node: u32,
        color: &mut HashMap<u32, u8>,
        Ghost(stack): Ghost<Seq<u32>>,
        Ghost(done): Ghost<Seq<u32>>,
    ) -> (r: (Result<(), String>, Ghost<Seq<u32>>))
        requires
            colors_match(old(color)@, stack, done),
            search_state(*self, stack, done),
            !stack.contains(node),
            !done.contains(node),
            vertices(*self).contains(node),
            stack.len() == 0 ==> self.nodes@.contains_key(node),
            stack.len() > 0 ==> has_edge(self.edges@, stack.last(), node),
        ensures
            match r.0 {
                Ok(()) => {
                    &&& colors_match(final(color)@, stack, r.1@)
                    &&& search_state(*self, stack, r.1@)
                    &&& is_prefix(done, r.1@)
                    &&& r.1@.contains(node)
                },
                Err(e) => has_reachable_cycle(*self) && e@ == msg_cycle(),
            },
        decreases vertices(*self).len() - stack.len() - done.len(),
    {
        proof {
            lemma_search_size(*self, stack, done);
            lemma_colors_enter(color@, stack, done, node);
            lemma_search_enter(*self, stack, done, node);
        }
        color.insert(node, 1);
        let ghost stack2 = stack.push(node);
        let succ = successors(&self.edges, node);
        let ghost mut cur = done;
        let mut i: usize = 0;
        while i < succ.len()
            invariant
                i <= succ@.len(),
                forall|v: u32| succ@.contains(v) <==> has_edge(self.edges@, node, v),
                colors_match(color@, stack2, cur),
                search_state(*self, stack2, cur),
                is_prefix(done, cur),
                forall|k: int| 0 <= k < i ==> cur.contains(#[trigger] succ@[k]),
                stack2 == stack.push(node),
                search_state(*self, stack, done),
            decreases succ@.len() - i,
        {
            let next = succ[i];
            assert(succ@.contains(next));
            let c: u8 = match color.get(&next) {
                Some(c) => *c,
                None => 0,
            };
            assert(color_of(color@, next) == c);
            if c == 1 {
                proof {
                    lemma_back_edge_cycle(*self, stack2, next);
                }
                return (Err(String::from_str("Graph contains a cycle")), Ghost(cur));
            } else if c == 0 {
                proof {
                    lemma_target_is_vertex(*self, node, next);
                    assert(stack2.last() == node);
                    lemma_search_size(*self, stack2, cur);
                }
                let (r, Ghost(cur2)) = self.dfs_cycle(next, color, Ghost(stack2), Ghost(cur));
                match r {
                    Err(e) => {
                        return (Err(e), Ghost(cur2));
                    },
                    Ok(()) => {},
                }
                proof {
                    assert forall|k: int| 0 <= k < i + 1 implies cur2.contains(#[trigger] succ@[k]) by {
                        if k < i {
                            let j = choose|j: int| 0 <= j < cur.len() && cur[j] == succ@[k];
                            assert(cur2[j] == succ@[k]);
                        }
                    }
                    cur = cur2;
                }
            } else {
                proof {
                    assert(cur.contains(next));
                }
            }
            i = i + 1;
        }
        proof {
            assert(!stack.contains(node)) by {
                lemma_push_contains(stack, node, node);
            }
            lemma_colors_leave(color@, stack, cur, node);
            assert forall|v: u32| has_edge(self.edges@, node, v) implies cur.contains(v) by {
                assert(succ@.contains(v));
                let k = choose|k: int| 0 <= k < succ@.len() && succ@[k] == v;
                assert(cur.contains(succ@[k]));
            }
            lemma_search_leave(*self, stack, cur, node);
            lemma_push_contains(cur, node, node);
        }
        color.insert(node, 2);
        let ghost fin = cur.push(node);
        (Ok(()), Ghost(fin))
    }
}

/// In-degree of every vertex of `g` with nothing removed.
fn initial_indegrees(g: &ShadowGraph, ids: &Vec<u32>) -> (m: HashMap<u32, usize>)
    requires
        ids@.to_set() == g.nodes@.dom(),
    ensures
        m@.dom() == vertices(*g),
        forall|v: u32| #[trigger] m@.contains_key(v) ==> m@[v] == indegree(g.edges@, v, Seq::empty()),
{
    let mut m: HashMap<u32, usize> = HashMap::new();
    let mut k: usize = 0;
    while k < ids.len()
        invariant
            k <= ids@.len(),
            m@.dom() == ids@.take(k as int).to_set(),
            forall|v: u32| #[trigger] m@.contains_key(v) ==> m@[v] == 0,
        decreases ids@.len() - k,
    {
        let id = ids[k];
        m.insert(id, 0);
        proof {
            assert(ids@.take(k + 1) == ids@.take(k as int).push(id));
            assert forall|v: u32| m@.dom().contains(v) <==> ids@.take(k + 1).to_set().contains(v) by {
                lemma_push_contains(ids@.take(k as int), id, v);
            }
            assert(m@.dom() =~= ids@.take(k + 1).to_set());
        }
        k = k + 1;
    }
    proof {
        assert(ids@.take(ids@.len() as int) == ids@);
        assert forall|v: u32| m@.contains_key(v) implies m@[v] == indegree(
            Seq::<Edge>::empty(),
            v,
            Seq::empty(),
        ) by {}
        assert(g.edges@.take(0) == Seq::<Edge>::empty());
    }
    let mut i: usize = 0;
    while i < g.edges.len()
        invariant
            i <= g.edges@.len(),
            m@.dom() == g.nodes@.dom().union(edge_targets(g.edges@.take(i as int))),
            forall|v: u32| #[trigger] m@.contains_key(v) ==> m@[v] == indegree(
                g.edges@.take(i as int),
                v,
                Seq::empty(),
            ),
        decreases g.edges@.len() - i,
    {
        let e = g.edges[i];
        let d: usize = match m.get(&e.to_node_id) {
            Some(d) => *d,
            None => 0,
        };
        let ghost t0 = g.edges@.take(i as int);
        let ghost t1 = g.edges@.take(i + 1);
        proof {
            assert(t1.drop_last() == t0);
            assert(t1.last() == e);
            lemma_indegree_bound(t0, e.to_node_id, Seq::empty());
            if !m@.contains_key(e.to_node_id) {
                assert(indegree(t0, e.to_node_id, Seq::empty()) == 0) by {
                    if indegree(t0, e.to_node_id, Seq::empty()) > 0 {
                        crate::topo_spec::lemma_indegree_pos(t0, e.to_node_id, Seq::empty());
                        let j = choose|j: int|
                            0 <= j < t0.len() && t0[j].to_node_id == e.to_node_id && !Seq::<
                                u32,
                            >::empty().contains(#[trigger] t0[j].from_node_id);
                        assert(edge_targets(t0).contains(e.to_node_id));
                    }
                }
            }
        }
        m.insert(e.to_node_id, d + 1);
        proof {
            assert forall|v: u32| m@.dom().contains(v) <==> g.nodes@.dom().union(
                edge_targets(t1),
            ).contains(v) by {
                if edge_targets(t0).contains(v) {
                    let j = choose|j: int| 0 <= j < t0.len() && t0[j].to_node_id == v;
                    assert(t1[j] == t0[j]);
                }
                if edge_targets(t1).contains(v) {
                    let j = choose|j: int| 0 <= j < t1.len() && t1[j].to_node_id == v;
                    if j < i {
                        assert(t1[j] == t0[j]);
                    } else {
                        assert(t1[j] == e);
                    }
                }
                if v == e.to_node_id {
                    assert(t1[i as int] == e);
                }
            }
            assert(m@.dom() =~= g.nodes@.dom().union(edge_targets(t1)));
        }
        i = i + 1;
    }
    proof {
        assert(g.edges@.take(g.edges@.len() as int) == g.edges@);
    }
    m
}

/// The vertices of the graph in the order Kahn's algorithm outputs them.
fn kahn_sort(g: &ShadowGraph) -> (order: Vec<u32>)
    ensures
        order@ == kahn_order(*g),
{
    let ids = node_ids(&g.nodes);
    let mut indeg = initial_indegrees(g, &ids);
    // Sources, in ascending id order.
    let mut roots: Vec<u32> = Vec::new();
    let mut k: usize = 0;
    while k < ids.len()
        invariant
            k <= ids@.len(),
            ids@.no_duplicates(),
            ids@.to_set() == g.nodes@.dom(),
            indeg@.dom() == vertices(*g),
            forall|v: u32| #[trigger] indeg@.contains_key(v) ==> indeg@[v] == indegree(
                g.edges@,
                v,
                Seq::empty(),
            ),
            roots@.no_duplicates(),
            forall|v: u32|
                roots@.contains(v) <==> (ids@.take(k as int).contains(v) && indegree(
                    g.edges@,
                    v,
                    Seq::empty(),
                ) == 0),
        decreases ids@.len() - k,
    {
        let id = ids[k];
        proof {
            assert(ids@.to_set().contains(id));
            assert(vertices(*g).contains(id));
        }
        let d: usize = match indeg.get(&id) {
            Some(d) => *d,
            None => 0,
        };
        let ghost r0 = roots@;
        proof {
            assert(!ids@.take(k as int).contains(id)) by {
                if ids@.take(k as int).contains(id) {
                    let j = choose|j: int| 0 <= j < k && ids@.take(k as int)[j] == id;
                    assert(ids@[j] == ids@[k as int]);
                }
            }
        }
        if d == 0 {
            roots.push(id);
        }
        proof {
            assert(ids@.take(k + 1) == ids@.take(k as int).push(id));
            assert forall|v: u32| roots@.contains(v) <==> (ids@.take(k + 1).contains(v) && indegree(
                g.edges@,
                v,
                Seq::empty(),
            ) == 0) by {
                lemma_push_contains(ids@.take(k as int), id, v);
                if d == 0 {
                    lemma_push_contains(r0, id, v);
                }
            }
            if d == 0 {
                assert(roots@.no_duplicates()) by {
                    assert forall|a: int, b: int| 0 <= a < roots@.len() && 0 <= b < roots@.len() && a
                        != b implies roots@[a] != roots@[b] by {
                        if a < r0.len() && b < r0.len() {
                            assert(roots@[a] == r0[a] && roots@[b] == r0[b]);
                        } else if a < r0.len() {
                            assert(r0.contains(roots@[a]));
                        } else if b < r0.len() {
                            assert(r0.contains(roots@[b]));
                        }
                    }
                }
            }
        }
        k = k + 1;
    }
    let mut queue = sort_ids(&roots);
    proof {
        assert(ids@.take(ids@.len() as int) == ids@);
        assert forall|v: u32| queue@.to_set().contains(v) <==> source_nodes(*g).contains(v) by {
            assert(roots@.to_set().contains(v) <==> roots@.contains(v));
            if roots@.contains(v) {
                assert(ids@.contains(v));
                assert(ids@.to_set().contains(v));
            }
            if source_nodes(*g).contains(v) {
                assert(ids@.to_set().contains(v));
            }
        }
        assert(queue@.to_set() =~= source_nodes(*g));
        lemma_is_ascending_ids(queue@);
        lemma_kahn_initial(*g);
        assert(queue@.skip(0) == queue@);
    }
    let mut result: Vec<u32> = Vec::new();
    let mut qh: usize = 0;
    let ghost bound = kahn_bound(*g);
    while qh < queue.len()
        invariant
            qh <= queue@.len(),
            bound == kahn_bound(*g),
            result@.len() <= bound,
            kahn_state(*g, result@, queue@.skip(qh as int)),
            kahn_run(*g, result@, queue@.skip(qh as int), (bound - result@.len()) as nat)
                == kahn_order(*g),
            indeg@.dom() == vertices(*g),
            forall|v: u32| #[trigger] indeg@.contains_key(v) ==> indeg@[v] == indegree(
                g.edges@,
                v,
                result@,
            ),
        decreases bound - result@.len(),
    {
        let u = queue[qh];
        let ghost done = result@;
        let ghost rest = queue@.skip(qh as int);
        let ghost d2 = done.push(u);
        proof {
            lemma_kahn_size(*g, done, rest);
            assert(rest[0] == u);
            assert((done + rest)[done.len() as int] == u);
            assert(!done.contains(u)) by {
                if done.contains(u) {
                    let j = choose|j: int| 0 <= j < done.len() && done[j] == u;
                    assert((done + rest)[j] == u);
                }
            }
            assert(g.edges@.take(0) == Seq::<Edge>::empty());
            assert(g.edges@.skip(0) == g.edges@);
        }
        let mut ready: Vec<u32> = Vec::new();
        let mut i: usize = 0;
        while i < g.edges.len()
            invariant
                i <= g.edges@.len(),
                !done.contains(u),
                d2 == done.push(u),
                indeg@.dom() == vertices(*g),
                forall|v: u32| #[trigger] indeg@.contains_key(v) ==> indeg@[v] == indegree(
                    g.edges@.take(i as int),
                    v,
                    d2,
                ) + indegree(g.edges@.skip(i as int), v, done),
                ready@.no_duplicates(),
                forall|v: u32|
                    ready@.contains(v) <==> (has_edge(g.edges@.take(i as int), u, v)
                        && indeg@.contains_key(v) && indeg@[v] == 0),
            decreases g.edges@.len() - i,
        {
            let e = g.edges[i];
            let ghost t0 = g.edges@.take(i as int);
            let ghost t1 = g.edges@.take(i + 1);
            let ghost s0 = g.edges@.skip(i as int);
            let ghost s1 = g.edges@.skip(i + 1);
            let ghost m0 = indeg@;
            let ghost r0 = ready@;
            proof {
                assert(t1.drop_last() == t0);
                assert(t1.last() == e);
                assert(s0 == seq![e] + s1);
                lemma_indegree_concat(seq![e], s1, e.to_node_id, done);
                lemma_indegree_single(e, e.to_node_id, done);
                lemma_indegree_single(e, e.to_node_id, d2);
                lemma_push_contains(done, u, e.from_node_id);
                assert forall|v: u32| v != e.to_node_id implies indegree(t1, v, d2) == indegree(t0, v, d2)
                    && indegree(s0, v, done) == indegree(s1, v, done) by {
                    lemma_indegree_concat(seq![e], s1, v, done);
                    lemma_indegree_single(e, v, done);
                }
                assert forall|v: u32| has_edge(t1, u, v) <==> (has_edge(t0, u, v) || (e.from_node_id
                    == u && e.to_node_id == v)) by {
                    if has_edge(t0, u, v) {
                        let j = choose|j: int|
                            0 <= j < t0.len() && t0[j].from_node_id == u && t0[j].to_node_id == v;
                        assert(t1[j] == t0[j]);
                    }
                    if has_edge(t1, u, v) {
                        let j = choose|j: int|
                            0 <= j < t1.len() && t1[j].from_node_id == u && t1[j].to_node_id == v;
                        if j < i {
                            assert(t1[j] == t0[j]);
                        } else {
                            assert(t1[j] == e);
                        }
                    }
                    if e.from_node_id == u && e.to_node_id == v {
                        assert(t1[i as int] == e);
                    }
                }
            }
            if e.from_node_id == u {
                proof {
                    assert(vertices(*g).contains(e.to_node_id)) by {
                        assert(g.edges@[i as int] == e);
                        assert(edge_targets(g.edges@).contains(e.to_node_id));
                    }
                }
                let d: usize = match indeg.get(&e.to_node_id) {
                    Some(d) => *d,
                    None => 0,
                };
                assert(d >= 1);
                indeg.insert(e.to_node_id, d - 1);
                if d - 1 == 0 {
                    proof {
                        assert(!r0.contains(e.to_node_id));
                    }
                    ready.push(e.to_node_id);
                }
                proof {
                    assert forall|v: u32| ready@.contains(v) <==> (has_edge(t1, u, v)
                        && indeg@.contains_key(v) && indeg@[v] == 0) by {
                        if d - 1 == 0 {
                            lemma_push_contains(r0, e.to_node_id, v);
                        }
                        if v != e.to_node_id && m0.contains_key(v) {
                            assert(indeg@[v] == m0[v]);
                        }
                    }
                    if d - 1 == 0 {
                        assert(ready@.no_duplicates()) by {
                            assert forall|a: int, b: int| 0 <= a < ready@.len() && 0 <= b
                                < ready@.len() && a != b implies ready@[a] != ready@[b] by {
                                if a < r0.len() && b < r0.len() {
                                    assert(ready@[a] == r0[a] && ready@[b] == r0[b]);
                                } else if a < r0.len() {
                                    assert(r0.contains(ready@[a]));
                                } else if b < r0.len() {
                                    assert(r0.contains(ready@[b]));
                                }
                            }
                        }
                    }
                }
            } else {
                proof {
                    assert forall|v: u32| ready@.contains(v) <==> (has_edge(t1, u, v)
                        && indeg@.contains_key(v) && indeg@[v] == 0) by {}
                }
            }
            i = i + 1;
        }
        let mut freed = sort_ids(&ready);
        proof {
            let es = g.edges@;
            assert(es.take(es.len() as int) == es);
            assert(es.skip(es.len() as int) == Seq::<Edge>::empty());
            assert forall|v: u32| #[trigger] indeg@.contains_key(v) implies indeg@[v] == indegree(
                es,
                v,
                d2,
            ) by {
                assert(indegree(Seq::<Edge>::empty(), v, done) == 0);
            }
            assert forall|v: u32| freed@.to_set().contains(v) <==> newly_ready(*g, u, done).contains(
                v,
            ) by {
                assert(ready@.to_set().contains(v) <==> ready@.contains(v));
                if has_edge(es, u, v) {
                    crate::graph_spec::lemma_target_is_vertex(*g, u, v);
                }
            }
            assert(freed@.to_set() =~= newly_ready(*g, u, done));
            lemma_is_ascending_ids(freed@);
            lemma_kahn_step(*g, done, rest);
            assert(queue@.skip(qh + 1) == rest.drop_first());
        }
        let ghost q_before = queue@;
        queue.append(&mut freed);
        result.push(u);
        qh = qh + 1;
        proof {
            assert(queue@.skip(qh as int) =~= rest.drop_first() + ascending_ids(
                newly_ready(*g, u, done),
            ));
            assert(result@ == d2);
        }
    }
    proof {
        assert(queue@.skip(qh as int) =~= Seq::<u32>::empty());
    }
    result
}

/// Targets of the edges leaving `u`, in edge order.
fn successors(edges: &Vec<Edge>, u: u32) -> (s: Vec<u32>)
    ensures
        forall|v: u32| s@.contains(v) <==> has_edge(edges@, u, v),
{
    let mut s: Vec<u32> = Vec::new();
    let mut i: usize = 0;
    while i < edges.len()
        invariant
            i <= edges@.len(),
            forall|v: u32| s@.contains(v) <==> has_edge(edges@.take(i as int), u, v),
        decreases edges@.len() - i,
    {
        let e = edges[i];
        let ghost s0 = s@;
        if e.from_node_id == u {
            s.push(e.to_node_id);
        }
        proof {
            let t0 = edges@.take(i as int);
            let t1 = edges@.take(i + 1);
            assert forall|v: u32| s@.contains(v) <==> has_edge(t1, u, v) by {
                if e.from_node_id == u {
                    lemma_push_contains(s0, e.to_node_id, v);
                }
                if has_edge(t0, u, v) {
                    let k = choose|k: int|
                        0 <= k < t0.len() && t0[k].from_node_id == u && t0[k].to_node_id == v;
                    assert(t1[k] == t0[k]);
                }
                if has_edge(t1, u, v) {
                    let k = choose|k: int|
                        0 <= k < t1.len() && t1[k].from_node_id == u && t1[k].to_node_id == v;
                    if k < i {
                        assert(t1[k] == t0[k]);
                    } else {
                        assert(t1[k] == e);
                    }
                }
                if e.from_node_id == u && v == e.to_node_id {
                    assert(t1[i as int] == e);
                }
            }
        }
        i = i + 1;
    }
    assert(edges@.take(edges@.len() as int) == edges@);
    s
}

/// The ids of the nodes, each once, in the map's iteration order.
fn node_ids(nodes: &HashMap<u32, Node>) -> (ids: Vec<u32>)
    ensures
        ids@.to_set() == nodes@.dom(),
        ids@.no_duplicates(),
        ids@.len() == nodes@.len(),
{
    let mut ids: Vec<u32> = Vec::new();
    for k in it: nodes.keys()
        invariant
            it.seq() == vstd::std_specs::hash::spec_keys_iter(nodes).remaining(),
            ids@.len() == it.index(),
            forall|j: int| 0 <= j < it.index() ==> ids@[j] == *it.seq()[j],
    {
        ids.push(*k);
    }
    proof {
        let r = vstd::std_specs::hash::spec_keys_iter(nodes).remaining();
        assert(ids@ =~= r.unref());
    }
    ids
}

/// Check that `e` fits `nodes`, reporting the first fault.
fn edge_check(nodes: &HashMap<u32, Node>, e: Edge) -> (r: Result<(), String>)
    ensures
        r is Ok <==> edge_fault(nodes@, e) is None,
        r matches Err(m) ==> edge_fault(nodes@, e) == Some(m@),
{
    let from_outputs = match nodes.get(&e.from_node_id) {
        None => {
            return Err(text_with_number("Source node ", e.from_node_id, " does not exist"));
        },
        Some(from) => from.num_outputs,
    };
    if e.from_output_idx >= from_outputs {
        return Err(port_message(e.from_node_id, from_outputs, true, e.from_output_idx));
    }
    let to_inputs = match nodes.get(&e.to_node_id) {
        None => {
            return Err(text_with_number("Target node ", e.to_node_id, " does not exist"));
        },
        Some(to) => to.num_inputs,
    };
    if e.to_input_idx >= to_inputs {
        return Err(port_message(e.to_node_id, to_inputs, false, e.to_input_idx));
    }
    Ok(())
}

proof fn lemma_edges_fault_extends(nodes: Map<u32, Node>, edges: Seq<Edge>, k: int)
    requires
        0 <= k <= edges.len(),
        edges_fault(nodes, edges.take(k)) is Some,
    ensures
        edges_fault(nodes, edges) == edges_fault(nodes, edges.take(k)),
    decreases edges.len() - k,
{
    if k < edges.len() {
        assert(edges.take(k + 1).drop_last() == edges.take(k));
        lemma_edges_fault_extends(nodes, edges, k + 1);
    } else {
        assert(edges.take(k) == edges);
    }
}

/// Law: compiling an edge keeps every one of its fields: the engine reads
/// the same output port of the same node and feeds the same input port of
/// the same node.
pub proof fn law_connections_mirror_edges(edges: Seq<Edge>)
    ensures
        edges.map_values(|e: Edge| connection_of(e)).len() == edges.len(),
        forall|i: int|
            #![trigger edges[i]]
            0 <= i < edges.len() ==> {
                let c = edges.map_values(|e: Edge| connection_of(e))[i];
                &&& c.from_node_id == edges[i].from_node_id
                &&& c.from_output_idx == edges[i].from_output_idx
                &&& c.to_node_id == edges[i].to_node_id
                &&& c.to_input_idx == edges[i].to_input_idx
            },
{
}

/// Law: a node's descriptor carries its id, kind and port counts unchanged.
pub proof fn law_descriptor_mirrors_node(id: u32, n: Node)
    ensures
        desc_of(id, n).node_id == id,
        desc_of(id, n).node_type == n.node_type,
        desc_of(id, n).num_inputs == n.num_inputs,
        desc_of(id, n).num_outputs == n.num_outputs,
{
}

/// Law: removing node `id` keeps exactly the edges that neither start nor
/// end at it, and removing the wires from `a` to `b` keeps exactly the
/// other edges.
pub proof fn law_removal_keeps_exactly_the_others(edges: Seq<Edge>, id: u32, a: u32, b: u32)
    ensures
        forall|e: Edge|
            edges.filter(not_touching(id)).contains(e) <==> (edges.contains(e) && e.from_node_id
                != id && e.to_node_id != id),
        forall|e: Edge|
            edges.filter(not_between(a, b)).contains(e) <==> (edges.contains(e) && !(e.from_node_id
                == a && e.to_node_id == b)),
        edges.filter(not_touching(id)) == edges.filter(
            |e: Edge| e.from_node_id != id && e.to_node_id != id,
        ),
        edges.filter(not_between(a, b)) == edges.filter(
            |e: Edge| !(e.from_node_id == a && e.to_node_id == b),
        ),
{
    lemma_filter_membership(edges, not_touching(id));
    lemma_filter_membership(edges, not_between(a, b));
    assert(not_touching(id) =~= |e: Edge| e.from_node_id != id && e.to_node_id != id);
    assert(not_between(a, b) =~= |e: Edge| !(e.from_node_id == a && e.to_node_id == b));
}

/// What a filter keeps: exactly the items of `s` that satisfy `p`.
pub proof fn lemma_filter_membership<A>(s: Seq<A>, p: spec_fn(A) -> bool)
    ensures
        forall|x: A| #[trigger] s.filter(p).contains(x) <==> (s.contains(x) && p(x)),
{
    assert forall|x: A| #[trigger] s.filter(p).contains(x) <==> (s.contains(x) && p(x)) by {
        if s.filter(p).contains(x) {
            s.lemma_filter_contains_rev(p, x);
            let k = choose|k: int| 0 <= k < s.filter(p).len() && s.filter(p)[k] == x;
            s.lemma_filter_pred(p, k);
        }
        if s.contains(x) && p(x) {
            let i = choose|i: int| 0 <= i < s.len() && s[i] == x;
            s.lemma_filter_contains(p, i);
        }
    }
}

/// Law: removing a node just added undoes the addition, in a well-formed
/// graph: the node map is back to what it was and no edge is lost.
pub proof fn law_remove_node_undoes_add(g: ShadowGraph, node: Node)
    requires
        g.well_formed(),
        !g.nodes@.contains_key(node.id),
    ensures
        g.nodes@.insert(node.id, node).remove(node.id) == g.nodes@,
        g.edges@.filter(not_touching(node.id)) == g.edges@,
{
    assert(g.nodes@.insert(node.id, node).remove(node.id) =~= g.nodes@);
    assert forall|i: int| 0 <= i < g.edges@.len() implies (not_touching(node.id))(#[trigger] g.edges@[i]) by {
        let e = g.edges@[i];
        assert(g.nodes@.contains_key(e.from_node_id));
        assert(g.nodes@.contains_key(e.to_node_id));
    }
    lemma_filter_all(g.edges@, not_touching(node.id));
}

/// Law: removing the wires between two nodes right after adding the first
/// one between them undoes the addition.
pub proof fn law_remove_edge_undoes_add(edges: Seq<Edge>, e: Edge)
    requires
        !has_edge(edges, e.from_node_id, e.to_node_id),
    ensures
        edges.push(e).filter(not_between(e.from_node_id, e.to_node_id)) == edges,
{
    let p = not_between(e.from_node_id, e.to_node_id);
    assert forall|i: int| 0 <= i < edges.len() implies p(#[trigger] edges[i]) by {
        if !p(edges[i]) {
            assert(has_edge(edges, e.from_node_id, e.to_node_id));
        }
    }
    lemma_filter_all(edges, p);
    edges.lemma_filter_push(e, p);
}

/// "Node <id> has <count> outputs|inputs, requested idx <idx>".
fn port_message(id: u32, count: u32, outputs: bool, idx: u32) -> (s: String)
    ensures
        s@ == if outputs {
            msg_outputs(id, count, idx)
        } else {
            msg_inputs(id, count, idx)
        },
{
    let mut s = text_with_number("Node ", id, " has ");
    let c = render_decimal(count);
    s.append(c.as_str());
    if outputs {
        s.append(" outputs, requested idx ");
    } else {
        s.append(" inputs, requested idx ");
    }
    let i = render_decimal(idx);
    s.append(i.as_str());
    proof {
        if outputs {
            assert(s@ =~= msg_outputs(id, count, idx));
        } else {
            assert(s@ =~= msg_inputs(id, count, idx));
        }
    }
    s
}

/// The edges kept by `not_touching(a)` when `touching`, else by
/// `not_between(a, b)`, in the order they had.
fn edges_filtered(edges: &Vec<Edge>, a: u32, b: u32, touching: bool) -> (kept: Vec<Edge>)
    ensures
        kept@ == edges@.filter(if touching { not_touching(a) } else { not_between(a, b) }),
{
    let ghost p = if touching { not_touching(a) } else { not_between(a, b) };
    let mut kept: Vec<Edge> = Vec::new();
    let mut i: usize = 0;
    while i < edges.len()
        invariant
            i <= edges@.len(),
            kept@ == edges@.take(i as int).filter(p),
            p == (if touching { not_touching(a) } else { not_between(a, b) }),
        decreases edges@.len() - i,
    {
        let e = edges[i];
        let keep = if touching {
            e.from_node_id != a && e.to_node_id != a
        } else {
            !(e.from_node_id == a && e.to_node_id == b)
        };
        proof {
            assert(edges@.take(i + 1) == edges@.take(i as int).push(e));
            edges@.take(i as int).lemma_filter_push(e, p);
        }
        if keep {
            kept.push(e);
        }
        i = i + 1;
    }
    assert(edges@.take(edges@.len() as int) == edges@);
    kept
}

/// Filtering keeps the length only when it keeps every item.
proof fn lemma_filter_same_len(s: Seq<Edge>, p: spec_fn(Edge) -> bool)
    requires
        s.filter(p).len() == s.len(),
    ensures
        s.filter(p) == s,
        forall|i: int| 0 <= i < s.len() ==> p(#[trigger] s[i]),
    decreases s.len(),
{
    reveal(Seq::filter);
    if s.len() > 0 {
        s.drop_last().lemma_filter_len(p);
        if !p(s.last()) {
            assert(false);
        }
        lemma_filter_same_len(s.drop_last(), p);
        assert(s.drop_last().push(s.last()) == s);
        assert forall|i: int| 0 <= i < s.len() implies p(#[trigger] s[i]) by {
            if i < s.len() - 1 {
                assert(s[i] == s.drop_last()[i]);
            }
        }
    }
}

/// When some item fails `p`, filtering shortens the sequence.
proof fn lemma_filter_shorter(s: Seq<Edge>, p: spec_fn(Edge) -> bool)
    requires
        s.filter(p).len() != s.len(),
    ensures
        exists|i: int| 0 <= i < s.len() && !p(#[trigger] s[i]),
{
    s.lemma_filter_len(p);
    if forall|i: int| 0 <= i < s.len() ==> p(#[trigger] s[i]) {
        lemma_filter_all(s, p);
    }
}

proof fn lemma_filter_all(s: Seq<Edge>, p: spec_fn(Edge) -> bool)
    requires
        forall|i: int| 0 <= i < s.len() ==> p(#[trigger] s[i]),
    ensures
        s.filter(p) == s,
    decreases s.len(),
{
    reveal(Seq::filter);
    if s.len() > 0 {
        assert forall|i: int| 0 <= i < s.drop_last().len() implies p(#[trigger] s.drop_last()[i]) by {
            assert(s.drop_last()[i] == s[i]);
        }
        lemma_filter_all(s.drop_last(), p);
        assert(s.drop_last().push(s.last()) == s);
    }
}

} // verus!
