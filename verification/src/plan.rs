//! Starting an engine from the front end's patch: the node and wire lists
//! are built into a checked graph, compiled, and turned into the list of
//! parameter writes the engine receives before it runs.

use vstd::prelude::*;
use vstd::string::StringExecFns;
use std::collections::HashMap;
use crate::commands::{
    engine_type_named, mode_key, mode_param_hash, msg_multiple_outputs, msg_no_output,
    msg_unknown_type, output_ids, parse_engine_type, resolve_output_node_id, EngineEdgeInfo,
    EngineNodeInfo, ParamPair,
};
use crate::ffi::{NodeConnection, NodeDesc, NodeType};
use crate::graph_spec::{has_reachable_cycle, is_walk, revisits};
use crate::shadow_graph::{
    add_edge_refusal, connection_of, desc_of, msg_cycle, msg_no_output_node,
    lemma_well_formed_edges_fit, msg_inputs, msg_max_edges,
    msg_max_nodes, msg_no_source, msg_no_target, msg_node_exists, msg_outputs, Edge, Node,
    lemma_filter_membership,
    ShadowGraph, MAX_EDGES, MAX_NODES,
};
use crate::topo_spec::{law_sort_succeeds_iff_valid, sort_outcome};

verus! {

/// What a graph records of a node besides its id: kind, input count and
/// output count.
pub open spec fn shape_of(n: Node) -> (NodeType, u32, u32) {
    (n.node_type, n.num_inputs, n.num_outputs)
}

/// `g` holds exactly the nodes of `shapes`, each under its own id and with
/// no parameters.
pub open spec fn holds_nodes(g: ShadowGraph, shapes: Map<u32, (NodeType, u32, u32)>) -> bool {
    &&& g.nodes@.dom() == shapes.dom()
    &&& forall|id: u32|
        #![trigger g.nodes@[id]]
        shapes.contains_key(id) ==> {
            &&& g.nodes@[id].id == id
            &&& shape_of(g.nodes@[id]) == shapes[id]
            &&& g.nodes@[id].parameters@ == Map::<u32, u32>::empty()
        }
}

/// Why a graph whose nodes are `shapes` and which already has `count`
/// edges refuses `e`, or `None` when it takes it (the checks of
/// `ShadowGraph::add_edge`, in its order).
pub open spec fn edge_refusal(shapes: Map<u32, (NodeType, u32, u32)>, count: nat, e: Edge) -> Option<
    Seq<char>,
> {
    if count >= MAX_EDGES {
        Some(msg_max_edges())
    } else if !shapes.contains_key(e.from_node_id) {
        Some(msg_no_source(e.from_node_id))
    } else if e.from_output_idx >= shapes[e.from_node_id].2 {
        Some(msg_outputs(e.from_node_id, shapes[e.from_node_id].2, e.from_output_idx))
    } else if !shapes.contains_key(e.to_node_id) {
        Some(msg_no_target(e.to_node_id))
    } else if e.to_input_idx >= shapes[e.to_node_id].1 {
        Some(msg_inputs(e.to_node_id, shapes[e.to_node_id].1, e.to_input_idx))
    } else {
        None
    }
}

/// The first refusal met when `edges` are added in order to a graph whose
/// nodes are `shapes` and which has no edges yet.
pub open spec fn edges_refusal(shapes: Map<u32, (NodeType, u32, u32)>, edges: Seq<Edge>) -> Option<
    Seq<char>,
>
    decreases edges.len(),
{
    if edges.len() == 0 {
        None
    } else {
        match edges_refusal(shapes, edges.drop_last()) {
            Some(m) => Some(m),
            None => edge_refusal(shapes, (edges.len() - 1) as nat, edges.last()),
        }
    }
}

/// The graph edge for a wire of the front end.
pub open spec fn edge_of(w: EngineEdgeInfo) -> Edge {
    Edge {
        from_node_id: w.from_node,
        from_output_idx: w.from_port,
        to_node_id: w.to_node,
        to_input_idx: w.to_port,
    }
}

/// The graph edges for the front end's wires, in their order.
pub open spec fn edge_list(wires: Seq<EngineEdgeInfo>) -> Seq<Edge> {
    wires.map_values(|w: EngineEdgeInfo| edge_of(w))
}

/// The node shapes the front end's nodes give, later ids overwriting
/// earlier ones.
pub open spec fn info_shapes(infos: Seq<EngineNodeInfo>) -> Map<u32, (NodeType, u32, u32)>
    decreases infos.len(),
{
    if infos.len() == 0 {
        Map::empty()
    } else {
        let n = infos.last();
        info_shapes(infos.drop_last()).insert(
            n.id,
            (engine_type_named(n.engine_type@).unwrap(), n.num_inputs, n.num_outputs),
        )
    }
}

/// The first refusal met when the front end's nodes are added in order to
/// an empty graph: an unknown kind name, then a repeated id, then the node
/// limit.
pub open spec fn info_refusal(infos: Seq<EngineNodeInfo>) -> Option<Seq<char>>
    decreases infos.len(),
{
    if infos.len() == 0 {
        None
    } else {
        match info_refusal(infos.drop_last()) {
            Some(m) => Some(m),
            None => {
                let n = infos.last();
                let before = info_shapes(infos.drop_last());
                if engine_type_named(n.engine_type@) is None {
                    Some(msg_unknown_type(n.engine_type@))
                } else if before.contains_key(n.id) {
                    Some(msg_node_exists(n.id))
                } else if before.len() >= MAX_NODES {
                    Some(msg_max_nodes())
                } else {
                    None
                }
            },
        }
    }
}

/// The first refusal met when building the graph of a patch: its nodes
/// first, then its wires.
pub open spec fn build_refusal(infos: Seq<EngineNodeInfo>, wires: Seq<EngineEdgeInfo>) -> Option<
    Seq<char>,
> {
    match info_refusal(infos) {
        Some(m) => Some(m),
        None => edges_refusal(info_shapes(infos), edge_list(wires)),
    }
}

/// Some cycle can be reached by walking `edges` from one of `ids`.
pub open spec fn walk_closes(ids: Set<u32>, edges: Seq<Edge>, w: Seq<u32>) -> bool {
    &&& is_walk(edges, w)
    &&& ids.contains(w[0])
    &&& exists|j: int| 0 <= j < w.len() - 1 && #[trigger] w[j] == w[w.len() - 1]
}

/// A cycle can be reached from one of `ids` along `edges`.
pub open spec fn cycle_from(ids: Set<u32>, edges: Seq<Edge>) -> bool {
    exists|w: Seq<u32>| walk_closes(ids, edges, w)
}

proof fn lemma_cycle_from_graph(g: ShadowGraph)
    ensures
        has_reachable_cycle(g) == cycle_from(g.nodes@.dom(), g.edges@),
{
    if has_reachable_cycle(g) {
        let w = choose|w: Seq<u32>| revisits(g, w);
        assert(walk_closes(g.nodes@.dom(), g.edges@, w));
    }
    if cycle_from(g.nodes@.dom(), g.edges@) {
        let w = choose|w: Seq<u32>| walk_closes(g.nodes@.dom(), g.edges@, w);
        assert(revisits(g, w));
    }
}

proof fn lemma_output_ids_in_shapes(infos: Seq<EngineNodeInfo>)
    ensures
        forall|k: int|
            0 <= k < output_ids(infos).len() ==> info_shapes(infos).contains_key(
                #[trigger] output_ids(infos)[k],
            ),
    decreases infos.len(),
{
    if infos.len() > 0 {
        let rest = infos.drop_last();
        lemma_output_ids_in_shapes(rest);
        assert forall|k: int| 0 <= k < output_ids(infos).len() implies info_shapes(infos).contains_key(
            #[trigger] output_ids(infos)[k],
        ) by {
            if k < output_ids(rest).len() {
                assert(info_shapes(rest).contains_key(output_ids(rest)[k]));
                assert(output_ids(infos)[k] == output_ids(rest)[k]);
            }
        }
    }
}

proof fn lemma_edge_refusal_matches(g: ShadowGraph, shapes: Map<u32, (NodeType, u32, u32)>, e: Edge)
    requires
        holds_nodes(g, shapes),
    ensures
        add_edge_refusal(g, e) == edge_refusal(shapes, g.edges@.len(), e),
{
    if g.nodes@.contains_key(e.from_node_id) {
        assert(shapes.contains_key(e.from_node_id));
        assert(shape_of(g.nodes@[e.from_node_id]) == shapes[e.from_node_id]);
    }
    if g.nodes@.contains_key(e.to_node_id) {
        assert(shapes.contains_key(e.to_node_id));
        assert(shape_of(g.nodes@[e.to_node_id]) == shapes[e.to_node_id]);
    }
}

proof fn lemma_info_refusal_extends(infos: Seq<EngineNodeInfo>, k: int)
    requires
        0 <= k <= infos.len(),
        info_refusal(infos.take(k)) is Some,
    ensures
        info_refusal(infos) == info_refusal(infos.take(k)),
    decreases infos.len() - k,
{
    if k < infos.len() {
        assert(infos.take(k + 1).drop_last() == infos.take(k));
        lemma_info_refusal_extends(infos, k + 1);
    } else {
        assert(infos.take(k) == infos);
    }
}

proof fn lemma_edges_refusal_extends(
    shapes: Map<u32, (NodeType, u32, u32)>,
    edges: Seq<Edge>,
    k: int,
)
    requires
        0 <= k <= edges.len(),
        edges_refusal(shapes, edges.take(k)) is Some,
    ensures
        edges_refusal(shapes, edges) == edges_refusal(shapes, edges.take(k)),
    decreases edges.len() - k,
{
    if k < edges.len() {
        assert(edges.take(k + 1).drop_last() == edges.take(k));
        lemma_edges_refusal_extends(shapes, edges, k + 1);
    } else {
        assert(edges.take(k) == edges);
    }
}

/// Build the graph of a patch: add the nodes in order, each with the kind
/// its name stands for and no parameters, then the wires in order. The
/// first refusal is returned.
pub fn build_graph(nodes: &[EngineNodeInfo], wires: &[EngineEdgeInfo], output_id: u32) -> (r:
    Result<ShadowGraph, String>)
    ensures
        match r {
            Ok(g) => {
                &&& build_refusal(nodes@, wires@) is None
                &&& holds_nodes(g, info_shapes(nodes@))
                &&& g.edges@ == edge_list(wires@)
                &&& g.edges@.len() == wires@.len()
                &&& forall|i: int|
                    0 <= i < wires@.len() ==> {
                        &&& (#[trigger] g.edges@[i]).from_node_id == wires@[i].from_node
                        &&& g.edges@[i].from_output_idx == wires@[i].from_port
                        &&& g.edges@[i].to_node_id == wires@[i].to_node
                        &&& g.edges@[i].to_input_idx == wires@[i].to_port
                    }
                &&& g.output_node_id == output_id
                &&& g.well_formed()
            },
            Err(e) => build_refusal(nodes@, wires@) == Some(e@),
        },
{
    let mut g = ShadowGraph::new(output_id);
    let mut i: usize = 0;
    while i < nodes.len()
        invariant
            i <= nodes@.len(),
            info_refusal(nodes@.take(i as int)) is None,
            holds_nodes(g, info_shapes(nodes@.take(i as int))),
            g.edges@ == Seq::<Edge>::empty(),
            g.output_node_id == output_id,
            g.well_formed(),
        decreases nodes@.len() - i,
    {
        let n = &nodes[i];
        let ghost before = nodes@.take(i as int);
        proof {
            assert(nodes@.take(i + 1).drop_last() == before);
            assert(nodes@.take(i + 1).last() == *n);
        }
        let t = match parse_engine_type(n.engine_type.as_str()) {
            Ok(t) => t,
            Err(e) => {
                proof {
                    lemma_info_refusal_extends(nodes@, i + 1);
                }
                return Err(e);
            },
        };
        let node = Node {
            id: n.id,
            node_type: t,
            num_inputs: n.num_inputs,
            num_outputs: n.num_outputs,
            parameters: HashMap::new(),
        };
        match g.add_node(node) {
            Ok(()) => {},
            Err(e) => {
                proof {
                    assert(g.nodes@.dom() == info_shapes(before).dom());
                    lemma_info_refusal_extends(nodes@, i + 1);
                }
                return Err(e);
            },
        }
        proof {
            let shapes = info_shapes(nodes@.take(i + 1));
            assert(shapes == info_shapes(before).insert(n.id, (t, n.num_inputs, n.num_outputs)));
            assert(g.nodes@.dom() =~= shapes.dom());
        }
        i = i + 1;
    }
    proof {
        assert(nodes@.take(nodes@.len() as int) == nodes@);
    }
    let ghost shapes = info_shapes(nodes@);
    let ghost all = edge_list(wires@);
    let mut j: usize = 0;
    while j < wires.len()
        invariant
            j <= wires@.len(),
            all == edge_list(wires@),
            info_refusal(nodes@) is None,
            shapes == info_shapes(nodes@),
            edges_refusal(shapes, all.take(j as int)) is None,
            holds_nodes(g, shapes),
            g.edges@ == all.take(j as int),
            g.output_node_id == output_id,
            g.well_formed(),
        decreases wires@.len() - j,
    {
        let w = wires[j];
        let e = Edge {
            from_node_id: w.from_node,
            from_output_idx: w.from_port,
            to_node_id: w.to_node,
            to_input_idx: w.to_port,
        };
        proof {
            assert(all[j as int] == e);
            assert(all.take(j + 1).drop_last() == all.take(j as int));
            assert(all.take(j + 1).last() == e);
            lemma_edge_refusal_matches(g, shapes, e);
        }
        match g.add_edge(e) {
            Ok(()) => {},
            Err(msg) => {
                proof {
                    lemma_edges_refusal_extends(shapes, all, j + 1);
                }
                return Err(msg);
            },
        }
        proof {
            assert(g.edges@ == all.take(j + 1));
        }
        j = j + 1;
    }
    proof {
        assert(all.take(wires@.len() as int) == all);
    }
    Ok(g)
}

/// The value of a parameter write.
#[derive(Debug, Clone, Copy, PartialEq, Eq)]
pub enum ParamValue {
    /// The IEEE-754 bit pattern of the `f32` to write.
    Bits(u32),
    /// A sub-type selector, written as the `f32` of this whole number.
    Selector(u32),
}

/// One parameter write of node `node_id`, keyed by `hash`.
#[derive(Debug, Clone, Copy, PartialEq, Eq)]
pub struct ParamWrite {
    pub node_id: u32,
    pub hash: u32,
    pub value: ParamValue,
}

/// The writes for one node: its parameters in order, then its sub-type
/// selector when its kind has one.
pub open spec fn node_writes(n: EngineNodeInfo) -> Seq<ParamWrite> {
    n.params@.map_values(
        |p: ParamPair| ParamWrite { node_id: n.id, hash: p.hash, value: ParamValue::Bits(p.value_bits) },
    ) + match mode_key(n.engine_type@) {
        Some(h) => seq![ParamWrite { node_id: n.id, hash: h, value: ParamValue::Selector(n.engine_subtype) }],
        None => Seq::empty(),
    }
}

/// The writes for all nodes, node by node.
pub open spec fn initial_writes(infos: Seq<EngineNodeInfo>) -> Seq<ParamWrite>
    decreases infos.len(),
{
    if infos.len() == 0 {
        Seq::empty()
    } else {
        initial_writes(infos.drop_last()) + node_writes(infos.last())
    }
}

/// The parameter writes an engine receives before it runs: every node's
/// parameters, then its sub-type selector, node by node.
pub fn initial_params(nodes: &[EngineNodeInfo]) -> (r: Vec<ParamWrite>)
    ensures
        r@ == initial_writes(nodes@),
{
    let mut out: Vec<ParamWrite> = Vec::new();
    let mut i: usize = 0;
    while i < nodes.len()
        invariant
            i <= nodes@.len(),
            out@ == initial_writes(nodes@.take(i as int)),
        decreases nodes@.len() - i,
    {
        let n = &nodes[i];
        let ghost start = out@;
        let mut k: usize = 0;
        while k < n.params.len()
            invariant
                k <= n.params@.len(),
                out@ == start + n.params@.take(k as int).map_values(
                    |p: ParamPair| ParamWrite { node_id: n.id, hash: p.hash, value: ParamValue::Bits(p.value_bits) },
                ),
            decreases n.params@.len() - k,
        {
            let p = n.params[k];
            out.push(ParamWrite { node_id: n.id, hash: p.hash, value: ParamValue::Bits(p.value_bits) });
            proof {
                assert(n.params@.take(k + 1).drop_last() == n.params@.take(k as int));
                assert(n.params@.take(k + 1).map_values(
                    |p: ParamPair| ParamWrite { node_id: n.id, hash: p.hash, value: ParamValue::Bits(p.value_bits) },
                ) =~= n.params@.take(k as int).map_values(
                    |p: ParamPair| ParamWrite { node_id: n.id, hash: p.hash, value: ParamValue::Bits(p.value_bits) },
                ).push(ParamWrite { node_id: n.id, hash: p.hash, value: ParamValue::Bits(p.value_bits) }));
            }
            k = k + 1;
        }
        proof {
            assert(n.params@.take(n.params@.len() as int) == n.params@);
        }
        let ghost with_params = out@;
        match mode_param_hash(n.engine_type.as_str()) {
            Some(h) => {
                out.push(ParamWrite { node_id: n.id, hash: h, value: ParamValue::Selector(n.engine_subtype) });
            },
            None => {},
        }
        proof {
            assert(nodes@.take(i + 1).drop_last() == nodes@.take(i as int));
            assert(nodes@.take(i + 1).last() == *n);
            assert(out@ =~= start + node_writes(*n));
        }
        i = i + 1;
    }
    proof {
        assert(nodes@.take(nodes@.len() as int) == nodes@);
    }
    out
}

/// Everything starting an engine for a patch needs: the output node, the
/// checked graph, its compiled form and the initial parameter writes.
#[derive(Debug, Clone)]
pub struct EnginePlan {
    pub output_id: u32,
    pub graph: ShadowGraph,
    pub nodes: Vec<NodeDesc>,
    pub connections: Vec<NodeConnection>,
    pub order: Vec<u32>,
    pub params: Vec<ParamWrite>,
}

/// Plan the start of an engine for a patch: find its only Output node,
/// build its graph, refuse a reachable cycle, compile, and list the initial
/// parameter writes. The first refusal is returned.
pub fn plan_engine_start(nodes: &[EngineNodeInfo], wires: &[EngineEdgeInfo]) -> (r: Result<
    EnginePlan,
    String,
>)
    ensures
        match r {
            Ok(p) => {
                &&& output_ids(nodes@).len() == 1
                &&& p.output_id == output_ids(nodes@)[0]
                &&& build_refusal(nodes@, wires@) is None
                &&& !cycle_from(info_shapes(nodes@).dom(), edge_list(wires@))
                &&& holds_nodes(p.graph, info_shapes(nodes@))
                &&& p.graph.edges@ == edge_list(wires@)
                &&& p.graph.output_node_id == p.output_id
                &&& p.graph.well_formed()
                &&& sort_outcome(p.graph) == Ok::<Seq<u32>, Seq<char>>(p.order@)
                &&& p.nodes@.len() == p.order@.len()
                &&& forall|i: int|
                    0 <= i < p.order@.len() ==> #[trigger] p.nodes@[i] == desc_of(
                        p.order@[i],
                        p.graph.nodes@[p.order@[i]],
                    )
                &&& p.connections@ == p.graph.edges@.map_values(|e: Edge| connection_of(e))
                &&& p.params@ == initial_writes(nodes@)
            },
            Err(e) => if output_ids(nodes@).len() == 0 {
                e@ == msg_no_output()
            } else if output_ids(nodes@).len() >= 2 {
                e@ == msg_multiple_outputs()
            } else {
                match build_refusal(nodes@, wires@) {
                    Some(m) => e@ == m,
                    None => {
                        &&& cycle_from(info_shapes(nodes@).dom(), edge_list(wires@))
                        &&& e@ == msg_cycle()
                    },
                }
            },
        },
{
    let output_id = match resolve_output_node_id(nodes) {
        Ok(id) => id,
        Err(e) => {
            return Err(e);
        },
    };
    let graph = match build_graph(nodes, wires, output_id) {
        Ok(g) => g,
        Err(e) => {
            return Err(e);
        },
    };
    proof {
        lemma_cycle_from_graph(graph);
        lemma_output_ids_in_shapes(nodes@);
        assert(graph.nodes@.contains_key(output_id));
        lemma_well_formed_edges_fit(graph);
        law_sort_succeeds_iff_valid(graph);
    }
    match graph.validate() {
        Ok(()) => {},
        Err(e) => {
            return Err(e);
        },
    }
    let (descs, conns, order) = match graph.compile() {
        Ok(c) => c,
        Err(e) => {
            return Err(e);
        },
    };
    let params = initial_params(nodes);
    Ok(EnginePlan { output_id, graph, nodes: descs, connections: conns, order, params })
}

/// A node of the graph editor: its id, the catalog template it was made
/// from, and what that template gives it.
#[derive(Debug, Clone, Copy, PartialEq, Eq)]
pub struct EditorNode {
    pub id: usize,
    pub template_idx: usize,
    pub engine_type: NodeType,
    pub num_inputs: usize,
    pub num_outputs: usize,
}

/// A wire of the graph editor, from an output port to an input port.
#[derive(Debug, Clone, Copy, PartialEq, Eq)]
pub struct EditorWire {
    pub from_node: usize,
    pub from_port: usize,
    pub to_node: usize,
    pub to_port: usize,
}

/// The node shapes the editor's nodes give, keyed by their ids taken as
/// `u32`.
pub open spec fn editor_shapes(nodes: Seq<EditorNode>) -> Map<u32, (NodeType, u32, u32)>
    decreases nodes.len(),
{
    if nodes.len() == 0 {
        Map::empty()
    } else {
        let n = nodes.last();
        editor_shapes(nodes.drop_last()).insert(
            n.id as u32,
            (n.engine_type, n.num_inputs as u32, n.num_outputs as u32),
        )
    }
}

/// The first refusal met when the editor's nodes are added in order to an
/// empty graph: a repeated id, then the node limit.
pub open spec fn editor_refusal(nodes: Seq<EditorNode>) -> Option<Seq<char>>
    decreases nodes.len(),
{
    if nodes.len() == 0 {
        None
    } else {
        match editor_refusal(nodes.drop_last()) {
            Some(m) => Some(m),
            None => {
                let id = nodes.last().id as u32;
                let before = editor_shapes(nodes.drop_last());
                if before.contains_key(id) {
                    Some(msg_node_exists(id))
                } else if before.len() >= MAX_NODES {
                    Some(msg_max_nodes())
                } else {
                    None
                }
            },
        }
    }
}

/// The graph edge for an editor wire, ids and ports taken as `u32`.
pub open spec fn editor_edge(w: EditorWire) -> Edge {
    Edge {
        from_node_id: w.from_node as u32,
        from_output_idx: w.from_port as u32,
        to_node_id: w.to_node as u32,
        to_input_idx: w.to_port as u32,
    }
}

pub open spec fn editor_edges(wires: Seq<EditorWire>) -> Seq<Edge> {
    wires.map_values(|w: EditorWire| editor_edge(w))
}

/// The id of the editor's first Output node, 0 when it has none.
pub open spec fn editor_output(nodes: Seq<EditorNode>) -> u32
    decreases nodes.len(),
{
    if nodes.len() == 0 {
        0
    } else if nodes[0].engine_type == NodeType::Output {
        nodes[0].id as u32
    } else {
        editor_output(nodes.drop_first())
    }
}

pub open spec fn msg_no_nodes() -> Seq<char> {
    "Add some nodes first!"@
}

/// Why the editor cannot start an engine for its patch, as it reports it,
/// when the refusal comes before the cycle check.
pub open spec fn editor_build_refusal(nodes: Seq<EditorNode>, wires: Seq<EditorWire>) -> Option<
    Seq<char>,
> {
    if nodes.len() == 0 {
        Some(msg_no_nodes())
    } else {
        match editor_refusal(nodes) {
            Some(m) => Some("Graph error: "@ + m),
            None => match edges_refusal(editor_shapes(nodes), editor_edges(wires)) {
                Some(m) => Some("Edge error: "@ + m),
                None => None,
            },
        }
    }
}

proof fn lemma_editor_refusal_extends(nodes: Seq<EditorNode>, k: int)
    requires
        0 <= k <= nodes.len(),
        editor_refusal(nodes.take(k)) is Some,
    ensures
        editor_refusal(nodes) == editor_refusal(nodes.take(k)),
    decreases nodes.len() - k,
{
    if k < nodes.len() {
        assert(nodes.take(k + 1).drop_last() == nodes.take(k));
        lemma_editor_refusal_extends(nodes, k + 1);
    } else {
        assert(nodes.take(k) == nodes);
    }
}

/// Prefix `what` to a refusal.
fn prefixed(what: &str, e: String) -> (r: String)
    ensures
        r@ == what@ + e@,
{
    let mut msg = what.to_owned();
    msg.append(e.as_str());
    msg
}

/// The id of the first Output node of the editor's patch, 0 when it has
/// none.
pub fn editor_output_id(nodes: &[EditorNode]) -> (id: u32)
    ensures
        id == editor_output(nodes@),
{
    let mut i: usize = 0;
    proof {
        assert(nodes@.skip(0) == nodes@);
    }
    while i < nodes.len()
        invariant
            i <= nodes@.len(),
            editor_output(nodes@) == editor_output(nodes@.skip(i as int)),
        decreases nodes@.len() - i,
    {
        let n = nodes[i];
        proof {
            assert(nodes@.skip(i as int)[0] == n);
            assert(nodes@.skip(i as int).drop_first() == nodes@.skip(i + 1));
        }
        if matches!(n.engine_type, NodeType::Output) {
            return n.id as u32;
        }
        i = i + 1;
    }
    0
}

/// What the graph editor hands the engine when it starts: the output node,
/// the checked graph and its compiled form.
#[derive(Debug, Clone)]
pub struct EditorPlan {
    pub output_id: u32,
    pub graph: ShadowGraph,
    pub nodes: Vec<NodeDesc>,
    pub connections: Vec<NodeConnection>,
    pub order: Vec<u32>,
}

/// Plan the editor's engine start: refuse an empty patch, take the first
/// Output node (id 0 when there is none) as the output, build the graph,
/// validate it (the output node must exist, no cycle may be reachable) and
/// compile it. Each refusal is reported with the stage that met it.
pub fn plan_editor_start(nodes: &[EditorNode], wires: &[EditorWire]) -> (r: Result<EditorPlan, String>)
    ensures
        match r {
            Ok(p) => {
                &&& editor_build_refusal(nodes@, wires@) is None
                &&& editor_shapes(nodes@).contains_key(editor_output(nodes@))
                &&& !cycle_from(editor_shapes(nodes@).dom(), editor_edges(wires@))
                &&& holds_nodes(p.graph, editor_shapes(nodes@))
                &&& p.graph.edges@ == editor_edges(wires@)
                &&& p.graph.edges@.len() == wires@.len()
                &&& forall|i: int|
                    0 <= i < wires@.len() ==> {
                        &&& (#[trigger] p.graph.edges@[i]).from_node_id == wires@[i].from_node as u32
                        &&& p.graph.edges@[i].from_output_idx == wires@[i].from_port as u32
                        &&& p.graph.edges@[i].to_node_id == wires@[i].to_node as u32
                        &&& p.graph.edges@[i].to_input_idx == wires@[i].to_port as u32
                    }
                &&& p.graph.output_node_id == editor_output(nodes@)
                &&& p.graph.well_formed()
                &&& p.output_id == editor_output(nodes@)
                &&& sort_outcome(p.graph) == Ok::<Seq<u32>, Seq<char>>(p.order@)
                &&& p.nodes@.len() == p.order@.len()
                &&& forall|i: int|
                    0 <= i < p.order@.len() ==> #[trigger] p.nodes@[i] == desc_of(
                        p.order@[i],
                        p.graph.nodes@[p.order@[i]],
                    )
                &&& p.connections@ == p.graph.edges@.map_values(|e: Edge| connection_of(e))
            },
            Err(e) => match editor_build_refusal(nodes@, wires@) {
                Some(m) => e@ == m,
                None => if !editor_shapes(nodes@).contains_key(editor_output(nodes@)) {
                    e@ == "Validation error: "@ + msg_no_output_node(editor_output(nodes@))
                } else {
                    &&& cycle_from(editor_shapes(nodes@).dom(), editor_edges(wires@))
                    &&& e@ == "Validation error: "@ + msg_cycle()
                },
            },
        },
{
    if nodes.len() == 0 {
        return Err(String::from_str("Add some nodes first!"));
    }
    let output_id = editor_output_id(nodes);
    let mut g = ShadowGraph::new(output_id);
    let mut i: usize = 0;
    while i < nodes.len()
        invariant
            0 < nodes@.len(),
            i <= nodes@.len(),
            editor_refusal(nodes@.take(i as int)) is None,
            holds_nodes(g, editor_shapes(nodes@.take(i as int))),
            g.edges@ == Seq::<Edge>::empty(),
            g.output_node_id == editor_output(nodes@),
            g.well_formed(),
        decreases nodes@.len() - i,
    {
        let n = nodes[i];
        let ghost before = nodes@.take(i as int);
        proof {
            assert(nodes@.take(i + 1).drop_last() == before);
            assert(nodes@.take(i + 1).last() == n);
        }
        let node = Node {
            id: n.id as u32,
            node_type: n.engine_type,
            num_inputs: n.num_inputs as u32,
            num_outputs: n.num_outputs as u32,
            parameters: HashMap::new(),
        };
        match g.add_node(node) {
            Ok(()) => {},
            Err(e) => {
                proof {
                    assert(g.nodes@.dom() == editor_shapes(before).dom());
                    lemma_editor_refusal_extends(nodes@, i + 1);
                }
                return Err(prefixed("Graph error: ", e));
            },
        }
        proof {
            let shapes = editor_shapes(nodes@.take(i + 1));
            assert(shapes == editor_shapes(before).insert(
                n.id as u32,
                (n.engine_type, n.num_inputs as u32, n.num_outputs as u32),
            ));
            assert(g.nodes@.dom() =~= shapes.dom());
        }
        i = i + 1;
    }
    proof {
        assert(nodes@.take(nodes@.len() as int) == nodes@);
    }
    let ghost shapes = editor_shapes(nodes@);
    let ghost all = editor_edges(wires@);
    let mut j: usize = 0;
    while j < wires.len()
        invariant
            0 < nodes@.len(),
            j <= wires@.len(),
            all == editor_edges(wires@),
            editor_refusal(nodes@) is None,
            shapes == editor_shapes(nodes@),
            edges_refusal(shapes, all.take(j as int)) is None,
            holds_nodes(g, shapes),
            g.edges@ == all.take(j as int),
            g.output_node_id == editor_output(nodes@),
            g.well_formed(),
        decreases wires@.len() - j,
    {
        let w = wires[j];
        let e = Edge {
            from_node_id: w.from_node as u32,
            from_output_idx: w.from_port as u32,
            to_node_id: w.to_node as u32,
            to_input_idx: w.to_port as u32,
        };
        proof {
            assert(all[j as int] == e);
            assert(all.take(j + 1).drop_last() == all.take(j as int));
            assert(all.take(j + 1).last() == e);
            lemma_edge_refusal_matches(g, shapes, e);
        }
        match g.add_edge(e) {
            Ok(()) => {},
            Err(msg) => {
                proof {
                    lemma_edges_refusal_extends(shapes, all, j + 1);
                }
                return Err(prefixed("Edge error: ", msg));
            },
        }
        proof {
            assert(g.edges@ == all.take(j + 1));
        }
        j = j + 1;
    }
    proof {
        assert(all.take(wires@.len() as int) == all);
        lemma_cycle_from_graph(g);
        lemma_well_formed_edges_fit(g);
        law_sort_succeeds_iff_valid(g);
    }
    match g.validate() {
        Ok(()) => {},
        Err(e) => {
            return Err(prefixed("Validation error: ", e));
        },
    }
    let (descs, conns, order) = match g.compile() {
        Ok(c) => c,
        Err(e) => {
            return Err(prefixed("Compile error: ", e));
        },
    };
    Ok(EditorPlan { output_id, graph: g, nodes: descs, connections: conns, order })
}

/// Wires that do not reach input port `port` of node `node`.
pub open spec fn not_into(node: usize, port: usize) -> spec_fn(EditorWire) -> bool {
    |w: EditorWire| !(w.to_node == node && w.to_port == port)
}

/// Wires that neither start nor end at node `id`.
pub open spec fn wire_avoids(id: usize) -> spec_fn(EditorWire) -> bool {
    |w: EditorWire| w.from_node != id && w.to_node != id
}

/// Nodes other than `id`.
pub open spec fn node_other_than(id: usize) -> spec_fn(EditorNode) -> bool {
    |n: EditorNode| n.id != id
}

/// No two wires reach the same input port.
pub open spec fn one_wire_per_input(wires: Seq<EditorWire>) -> bool {
    forall|i: int, j: int|
        0 <= i < j < wires.len() ==> !(#[trigger] wires[i].to_node == #[trigger] wires[j].to_node
            && wires[i].to_port == wires[j].to_port)
}

/// Finish a wire the user drew. A wire from a node to itself is refused and
/// changes nothing; otherwise every wire into the same input port is
/// dropped and `w` is appended.
pub fn finish_wire(wires: &mut Vec<EditorWire>, w: EditorWire) -> (added: bool)
    ensures
        added == (w.from_node != w.to_node),
        added ==> final(wires)@ == old(wires)@.filter(not_into(w.to_node, w.to_port)).push(w),
        added ==> final(wires)@.last() == w,
        added ==> forall|x: EditorWire|
            #[trigger] final(wires)@.drop_last().contains(x) <==> (old(wires)@.contains(x) && !(
            x.to_node == w.to_node && x.to_port == w.to_port)),
        !added ==> final(wires)@ == old(wires)@,
{
    if w.from_node == w.to_node {
        return false;
    }
    let ghost p = not_into(w.to_node, w.to_port);
    let mut kept: Vec<EditorWire> = Vec::new();
    let mut i: usize = 0;
    while i < wires.len()
        invariant
            i <= wires@.len(),
            p == not_into(w.to_node, w.to_port),
            kept@ == wires@.take(i as int).filter(p),
        decreases wires@.len() - i,
    {
        let x = wires[i];
        proof {
            assert(wires@.take(i + 1) == wires@.take(i as int).push(x));
            wires@.take(i as int).lemma_filter_push(x, p);
        }
        if !(x.to_node == w.to_node && x.to_port == w.to_port) {
            kept.push(x);
        }
        i = i + 1;
    }
    proof {
        assert(wires@.take(wires@.len() as int) == wires@);
    }
    proof {
        lemma_filter_membership(wires@, p);
    }
    kept.push(w);
    proof {
        assert(kept@.drop_last() == wires@.filter(p));
    }
    *wires = kept;
    true
}

/// Remove node `id` from the editor's patch together with every wire that
/// starts or ends at it; the rest keep their order.
pub fn editor_remove_node(nodes: &mut Vec<EditorNode>, wires: &mut Vec<EditorWire>, id: usize)
    ensures
        final(wires)@ == old(wires)@.filter(wire_avoids(id)),
        final(nodes)@ == old(nodes)@.filter(node_other_than(id)),
        forall|x: EditorWire|
            #[trigger] final(wires)@.contains(x) <==> (old(wires)@.contains(x) && x.from_node != id
                && x.to_node != id),
        forall|n: EditorNode| #[trigger] final(nodes)@.contains(n) <==> (old(nodes)@.contains(n) && n.id != id),
{
    let ghost p = wire_avoids(id);
    let mut kept: Vec<EditorWire> = Vec::new();
    let mut i: usize = 0;
    while i < wires.len()
        invariant
            i <= wires@.len(),
            p == wire_avoids(id),
            kept@ == wires@.take(i as int).filter(p),
        decreases wires@.len() - i,
    {
        let x = wires[i];
        proof {
            assert(wires@.take(i + 1) == wires@.take(i as int).push(x));
            wires@.take(i as int).lemma_filter_push(x, p);
        }
        if x.from_node != id && x.to_node != id {
            kept.push(x);
        }
        i = i + 1;
    }
    proof {
        assert(wires@.take(wires@.len() as int) == wires@);
    }
    proof {
        lemma_filter_membership(wires@, p);
    }
    *wires = kept;
    let ghost q = node_other_than(id);
    let mut left: Vec<EditorNode> = Vec::new();
    let mut k: usize = 0;
    while k < nodes.len()
        invariant
            k <= nodes@.len(),
            q == node_other_than(id),
            left@ == nodes@.take(k as int).filter(q),
        decreases nodes@.len() - k,
    {
        let n = nodes[k];
        proof {
            assert(nodes@.take(k + 1) == nodes@.take(k as int).push(n));
            nodes@.take(k as int).lemma_filter_push(n, q);
        }
        if n.id != id {
            left.push(n);
        }
        k = k + 1;
    }
    proof {
        assert(nodes@.take(nodes@.len() as int) == nodes@);
        lemma_filter_membership(nodes@, q);
    }
    *nodes = left;
}

/// Dropping wires never gives an input port a second wire.
proof fn lemma_filter_one_per_input(wires: Seq<EditorWire>, p: spec_fn(EditorWire) -> bool)
    requires
        one_wire_per_input(wires),
    ensures
        one_wire_per_input(wires.filter(p)),
    decreases wires.len(),
{
    reveal(Seq::filter);
    if wires.len() > 0 {
        let a = wires.drop_last();
        let x = wires.last();
        assert(one_wire_per_input(a)) by {
            assert forall|i: int, j: int| 0 <= i < j < a.len() implies !(#[trigger] a[i].to_node
                == #[trigger] a[j].to_node && a[i].to_port == a[j].to_port) by {
                assert(a[i] == wires[i] && a[j] == wires[j]);
            }
        }
        lemma_filter_one_per_input(a, p);
        let r = a.filter(p);
        if p(x) {
            assert(wires.filter(p) == r.push(x));
            assert forall|i: int, j: int| 0 <= i < j < r.push(x).len() implies !(
            #[trigger] r.push(x)[i].to_node == #[trigger] r.push(x)[j].to_node && r.push(x)[i].to_port
                == r.push(x)[j].to_port) by {
                if j == r.len() {
                    let y = r[i];
                    assert(r.contains(y));
                    a.lemma_filter_contains_rev(p, y);
                    let k = choose|k: int| 0 <= k < a.len() && a[k] == y;
                    assert(wires[k] == y);
                    assert(wires[wires.len() - 1] == x);
                } else {
                    assert(r.push(x)[i] == r[i] && r.push(x)[j] == r[j]);
                }
            }
        }
    }
}

/// Law: finishing a wire leaves it the only wire into its input port, and
/// keeps every input port at one wire at most; removing a node keeps that
/// too.
pub proof fn law_one_wire_per_input(wires: Seq<EditorWire>, w: EditorWire, id: usize)
    ensures
        ({
            let after = wires.filter(not_into(w.to_node, w.to_port)).push(w);
            forall|i: int|
                0 <= i < after.len() && after[i].to_node == w.to_node && after[i].to_port == w.to_port
                    ==> i == after.len() - 1
        }),
        one_wire_per_input(wires) ==> one_wire_per_input(
            wires.filter(not_into(w.to_node, w.to_port)).push(w),
        ),
        one_wire_per_input(wires) ==> one_wire_per_input(wires.filter(wire_avoids(id))),
{
    let p = not_into(w.to_node, w.to_port);
    let r = wires.filter(p);
    let after = r.push(w);
    assert forall|i: int|
        0 <= i < after.len() && after[i].to_node == w.to_node && after[i].to_port == w.to_port
            implies i == after.len() - 1 by {
        if i < r.len() {
            wires.lemma_filter_pred(p, i);
            assert(after[i] == r[i]);
        }
    }
    if one_wire_per_input(wires) {
        lemma_filter_one_per_input(wires, p);
        lemma_filter_one_per_input(wires, wire_avoids(id));
        assert forall|i: int, j: int| 0 <= i < j < after.len() implies !(#[trigger] after[i].to_node
            == #[trigger] after[j].to_node && after[i].to_port == after[j].to_port) by {
            if j == r.len() {
                wires.lemma_filter_pred(p, i);
                assert(after[i] == r[i]);
            } else {
                assert(after[i] == r[i] && after[j] == r[j]);
            }
        }
    }
}

/// Law: every wire of the front end becomes the edge with the same source
/// node, output port, target node and input port.
pub proof fn law_edge_list_mirrors_wires(wires: Seq<EngineEdgeInfo>)
    ensures
        edge_list(wires).len() == wires.len(),
        forall|i: int|
            #![trigger wires[i]]
            0 <= i < wires.len() ==> {
                let e = edge_list(wires)[i];
                &&& e.from_node_id == wires[i].from_node
                &&& e.from_output_idx == wires[i].from_port
                &&& e.to_node_id == wires[i].to_node
                &&& e.to_input_idx == wires[i].to_port
            },
{
}

/// Law: every wire of the editor becomes the edge with the same source
/// node, output port, target node and input port, each taken as `u32`.
pub proof fn law_editor_edges_mirror_wires(wires: Seq<EditorWire>)
    ensures
        editor_edges(wires).len() == wires.len(),
        forall|i: int|
            #![trigger wires[i]]
            0 <= i < wires.len() ==> {
                let e = editor_edges(wires)[i];
                &&& e.from_node_id == wires[i].from_node as u32
                &&& e.from_output_idx == wires[i].from_port as u32
                &&& e.to_node_id == wires[i].to_node as u32
                &&& e.to_input_idx == wires[i].to_port as u32
            },
{
}

/// Edges that each fit the node shapes, and are not too many, are all
/// accepted.
proof fn lemma_fitting_edges_accepted(shapes: Map<u32, (NodeType, u32, u32)>, edges: Seq<Edge>)
    requires
        edges.len() <= MAX_EDGES,
        forall|i: int|
            #![trigger edges[i]]
            0 <= i < edges.len() ==> {
                &&& shapes.contains_key(edges[i].from_node_id)
                &&& edges[i].from_output_idx < shapes[edges[i].from_node_id].2
                &&& shapes.contains_key(edges[i].to_node_id)
                &&& edges[i].to_input_idx < shapes[edges[i].to_node_id].1
            },
    ensures
        edges_refusal(shapes, edges) is None,
    decreases edges.len(),
{
    if edges.len() > 0 {
        let rest = edges.drop_last();
        assert forall|i: int| 0 <= i < rest.len() implies #[trigger] rest[i] == edges[i] by {}
        lemma_fitting_edges_accepted(shapes, rest);
        assert(edges[edges.len() - 1] == edges.last());
    }
}

/// Every editor node's id, taken as `u32`, is a key of the shapes.
proof fn lemma_editor_shapes_dom(nodes: Seq<EditorNode>)
    ensures
        forall|a: int|
            0 <= a < nodes.len() ==> editor_shapes(nodes).contains_key(#[trigger] nodes[a].id as u32),
    decreases nodes.len(),
{
    if nodes.len() > 0 {
        let rest = nodes.drop_last();
        lemma_editor_shapes_dom(rest);
        assert forall|a: int| 0 <= a < nodes.len() implies editor_shapes(nodes).contains_key(
            #[trigger] nodes[a].id as u32,
        ) by {
            if a < rest.len() {
                assert(rest[a] == nodes[a]);
            }
        }
    }
}

/// With no refusal, each editor node's shape is recorded under its id.
proof fn lemma_editor_shapes_value(nodes: Seq<EditorNode>)
    requires
        editor_refusal(nodes) is None,
    ensures
        forall|a: int|
            0 <= a < nodes.len() ==> editor_shapes(nodes)[#[trigger] nodes[a].id as u32] == (
                nodes[a].engine_type,
                nodes[a].num_inputs as u32,
                nodes[a].num_outputs as u32,
            ),
    decreases nodes.len(),
{
    if nodes.len() > 0 {
        let rest = nodes.drop_last();
        lemma_editor_shapes_value(rest);
        lemma_editor_shapes_dom(rest);
        assert forall|a: int| 0 <= a < nodes.len() implies editor_shapes(nodes)[#[trigger] nodes[a].id
            as u32] == (nodes[a].engine_type, nodes[a].num_inputs as u32, nodes[a].num_outputs as u32) by {
            if a < rest.len() {
                assert(rest[a] == nodes[a]);
                assert(editor_shapes(rest).contains_key(rest[a].id as u32));
            }
        }
    }
}

/// Law: an editor patch whose nodes are accepted (distinct ids, within the
/// node limit) and whose every wire leaves an existing output port of an
/// existing node and enters an existing input port of an existing node, no
/// more wires than the edge limit, is never refused while its graph is
/// built. Ids, ports and port counts are taken to fit `u32`.
pub proof fn law_fitting_editor_wires_accepted(nodes: Seq<EditorNode>, wires: Seq<EditorWire>)
    requires
        nodes.len() > 0,
        editor_refusal(nodes) is None,
        wires.len() <= MAX_EDGES,
        forall|a: int|
            0 <= a < nodes.len() ==> (#[trigger] nodes[a]).id <= u32::MAX && nodes[a].num_inputs
                <= u32::MAX && nodes[a].num_outputs <= u32::MAX,
        forall|i: int|
            0 <= i < wires.len() ==> {
                &&& (#[trigger] wires[i]).from_node <= u32::MAX
                &&& wires[i].to_node <= u32::MAX
                &&& exists|a: int|
                    0 <= a < nodes.len() && #[trigger] nodes[a].id == wires[i].from_node
                        && wires[i].from_port < nodes[a].num_outputs
                &&& exists|b: int|
                    0 <= b < nodes.len() && #[trigger] nodes[b].id == wires[i].to_node
                        && wires[i].to_port < nodes[b].num_inputs
            },
    ensures
        editor_build_refusal(nodes, wires) is None,
{
    let shapes = editor_shapes(nodes);
    let edges = editor_edges(wires);
    lemma_editor_shapes_dom(nodes);
    lemma_editor_shapes_value(nodes);
    assert forall|i: int|
        #![trigger edges[i]]
        0 <= i < edges.len() implies {
        &&& shapes.contains_key(edges[i].from_node_id)
        &&& edges[i].from_output_idx < shapes[edges[i].from_node_id].2
        &&& shapes.contains_key(edges[i].to_node_id)
        &&& edges[i].to_input_idx < shapes[edges[i].to_node_id].1
    } by {
        let w = wires[i];
        let a = choose|a: int|
            0 <= a < nodes.len() && #[trigger] nodes[a].id == w.from_node && w.from_port
                < nodes[a].num_outputs;
        let b = choose|b: int|
            0 <= b < nodes.len() && #[trigger] nodes[b].id == w.to_node && w.to_port
                < nodes[b].num_inputs;
        assert(edges[i] == editor_edge(w));
        assert(shapes.contains_key(nodes[a].id as u32));
        assert(shapes.contains_key(nodes[b].id as u32));
    }
    lemma_fitting_edges_accepted(shapes, edges);
}

/// Law: a node's writes are its parameters, each in its own position with
/// its key and bit pattern, followed by its sub-type selector when its kind
/// has one; nothing else.
pub proof fn law_node_writes(n: EngineNodeInfo)
    ensures
        node_writes(n).len() == n.params@.len() + (if mode_key(n.engine_type@) is Some {
            1int
        } else {
            0int
        }),
        forall|j: int|
            #![trigger n.params@[j]]
            0 <= j < n.params@.len() ==> {
                &&& node_writes(n)[j].node_id == n.id
                &&& node_writes(n)[j].hash == n.params@[j].hash
                &&& node_writes(n)[j].value == ParamValue::Bits(n.params@[j].value_bits)
            },
        forall|h: u32|
            mode_key(n.engine_type@) == Some(h) ==> {
                &&& node_writes(n)[n.params@.len() as int].node_id == n.id
                &&& node_writes(n)[n.params@.len() as int].hash == h
                &&& node_writes(n)[n.params@.len() as int].value == ParamValue::Selector(
                    n.engine_subtype,
                )
            },
{
}

/// Law: the writes for a list of nodes are the writes for the list without
/// its last node, followed by that node's writes; with no nodes, none.
pub proof fn law_initial_writes_node_by_node(infos: Seq<EngineNodeInfo>, n: EngineNodeInfo)
    ensures
        initial_writes(Seq::empty()) == Seq::<ParamWrite>::empty(),
        initial_writes(infos.push(n)) == initial_writes(infos) + node_writes(n),
        initial_writes(infos.push(n)).len() == initial_writes(infos).len() + n.params@.len() + (
        if mode_key(n.engine_type@) is Some {
            1int
        } else {
            0int
        }),
{
    assert(infos.push(n).drop_last() == infos);
    law_node_writes(n);
}

/// Law: finishing a wire `w` keeps, in their order, exactly the old wires
/// that do not enter input port `(w.to_node, w.to_port)`, and puts `w` last.
pub proof fn law_finish_wire_replaces_only_its_input(wires: Seq<EditorWire>, w: EditorWire)
    ensures
        ({
            let after = wires.filter(not_into(w.to_node, w.to_port)).push(w);
            &&& after.drop_last() == wires.filter(
                |x: EditorWire| !(x.to_node == w.to_node && x.to_port == w.to_port),
            )
            &&& after.last() == w
            &&& after.len() == wires.filter(
                |x: EditorWire| !(x.to_node == w.to_node && x.to_port == w.to_port),
            ).len() + 1
        }),
{
    let f = |x: EditorWire| !(x.to_node == w.to_node && x.to_port == w.to_port);
    assert(not_into(w.to_node, w.to_port) =~= f);
    let after = wires.filter(not_into(w.to_node, w.to_port)).push(w);
    assert(after.drop_last() == wires.filter(not_into(w.to_node, w.to_port)));
}

/// Law: removing node `id` from the editor keeps, in their order, exactly
/// the wires that neither start nor end at it and the nodes with other ids.
pub proof fn law_editor_removal_keeps_the_rest(
    nodes: Seq<EditorNode>,
    wires: Seq<EditorWire>,
    id: usize,
)
    ensures
        wires.filter(wire_avoids(id)) == wires.filter(
            |x: EditorWire| x.from_node != id && x.to_node != id,
        ),
        nodes.filter(node_other_than(id)) == nodes.filter(|n: EditorNode| n.id != id),
{
    assert(wire_avoids(id) =~= |x: EditorWire| x.from_node != id && x.to_node != id);
    assert(node_other_than(id) =~= |n: EditorNode| n.id != id);
}

/// Law: the editor's output is the id (as `u32`) of its first Output node,
/// or 0 when it has none.
pub proof fn law_editor_output(nodes: Seq<EditorNode>)
    ensures
        (exists|i: int|
            0 <= i < nodes.len() && nodes[i].engine_type == NodeType::Output && (forall|k: int|
                0 <= k < i ==> (#[trigger] nodes[k]).engine_type != NodeType::Output)
                && editor_output(nodes) == nodes[i].id as u32) || ((forall|k: int|
            0 <= k < nodes.len() ==> (#[trigger] nodes[k]).engine_type != NodeType::Output)
            && editor_output(nodes) == 0),
    decreases nodes.len(),
{
    if nodes.len() > 0 {
        let rest = nodes.drop_first();
        law_editor_output(rest);
        if nodes[0].engine_type == NodeType::Output {
            assert(forall|k: int| 0 <= k < 0 ==> (#[trigger] nodes[k]).engine_type != NodeType::Output);
        } else {
            assert forall|k: int| 0 <= k < rest.len() implies #[trigger] rest[k] == nodes[k + 1] by {}
            if exists|i: int|
                0 <= i < rest.len() && rest[i].engine_type == NodeType::Output && (forall|k: int|
                    0 <= k < i ==> (#[trigger] rest[k]).engine_type != NodeType::Output)
                    && editor_output(rest) == rest[i].id as u32 {
                let i = choose|i: int|
                    0 <= i < rest.len() && rest[i].engine_type == NodeType::Output && (forall|k: int|
                        0 <= k < i ==> (#[trigger] rest[k]).engine_type != NodeType::Output)
                        && editor_output(rest) == rest[i].id as u32;
                assert forall|k: int| 0 <= k < i + 1 implies (#[trigger] nodes[k]).engine_type
                    != NodeType::Output by {
                    if k > 0 {
                        assert(nodes[k] == rest[k - 1]);
                    }
                }
                assert(nodes[i + 1] == rest[i]);
            } else {
                assert forall|k: int| 0 <= k < nodes.len() implies (#[trigger] nodes[k]).engine_type
                    != NodeType::Output by {
                    if k > 0 {
                        assert(nodes[k] == rest[k - 1]);
                    }
                }
            }
        }
    }
}

} // verus!
