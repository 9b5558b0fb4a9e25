//! The graph editor's patch model: the patch it opens with, placing a node
//! from the catalog under a fresh id, and finding a node by id.

use vstd::prelude::*;
use crate::catalog::{
    catalog, catalog_table, first_named, lemma_first_named_unique, position_or, rows_of,
    template_position, NodeTemplate, TemplateRow,
};
use crate::plan::{EditorNode, EditorWire};

verus! {

/// The editor node with id `id` made from the template at `idx` of `table`.
pub open spec fn node_from(table: Seq<TemplateRow>, id: usize, idx: int) -> EditorNode {
    EditorNode {
        id,
        template_idx: idx as usize,
        engine_type: table[idx].6,
        num_inputs: table[idx].4,
        num_outputs: table[idx].5,
    }
}

/// The nodes of the opening patch: the first template, then the first
/// templates named "Low-Pass Filter", "Gain" and "Speaker Output" (falling
/// back to positions 14, 32 and the last one), with ids 0 to 3.
pub open spec fn default_nodes() -> Seq<EditorNode> {
    let t = catalog_table();
    seq![
        node_from(t, 0, 0),
        node_from(t, 1, position_or(t, "Low-Pass Filter"@, 14)),
        node_from(t, 2, position_or(t, "Gain"@, 32)),
        node_from(t, 3, position_or(t, "Speaker Output"@, t.len() - 1)),
    ]
}

/// The wires of the opening patch: 0 -> 1 -> 2 -> 3, output 0 to input 0.
pub open spec fn default_wires() -> Seq<EditorWire> {
    seq![
        EditorWire { from_node: 0, from_port: 0, to_node: 1, to_port: 0 },
        EditorWire { from_node: 1, from_port: 0, to_node: 2, to_port: 0 },
        EditorWire { from_node: 2, from_port: 0, to_node: 3, to_port: 0 },
    ]
}

fn node_at(cat: &Vec<NodeTemplate>, id: usize, idx: usize) -> (n: EditorNode)
    requires
        idx < cat@.len(),
    ensures
        n == node_from(rows_of(cat@), id, idx as int),
{
    let t = &cat[idx];
    EditorNode {
        id,
        template_idx: idx,
        engine_type: t.engine_type,
        num_inputs: t.num_inputs,
        num_outputs: t.num_outputs,
    }
}

/// The position of the first template named `name`, or `fallback`.
fn position_in(cat: &Vec<NodeTemplate>, name: &str, fallback: usize) -> (i: usize)
    ensures
        i == position_or(rows_of(cat@), name@, fallback as int),
{
    match template_position(cat, name) {
        Some(i) => {
            proof {
                let rows = rows_of(cat@);
                let j = choose|j: int| #[trigger] first_named(rows, name@, j);
                lemma_first_named_unique(rows, name@, i as int, j);
            }
            i
        },
        None => fallback,
    }
}

/// The patch the editor opens with: its nodes, its wires, and the id the
/// next placed node gets.
pub fn default_patch() -> (p: (Vec<EditorNode>, Vec<EditorWire>, usize))
    ensures
        p.0@ == default_nodes(),
        p.1@ == default_wires(),
        p.2 == 4,
{
    let cat = catalog();
    proof {
        assert(rows_of(cat@) =~= catalog_table());
    }
    let flt = position_in(&cat, "Low-Pass Filter", 14);
    let gain = position_in(&cat, "Gain", 32);
    let out = position_in(&cat, "Speaker Output", cat.len() - 1);
    proof {
        let t = catalog_table();
        if exists|i: int| #[trigger] first_named(t, "Low-Pass Filter"@, i) {
            let i = choose|i: int| #[trigger] first_named(t, "Low-Pass Filter"@, i);
        }
        if exists|i: int| #[trigger] first_named(t, "Gain"@, i) {
            let i = choose|i: int| #[trigger] first_named(t, "Gain"@, i);
        }
        if exists|i: int| #[trigger] first_named(t, "Speaker Output"@, i) {
            let i = choose|i: int| #[trigger] first_named(t, "Speaker Output"@, i);
        }
    }
    let mut nodes: Vec<EditorNode> = Vec::new();
    nodes.push(node_at(&cat, 0, 0));
    nodes.push(node_at(&cat, 1, flt));
    nodes.push(node_at(&cat, 2, gain));
    nodes.push(node_at(&cat, 3, out));
    let mut wires: Vec<EditorWire> = Vec::new();
    wires.push(EditorWire { from_node: 0, from_port: 0, to_node: 1, to_port: 0 });
    wires.push(EditorWire { from_node: 1, from_port: 0, to_node: 2, to_port: 0 });
    wires.push(EditorWire { from_node: 2, from_port: 0, to_node: 3, to_port: 0 });
    proof {
        assert(nodes@ =~= default_nodes());
        assert(wires@ =~= default_wires());
    }
    (nodes, wires, 4)
}

/// Place a node made from template `template_idx` of `cat` under the id
/// `next_id`, which then moves on by one.
pub fn editor_add_node(
    nodes: &mut Vec<EditorNode>,
    next_id: &mut usize,
    cat: &Vec<NodeTemplate>,
    template_idx: usize,
)
    requires
        template_idx < cat@.len(),
        *old(next_id) < usize::MAX,
    ensures
        final(nodes)@ == old(nodes)@.push(
            node_from(rows_of(cat@), *old(next_id), template_idx as int),
        ),
        *final(next_id) == *old(next_id) + 1,
{
    let n = node_at(cat, *next_id, template_idx);
    nodes.push(n);
    *next_id = *next_id + 1;
}

/// The position of the first node with id `id`, if any.
pub fn editor_node_by_id(nodes: &Vec<EditorNode>, id: usize) -> (r: Option<usize>)
    ensures
        match r {
            Some(i) => i < nodes@.len() && nodes@[i as int].id == id && forall|k: int|
                0 <= k < i ==> (#[trigger] nodes@[k]).id != id,
            None => forall|k: int| 0 <= k < nodes@.len() ==> (#[trigger] nodes@[k]).id != id,
        },
{
    let mut i: usize = 0;
    while i < nodes.len()
        invariant
            i <= nodes@.len(),
            forall|k: int| 0 <= k < i ==> (#[trigger] nodes@[k]).id != id,
        decreases nodes@.len() - i,
    {
        if nodes[i].id == id {
            return Some(i);
        }
        i = i + 1;
    }
    None
}

} // verus!
