//! Decisions behind the front end's engine commands: reading node kinds,
//! finding the output node, and choosing each node's sub-type selector.

use vstd::prelude::*;
use vstd::string::StringExecFns;
use crate::ffi::NodeType;
use crate::param_hash;

verus! {

/// A parameter value sent by the front end: a key and the IEEE-754 bit
/// pattern of its `f32` value.
#[derive(Debug, Clone, Copy, PartialEq, Eq)]
pub struct ParamPair {
    pub hash: u32,
    pub value_bits: u32,
}

/// A node as the front end describes it.
#[derive(Debug, Clone)]
pub struct EngineNodeInfo {
    pub id: u32,
    pub engine_type: String,
    pub num_inputs: u32,
    pub num_outputs: u32,
    pub engine_subtype: u32,
    pub params: Vec<ParamPair>,
}

/// A wire as the front end describes it.
#[derive(Debug, Clone, Copy, PartialEq, Eq)]
pub struct EngineEdgeInfo {
    pub from_node: u32,
    pub from_port: u32,
    pub to_node: u32,
    pub to_port: u32,
}

/// The node kind a front-end name stands for (names are case-sensitive).
pub open spec fn engine_type_named(s: Seq<char>) -> Option<NodeType> {
    if s == "Oscillator"@ {
        Some(NodeType::Oscillator)
    } else if s == "Filter"@ {
        Some(NodeType::Filter)
    } else if s == "Gain"@ {
        Some(NodeType::Gain)
    } else if s == "Output"@ {
        Some(NodeType::Output)
    } else if s == "Delay"@ {
        Some(NodeType::Delay)
    } else if s == "Effects"@ {
        Some(NodeType::Effects)
    } else if s == "Reverb"@ {
        Some(NodeType::Reverb)
    } else {
        None
    }
}

pub open spec fn msg_unknown_type(s: Seq<char>) -> Seq<char> {
    "Unknown engine_type \""@ + s + "\""@
}

pub(crate) fn same_text(a: &str, b: &str) -> (r: bool)
    ensures
        r == (a@ == b@),
{
    let x = a.to_owned();
    let y = b.to_owned();
    x == y
}

/// Read a node kind from its front-end name; unknown names are refused.
pub fn parse_engine_type(s: &str) -> (r: Result<NodeType, String>)
    ensures
        match r {
            Ok(t) => engine_type_named(s@) == Some(t),
            Err(e) => engine_type_named(s@) is None && e@ == msg_unknown_type(s@),
        },
{
    if same_text(s, "Oscillator") {
        Ok(NodeType::Oscillator)
    } else if same_text(s, "Filter") {
        Ok(NodeType::Filter)
    } else if same_text(s, "Gain") {
        Ok(NodeType::Gain)
    } else if same_text(s, "Output") {
        Ok(NodeType::Output)
    } else if same_text(s, "Delay") {
        Ok(NodeType::Delay)
    } else if same_text(s, "Effects") {
        Ok(NodeType::Effects)
    } else if same_text(s, "Reverb") {
        Ok(NodeType::Reverb)
    } else {
        let mut msg = String::from_str("Unknown engine_type \"");
        msg.append(s);
        msg.append("\"");
        Err(msg)
    }
}

/// Ids of the nodes named "Output", in order.
pub open spec fn output_ids(nodes: Seq<EngineNodeInfo>) -> Seq<u32>
    decreases nodes.len(),
{
    if nodes.len() == 0 {
        Seq::empty()
    } else {
        let rest = output_ids(nodes.drop_last());
        if nodes.last().engine_type@ == "Output"@ {
            rest.push(nodes.last().id)
        } else {
            rest
        }
    }
}

pub open spec fn msg_multiple_outputs() -> Seq<char> {
    "Multiple Output nodes — keep only one"@
}

pub open spec fn msg_no_output() -> Seq<char> {
    "No Output node — add one to start the engine"@
}

/// Law: the ids of the nodes named "Output" (case-sensitive), in order, and
/// no others.
pub proof fn law_output_ids(nodes: Seq<EngineNodeInfo>)
    ensures
        output_ids(nodes) == nodes.filter(|n: EngineNodeInfo| n.engine_type@ == "Output"@).map_values(
            |n: EngineNodeInfo| n.id,
        ),
    decreases nodes.len(),
{
    reveal(Seq::filter);
    if nodes.len() > 0 {
        law_output_ids(nodes.drop_last());
        let f = |n: EngineNodeInfo| n.engine_type@ == "Output"@;
        let g = |n: EngineNodeInfo| n.id;
        let r = nodes.drop_last().filter(f);
        if f(nodes.last()) {
            assert(r.push(nodes.last()).map_values(g) =~= r.map_values(g).push(nodes.last().id));
        }
    } else {
        assert(nodes.filter(|n: EngineNodeInfo| n.engine_type@ == "Output"@) =~= Seq::<EngineNodeInfo>::empty());
    }
}

proof fn lemma_output_ids_grow(nodes: Seq<EngineNodeInfo>, i: int)
    requires
        0 <= i <= nodes.len(),
    ensures
        output_ids(nodes.take(i)).len() <= output_ids(nodes).len(),
        output_ids(nodes.take(i)).len() == output_ids(nodes).len() ==> forall|k: int|
            0 <= k < output_ids(nodes).len() ==> output_ids(nodes.take(i))[k] == output_ids(nodes)[k],
        forall|k: int|
            0 <= k < output_ids(nodes.take(i)).len() ==> output_ids(nodes.take(i))[k] == output_ids(
                nodes,
            )[k],
    decreases nodes.len() - i,
{
    if i == nodes.len() {
        assert(nodes.take(i) == nodes);
    } else {
        lemma_output_ids_grow(nodes, i + 1);
        assert(nodes.take(i + 1).drop_last() == nodes.take(i));
    }
}

/// The id of the only node named "Output"; refused when there is none or
/// more than one.
pub fn resolve_output_node_id(nodes: &[EngineNodeInfo]) -> (r: Result<u32, String>)
    ensures
        match r {
            Ok(id) => output_ids(nodes@).len() == 1 && output_ids(nodes@)[0] == id,
            Err(e) => if output_ids(nodes@).len() == 0 {
                e@ == msg_no_output()
            } else {
                output_ids(nodes@).len() >= 2 && e@ == msg_multiple_outputs()
            },
        },
{
    let mut found: Option<u32> = None;
    let mut i: usize = 0;
    while i < nodes.len()
        invariant
            i <= nodes@.len(),
            output_ids(nodes@.take(i as int)).len() <= 1,
            match found {
                None => output_ids(nodes@.take(i as int)).len() == 0,
                Some(id) => output_ids(nodes@.take(i as int)).len() == 1 && output_ids(
                    nodes@.take(i as int),
                )[0] == id,
            },
        decreases nodes@.len() - i,
    {
        let n = &nodes[i];
        proof {
            assert(nodes@.take(i + 1).drop_last() == nodes@.take(i as int));
            assert(nodes@.take(i + 1).last() == *n);
        }
        if same_text(n.engine_type.as_str(), "Output") {
            if found.is_some() {
                proof {
                    lemma_output_ids_grow(nodes@, i + 1);
                }
                return Err(String::from_str("Multiple Output nodes — keep only one"));
            }
            found = Some(n.id);
        }
        i = i + 1;
    }
    proof {
        assert(nodes@.take(nodes@.len() as int) == nodes@);
    }
    match found {
        Some(id) => Ok(id),
        None => Err(String::from_str("No Output node — add one to start the engine")),
    }
}

/// The sub-type selector key a node of the named kind receives at start-up.
pub open spec fn mode_key(s: Seq<char>) -> Option<u32> {
    if s == "Oscillator"@ {
        Some(param_hash::WAVEFORM_TYPE)
    } else if s == "Filter"@ {
        Some(param_hash::FILTER_MODE)
    } else if s == "Gain"@ {
        Some(param_hash::GAIN_MODE)
    } else if s == "Delay"@ {
        Some(param_hash::DELAY_MODE)
    } else if s == "Effects"@ {
        Some(param_hash::EFFECTS_MODE)
    } else {
        None
    }
}

/// The sub-type selector key for a node of the named kind, if it has one.
pub fn mode_param_hash(engine_type: &str) -> (r: Option<u32>)
    ensures
        r == mode_key(engine_type@),
{
    if same_text(engine_type, "Oscillator") {
        Some(param_hash::WAVEFORM_TYPE)
    } else if same_text(engine_type, "Filter") {
        Some(param_hash::FILTER_MODE)
    } else if same_text(engine_type, "Gain") {
        Some(param_hash::GAIN_MODE)
    } else if same_text(engine_type, "Delay") {
        Some(param_hash::DELAY_MODE)
    } else if same_text(engine_type, "Effects") {
        Some(param_hash::EFFECTS_MODE)
    } else {
        None
    }
}

/// Whether a parameter change for `node_id` is taken while an engine runs
/// the graph whose node ids are `running`: only ids of that graph are.
pub fn accepts_param_for(running: &[u32], node_id: u32) -> (b: bool)
    ensures
        b == running@.contains(node_id),
{
    let mut i: usize = 0;
    while i < running.len()
        invariant
            i <= running@.len(),
            forall|k: int| 0 <= k < i ==> running@[k] != node_id,
        decreases running@.len() - i,
    {
        if running[i] == node_id {
            proof {
                assert(running@[i as int] == node_id);
            }
            return true;
        }
        i = i + 1;
    }
    false
}

} // verus!
