//! Connection and configuration checks for experiment graphs.

use vstd::prelude::*;
use crate::graph::nodes::{
    real_nonpositive, AdaptiveScanConfig, ExperimentNode, MoveMode, NestedScanConfig,
    TriggerCondition,
};
use crate::graph::reach::{find_ancestors, find_loop_body_nodes, in_loop_body, is_ancestor};
use crate::graph::structure::{wires_wf, GraphModel, Wire};
use crate::graph::topo::lists;
use crate::text::{decimal, push_decimal, push_str, string_of};

verus! {

/// Pin types for connection validation.
#[derive(Clone, Copy, Debug, PartialEq, Eq)]
pub enum PinType {
    /// Sequential execution flow.
    Flow,
    /// Loop body connection (the second output of a loop).
    LoopBody,
}

/// The kind of a node's output pin: loops and nested scans carry their body
/// on every output but the first.
pub open spec fn output_pin_spec(node: ExperimentNode, output_idx: int) -> PinType {
    match node {
        ExperimentNode::Loop(..) | ExperimentNode::NestedScan(..) => if output_idx == 0 {
            PinType::Flow
        } else {
            PinType::LoopBody
        },
        _ => PinType::Flow,
    }
}

/// Type of an output pin of a node.
pub fn output_pin_type(node: &ExperimentNode, output_idx: usize) -> (r: PinType)
    ensures
        r == output_pin_spec(*node, output_idx as int),
{
    match node {
        ExperimentNode::Loop(..) | ExperimentNode::NestedScan(..) => {
            if output_idx == 0 {
                PinType::Flow
            } else {
                PinType::LoopBody
            }
        },
        _ => PinType::Flow,
    }
}

/// Type of an input pin of a node: every input accepts flow.
pub fn input_pin_type(_node: &ExperimentNode, _input_idx: usize) -> (r: PinType)
    ensures
        r == PinType::Flow,
{
    PinType::Flow
}

fn pin_name(p: PinType) -> (r: &'static str)
    ensures
        r@ == (match p {
            PinType::Flow => "Flow"@,
            PinType::LoopBody => "LoopBody"@,
        }),
{
    match p {
        PinType::Flow => "Flow",
        PinType::LoopBody => "LoopBody",
    }
}

/// Validate a proposed connection. Flow and loop-body outputs may both feed
/// a flow input, so every connection is accepted.
pub fn validate_connection(
    from_node: &ExperimentNode,
    from_output: usize,
    to_node: &ExperimentNode,
    to_input: usize,
) -> (r: Result<(), String>)
    ensures
        r is Ok,
{
    let out_type = output_pin_type(from_node, from_output);
    let in_type = input_pin_type(to_node, to_input);
    match (out_type, in_type) {
        (PinType::Flow, PinType::Flow) => Ok(()),
        (PinType::LoopBody, PinType::Flow) => Ok(()),
        _ => {
            let mut m = string_of("Cannot connect ");
            push_str(&mut m, pin_name(out_type));
            push_str(&mut m, " output to ");
            push_str(&mut m, pin_name(in_type));
            push_str(&mut m, " input");
            Err(m)
        },
    }
}

/// The texts of a list of strings.
pub open spec fn texts(v: Seq<String>) -> Seq<Seq<char>> {
    v.map_values(|s: String| s@)
}

/// `msg` when `cond` holds, nothing otherwise.
pub open spec fn when(cond: bool, msg: Seq<char>) -> Seq<Seq<char>> {
    if cond {
        seq![msg]
    } else {
        seq![]
    }
}

/// The problems of a nested scan configuration, in reporting order.
pub open spec fn nested_scan_errors(c: NestedScanConfig) -> Seq<Seq<char>> {
    when(c.outer.actuator@.len() == 0, "Outer scan: device not selected"@) + when(
        c.outer.points == 0,
        "Outer scan: points must be > 0"@,
    ) + when(c.outer.dimension_name@.len() == 0, "Outer scan: dimension name required"@) + when(
        c.inner.actuator@.len() == 0,
        "Inner scan: device not selected"@,
    ) + when(c.inner.points == 0, "Inner scan: points must be > 0"@) + when(
        c.inner.dimension_name@.len() == 0,
        "Inner scan: dimension name required"@,
    ) + when(
        c.outer.actuator@ == c.inner.actuator@ && c.outer.actuator@.len() != 0,
        "Warning: outer and inner use same actuator"@,
    ) + when(
        c.outer.dimension_name@ == c.inner.dimension_name@ && c.outer.dimension_name@.len() != 0,
        "Warning: outer and inner have same dimension name"@,
    )
}

fn add_when(errors: &mut Vec<String>, cond: bool, msg: &str)
    ensures
        texts(final(errors)@) == texts(old(errors)@) + when(cond, msg@),
{
    if cond {
        let ghost before = texts(errors@);
        errors.push(string_of(msg));
        proof {
            assert(texts(errors@) =~= before + seq![msg@]);
        }
    } else {
        proof {
            assert(texts(errors@) =~= texts(errors@) + when(cond, msg@));
        }
    }
}

/// Validate a nested scan configuration; returns its problems, empty when valid.
pub fn validate_nested_scan(config: &NestedScanConfig) -> (errors: Vec<String>)
    ensures
        texts(errors@) == nested_scan_errors(*config),
{
    let mut errors: Vec<String> = Vec::new();
    proof {
        assert(texts(errors@) =~= Seq::<Seq<char>>::empty());
    }
    add_when(&mut errors, config.outer.actuator.as_str().unicode_len() == 0, "Outer scan: device not selected");
    add_when(&mut errors, config.outer.points == 0, "Outer scan: points must be > 0");
    add_when(&mut errors, config.outer.dimension_name.as_str().unicode_len() == 0, "Outer scan: dimension name required");
    add_when(&mut errors, config.inner.actuator.as_str().unicode_len() == 0, "Inner scan: device not selected");
    add_when(&mut errors, config.inner.points == 0, "Inner scan: points must be > 0");
    add_when(&mut errors, config.inner.dimension_name.as_str().unicode_len() == 0, "Inner scan: dimension name required");
    let same_actuator = config.outer.actuator == config.inner.actuator;
    add_when(
        &mut errors,
        same_actuator && config.outer.actuator.as_str().unicode_len() != 0,
        "Warning: outer and inner use same actuator",
    );
    let same_name = config.outer.dimension_name == config.inner.dimension_name;
    add_when(
        &mut errors,
        same_name && config.outer.dimension_name.as_str().unicode_len() != 0,
        "Warning: outer and inner have same dimension name",
    );
    proof {
        let e0 = Seq::<Seq<char>>::empty();
        assert(e0 + nested_scan_errors(*config) =~= nested_scan_errors(*config));
    }
    errors
}

/// "Trigger <n>: <what>".
pub open spec fn trigger_message(n: nat, what: Seq<char>) -> Seq<char> {
    "Trigger "@ + decimal(n) + ": "@ + what
}

/// Problems of one trigger at position `i` (counted from zero).
pub open spec fn trigger_errors(t: TriggerCondition, i: nat) -> Seq<Seq<char>> {
    match t {
        TriggerCondition::Threshold { device_id, .. } => when(
            device_id@.len() == 0,
            trigger_message(i + 1, "device not selected"@),
        ),
        TriggerCondition::PeakDetection { device_id, min_prominence, .. } => when(
            device_id@.len() == 0,
            trigger_message(i + 1, "device not selected"@),
        ) + when(real_nonpositive(min_prominence), trigger_message(i + 1, "prominence must be > 0"@)),
    }
}

/// Problems of the first `k` triggers.
pub open spec fn triggers_errors(ts: Seq<TriggerCondition>, k: int) -> Seq<Seq<char>>
    decreases k,
{
    if k <= 0 {
        seq![]
    } else {
        triggers_errors(ts, k - 1) + trigger_errors(ts[k - 1], (k - 1) as nat)
    }
}

/// The problems of an adaptive scan configuration, in reporting order.
pub open spec fn adaptive_scan_errors(c: AdaptiveScanConfig) -> Seq<Seq<char>> {
    when(c.scan.actuator@.len() == 0, "Adaptive scan: device not selected"@) + when(
        c.scan.points == 0,
        "Adaptive scan: points must be > 0"@,
    ) + when(c.triggers.len() == 0, "Adaptive scan: at least one trigger required"@)
        + triggers_errors(c.triggers@, c.triggers.len() as int)
}

fn trigger_text(n: usize, what: &str) -> (r: String)
    ensures
        r@ == trigger_message(n as nat, what@),
{
    let mut m = string_of("Trigger ");
    push_decimal(&mut m, n as u64);
    push_str(&mut m, ": ");
    push_str(&mut m, what);
    m
}

/// Validate an adaptive scan configuration; returns its problems, empty when valid.
pub fn validate_adaptive_scan(config: &AdaptiveScanConfig) -> (errors: Vec<String>)
    ensures
        texts(errors@) == adaptive_scan_errors(*config),
{
    let mut errors: Vec<String> = Vec::new();
    proof {
        assert(texts(errors@) =~= Seq::<Seq<char>>::empty());
    }
    add_when(&mut errors, config.scan.actuator.as_str().unicode_len() == 0, "Adaptive scan: device not selected");
    add_when(&mut errors, config.scan.points == 0, "Adaptive scan: points must be > 0");
    add_when(&mut errors, config.triggers.len() == 0, "Adaptive scan: at least one trigger required");
    let ghost head = texts(errors@);
    proof {
        let e0 = Seq::<Seq<char>>::empty();
        assert(head =~= e0 + when(config.scan.actuator@.len() == 0, "Adaptive scan: device not selected"@)
            + when(config.scan.points == 0, "Adaptive scan: points must be > 0"@) + when(
            config.triggers.len() == 0,
            "Adaptive scan: at least one trigger required"@,
        ));
    }
    let mut i: usize = 0;
    while i < config.triggers.len()
        invariant
            i <= config.triggers.len(),
            texts(errors@) == head + triggers_errors(config.triggers@, i as int),
        decreases config.triggers.len() - i,
    {
        let ghost before = texts(errors@);
        match &config.triggers[i] {
            TriggerCondition::Threshold { device_id, .. } => {
                if device_id.as_str().unicode_len() == 0 {
                    errors.push(trigger_text(i + 1, "device not selected"));
                }
                proof {
                    assert(texts(errors@) =~= before + when(device_id@.len() == 0, trigger_message((i + 1) as nat, "device not selected"@)));
                }
            },
            TriggerCondition::PeakDetection { device_id, min_prominence, .. } => {
                if device_id.as_str().unicode_len() == 0 {
                    errors.push(trigger_text(i + 1, "device not selected"));
                }
                let ghost mid = texts(errors@);
                if min_prominence.is_nonpositive() {
                    errors.push(trigger_text(i + 1, "prominence must be > 0"));
                }
                proof {
                    assert(mid =~= before + when(device_id@.len() == 0, trigger_message((i + 1) as nat, "device not selected"@)));
                    assert(texts(errors@) =~= mid + when(real_nonpositive(*min_prominence), trigger_message((i + 1) as nat, "prominence must be > 0"@)));
                }
            },
        }
        proof {
            assert(texts(errors@) =~= before + trigger_errors(config.triggers@[i as int], i as nat));
            assert(head + triggers_errors(config.triggers@, i as int + 1) =~= head + triggers_errors(config.triggers@, i as int) + trigger_errors(config.triggers@[i as int], i as nat));
        }
        i = i + 1;
    }
    errors
}

/// "NodeId(<id>)", the editor's rendering of a node identifier.
pub open spec fn node_id_text(id: nat) -> Seq<char> {
    "NodeId("@ + decimal(id) + ")"@
}

fn push_node_id(s: &mut String, id: usize)
    ensures
        final(s)@ == old(s)@ + node_id_text(id as nat),
{
    push_str(s, "NodeId(");
    push_decimal(s, id as u64);
    push_str(s, ")");
    proof {
        assert(final(s)@ =~= old(s)@ + node_id_text(id as nat));
    }
}

/// Wire `k` leads from a body node of loop `l` back to `l` or to one of its ancestors.
pub open spec fn is_back_edge(g: GraphModel, l: int, k: int) -> bool {
    &&& 0 <= k < g.wires.len()
    &&& in_loop_body(g.wires@, l, g.wires@[k].from as int)
    &&& (g.wires@[k].to == l || is_ancestor(g.wires@, l, g.wires@[k].to as int))
}

/// The message reporting back edge `k` of loop `l`.
pub open spec fn back_edge_message(g: GraphModel, l: int, k: int) -> Seq<char> {
    let w = g.wires@[k];
    if w.to == l {
        "Loop body node "@ + node_id_text(g.nodes@[w.from as int].id as nat) + " connects back to loop "@
            + node_id_text(g.nodes@[l].id as nat) + " - would cause infinite recursion"@
    } else {
        "Loop body node "@ + node_id_text(g.nodes@[w.from as int].id as nat) + " connects back to ancestor "@
            + node_id_text(g.nodes@[w.to as int].id as nat) + " - would cause infinite recursion"@
    }
}

/// Message `m` reports back edge `k` of loop `l`, and no earlier wire from the
/// same body node is a back edge.
pub open spec fn is_first_back_edge_message(g: GraphModel, l: int, m: Seq<char>) -> bool {
    exists|k: int|
        #[trigger] is_back_edge(g, l, k) && m == back_edge_message(g, l, k) && forall|q: int|
            0 <= q < k && g.wires@[q].from == g.wires@[k].from ==> !is_back_edge(g, l, q)
}

/// Check that no body node of loop `l` wires back to the loop or to one of
/// its ancestors (which would recurse forever).
pub fn validate_loop_body(g: &GraphModel, l: usize) -> (r: Option<String>)
    requires
        g.wf(),
        l < g.nodes.len(),
    ensures
        r is None <==> forall|k: int| !is_back_edge(*g, l as int, k),
        r matches Some(m) ==> exists|k: int| is_back_edge(*g, l as int, k) && m@ == back_edge_message(*g, l as int, k),
        r matches Some(m) ==> is_first_back_edge_message(*g, l as int, m@),
{
    let n = g.nodes.len();
    let ancestors = find_ancestors(n, &g.wires, l);
    let body = find_loop_body_nodes(n, &g.wires, l);
    proof {
        assert forall|k: int| 0 <= k < g.wires.len() && #[trigger] is_back_edge(*g, l as int, k) implies exists|j: int|
            0 <= j < body.len() && body[j] == g.wires@[k].from by {
            assert(g.wires@[k].from < n);
            assert(lists(body@, g.wires@[k].from as int));
        }
    }
    let mut i: usize = 0;
    while i < body.len()
        invariant
            g.wf(),
            n == g.nodes.len(),
            l < n,
            ancestors.len() == n,
            forall|v: int| 0 <= v < n ==> ancestors[v] == is_ancestor(g.wires@, l as int, v),
            forall|v: int| 0 <= v < n ==> (lists(body@, v) <==> in_loop_body(g.wires@, l as int, v)),
            forall|j: int| 0 <= j < body.len() ==> body[j] < n,
            i <= body.len(),
            forall|k: int| 0 <= k < g.wires.len() && #[trigger] is_back_edge(*g, l as int, k) ==> exists|j: int|
                i <= j < body.len() && body[j] == g.wires@[k].from,
        decreases body.len() - i,
    {
        let b = body[i];
        let mut k: usize = 0;
        while k < g.wires.len()
            invariant
                g.wf(),
                n == g.nodes.len(),
                l < n,
                b < n,
                b == body[i as int],
                i < body.len(),
                ancestors.len() == n,
                forall|v: int| 0 <= v < n ==> ancestors[v] == is_ancestor(g.wires@, l as int, v),
                forall|v: int| 0 <= v < n ==> (lists(body@, v) <==> in_loop_body(g.wires@, l as int, v)),
                k <= g.wires.len(),
                forall|q: int| 0 <= q < k && g.wires@[q].from == b ==> !#[trigger] is_back_edge(*g, l as int, q),
            decreases g.wires.len() - k,
        {
            let w = g.wires[k];
            if w.from == b {
                proof {
                    assert(lists(body@, b as int));
                    assert(w.to < n);
                }
                if w.to == l {
                    let mut m = string_of("Loop body node ");
                    push_node_id(&mut m, g.nodes[b].id);
                    push_str(&mut m, " connects back to loop ");
                    push_node_id(&mut m, g.nodes[l].id);
                    push_str(&mut m, " - would cause infinite recursion");
                    proof {
                        assert(is_back_edge(*g, l as int, k as int));
                        assert(m@ =~= back_edge_message(*g, l as int, k as int));
                        assert(is_first_back_edge_message(*g, l as int, m@));
                    }
                    return Some(m);
                }
                if ancestors[w.to] {
                    let mut m = string_of("Loop body node ");
                    push_node_id(&mut m, g.nodes[b].id);
                    push_str(&mut m, " connects back to ancestor ");
                    push_node_id(&mut m, g.nodes[w.to].id);
                    push_str(&mut m, " - would cause infinite recursion");
                    proof {
                        assert(is_back_edge(*g, l as int, k as int));
                        assert(m@ =~= back_edge_message(*g, l as int, k as int));
                        assert(is_first_back_edge_message(*g, l as int, m@));
                    }
                    return Some(m);
                }
            }
            k = k + 1;
        }
        proof {
            assert forall|q: int| 0 <= q < g.wires.len() && #[trigger] is_back_edge(*g, l as int, q) implies exists|j: int|
                i + 1 <= j < body.len() && body[j] == g.wires@[q].from by {
                let j = choose|j: int| i <= j < body.len() && body[j] == g.wires@[q].from;
                if j == i {
                    assert(!is_back_edge(*g, l as int, q));
                }
            }
        }
        i = i + 1;
    }
    None
}

/// Node `v` is a Move node in relative mode.
pub open spec fn is_relative_move(g: GraphModel, v: int) -> bool {
    g.nodes@[v].node matches ExperimentNode::Move(c) && c.mode == MoveMode::Relative
}

/// The warning for a relative move at node position `v`.
pub open spec fn relative_move_message(g: GraphModel, v: int) -> Seq<char> {
    "Warning: Relative move in loop body (node "@ + node_id_text(g.nodes@[v].id as nat)
        + ") - position will compound each iteration"@
}

/// Warn when the body of loop `l` holds a relative move (its position would
/// compound with every iteration).
pub fn warn_relative_moves_in_loop(g: &GraphModel, l: usize) -> (r: Option<String>)
    requires
        g.wf(),
        l < g.nodes.len(),
    ensures
        r is None <==> forall|v: int| 0 <= v < g.nodes.len() && in_loop_body(g.wires@, l as int, v) ==> !is_relative_move(*g, v),
        r matches Some(m) ==> exists|v: int|
            0 <= v < g.nodes.len() && in_loop_body(g.wires@, l as int, v) && is_relative_move(*g, v)
                && m@ == relative_move_message(*g, v),
{
    let n = g.nodes.len();
    let body = find_loop_body_nodes(n, &g.wires, l);
    let mut i: usize = 0;
    while i < body.len()
        invariant
            n == g.nodes.len(),
            forall|v: int| 0 <= v < n ==> (lists(body@, v) <==> in_loop_body(g.wires@, l as int, v)),
            forall|j: int| 0 <= j < body.len() ==> body[j] < n,
            i <= body.len(),
            forall|j: int| 0 <= j < i ==> !is_relative_move(*g, #[trigger] body[j] as int),
        decreases body.len() - i,
    {
        let b = body[i];
        proof {
            assert(lists(body@, b as int));
        }
        match &g.nodes[b].node {
            ExperimentNode::Move(c) => {
                if let MoveMode::Relative = c.mode {
                    let mut m = string_of("Warning: Relative move in loop body (node ");
                    push_node_id(&mut m, g.nodes[b].id);
                    push_str(&mut m, ") - position will compound each iteration");
                    proof {
                        assert(m@ =~= relative_move_message(*g, b as int));
                        assert(is_relative_move(*g, b as int));
                        assert(in_loop_body(g.wires@, l as int, b as int));
                    }
                    return Some(m);
                }
            },
            _ => {},
        }
        i = i + 1;
    }
    proof {
        assert forall|v: int| 0 <= v < n && in_loop_body(g.wires@, l as int, v) implies !is_relative_move(*g, v) by {
            assert(lists(body@, v));
            let j = choose|j: int| #![auto] 0 <= j < body.len() && body[j] == v;
            assert(!is_relative_move(*g, body[j] as int));
        }
    }
    None
}

/// Node `v` passes the checks that `validate_loop_bodies` applies to it.
pub open spec fn node_checks_pass(g: GraphModel, v: int) -> bool {
    match g.nodes@[v].node {
        ExperimentNode::Loop(..) => (forall|k: int| !is_back_edge(g, v, k)) && (forall|x: int|
            0 <= x < g.nodes.len() && in_loop_body(g.wires@, v, x) ==> !is_relative_move(g, x)),
        ExperimentNode::NestedScan(c) => nested_scan_errors(c).len() == 0 && (forall|k: int|
            !is_back_edge(g, v, k)) && (forall|x: int|
            0 <= x < g.nodes.len() && in_loop_body(g.wires@, v, x) ==> !is_relative_move(g, x)),
        ExperimentNode::AdaptiveScan(c) => adaptive_scan_errors(c).len() == 0,
        _ => true,
    }
}

/// Node `v` is checked by `validate_loop_bodies`.
pub open spec fn is_checked_node(g: GraphModel, v: int) -> bool {
    match g.nodes@[v].node {
        ExperimentNode::Loop(..) | ExperimentNode::NestedScan(..) | ExperimentNode::AdaptiveScan(..) => true,
        _ => false,
    }
}

/// Message `m` reports a back edge of loop `v` (it names the infinite
/// recursion the edge would cause).
pub open spec fn is_back_edge_message(g: GraphModel, v: int, m: Seq<char>) -> bool {
    exists|k: int| #[trigger] is_back_edge(g, v, k) && m == back_edge_message(g, v, k)
}

/// Message `m` warns of a relative move in the body of loop `v`.
pub open spec fn is_relative_move_message(g: GraphModel, v: int, m: Seq<char>) -> bool {
    exists|x: int|
        0 <= x < g.nodes.len() && in_loop_body(g.wires@, v, x) && #[trigger] is_relative_move(g, x) && m
            == relative_move_message(g, x)
}

/// Message `m` is one that `validate_loop_bodies` gives for node `v`: a
/// configuration problem, a back edge, or a relative move in the body.
pub open spec fn is_node_message(g: GraphModel, v: int, m: Seq<char>) -> bool {
    match g.nodes@[v].node {
        ExperimentNode::Loop(..) => is_back_edge_message(g, v, m) || is_relative_move_message(g, v, m),
        ExperimentNode::NestedScan(c) => nested_scan_errors(c).contains(m) || is_back_edge_message(g, v, m)
            || is_relative_move_message(g, v, m),
        ExperimentNode::AdaptiveScan(c) => adaptive_scan_errors(c).contains(m),
        _ => false,
    }
}

/// Error `err` reports node position `x`: a checked node that fails its
/// checks, under its id, with one of its messages.
#[verifier::opaque]
pub open spec fn error_for_node(g: GraphModel, x: int, err: (usize, String)) -> bool {
    &&& 0 <= x < g.nodes.len()
    &&& is_checked_node(g, x)
    &&& !node_checks_pass(g, x)
    &&& g.nodes@[x].id == err.0
    &&& is_node_message(g, x, err.1@)
}

/// Error `err` reports some node that fails its checks.
pub open spec fn reports_failing_node(g: GraphModel, err: (usize, String)) -> bool {
    exists|x: int| #[trigger] error_for_node(g, x, err)
}

/// A message that may be missing, as a list of at most one.
pub open spec fn opt_msg(m: Option<Seq<char>>) -> Seq<Seq<char>> {
    match m {
        Some(x) => seq![x],
        None => Seq::empty(),
    }
}

/// The messages reported for node `v`, in order, given the back-edge and
/// relative-move messages found for its body: configuration problems
/// first, then the back edge, then the relative move.
pub open spec fn node_report(g: GraphModel, v: int, back: Option<Seq<char>>, rel: Option<Seq<char>>) -> Seq<Seq<char>> {
    match g.nodes@[v].node {
        ExperimentNode::Loop(..) => opt_msg(back) + opt_msg(rel),
        ExperimentNode::NestedScan(c) => nested_scan_errors(c) + opt_msg(back) + opt_msg(rel),
        ExperimentNode::AdaptiveScan(c) => adaptive_scan_errors(c),
        _ => Seq::empty(),
    }
}

/// Node `v` has a body (a loop or a nested scan).
pub open spec fn has_checked_body(g: GraphModel, v: int) -> bool {
    g.nodes@[v].node is Loop || g.nodes@[v].node is NestedScan
}

/// `back` and `rel` are what the body checks of node `v` find: a back-edge
/// message (the first from its body node) exactly when the body wires back,
/// and a relative-move warning exactly when the body holds a relative move;
/// nothing for a node without a body.
pub open spec fn findings_ok(g: GraphModel, v: int, back: Option<Seq<char>>, rel: Option<Seq<char>>) -> bool {
    if has_checked_body(g, v) {
        body_findings_ok(g, v, back, rel)
    } else {
        back is None && rel is None
    }
}

/// `back` and `rel` are what the body checks of node `v` find.
pub open spec fn body_findings_ok(g: GraphModel, v: int, back: Option<Seq<char>>, rel: Option<Seq<char>>) -> bool {
    &&& (back is None <==> forall|k: int| !is_back_edge(g, v, k))
    &&& (back matches Some(m) ==> is_first_back_edge_message(g, v, m))
    &&& (rel is None <==> forall|x: int|
        0 <= x < g.nodes.len() && in_loop_body(g.wires@, v, x) ==> !is_relative_move(g, x))
    &&& (rel matches Some(m) ==> is_relative_move_message(g, v, m))
}

/// Messages tagged with a node id.
pub open spec fn tagged(id: usize, msgs: Seq<Seq<char>>) -> Seq<(usize, Seq<char>)> {
    msgs.map_values(|m: Seq<char>| (id, m))
}

/// The reports of the first `k` nodes, in node order.
pub open spec fn report_upto(g: GraphModel, found: Seq<(Option<Seq<char>>, Option<Seq<char>>)>, k: int) -> Seq<
    (usize, Seq<char>),
>
    decreases k,
{
    if k <= 0 {
        Seq::empty()
    } else {
        report_upto(g, found, k - 1) + tagged(g.nodes@[k - 1].id, node_report(g, k - 1, found[k - 1].0, found[k - 1].1))
    }
}

/// Reported errors as plain values.
pub open spec fn errors_view(e: Seq<(usize, String)>) -> Seq<(usize, Seq<char>)> {
    e.map_values(|x: (usize, String)| (x.0, x.1@))
}

proof fn lemma_report_upto_prefix(g: GraphModel, a: Seq<(Option<Seq<char>>, Option<Seq<char>>)>, b: Seq<(Option<Seq<char>>, Option<Seq<char>>)>, k: int)
    requires
        0 <= k <= a.len(),
        k <= b.len(),
        forall|i: int| 0 <= i < k ==> a[i] == b[i],
    ensures
        report_upto(g, a, k) == report_upto(g, b, k),
    decreases k,
{
    if k > 0 {
        lemma_report_upto_prefix(g, a, b, k - 1);
    }
}

/// Append an optional message tagged with `id`.
fn push_opt(errors: &mut Vec<(usize, String)>, id: usize, m: Option<String>)
    ensures
        errors_view(final(errors)@) == errors_view(old(errors)@) + tagged(
            id,
            opt_msg(
                match m {
                    Some(s) => Some(s@),
                    None => None::<Seq<char>>,
                },
            ),
        ),
        final(errors)@.len() >= old(errors)@.len(),
        final(errors)@.take(old(errors)@.len() as int) == old(errors)@,
        final(errors)@.len() == old(errors)@.len() <==> m is None,
        m matches Some(s) ==> final(errors)@.len() == old(errors)@.len() + 1 && final(errors)@.last() == (id, s),
{
    let ghost before = errors@;
    match m {
        Some(s) => {
            errors.push((id, s));
            proof {
                assert(errors@.take(before.len() as int) =~= before);
                assert(errors_view(errors@) =~= errors_view(before) + tagged(id, opt_msg(Some(errors@.last().1@))));
            }
        },
        None => {
            proof {
                assert(errors@.take(before.len() as int) =~= before);
                assert(errors_view(errors@) =~= errors_view(before) + tagged(id, opt_msg(None)));
            }
        },
    }
}

/// An optional message as plain values.
pub open spec fn opt_text(m: Option<String>) -> Option<Seq<char>> {
    match m {
        Some(s) => Some(s@),
        None => None,
    }
}

/// Append messages tagged with `id`.
fn push_all(errors: &mut Vec<(usize, String)>, id: usize, list: &Vec<String>)
    ensures
        errors_view(final(errors)@) == errors_view(old(errors)@) + tagged(id, texts(list@)),
        final(errors)@.len() == old(errors)@.len() + list@.len(),
        final(errors)@.take(old(errors)@.len() as int) == old(errors)@,
        forall|e: int| old(errors)@.len() <= e < final(errors)@.len() ==> (#[trigger] final(errors)@[e]).0 == id
            && texts(list@).contains(final(errors)@[e].1@),
{
    let ghost before = errors@;
    let mut j: usize = 0;
    while j < list.len()
        invariant
            j <= list.len(),
            errors@.len() == before.len() + j,
            errors@.take(before.len() as int) == before,
            errors_view(errors@) == errors_view(before) + tagged(id, texts(list@).take(j as int)),
            forall|e: int| before.len() <= e < errors@.len() ==> (#[trigger] errors@[e]).0 == id
                && texts(list@).contains(errors@[e].1@),
        decreases list.len() - j,
    {
        let ghost prev = errors@;
        errors.push((id, list[j].clone()));
        proof {
            assert(errors@.take(before.len() as int) =~= prev.take(before.len() as int));
            assert(texts(list@)[j as int] == list@[j as int]@);
            assert(errors@[errors@.len() - 1].1@ == texts(list@)[j as int]);
            assert(texts(list@).take(j + 1) =~= texts(list@).take(j as int).push(texts(list@)[j as int]));
            assert(errors_view(errors@) =~= errors_view(prev).push((id, texts(list@)[j as int])));
            assert(errors_view(errors@) =~= errors_view(before) + tagged(id, texts(list@).take(j + 1)));
        }
        j = j + 1;
    }
    proof {
        assert(texts(list@).take(list@.len() as int) =~= texts(list@));
    }
}

/// Append the body findings of node `v`: a back-edge message, then a
/// relative-move warning, each when found.
fn push_body_findings(g: &GraphModel, v: usize, errors: &mut Vec<(usize, String)>)
    requires
        g.wf(),
        v < g.nodes.len(),
    ensures
        final(errors)@.len() >= old(errors)@.len(),
        final(errors)@.take(old(errors)@.len() as int) == old(errors)@,
        final(errors)@.len() == old(errors)@.len() <==> (forall|k: int| !is_back_edge(*g, v as int, k)) && (forall|x: int|
            0 <= x < g.nodes.len() && in_loop_body(g.wires@, v as int, x) ==> !is_relative_move(*g, x)),
        forall|e: int| old(errors)@.len() <= e < final(errors)@.len() ==> (#[trigger] final(errors)@[e]).0
            == g.nodes@[v as int].id && (is_back_edge_message(*g, v as int, final(errors)@[e].1@)
            || is_relative_move_message(*g, v as int, final(errors)@[e].1@)),
        exists|back: Option<Seq<char>>, rel: Option<Seq<char>>|
            #[trigger] body_findings_ok(*g, v as int, back, rel) && errors_view(final(errors)@) == errors_view(
                old(errors)@,
            ) + tagged(g.nodes@[v as int].id, opt_msg(back) + opt_msg(rel)),
{
    let id = g.nodes[v].id;
    let ghost e0 = errors@;
    let b = validate_loop_body(g, v);
    let ghost back = opt_text(b);
    push_opt(errors, id, b);
    let ghost e1 = errors@;
    let r = warn_relative_moves_in_loop(g, v);
    let ghost rel = opt_text(r);
    push_opt(errors, id, r);
    proof {
        assert(errors@.take(e1.len() as int).take(e0.len() as int) =~= errors@.take(e0.len() as int));
        assert(tagged(id, opt_msg(back) + opt_msg(rel)) =~= tagged(id, opt_msg(back)) + tagged(id, opt_msg(rel)));
        assert(errors_view(errors@) =~= errors_view(e0) + tagged(id, opt_msg(back) + opt_msg(rel)));
        assert(body_findings_ok(*g, v as int, back, rel));
        assert forall|e: int| e0.len() <= e < errors@.len() implies (#[trigger] errors@[e]).0 == id && (
            is_back_edge_message(*g, v as int, errors@[e].1@) || is_relative_move_message(*g, v as int, errors@[e].1@)) by {
            if e < e1.len() {
                assert(errors@[e] == errors@.take(e1.len() as int)[e]);
                assert(e1[e] == (id, b->Some_0));
            }
        }
    }
}

/// Append the problems of node `v`, each with the node's id.
#[verifier::rlimit(30)]
fn push_node_errors(g: &GraphModel, v: usize, errors: &mut Vec<(usize, String)>)
    requires
        g.wf(),
        v < g.nodes.len(),
    ensures
        final(errors)@.len() >= old(errors)@.len(),
        final(errors)@.take(old(errors)@.len() as int) == old(errors)@,
        final(errors)@.len() == old(errors)@.len() <==> node_checks_pass(*g, v as int),
        final(errors)@.len() > old(errors)@.len() ==> is_checked_node(*g, v as int),
        forall|e: int| old(errors)@.len() <= e < final(errors)@.len() ==> (#[trigger] final(errors)@[e]).0
            == g.nodes@[v as int].id && is_node_message(*g, v as int, final(errors)@[e].1@),
        forall|e: int| old(errors)@.len() <= e < final(errors)@.len() ==> error_for_node(*g, v as int, #[trigger] final(errors)@[e]),
        forall|e: int| old(errors)@.len() <= e < final(errors)@.len() ==> reports_failing_node(*g, #[trigger] final(errors)@[e]),
        exists|back: Option<Seq<char>>, rel: Option<Seq<char>>|
            #[trigger] findings_ok(*g, v as int, back, rel) && errors_view(final(errors)@) == errors_view(old(errors)@)
                + tagged(g.nodes@[v as int].id, node_report(*g, v as int, back, rel)),
{
    let id = g.nodes[v].id;
    let before = errors.len();
    let ghost old_errors = errors@;
    match &g.nodes[v].node {
        ExperimentNode::Loop(..) => {
            push_body_findings(g, v, errors);
            proof {
                let (bk, rl) = choose|bk: Option<Seq<char>>, rl: Option<Seq<char>>| #[trigger] body_findings_ok(*g, v as int, bk, rl)
                    && errors_view(errors@) == errors_view(old_errors) + tagged(id, opt_msg(bk) + opt_msg(rl));
                assert(findings_ok(*g, v as int, bk, rl));
                assert forall|e: int| before <= e < errors@.len() implies (#[trigger] errors@[e]).0 == id
                    && is_node_message(*g, v as int, errors@[e].1@) by {}
            }
        },
        ExperimentNode::NestedScan(config) => {
            let list = validate_nested_scan(config);
            push_all(errors, id, &list);
            let ghost e1 = errors@;
            push_body_findings(g, v, errors);
            proof {
                let (bk, rl) = choose|bk: Option<Seq<char>>, rl: Option<Seq<char>>| #[trigger] body_findings_ok(*g, v as int, bk, rl)
                    && errors_view(errors@) == errors_view(e1) + tagged(id, opt_msg(bk) + opt_msg(rl));
                assert(errors@.take(e1.len() as int).take(before as int) =~= errors@.take(before as int));
                assert(tagged(id, nested_scan_errors(*config) + (opt_msg(bk) + opt_msg(rl))) =~= tagged(
                    id,
                    nested_scan_errors(*config),
                ) + tagged(id, opt_msg(bk) + opt_msg(rl)));
                assert(nested_scan_errors(*config) + opt_msg(bk) + opt_msg(rl) =~= nested_scan_errors(*config) + (
                opt_msg(bk) + opt_msg(rl)));
                assert(findings_ok(*g, v as int, bk, rl));
                assert(list.len() == 0 <==> nested_scan_errors(*config).len() == 0);
                assert forall|e: int| before <= e < errors@.len() implies (#[trigger] errors@[e]).0 == id
                    && is_node_message(*g, v as int, errors@[e].1@) by {
                    if e < e1.len() {
                        assert(errors@.take(e1.len() as int)[e] == errors@[e]);
                        assert(e1[e] == errors@[e]);
                    }
                }
            }
        },
        ExperimentNode::AdaptiveScan(config) => {
            let list = validate_adaptive_scan(config);
            push_all(errors, id, &list);
            proof {
                assert(list.len() == 0 <==> adaptive_scan_errors(*config).len() == 0);
                assert(findings_ok(*g, v as int, None, None));
                assert(tagged(id, texts(list@)) == tagged(id, node_report(*g, v as int, None, None)));
                assert forall|e: int| before <= e < errors@.len() implies (#[trigger] errors@[e]).0 == id
                    && is_node_message(*g, v as int, errors@[e].1@) by {}
            }
        },
        _ => {
            proof {
                assert(errors_view(errors@) =~= errors_view(old_errors) + tagged(id, node_report(*g, v as int, None, None)));
                assert(findings_ok(*g, v as int, None, None));
            }
        },
    }
    proof {
        assert(errors@.take(before as int) =~= old_errors);
        reveal(error_for_node);
        assert forall|e: int| before <= e < errors@.len() implies error_for_node(*g, v as int, #[trigger] errors@[e]) by {
            assert(errors@.len() > before);
            assert(errors@[e].0 == id && is_node_message(*g, v as int, errors@[e].1@));
        }
        assert forall|e: int| before <= e < errors@.len() implies reports_failing_node(*g, #[trigger] errors@[e]) by {
            assert(error_for_node(*g, v as int, errors@[e]));
        }
    }
}

/// Validate every Loop, NestedScan and AdaptiveScan node: back edges, relative
/// moves in bodies, and configuration problems, each paired with the node's
/// id and with the message for that problem (`error_for_node`); every failing
/// node is reported. The list is exact (`report_upto`): nodes in order, each
/// with its configuration problems, then its back-edge message, then its
/// relative-move warning.
pub fn validate_loop_bodies(g: &GraphModel) -> (errors: Vec<(usize, String)>)
    requires
        g.wf(),
    ensures
        errors.len() == 0 <==> forall|v: int| 0 <= v < g.nodes.len() ==> node_checks_pass(*g, v),
        forall|e: int| 0 <= e < errors.len() ==> reports_failing_node(*g, #[trigger] errors@[e]),
        forall|v: int| 0 <= v < g.nodes.len() && !#[trigger] node_checks_pass(*g, v) ==> exists|e: int|
            0 <= e < errors.len() && (#[trigger] errors@[e]).0 == g.nodes@[v].id,
        exists|found: Seq<(Option<Seq<char>>, Option<Seq<char>>)>|
            found.len() == g.nodes.len() && (forall|v: int| 0 <= v < g.nodes.len() ==> #[trigger] findings_ok(
                *g,
                v,
                found[v].0,
                found[v].1,
            )) && errors_view(errors@) == #[trigger] report_upto(*g, found, g.nodes.len() as int),
{
    let mut errors: Vec<(usize, String)> = Vec::new();
    let ghost mut found: Seq<(Option<Seq<char>>, Option<Seq<char>>)> = Seq::empty();
    proof {
        assert(errors_view(errors@) =~= report_upto(*g, found, 0));
    }
    let n = g.nodes.len();
    let mut v: usize = 0;
    while v < n
        invariant
            g.wf(),
            n == g.nodes.len(),
            v <= n,
            errors.len() == 0 <==> forall|x: int| 0 <= x < v ==> node_checks_pass(*g, x),
            forall|e: int| 0 <= e < errors.len() ==> reports_failing_node(*g, #[trigger] errors@[e]),
            forall|x: int| 0 <= x < v && !#[trigger] node_checks_pass(*g, x) ==> exists|e: int|
                0 <= e < errors.len() && (#[trigger] errors@[e]).0 == g.nodes@[x].id,
            found.len() == v,
            forall|x: int| 0 <= x < v ==> #[trigger] findings_ok(*g, x, found[x].0, found[x].1),
            errors_view(errors@) == report_upto(*g, found, v as int),
        decreases n - v,
    {
        let before = errors.len();
        let ghost old_errors = errors@;
        push_node_errors(g, v, &mut errors);
        proof {
            let (bk, rl) = choose|bk: Option<Seq<char>>, rl: Option<Seq<char>>| #[trigger] findings_ok(*g, v as int, bk, rl)
                && errors_view(errors@) == errors_view(old_errors) + tagged(g.nodes@[v as int].id, node_report(*g, v as int, bk, rl));
            let f2 = found.push((bk, rl));
            lemma_report_upto_prefix(*g, found, f2, v as int);
            assert(report_upto(*g, f2, v + 1) == report_upto(*g, f2, v as int) + tagged(g.nodes@[v as int].id, node_report(*g, v as int, f2[v as int].0, f2[v as int].1)));
            assert(forall|x: int| 0 <= x < v ==> f2[x] == found[x]);
            found = f2;
            assert forall|e: int| 0 <= e < before implies errors@[e] == old_errors[e] by {
                assert(errors@.take(before as int)[e] == errors@[e]);
            }
            assert forall|e: int| 0 <= e < errors.len() implies reports_failing_node(*g, #[trigger] errors@[e]) by {
                if e < before {
                    assert(errors@[e] == old_errors[e]);
                }
            }
            assert forall|x: int| 0 <= x < v + 1 && !#[trigger] node_checks_pass(*g, x) implies exists|e: int|
                0 <= e < errors.len() && (#[trigger] errors@[e]).0 == g.nodes@[x].id by {
                if x < v {
                    let e = choose|e: int| 0 <= e < old_errors.len() && (#[trigger] old_errors[e]).0 == g.nodes@[x].id;
                    assert(errors@[e] == old_errors[e]);
                } else {
                    assert(errors@[before as int].0 == g.nodes@[x].id);
                }
            }
        }
        v = v + 1;
    }
    errors
}

proof fn lemma_when_contains(cond: bool, m: Seq<char>, x: Seq<char>)
    ensures
        (when(cond, m)).contains(x) <==> cond && x == m,
{
    if cond && x == m {
        assert(when(cond, m)[0] == x);
    }
}

proof fn lemma_then_when_contains(a: Seq<Seq<char>>, cond: bool, m: Seq<char>, x: Seq<char>)
    ensures
        (a + when(cond, m)).contains(x) <==> a.contains(x) || (cond && x == m),
{
    let w = a + when(cond, m);
    if a.contains(x) {
        let i = choose|i: int| 0 <= i < a.len() && a[i] == x;
        assert(w[i] == x);
    }
    if cond && x == m {
        assert(w[a.len() as int] == x);
    }
    if w.contains(x) {
        let i = choose|i: int| 0 <= i < w.len() && w[i] == x;
        if i < a.len() {
            assert(a[i] == x);
        }
    }
}

/// Each dimension check of a nested scan looks at its own dimension: a
/// missing device, a zero point count or a missing name is reported for the
/// inner (outer) scan exactly when the inner (outer) dimension has it,
/// whatever the other dimension holds.
pub proof fn lemma_nested_checks_follow_their_dimension(c: NestedScanConfig)
    ensures
        nested_scan_errors(c).contains("Inner scan: points must be > 0"@) <==> c.inner.points == 0,
        nested_scan_errors(c).contains("Outer scan: points must be > 0"@) <==> c.outer.points == 0,
        nested_scan_errors(c).contains("Inner scan: device not selected"@) <==> c.inner.actuator@.len() == 0,
        nested_scan_errors(c).contains("Outer scan: device not selected"@) <==> c.outer.actuator@.len() == 0,
        nested_scan_errors(c).contains("Inner scan: dimension name required"@) <==> c.inner.dimension_name@.len() == 0,
        nested_scan_errors(c).contains("Outer scan: dimension name required"@) <==> c.outer.dimension_name@.len() == 0,
{
    reveal_strlit("Outer scan: device not selected");
    reveal_strlit("Outer scan: points must be > 0");
    reveal_strlit("Outer scan: dimension name required");
    reveal_strlit("Inner scan: device not selected");
    reveal_strlit("Inner scan: points must be > 0");
    reveal_strlit("Inner scan: dimension name required");
    reveal_strlit("Warning: outer and inner use same actuator");
    reveal_strlit("Warning: outer and inner have same dimension name");
    let m1 = "Outer scan: device not selected"@;
    let m2 = "Outer scan: points must be > 0"@;
    let m3 = "Outer scan: dimension name required"@;
    let m4 = "Inner scan: device not selected"@;
    let m5 = "Inner scan: points must be > 0"@;
    let m6 = "Inner scan: dimension name required"@;
    let m7 = "Warning: outer and inner use same actuator"@;
    let m8 = "Warning: outer and inner have same dimension name"@;
    let ms = seq![m1, m2, m3, m4, m5, m6, m7, m8];
    assert forall|i: int, j: int| 0 <= i < j < 8 implies ms[i] != ms[j] by {
        if ms[i].len() == ms[j].len() {
            if ms[i][0] == ms[j][0] {
                assert(ms[i][12] != ms[j][12] || ms[i][11] != ms[j][11] || ms[i][6] != ms[j][6]);
            }
        }
    }
    let w1 = when(c.outer.actuator@.len() == 0, m1);
    let w2 = when(c.outer.points == 0, m2);
    let w3 = when(c.outer.dimension_name@.len() == 0, m3);
    let w4 = when(c.inner.actuator@.len() == 0, m4);
    let w5 = when(c.inner.points == 0, m5);
    let w6 = when(c.inner.dimension_name@.len() == 0, m6);
    let w7 = when(c.outer.actuator@ == c.inner.actuator@ && c.outer.actuator@.len() != 0, m7);
    let w8 = when(c.outer.dimension_name@ == c.inner.dimension_name@ && c.outer.dimension_name@.len() != 0, m8);
    assert(nested_scan_errors(c) == w1 + w2 + w3 + w4 + w5 + w6 + w7 + w8);
    assert forall|k: int| 0 <= k < 6 implies (#[trigger] nested_scan_errors(c).contains(ms[k])) <==> (
        (k == 0 && c.outer.actuator@.len() == 0) || (k == 1 && c.outer.points == 0) || (k == 2
            && c.outer.dimension_name@.len() == 0) || (k == 3 && c.inner.actuator@.len() == 0) || (k == 4
            && c.inner.points == 0) || (k == 5 && c.inner.dimension_name@.len() == 0)) by {
        let x = ms[k];
        lemma_when_contains(c.outer.actuator@.len() == 0, m1, x);
        lemma_then_when_contains(w1, c.outer.points == 0, m2, x);
        lemma_then_when_contains(w1 + w2, c.outer.dimension_name@.len() == 0, m3, x);
        lemma_then_when_contains(w1 + w2 + w3, c.inner.actuator@.len() == 0, m4, x);
        lemma_then_when_contains(w1 + w2 + w3 + w4, c.inner.points == 0, m5, x);
        lemma_then_when_contains(w1 + w2 + w3 + w4 + w5, c.inner.dimension_name@.len() == 0, m6, x);
        lemma_then_when_contains(
            w1 + w2 + w3 + w4 + w5 + w6,
            c.outer.actuator@ == c.inner.actuator@ && c.outer.actuator@.len() != 0,
            m7,
            x,
        );
        lemma_then_when_contains(
            w1 + w2 + w3 + w4 + w5 + w6 + w7,
            c.outer.dimension_name@ == c.inner.dimension_name@ && c.outer.dimension_name@.len() != 0,
            m8,
            x,
        );
        assert(x != m7 && x != m8);
    }
    assert(nested_scan_errors(c).contains(ms[0]) <==> c.outer.actuator@.len() == 0);
    assert(nested_scan_errors(c).contains(ms[1]) <==> c.outer.points == 0);
    assert(nested_scan_errors(c).contains(ms[2]) <==> c.outer.dimension_name@.len() == 0);
    assert(nested_scan_errors(c).contains(ms[3]) <==> c.inner.actuator@.len() == 0);
    assert(nested_scan_errors(c).contains(ms[4]) <==> c.inner.points == 0);
    assert(nested_scan_errors(c).contains(ms[5]) <==> c.inner.dimension_name@.len() == 0);
}

} // verus!
