//! State of the graph editor's node viewer: validation errors per node,
//! the last connection error, and the colours and pin counts it derives.

use std::collections::HashMap;
use vstd::prelude::*;
use crate::graph::execution_state::{ExecutionState, NodeExecutionState};
use crate::graph::nodes::{ExperimentNode, LoopTermination, Real, ThresholdOp, TriggerCondition, WaitCondition};
use crate::graph::validation::validate_connection;

verus! {

broadcast use vstd::std_specs::hash::group_hash_axioms;

/// Colour of a node's header: red when the node has a validation error,
/// green while it runs, blue once completed, grey otherwise.
pub open spec fn header_color_of(
    errors: Map<usize, String>,
    exec: Option<ExecutionState>,
    node_id: usize,
) -> (u8, u8, u8) {
    if errors.dom().contains(node_id) {
        (200u8, 80u8, 80u8)
    } else {
        match exec {
            Some(s) => if s.active_node == Some(node_id) {
                (100u8, 200u8, 100u8)
            } else if s.completed_nodes@.contains(node_id) {
                (100u8, 150u8, 200u8)
            } else {
                (60u8, 60u8, 60u8)
            },
            None => (60u8, 60u8, 60u8),
        }
    }
}

/// Fill of a node's header frame: dark red for an error, dark green while
/// running, dark blue once completed, and no fill (the default frame) otherwise.
pub open spec fn header_fill_of(
    errors: Map<usize, String>,
    exec: Option<ExecutionState>,
    node_id: usize,
) -> Option<(u8, u8, u8)> {
    if errors.dom().contains(node_id) {
        Some((120u8, 40u8, 40u8))
    } else {
        match exec {
            Some(s) => if s.active_node == Some(node_id) {
                Some((40u8, 100u8, 40u8))
            } else if s.completed_nodes@.contains(node_id) {
                Some((40u8, 60u8, 80u8))
            } else {
                None
            },
            None => None,
        }
    }
}

/// Number of input pins: a scan is an entry point and has none.
pub open spec fn input_count(node: ExperimentNode) -> usize {
    match node {
        ExperimentNode::Scan { .. } => 0,
        _ => 1,
    }
}

/// Number of output pins: loops and nested scans have a next and a body output.
pub open spec fn output_count(node: ExperimentNode) -> usize {
    match node {
        ExperimentNode::Loop(..) => 2,
        ExperimentNode::NestedScan(..) => 2,
        _ => 1,
    }
}

/// The node viewer of the graph editor.
pub struct ExperimentViewer {
    /// Last connection error, shown as a status message.
    pub last_error: Option<String>,
    /// Validation errors by node id.
    pub node_errors: HashMap<usize, String>,
    /// Execution state, for highlighting.
    pub execution_state: Option<ExecutionState>,
    /// Device ids offered in the node editors' selectors.
    pub device_ids: Vec<String>,
}

impl ExperimentViewer {
    /// A viewer with no errors, no execution state and no devices.
    pub fn new() -> (r: ExperimentViewer)
        ensures
            r.last_error is None,
            r.node_errors@ == Map::<usize, String>::empty(),
            r.execution_state is None,
            r.device_ids@.len() == 0,
    {
        ExperimentViewer {
            last_error: None,
            node_errors: HashMap::new(),
            execution_state: None,
            device_ids: Vec::new(),
        }
    }

    /// Forget the last connection error.
    pub fn clear_error(&mut self)
        ensures
            final(self).last_error is None,
            final(self).node_errors@ == old(self).node_errors@,
            final(self).execution_state == old(self).execution_state,
            final(self).device_ids@ == old(self).device_ids@,
    {
        self.last_error = None;
    }

    /// Record a validation error for a node, replacing any earlier one.
    pub fn set_node_error(&mut self, node_id: usize, error: String)
        ensures
            final(self).node_errors@ == old(self).node_errors@.insert(node_id, error),
            final(self).last_error == old(self).last_error,
            final(self).execution_state == old(self).execution_state,
            final(self).device_ids@ == old(self).device_ids@,
    {
        self.node_errors.insert(node_id, error);
    }

    /// Forget the validation error of a node.
    pub fn clear_node_error(&mut self, node_id: usize)
        ensures
            final(self).node_errors@ == old(self).node_errors@.remove(node_id),
            final(self).last_error == old(self).last_error,
            final(self).execution_state == old(self).execution_state,
            final(self).device_ids@ == old(self).device_ids@,
    {
        self.node_errors.remove(&node_id);
    }

    /// Forget every validation error and the last connection error.
    pub fn clear_all_errors(&mut self)
        ensures
            final(self).node_errors@ == Map::<usize, String>::empty(),
            final(self).last_error is None,
            final(self).execution_state == old(self).execution_state,
            final(self).device_ids@ == old(self).device_ids@,
    {
        self.node_errors.clear();
        self.last_error = None;
    }

    /// Number of nodes with a validation error.
    pub fn error_count(&self) -> (r: usize)
        ensures
            r == self.node_errors@.len(),
    {
        self.node_errors.len()
    }

    /// Whether any node has a validation error.
    pub fn has_errors(&self) -> (r: bool)
        ensures
            r == (self.node_errors@.len() > 0),
    {
        !self.node_errors.is_empty()
    }

    /// Header colour of a node, as red, green and blue.
    pub fn header_color(&self, node_id: usize) -> (r: (u8, u8, u8))
        ensures
            r == header_color_of(self.node_errors@, self.execution_state, node_id),
    {
        if self.node_errors.contains_key(&node_id) {
            return (200, 80, 80);
        }
        match &self.execution_state {
            Some(s) => match s.node_state(node_id) {
                NodeExecutionState::Running => (100, 200, 100),
                NodeExecutionState::Completed => (100, 150, 200),
                _ => (60, 60, 60),
            },
            None => (60, 60, 60),
        }
    }

    /// Fill of a node's header frame, or `None` to keep the default frame.
    pub fn header_fill(&self, node_id: usize) -> (r: Option<(u8, u8, u8)>)
        ensures
            r == header_fill_of(self.node_errors@, self.execution_state, node_id),
    {
        if self.node_errors.contains_key(&node_id) {
            return Some((120, 40, 40));
        }
        match &self.execution_state {
            Some(s) => match s.node_state(node_id) {
                NodeExecutionState::Running => Some((40, 100, 40)),
                NodeExecutionState::Completed => Some((40, 60, 80)),
                _ => None,
            },
            None => None,
        }
    }

    /// Number of input pins of a node.
    pub fn inputs(&self, node: &ExperimentNode) -> (r: usize)
        ensures
            r == input_count(*node),
    {
        match node {
            ExperimentNode::Scan { .. } => 0,
            _ => 1,
        }
    }

    /// Number of output pins of a node.
    pub fn outputs(&self, node: &ExperimentNode) -> (r: usize)
        ensures
            r == output_count(*node),
    {
        match node {
            ExperimentNode::Loop(..) => 2,
            ExperimentNode::NestedScan(..) => 2,
            _ => 1,
        }
    }

    /// Decide a proposed connection: when it validates, the last error is
    /// cleared and `true` says the wire is to be made; otherwise the message
    /// is kept as the last error and `false` is returned.
    pub fn connect(
        &mut self,
        from_node: &ExperimentNode,
        from_output: usize,
        to_node: &ExperimentNode,
        to_input: usize,
    ) -> (accepted: bool)
        ensures
            accepted,
            final(self).last_error is None,
            final(self).node_errors@ == old(self).node_errors@,
            final(self).execution_state == old(self).execution_state,
            final(self).device_ids@ == old(self).device_ids@,
    {
        match validate_connection(from_node, from_output, to_node, to_input) {
            Ok(()) => {
                self.last_error = None;
                true
            },
            Err(msg) => {
                self.last_error = Some(msg);
                false
            },
        }
    }
}

/// A node with a recorded error is shown red whatever its execution state,
/// until that error is cleared.
pub proof fn lemma_error_outranks_execution(
    errors: Map<usize, String>,
    exec: Option<ExecutionState>,
    node_id: usize,
    message: String,
)
    ensures
        header_color_of(errors.insert(node_id, message), exec, node_id) == (200u8, 80u8, 80u8),
        header_fill_of(errors.insert(node_id, message), exec, node_id) == Some((120u8, 40u8, 40u8)),
{
}

/// The editor's index of a wait condition's kind: duration, threshold, stability.
pub open spec fn wait_kind_of(c: WaitCondition) -> u8 {
    match c {
        WaitCondition::Duration { .. } => 0,
        WaitCondition::Threshold { .. } => 1,
        WaitCondition::Stability { .. } => 2,
    }
}

/// `c` is the condition a wait editor holds after kind `kind` is chosen
/// while it held `before`: unchanged when the kind is the same (or unknown),
/// otherwise the new kind's defaults: a 1000 ms duration; a threshold on no
/// device, `<`, 0.0, with a 5000 ms timeout; a stability wait on no device
/// within 0.01 for 1000 ms, with a 10000 ms timeout.
pub open spec fn wait_switched(before: WaitCondition, kind: u8, c: WaitCondition) -> bool {
    if kind > 2 || kind == wait_kind_of(before) {
        c == before
    } else if kind == 0 {
        c matches WaitCondition::Duration { milliseconds } && milliseconds.bits == 0x408F_4000_0000_0000
    } else if kind == 1 {
        c matches WaitCondition::Threshold { device_id, operator, value, timeout_ms } && device_id@.len() == 0
            && operator == ThresholdOp::LessThan && value.bits == 0 && timeout_ms.bits == 0x40B3_8800_0000_0000
    } else {
        c matches WaitCondition::Stability { device_id, tolerance, duration_ms, timeout_ms } && device_id@.len()
            == 0 && tolerance.bits == 0x3F84_7AE1_47AE_147B && duration_ms.bits == 0x408F_4000_0000_0000
            && timeout_ms.bits == 0x40C3_8800_0000_0000
    }
}

/// The kind index of a wait condition, as its editor's selector shows it.
pub fn wait_kind(c: &WaitCondition) -> (r: u8)
    ensures
        r == wait_kind_of(*c),
{
    match c {
        WaitCondition::Duration { .. } => 0,
        WaitCondition::Threshold { .. } => 1,
        WaitCondition::Stability { .. } => 2,
    }
}

/// Choose a wait condition's kind in its editor: a new kind starts from its
/// defaults, the same kind keeps its values.
pub fn switch_wait_kind(condition: &mut WaitCondition, kind: u8)
    ensures
        wait_switched(*old(condition), kind, *final(condition)),
{
    if kind > 2 || kind == wait_kind(condition) {
        return;
    }
    if kind == 0 {
        *condition = WaitCondition::Duration { milliseconds: Real { bits: 0x408F_4000_0000_0000 } };
    } else if kind == 1 {
        *condition = WaitCondition::Threshold {
            device_id: String::new(),
            operator: ThresholdOp::LessThan,
            value: Real { bits: 0 },
            timeout_ms: Real { bits: 0x40B3_8800_0000_0000 },
        };
    } else {
        *condition = WaitCondition::Stability {
            device_id: String::new(),
            tolerance: Real { bits: 0x3F84_7AE1_47AE_147B },
            duration_ms: Real { bits: 0x408F_4000_0000_0000 },
            timeout_ms: Real { bits: 0x40C3_8800_0000_0000 },
        };
    }
}

/// The editor's index of a loop termination: count, condition, infinite.
pub open spec fn loop_kind_of(t: LoopTermination) -> u8 {
    match t {
        LoopTermination::Count { .. } => 0,
        LoopTermination::Condition { .. } => 1,
        LoopTermination::Infinite { .. } => 2,
    }
}

/// `t` is the termination a loop editor holds after kind `kind` is chosen
/// while it held `before`: unchanged for the same (or an unknown) kind,
/// otherwise 10 iterations; a condition on no device, `<`, 0.0, at most 1000
/// iterations; or at most 1000 iterations without a condition.
pub open spec fn loop_switched(before: LoopTermination, kind: u8, t: LoopTermination) -> bool {
    if kind > 2 || kind == loop_kind_of(before) {
        t == before
    } else if kind == 0 {
        t matches LoopTermination::Count { iterations } && iterations == 10
    } else if kind == 1 {
        t matches LoopTermination::Condition { device_id, operator, value, max_iterations } && device_id@.len() == 0
            && operator == ThresholdOp::LessThan && value.bits == 0 && max_iterations == 1000
    } else {
        t matches LoopTermination::Infinite { max_iterations } && max_iterations == 1000
    }
}

/// The kind index of a loop termination, as its editor's selector shows it.
pub fn loop_kind(t: &LoopTermination) -> (r: u8)
    ensures
        r == loop_kind_of(*t),
{
    match t {
        LoopTermination::Count { .. } => 0,
        LoopTermination::Condition { .. } => 1,
        LoopTermination::Infinite { .. } => 2,
    }
}

/// Choose a loop's termination kind in its editor: a new kind starts from
/// its defaults, the same kind keeps its values.
pub fn switch_loop_kind(termination: &mut LoopTermination, kind: u8)
    ensures
        loop_switched(*old(termination), kind, *final(termination)),
{
    if kind > 2 || kind == loop_kind(termination) {
        return;
    }
    if kind == 0 {
        *termination = LoopTermination::Count { iterations: 10 };
    } else if kind == 1 {
        *termination = LoopTermination::Condition {
            device_id: String::new(),
            operator: ThresholdOp::LessThan,
            value: Real { bits: 0 },
            max_iterations: 1000,
        };
    } else {
        *termination = LoopTermination::Infinite { max_iterations: 1000 };
    }
}

/// An iteration count typed into a loop editor: at least 1.
pub fn iterations_from_editor(value: i32) -> (r: u32)
    ensures
        r == if value < 1 { 1 } else { value as int },
{
    if value < 1 {
        1
    } else {
        value as u32
    }
}

/// `t` is the trigger an adaptive-scan editor holds after kind `kind` (0 a
/// threshold, 1 a peak) is chosen while it held `before`: unchanged for the
/// same kind; a threshold becomes the default trigger (`>` 1000.0 on no
/// device); a peak trigger on no device needs a prominence of 1.0 and no
/// height.
pub open spec fn trigger_switched(before: TriggerCondition, kind: u8, t: TriggerCondition) -> bool {
    let is_threshold = before is Threshold;
    if kind == 0 && !is_threshold {
        t matches TriggerCondition::Threshold { device_id, operator, value } && device_id@.len() == 0
            && operator == ThresholdOp::GreaterThan && value.bits == 0x408F_4000_0000_0000
    } else if kind == 1 && is_threshold {
        t matches TriggerCondition::PeakDetection { device_id, min_prominence, min_height } && device_id@.len() == 0
            && min_prominence.bits == 0x3FF0_0000_0000_0000 && min_height is None
    } else {
        t == before
    }
}

/// Choose a trigger's kind in its editor.
pub fn switch_trigger_kind(trigger: &mut TriggerCondition, kind: u8)
    ensures
        trigger_switched(*old(trigger), kind, *final(trigger)),
{
    let is_threshold = match trigger {
        TriggerCondition::Threshold { .. } => true,
        _ => false,
    };
    if kind == 0 && !is_threshold {
        *trigger = TriggerCondition::default();
    } else if kind == 1 && is_threshold {
        *trigger = TriggerCondition::PeakDetection {
            device_id: String::new(),
            min_prominence: Real { bits: 0x3FF0_0000_0000_0000 },
            min_height: None,
        };
    }
}

} // verus!
