//! Experiment node definitions for the graph editor.
//!
//! Real-valued settings (positions, durations, thresholds) are carried as the
//! IEEE-754 bit patterns of their `f64` values: the graph logic only passes
//! them on and tests their sign, and the numbers themselves are rendered by
//! the application.

use vstd::prelude::*;

verus! {

/// A real number, held as the bit pattern of an IEEE-754 double.
#[derive(Clone, Copy, Debug, PartialEq, Eq)]
pub struct Real {
    pub bits: u64,
}

/// Bit pattern of positive infinity; every larger magnitude is a NaN.
pub open spec fn infinity_bits() -> int {
    0x7FF0_0000_0000_0000
}

/// The magnitude bits (all bits but the sign).
pub open spec fn magnitude(bits: u64) -> int {
    bits as int % 0x8000_0000_0000_0000
}

/// The double is greater than zero (`x > 0.0`).
pub open spec fn real_positive(x: Real) -> bool {
    &&& (x.bits as int) < 0x8000_0000_0000_0000
    &&& 0 < x.bits as int <= infinity_bits()
}

/// The double is at most zero (`x <= 0.0`); false for a NaN.
pub open spec fn real_nonpositive(x: Real) -> bool {
    &&& magnitude(x.bits) <= infinity_bits()
    &&& !real_positive(x)
}

impl Real {
    /// `self > 0.0`.
    pub fn is_positive(&self) -> (r: bool)
        ensures
            r == real_positive(*self),
    {
        self.bits < 0x8000_0000_0000_0000 && 0 < self.bits && self.bits <= 0x7FF0_0000_0000_0000
    }

    /// `self <= 0.0`.
    pub fn is_nonpositive(&self) -> (r: bool)
        ensures
            r == real_nonpositive(*self),
    {
        let m = self.bits % 0x8000_0000_0000_0000;
        m <= 0x7FF0_0000_0000_0000 && !self.is_positive()
    }
}

/// Movement mode for Move nodes.
#[derive(Clone, Copy, Debug, PartialEq, Eq)]
pub enum MoveMode {
    Absolute,
    Relative,
}

impl Default for MoveMode {
    fn default() -> (r: Self)
        ensures
            r == MoveMode::Absolute,
    {
        MoveMode::Absolute
    }
}

/// Configuration for a Move node.
#[derive(Clone, Debug)]
pub struct MoveConfig {
    pub device: String,
    pub position: Real,
    pub mode: MoveMode,
    pub wait_settled: bool,
}

impl Default for MoveConfig {
    fn default() -> (r: Self)
        ensures
            r.device@ == Seq::<char>::empty(),
            r.position == (Real { bits: 0 }),
            r.mode == MoveMode::Absolute,
            r.wait_settled,
    {
        MoveConfig { device: String::new(), position: Real { bits: 0 }, mode: MoveMode::Absolute, wait_settled: true }
    }
}

/// Threshold operators for condition-based waits.
#[derive(Clone, Copy, Debug, PartialEq, Eq)]
pub enum ThresholdOp {
    LessThan,
    GreaterThan,
    EqualWithin { tolerance: Real },
}

impl Default for ThresholdOp {
    fn default() -> (r: Self)
        ensures
            r == ThresholdOp::LessThan,
    {
        ThresholdOp::LessThan
    }
}

/// Wait condition for Wait nodes.
#[derive(Clone, Debug)]
pub enum WaitCondition {
    /// Simple duration-based wait.
    Duration { milliseconds: Real },
    /// Wait until a threshold condition is met.
    Threshold { device_id: String, operator: ThresholdOp, value: Real, timeout_ms: Real },
    /// Wait until a value stabilizes.
    Stability { device_id: String, tolerance: Real, duration_ms: Real, timeout_ms: Real },
}

/// Bit pattern of 1000.0.
pub open spec fn thousand_bits() -> u64 {
    0x408F_4000_0000_0000
}

/// Bit pattern of 100.0.
pub open spec fn hundred_bits() -> u64 {
    0x4059_0000_0000_0000
}

impl Default for WaitCondition {
    fn default() -> (r: Self)
        ensures
            r matches WaitCondition::Duration { milliseconds } && milliseconds.bits == thousand_bits(),
    {
        WaitCondition::Duration { milliseconds: Real { bits: 0x408F_4000_0000_0000 } }
    }
}

/// Configuration for an Acquire node.
#[derive(Clone, Debug)]
pub struct AcquireConfig {
    pub detector: String,
    /// `None` uses the device default.
    pub exposure_ms: Option<Real>,
    /// 1 for a single frame, more for a burst.
    pub frame_count: u32,
}

impl Default for AcquireConfig {
    fn default() -> (r: Self)
        ensures
            r.detector@ == Seq::<char>::empty(),
            r.exposure_ms is None,
            r.frame_count == 1,
    {
        AcquireConfig { detector: String::new(), exposure_ms: None, frame_count: 1 }
    }
}

/// Loop termination modes.
#[derive(Clone, Debug)]
pub enum LoopTermination {
    /// Fixed number of iterations.
    Count { iterations: u32 },
    /// Loop until a condition is met, bounded by a safety limit.
    Condition { device_id: String, operator: ThresholdOp, value: Real, max_iterations: u32 },
    /// Loop until aborted, bounded by a safety limit.
    Infinite { max_iterations: u32 },
}

impl Default for LoopTermination {
    fn default() -> (r: Self)
        ensures
            r matches LoopTermination::Count { iterations } && iterations == 10,
    {
        LoopTermination::Count { iterations: 10 }
    }
}

/// Configuration for a Loop node.
#[derive(Clone, Debug)]
pub struct LoopConfig {
    pub termination: LoopTermination,
}

impl Default for LoopConfig {
    fn default() -> (r: Self)
        ensures
            r.termination matches LoopTermination::Count { iterations } && iterations == 10,
    {
        LoopConfig { termination: LoopTermination::default() }
    }
}

/// Single dimension of a scan.
#[derive(Clone, Debug)]
pub struct ScanDimension {
    /// Device ID of the actuator.
    pub actuator: String,
    /// Dimension name for data labelling.
    pub dimension_name: String,
    pub start: Real,
    pub stop: Real,
    pub points: u32,
}

impl Default for ScanDimension {
    fn default() -> (r: Self)
        ensures
            r.actuator@ == Seq::<char>::empty(),
            r.dimension_name@ == Seq::<char>::empty(),
            r.start.bits == 0,
            r.stop.bits == hundred_bits(),
            r.points == 10,
    {
        ScanDimension {
            actuator: String::new(),
            dimension_name: String::new(),
            start: Real { bits: 0 },
            stop: Real { bits: 0x4059_0000_0000_0000 },
            points: 10,
        }
    }
}

/// Configuration for a NestedScan node (outer and inner loop).
#[derive(Clone, Debug)]
pub struct NestedScanConfig {
    pub outer: ScanDimension,
    pub inner: ScanDimension,
    /// Warning threshold for deep nesting.
    pub nesting_warning_depth: u32,
}

impl Default for NestedScanConfig {
    fn default() -> (r: Self)
        ensures
            r.outer.dimension_name@ == "outer"@,
            r.inner.dimension_name@ == "inner"@,
            r.outer.actuator@ == Seq::<char>::empty(),
            r.inner.actuator@ == Seq::<char>::empty(),
            r.outer.start.bits == 0 && r.inner.start.bits == 0,
            r.outer.stop.bits == hundred_bits() && r.inner.stop.bits == hundred_bits(),
            r.outer.points == 10 && r.inner.points == 10,
            r.nesting_warning_depth == 3,
    {
        let mut outer = ScanDimension::default();
        outer.dimension_name = String::from_str("outer");
        let mut inner = ScanDimension::default();
        inner.dimension_name = String::from_str("inner");
        NestedScanConfig { outer, inner, nesting_warning_depth: 3 }
    }
}

/// Conditions that can trigger adaptive scan actions.
#[derive(Clone, Debug)]
pub enum TriggerCondition {
    /// Signal crosses a threshold.
    Threshold { device_id: String, operator: ThresholdOp, value: Real },
    /// Peak detected in a signal.
    PeakDetection { device_id: String, min_prominence: Real, min_height: Option<Real> },
}

impl Default for TriggerCondition {
    fn default() -> (r: Self)
        ensures
            r matches TriggerCondition::Threshold { device_id, operator, value } && device_id@
                == Seq::<char>::empty() && operator == ThresholdOp::GreaterThan && value.bits
                == thousand_bits(),
    {
        TriggerCondition::Threshold {
            device_id: String::new(),
            operator: ThresholdOp::GreaterThan,
            value: Real { bits: 0x408F_4000_0000_0000 },
        }
    }
}

/// Actions to take when a trigger fires.
#[derive(Clone, Copy, Debug, PartialEq, Eq)]
pub enum AdaptiveAction {
    /// Narrow range and increase resolution (2x).
    Zoom2x,
    /// Narrow range and increase resolution (4x).
    Zoom4x,
    /// Move the actuator to the detected peak.
    MoveToPeak,
    /// Trigger acquisition at the peak position.
    AcquireAtPeak,
    /// Record the peak location and continue unchanged.
    MarkAndContinue,
}

impl Default for AdaptiveAction {
    fn default() -> (r: Self)
        ensures
            r == AdaptiveAction::Zoom2x,
    {
        AdaptiveAction::Zoom2x
    }
}

/// The variant name of an action.
pub open spec fn action_name(a: AdaptiveAction) -> Seq<char> {
    match a {
        AdaptiveAction::Zoom2x => "Zoom2x"@,
        AdaptiveAction::Zoom4x => "Zoom4x"@,
        AdaptiveAction::MoveToPeak => "MoveToPeak"@,
        AdaptiveAction::AcquireAtPeak => "AcquireAtPeak"@,
        AdaptiveAction::MarkAndContinue => "MarkAndContinue"@,
    }
}

impl AdaptiveAction {
    /// The variant name, as its debug rendering prints it.
    pub fn name(&self) -> (r: &'static str)
        ensures
            r@ == action_name(*self),
    {
        match self {
            AdaptiveAction::Zoom2x => "Zoom2x",
            AdaptiveAction::Zoom4x => "Zoom4x",
            AdaptiveAction::MoveToPeak => "MoveToPeak",
            AdaptiveAction::AcquireAtPeak => "AcquireAtPeak",
            AdaptiveAction::MarkAndContinue => "MarkAndContinue",
        }
    }
}

/// How multiple trigger conditions combine.
#[derive(Clone, Copy, Debug, PartialEq, Eq)]
pub enum TriggerLogic {
    /// Fire if any trigger matches.
    Any,
    /// Fire only if all triggers match.
    All,
}

impl Default for TriggerLogic {
    fn default() -> (r: Self)
        ensures
            r == TriggerLogic::Any,
    {
        TriggerLogic::Any
    }
}

/// Configuration for an AdaptiveScan node.
#[derive(Clone, Debug)]
pub struct AdaptiveScanConfig {
    pub scan: ScanDimension,
    pub triggers: Vec<TriggerCondition>,
    pub trigger_logic: TriggerLogic,
    pub action: AdaptiveAction,
    /// Pause for user approval before the action.
    pub require_approval: bool,
}

impl Default for AdaptiveScanConfig {
    fn default() -> (r: Self)
        ensures
            r.scan.actuator@ == Seq::<char>::empty(),
            r.scan.points == 10,
            r.triggers.len() == 1,
            r.triggers[0] matches TriggerCondition::Threshold { device_id, operator, value }
                && device_id@ == Seq::<char>::empty() && operator == ThresholdOp::GreaterThan
                && value.bits == thousand_bits(),
            r.trigger_logic == TriggerLogic::Any,
            r.action == AdaptiveAction::Zoom2x,
            !r.require_approval,
    {
        let mut triggers = Vec::new();
        triggers.push(TriggerCondition::default());
        AdaptiveScanConfig {
            scan: ScanDimension::default(),
            triggers,
            trigger_logic: TriggerLogic::Any,
            action: AdaptiveAction::Zoom2x,
            require_approval: false,
        }
    }
}

/// Node types for experiment workflows.
#[derive(Clone, Debug)]
pub enum ExperimentNode {
    /// One-dimensional parameter scan.
    Scan { actuator: String, start: Real, stop: Real, points: u32 },
    /// Move an actuator to a position.
    Move(MoveConfig),
    /// Wait or delay.
    Wait { condition: WaitCondition },
    /// Single or burst acquisition from a detector.
    Acquire(AcquireConfig),
    /// Loop control.
    Loop(LoopConfig),
    /// Nested scan with outer and inner loop.
    NestedScan(NestedScanConfig),
    /// Scan that responds to acquired data.
    AdaptiveScan(AdaptiveScanConfig),
}

/// Human-readable name of a node type.
pub open spec fn node_name_spec(node: ExperimentNode) -> Seq<char> {
    match node {
        ExperimentNode::Scan { .. } => "Scan"@,
        ExperimentNode::Acquire(..) => "Acquire"@,
        ExperimentNode::Move(..) => "Move"@,
        ExperimentNode::Wait { .. } => "Wait"@,
        ExperimentNode::Loop(..) => "Loop"@,
        ExperimentNode::NestedScan(..) => "Nested Scan"@,
        ExperimentNode::AdaptiveScan(..) => "Adaptive Scan"@,
    }
}

impl ExperimentNode {
    /// Human-readable name of this node type.
    pub fn node_name(&self) -> (r: &'static str)
        ensures
            r@ == node_name_spec(*self),
    {
        match self {
            ExperimentNode::Scan { .. } => "Scan",
            ExperimentNode::Acquire(..) => "Acquire",
            ExperimentNode::Move(..) => "Move",
            ExperimentNode::Wait { .. } => "Wait",
            ExperimentNode::Loop(..) => "Loop",
            ExperimentNode::NestedScan(..) => "Nested Scan",
            ExperimentNode::AdaptiveScan(..) => "Adaptive Scan",
        }
    }

    /// A Scan node from 0 to 100 in 10 points, without actuator.
    pub fn default_scan() -> (r: Self)
        ensures
            r matches ExperimentNode::Scan { actuator, start, stop, points } && actuator@
                == Seq::<char>::empty() && start.bits == 0 && stop.bits == hundred_bits() && points
                == 10,
    {
        ExperimentNode::Scan {
            actuator: String::new(),
            start: Real { bits: 0 },
            stop: Real { bits: 0x4059_0000_0000_0000 },
            points: 10,
        }
    }

    /// An Acquire node with default settings.
    pub fn default_acquire() -> (r: Self)
        ensures
            r matches ExperimentNode::Acquire(c) && c.detector@ == Seq::<char>::empty()
                && c.exposure_ms is None && c.frame_count == 1,
    {
        ExperimentNode::Acquire(AcquireConfig::default())
    }

    /// A Move node with default settings.
    pub fn default_move() -> (r: Self)
        ensures
            r matches ExperimentNode::Move(c) && c.device@ == Seq::<char>::empty() && c.position.bits
                == 0 && c.mode == MoveMode::Absolute && c.wait_settled,
    {
        ExperimentNode::Move(MoveConfig::default())
    }

    /// A Wait node of one second.
    pub fn default_wait() -> (r: Self)
        ensures
            r matches ExperimentNode::Wait { condition } && condition matches WaitCondition::Duration {
                milliseconds,
            } && milliseconds.bits == thousand_bits(),
    {
        ExperimentNode::Wait { condition: WaitCondition::default() }
    }

    /// A Loop node of ten iterations.
    pub fn default_loop() -> (r: Self)
        ensures
            r matches ExperimentNode::Loop(c) && c.termination matches LoopTermination::Count {
                iterations,
            } && iterations == 10,
    {
        ExperimentNode::Loop(LoopConfig::default())
    }

    /// A NestedScan node with default settings.
    pub fn default_nested_scan() -> (r: Self)
        ensures
            r matches ExperimentNode::NestedScan(c) && c.outer.dimension_name@ == "outer"@
                && c.inner.dimension_name@ == "inner"@ && c.nesting_warning_depth == 3,
    {
        ExperimentNode::NestedScan(NestedScanConfig::default())
    }

    /// An AdaptiveScan node with default settings.
    pub fn default_adaptive_scan() -> (r: Self)
        ensures
            r matches ExperimentNode::AdaptiveScan(c) && c.triggers.len() == 1 && c.action
                == AdaptiveAction::Zoom2x && !c.require_approval,
    {
        ExperimentNode::AdaptiveScan(AdaptiveScanConfig::default())
    }
}

} // verus!
