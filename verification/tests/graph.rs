use daq_core::graph::nodes::{
    AcquireConfig, AdaptiveAction, AdaptiveScanConfig, ExperimentNode, LoopConfig, LoopTermination,
    MoveConfig, MoveMode, NestedScanConfig, Real, ScanDimension, ThresholdOp, TriggerCondition,
    TriggerLogic,
};
use daq_core::graph::plan::{GraphPlan, PlanCommand};
use daq_core::graph::reach::find_loop_body_nodes;
use daq_core::graph::structure::{detect_cycles, validate_graph_structure, GraphModel, GraphNode, TranslationError, Wire};
use daq_core::graph::validation::{
    validate_adaptive_scan, validate_connection, validate_loop_bodies, validate_nested_scan,
};

fn r(x: f64) -> Real {
    Real { bits: x.to_bits() }
}

fn graph(nodes: Vec<ExperimentNode>, wires: Vec<(usize, usize, usize)>) -> GraphModel {
    GraphModel {
        nodes: nodes
            .into_iter()
            .enumerate()
            .map(|(i, node)| GraphNode { id: i, node })
            .collect(),
        wires: wires
            .into_iter()
            .map(|(from, output, to)| Wire { from, output, to, input: 0 })
            .collect(),
    }
}

fn count_loop(n: u32) -> ExperimentNode {
    ExperimentNode::Loop(LoopConfig { termination: LoopTermination::Count { iterations: n } })
}

fn camera() -> ExperimentNode {
    ExperimentNode::Acquire(AcquireConfig {
        detector: "camera".to_string(),
        exposure_ms: Some(r(100.0)),
        frame_count: 1,
    })
}

fn dimension(actuator: &str, stop: f64, points: u32, name: &str) -> ScanDimension {
    ScanDimension {
        actuator: actuator.to_string(),
        start: r(0.0),
        stop: r(stop),
        points,
        dimension_name: name.to_string(),
    }
}

fn checkpoints(plan: &GraphPlan) -> Vec<String> {
    plan.commands()
        .iter()
        .filter_map(|c| match c {
            PlanCommand::Checkpoint { label } => Some(label.clone()),
            _ => None,
        })
        .collect()
}

#[test]
fn test_empty_graph() {
    let g = graph(vec![], vec![]);
    let result = GraphPlan::from_graph(&g);
    assert!(matches!(result, Err(TranslationError::EmptyGraph)));
}

#[test]
fn test_single_node() {
    let g = graph(vec![ExperimentNode::default_scan()], vec![]);
    assert!(GraphPlan::from_graph(&g).is_ok());
}

#[test]
fn test_cycle_detection() {
    let g = graph(vec![], vec![]);
    assert!(detect_cycles(&g).is_none());
}

#[test]
fn test_loop_body_detection() {
    let g = graph(vec![count_loop(3), camera(), camera()], vec![(0, 1, 1), (1, 0, 2)]);
    let body_nodes = find_loop_body_nodes(g.nodes.len(), &g.wires, 0);
    assert_eq!(body_nodes.len(), 2);
    assert!(body_nodes.contains(&1));
    assert!(body_nodes.contains(&2));
}

#[test]
fn test_loop_unrolling() {
    let g = graph(vec![count_loop(3), camera()], vec![(0, 1, 1)]);
    let plan = GraphPlan::from_graph(&g).expect("Translation failed");
    let labels = checkpoints(&plan);
    let iteration_starts = labels.iter().filter(|l| l.contains("iter_") && l.contains("_start")).count();
    let iteration_ends = labels.iter().filter(|l| l.contains("iter_") && l.contains("_end")).count();
    assert_eq!(iteration_starts, 3, "Expected 3 loop iterations");
    assert_eq!(iteration_ends, 3, "Expected 3 loop iterations");
    let trigger_count = plan.commands().iter().filter(|c| matches!(c, PlanCommand::Trigger { .. })).count();
    assert_eq!(trigger_count, 3, "Expected 3 triggers (one per iteration)");
    assert_eq!(plan.num_points(), 3, "Expected 3 events total");
}

#[test]
fn test_nested_scan_event_count() {
    let g = graph(
        vec![ExperimentNode::NestedScan(NestedScanConfig {
            outer: dimension("stage_x", 100.0, 10, "x"),
            inner: dimension("stage_y", 50.0, 5, "y"),
            nesting_warning_depth: 3,
        })],
        vec![],
    );
    let plan = GraphPlan::from_graph(&g).expect("Translation failed");
    let emit_count = plan.commands().iter().filter(|c| matches!(c, PlanCommand::EmitEvent { .. })).count();
    assert_eq!(emit_count, 50, "Expected 50 EmitEvent commands (10 × 5)");
    assert_eq!(plan.num_points(), 50, "Expected 50 events total");
    assert!(plan.movers().contains(&"stage_x".to_string()), "Should include outer actuator");
    assert!(plan.movers().contains(&"stage_y".to_string()), "Should include inner actuator");
}

#[test]
fn test_nested_scan_with_body_nodes() {
    let g = graph(
        vec![
            ExperimentNode::NestedScan(NestedScanConfig {
                outer: dimension("stage_x", 10.0, 2, "x"),
                inner: dimension("stage_y", 20.0, 3, "y"),
                nesting_warning_depth: 3,
            }),
            camera(),
        ],
        vec![(0, 1, 1)],
    );
    let plan = GraphPlan::from_graph(&g).expect("Translation failed");
    let trigger_count = plan.commands().iter().filter(|c| matches!(c, PlanCommand::Trigger { .. })).count();
    assert_eq!(trigger_count, 6, "Expected 6 triggers (body executes at each outer × inner point)");
    assert_eq!(plan.num_points(), 12, "Expected 12 events (6 from scan + 6 from body)");
    assert!(plan.detectors().contains(&"camera".to_string()), "Should include body node detector");
}

#[test]
fn test_adaptive_scan_translation() {
    let g = graph(
        vec![ExperimentNode::AdaptiveScan(AdaptiveScanConfig {
            scan: ScanDimension {
                actuator: "wavelength".to_string(),
                dimension_name: "lambda".to_string(),
                start: r(400.0),
                stop: r(800.0),
                points: 5,
            },
            triggers: vec![
                TriggerCondition::Threshold {
                    device_id: "power_meter".to_string(),
                    operator: ThresholdOp::GreaterThan,
                    value: r(1000.0),
                },
                TriggerCondition::PeakDetection {
                    device_id: "power_meter".to_string(),
                    min_prominence: r(100.0),
                    min_height: None,
                },
            ],
            trigger_logic: TriggerLogic::Any,
            action: AdaptiveAction::Zoom2x,
            require_approval: true,
        })],
        vec![],
    );
    let plan = GraphPlan::from_graph(&g).expect("Translation failed");
    let labels = checkpoints(&plan);
    assert!(labels.iter().any(|l| l.contains("adaptive") && l.contains("start")), "Should have adaptive scan start checkpoint");
    let point_checkpoints = labels.iter().filter(|l| l.contains("point") && l.contains("triggers_2")).count();
    assert_eq!(point_checkpoints, 5, "Should have 5 point checkpoints with trigger count");
    assert!(labels.iter().any(|l| l.contains("evaluate_action") && l.contains("Zoom2x")), "Should have evaluate checkpoint with action");
    assert!(labels.iter().any(|l| l.contains("approval_required")), "Should have approval checkpoint when require_approval = true");
    assert_eq!(plan.num_points(), 5, "Should have 5 events");
    assert!(plan.movers().contains(&"wavelength".to_string()), "Should include wavelength actuator");
}

#[test]
fn test_adaptive_scan_without_approval() {
    let g = graph(
        vec![ExperimentNode::AdaptiveScan(AdaptiveScanConfig {
            scan: ScanDimension {
                actuator: "stage".to_string(),
                dimension_name: "pos".to_string(),
                start: r(0.0),
                stop: r(100.0),
                points: 10,
            },
            triggers: vec![TriggerCondition::default()],
            trigger_logic: TriggerLogic::Any,
            action: AdaptiveAction::MoveToPeak,
            require_approval: false,
        })],
        vec![],
    );
    let plan = GraphPlan::from_graph(&g).expect("Translation failed");
    assert!(!checkpoints(&plan).iter().any(|l| l.contains("approval_required")));
}

#[test]
fn plan_hands_out_commands_in_order() {
    let g = graph(vec![camera()], vec![]);
    let mut plan = GraphPlan::from_graph(&g).unwrap();
    let total = plan.commands().len();
    let mut handed = 0;
    while let Some(_) = plan.next_command() {
        handed += 1;
    }
    assert_eq!(handed, total);
    assert!(plan.next_command().is_none());
    plan.reset();
    assert!(matches!(plan.next_command(), Some(PlanCommand::Checkpoint { .. })));
    assert_eq!(plan.plan_type(), "graph_plan");
    assert_eq!(plan.plan_name(), "Graph Plan");
}

#[test]
fn structure_errors() {
    let wait = || ExperimentNode::default_wait();
    let all_inputs = graph(vec![wait(), wait()], vec![(0, 0, 1), (1, 0, 0)]);
    assert!(matches!(GraphPlan::from_graph(&all_inputs), Err(TranslationError::NoRootNodes)));
    let cyclic = graph(vec![wait(), wait(), wait()], vec![(0, 0, 1), (1, 0, 2), (2, 0, 1)]);
    assert!(matches!(GraphPlan::from_graph(&cyclic), Err(TranslationError::CycleDetected)));
    assert!(detect_cycles(&cyclic).is_some());
    assert!(validate_graph_structure(&cyclic).is_some());
    let chain = graph(vec![wait(), wait()], vec![(0, 0, 1)]);
    assert!(detect_cycles(&chain).is_none());
    assert!(validate_graph_structure(&chain).is_none());
}

#[test]
fn test_flow_to_flow_valid() {
    let scan = ExperimentNode::default_scan();
    let acquire = ExperimentNode::default_acquire();
    assert!(validate_connection(&scan, 0, &acquire, 0).is_ok());
}

#[test]
fn test_loop_body_to_flow_valid() {
    let loop_node = ExperimentNode::default_loop();
    let acquire = ExperimentNode::default_acquire();
    assert!(validate_connection(&loop_node, 1, &acquire, 0).is_ok());
}

#[test]
fn test_loop_next_to_flow_valid() {
    let loop_node = ExperimentNode::default_loop();
    let acquire = ExperimentNode::default_acquire();
    assert!(validate_connection(&loop_node, 0, &acquire, 0).is_ok());
}

#[test]
fn test_loop_backedge_detection() {
    let scan = ExperimentNode::Scan { actuator: "stage".to_string(), start: r(0.0), stop: r(100.0), points: 10 };
    let g = graph(vec![scan, count_loop(5), camera()], vec![(0, 0, 1), (1, 1, 2), (2, 0, 0)]);
    let errors = validate_loop_bodies(&g);
    assert!(!errors.is_empty(), "Should detect back-edge");
    assert!(errors[0].1.contains("infinite recursion"), "Error should mention infinite recursion: {}", errors[0].1);
}

fn mover(mode: MoveMode, position: f64) -> ExperimentNode {
    ExperimentNode::Move(MoveConfig { device: "stage".to_string(), position: r(position), mode, wait_settled: true })
}

#[test]
fn test_relative_move_warning() {
    let g = graph(vec![count_loop(5), mover(MoveMode::Relative, 10.0)], vec![(0, 1, 1)]);
    let warnings = validate_loop_bodies(&g);
    assert!(!warnings.is_empty(), "Should warn about relative move");
    assert!(warnings[0].1.contains("Relative move"), "Should mention relative move: {}", warnings[0].1);
}

#[test]
fn test_absolute_move_in_loop_ok() {
    let g = graph(vec![count_loop(5), mover(MoveMode::Absolute, 50.0)], vec![(0, 1, 1)]);
    let warnings = validate_loop_bodies(&g);
    assert!(warnings.is_empty(), "Absolute moves should not warn");
}

fn nested(outer: ScanDimension, inner: ScanDimension) -> NestedScanConfig {
    NestedScanConfig { outer, inner, nesting_warning_depth: 3 }
}

#[test]
fn test_nested_scan_validation_empty_actuators() {
    let errors = validate_nested_scan(&nested(dimension("", 100.0, 10, "x"), dimension("", 50.0, 5, "y")));
    assert!(errors.iter().any(|e| e.contains("Outer scan: device")));
    assert!(errors.iter().any(|e| e.contains("Inner scan: device")));
}

#[test]
fn test_nested_scan_validation_zero_points() {
    let errors = validate_nested_scan(&nested(dimension("stage_x", 100.0, 0, "x"), dimension("stage_y", 50.0, 0, "y")));
    assert!(errors.iter().any(|e| e.contains("points must be > 0")), "Should catch zero points: {:?}", errors);
}

#[test]
fn test_nested_scan_validation_same_actuator_warning() {
    let errors = validate_nested_scan(&nested(dimension("stage_x", 100.0, 10, "x"), dimension("stage_x", 50.0, 5, "y")));
    assert!(errors.iter().any(|e| e.contains("same actuator")), "Should warn about same actuator: {:?}", errors);
}

#[test]
fn test_nested_scan_validation_valid() {
    let errors = validate_nested_scan(&nested(dimension("stage_x", 100.0, 10, "x"), dimension("stage_y", 50.0, 5, "y")));
    assert!(errors.is_empty(), "Valid config should have no errors: {:?}", errors);
}

#[test]
fn test_nested_scan_body_validation() {
    let g = graph(
        vec![
            ExperimentNode::NestedScan(nested(dimension("stage_x", 100.0, 10, "x"), dimension("stage_y", 50.0, 5, "y"))),
            mover(MoveMode::Relative, 1.0),
        ],
        vec![(0, 1, 1)],
    );
    let warnings = validate_loop_bodies(&g);
    assert!(warnings.iter().any(|(_, msg)| msg.contains("Relative move")));
}

fn adaptive(actuator: &str, triggers: Vec<TriggerCondition>) -> AdaptiveScanConfig {
    AdaptiveScanConfig {
        scan: dimension(actuator, 100.0, 10, "pos"),
        triggers,
        trigger_logic: TriggerLogic::Any,
        action: AdaptiveAction::Zoom2x,
        require_approval: false,
    }
}

#[test]
fn test_adaptive_scan_validation_empty_actuator() {
    let errors = validate_adaptive_scan(&adaptive("", vec![TriggerCondition::default()]));
    assert!(errors.iter().any(|e| e.contains("device not selected")), "Should catch empty actuator: {:?}", errors);
}

#[test]
fn test_adaptive_scan_validation_no_triggers() {
    let errors = validate_adaptive_scan(&adaptive("stage", vec![]));
    assert!(errors.iter().any(|e| e.contains("at least one trigger")), "Should catch empty triggers: {:?}", errors);
}

#[test]
fn test_adaptive_scan_validation_trigger_no_device() {
    let errors = validate_adaptive_scan(&adaptive(
        "stage",
        vec![TriggerCondition::Threshold { device_id: String::new(), operator: ThresholdOp::GreaterThan, value: r(1.0) }],
    ));
    assert!(errors.iter().any(|e| e.contains("Trigger 1") && e.contains("device not selected")), "{:?}", errors);
}

#[test]
fn test_adaptive_scan_validation_peak_prominence() {
    let errors = validate_adaptive_scan(&adaptive(
        "stage",
        vec![TriggerCondition::PeakDetection { device_id: "sensor".to_string(), min_prominence: r(-1.0), min_height: None }],
    ));
    assert!(errors.iter().any(|e| e.contains("prominence must be > 0")), "{:?}", errors);
}

#[test]
fn test_adaptive_scan_validation_valid() {
    let mut config = adaptive(
        "wavelength",
        vec![
            TriggerCondition::Threshold { device_id: "power_meter".to_string(), operator: ThresholdOp::GreaterThan, value: r(1000.0) },
            TriggerCondition::PeakDetection { device_id: "power_meter".to_string(), min_prominence: r(100.0), min_height: None },
        ],
    );
    config.scan.points = 50;
    let errors = validate_adaptive_scan(&config);
    assert!(errors.is_empty(), "Valid config should have no errors: {:?}", errors);
}

#[test]
fn test_adaptive_scan_in_graph_validation() {
    let g = graph(vec![ExperimentNode::AdaptiveScan(adaptive("stage", vec![]))], vec![]);
    let errors = validate_loop_bodies(&g);
    assert!(errors.iter().any(|(_, msg)| msg.contains("at least one trigger")));
}

#[test]
fn topological_sort_follows_the_fifo_queue() {
    let adj = vec![vec![2, 1], vec![3], vec![3], vec![]];
    let sorted = daq_core::graph::structure::topological_sort(&adj, &vec![0], 4).expect("acyclic");
    assert_eq!(sorted, vec![0, 2, 1, 3]);
    let adj = vec![vec![2], vec![2], vec![]];
    let sorted = daq_core::graph::structure::topological_sort(&adj, &vec![1, 0], 3).expect("acyclic");
    assert_eq!(sorted, vec![1, 0, 2]);
}
