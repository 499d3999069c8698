use daq_core::graph::codegen::{
    acquire_to_rhai, adaptive_scan_to_rhai, graph_to_rhai_script, indent_str, move_to_rhai,
    nested_scan_to_rhai, node_to_rhai, scan_to_rhai, script_for_graph, wait_to_rhai, NumberStyle,
    Script, ScriptPiece,
};
use daq_core::graph::nodes::{
    AcquireConfig, AdaptiveAction, AdaptiveScanConfig, ExperimentNode, LoopConfig, LoopTermination,
    MoveConfig, MoveMode, NestedScanConfig, Real, ScanDimension, ThresholdOp, TriggerCondition,
    TriggerLogic, WaitCondition,
};
use daq_core::graph::plan::loop_bodies;
use daq_core::panels::code_preview::CodePreviewPanel;
use daq_core::graph::structure::{GraphModel, GraphNode, Wire};

fn r(x: f64) -> Real {
    Real { bits: x.to_bits() }
}

fn render(s: &Script) -> String {
    let mut out = String::new();
    for p in s.pieces() {
        match p {
            ScriptPiece::Text(t) => out.push_str(t),
            ScriptPiece::Number(style, x) => {
                let v = f64::from_bits(x.bits);
                match style {
                    NumberStyle::Plain => out.push_str(&format!("{}", v)),
                    NumberStyle::OneDecimal => out.push_str(&format!("{:.1}", v)),
                    NumberStyle::Seconds => out.push_str(&format!("{}", v / 1000.0)),
                }
            }
        }
    }
    out
}

fn scan_code(actuator: &str, start: f64, stop: f64, points: u32, indent: usize) -> String {
    let mut s = Script::new();
    scan_to_rhai(&mut s, actuator, r(start), r(stop), points, indent);
    render(&s)
}

#[test]
fn test_scan_to_rhai() {
    let code = scan_code("stage_x", 0.0, 100.0, 10, 0);
    assert!(code.contains("for i in 0..10"));
    assert!(code.contains(".move_abs(pos)"));
    assert!(code.contains("yield_event"));
    assert!(code.contains("// Scan stage_x from 0.0 to 100.0 in 10 steps"));
}

#[test]
fn test_scan_to_rhai_empty_actuator() {
    let code = scan_code("", 0.0, 100.0, 10, 0);
    assert!(code.contains("WARNING"));
}

#[test]
fn test_scan_to_rhai_zero_points() {
    let code = scan_code("stage_x", 0.0, 100.0, 0, 0);
    assert!(code.contains("WARNING"));
    assert!(code.contains("zero points"));
}

#[test]
fn scan_code_is_exact() {
    let code = scan_code("x", 0.5, 2.0, 3, 1);
    let expected = "  // Scan x from 0.5 to 2.0 in 3 steps\n  for i in 0..3 {\n    let pos = 0.5 + (2 - 0.5) * i / (3 - 1);\n    x.move_abs(pos);\n    x.wait_settled();\n    yield_event(#{ \"x\": pos });\n  }\n";
    assert_eq!(code, expected);
    let single = scan_code("x", 1.0, 2.0, 1, 0);
    assert!(single.contains("  let pos = 1;\n"));
}

#[test]
fn test_move_to_rhai_absolute() {
    let config = MoveConfig {
        device: "stage_y".to_string(),
        position: r(42.5),
        mode: MoveMode::Absolute,
        wait_settled: true,
    };
    let mut s = Script::new();
    move_to_rhai(&mut s, &config, 0);
    let code = render(&s);
    assert!(code.contains("stage_y.move_abs(42.5)"));
    assert!(code.contains("wait_settled"));
    assert!(code.contains("// Move stage_y to absolute position 42.5"));
}

#[test]
fn test_move_to_rhai_relative() {
    let config = MoveConfig {
        device: "stage_z".to_string(),
        position: r(10.0),
        mode: MoveMode::Relative,
        wait_settled: false,
    };
    let mut s = Script::new();
    move_to_rhai(&mut s, &config, 0);
    let code = render(&s);
    assert!(code.contains("stage_z.move_rel(10)"));
    assert!(!code.contains("wait_settled"));
    assert!(code.contains("// Move stage_z by relative distance 10"));
}

fn wait_code(c: &WaitCondition) -> String {
    let mut s = Script::new();
    wait_to_rhai(&mut s, c, 0);
    render(&s)
}

#[test]
fn test_wait_to_rhai_duration() {
    let code = wait_code(&WaitCondition::Duration { milliseconds: r(2500.0) });
    assert!(code.contains("sleep(2.5)"));
    assert!(code.contains("// Wait for 2.5 seconds"));
}

#[test]
fn test_wait_to_rhai_threshold() {
    let code = wait_code(&WaitCondition::Threshold {
        device_id: "sensor".to_string(),
        operator: ThresholdOp::GreaterThan,
        value: r(5.0),
        timeout_ms: r(1000.0),
    });
    assert!(code.contains("TODO"));
    assert!(code.contains("sensor"));
    assert!(code.contains(">"));
    assert!(code.contains("5"));
    assert!(code.contains("// TODO: Wait until sensor > 5 (timeout: 1000ms)\n"));
    assert!(code.contains("sleep(1);\n"));
}

#[test]
fn test_wait_to_rhai_stability() {
    let code = wait_code(&WaitCondition::Stability {
        device_id: "power_meter".to_string(),
        tolerance: r(0.1),
        duration_ms: r(500.0),
        timeout_ms: r(5000.0),
    });
    assert!(code.contains("TODO"));
    assert!(code.contains("stabilizes"));
    assert!(code.contains("power_meter"));
    assert!(code.contains("stabilizes within ±0.1 for 500ms (timeout: 5000ms)"));
}

#[test]
fn wait_threshold_with_tolerance() {
    let code = wait_code(&WaitCondition::Threshold {
        device_id: "d".to_string(),
        operator: ThresholdOp::EqualWithin { tolerance: r(0.5) },
        value: r(3.0),
        timeout_ms: r(250.0),
    });
    assert!(code.contains("// TODO: Wait until d == (±0.5) 3 (timeout: 250ms)\n"));
    assert!(code.contains("sleep(0.25);\n"));
}

fn acquire_code(c: &AcquireConfig) -> String {
    let mut s = Script::new();
    acquire_to_rhai(&mut s, c, 0);
    render(&s)
}

#[test]
fn test_acquire_to_rhai_single_frame() {
    let code = acquire_code(&AcquireConfig {
        detector: "camera".to_string(),
        exposure_ms: Some(r(100.0)),
        frame_count: 1,
    });
    assert!(code.contains("camera.set_exposure(100)"));
    assert!(code.contains("camera.trigger()"));
    assert!(code.contains("camera.read()"));
    assert!(!code.contains("for i in"));
}

#[test]
fn test_acquire_to_rhai_multiple_frames() {
    let code = acquire_code(&AcquireConfig {
        detector: "camera".to_string(),
        exposure_ms: None,
        frame_count: 5,
    });
    assert!(!code.contains("set_exposure"));
    assert!(code.contains("for i in 0..5"));
    assert!(code.contains("trigger()"));
    assert!(code.contains("read()"));
}

#[test]
fn acquire_skips_non_positive_exposure_and_warns_without_detector() {
    let code = acquire_code(&AcquireConfig {
        detector: "cam".to_string(),
        exposure_ms: Some(r(0.0)),
        frame_count: 1,
    });
    assert!(!code.contains("set_exposure"));
    let warn = acquire_code(&AcquireConfig { detector: String::new(), exposure_ms: None, frame_count: 1 });
    assert_eq!(warn, "// WARNING: Acquire node has no detector specified\n");
}

fn graph(nodes: Vec<ExperimentNode>, wires: Vec<(usize, usize, usize)>) -> GraphModel {
    GraphModel {
        nodes: nodes
            .into_iter()
            .enumerate()
            .map(|(i, node)| GraphNode { id: i, node })
            .collect(),
        wires: wires
            .into_iter()
            .map(|(from, output, to)| Wire { from, output, to, input: 0 })
            .collect(),
    }
}

fn count_loop(n: u32) -> ExperimentNode {
    ExperimentNode::Loop(LoopConfig { termination: LoopTermination::Count { iterations: n } })
}

#[test]
fn test_loop_to_rhai_count() {
    let g = graph(vec![count_loop(3)], vec![]);
    let bodies = loop_bodies(&g);
    let mut s = Script::new();
    node_to_rhai(&mut s, &g, &bodies, 0, 0, 1);
    let code = render(&s);
    assert!(code.contains("// Loop 3 times"));
    assert!(code.contains("for i in 0..3"));
    assert!(code.contains("// Loop body is empty"));
}

#[test]
fn loop_writes_its_body_inside() {
    let acquire = ExperimentNode::Acquire(AcquireConfig {
        detector: "cam".to_string(),
        exposure_ms: None,
        frame_count: 1,
    });
    let g = graph(vec![count_loop(2), acquire], vec![(0, 1, 1)]);
    let script = render(&script_for_graph(&g, Some("g"), "T"));
    assert!(script.contains("// === Node 1: Loop ===\n"));
    assert!(script.contains("for i in 0..2 {\n  // Acquire 1 frame(s) from cam\n  cam.trigger();\n  cam.read();\n}\n"));
    assert!(!script.contains("=== Node 2"));
}

#[test]
fn test_graph_to_rhai_empty() {
    let g = graph(vec![], vec![]);
    let script = render(&graph_to_rhai_script(&g, None));
    assert!(script.contains("ERROR: Graph is empty"));
}

#[test]
fn test_graph_to_rhai_single_node() {
    let g = graph(
        vec![ExperimentNode::Scan {
            actuator: "stage_x".to_string(),
            start: r(0.0),
            stop: r(100.0),
            points: 10,
        }],
        vec![],
    );
    let script = render(&graph_to_rhai_script(&g, Some("test.graph")));
    assert!(script.contains("// Generated Rhai script"));
    assert!(script.contains("// Source: test.graph"));
    assert!(script.contains("DO NOT EDIT"));
    assert!(script.contains("// === Node 1: Scan ==="));
    assert!(script.contains("for i in"));
}

#[test]
fn test_graph_to_rhai_cycle() {
    let g = graph(vec![], vec![]);
    let script = render(&graph_to_rhai_script(&g, None));
    assert!(script.contains("ERROR"));
}

#[test]
fn graph_without_roots_and_header() {
    let wait = || ExperimentNode::Wait { condition: WaitCondition::Duration { milliseconds: r(1.0) } };
    let g = graph(vec![wait(), wait()], vec![(0, 0, 1), (1, 0, 0)]);
    let script = render(&script_for_graph(&g, None, "2024-01-01T00:00:00+00:00"));
    assert!(script.starts_with(
        "// Generated Rhai script from visual experiment graph\n// Source: unsaved\n// Generated: 2024-01-01T00:00:00+00:00\n"
    ));
    assert!(script.ends_with(
        "// ERROR: Graph has no root nodes - all nodes have inputs (possible cycle)\n"
    ));
    let cyclic = graph(vec![wait(), wait(), wait()], vec![(0, 0, 1), (1, 0, 2), (2, 0, 1)]);
    let script = render(&script_for_graph(&cyclic, None, "t"));
    assert!(script.ends_with("// ERROR: Graph contains a cycle - cannot generate code\n"));
}

#[test]
fn test_indent_str() {
    assert_eq!(indent_str(0), "");
    assert_eq!(indent_str(1), "  ");
    assert_eq!(indent_str(2), "    ");
    assert_eq!(indent_str(3), "      ");
}

fn dimension(actuator: &str, stop: f64, points: u32, name: &str) -> ScanDimension {
    ScanDimension {
        actuator: actuator.to_string(),
        start: r(0.0),
        stop: r(stop),
        points,
        dimension_name: name.to_string(),
    }
}

#[test]
fn test_nested_scan_to_rhai() {
    let config = NestedScanConfig {
        outer: dimension("stage_x", 100.0, 10, "x_pos"),
        inner: dimension("stage_y", 50.0, 5, "y_pos"),
        nesting_warning_depth: 3,
    };
    let mut s = Script::new();
    nested_scan_to_rhai(&mut s, &config, 0);
    let code = render(&s);
    assert!(code.contains("// Nested scan: x_pos x y_pos"), "Should have dimension names in comment");
    assert!(code.contains("for outer_i in 0..10"), "Should have outer for loop with 10 points");
    assert!(code.contains("for inner_i in 0..5"), "Should have inner for loop with 5 points");
    assert!(code.contains("stage_x.move_abs(outer_pos)"), "Should move outer actuator");
    assert!(code.contains("stage_y.move_abs(inner_pos)"), "Should move inner actuator");
    assert!(code.contains("stage_x.wait_settled()"), "Should wait for outer actuator");
    assert!(code.contains("stage_y.wait_settled()"), "Should wait for inner actuator");
    assert!(code.contains("yield_event"), "Should yield event at each point");
    assert!(code.contains("x_pos") && code.contains("y_pos"), "yield_event should include both dimension names");
    let lines: Vec<&str> = code.lines().collect();
    let outer_loop_line = lines.iter().find(|l| l.contains("for outer_i")).unwrap();
    let inner_loop_line = lines.iter().find(|l| l.contains("for inner_i")).unwrap();
    let outer_indent = outer_loop_line.len() - outer_loop_line.trim_start().len();
    let inner_indent = inner_loop_line.len() - inner_loop_line.trim_start().len();
    assert!(inner_indent > outer_indent, "Inner loop should be more indented than outer loop");
}

#[test]
fn test_nested_scan_to_rhai_empty_actuator_warning() {
    let config = NestedScanConfig {
        outer: dimension("", 100.0, 10, "x"),
        inner: dimension("", 50.0, 5, "y"),
        nesting_warning_depth: 3,
    };
    let mut s = Script::new();
    nested_scan_to_rhai(&mut s, &config, 0);
    let code = render(&s);
    assert!(code.contains("WARNING"), "Should warn about empty actuators");
}

#[test]
fn adaptive_scan_documents_triggers_and_action() {
    let config = AdaptiveScanConfig {
        scan: dimension("stage", 10.0, 5, "pos"),
        triggers: vec![
            TriggerCondition::Threshold {
                device_id: "pd".to_string(),
                operator: ThresholdOp::EqualWithin { tolerance: r(0.5) },
                value: r(2.0),
            },
            TriggerCondition::PeakDetection {
                device_id: "pm".to_string(),
                min_prominence: r(1.5),
                min_height: Some(r(3.0)),
            },
        ],
        trigger_logic: TriggerLogic::All,
        action: AdaptiveAction::MoveToPeak,
        require_approval: true,
    };
    let mut s = Script::new();
    adaptive_scan_to_rhai(&mut s, &config, 0);
    let code = render(&s);
    assert!(code.contains("// Adaptive scan: stage from 0.0 to 10.0 (5 points)\n"));
    assert!(code.contains("// Triggers (All logic):\n"));
    assert!(code.contains("//   1: pd == (+/-0.5) 2\n"));
    assert!(code.contains("//   2: Peak detection on pm (prominence >= 1.5, height >= 3)\n"));
    assert!(code.contains("// Action: Move to detected peak position\n"));
    assert!(code.contains("// (requires user approval before action)\n"));
    assert!(code.contains("for i in 0..5 {\n"));
}

#[test]
fn code_preview_regenerates_only_when_shown_and_changed() {
    let g = graph(vec![count_loop(2)], vec![]);
    let mut panel = CodePreviewPanel::new();
    assert!(!panel.is_visible());
    panel.update(&g, 1);
    assert!(panel.script().is_none());
    panel.toggle();
    assert!(panel.is_visible());
    panel.update(&g, 1);
    let code = render(panel.script().unwrap());
    assert!(code.contains("// Loop 2 times"));
    let g2 = graph(vec![count_loop(5)], vec![]);
    panel.update(&g2, 1);
    assert!(render(panel.script().unwrap()).contains("// Loop 2 times"));
    panel.update(&g2, 2);
    assert!(render(panel.script().unwrap()).contains("// Loop 5 times"));
}
