use daq_core::graph::execution_state::ExecutionState;
use daq_core::graph::nodes::{ExperimentNode, LoopTermination, Real, ThresholdOp, TriggerCondition, WaitCondition};
use daq_core::graph::viewer::{
    iterations_from_editor, loop_kind, switch_loop_kind, switch_trigger_kind, switch_wait_kind, wait_kind,
    ExperimentViewer,
};

#[test]
fn viewer_tracks_node_errors() {
    let mut v = ExperimentViewer::new();
    assert!(!v.has_errors());
    assert_eq!(v.error_count(), 0);
    v.set_node_error(3, "bad".to_string());
    v.set_node_error(3, "worse".to_string());
    v.set_node_error(5, "bad".to_string());
    assert_eq!(v.error_count(), 2);
    assert_eq!(v.node_errors.get(&3).map(|s| s.as_str()), Some("worse"));
    v.clear_node_error(3);
    assert_eq!(v.error_count(), 1);
    v.last_error = Some("oops".to_string());
    v.clear_all_errors();
    assert!(!v.has_errors());
    assert!(v.last_error.is_none());
}

#[test]
fn viewer_header_colors_follow_errors_then_execution() {
    let mut v = ExperimentViewer::new();
    assert_eq!(v.header_color(0), (60, 60, 60));
    assert_eq!(v.header_fill(0), None);
    let mut s = ExecutionState::new();
    s.start_execution("run".to_string(), 4);
    s.update_from_checkpoint("node_NodeId(1)_start");
    s.update_from_checkpoint("node_NodeId(1)_end");
    s.update_from_checkpoint("node_NodeId(2)_start");
    v.execution_state = Some(s);
    assert_eq!(v.header_color(1), (100, 150, 200));
    assert_eq!(v.header_fill(1), Some((40, 60, 80)));
    assert_eq!(v.header_color(2), (100, 200, 100));
    assert_eq!(v.header_fill(2), Some((40, 100, 40)));
    v.set_node_error(1, "bad".to_string());
    assert_eq!(v.header_color(1), (200, 80, 80));
    assert_eq!(v.header_fill(1), Some((120, 40, 40)));
    assert_eq!(v.header_color(3), (60, 60, 60));
}

#[test]
fn viewer_pin_counts_and_connect() {
    let mut v = ExperimentViewer::new();
    let scan = ExperimentNode::default_scan();
    assert_eq!(v.inputs(&scan), 0);
    assert_eq!(v.outputs(&scan), 1);
    let lp = ExperimentNode::default_loop();
    assert_eq!(v.inputs(&lp), 1);
    assert_eq!(v.outputs(&lp), 2);
    v.last_error = Some("old".to_string());
    assert!(v.connect(&scan, 0, &lp, 0));
    assert!(v.last_error.is_none());
}

fn f(r: Real) -> f64 {
    f64::from_bits(r.bits)
}

#[test]
fn editor_kind_switches_reset_to_defaults() {
    let mut w = WaitCondition::Duration { milliseconds: Real { bits: 250.0f64.to_bits() } };
    switch_wait_kind(&mut w, 0);
    assert!(matches!(w, WaitCondition::Duration { milliseconds } if f(milliseconds) == 250.0));
    switch_wait_kind(&mut w, 1);
    match &w {
        WaitCondition::Threshold { device_id, operator, value, timeout_ms } => {
            assert!(device_id.is_empty());
            assert_eq!(*operator, ThresholdOp::LessThan);
            assert_eq!(f(*value), 0.0);
            assert_eq!(f(*timeout_ms), 5000.0);
        }
        _ => panic!("threshold expected"),
    }
    assert_eq!(wait_kind(&w), 1);
    switch_wait_kind(&mut w, 2);
    match &w {
        WaitCondition::Stability { tolerance, duration_ms, timeout_ms, .. } => {
            assert_eq!(f(*tolerance), 0.01);
            assert_eq!(f(*duration_ms), 1000.0);
            assert_eq!(f(*timeout_ms), 10000.0);
        }
        _ => panic!("stability expected"),
    }
    switch_wait_kind(&mut w, 0);
    assert!(matches!(w, WaitCondition::Duration { milliseconds } if f(milliseconds) == 1000.0));

    let mut t = LoopTermination::Count { iterations: 3 };
    switch_loop_kind(&mut t, 2);
    assert!(matches!(t, LoopTermination::Infinite { max_iterations: 1000 }));
    switch_loop_kind(&mut t, 1);
    assert!(matches!(t, LoopTermination::Condition { max_iterations: 1000, .. }));
    switch_loop_kind(&mut t, 0);
    assert!(matches!(t, LoopTermination::Count { iterations: 10 }));
    assert_eq!(loop_kind(&t), 0);
    assert_eq!(iterations_from_editor(-5), 1);
    assert_eq!(iterations_from_editor(42), 42);

    let mut g = TriggerCondition::default();
    switch_trigger_kind(&mut g, 1);
    assert!(matches!(g, TriggerCondition::PeakDetection { min_height: None, min_prominence, .. } if f(min_prominence) == 1.0));
    switch_trigger_kind(&mut g, 0);
    assert!(matches!(g, TriggerCondition::Threshold { operator: ThresholdOp::GreaterThan, value, .. } if f(value) == 1000.0));
}
