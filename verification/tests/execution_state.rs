use daq_core::graph::execution_state::{
    DimensionProgress, EngineStateLocal, ExecutionState, NestedProgress, NodeExecutionState,
};

#[test]
fn test_nested_progress_format_nested() {
    let progress = NestedProgress::new(vec![
        DimensionProgress::new("wavelength", 2, 10),
        DimensionProgress::new("position", 44, 100),
    ]);
    let nested = progress.format_nested();
    assert_eq!(nested, "wavelength 3/10, position 45/100");
}

#[test]
fn test_nested_progress_format_flat() {
    let mut progress = NestedProgress::new(vec![
        DimensionProgress::new("outer", 0, 10),
        DimensionProgress::new("inner", 0, 100),
    ]);
    progress.flat_current = 344;
    let pct = (progress.flat_current as f64 / progress.flat_total as f64) * 100.0;
    let flat = progress.format_flat(&format!("{:.1}", pct));
    assert!(flat.starts_with("345/1000 (34."));
    assert!(flat.ends_with("%)"));
}

#[test]
fn test_nested_progress_set_flat_current() {
    let mut progress = NestedProgress::new(vec![
        DimensionProgress::new("outer", 0, 10),
        DimensionProgress::new("inner", 0, 100),
    ]);
    progress.set_flat_current(344);
    assert_eq!(progress.dimensions[0].current, 3);
    assert_eq!(progress.dimensions[1].current, 44);
}

#[test]
fn test_nested_progress_three_dimensions() {
    let mut progress = NestedProgress::new(vec![
        DimensionProgress::new("z", 0, 5),
        DimensionProgress::new("y", 0, 10),
        DimensionProgress::new("x", 0, 20),
    ]);
    assert_eq!(progress.flat_total, 1000);
    progress.set_flat_current(234);
    assert_eq!(progress.dimensions[0].current, 1);
    assert_eq!(progress.dimensions[1].current, 1);
    assert_eq!(progress.dimensions[2].current, 14);
}

#[test]
fn test_checkpoint_parsing() {
    let mut state = ExecutionState::new();
    state.update_from_checkpoint("node_NodeId(3)_start");
    assert!(state.active_node.is_some());
    assert_eq!(state.active_node, Some(3));
}

#[test]
fn flat_index_round_trips_through_dimensions() {
    let mut progress = NestedProgress::new(vec![
        DimensionProgress::new("a", 0, 3),
        DimensionProgress::new("b", 0, 4),
        DimensionProgress::new("c", 0, 5),
    ]);
    for flat in 0..60u32 {
        progress.set_flat_current(flat);
        let d = &progress.dimensions;
        assert_eq!(d[0].current * 20 + d[1].current * 5 + d[2].current, flat);
        assert!(d[0].current < 3 && d[1].current < 4 && d[2].current < 5);
    }
}

#[test]
fn zero_total_dimensions_keep_their_index() {
    let mut progress = NestedProgress::new(vec![
        DimensionProgress::new("a", 7, 0),
        DimensionProgress::new("b", 0, 4),
    ]);
    assert_eq!(progress.flat_total, 0);
    progress.set_flat_current(6);
    assert_eq!(progress.dimensions[0].current, 7);
    assert_eq!(progress.dimensions[1].current, 2);
}

#[test]
fn empty_progress_formats() {
    let progress = NestedProgress::new(vec![]);
    assert_eq!(progress.flat_total, 1);
    assert_eq!(progress.format_nested(), "No dimensions");
    let zero = NestedProgress::default();
    assert_eq!(zero.format_flat("anything"), "0/0 (0.0%)");
    assert_eq!(DimensionProgress::new("p", 0, 1).format(), "p 1/1");
}

#[test]
fn checkpoints_move_the_active_node() {
    let mut state = ExecutionState::new();
    state.update_from_checkpoint("node_NodeId(1)_start");
    assert_eq!(state.node_state(1), NodeExecutionState::Running);
    state.update_from_checkpoint("node_NodeId(2)_start");
    assert_eq!(state.node_state(1), NodeExecutionState::Completed);
    assert_eq!(state.node_state(2), NodeExecutionState::Running);
    state.update_from_checkpoint("node_NodeId(5)_end");
    assert_eq!(state.active_node, Some(2));
    state.update_from_checkpoint("node_NodeId(2)_end");
    assert_eq!(state.active_node, None);
    assert_eq!(state.node_state(2), NodeExecutionState::Completed);
    assert_eq!(state.node_state(9), NodeExecutionState::Pending);
    state.update_from_checkpoint("scan_start");
    state.update_from_checkpoint("node_3_start");
    state.update_from_checkpoint("node_NodeId(x)_start");
    assert_eq!(state.active_node, None);
}

#[test]
fn status_updates_set_state_and_counts() {
    let mut state = ExecutionState::new();
    state.start_execution("run-1".to_string(), 10);
    assert!(state.is_running() && state.is_active());
    state.update_from_status(2, Some(4), None);
    assert!(state.is_paused() && state.is_active());
    assert_eq!(state.current_event, 4);
    assert_eq!(state.total_events, 10);
    state.update_from_status(7, None, Some(12));
    assert_eq!(state.engine_state, EngineStateLocal::Idle);
    assert_eq!(state.total_events, 12);
    state.update_from_status(3, None, None);
    assert_eq!(state.engine_state, EngineStateLocal::Aborting);
    assert!(!state.is_active());
}

#[test]
fn nested_execution_follows_events() {
    let mut state = ExecutionState::new();
    let nested = NestedProgress::new(vec![
        DimensionProgress::new("outer", 0, 2),
        DimensionProgress::new("inner", 0, 3),
    ]);
    state.start_nested_execution("run-2".to_string(), nested);
    assert_eq!(state.total_events, 6);
    state.update_from_status(1, Some(4), None);
    let n = state.nested_progress.as_ref().unwrap();
    assert_eq!(n.flat_current, 4);
    assert_eq!(n.dimensions[0].current, 1);
    assert_eq!(n.dimensions[1].current, 1);
    state.reset();
    assert!(state.nested_progress.is_none());
    assert_eq!(state.run_uid, None);
}

#[test]
fn remaining_events_only_mid_run() {
    let mut s = ExecutionState::new();
    assert_eq!(s.remaining_events(), None);
    s.start_execution("run".to_string(), 10);
    assert_eq!(s.remaining_events(), None);
    s.current_event = 4;
    assert_eq!(s.remaining_events(), Some(6));
    s.current_event = 10;
    assert_eq!(s.remaining_events(), None);
}
