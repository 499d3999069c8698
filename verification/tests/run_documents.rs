use daq_core::graph::nodes::Real;
use daq_core::run::{DataKey, Document, EngineState, StopReason};
use std::collections::HashMap;

#[test]
fn test_run_lifecycle() {
    let run_uid = uuid::Uuid::new_v4();

    let start = Document::run_start(run_uid, "power_scan".to_string());
    assert!(matches!(start, Document::RunStart(_)));
    assert_eq!(start.uid(), run_uid);

    let desc = Document::descriptor(
        run_uid,
        "primary".to_string(),
        vec![
            DataKey::new("power".to_string(), "number".to_string()).with_units("mW".to_string()),
            DataKey::new("position".to_string(), "number".to_string()).with_units("mm".to_string()),
        ],
    )
    .expect("random source");
    let desc_uid = desc.uid();
    assert!(matches!(desc, Document::Descriptor(_)));
    assert_ne!(desc_uid, run_uid);

    let mut data = HashMap::new();
    data.insert("power".to_string(), serde_json::Value::from(42.5));
    data.insert("position".to_string(), serde_json::Value::from(1.0));
    let event = Document::event(desc_uid, data).expect("random source");
    assert!(matches!(event, Document::Event(_)));

    let stop = Document::run_stop(run_uid, StopReason::Success).expect("random source");
    assert!(matches!(stop, Document::RunStop(_)));
}

#[test]
fn test_data_key_builder() {
    let key = DataKey::new("image".to_string(), "array".to_string())
        .with_shape(vec![2048, 2048])
        .with_source("pvcam".to_string())
        .with_units("counts".to_string());

    assert_eq!(key.name, "image");
    assert_eq!(key.dtype, "array");
    assert_eq!(key.shape, vec![2048, 2048]);
    assert_eq!(key.units.as_deref(), Some("counts"));
}

#[test]
fn data_key_limits_and_defaults() {
    let key = DataKey::new("power".to_string(), "number".to_string());
    assert!(key.shape.is_empty());
    assert!(key.source.is_empty());
    assert!(key.units.is_none());
    let key = key.with_limits(Real { bits: 0.5f64.to_bits() }, Real { bits: 2.0f64.to_bits() });
    assert_eq!(key.lower_ctrl_limit.map(|r| f64::from_bits(r.bits)), Some(0.5));
    assert_eq!(key.upper_ctrl_limit.map(|r| f64::from_bits(r.bits)), Some(2.0));
}

#[test]
fn stop_reasons_give_exit_statuses() {
    let run = uuid::Uuid::new_v4();
    for (reason, status) in [
        (StopReason::Success, "success"),
        (StopReason::Abort, "abort"),
        (StopReason::Fail("motor stalled".to_string()), "fail"),
    ] {
        match Document::run_stop(run, reason.clone()).expect("random source") {
            Document::RunStop(d) => {
                assert_eq!(d.exit_status, status);
                assert_eq!(d.reason, reason);
                assert_eq!(d.num_events, 0);
                assert_eq!(d.run_start, run);
            }
            _ => panic!("expected a stop document"),
        }
    }
}

#[test]
fn metadata_and_times() {
    let run = uuid::Uuid::new_v4();
    let start = match Document::run_start(run, "scan".to_string()) {
        Document::RunStart(d) => d,
        _ => panic!("expected a start document"),
    };
    assert!(start.metadata.is_empty());
    let start = start.with_metadata("operator".to_string(), serde_json::Value::from("ann"));
    assert_eq!(start.metadata.get("operator"), Some(&serde_json::Value::from("ann")));
    let doc = Document::RunStart(start);
    assert!(doc.time_ns() > 0);
    assert_eq!(EngineState::Paused.value(), 2);
}
