use daq_core::graph::nodes::Real;
use daq_core::storage::documents::{
    DataKey, DescriptorDoc, Document, DocumentError, DocumentWriter, ElementType, EventDoc, StartDoc, StopDoc,
    StoreAction,
};

fn pair(k: &str, v: &str) -> (String, String) {
    (k.to_string(), v.to_string())
}

fn start_doc() -> StartDoc {
    StartDoc {
        uid: "test_run_1".to_string(),
        time_ns: 1000,
        plan_type: "count".to_string(),
        plan_name: "Count".to_string(),
        plan_args: vec![pair("exposure", "0.1"), pair("num", "5")],
        metadata: vec![pair("user", "tester")],
    }
}

fn descriptor_doc(run_uid: &str) -> DescriptorDoc {
    DescriptorDoc {
        run_uid: run_uid.to_string(),
        uid: "desc_1".to_string(),
        name: "primary".to_string(),
        data_keys: vec![
            ("det1".to_string(), DataKey { source: "det1".to_string(), dtype: "number".to_string(), shape: vec![] }),
            ("cam1".to_string(), DataKey { source: "cam1".to_string(), dtype: "uint16".to_string(), shape: vec![10, 10] }),
        ],
    }
}

fn frame_bytes() -> Vec<u8> {
    let mut bytes = Vec::with_capacity(200);
    for v in 0..100u16 {
        bytes.extend_from_slice(&v.to_le_bytes());
    }
    bytes
}

fn event_doc(descriptor_uid: &str) -> EventDoc {
    EventDoc {
        descriptor_uid: descriptor_uid.to_string(),
        seq_num: 1,
        time_ns: 1_000_000_000,
        data: vec![("det1".to_string(), Real { bits: 42.0f64.to_bits() })],
        arrays: vec![("cam1".to_string(), frame_bytes())],
    }
}

fn stop_doc(run_uid: &str) -> StopDoc {
    StopDoc { run_uid: run_uid.to_string(), exit_status: "success".to_string() }
}

fn step(writer: &mut DocumentWriter, doc: Document) -> Vec<StoreAction> {
    let actions = match writer.plan(&doc) {
        Ok(actions) => actions,
        Err(_) => panic!("document refused"),
    };
    writer.commit(doc);
    actions
}

#[test]
fn test_document_writer_full_cycle() {
    let mut writer = DocumentWriter::new();

    let actions = step(&mut writer, Document::Start(start_doc()));
    assert_eq!(actions.len(), 1);
    match &actions[0] {
        StoreAction::CreateRunFile { file_name, attributes } => {
            assert_eq!(file_name, "test_run_1_1000.h5");
            assert_eq!(
                attributes,
                &vec![
                    pair("uid", "test_run_1"),
                    pair("plan_type", "count"),
                    pair("plan_name", "Count"),
                    pair("exposure", "0.1"),
                    pair("num", "5"),
                    pair("user", "tester"),
                ]
            );
        }
        _ => panic!("expected the run file"),
    }
    assert_eq!(writer.run_file(), Some(&"test_run_1_1000.h5".to_string()));

    let actions = step(&mut writer, Document::Descriptor(descriptor_doc("test_run_1")));
    assert_eq!(actions.len(), 1);
    match &actions[0] {
        StoreAction::CreateDatasets { stream, datasets } => {
            assert_eq!(stream, "primary");
            assert_eq!(datasets.len(), 2);
            assert_eq!(datasets[0].key, "det1");
            assert_eq!(datasets[0].element, ElementType::F64);
            assert_eq!(datasets[0].shape, "[]");
            assert_eq!(datasets[1].key, "cam1");
            assert_eq!(datasets[1].element, ElementType::U16);
            assert_eq!(datasets[1].source, "cam1");
            assert_eq!(datasets[1].dtype, "uint16");
            assert_eq!(datasets[1].shape, "[10, 10]");
        }
        _ => panic!("expected datasets"),
    }

    let actions = step(&mut writer, Document::Event(event_doc("desc_1")));
    assert_eq!(actions.len(), 3);
    match &actions[0] {
        StoreAction::AppendValue { key, value } => {
            assert_eq!(key, "det1");
            assert_eq!(f64::from_bits(value.bits), 42.0);
        }
        _ => panic!("expected a value"),
    }
    match &actions[1] {
        StoreAction::AppendSamples { key, samples } => {
            assert_eq!(key, "cam1");
            let expected: Vec<u16> = (0..100).collect();
            assert_eq!(samples, &expected);
        }
        _ => panic!("expected samples"),
    }
    match &actions[2] {
        StoreAction::AppendTimestamp { time_ns } => assert_eq!(*time_ns, 1_000_000_000),
        _ => panic!("expected the time"),
    }

    let actions = step(&mut writer, Document::Stop(stop_doc("test_run_1")));
    assert_eq!(actions.len(), 1);
    match &actions[0] {
        StoreAction::WriteStop { exit_status } => assert_eq!(exit_status, "success"),
        _ => panic!("expected the stop"),
    }
    assert!(writer.run_file().is_none());
}

#[test]
fn descriptor_of_another_run_is_refused() {
    let mut writer = DocumentWriter::new();
    step(&mut writer, Document::Start(start_doc()));
    let refused = writer.plan(&Document::Descriptor(descriptor_doc("other_run")));
    assert!(matches!(refused, Err(DocumentError::RunMismatch)));
    assert_eq!(DocumentError::RunMismatch.message(), "Descriptor run_uid mismatch");
}

#[test]
fn documents_without_an_open_run_take_nothing() {
    let mut writer = DocumentWriter::new();
    assert!(step(&mut writer, Document::Descriptor(descriptor_doc("test_run_1"))).is_empty());
    assert!(step(&mut writer, Document::Event(event_doc("desc_1"))).is_empty());
    assert!(step(&mut writer, Document::Stop(stop_doc("test_run_1"))).is_empty());
    assert!(step(&mut writer, Document::Manifest).is_empty());
    assert!(writer.run_file().is_none());
}

#[test]
fn events_keep_declared_keys_and_whole_samples() {
    let mut writer = DocumentWriter::new();
    step(&mut writer, Document::Start(start_doc()));
    step(&mut writer, Document::Descriptor(descriptor_doc("test_run_1")));
    assert!(step(&mut writer, Document::Event(event_doc("unknown"))).is_empty());
    let event = EventDoc {
        descriptor_uid: "desc_1".to_string(),
        seq_num: 2,
        time_ns: 5,
        data: vec![("other".to_string(), Real { bits: 1.0f64.to_bits() })],
        arrays: vec![("cam1".to_string(), vec![1, 2, 3]), ("det1".to_string(), vec![1, 0])],
    };
    let actions = step(&mut writer, Document::Event(event));
    assert_eq!(actions.len(), 1);
    assert!(matches!(actions[0], StoreAction::AppendTimestamp { time_ns: 5 }));
}

#[test]
fn stop_of_another_run_keeps_the_run_open() {
    let mut writer = DocumentWriter::new();
    step(&mut writer, Document::Start(start_doc()));
    assert!(step(&mut writer, Document::Stop(stop_doc("other"))).is_empty());
    assert!(writer.run_file().is_some());
}
