use daq_core::graph::nodes::Real;
use daq_core::storage::columnar::{ColumnType, FlushPlan, TableError, TableFormat, TableWriter};
use daq_core::storage::documents::{DataKey, DescriptorDoc, Document, EventDoc, StartDoc, StopDoc};

fn start() -> Document {
    Document::Start(StartDoc {
        uid: "test_run".to_string(),
        time_ns: 1000,
        plan_type: "count".to_string(),
        plan_name: "Count".to_string(),
        plan_args: Vec::new(),
        metadata: Vec::new(),
    })
}

fn descriptor(keys: Vec<(&str, &str)>) -> Document {
    Document::Descriptor(DescriptorDoc {
        run_uid: "test_run".to_string(),
        uid: "desc_1".to_string(),
        name: "primary".to_string(),
        data_keys: keys
            .into_iter()
            .map(|(k, t)| (k.to_string(), DataKey { source: k.to_string(), dtype: t.to_string(), shape: vec![] }))
            .collect(),
    })
}

fn event(i: u64, data: Vec<(&str, f64)>) -> Document {
    Document::Event(EventDoc {
        descriptor_uid: "desc_1".to_string(),
        seq_num: i,
        time_ns: 1_000_000_000 + i * 100_000,
        data: data.into_iter().map(|(k, v)| (k.to_string(), Real { bits: v.to_bits() })).collect(),
        arrays: Vec::new(),
    })
}

fn stop() -> Document {
    Document::Stop(StopDoc { run_uid: "test_run".to_string(), exit_status: "success".to_string() })
}

/// Feed a document; the batch it calls for, marked as written.
fn feed(writer: &mut TableWriter, doc: Document) -> Option<FlushPlan> {
    match writer.write(doc) {
        Ok(Some(batch)) => {
            writer.flush_done(batch.closes_run);
            Some(batch)
        }
        Ok(None) => None,
        Err(_) => panic!("document refused"),
    }
}

fn values(batch: &FlushPlan, column: usize) -> Vec<Option<f64>> {
    batch.columns[column].1.iter().map(|v| v.map(|r| f64::from_bits(r.bits))).collect()
}

fn basic_cycle(format: TableFormat, file: &str, append: bool) {
    let mut writer = TableWriter::new(format);
    assert!(feed(&mut writer, start()).is_none());
    assert!(feed(&mut writer, descriptor(vec![("det1", "number")])).is_none());
    for i in 0..10 {
        assert!(feed(&mut writer, event(i, vec![("det1", i as f64 * 1.5)])).is_none());
    }
    let batch = feed(&mut writer, stop()).unwrap();
    assert_eq!(batch.file_name, file);
    assert_eq!(batch.append, append);
    assert!(batch.closes_run);
    assert_eq!(batch.seq_nums, (0..10).collect::<Vec<u64>>());
    assert_eq!(batch.times[9], 1_000_900_000);
    assert_eq!(batch.fields.len(), 1);
    assert_eq!(batch.fields[0].name, "det1");
    assert_eq!(batch.fields[0].column_type, ColumnType::Float64);
    assert_eq!(batch.columns.len(), 1);
    assert_eq!(values(&batch, 0)[4], Some(6.0));
    assert!(feed(&mut writer, stop()).is_none());
}

#[test]
fn test_arrow_writer_basic() {
    basic_cycle(TableFormat::ArrowIpc, "test_run_1000.arrow", true);
}

#[test]
fn test_parquet_writer_basic() {
    basic_cycle(TableFormat::Parquet, "test_run_1000.parquet", false);
}

#[test]
fn threshold_flushes_and_gaps_stay_empty() {
    let mut writer = TableWriter::new(TableFormat::ArrowIpc).with_flush_threshold(2);
    feed(&mut writer, start());
    feed(&mut writer, descriptor(vec![("a", "number"), ("label", "string")]));
    assert!(feed(&mut writer, event(0, vec![("a", 1.0)])).is_none());
    let batch = feed(&mut writer, event(1, vec![("label", 2.0)])).unwrap();
    assert!(!batch.closes_run);
    assert_eq!(batch.fields[1].column_type, ColumnType::Utf8);
    assert_eq!(values(&batch, 0), vec![Some(1.0), None]);
    assert_eq!(values(&batch, 1), vec![None, Some(2.0)]);
    assert!(feed(&mut writer, stop()).is_none());
}

#[test]
fn refusals() {
    let mut writer = TableWriter::new(TableFormat::Parquet);
    feed(&mut writer, start());
    let other = Document::Descriptor(DescriptorDoc {
        run_uid: "other".to_string(),
        uid: "d".to_string(),
        name: "primary".to_string(),
        data_keys: Vec::new(),
    });
    assert!(matches!(writer.write(other), Err(TableError::RunMismatch)));
    assert!(matches!(writer.write(event(0, vec![])), Ok(None)));
    assert!(matches!(writer.write(stop()), Err(TableError::NoSchema)));
    assert_eq!(TableError::NoSchema.message(), "No schema defined");
    assert_eq!(TableError::RunMismatch.message(), "Descriptor run_uid mismatch");
}
