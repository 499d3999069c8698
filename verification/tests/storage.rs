use daq_core::run::{EngineState, StopReason};
use daq_core::storage::annotation::{
    add_run_annotation, annotation_attributes, annotation_from_attributes, annotation_from_parts,
    read_run_annotations, RunAnnotation,
};
use daq_core::storage::reader::ReaderStats;
use daq_core::storage::tiff::TiffWriter;

#[test]
fn annotations_need_hdf5_storage() {
    let a = RunAnnotation { notes: "n".to_string(), tags: vec!["t".to_string()] };
    assert_eq!(add_run_annotation("run.h5", &a), Err("HDF5 storage feature not enabled".to_string()));
    assert!(matches!(read_run_annotations("run.h5"), Ok(None)));
}

#[test]
fn annotation_attributes_hold_notes_and_json_tags() {
    let a = RunAnnotation { notes: "aligned".to_string(), tags: vec!["good".to_string(), "calib \"2\"".to_string()] };
    let (notes, tags) = annotation_attributes(&a).unwrap();
    assert_eq!(notes.as_deref(), Some("aligned"));
    assert_eq!(tags.as_deref(), Some("[\"good\",\"calib \\\"2\\\"\"]"));
    let empty = RunAnnotation { notes: String::new(), tags: vec![] };
    assert_eq!(annotation_attributes(&empty), Some((None, None)));
}

#[test]
fn annotations_read_back_from_attributes() {
    let a = annotation_from_attributes(Some("n".to_string()), Some("[\"x\",\"y\"]".to_string())).unwrap();
    assert_eq!(a.notes, "n");
    assert_eq!(a.tags, vec!["x".to_string(), "y".to_string()]);
    let only_tags = annotation_from_attributes(None, Some("[\"x\"]".to_string())).unwrap();
    assert_eq!(only_tags.notes, "");
    assert!(annotation_from_attributes(None, Some("not json".to_string())).is_none());
    assert!(annotation_from_attributes(Some(String::new()), None).is_none());
    let kept = annotation_from_attributes(Some("n".to_string()), Some("{bad".to_string())).unwrap();
    assert!(kept.tags.is_empty());
    assert!(annotation_from_parts(None, Some(vec![])).is_none());
}

#[test]
fn test_empty_stack_error() {
    let frames: Vec<(u32, u32, u32)> = vec![];
    let result = TiffWriter::check_stack(&frames);
    assert!(result.is_err());
    assert!(result.unwrap_err().to_string().contains("empty"));
}

#[test]
fn test_data_size_mismatch_error() {
    let result = TiffWriter::check_frame_size(256, 256, 16, 100);
    assert!(result.is_err());
    assert!(result.unwrap_err().to_string().contains("mismatch"));
}

#[test]
fn test_write_frame_data_size_mismatch_error() {
    let result = TiffWriter::check_frame_size(256, 256, 16, 100);
    assert!(result.is_err());
    assert!(result.unwrap_err().to_string().contains("mismatch"));
}

#[test]
fn frame_size_checks() {
    assert_eq!(TiffWriter::expected_bytes(2048, 2048, 16), 2048 * 2048 * 2);
    assert_eq!(TiffWriter::expected_bytes(10, 10, 8), 100);
    assert_eq!(TiffWriter::expected_bytes(10, 10, 12), 100);
    assert!(TiffWriter::check_frame_size(4, 3, 8, 12).is_ok());
    assert_eq!(
        TiffWriter::check_frame_size(4, 3, 16, 12),
        Err("Frame data size mismatch: expected 24 bytes for 4x3 16bit, got 12 bytes".to_string())
    );
}

#[test]
fn stack_checks_and_names() {
    let same = vec![(128, 128, 16); 5];
    assert!(TiffWriter::check_stack(&same).is_ok());
    let mixed = vec![(128, 128, 16), (128, 128, 16), (64, 128, 16)];
    assert_eq!(
        TiffWriter::check_stack(&mixed),
        Err("Frame 2 has inconsistent dimensions: 64x128 16bit vs expected 128x128 16bit".to_string())
    );
    assert_eq!(TiffWriter::stack_file_name("stack", 3, "tiff"), "stack_0003.tiff");
    assert_eq!(TiffWriter::stack_file_name("s", 12345, "tif"), "s_12345.tif");
}

#[test]
fn sixteen_bit_samples_are_little_endian() {
    let bytes = vec![0x34, 0x12, 0xff, 0xff, 0x01];
    assert_eq!(TiffWriter::samples_16bit(&bytes), vec![0x1234, 0xffff]);
}

#[test]
fn test_engine_state() {
    assert_eq!(EngineState::Idle.value(), 0);
    assert_eq!(EngineState::Running.value(), 1);
    assert_eq!(EngineState::Paused.value(), 2);
    assert_eq!(EngineState::Error.value(), 3);
}

#[test]
fn stats_and_stop_reasons() {
    let stats = ReaderStats { frames_received: 90, frames_dropped: 10 };
    assert_eq!(stats.frames_received + stats.frames_dropped, 100);
    assert_ne!(StopReason::Fail("x".to_string()), StopReason::Success);
}

#[test]
fn stored_annotation_reads_back() {
    let a = RunAnnotation { notes: "good run".to_string(), tags: vec!["a\"b".to_string(), "ü\n".to_string()] };
    let (notes, tags) = annotation_attributes(&a).expect("always stored");
    let back = annotation_from_attributes(notes, tags).expect("non-empty");
    assert_eq!(back.notes, a.notes);
    assert_eq!(back.tags, a.tags);
    let empty = RunAnnotation { notes: String::new(), tags: vec![] };
    let (n, t) = annotation_attributes(&empty).expect("always stored");
    assert!(annotation_from_attributes(n, t).is_none());
}
