use daq_core::graph::adaptive::combine_triggers;
use daq_core::graph::nodes::TriggerLogic;
use daq_core::storage::naming::{check_within_directory, generate_filename};
use daq_core::storage::recording::{
    acquisition_info, progress_interval_ms, AcquisitionRecord, ConfigureStorageRequest, DeleteRefusal, Hdf5Config,
    ListAcquisitionsRequest, RecordingState, StartRecordingRequest, StorageServiceImpl, StorageSettings,
};

fn start_request(name: &str) -> StartRecordingRequest {
    StartRecordingRequest { name: name.to_string(), metadata: Vec::new(), scan_id: None, run_uid: None }
}

fn no_filter() -> ListAcquisitionsRequest {
    ListAcquisitionsRequest { name_pattern: None, after_timestamp_ns: None, before_timestamp_ns: None, limit: None, offset: None }
}

/// Record one finished acquisition with known times.
fn record(service: &mut StorageServiceImpl, name: &str, id: &str, start: u64, end: u64) {
    let started = service.start_recording(
        start_request(name),
        Ok(format!("/data/{}.h5", name)),
        format!("rec-{}", id),
        start,
    );
    assert!(started.success);
    assert!(service.begin_stop(None).is_ok());
    let stopped = service.finish_stop(Vec::new(), end, 10, id.to_string());
    assert!(stopped.success);
}

#[test]
fn test_configure_storage() {
    let mut service = StorageServiceImpl::new(true);
    service.configure_storage(ConfigureStorageRequest {
        output_directory: "/tmp/acquisitions".to_string(),
        hdf5_config: Some(Hdf5Config {
            compression: "lz4".to_string(),
            compression_level: Some(6),
            chunk_size: Some(8192),
            filename_pattern: Some("{name}_{datetime}.h5".to_string()),
            include_timestamps: true,
            include_device_metadata: false,
        }),
        flush_interval_ms: Some(500),
        max_buffer_mb: Some(128),
    });
    let config = service.get_storage_config();
    assert_eq!(config.output_directory, "/tmp/acquisitions");
    let hdf5 = config.hdf5_config.unwrap();
    assert_eq!(hdf5.compression, "lz4");
    assert_eq!(hdf5.compression_level, Some(6));
    assert_eq!(hdf5.chunk_size, Some(8192));
    assert_eq!(hdf5.filename_pattern, Some("{name}_{datetime}.h5".to_string()));
    assert!(hdf5.include_timestamps);
    assert!(!hdf5.include_device_metadata);
    assert_eq!(config.flush_interval_ms, 500);
    assert_eq!(config.max_buffer_mb, 128);
    assert_eq!(config.disk_space_available_bytes, u64::MAX);
    assert_eq!(config.disk_space_used_bytes, 0);
}

#[test]
fn configure_without_hdf5_options_keeps_them() {
    let mut service = StorageServiceImpl::new(false);
    service.configure_storage(ConfigureStorageRequest {
        output_directory: "/srv/data".to_string(),
        hdf5_config: Some(Hdf5Config {
            compression: String::new(),
            compression_level: None,
            chunk_size: None,
            filename_pattern: None,
            include_timestamps: false,
            include_device_metadata: true,
        }),
        flush_interval_ms: None,
        max_buffer_mb: None,
    });
    let settings = service.current_settings();
    assert_eq!(settings.output_directory, "/srv/data");
    assert_eq!(settings.compression, "gzip");
    assert_eq!(settings.compression_level, 4);
    assert_eq!(settings.chunk_size, 4096);
    assert_eq!(settings.filename_pattern, "{name}_{timestamp}.h5");
    assert!(!settings.include_timestamps);
    assert_eq!(settings.flush_interval_ms, 1000);
    assert_eq!(settings.max_buffer_mb, 256);
}

#[test]
fn default_settings() {
    let settings = StorageSettings::default();
    assert_eq!(settings.output_directory, "./data");
    assert_eq!(settings.compression, "gzip");
    assert_eq!(settings.compression_level, 4);
    assert_eq!(settings.chunk_size, 4096);
    assert_eq!(settings.filename_pattern, "{name}_{timestamp}.h5");
    assert!(settings.include_timestamps);
    assert!(settings.include_device_metadata);
    assert_eq!(settings.flush_interval_ms, 1000);
    assert_eq!(settings.max_buffer_mb, 256);
}

#[test]
fn test_start_stop_recording() {
    let mut service = StorageServiceImpl::new(false);
    let start = service.start_recording_now(start_request("test_recording"), Ok("/data/test_recording_1.h5".to_string()));
    assert!(start.success);
    assert!(!start.recording_id.is_empty());
    assert_eq!(start.recording_id.len(), 36);
    assert_eq!(start.output_path, "/data/test_recording_1.h5");

    let second = service.start_recording_now(start_request("test_recording2"), Ok("/data/other.h5".to_string()));
    assert!(!second.success);
    assert_eq!(second.error_message, "Recording already in progress");
    assert!(second.recording_id.is_empty());

    let path = service.begin_stop(Some(start.recording_id.clone())).ok().unwrap();
    assert_eq!(path, "/data/test_recording_1.h5");
    assert_eq!(service.get_recording_status(None, u64::MAX).state, RecordingState::Finalizing);
    let stop = service.finish_stop_now(Vec::new(), 0);
    assert!(stop.success);
    assert!(!stop.acquisition_id.is_empty());
    assert!(!service.is_recording());
    assert_eq!(service.list_acquisitions(&no_filter()).total_count, 1);
}

#[test]
fn test_list_acquisitions() {
    let service = StorageServiceImpl::new(false);
    let request = ListAcquisitionsRequest {
        name_pattern: None,
        after_timestamp_ns: None,
        before_timestamp_ns: None,
        limit: Some(10),
        offset: Some(0),
    };
    let response = service.list_acquisitions(&request);
    assert!(response.acquisitions.is_empty());
    assert_eq!(response.total_count, 0);
}

#[test]
fn test_start_recording_path_traversal_blocked() {
    let mut service = StorageServiceImpl::new(false);
    let filename = generate_filename("../../../etc/passwd", "{name}_{timestamp}.h5");
    assert!(filename.starts_with("etc_passwd_"));
    assert!(!filename.contains('/'));
    let checked = check_within_directory("/tmp/out", "/tmp/out", &filename, "/tmp/out/x", "/tmp/out");
    let response = service.start_recording_now(start_request("../../../etc/passwd"), checked);
    assert!(response.success);
    assert!(response.output_path.starts_with("/tmp/out/"));
    assert!(!response.output_path.contains("/etc/passwd"));
}

#[test]
fn start_with_escaping_path_is_refused() {
    let mut service = StorageServiceImpl::new(false);
    let checked = check_within_directory("/tmp/out", "/etc", "passwd", "/tmp/out/../../etc/passwd", "/tmp/out");
    let response = service.start_recording_now(start_request("x"), checked);
    assert!(!response.success);
    assert_eq!(
        response.error_message,
        "Invalid output path: Path '/tmp/out/../../etc/passwd' escapes base directory '/tmp/out'"
    );
    assert!(!service.is_recording());
}

#[test]
fn writer_failure_drops_the_recording() {
    let mut service = StorageServiceImpl::new(true);
    assert!(service.uses_ring_buffer());
    assert!(service.start_recording(start_request("a"), Ok("/d/a.h5".to_string()), "r1".to_string(), 5).success);
    let response = service.abandon_start("disk full".to_string());
    assert!(!response.success);
    assert_eq!(response.error_message, "Failed to initialize HDF5 writer: disk full");
    assert!(!service.is_recording());
}

#[test]
fn stop_refusals() {
    let mut service = StorageServiceImpl::new(false);
    let none = service.begin_stop(None).err().unwrap();
    assert!(!none.success);
    assert_eq!(none.error_message, "No active recording");
    assert!(service.start_recording(start_request("a"), Ok("/d/a.h5".to_string()), "r1".to_string(), 5).success);
    let other = service.begin_stop(Some("abc".to_string())).err().unwrap();
    assert_eq!(other.error_message, "Recording abc not found");
    assert_eq!(other.duration_ns, 0);
    assert!(service.is_recording());
    assert_eq!(service.get_recording_status(None, 10).state, RecordingState::Active);
}

#[test]
fn stop_catalogues_the_recording() {
    let mut service = StorageServiceImpl::new(false);
    let req = StartRecordingRequest {
        name: "scan".to_string(),
        metadata: vec![("user".to_string(), "ann".to_string()), ("sample".to_string(), "s1".to_string())],
        scan_id: Some("scan-7".to_string()),
        run_uid: None,
    };
    assert!(service.start_recording(req, Ok("/d/scan.h5".to_string()), "r1".to_string(), 1_000).success);
    assert_eq!(service.recording_started_at(), Some(1_000));
    assert!(service.begin_stop(Some("r1".to_string())).is_ok());
    let stop = service.finish_stop(vec![("sample".to_string(), "s2".to_string())], 4_500, 2_048, "acq-1".to_string());
    assert!(stop.success);
    assert_eq!(stop.acquisition_id, "acq-1");
    assert_eq!(stop.output_path, "/d/scan.h5");
    assert_eq!(stop.file_size_bytes, 2_048);
    assert_eq!(stop.total_samples, 0);
    assert_eq!(stop.duration_ns, 3_500);
    let rec = service.get_acquisition_info(&"acq-1".to_string()).unwrap();
    assert_eq!(rec.name, "scan");
    assert_eq!(rec.created_at_ns, 1_000);
    assert_eq!(rec.scan_id, Some("scan-7".to_string()));
    assert_eq!(rec.metadata.len(), 3);
    assert_eq!(rec.metadata[2], ("sample".to_string(), "s2".to_string()));
    let info = acquisition_info(rec);
    assert_eq!(info.acquisition_id, "acq-1");
    assert_eq!(info.structure.groups, vec!["/measurements".to_string(), "/metadata".to_string()]);
    assert_eq!(info.structure.compression, "gzip");
    assert_eq!(info.structure.chunk_size, 4096);
}

#[test]
fn recording_status_reports() {
    let mut service = StorageServiceImpl::new(false);
    let idle = service.get_recording_status(None, 0);
    assert_eq!(idle.state, RecordingState::Idle);
    assert!(idle.recording_id.is_empty());
    assert!(idle.error_message.is_empty());
    assert!(service.start_recording(start_request("a"), Ok("/d/a.h5".to_string()), "r1".to_string(), 100).success);
    let missing = service.get_recording_status(Some("zz".to_string()), 50);
    assert_eq!(missing.recording_id, "zz");
    assert_eq!(missing.state, RecordingState::Idle);
    assert_eq!(missing.error_message, "Recording not found");
    let active = service.get_recording_status(Some("r1".to_string()), 350);
    assert_eq!(active.recording_id, "r1");
    assert_eq!(active.state, RecordingState::Active);
    assert_eq!(active.output_path, "/d/a.h5");
    assert_eq!(active.start_time_ns, 100);
    assert_eq!(active.elapsed_ns, 250);
    let now = service.get_recording_status_now(None);
    assert_eq!(now.recording_id, "r1");
}

#[test]
fn flush_requests() {
    let mut service = StorageServiceImpl::new(true);
    let refused = service.check_flush().err().unwrap();
    assert_eq!(refused.error_message, "No active recording");
    assert!(service.start_recording(start_request("a"), Ok("/d/a.h5".to_string()), "r1".to_string(), 0).success);
    let no_writer = service.check_flush().err().unwrap();
    assert_eq!(no_writer.error_message, "Recording writer is not initialized");
    service.attach_writer();
    assert!(service.check_flush().is_ok());
    let done = service.finish_flush(Ok(4096));
    assert!(done.success);
    assert_eq!(done.samples_flushed, 1);
    assert_eq!(done.bytes_written, 4096);
    let failed = service.finish_flush(Err("disk error".to_string()));
    assert!(!failed.success);
    assert_eq!(failed.error_message, "Flush failed: disk error");
    service.record_periodic_flush(0);
    service.record_periodic_flush(10);
    let status = service.get_recording_status(None, 0);
    assert_eq!(status.bytes_written, 4106);
    assert_eq!(status.samples_recorded, 2);
    assert_eq!(status.flushes_completed, 2);
}

#[test]
fn progress_reports() {
    let mut service = StorageServiceImpl::new(false);
    assert!(service.recording_progress(&"r1".to_string(), 10).is_none());
    assert!(service.start_recording(start_request("a"), Ok("/d/a.h5".to_string()), "r1".to_string(), 1_000).success);
    assert!(service.recording_progress(&"other".to_string(), 2_000).is_none());
    let p = service.recording_progress(&"r1".to_string(), 2_500).unwrap();
    assert_eq!(p.scan_id, "r1");
    assert_eq!(p.timestamp_ns, 2_500);
    assert_eq!(p.elapsed_ns, 1_500);
    assert!(!p.finished);
    assert_eq!(progress_interval_ms(20), 100);
    assert_eq!(progress_interval_ms(100), 100);
    assert_eq!(progress_interval_ms(750), 750);
}

#[test]
fn listing_is_newest_first_and_paged() {
    let mut service = StorageServiceImpl::new(false);
    record(&mut service, "calib_a", "1", 300, 400);
    record(&mut service, "scan_b", "2", 100, 150);
    record(&mut service, "calib_c", "3", 500, 900);
    record(&mut service, "scan_d", "4", 200, 260);
    let all = service.list_acquisitions(&no_filter());
    assert_eq!(all.total_count, 4);
    let ids: Vec<&str> = all.acquisitions.iter().map(|a| a.acquisition_id.as_str()).collect();
    assert_eq!(ids, vec!["3", "1", "4", "2"]);
    assert_eq!(all.acquisitions[0].duration_ns, 400);

    let calib = service.list_acquisitions(&ListAcquisitionsRequest {
        name_pattern: Some("*calib*".to_string()),
        after_timestamp_ns: None,
        before_timestamp_ns: None,
        limit: None,
        offset: None,
    });
    assert_eq!(calib.total_count, 2);
    assert_eq!(calib.acquisitions[0].name, "calib_c");

    let window = service.list_acquisitions(&ListAcquisitionsRequest {
        name_pattern: None,
        after_timestamp_ns: Some(150),
        before_timestamp_ns: Some(500),
        limit: Some(1),
        offset: Some(1),
    });
    assert_eq!(window.total_count, 3);
    assert_eq!(window.acquisitions.len(), 1);
    assert_eq!(window.acquisitions[0].acquisition_id, "1");

    let past_end = service.list_acquisitions(&ListAcquisitionsRequest {
        name_pattern: None,
        after_timestamp_ns: None,
        before_timestamp_ns: None,
        limit: Some(5),
        offset: Some(10),
    });
    assert_eq!(past_end.total_count, 4);
    assert!(past_end.acquisitions.is_empty());
}

#[test]
fn deletion_and_restore() {
    let mut service = StorageServiceImpl::new(false);
    record(&mut service, "a", "1", 10, 20);
    record(&mut service, "b", "2", 30, 40);
    assert_eq!(service.take_acquisition(&"1".to_string(), false).err(), Some(DeleteRefusal::NotConfirmed));
    assert_eq!(DeleteRefusal::NotConfirmed.message(), "Deletion requires confirm=true");
    assert_eq!(service.take_acquisition(&"9".to_string(), true).err(), Some(DeleteRefusal::NotFound));
    assert_eq!(DeleteRefusal::NotFound.message(), "Acquisition not found");
    let taken = service.take_acquisition(&"1".to_string(), true).ok().unwrap();
    assert_eq!(taken.name, "a");
    assert!(service.get_acquisition_info(&"1".to_string()).is_none());
    assert_eq!(service.list_acquisitions(&no_filter()).total_count, 1);
    service.restore_acquisition(taken);
    assert_eq!(service.list_acquisitions(&no_filter()).total_count, 2);
    assert!(service.get_acquisition_info(&"1".to_string()).is_some());
}

#[test]
fn scanned_files_join_the_catalogue_once() {
    let mut service = StorageServiceImpl::new(false);
    record(&mut service, "a", "1", 10, 20);
    let scanned = |id: &str, name: &str| AcquisitionRecord {
        id: id.to_string(),
        name: name.to_string(),
        file_path: format!("/d/{}.h5", name),
        created_at_ns: 5,
        duration_ns: 0,
        sample_count: 0,
        file_size_bytes: 1,
        metadata: Vec::new(),
        scan_id: None,
        run_uid: None,
    };
    service.merge_scanned(vec![scanned("1", "dup"), scanned("x", "found"), scanned("x", "again")]);
    let all = service.list_acquisitions(&no_filter());
    assert_eq!(all.total_count, 2);
    assert_eq!(service.get_acquisition_info(&"1".to_string()).unwrap().name, "a");
    assert_eq!(service.get_acquisition_info(&"x".to_string()).unwrap().name, "found");
}

#[test]
fn trigger_combination() {
    let any = combine_triggers(TriggerLogic::Any, &vec![false, true, false]);
    assert!(any.fired);
    assert_eq!(any.fired_triggers, vec![1]);
    let all = combine_triggers(TriggerLogic::All, &vec![true, true]);
    assert!(all.fired);
    assert_eq!(all.fired_triggers, vec![0, 1]);
    let partial = combine_triggers(TriggerLogic::All, &vec![true, false]);
    assert!(!partial.fired);
    assert_eq!(partial.fired_triggers.len(), 1);
    let empty = combine_triggers(TriggerLogic::All, &vec![]);
    assert!(!empty.fired);
    assert!(empty.fired_triggers.is_empty());
    let none = combine_triggers(TriggerLogic::Any, &vec![false, false]);
    assert!(!none.fired);
}
