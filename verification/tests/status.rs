use daq_core::status::{
    map_daq_error_to_status, sanitize_metadata_value, DaqError, DriverError, DriverErrorKind,
    ErrorStatus, GrpcCode,
};

fn assert_status_code(err: DaqError, expected: GrpcCode) {
    let status = map_daq_error_to_status(err);
    assert_eq!(status.code, expected);
}

fn metadata<'a>(status: &'a ErrorStatus, key: &str) -> &'a str {
    status
        .metadata
        .iter()
        .find(|(k, _)| k == key)
        .map(|(_, v)| v.as_str())
        .unwrap_or("<missing>")
}

fn driver(driver_type: &str, kind: DriverErrorKind, kind_text: &str, text: &str) -> DaqError {
    DaqError::Driver(DriverError {
        driver_type: driver_type.to_string(),
        kind,
        kind_text: kind_text.to_string(),
        text: text.to_string(),
    })
}

#[test]
fn config_error_maps_to_invalid_argument() {
    assert_status_code(DaqError::Config("bad config".into()), GrpcCode::InvalidArgument);
}

#[test]
fn configuration_error_maps_to_invalid_argument() {
    assert_status_code(DaqError::Configuration("bad config".into()), GrpcCode::InvalidArgument);
}

#[test]
fn instrument_error_maps_to_unavailable() {
    assert_status_code(DaqError::Instrument("camera fault".into()), GrpcCode::Unavailable);
}

#[test]
fn driver_init_error_maps_to_failed_precondition() {
    let err = driver("mock_camera", DriverErrorKind::Initialization, "initialization", "failed");
    assert_status_code(err, GrpcCode::FailedPrecondition);
}

#[test]
fn driver_error_includes_metadata() {
    let err = driver("mock_camera", DriverErrorKind::Initialization, "initialization", "failed");
    let status = map_daq_error_to_status(err);
    assert_eq!(metadata(&status, "x-daq-error-kind"), "driver");
    assert_eq!(metadata(&status, "x-daq-driver-type"), "mock_camera");
    assert_eq!(metadata(&status, "x-daq-driver-kind"), "initialization");
}

#[test]
fn driver_config_error_maps_to_invalid_argument() {
    let err = driver("mock_camera", DriverErrorKind::Configuration, "configuration", "bad config");
    assert_status_code(err, GrpcCode::InvalidArgument);
}

#[test]
fn serial_port_not_connected_maps_to_unavailable() {
    assert_status_code(DaqError::SerialPortNotConnected, GrpcCode::Unavailable);
}

#[test]
fn instrument_error_includes_metadata() {
    let status = map_daq_error_to_status(DaqError::Instrument("camera fault".into()));
    assert_eq!(metadata(&status, "x-daq-error-kind"), "instrument");
}

#[test]
fn serial_unexpected_eof_maps_to_aborted() {
    assert_status_code(DaqError::SerialUnexpectedEof, GrpcCode::Aborted);
}

#[test]
fn serial_feature_disabled_maps_to_unimplemented() {
    assert_status_code(DaqError::SerialFeatureDisabled, GrpcCode::Unimplemented);
}

#[test]
fn driver_timeout_error_maps_to_deadline_exceeded() {
    let err = driver("mock_camera", DriverErrorKind::Timeout, "timeout", "operation timed out");
    assert_status_code(err, GrpcCode::DeadlineExceeded);
}

#[test]
fn driver_permission_error_maps_to_permission_denied() {
    let err = driver("comedi", DriverErrorKind::Permission, "permission", "access denied");
    assert_status_code(err, GrpcCode::PermissionDenied);
}

#[test]
fn driver_hardware_error_maps_to_unavailable() {
    let err = driver("comedi", DriverErrorKind::Hardware, "hardware", "buffer overflow");
    assert_status_code(err, GrpcCode::Unavailable);
}

#[test]
fn driver_invalid_parameter_maps_to_invalid_argument() {
    let err = driver("comedi", DriverErrorKind::InvalidParameter, "invalid_parameter", "channel out of range");
    assert_status_code(err, GrpcCode::InvalidArgument);
}

#[test]
fn processing_error_maps_to_internal() {
    assert_status_code(DaqError::Processing("fft failed".into()), GrpcCode::Internal);
}

#[test]
fn frame_dimensions_too_large_maps_to_resource_exhausted() {
    let err = DaqError::FrameDimensionsTooLarge { width: 2048, height: 2048, max_dimension: 1024 };
    assert_status_code(err, GrpcCode::ResourceExhausted);
}

#[test]
fn frame_too_large_maps_to_resource_exhausted() {
    assert_status_code(DaqError::FrameTooLarge { bytes: 4_096, max_bytes: 2_048 }, GrpcCode::ResourceExhausted);
}

#[test]
fn response_too_large_maps_to_resource_exhausted() {
    assert_status_code(DaqError::ResponseTooLarge { bytes: 8_192, max_bytes: 4_096 }, GrpcCode::ResourceExhausted);
}

#[test]
fn script_too_large_maps_to_resource_exhausted() {
    assert_status_code(DaqError::ScriptTooLarge { bytes: 8_192, max_bytes: 4_096 }, GrpcCode::ResourceExhausted);
}

#[test]
fn size_overflow_maps_to_resource_exhausted() {
    assert_status_code(DaqError::SizeOverflow { context: "frame".to_string() }, GrpcCode::ResourceExhausted);
}

#[test]
fn module_operation_not_supported_maps_to_unimplemented() {
    assert_status_code(DaqError::ModuleOperationNotSupported("no frames".into()), GrpcCode::Unimplemented);
}

#[test]
fn module_busy_during_operation_maps_to_unavailable() {
    assert_status_code(DaqError::ModuleBusyDuringOperation, GrpcCode::Unavailable);
}

#[test]
fn camera_not_assigned_maps_to_failed_precondition() {
    assert_status_code(DaqError::CameraNotAssigned, GrpcCode::FailedPrecondition);
}

#[test]
fn feature_not_enabled_maps_to_unimplemented() {
    assert_status_code(DaqError::FeatureNotEnabled("storage_hdf5".into()), GrpcCode::Unimplemented);
}

#[test]
fn feature_incomplete_maps_to_unimplemented() {
    assert_status_code(DaqError::FeatureIncomplete("driver".into(), "todo".into()), GrpcCode::Unimplemented);
}

#[test]
fn shutdown_failed_maps_to_internal() {
    let err = DaqError::ShutdownFailed(vec!["Instrument error: camera".to_string()]);
    assert_status_code(err, GrpcCode::Internal);
}

#[test]
fn parameter_no_subscribers_maps_to_failed_precondition() {
    assert_status_code(DaqError::ParameterNoSubscribers, GrpcCode::FailedPrecondition);
}

#[test]
fn parameter_read_only_maps_to_permission_denied() {
    assert_status_code(DaqError::ParameterReadOnly, GrpcCode::PermissionDenied);
}

#[test]
fn parameter_invalid_choice_maps_to_invalid_argument() {
    assert_status_code(DaqError::ParameterInvalidChoice, GrpcCode::InvalidArgument);
}

#[test]
fn parameter_no_hardware_reader_maps_to_failed_precondition() {
    assert_status_code(DaqError::ParameterNoHardwareReader, GrpcCode::FailedPrecondition);
}

#[test]
fn io_error_maps_to_internal() {
    assert_status_code(DaqError::Io("io".into()), GrpcCode::Internal);
}

#[test]
fn tokio_error_maps_to_internal() {
    assert_status_code(DaqError::Tokio("tokio".into()), GrpcCode::Internal);
}

#[test]
fn status_messages_follow_the_error() {
    let m = |e: DaqError| map_daq_error_to_status(e).message;
    assert_eq!(m(DaqError::Config("x".into())), "Config error: x");
    assert_eq!(m(DaqError::FrameDimensionsTooLarge { width: 3, height: 4, max_dimension: 2 }), "Frame dimensions 3x4 exceed maximum 2");
    assert_eq!(m(DaqError::FrameTooLarge { bytes: 10, max_bytes: 5 }), "Frame size 10 bytes exceeds maximum 5");
    assert_eq!(m(DaqError::FeatureIncomplete("f".into(), "r".into())), "Feature 'f' incomplete: r");
    assert_eq!(
        m(DaqError::ShutdownFailed(vec!["a".to_string(), "b".to_string(), "c".to_string()])),
        "Shutdown failed: a; b; c"
    );
    assert_eq!(m(DaqError::ShutdownFailed(vec![])), "Shutdown failed: ");
    assert_eq!(m(driver("d", DriverErrorKind::Unknown, "unknown", "driver d failed")), "driver d failed");
    assert!(map_daq_error_to_status(DaqError::CameraNotAssigned).metadata.is_empty());
}

#[test]
fn metadata_values_are_sanitized_and_checked() {
    assert_eq!(sanitize_metadata_value("  cam  "), "cam");
    assert_eq!(sanitize_metadata_value("камера"), "unknown");
    assert_eq!(sanitize_metadata_value("é-cam "), "-cam");
    assert_eq!(sanitize_metadata_value("\t\n"), "unknown");
    // A control character is kept by sanitizing but refused by tonic.
    let status = map_daq_error_to_status(driver("bad\u{1}type", DriverErrorKind::Hardware, "hardware", "x"));
    assert_eq!(metadata(&status, "x-daq-driver-type"), "<missing>");
    assert_eq!(metadata(&status, "x-daq-driver-kind"), "hardware");
    assert_eq!(status.metadata.len(), 2);
}
