use daq_core::daemon::{launch_arguments, DaemonMode};

#[test]
fn test_daemon_mode_default() {
    let mode = DaemonMode::default();
    assert_eq!(mode, DaemonMode::LocalAuto { port: 50051 });
    assert!(mode.should_auto_start());
    assert_eq!(mode.daemon_url(), "http://127.0.0.1:50051");
}

#[test]
fn test_daemon_mode_remote() {
    let mode = DaemonMode::Remote {
        url: "http://example.com:8080".to_string(),
    };
    assert!(!mode.should_auto_start());
    assert_eq!(mode.daemon_url(), "http://example.com:8080");
    assert_eq!(mode.label(), "Remote");
}

#[test]
fn test_daemon_mode_lab_hardware() {
    let mode = DaemonMode::LabHardware { port: 50052 };
    assert!(mode.should_auto_start());
    assert_eq!(mode.daemon_url(), "http://127.0.0.1:50052");
    assert_eq!(mode.label(), "Lab Hardware");
    assert_eq!(mode.port(), Some(50052));
}

#[test]
fn test_start_with_mode_rejects_remote() {
    let remote_mode = DaemonMode::Remote {
        url: "http://example.com:50051".to_string(),
    };
    let result = launch_arguments(&remote_mode, 50051);
    assert!(result.is_err());
    assert!(result
        .unwrap_err()
        .contains("Cannot start daemon in Remote mode"));
}

#[test]
fn launch_arguments_name_port_and_hardware() {
    let local = launch_arguments(&DaemonMode::LocalAuto { port: 1 }, 50051).unwrap();
    assert_eq!(local, vec!["daemon", "--port", "50051"]);
    let lab = launch_arguments(&DaemonMode::LabHardware { port: 1 }, 7).unwrap();
    assert_eq!(lab, vec!["daemon", "--port", "7", "--lab-hardware"]);
}

#[test]
fn local_mode_label_and_port() {
    let mode = DaemonMode::LocalAuto { port: 9 };
    assert_eq!(mode.label(), "Local (Mock)");
    assert_eq!(mode.port(), Some(9));
    assert_eq!(mode.daemon_url(), "http://127.0.0.1:9");
    assert_eq!(DaemonMode::Remote { url: String::new() }.port(), None);
}
