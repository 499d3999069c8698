use daq_core::health::{errors_at_least, health_counts, history_limit, update_interval_ms, ErrorSeverity};

#[test]
fn health_report_counts() {
    let counts = health_counts(
        &vec![true, false, true, true],
        &vec![ErrorSeverity::Critical, ErrorSeverity::Info, ErrorSeverity::Critical],
    );
    assert_eq!(counts.total_modules, 4);
    assert_eq!(counts.healthy_modules, 3);
    assert_eq!(counts.unhealthy_modules, 1);
    assert_eq!(counts.total_errors, 3);
    assert_eq!(counts.critical_errors, 2);
    let empty = health_counts(&vec![], &vec![]);
    assert_eq!((empty.total_modules, empty.unhealthy_modules, empty.critical_errors), (0, 0, 0));
}

#[test]
fn history_limits_and_severity_floor() {
    assert_eq!(history_limit(None), 100);
    assert_eq!(history_limit(Some(0)), 100);
    assert_eq!(history_limit(Some(7)), 7);
    let severities = vec![ErrorSeverity::Info, ErrorSeverity::Error, ErrorSeverity::Warning, ErrorSeverity::Critical];
    assert_eq!(errors_at_least(&severities, None), vec![0, 1, 2, 3]);
    assert_eq!(errors_at_least(&severities, Some(ErrorSeverity::Warning)), vec![1, 2, 3]);
    assert_eq!(errors_at_least(&severities, Some(ErrorSeverity::Critical)), vec![3]);
    assert!(ErrorSeverity::Error.at_least(&ErrorSeverity::Warning));
    assert!(!ErrorSeverity::Info.at_least(&ErrorSeverity::Warning));
}

#[test]
fn update_intervals() {
    assert_eq!(update_interval_ms(0), 5000);
    assert_eq!(update_interval_ms(250), 250);
}
