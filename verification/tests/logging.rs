use daq_core::panels::connection::{ConnectionState, ConnectionStateExt};
use daq_core::graph::nodes::Real;
use daq_core::panels::comedi::{AnalogReference, CounterMode, DioDirection, MonitorDisplayMode};
use daq_core::panels::log_events::{create_log_channel, GuiLogEvent, GuiLogLayer, MessageVisitor};
use daq_core::panels::logging::{
    contains_ignore_ascii_case, ConnectionStatus, ExperimentStatus, LogCategory, LogEntry, LogLevel,
    LoggingPanel, SystemStatus, MAX_LOG_ENTRIES,
};

fn t(secs: f64) -> Real {
    Real { bits: secs.to_bits() }
}

#[test]
fn case_insensitive_search() {
    assert!(contains_ignore_ascii_case("Hello World", "world"));
    assert!(contains_ignore_ascii_case("Hello World", "LO W"));
    assert!(contains_ignore_ascii_case("abc", ""));
    assert!(!contains_ignore_ascii_case("abc", "abcd"));
    assert!(!contains_ignore_ascii_case("Straße", "STRASSE"));
    assert!(contains_ignore_ascii_case("Ärger im Büro", "büro"));
}

#[test]
fn categories_from_source_names() {
    assert_eq!(LogCategory::from_source("daq::Connection"), LogCategory::Connection);
    assert_eq!(LogCategory::from_source("health_check"), LogCategory::Connection);
    assert_eq!(LogCategory::from_source("ImageViewer::frame"), LogCategory::Streaming);
    assert_eq!(LogCategory::from_source("Device_Manager"), LogCategory::Devices);
    assert_eq!(LogCategory::from_source("scan_engine"), LogCategory::Scans);
    assert_eq!(LogCategory::from_source("ring_buffer"), LogCategory::Storage);
    assert_eq!(LogCategory::from_source("rhai_runtime"), LogCategory::Scripts);
    assert_eq!(LogCategory::from_source("module_registry"), LogCategory::Modules);
    assert_eq!(LogCategory::from_source("gui"), LogCategory::System);
    // Earlier groups win: "stream" before "device".
    assert_eq!(LogCategory::from_source("device_stream"), LogCategory::Streaming);
}

#[test]
fn labels() {
    assert_eq!(LogLevel::Warn.label(), "WARN");
    assert_eq!(LogLevel::Trace.short_label(), "T");
    assert_eq!(LogLevel::all().len(), 5);
    let cats = LogCategory::all_categories();
    assert_eq!(cats.len(), 8);
    assert!(!cats.contains(&LogCategory::All));
    assert_eq!(cats[0], LogCategory::Connection);
    assert_eq!(LogCategory::Scripts.label(), "Scripts");
    assert_eq!(ConnectionStatus::Connecting.label(), "Connecting...");
    assert_eq!(SystemStatus::default(), SystemStatus::Idle);
    assert_eq!(ExperimentStatus::default().label(), "No Experiment");
    assert_eq!(AnalogReference::Ground.label(), "Ground (RSE)");
    assert_eq!(AnalogReference::all().len(), 4);
    assert_eq!(DioDirection::Output.label(), "Out");
    assert_eq!(CounterMode::all()[5], CounterMode::PulseWidth);
    assert_eq!(CounterMode::PulseGeneration.label(), "Pulse Gen");
    assert_eq!(MonitorDisplayMode::all(), vec![MonitorDisplayMode::LEDs, MonitorDisplayMode::Table, MonitorDisplayMode::Timing]);
    assert_eq!(MonitorDisplayMode::Timing.label(), "Timing View");
}

#[test]
fn entries_get_category_from_source() {
    let e = LogEntry::new(7, t(1.5), LogLevel::Info, "storage_writer", "flushed");
    assert_eq!(e.category, LogCategory::Storage);
    assert_eq!(e.to_export_line("00:00:01.500"), "[00:00:01.500] INFO [Storage] [storage_writer] flushed");
}

#[test]
fn history_keeps_the_newest_entries() {
    let mut panel = LoggingPanel::new();
    for i in 0..(MAX_LOG_ENTRIES + 5) {
        panel.info("gui", &format!("m{}", i), t(0.0));
    }
    assert_eq!(panel.entry_count(), MAX_LOG_ENTRIES);
    assert_eq!(panel.entry(0).message, "m5");
    assert_eq!(panel.entry(0).id, 5);
    panel.clear();
    assert_eq!(panel.entry_count(), 0);
}

#[test]
fn filter_by_category_level_and_text() {
    let mut panel = LoggingPanel::new();
    panel.error("scan_engine", "Scan failed", t(0.0));
    panel.debug("gui", "redraw", t(0.1));
    panel.trace("gui", "tick", t(0.2));
    panel.info("Device_Manager", "connected CAMERA", t(0.3));
    assert_eq!(panel.filtered_entries(), vec![0, 1, 3]);
    panel.filter.search_filter = "camera".to_string();
    assert_eq!(panel.filtered_entries(), vec![3]);
    panel.filter.search_filter = String::new();
    panel.filter.selected_category = LogCategory::Scans;
    assert_eq!(panel.filtered_entries(), vec![0]);
    panel.filter.selected_category = LogCategory::All;
    panel.filter.level_enabled[0] = false;
    panel.filter.min_level = LogLevel::Info;
    assert_eq!(panel.filtered_entries(), vec![3]);
}

#[test]
fn export_lists_filtered_entries() {
    let mut panel = LoggingPanel::new();
    panel.warn("scan", "slow", t(0.0));
    panel.trace("gui", "tick", t(1.0));
    let times = vec!["00:00:00.000".to_string(), "00:00:01.000".to_string()];
    let text = panel.generate_export(&times);
    assert_eq!(
        text,
        "# rust-daq Log Export\n# Entries: 1\n# Filter: category=All, level>=DEBUG, search=''\n#\n[00:00:00.000] WARN [Scans] [scan] slow\n"
    );
}

#[test]
fn message_visitor_prefers_the_message_field() {
    let mut v = MessageVisitor::new();
    v.record_debug("count", "3");
    assert_eq!(v.message, "count=3");
    v.record_debug("other", "4");
    assert_eq!(v.message, "count=3");
    v.record_debug("message", "\"hello\"");
    assert_eq!(v.message, "hello");
    v.record_str("message", "plain");
    assert_eq!(v.message, "plain");
    let mut w = MessageVisitor::new();
    w.record_str("target", "x");
    assert_eq!(w.message, "target=x");
}

#[test]
fn log_channel_carries_events() {
    let (tx, rx) = create_log_channel();
    let layer = GuiLogLayer::new(tx);
    layer
        .sender
        .send(GuiLogEvent { level: LogLevel::Info, target: "t".to_string(), message: "m".to_string() })
        .unwrap();
    let e = rx.recv().unwrap();
    assert_eq!(e.message, "m");
    assert_eq!(e.level, LogLevel::Info);
}

#[test]
fn status_colors() {
    assert_eq!(LogLevel::Error.color(), (255, 100, 100));
    assert_eq!(LogLevel::Trace.color(), (140, 140, 140));
    assert_eq!(LogCategory::All.color(), (255, 255, 255));
    assert_eq!(LogCategory::Scripts.color(), (255, 100, 180));
    assert_eq!(ConnectionStatus::Disconnected.color(), (160, 160, 160));
    assert_eq!(ConnectionStatus::Connected.color(), (0, 255, 0));
    assert_eq!(SystemStatus::Busy.color(), (100, 150, 255));
    assert_eq!(ExperimentStatus::Paused.color(), (255, 255, 0));
    assert_eq!(ExperimentStatus::Failed.color(), (255, 0, 0));
}

#[test]
fn connection_state_colors() {
    assert_eq!(ConnectionState::Disconnected.color(), (160, 160, 160));
    assert_eq!(ConnectionState::Connecting.color(), (255, 255, 0));
    assert_eq!(ConnectionState::Connected.color(), (0, 255, 0));
    assert_eq!(ConnectionState::Reconnecting.color(), (255, 255, 0));
    assert_eq!(ConnectionState::Error.color(), (255, 0, 0));
}
