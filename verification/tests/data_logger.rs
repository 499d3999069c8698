use daq_core::graph::nodes::Real;
use daq_core::panels::data_logger::{channel_kind, ChannelKind, DataLoggerPanel, LogEntry, MAX_LOG_ROWS};

fn to_real(x: f64) -> Real {
    Real { bits: x.to_bits() }
}

#[test]
fn entry_constructors_name_channels() {
    let v = LogEntry::voltage(to_real(1.5), 3, to_real(2.25));
    assert_eq!(v.channel, "AI3");
    assert_eq!(v.unit, "V");
    assert_eq!(f64::from_bits(v.value.bits), 2.25);
    let c = LogEntry::counter(to_real(0.0), 12, to_real(40.0));
    assert_eq!(c.channel, "CTR12");
    assert_eq!(c.unit, "counts");
    let d = LogEntry::digital(to_real(0.0), 7, true);
    assert_eq!(d.channel, "DIO7");
    assert_eq!(f64::from_bits(d.value.bits), 1.0);
    assert_eq!(d.unit, "");
    let off = LogEntry::digital(to_real(0.0), 7, false);
    assert_eq!(f64::from_bits(off.value.bits), 0.0);
    let n = LogEntry::new(to_real(0.5), "AO1".to_string(), to_real(3.0), "V".to_string());
    assert_eq!(n.channel, "AO1");
}

#[test]
fn channel_kinds_by_prefix() {
    assert_eq!(channel_kind("AI0"), ChannelKind::AnalogIn);
    assert_eq!(channel_kind("AO2"), ChannelKind::AnalogOut);
    assert_eq!(channel_kind("DIO5"), ChannelKind::Digital);
    assert_eq!(channel_kind("CTR1"), ChannelKind::Counter);
    assert_eq!(channel_kind("temp"), ChannelKind::Other);
    assert_eq!(channel_kind("A"), ChannelKind::Other);
}

#[test]
fn buffer_drops_the_oldest_when_full() {
    let mut panel = DataLoggerPanel::new();
    for i in 0..(MAX_LOG_ROWS + 5) {
        assert!(panel.receive(LogEntry::voltage(to_real(i as f64), 0, to_real(0.0))));
    }
    assert_eq!(panel.len(), MAX_LOG_ROWS);
    assert_eq!(panel.counts(), ((MAX_LOG_ROWS + 5) as u64, 5));
    assert_eq!(f64::from_bits(panel.entry(0).timestamp.bits), 5.0);
}

#[test]
fn paused_logging_ignores_readings() {
    let mut panel = DataLoggerPanel::new();
    panel.toggle_logging();
    assert!(!panel.receive(LogEntry::voltage(to_real(0.0), 0, to_real(1.0))));
    assert_eq!(panel.len(), 0);
    assert_eq!(panel.counts(), (0, 0));
    panel.toggle_logging();
    assert!(panel.receive(LogEntry::voltage(to_real(0.0), 0, to_real(1.0))));
    assert_eq!(panel.counts(), (1, 0));
}

#[test]
fn channel_filter_ignores_case() {
    let mut panel = DataLoggerPanel::new();
    panel.receive(LogEntry::voltage(to_real(0.0), 0, to_real(1.0)));
    panel.receive(LogEntry::digital(to_real(0.0), 1, true));
    panel.receive(LogEntry::voltage(to_real(0.0), 10, to_real(1.0)));
    assert_eq!(panel.filtered_indices(), vec![0, 1, 2]);
    panel.set_channel_filter("ai".to_string());
    assert_eq!(panel.filtered_indices(), vec![0, 2]);
    panel.set_channel_filter("Dio".to_string());
    assert_eq!(panel.filtered_indices(), vec![1]);
}

#[test]
fn paging_follows_and_navigates() {
    let mut panel = DataLoggerPanel::new();
    panel.set_rows_per_page(25);
    for i in 0..60 {
        panel.receive(LogEntry::voltage(to_real(i as f64), 0, to_real(0.0)));
    }
    panel.follow_latest();
    assert_eq!(panel.page_count(), 3);
    assert_eq!(panel.current_page(), 2);
    assert_eq!(panel.page_rows(), (50..60).collect::<Vec<usize>>());
    panel.previous_page();
    assert_eq!(panel.current_page(), 1);
    assert_eq!(panel.modes(), (true, false));
    assert_eq!(panel.page_rows(), (25..50).collect::<Vec<usize>>());
    panel.first_page();
    assert_eq!(panel.current_page(), 0);
    panel.first_page();
    assert_eq!(panel.current_page(), 0);
    panel.next_page();
    panel.next_page();
    panel.next_page();
    assert_eq!(panel.current_page(), 2);
    panel.previous_page();
    panel.last_page();
    assert_eq!(panel.current_page(), 2);
    assert_eq!(panel.modes(), (true, true));
}

#[test]
fn page_past_the_end_shows_the_last_page() {
    let mut panel = DataLoggerPanel::new();
    panel.set_rows_per_page(25);
    for i in 0..60 {
        panel.receive(LogEntry::voltage(to_real(i as f64), 0, to_real(0.0)));
    }
    panel.follow_latest();
    panel.set_channel_filter("ctr".to_string());
    assert_eq!(panel.page_count(), 1);
    assert!(panel.page_rows().is_empty());
    panel.set_channel_filter(String::new());
    panel.clear();
    assert_eq!(panel.len(), 0);
    assert_eq!(panel.counts(), (0, 0));
    assert_eq!(panel.current_page(), 0);
    assert_eq!(panel.page_count(), 1);
}

#[test]
fn channel_colors() {
    assert_eq!(channel_kind("AI1").color(), (100, 200, 255));
    assert_eq!(channel_kind("AO1").color(), (255, 200, 100));
    assert_eq!(channel_kind("DIO1").color(), (100, 255, 150));
    assert_eq!(channel_kind("CTR1").color(), (255, 150, 200));
    assert_eq!(channel_kind("x").color(), (160, 160, 160));
}
