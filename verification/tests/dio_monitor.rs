use daq_core::panels::comedi::MonitorDisplayMode;
use daq_core::panels::dio_monitor::{DioMonitorPanel, PinState, MAX_PIN_HISTORY};
use std::time::{Duration, Instant};

#[test]
fn edges_and_pulses_are_detected() {
    let t0 = Instant::now();
    let mut pin = PinState::new(t0);
    let t1 = t0 + Duration::from_millis(5);
    let t2 = t0 + Duration::from_millis(12);
    pin.update(true, t1);
    assert_eq!(pin.rising_edges, 1);
    assert!(pin.pulse_active);
    pin.update(true, t1);
    assert_eq!(pin.rising_edges, 1);
    pin.update(false, t2);
    assert_eq!(pin.falling_edges, 1);
    assert!(!pin.pulse_active);
    let (start, end) = pin.last_pulse.unwrap();
    assert_eq!(end.duration_since(start), Duration::from_millis(7));
    assert_eq!(pin.last_change, t2);
    assert_eq!(pin.history.len(), 3);
    pin.reset_counters();
    assert_eq!((pin.rising_edges, pin.falling_edges), (0, 0));
}

#[test]
fn history_is_bounded() {
    let t0 = Instant::now();
    let mut pin = PinState::new(t0);
    for i in 0..(MAX_PIN_HISTORY + 10) {
        pin.update(i % 2 == 0, t0);
    }
    assert_eq!(pin.history.len(), MAX_PIN_HISTORY);
    assert_eq!(pin.rising_edges, 55);
    assert_eq!(pin.falling_edges, 55);
}

#[test]
fn monitor_takes_samples_unless_frozen() {
    let now = Instant::now();
    let mut panel = DioMonitorPanel::new(40, now);
    assert_eq!(panel.n_pins(), 32);
    assert_eq!(panel.label(7), "DIO7");
    assert_eq!(panel.display_mode(), MonitorDisplayMode::LEDs);
    panel.apply_update(3, true, now);
    assert!(panel.pin(3).state);
    assert_eq!(panel.pin(3).rising_edges, 1);
    panel.apply_update(99, true, now);
    panel.toggle_frozen();
    panel.apply_update(3, false, now);
    assert!(panel.pin(3).state);
    panel.toggle_frozen();
    panel.apply_update(3, false, now);
    assert!(!panel.pin(3).state);
    panel.reset_counters();
    assert_eq!(panel.pin(3).falling_edges, 0);
    panel.set_mode(MonitorDisplayMode::Timing);
    assert_eq!(panel.display_mode(), MonitorDisplayMode::Timing);
    assert_eq!(DioMonitorPanel::new(8, now).n_pins(), 8);
}
