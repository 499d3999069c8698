use daq_core::clock::{rfc3339_now, rfc3339_text, unix_nanos, unix_seconds, utc_date_text, utc_datetime_text};

#[test]
fn clock_texts_of_a_known_time() {
    assert_eq!(utc_date_text(1_431_648_000).as_deref(), Some("2015-05-15"));
    assert_eq!(utc_datetime_text(1_431_648_123).as_deref(), Some("20150515_000203"));
    assert_eq!(rfc3339_text(1_431_648_000, 0).as_deref(), Some("2015-05-15T00:00:00+00:00"));
    assert_eq!(rfc3339_text(1_431_648_000, 5_000_000).as_deref(), Some("2015-05-15T00:00:00.005+00:00"));
    assert_eq!(utc_date_text(0).as_deref(), Some("1970-01-01"));
    assert_eq!(utc_date_text(u64::MAX), None);
}

#[test]
fn clock_texts_now_have_their_shapes() {
    let r = rfc3339_now();
    assert!(r.ends_with("+00:00"));
    assert_eq!(&r[10..11], "T");
    assert_eq!(&r[13..14], ":");
}

#[test]
fn clock_readings_after_epoch() {
    let s = unix_seconds().expect("clock after 1970");
    let n = unix_nanos().expect("clock after 1970");
    assert!(s > 1_600_000_000);
    assert!(n / 1_000_000_000 >= s);
}
