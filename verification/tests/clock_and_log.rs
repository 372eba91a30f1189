use fileio_etw::clock::{civil_from_days, format_iso};
use fileio_etw::log_format::{level_label, log_line, LogLevel};

#[test]
fn civil_from_days_epoch() {
    assert_eq!(civil_from_days(0), (1970, 1, 1));
}

#[test]
fn civil_from_days_before_epoch() {
    assert_eq!(civil_from_days(-1), (1969, 12, 31));
    assert_eq!(civil_from_days(-719162), (1, 1, 1));
}

#[test]
fn civil_from_days_leap_day_and_century() {
    assert_eq!(civil_from_days(11016), (2000, 2, 29));
    assert_eq!(civil_from_days(11017), (2000, 3, 1));
    assert_eq!(civil_from_days(-25508), (1900, 3, 1));
    assert_eq!(civil_from_days(19723), (2024, 1, 1));
}

#[test]
fn format_iso_epoch() {
    assert_eq!(format_iso(0), "19700101-000000.000");
}

#[test]
fn format_iso_time_of_day_and_millis() {
    assert_eq!(format_iso(1_700_000_000_123), "20231114-221320.123");
    assert_eq!(format_iso(1_704_067_199_999), "20231231-235959.999");
}

#[test]
fn level_labels_are_four_letters() {
    assert_eq!(level_label(LogLevel::Error), "ERRO");
    assert_eq!(level_label(LogLevel::Warn), "WARN");
    assert_eq!(level_label(LogLevel::Info), "INFO");
    assert_eq!(level_label(LogLevel::Debug), "DEBG");
    assert_eq!(level_label(LogLevel::Trace), "TRCE");
}

#[test]
fn log_line_pads_label_to_five() {
    assert_eq!(
        log_line("20240101-000000.000", LogLevel::Info, "hello"),
        "20240101-000000.000 [INFO ] hello"
    );
}
