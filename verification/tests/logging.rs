use subforge::logging::{
    LogDate, LogLevel, extract_iso_date, is_expired_log_file, oldest_kept_date, parse_iso_date_slice,
    parse_tracing_level, parse_u16, parse_u8, resolve_log_level, resolve_log_retention_days,
};

#[test]
fn extract_iso_date_from_log_filename() {
    let parsed = extract_iso_date("subforge-core.log.2026-04-03");
    assert_eq!(parsed, Some(LogDate { year: 2026, month: 4, day: 3 }));
}

#[test]
fn iso_dates_must_be_real_calendar_days() {
    assert_eq!(parse_iso_date_slice(b"2024-02-29"), Some(LogDate { year: 2024, month: 2, day: 29 }));
    assert_eq!(parse_iso_date_slice(b"2023-02-29"), None);
    assert_eq!(parse_iso_date_slice(b"2023-13-01"), None);
    assert_eq!(parse_iso_date_slice(b"2023/01/01"), None);
    assert_eq!(parse_iso_date_slice(b"2023-1-010"), None);
    assert_eq!(extract_iso_date("log.2023-13-40.2026-01-02.txt"), Some(LogDate { year: 2026, month: 1, day: 2 }));
    assert_eq!(extract_iso_date("short"), None);
}

#[test]
fn digit_runs_read_as_small_numbers() {
    assert_eq!(parse_u16(b"2026"), Some(2026));
    assert_eq!(parse_u16(b"65536"), None);
    assert_eq!(parse_u16(b""), None);
    assert_eq!(parse_u16(b"12a"), None);
    assert_eq!(parse_u8(b"255"), Some(255));
    assert_eq!(parse_u8(b"256"), None);
    assert_eq!(parse_u8(b"007"), Some(7));
}

#[test]
fn cleanup_decision_keeps_recent_and_unmanaged_files() {
    let today = LogDate { year: 2026, month: 4, day: 3 };
    let oldest = oldest_kept_date(today, 7).expect("in range");
    assert_eq!(oldest, LogDate { year: 2026, month: 3, day: 28 });
    assert!(is_expired_log_file("subforge-core.log.2026-03-20", true, oldest));
    assert!(!is_expired_log_file("subforge-core.log.2026-04-01", true, oldest));
    assert!(!is_expired_log_file("app.log.2026-03-01", true, oldest));
    assert!(!is_expired_log_file("subforge-core.log", true, oldest));
    assert!(!is_expired_log_file("subforge-core.log.2026-03-20", false, oldest));
    assert_eq!(oldest_kept_date(today, 0), Some(today));
    assert_eq!(oldest_kept_date(LogDate { year: 2024, month: 3, day: 1 }, 2), Some(LogDate { year: 2024, month: 2, day: 29 }));
}

#[test]
fn log_settings_fall_back_in_order() {
    assert_eq!(resolve_log_level(Some(" DEBUG "), Some("warn")), "debug");
    assert_eq!(resolve_log_level(None, Some(" Warn ")), "warn");
    assert_eq!(resolve_log_level(None, Some("  ")), "info");
    assert_eq!(resolve_log_level(None, None), "info");
    assert_eq!(resolve_log_retention_days(Some(0), Some("30")), 1);
    assert_eq!(resolve_log_retention_days(Some(14), None), 14);
    assert_eq!(resolve_log_retention_days(None, Some(" 30 ")), 30);
    assert_eq!(resolve_log_retention_days(None, Some("often")), 7);
    assert_eq!(resolve_log_retention_days(None, Some("0")), 1);
    assert_eq!(resolve_log_retention_days(None, None), 7);
    assert_eq!(parse_tracing_level("trace"), LogLevel::Trace);
    assert_eq!(parse_tracing_level("error"), LogLevel::Error);
    assert_eq!(parse_tracing_level("loud"), LogLevel::Info);
}
