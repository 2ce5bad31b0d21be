use comms::error_log::{
    append_entry, civil_from_days, format_entry, request_dumps_enabled, timestamp, MAX_ENTRIES,
};

#[test]
fn civil_from_days_matches_known_dates() {
    // Epoch itself.
    assert_eq!(civil_from_days(0), (1970, 1, 1));
    // A leap day, and the day after it.
    assert_eq!(civil_from_days(19782), (2024, 2, 29));
    assert_eq!(civil_from_days(19783), (2024, 3, 1));
    // A century non-leap year boundary (1900 isn't a leap year, but
    // this crosses 2000, which is).
    assert_eq!(civil_from_days(10957), (2000, 1, 1));
    // New Year's Eve into New Year's Day.
    assert_eq!(civil_from_days(11322), (2000, 12, 31));
    assert_eq!(civil_from_days(11323), (2001, 1, 1));
}

#[test]
fn days_before_the_epoch_have_dates_too() {
    assert_eq!(civil_from_days(-1), (1969, 12, 31));
    assert_eq!(civil_from_days(-25509), (1900, 2, 28));
    // 1900 was no leap year.
    assert_eq!(civil_from_days(-25508), (1900, 3, 1));
}

#[test]
fn multiline_messages_are_flattened_to_one_entry() {
    let entry = format_entry(
        "2024-02-29T00:00:00Z",
        "test",
        "line one\n  line two  \n\nline three",
    );
    assert_eq!(entry.matches('\n').count(), 0);
    assert!(entry.ends_with("test: line one; line two; line three"));
}

#[test]
fn log_error_trims_to_the_most_recent_entries() {
    let mut lines: Vec<String> = Vec::new();
    for i in 0..(MAX_ENTRIES + 10) {
        lines = append_entry(
            lines,
            format_entry("2024-02-29T00:00:00Z", "test", &format!("entry {i}")),
        );
    }
    assert_eq!(lines.len(), MAX_ENTRIES);
    // The oldest entries were dropped; the newest survived, in order.
    assert!(lines[0].ends_with("entry 10"));
    assert!(lines[lines.len() - 1].ends_with(&format!("entry {}", MAX_ENTRIES + 9)));
}

#[test]
fn a_moment_is_written_as_a_date_and_a_time() {
    assert!(timestamp(0).starts_with("1970-01-01"));
    assert!(timestamp(0).contains("00:00:00"));
    let leap = timestamp(19782 * 86_400 + 13 * 3600 + 5 * 60 + 9);
    assert!(leap.starts_with("2024-02-29"), "{leap}");
    assert!(leap.contains("13:05:09"), "{leap}");
}

#[test]
fn dumps_are_off_unless_asked_for() {
    assert!(!request_dumps_enabled(None));
    assert!(!request_dumps_enabled(Some("")));
    assert!(request_dumps_enabled(Some("1")));
}
