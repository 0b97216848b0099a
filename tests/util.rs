use gym_sniper::clock::{
    booking_window, format_duration, opening_instant, LocalDateTime, Weekday,
    MILLIS_PER_DAY, MILLIS_PER_HOUR, MILLIS_PER_MINUTE, MILLIS_PER_SECOND,
};
use gym_sniper::scheduler::{clock_text_matches, weekday_matches, weekday_name_matches};
use gym_sniper::text::{is_auth_error, text_contains, text_equals, truncate};

#[test]
fn format_duration_hours_mins_secs() {
    let d = 2 * MILLIS_PER_HOUR + 30 * MILLIS_PER_MINUTE + 15 * MILLIS_PER_SECOND;
    assert_eq!(format_duration(d), "2h 30m 15s");
}

#[test]
fn format_duration_mins_secs() {
    let d = 5 * MILLIS_PER_MINUTE + 42 * MILLIS_PER_SECOND;
    assert_eq!(format_duration(d), "5m 42s");
}

#[test]
fn format_duration_secs_only() {
    let d = 7 * MILLIS_PER_SECOND;
    assert_eq!(format_duration(d), "7s");
}

#[test]
fn format_duration_zero() {
    let d = 0;
    assert_eq!(format_duration(d), "0s");
}

#[test]
fn format_duration_drops_fractions_and_shows_negative_seconds() {
    assert_eq!(format_duration(26 * MILLIS_PER_HOUR + 999), "26h 0m 0s");
    assert_eq!(format_duration(-65 * MILLIS_PER_SECOND), "-5s");
    assert_eq!(format_duration(-600), "0s");
    assert_eq!(format_duration(3_600_000), "1h 0m 0s");
}

#[test]
fn truncate_short_string_noop() {
    assert_eq!(truncate("hello", 10), "hello");
}

#[test]
fn truncate_exact_length() {
    assert_eq!(truncate("hello", 5), "hello");
}

#[test]
fn truncate_over_length() {
    assert_eq!(truncate("hello world", 8), "hello...");
}

#[test]
fn truncate_counts_bytes_of_utf8() {
    // "ééabcdef" is ten bytes long: keep five bytes, "ééa".
    assert_eq!(truncate("ééabcdef", 8), "ééa...");
    assert_eq!(truncate("éé", 4), "éé");
}

#[test]
fn weekday_matches_full_names() {
    assert!(weekday_matches("monday", Weekday::Mon));
    assert!(weekday_matches("tuesday", Weekday::Tue));
    assert!(weekday_matches("wednesday", Weekday::Wed));
    assert!(weekday_matches("thursday", Weekday::Thu));
    assert!(weekday_matches("friday", Weekday::Fri));
    assert!(weekday_matches("saturday", Weekday::Sat));
    assert!(weekday_matches("sunday", Weekday::Sun));
}

#[test]
fn weekday_matches_abbreviations() {
    assert!(weekday_matches("mon", Weekday::Mon));
    assert!(weekday_matches("tue", Weekday::Tue));
    assert!(weekday_matches("wed", Weekday::Wed));
    assert!(weekday_matches("thu", Weekday::Thu));
    assert!(weekday_matches("fri", Weekday::Fri));
    assert!(weekday_matches("sat", Weekday::Sat));
    assert!(weekday_matches("sun", Weekday::Sun));
}

#[test]
fn weekday_matches_case_insensitive() {
    assert!(weekday_matches("Monday", Weekday::Mon));
    assert!(weekday_matches("FRIDAY", Weekday::Fri));
    assert!(weekday_matches("Wed", Weekday::Wed));
}

#[test]
fn weekday_matches_non_match() {
    assert!(!weekday_matches("monday", Weekday::Tue));
    assert!(!weekday_matches("xyz", Weekday::Mon));
    assert!(!weekday_matches("", Weekday::Mon));
}

#[test]
fn weekday_name_matches_needs_lower_case() {
    assert!(weekday_name_matches("fri", Weekday::Fri));
    assert!(!weekday_name_matches("FRI", Weekday::Fri));
}

#[test]
fn booking_window_is_seven_days_two_hours() {
    assert_eq!(booking_window(), 7 * MILLIS_PER_DAY + 2 * MILLIS_PER_HOUR);
}

#[test]
fn opening_instant_is_exact_and_uses_local_offset() {
    let start = LocalDateTime { utc_millis: 1_737_363_600_123, offset_seconds: 0 };
    let open = opening_instant(start);
    assert_eq!(open.utc_millis, 1_737_363_600_123 - 612_000_000);
    let expected = chrono::DateTime::from_timestamp_millis(open.utc_millis)
        .unwrap()
        .with_timezone(&chrono::Local)
        .offset()
        .local_minus_utc();
    assert_eq!(open.offset_seconds, expected);
}

#[test]
fn calendar_fields_of_a_known_instant() {
    // 2025-01-15T18:30:00 at UTC+01:00 is 17:30 UTC; a Wednesday.
    let t = LocalDateTime { utc_millis: 1_736_962_200_000, offset_seconds: 3600 };
    assert_eq!(t.local_day(), 20_103);
    assert_eq!(t.minute_of_day(), 18 * 60 + 30);
    assert_eq!(t.weekday(), Weekday::Wed);
    // Before the epoch: 1969-12-31T23:00:00 UTC, a Wednesday.
    let early = LocalDateTime { utc_millis: -3_600_000, offset_seconds: 0 };
    assert_eq!(early.local_day(), -1);
    assert_eq!(early.minute_of_day(), 23 * 60);
    assert_eq!(early.weekday(), Weekday::Wed);
}

#[test]
fn clock_text_matches_two_digit_form() {
    assert!(clock_text_matches("09:00", 9 * 60));
    assert!(clock_text_matches("18:05", 18 * 60 + 5));
    assert!(!clock_text_matches("9:00", 9 * 60));
    assert!(!clock_text_matches("09:01", 9 * 60));
}

#[test]
fn text_search_and_equality() {
    assert!(text_contains("Booking failed (400): TooSoonToBook", "TooSoonToBook"));
    assert!(!text_contains("tooSoon", "TooSoon"));
    assert!(text_contains("abc", ""));
    assert!(text_equals("Bookable", "Bookable"));
    assert!(!text_equals("Bookable", "bookable"));
}

#[test]
fn is_auth_error_recognises_auth_failures() {
    assert!(is_auth_error("Failed to get classes: 401 Unauthorized"));
    assert!(is_auth_error("Authentication failed: Not logged in"));
    assert!(is_auth_error("invalid token"));
    assert!(!is_auth_error("Failed to get classes: 500 Internal Server Error"));
}
