use microclaw::startup_guard::{
    mark_channel_started, mark_channel_started_at, parse_epoch_ms_from_seconds_str,
    parse_epoch_ms_from_str, should_drop_pre_start_message, should_drop_recent_duplicate_message,
    should_drop_recent_duplicate_message_at, StartupGuard, RECENT_DUPLICATE_TTL_MS,
};

#[test]
fn test_recent_duplicate_message_guard() {
    let mut guard = StartupGuard::new();
    let channel = "test.startup_guard.dup";
    let message = "mid_123";
    assert!(!should_drop_recent_duplicate_message(&mut guard, channel, message));
    assert!(should_drop_recent_duplicate_message(&mut guard, channel, message));
}

#[test]
fn test_recent_duplicate_expires_after_ttl() {
    let mut guard = StartupGuard::new();
    assert!(!should_drop_recent_duplicate_message_at(&mut guard, "c", " m1 ", 1000));
    assert!(should_drop_recent_duplicate_message_at(&mut guard, "c", "m1", 1000 + RECENT_DUPLICATE_TTL_MS));
    assert!(!should_drop_recent_duplicate_message_at(
        &mut guard,
        "c",
        "m1",
        1001 + RECENT_DUPLICATE_TTL_MS
    ));
    assert!(should_drop_recent_duplicate_message_at(
        &mut guard,
        "c",
        "m1",
        1002 + RECENT_DUPLICATE_TTL_MS
    ));
    assert!(!should_drop_recent_duplicate_message_at(&mut guard, "other", "m1", 1000));
}

#[test]
fn test_recent_duplicate_ignores_empty_id() {
    let mut guard = StartupGuard::new();
    assert!(!should_drop_recent_duplicate_message_at(&mut guard, "c", "  ", 5));
    assert!(!should_drop_recent_duplicate_message_at(&mut guard, "c", "", 5));
    assert!(!should_drop_recent_duplicate_message_at(&mut guard, "c", "\t", 6));
}

#[test]
fn test_recent_duplicate_clock_going_back_counts_as_fresh() {
    let mut guard = StartupGuard::new();
    assert!(!should_drop_recent_duplicate_message_at(&mut guard, "c", "m", i64::MAX));
    assert!(should_drop_recent_duplicate_message_at(&mut guard, "c", "m", i64::MIN));
}

#[test]
fn test_should_drop_pre_start_message() {
    let mut guard = StartupGuard::new();
    assert!(!should_drop_pre_start_message(&guard, "tg", "m", Some(5)));
    mark_channel_started_at(&mut guard, "tg", 1000);
    assert!(should_drop_pre_start_message(&guard, "tg", "m", Some(999)));
    assert!(!should_drop_pre_start_message(&guard, "tg", "m", Some(1000)));
    assert!(!should_drop_pre_start_message(&guard, "tg", "m", None));
    assert!(!should_drop_pre_start_message(&guard, "web", "m", Some(1)));
    mark_channel_started_at(&mut guard, "tg", 500);
    assert!(!should_drop_pre_start_message(&guard, "tg", "m", Some(999)));
    assert!(should_drop_pre_start_message(&guard, "tg", "m", Some(499)));
}

#[test]
fn test_mark_channel_started_uses_present_time() {
    let mut guard = StartupGuard::new();
    mark_channel_started(&mut guard, "tg");
    assert!(should_drop_pre_start_message(&guard, "tg", "m", Some(1_000_000_000_000)));
    assert!(!should_drop_pre_start_message(&guard, "tg", "m", Some(i64::MAX)));
}

#[test]
fn test_parse_epoch_ms_from_str() {
    assert_eq!(parse_epoch_ms_from_str(" 1700000000123 "), Some(1700000000123));
    assert_eq!(parse_epoch_ms_from_str("-5"), Some(-5));
    assert_eq!(parse_epoch_ms_from_str("+5"), Some(5));
    assert_eq!(parse_epoch_ms_from_str("9223372036854775807"), Some(i64::MAX));
    assert_eq!(parse_epoch_ms_from_str("-9223372036854775808"), Some(i64::MIN));
    assert_eq!(parse_epoch_ms_from_str("9223372036854775808"), None);
    assert_eq!(parse_epoch_ms_from_str("12a"), None);
    assert_eq!(parse_epoch_ms_from_str(""), None);
    assert_eq!(parse_epoch_ms_from_str("-"), None);
    assert_eq!(parse_epoch_ms_from_str("1.5"), None);
}

#[test]
fn test_parse_epoch_ms_from_seconds_str() {
    assert_eq!(parse_epoch_ms_from_seconds_str("1700000000"), Some(1700000000000));
    assert_eq!(parse_epoch_ms_from_seconds_str(" -2 "), Some(-2000));
    assert_eq!(parse_epoch_ms_from_seconds_str("9223372036854775807"), Some(i64::MAX));
    assert_eq!(parse_epoch_ms_from_seconds_str("-9223372036854775807"), Some(i64::MIN));
    assert_eq!(parse_epoch_ms_from_seconds_str("x"), None);
}
