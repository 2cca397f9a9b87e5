use raindrop_sync::filter::Timestamp;
use raindrop_sync::logging::{
    is_rotated_log_name, retention_cutoff, should_remove_log, starts_with, state_dir_from,
};

#[test]
fn test_state_dir_uses_xdg_state_home_when_set() {
    let path = state_dir_from(Some("/custom/state".to_string()), None);
    assert_eq!(path, "/custom/state/raindrop_sync");
}

#[test]
fn test_state_dir_defaults_to_home_local_state() {
    let path = state_dir_from(None, Some("/home/user".to_string()));
    assert_eq!(path, "/home/user/.local/state/raindrop_sync");
}

#[test]
fn state_dir_prefers_xdg_over_home() {
    let path = state_dir_from(Some("/x".to_string()), Some("/home/user".to_string()));
    assert_eq!(path, "/x/raindrop_sync");
}

#[test]
fn state_dir_without_either_is_relative() {
    assert_eq!(state_dir_from(None, None), ".local/state/raindrop_sync");
}

#[test]
fn rotated_log_names() {
    assert!(is_rotated_log_name("raindrop_sync.log.2024-06-01"));
    assert!(!is_rotated_log_name("raindrop_sync.log"));
    assert!(!is_rotated_log_name("other.log.2024-06-01"));
    assert!(!is_rotated_log_name("raindrop_sync.lo"));
    assert!(!is_rotated_log_name(""));
}

#[test]
fn starts_with_cases() {
    assert!(starts_with("abc", ""));
    assert!(starts_with("abc", "ab"));
    assert!(starts_with("abc", "abc"));
    assert!(!starts_with("abc", "abcd"));
    assert!(!starts_with("abc", "b"));
}

#[test]
fn retention_is_seven_days() {
    let cutoff = retention_cutoff(Timestamp { secs: 1_000_000, nanos: 5 });
    assert_eq!(cutoff.secs, 1_000_000 - 7 * 24 * 60 * 60);
    assert_eq!(cutoff.nanos, 5);
}

#[test]
fn old_rotated_logs_are_removed() {
    let cutoff = Timestamp { secs: 1000, nanos: 500 };
    let old = Timestamp { secs: 999, nanos: 900 };
    let just_before = Timestamp { secs: 1000, nanos: 499 };
    let at = Timestamp { secs: 1000, nanos: 500 };
    let new = Timestamp { secs: 2000, nanos: 0 };
    assert!(should_remove_log("raindrop_sync.log.2024-01-01", &old, &cutoff));
    assert!(should_remove_log("raindrop_sync.log.2024-01-01", &just_before, &cutoff));
    assert!(!should_remove_log("raindrop_sync.log.2024-01-01", &at, &cutoff));
    assert!(!should_remove_log("raindrop_sync.log.2024-01-01", &new, &cutoff));
    assert!(!should_remove_log("raindrop_sync.log", &old, &cutoff));
    assert!(!should_remove_log("notes.txt", &old, &cutoff));
}
