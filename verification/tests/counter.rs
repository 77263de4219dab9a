use sherlock::counter::SherlockAction;
use sherlock::counter::{cache_is_fresh, count_from_bytes, count_to_bytes, next_count};

#[test]
fn counts_round_trip_little_endian() {
    assert_eq!(count_to_bytes(1), [1, 0, 0, 0]);
    assert_eq!(count_to_bytes(0x0102_0304), [4, 3, 2, 1]);
    for n in [0u32, 1, 255, 256, 65_535, 1 << 24, u32::MAX] {
        assert_eq!(count_from_bytes(count_to_bytes(n)), n);
        assert_eq!(count_from_bytes(count_to_bytes(n)), u32::from_le_bytes(n.to_le_bytes()));
    }
    assert_eq!(count_from_bytes([0xff, 0xff, 0xff, 0xff]), u32::MAX);
}

#[test]
fn next_count_saturates() {
    assert_eq!(next_count(0), 1);
    assert_eq!(next_count(41), 42);
    assert_eq!(next_count(u32::MAX), u32::MAX);
}

#[test]
fn cache_freshness_by_age() {
    assert!(cache_is_fresh(59, 999_999_999, 1));
    assert!(!cache_is_fresh(60, 0, 1));
    assert!(!cache_is_fresh(0, 0, 0));
    assert!(cache_is_fresh(3599, 0, 60));
}

#[test]
fn actions_are_written_as_json_text() {
    let a = SherlockAction { on: 5, action: "open".to_string(), command: Some("ls -l".to_string()) };
    assert_eq!(a.to_text(), r#"{"on": 5, "action": "open", "exec": "ls -l" }"#);
    let b = SherlockAction { on: 120, action: "notify".to_string(), command: None };
    assert_eq!(b.to_text(), r#"{"on": 120, "action": "notify", "exec": null }"#);
}
