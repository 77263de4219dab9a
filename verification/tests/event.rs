use sherlock::event::{compare_events, hex_to_u32, most_relevant, should_refresh, start_label, EventTimes};

fn ev(start: i64, end: i64) -> EventTimes {
    EventTimes { start: Some(start), end: Some(end) }
}

#[test]
fn active_events_come_first() {
    let now = 100;
    let active = ev(90, 120);
    let upcoming = ev(110, 130);
    let past = ev(10, 20);
    assert_eq!(compare_events(&active, &upcoming, now), -1);
    assert_eq!(compare_events(&upcoming, &active, now), 1);
    assert_eq!(compare_events(&upcoming, &past, now), -1);
    assert_eq!(compare_events(&past, &active, now), 1);
}

#[test]
fn ties_broken_by_time() {
    let now = 100;
    // both active: the one ending sooner first
    assert_eq!(compare_events(&ev(90, 110), &ev(80, 150), now), -1);
    // both upcoming: the one starting sooner first
    assert_eq!(compare_events(&ev(200, 300), &ev(150, 400), now), 1);
    // both past: the one that ended last first
    assert_eq!(compare_events(&ev(10, 50), &ev(10, 20), now), -1);
    assert_eq!(compare_events(&ev(10, 50), &ev(5, 50), now), 0);
}

#[test]
fn missing_times_count_as_now() {
    let now = 100;
    let open = EventTimes { start: None, end: Some(150) };
    assert_eq!(compare_events(&open, &ev(120, 130), now), -1);
    let unknown = EventTimes { start: None, end: None };
    // neither active nor upcoming: a past event ending at `now`
    assert_eq!(compare_events(&unknown, &ev(10, 20), now), -1);
}

#[test]
fn most_relevant_picks_first_best() {
    let now = 100;
    let events = vec![ev(10, 20), ev(150, 160), ev(90, 130), ev(95, 130), ev(120, 125)];
    assert_eq!(most_relevant(&events, now), Some(2));
    assert_eq!(most_relevant(&[], now), None);
    assert_eq!(most_relevant(&[ev(10, 20), ev(30, 40)], now), Some(1));
}

#[test]
fn hex_to_u32_parses_calendar_colors() {
    assert_eq!(hex_to_u32("#ff8800"), 0xff8800);
    assert_eq!(hex_to_u32("00FF00"), 0x00ff00);
    assert_eq!(hex_to_u32("+1f"), 0x1f);
    assert_eq!(hex_to_u32("#"), 0);
    assert_eq!(hex_to_u32("##12"), 0);
    assert_eq!(hex_to_u32("xyz"), 0);
    assert_eq!(hex_to_u32("ffffffff"), 0xffff_ffff);
    assert_eq!(hex_to_u32("100000000"), 0);
    assert_eq!(hex_to_u32("-1"), 0);
    assert_eq!(hex_to_u32(""), 0);
}

#[test]
fn calendar_is_asked_at_most_every_fifty_seconds() {
    assert!(should_refresh(None, 0));
    assert!(should_refresh(Some(1_000), 51_000));
    assert!(!should_refresh(Some(1_000), 50_999));
    assert!(!should_refresh(Some(10_000), 5));
}

#[test]
fn start_labels_are_times_of_day() {
    assert_eq!(start_label(&EventTimes { start: None, end: Some(5) }), None);
    let t = start_label(&EventTimes { start: Some(1_700_000_000), end: None }).unwrap();
    assert_eq!(t.len(), 5);
    assert_eq!(&t[2..3], ":");
    let h: u32 = t[0..2].parse().unwrap();
    let m: u32 = t[3..5].parse().unwrap();
    assert!(h < 24 && m < 60);
    // the last second of the year 9999 still gets a label; one past it may not
    assert!(start_label(&EventTimes { start: Some(253402300799), end: None }).is_some());
    assert!(start_label(&EventTimes { start: Some(0), end: None }).is_some());
    assert!(start_label(&EventTimes { start: Some(i64::MAX), end: None }).is_none());
}
