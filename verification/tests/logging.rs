use sherlock::config::SherlockFlags;
use sherlock::logging::{log_lines, ClientMessage};

#[test]
fn each_non_empty_line_is_stamped() {
    let lines = log_lines("first\n\n  second  \n", "2024-01-02 03:04:05", "src/main.rs", 42);
    assert_eq!(
        lines,
        vec![
            "[2024-01-02 03:04:05] src/main.rs:42 - first".to_string(),
            "[2024-01-02 03:04:05] src/main.rs:42 - second".to_string(),
        ]
    );
    assert!(log_lines(" \n\t", "t", "f", 0).is_empty());
}

#[test]
fn messages_compare_by_kind() {
    assert!(ClientMessage::Open == ClientMessage::Open);
    assert!(ClientMessage::Dmenu(vec!["a".into()]) == ClientMessage::Dmenu(vec![]));
    assert!(
        ClientMessage::ConfigUpdate(Box::new(SherlockFlags::default()))
            == ClientMessage::ConfigUpdate(Box::new(SherlockFlags { multi: true, ..SherlockFlags::default() }))
    );
    assert!(ClientMessage::Open != ClientMessage::Dmenu(vec![]));
}
