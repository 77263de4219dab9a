use sherlock::config::{classify_change, ConfigFileChange, ConfigFiles};
use sherlock::desktop::{exec_command, exec_command_trimmed, find_desktop_file};
use sherlock::paths::same_path;
use sherlock::tiles::{
    attendee_color, attendee_label, pipe_search, process_ids, tag_text, AttendeeColor, Partstat,
    TagUpdate,
};

#[test]
fn tags_show_the_query() {
    let c = Some("find {keyword} now".to_string());
    assert_eq!(tag_text(&c, "x"), TagUpdate::Shown("find x now".to_string()));
    assert_eq!(tag_text(&c, ""), TagUpdate::Hidden);
    assert_eq!(tag_text(&None, "x"), TagUpdate::Unchanged);
}

#[test]
fn process_ids_split_at_first_comma() {
    assert_eq!(process_ids("12,34"), ("12".to_string(), "34".to_string()));
    assert_eq!(process_ids("12,34,56"), ("12".to_string(), "34,56".to_string()));
    assert_eq!(process_ids("12"), ("12".to_string(), String::new()));
}

#[test]
fn attendees_are_labelled() {
    let n = Some("Ada".to_string());
    let e = Some("ada@example.org".to_string());
    assert_eq!(attendee_label(&n, &e), ("Ada".to_string(), Some("(ada@example.org)".to_string())));
    assert_eq!(attendee_label(&None, &e), ("ada@example.org".to_string(), None));
    assert_eq!(attendee_label(&None, &None), ("Unknown".to_string(), None));
    assert_eq!(attendee_color(Some(Partstat::Declined)), AttendeeColor::Error);
    assert_eq!(attendee_color(None), AttendeeColor::Neutral);
}

#[test]
fn piped_items_search_text() {
    assert_eq!(pipe_search(&Some("a".into()), &Some("b".into()), false), Some("a;b".to_string()));
    assert_eq!(pipe_search(&None, &None, false), None);
    assert_eq!(pipe_search(&None, &None, true), Some(";".to_string()));
}

#[test]
fn desktop_exec_lines() {
    let lines: Vec<String> = ["[Desktop Entry]", "Name=Firefox", "Exec=Exec=firefox %u", "Exec=other"]
        .iter()
        .map(|s| s.to_string())
        .collect();
    assert_eq!(exec_command(&lines).as_deref(), Some("Exec=firefox %u"));
    assert_eq!(exec_command_trimmed(&lines).as_deref(), Some("firefox %u"));
    assert_eq!(exec_command(&lines[..2].to_vec()), None);
}

#[test]
fn desktop_files_found_by_components() {
    let files: Vec<String> = ["/usr/share/applications/xfirefox.desktop", "/usr/share/applications//firefox.desktop"]
        .iter()
        .map(|s| s.to_string())
        .collect();
    assert_eq!(find_desktop_file(&files, "firefox.desktop"), Some(1));
    assert_eq!(find_desktop_file(&files, "chromium.desktop"), None);
}

#[test]
fn paths_compare_by_components() {
    assert!(same_path("/a//b/./c/", "/a/b/c"));
    assert!(!same_path("/a/b", "a/b"));
    assert!(same_path("./a", "./a/."));
    assert!(!same_path("./a", "a"));
    assert!(!same_path("/a/../b", "/b"));
}

#[test]
fn changes_classified_by_file() {
    let files = ConfigFiles::in_dir("/home/u/.config/sherlock");
    assert_eq!(classify_change("/home/u/.config/sherlock//config.toml", &files), ConfigFileChange::Config);
    assert_eq!(classify_change("/home/u/.config/sherlock/sherlockignore", &files), ConfigFileChange::Ignore);
    assert_eq!(classify_change("/home/u/.config/sherlock/other.txt", &files), ConfigFileChange::Other);
}
