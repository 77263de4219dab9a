use sherlock::setup::{custom_config_hint, setup_plan};
use sherlock::view::{Selection, WorkspaceView};

#[test]
fn setup_plan_lays_out_the_directory() {
    let p = setup_plan("~/conf", "/home/u");
    assert_eq!(p.dir, "/home/u/conf");
    assert_eq!(p.subdirs, vec!["/home/u/conf/icons/", "/home/u/conf/scripts/", "/home/u/conf/themes/"]);
    assert_eq!(p.config_file, "/home/u/conf/config.toml");
    assert_eq!(p.fallback_file, "/home/u/conf/fallback.json");
    let names: Vec<(&str, &str)> = p.files.iter().map(|(a, b)| (a.as_str(), b.as_str())).collect();
    assert_eq!(
        names,
        vec![
            ("/home/u/conf/sherlockignore", ""),
            ("/home/u/conf/sherlock_actions.json", "[]"),
            ("/home/u/conf/sherlock_alias.json", "{}"),
            ("/home/u/conf/main.css", ""),
        ]
    );
}

#[test]
fn custom_config_hint_names_the_file() {
    assert_eq!(custom_config_hint("~/.config/sherlock/"), None);
    assert_eq!(
        custom_config_hint("/opt/sherlock//"),
        Some("\nUse \x1b[32msherlock --config /opt/sherlock/config.toml\x1b[0m to run sherlock with the custom configuration.".to_string())
    );
}

#[test]
fn selection_and_views() {
    let s = Selection::new(3, true);
    assert_eq!(s.data_idx, 3);
    assert!(s.is_selected);
    assert_ne!(WorkspaceView::Launcher, WorkspaceView::Error);
}
