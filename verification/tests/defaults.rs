use sherlock::defaults::{BindDefaults, ConstantDefaults, FileDefaults, OtherDefaults};
use sherlock::errors::SherlockErrorType;

#[test]
fn constant_defaults_values() {
    assert_eq!(
        ConstantDefaults::teams(),
        "teams-for-linux --enable-features=UseOzonePlatform --ozone-platform=wayland --url {meeting_url}"
    );
    assert_eq!(ConstantDefaults::calendar_client(), "thunderbird");
    assert_eq!(ConstantDefaults::lengths(), "meters");
    assert_eq!(ConstantDefaults::weights(), "kg");
    assert_eq!(ConstantDefaults::volumes(), "l");
    assert_eq!(ConstantDefaults::temperatures(), "C");
    assert_eq!(ConstantDefaults::currency(), "eur");
}

#[test]
fn terminal_candidates_in_order() {
    let c = ConstantDefaults::terminal_candidates();
    assert_eq!(c.len(), 20);
    assert_eq!(c[0], "kitty");
    assert_eq!(c[1], "gnome-terminal");
    assert_eq!(c[19], "tilix");
}

#[test]
fn env_terminal_wins_when_installed() {
    let installed = vec![true; 20];
    let t = ConstantDefaults::get_terminal(Some("foot".to_string()), true, &installed);
    assert_eq!(t.unwrap(), "foot");
}

#[test]
fn env_terminal_skipped_when_not_installed() {
    let mut installed = vec![false; 20];
    installed[3] = true;
    installed[5] = true;
    let t = ConstantDefaults::get_terminal(Some("foot".to_string()), false, &installed);
    assert_eq!(t.unwrap(), "konsole");
}

#[test]
fn no_terminal_is_an_error() {
    let installed = vec![false; 20];
    match ConstantDefaults::get_terminal(None, false, &installed) {
        Err(SherlockErrorType::ConfigError(m)) => assert_eq!(m, "Failed to get terminal"),
        _ => panic!("expected a configuration error"),
    }
    assert_eq!(ConstantDefaults::terminal(None, false, &installed), "");
}

#[test]
fn short_probe_list_counts_missing_as_absent() {
    assert_eq!(ConstantDefaults::terminal(None, true, &[false, true]), "gnome-terminal");
    assert_eq!(ConstantDefaults::terminal(None, true, &[]), "");
}

#[test]
fn bind_defaults_values() {
    assert_eq!(BindDefaults::modkey_ascii(), ['\u{2318}', '^', '\u{2387}', '\u{21e7}']);
    assert_eq!(BindDefaults::shortcut_mod(), "\u{2318}");
    assert_eq!(BindDefaults::up().as_deref(), Some("control-k"));
    assert_eq!(BindDefaults::down().as_deref(), Some("control-j"));
    assert_eq!(BindDefaults::left().as_deref(), Some("control-ih"));
    assert_eq!(BindDefaults::right().as_deref(), Some("control-l"));
    assert_eq!(BindDefaults::context().as_deref(), Some("control-i"));
    assert_eq!(BindDefaults::modifier().as_deref(), Some("control"));
    assert_eq!(BindDefaults::exec_inplace().as_deref(), Some("control-return"));
}

#[test]
fn file_defaults_live_in_their_directories() {
    let dir = "/home/u/.config/sherlock";
    assert_eq!(FileDefaults::config(dir), "/home/u/.config/sherlock/config.toml");
    assert_eq!(FileDefaults::css(dir), "/home/u/.config/sherlock/main.css");
    assert_eq!(FileDefaults::fallback(dir), "/home/u/.config/sherlock/fallback.json");
    assert_eq!(FileDefaults::alias(dir), "/home/u/.config/sherlock/sherlock_alias.json");
    assert_eq!(FileDefaults::ignore(dir), "/home/u/.config/sherlock/sherlockignore");
    assert_eq!(FileDefaults::actions(dir), "/home/u/.config/sherlock/sherlock_actions.json");
    assert_eq!(FileDefaults::icon_paths(dir), vec!["/home/u/.config/sherlock/icons/".to_string()]);
    assert_eq!(FileDefaults::cache("/home/u/.cache/sherlock/"), "/home/u/.cache/sherlock/desktop_files.bin");
}

#[test]
fn other_defaults_values() {
    assert!(OtherDefaults::bool_true());
    assert_eq!(OtherDefaults::five(), 5);
    assert_eq!(OtherDefaults::backdrop_edge(), "top");
    assert_eq!(OtherDefaults::icon_size(), 22);
    assert_eq!(OtherDefaults::search_icon(), "system-search-symbolic");
    assert_eq!(OtherDefaults::search_icon_back(), "sherlock-back");
    assert_eq!(OtherDefaults::placeholder(), "Search:");
}
