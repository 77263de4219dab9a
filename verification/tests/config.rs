use sherlock::config::{
    resolve_config_file, ConfigFileChange, ConfigFiles, ConfigFormat, ReloadNeeds, SherlockConfig,
    SherlockFlags,
};
use sherlock::errors::{FileAction, SherlockErrorType};

fn defaults() -> SherlockConfig {
    SherlockConfig::defaults(
        "/home/u/.config/sherlock",
        "/home/u/.cache/sherlock",
        "kitty".to_string(),
        None,
    )
}

#[test]
fn defaults_fill_every_section() {
    let c = defaults();
    assert_eq!(c.default_apps.terminal, "kitty");
    assert_eq!(c.default_apps.calendar_client, "thunderbird");
    assert_eq!(c.units.lengths, "meters");
    assert_eq!(c.files.config, "/home/u/.config/sherlock/config.toml");
    assert_eq!(c.files.css, "/home/u/.config/sherlock/main.css");
    assert_eq!(c.behavior.cache, "/home/u/.cache/sherlock/desktop_files.bin");
    assert!(c.behavior.animate);
    assert!(!c.behavior.caching);
    assert_eq!(c.binds.up.as_deref(), Some("control-k"));
    assert_eq!(c.expand.edge, "top");
    assert!(c.status_bar.enable);
    assert_eq!(c.search_bar_icon.size, 22);
    assert!(c.debug.app_paths.is_empty());
    assert!(!c.initialized);
}

#[test]
fn apply_flags_overrides_and_expands_paths() {
    let mut flags = SherlockFlags::default();
    flags.config = Some("~/my/config.toml".to_string());
    flags.style = Some("/etc/style.css".to_string());
    flags.cache = Some("~/cache.bin".to_string());
    flags.sub_menu = Some("pm".to_string());
    flags.method = Some("print".to_string());
    flags.field = Some("name".to_string());
    flags.input = Some(false);
    flags.center_raw = true;
    flags.multi = true;
    flags.daemonize = true;
    let c = SherlockConfig::apply_flags(&mut flags, defaults(), Some("/home/u".to_string()));
    assert_eq!(c.files.config, "/home/u/my/config.toml");
    assert_eq!(c.files.css, "/etc/style.css");
    assert_eq!(c.files.fallback, "/home/u/.config/sherlock/fallback.json");
    assert_eq!(c.behavior.cache, "/home/u/cache.bin");
    assert_eq!(c.runtime.sub_menu.as_deref(), Some("pm"));
    assert_eq!(c.runtime.method.as_deref(), Some("print"));
    assert_eq!(c.runtime.input, Some(false));
    assert_eq!(c.behavior.field.as_deref(), Some("name"));
    assert!(c.runtime.center);
    assert!(c.runtime.multi);
    assert!(!c.runtime.photo_mode);
    assert!(c.behavior.daemonize);
    assert!(flags.sub_menu.is_none());
    assert!(flags.method.is_none());
    assert!(flags.field.is_none());
    assert!(flags.input.is_none());
    assert_eq!(flags.config.as_deref(), Some("~/my/config.toml"));
}

#[test]
fn apply_flags_without_home_changes_nothing() {
    let mut flags = SherlockFlags::default();
    flags.sub_menu = Some("pm".to_string());
    flags.daemonize = true;
    let c = SherlockConfig::apply_flags(&mut flags, defaults(), None);
    assert!(c.runtime.sub_menu.is_none());
    assert!(!c.behavior.daemonize);
    assert_eq!(flags.sub_menu.as_deref(), Some("pm"));
}

#[test]
fn daemonize_flag_only_turns_it_on() {
    let mut flags = SherlockFlags::default();
    let mut cfg = defaults();
    cfg.behavior.daemonize = true;
    let c = SherlockConfig::apply_flags(&mut flags, cfg, Some("/h".to_string()));
    assert!(c.behavior.daemonize);
}

#[test]
fn with_root_moves_every_file_under_the_root() {
    let f = ConfigFiles::with_root("/tmp/x");
    assert_eq!(f.config, "/tmp/x/config.toml");
    assert_eq!(f.css, "/tmp/x/main.css");
    assert_eq!(f.fallback, "/tmp/x/fallback.json");
    assert_eq!(f.alias, "/tmp/x/sherlock_alias.json");
    assert_eq!(f.ignore, "/tmp/x/sherlockignore");
    assert_eq!(f.actions, "/tmp/x/sherlock_actions.json");
    let g = ConfigFiles::with_root("/opt/conf/");
    assert_eq!(g.config, "/opt/conf/config.toml");
}

#[test]
fn config_file_prefers_flag_then_dir() {
    let mut flags = SherlockFlags::default();
    flags.config_dir = Some("/cfg".to_string());
    assert_eq!(flags.config_file("/xdg/sherlock", "/home/u"), "/cfg/config.toml");
    assert!(flags.config_dir.is_none());
    assert_eq!(flags.config_file("/xdg/sherlock", "/home/u"), "/xdg/sherlock/config.toml");
    flags.config = Some("~/c.json".to_string());
    assert_eq!(flags.config_file("/xdg/sherlock", "/home/u"), "/home/u/c.json");
}

#[test]
fn resolve_config_file_by_extension() {
    let r = resolve_config_file("/c/config.toml".to_string(), true).unwrap();
    assert_eq!(r, ("/c/config.toml".to_string(), ConfigFormat::Toml));
    let r = resolve_config_file("/c/config.toml".to_string(), false).unwrap();
    assert_eq!(r, ("/c/config.json".to_string(), ConfigFormat::Json));
    let r = resolve_config_file("/c/config.json".to_string(), false).unwrap();
    assert_eq!(r, ("/c/config.toml".to_string(), ConfigFormat::Toml));
    // an existing file that no parser reads is a parse error
    match resolve_config_file("/c/config.yaml".to_string(), true) {
        Err(SherlockErrorType::FileError(FileAction::Parse, p)) => assert_eq!(p, "/c/config.yaml"),
        other => panic!("got {other:?}"),
    }
}

#[test]
fn resolve_config_file_errors() {
    match resolve_config_file("/c/config.yaml".to_string(), false) {
        Err(SherlockErrorType::FileError(FileAction::Parse, p)) => assert_eq!(p, "/c/config.yaml"),
        _ => panic!("expected a parse error"),
    }
    match resolve_config_file("/c/config".to_string(), true) {
        Err(SherlockErrorType::FileError(FileAction::Parse, p)) => assert_eq!(p, "/c/config"),
        _ => panic!("expected a parse error"),
    }
}

#[test]
fn settle_config_marks_parsed_configs() {
    let mut flags = SherlockFlags::default();
    let (c, msgs) = flags.settle_config(Ok(defaults()), defaults(), Some("/h".to_string()));
    assert!(c.initialized);
    assert!(msgs.is_empty());
    let (c, msgs) = flags.settle_config(
        Err(SherlockErrorType::DeserializationError),
        defaults(),
        Some("/h".to_string()),
    );
    assert!(!c.initialized);
    assert_eq!(msgs.len(), 1);
    assert!(matches!(msgs[0], SherlockErrorType::DeserializationError));
}

#[test]
fn reload_needs_follow_changes() {
    let n = ReloadNeeds::from_changes(&[ConfigFileChange::Other]);
    assert_eq!(n, ReloadNeeds { config: false, launchers: false });
    let n = ReloadNeeds::from_changes(&[ConfigFileChange::Config]);
    assert_eq!(n, ReloadNeeds { config: true, launchers: false });
    let n = ReloadNeeds::from_changes(&[ConfigFileChange::Alias, ConfigFileChange::Other]);
    assert_eq!(n, ReloadNeeds { config: false, launchers: true });
    let n = ReloadNeeds::from_changes(&[
        ConfigFileChange::Ignore,
        ConfigFileChange::Config,
        ConfigFileChange::Fallback,
    ]);
    assert_eq!(n, ReloadNeeds { config: true, launchers: true });
    assert_eq!(ReloadNeeds::from_changes(&[]), ReloadNeeds { config: false, launchers: false });
}
