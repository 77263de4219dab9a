use sherlock::config::ConfigBinds;
use sherlock::keys::{mod_str, parse_bind, ConfKeys, Key, Modifier};

#[test]
fn parse_bind_reads_modifier_and_key() {
    assert_eq!(
        parse_bind("control-k"),
        (Some(Modifier::Control), Some(Key::Letter('k')), Some("K".to_string()))
    );
    assert_eq!(parse_bind("Tab"), (None, Some(Key::Tab), Some("\u{21e5}".to_string())));
    assert_eq!(
        parse_bind("shift-PgDown-x"),
        (Some(Modifier::Shift), Some(Key::PageDown), Some("\u{21df}".to_string()))
    );
    assert_eq!(parse_bind("Control-k"), (None, Some(Key::Letter('k')), Some("K".to_string())));
    assert_eq!(parse_bind("control-ih"), (Some(Modifier::Control), None, None));
    assert_eq!(parse_bind("alt-return").1, Some(Key::Return));
}

#[test]
fn mod_str_uses_symbols() {
    assert_eq!(mod_str(Some(Modifier::Shift), &vec![]), "\u{2318}");
    assert_eq!(mod_str(Some(Modifier::Control), &vec![]), "\u{2387}");
    assert_eq!(mod_str(Some(Modifier::Alt), &vec![]), "modkey");
    let custom: Vec<String> = ["S", "L", "C", "M", "A", "W", "H", "-"].iter().map(|s| s.to_string()).collect();
    assert_eq!(mod_str(Some(Modifier::Alt), &custom), "A");
    assert_eq!(mod_str(None, &custom), "-");
}

#[test]
fn conf_keys_from_default_binds() {
    let binds = ConfigBinds::default();
    let keys = ConfKeys::new(&binds, &vec![]);
    assert_eq!(keys.up, Some(Key::Letter('k')));
    assert_eq!(keys.up_mod, Some(Modifier::Control));
    assert_eq!(keys.down, Some(Key::Letter('j')));
    assert_eq!(keys.left, None);
    assert_eq!(keys.exec_inplace, Some(Key::Return));
    assert_eq!(keys.context, Some(Key::Letter('i')));
    assert_eq!(keys.context_str.as_deref(), Some("I"));
    assert_eq!(keys.shortcut_modifier, Some(Modifier::Control));
    assert_eq!(keys.shortcut_modifier_str, "\u{2387}");
    assert_eq!(keys.context_mod_str, "\u{2387}");
    let empty = ConfKeys::empty();
    assert_eq!(empty.up, None);
    assert_eq!(empty.shortcut_modifier_str, "");
}
