use sherlock::migration::{
    args_edit, args_log, args_step, clean_background_exec, default_true, migrate_capabilities,
    migrate_type, migration_logs, resolve_kind, ArgsEdit, ArgsStep, LauncherVariant, LegacyArgs,
    LegacyExecVariable, LegacyLauncher, LegacyLauncherFacts,
};

fn legacy(kind_name: &str, args: LegacyArgs) -> LegacyLauncher {
    LegacyLauncher {
        name: Some("Test Launcher".to_string()),
        alias: None,
        tag_start: None,
        tag_end: None,
        display_name: None,
        on_return: None,
        next_content: None,
        kind_name: kind_name.to_string(),
        parsed_kind: None,
        exit: true,
        shortcut: true,
        spawn_focus: true,
        is_async: false,
        has_binds: false,
        variables: None,
        args,
    }
}

fn no_args() -> LegacyArgs {
    LegacyArgs { capabilities: None, command: None, has_skin_color: false }
}

#[test]
fn test_legacy_to_modern_migration() {
    // A legacy command launcher with tags, key bindings and one variable;
    // its arguments ({"cmd": "ls"}) hold nothing the migration changes.
    let mut l = legacy("command", no_args());
    l.tag_start = Some("old_tag".to_string());
    l.has_binds = true;
    l.variables = Some(vec![LegacyExecVariable::StringInput("username".to_string())]);
    let result = l.migrate();
    assert_eq!(result.launcher.name, Some("Test Launcher".to_string()));
    assert_eq!(result.launcher.kind, Some(LauncherVariant::Commands));
    assert!(matches!(result.launcher.args, ArgsEdit::Keep));
    match result.launcher.variables {
        Some(vars) => {
            assert_eq!(vars.len(), 1);
            match &vars[0] {
                LegacyExecVariable::StringInput(s) => assert_eq!(s, "username"),
                _ => panic!("Variable type mismatch!"),
            }
        }
        None => panic!("Variables were lost during migration!"),
    }
    assert!(result.logs.iter().any(|l| l.contains("Removed legacy tags")));
}

#[test]
fn migration_reports_the_argument_change_last() {
    let args = LegacyArgs {
        capabilities: Some(vec![Some("colors.all".to_string()), Some("url".to_string())]),
        command: None,
        has_skin_color: false,
    };
    let mut l = legacy("calculation", args);
    l.tag_end = Some("x".to_string());
    let result = l.migrate();
    assert_eq!(result.launcher.kind, Some(LauncherVariant::Calculator));
    match result.launcher.args {
        ArgsEdit::Capabilities(kept, add) => {
            assert_eq!(kept, vec![1]);
            assert!(add);
        }
        _ => panic!("capabilities were not edited"),
    }
    assert_eq!(
        result.logs,
        vec![
            "[Test Launcher] Removed legacy tags (tag_start/tag_end).",
            "[Test Launcher] Renamed 'colors.all' to 'colors' in capabilities.",
        ]
    );
    let mut gone = legacy("pomodoro", no_args());
    gone.name = None;
    let result = gone.migrate();
    assert_eq!(result.launcher.kind, None);
    assert!(result.logs.is_empty());
}

#[test]
fn argument_edits_follow_what_the_arguments_hold() {
    let exec = LegacyArgs { capabilities: None, command: Some("run &".to_string()), has_skin_color: false };
    match args_edit(ArgsStep::BackgroundExec, &exec) {
        ArgsEdit::Exec(t) => assert_eq!(t, "run"),
        _ => panic!("the command was not cleaned"),
    }
    assert!(matches!(args_edit(ArgsStep::Capabilities, &exec), ArgsEdit::Keep));
    let skin = LegacyArgs { capabilities: None, command: None, has_skin_color: true };
    assert!(matches!(args_edit(ArgsStep::SkinTone, &skin), ArgsEdit::RenameSkinKey));
    assert!(matches!(args_edit(ArgsStep::Keep, &skin), ArgsEdit::Keep));
    let mut emoji = legacy("emoji_picker", skin);
    emoji.name = None;
    let result = emoji.migrate();
    assert_eq!(result.logs, vec!["[Unknown] Renamed 'default_skin_color' to 'default_skin_tone'."]);
}

#[test]
fn migration_logs_report_each_change() {
    let facts = LegacyLauncherFacts {
        name: Some("Test Launcher".to_string()),
        has_tags: true,
        has_binds: true,
        variables: Some(1),
    };
    let logs = migration_logs(&facts);
    assert_eq!(
        logs,
        vec![
            "[Test Launcher] Removed legacy tags (tag_start/tag_end).",
            "[Test Launcher] Dropped custom keybind(s).",
            "[Test Launcher] Migrated 1 variables to new format.",
        ]
    );
    assert!(logs.iter().any(|l| l.contains("Removed legacy tags")));
    let quiet = LegacyLauncherFacts { name: None, has_tags: false, has_binds: false, variables: Some(12) };
    assert_eq!(migration_logs(&quiet), vec!["[Unknown] Migrated 12 variables to new format."]);
}

#[test]
fn background_exec_loses_ampersands() {
    assert_eq!(clean_background_exec("firefox &&"), Some("firefox".to_string()));
    assert_eq!(clean_background_exec("  run it &"), Some("run it".to_string()));
    assert_eq!(clean_background_exec("a & b"), None);
    assert_eq!(clean_background_exec(""), None);
}

#[test]
fn capabilities_rename_colors_all() {
    let caps = vec![
        Some("url".to_string()),
        Some("colors.all".to_string()),
        None,
        Some("colors.all".to_string()),
    ];
    assert_eq!(migrate_capabilities(&caps), Some((vec![0, 2], true)));
    let caps = vec![Some("colors".to_string()), Some("colors.all".to_string())];
    assert_eq!(migrate_capabilities(&caps), Some((vec![0], false)));
    let caps = vec![Some("url".to_string())];
    assert_eq!(migrate_capabilities(&caps), None);
    assert!(default_true());
}

#[test]
fn legacy_type_names_map_to_launcher_kinds() {
    assert_eq!(migrate_type("command"), Some(LauncherVariant::Commands));
    assert_eq!(migrate_type("app_launcher"), Some(LauncherVariant::Apps));
    assert_eq!(migrate_type("audio_sink"), Some(LauncherVariant::MusicPlayer));
    assert_eq!(migrate_type("category"), Some(LauncherVariant::Categories));
    assert_eq!(migrate_type("clipboard-execution"), Some(LauncherVariant::Clipboard));
    assert_eq!(migrate_type("emoji_picker"), Some(LauncherVariant::Emoji));
    assert_eq!(migrate_type("calculation"), Some(LauncherVariant::Calculator));
    assert_eq!(migrate_type("bulk_text"), Some(LauncherVariant::Script));
    assert_eq!(migrate_type("teams_event"), Some(LauncherVariant::Event));
    assert_eq!(migrate_type("pomodoro"), None);
    assert_eq!(migrate_type("theme"), None);
    assert_eq!(migrate_type("Command"), None);
}

#[test]
fn argument_migrations_follow_the_kind() {
    assert_eq!(args_step(Some(LauncherVariant::Calculator)), ArgsStep::Capabilities);
    assert_eq!(args_step(Some(LauncherVariant::Clipboard)), ArgsStep::Capabilities);
    assert_eq!(args_step(Some(LauncherVariant::Commands)), ArgsStep::BackgroundExec);
    assert_eq!(args_step(Some(LauncherVariant::Emoji)), ArgsStep::SkinTone);
    assert_eq!(args_step(Some(LauncherVariant::Web)), ArgsStep::Keep);
    assert_eq!(args_step(None), ArgsStep::Keep);
    assert_eq!(
        args_log("Emoji", ArgsStep::SkinTone),
        "[Emoji] Renamed 'default_skin_color' to 'default_skin_tone'."
    );
    assert_eq!(args_log("x", ArgsStep::BackgroundExec), "[x] Removed trailing '&' from command exec.");
    assert_eq!(
        args_log("c", ArgsStep::Capabilities),
        "[c] Renamed 'colors.all' to 'colors' in capabilities."
    );
}

#[test]
fn a_current_kind_name_is_preferred() {
    assert_eq!(resolve_kind(Some(LauncherVariant::Web), "command"), Some(LauncherVariant::Web));
    assert_eq!(resolve_kind(None, "command"), Some(LauncherVariant::Commands));
    assert_eq!(resolve_kind(None, "debug"), None);
    let mut l = legacy("\"Emoji\"", LegacyArgs { capabilities: None, command: None, has_skin_color: true });
    l.parsed_kind = Some(LauncherVariant::Emoji);
    let result = l.migrate();
    assert_eq!(result.launcher.kind, Some(LauncherVariant::Emoji));
    assert!(matches!(result.launcher.args, ArgsEdit::RenameSkinKey));
}
