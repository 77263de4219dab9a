use sherlock::command::split_as_command;

#[test]
fn test_split_as_command() {
    assert_eq!(
        split_as_command(
            "flatpak run --command=bottles-cli com.usebottles.bottles run -p 'FL Studio 2025' -b 'Apps' -- %u"
        ),
        vec![
            "flatpak",
            "run",
            "--command=bottles-cli",
            "com.usebottles.bottles",
            "run",
            "-p",
            "FL Studio 2025",
            "-b",
            "Apps",
            "--"
        ]
    );
    // 1. Basic splitting
    assert_eq!(split_as_command("ls -la /home"), vec!["ls", "-la", "/home"]);

    // 2. Double quotes with spaces
    assert_eq!(
        split_as_command("echo \"hello world\""),
        vec!["echo", "hello world"]
    );

    // 3. Single quotes
    assert_eq!(
        split_as_command("grep 'pattern with spaces' file.txt"),
        vec!["grep", "pattern with spaces", "file.txt"]
    );

    // 4. Nested quotes (single inside double)
    assert_eq!(
        split_as_command("echo \"it's a trap\""),
        vec!["echo", "it's a trap"]
    );

    // 5. Escaped characters inside double quotes
    assert_eq!(
        split_as_command("echo \"shout \\\"hello\\\"\""),
        vec!["echo", "shout \"hello\""]
    );

    // 6. Filtering variables starting with %
    assert_eq!(
        split_as_command("mpv %file --fullscreen"),
        vec!["mpv", "--fullscreen"]
    );

    // 7. Multiple spaces between arguments
    assert_eq!(
        split_as_command("rsync    -avz   source/   dest/"),
        vec!["rsync", "-avz", "source/", "dest/"]
    );

    // 8. Empty input
    let empty: Vec<String> = Vec::new();
    assert_eq!(split_as_command(""), empty);
    assert_eq!(split_as_command("   "), empty);

    // 9. URL in double quotes
    assert_eq!(
        split_as_command("browser \"https://www.google.com\""),
        vec!["browser", "https://www.google.com"]
    );
}

#[test]
fn split_trailing_backslash_is_kept() {
    assert_eq!(split_as_command("echo a\\"), vec!["echo", "a\\"]);
}

#[test]
fn split_escaped_space_joins_words() {
    assert_eq!(split_as_command("cat my\\ file"), vec!["cat", "my file"]);
}

#[test]
fn split_unicode_whitespace_separates() {
    assert_eq!(split_as_command("a\u{00A0}b\tc\u{3000}d"), vec!["a", "b", "c", "d"]);
}

#[test]
fn split_unterminated_quote_keeps_rest() {
    assert_eq!(split_as_command("echo 'open quote"), vec!["echo", "open quote"]);
}

#[test]
fn plan_spawn_adds_sudo_flag() {
    let (parts, sudo) = sherlock::command::plan_spawn("sudo pacman -Syu").unwrap();
    assert_eq!(parts, vec!["sudo", "-S", "pacman", "-Syu"]);
    assert!(sudo);
    let (parts, sudo) = sherlock::command::plan_spawn("foot -e 'sudo x' sudo").unwrap();
    assert_eq!(parts, vec!["foot", "-e", "sudo x", "sudo", "-S"]);
    assert!(sudo);
    let (parts, sudo) = sherlock::command::plan_spawn("ls -la").unwrap();
    assert_eq!(parts, vec!["ls", "-la"]);
    assert!(!sudo);
    assert!(sherlock::command::plan_spawn("   %f ").is_none());
}

#[test]
fn sudo_password_matches_any_case() {
    let v = vec![
        ("user".to_string(), "me".to_string()),
        ("SUDO".to_string(), "secret".to_string()),
        ("sudo".to_string(), "other".to_string()),
    ];
    assert_eq!(sherlock::command::sudo_password(&v), Some("secret".to_string()));
    assert_eq!(sherlock::command::sudo_password(&v[..1]), None);
}
