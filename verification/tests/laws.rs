use sherlock::order::sort_strings;
use sherlock::config::{resolve_config_file, ConfigFormat};
use sherlock::command::split_as_command;
use sherlock::intent::Intent;
use sherlock::search::SherlockSearch;

#[test]
fn empty_and_longer_patterns() {
    for t in ["", "abc", "Firefox Browser"] {
        assert!(t.fuzzy_match(""));
        assert!(!t.fuzzy_match(&format!("{t}x")));
    }
}

#[test]
fn case_never_matters() {
    for (t, p) in [("VLC media player", "vmp"), ("Chromium", "CHR"), ("abc", "ACB")] {
        assert_eq!(t.fuzzy_match(p), t.to_ascii_lowercase().fuzzy_match(p));
        assert_eq!(t.fuzzy_match(p), t.fuzzy_match(&p.to_ascii_lowercase()));
    }
}

#[test]
fn prefixes_of_matches_match() {
    let t = "visual studio code";
    let p = "vsc";
    assert!(t.fuzzy_match(p));
    for k in 0..=p.len() {
        assert!(t.fuzzy_match(&p[..k]));
    }
}

#[test]
fn split_words_are_never_empty_or_field_codes() {
    for cmd in ["mpv %f --fs", "a '' b", "x \"\" %U y", "  "] {
        for w in split_as_command(cmd) {
            assert!(!w.is_empty());
            assert!(!w.starts_with('%'));
        }
    }
}

#[test]
fn tokens_hold_no_separators() {
    for q in ["rgb(1, 2, 3)", "50% of (a,b)", " ,, "] {
        for t in Intent::tokenize(q) {
            assert!(!t.is_empty());
            assert!(!t.contains([' ', '(', ')', '%', ',']));
        }
    }
}

#[test]
fn quoted_words_stay_whole() {
    for w in ["FL Studio 2025", "it's a trap", "a  b\tc", "x"] {
        assert_eq!(split_as_command(&format!("\"{w}\"")), vec![w.to_string()]);
    }
    for w in ["pattern with spaces", "say \"hi\"", "-- %u"] {
        assert_eq!(split_as_command(&format!("'{w}'")), vec![w.to_string()]);
    }
}

#[test]
fn missing_config_falls_back_and_back() {
    for (p, f) in [("/c/config.json", ConfigFormat::Json), ("~/sherlock/my.config.toml", ConfigFormat::Toml)] {
        let (q, _) = resolve_config_file(p.to_string(), false).unwrap();
        assert_ne!(q, p);
        let (r, g) = resolve_config_file(q, false).unwrap();
        assert_eq!(r, p);
        assert_eq!(g, f);
    }
}

#[test]
fn sorting_settles() {
    let v: Vec<String> = ["b", "a", "ab", "B", ""].iter().map(|s| s.to_string()).collect();
    let once = sort_strings(v.clone());
    assert_eq!(sort_strings(once.clone()), once);
    let mut rev = v.clone();
    rev.reverse();
    assert_eq!(sort_strings(rev), once);
}
