use sherlock::search::{fuzzy_match_single, SherlockSearch};

#[test]
fn test_empty_patterns() {
    // Empty pattern should always match
    assert!("anything".fuzzy_match(""));
    assert!("".fuzzy_match(""));
}

#[test]
fn test_length_pruning() {
    // Pattern longer than text should never match
    assert!(!"abc".fuzzy_match("abcd"));
}

#[test]
fn test_prefix_fast_path() {
    assert!("Google Chrome".fuzzy_match("goo"));
    assert!("Firefox".fuzzy_match("Fire"));
}

#[test]
fn test_case_insensitivity() {
    assert!("SHERLOCK".fuzzy_match("sher"));
    assert!("sherlock".fuzzy_match("SHER"));
}

#[test]
fn test_semicolon_segments() {
    let text = "Terminal;alacritty;iterm2";
    assert!(text.fuzzy_match("term"));
    assert!(text.fuzzy_match("ala"));
    assert!(text.fuzzy_match("iterm"));
    assert!(!text.fuzzy_match("ghostty"));
}

#[test]
fn test_fuzzy_subsequence() {
    assert!("vlc media player".fuzzy_match("vmp"));
    assert!("visual studio code".fuzzy_match("vsc"));
    assert!(!"visual studio code".fuzzy_match("vcs"));
}

#[test]
fn test_single_char_fast_path() {
    assert!("Brave".fuzzy_match("b"));
    assert!("Brave".fuzzy_match("v"));
    assert!(!"Brave".fuzzy_match("z"));
}

#[test]
fn test_last_char_heuristic() {
    assert!(!"Chromium".fuzzy_match("chz"));
}

#[test]
fn test_remaining_text_pruning() {
    assert!(!"abc".fuzzy_match("abcd"));
}

#[test]
fn fuzzy_match_on_owned_string() {
    let owned = String::from("Visual Studio Code");
    assert!(owned.fuzzy_match("vsc"));
    assert!(!owned.fuzzy_match("xyz"));
}

#[test]
fn pattern_with_semicolon_never_matches() {
    assert!(!"a;b;c".fuzzy_match("a;b"));
    assert!(!"term;inal".fuzzy_match(";"));
}

#[test]
fn fuzzy_match_single_on_bytes() {
    assert!(fuzzy_match_single(b"Chromium", b"CHM"));
    assert!(!fuzzy_match_single(b"ab", b"abc"));
    assert!(fuzzy_match_single(b"", b""));
}
