use sherlock::variables::parse_variables;

fn vars(v: &[(&str, &str)]) -> Vec<(String, String)> {
    v.iter().map(|(a, b)| (a.to_string(), b.to_string())).collect()
}

#[test]
fn terminal_and_keyword_are_filled() {
    assert_eq!(parse_variables("{terminal} htop", "", &[], "kitty"), "kitty -e htop");
    assert_eq!(parse_variables("firefox {keyword}", "rust", &[], "kitty"), "firefox rust");
    assert_eq!(parse_variables("no variables here", "x", &[], "kitty"), "no variables here");
}

#[test]
fn named_variables_are_filled() {
    let v = vars(&[("name", "Bob"), ("name", "Alice")]);
    assert_eq!(parse_variables("echo {variable:name}", "", &v, "kitty"), "echo Bob");
    assert_eq!(parse_variables("echo {variable:other}", "", &v, "kitty"), "echo {variable:other}");
    assert_eq!(parse_variables("echo {variable}", "", &v, "kitty"), "echo {variable}");
    assert_eq!(parse_variables("{unknown} {keyword}", "k", &v, "kitty"), "{unknown} k");
}

#[test]
fn prefixes_depend_on_values() {
    let set = vars(&[("flag", "1")]);
    let empty = vars(&[("flag", "")]);
    assert_eq!(parse_variables("cmd {prefix[flag]:--x} end", "", &set, "t"), "cmd --x end");
    assert_eq!(parse_variables("cmd {prefix[flag]:--x} end", "", &empty, "t"), "cmd  end");
    assert_eq!(parse_variables("cmd {prefix[flag]:--x} end", "", &[], "t"), "cmd  end");
}
