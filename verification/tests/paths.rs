use sherlock::paths::{expand_path, join_path, legacy_path, path_extension, replace_extension};

#[test]
fn expand_path_replaces_leading_tilde() {
    assert_eq!(expand_path("~/.config/sherlock", "/home/u"), "/home/u/.config/sherlock");
    assert_eq!(expand_path("~", "/home/u"), "/home/u/");
    assert_eq!(expand_path("~//a/./b/", "/home/u"), "/home/u/a/./b");
}

#[test]
fn expand_path_keeps_other_paths() {
    assert_eq!(expand_path("/etc/~/x", "/home/u"), "/etc/~/x");
    assert_eq!(expand_path("./~/x", "/home/u"), "./~/x");
    assert_eq!(expand_path("~user/x", "/home/u"), "~user/x");
    assert_eq!(expand_path("", "/home/u"), "");
}

#[test]
fn join_path_behaves_like_pathbuf_join() {
    assert_eq!(join_path("/a", "b"), "/a/b");
    assert_eq!(join_path("/a/", "b"), "/a/b");
    assert_eq!(join_path("/a", "/b"), "/b");
    assert_eq!(join_path("", "b"), "b");
    assert_eq!(join_path("a", ""), "a/");
}

#[test]
fn legacy_path_is_dot_sherlock() {
    assert_eq!(legacy_path("/home/u"), "/home/u/.sherlock");
}

fn chars(s: &str) -> Vec<char> {
    s.chars().collect()
}

#[test]
fn path_extension_like_std() {
    assert_eq!(path_extension(&chars("a/config.toml")), Some(chars("toml")));
    assert_eq!(path_extension(&chars("a/config.json/")), Some(chars("json")));
    assert_eq!(path_extension(&chars("a/.hidden")), None);
    assert_eq!(path_extension(&chars("a/noext")), None);
    assert_eq!(path_extension(&chars("a/b.")), Some(chars("")));
    assert_eq!(path_extension(&chars("..")), None);
    assert_eq!(path_extension(&chars("x.tar.gz")), Some(chars("gz")));
}

#[test]
fn replace_extension_cuts_at_dot() {
    assert_eq!(replace_extension(&chars("a/config.json"), "toml"), chars("a/config.toml"));
    assert_eq!(replace_extension(&chars("a/config.json/"), "toml"), chars("a/config.toml"));
}
