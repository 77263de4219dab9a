use vstd::prelude::*;

use crate::paths::{expand_path, expand_path_spec, join_path, join_spec};
use crate::text::{chars_eq, extend_chars, str_chars, string_from_chars};

verus! {

/// The sub-directories made in a new configuration directory.
pub open spec fn setup_subdirs() -> Seq<Seq<char>> {
    seq!["icons/"@, "scripts/"@, "themes/"@]
}

/// The files written into a new configuration directory with fixed
/// contents, in order; `config.toml` (the default configuration) is written
/// before them and `fallback.json` (the bundled launchers) after them.
pub open spec fn setup_files() -> Seq<(Seq<char>, Seq<char>)> {
    seq![
        ("sherlockignore"@, ""@),
        ("sherlock_actions.json"@, "[]"@),
        ("sherlock_alias.json"@, "{}"@),
        ("main.css"@, ""@),
    ]
}

/// Where a new configuration goes and what is made in it.
#[derive(Debug)]
pub struct SetupPlan {
    /// The directory, with `~` expanded.
    pub dir: String,
    /// The sub-directories to make.
    pub subdirs: Vec<String>,
    /// Where the default configuration is written.
    pub config_file: String,
    /// The files with fixed contents to write (unless they exist).
    pub files: Vec<(String, String)>,
    /// Where the bundled launchers are written.
    pub fallback_file: String,
}

/// Plans a new configuration in `loc`, `home` being the home directory.
pub fn setup_plan(loc: &str, home: &str) -> (r: SetupPlan)
    ensures
        r.dir@ == expand_path_spec(loc@, home@),
        r.subdirs@.len() == 3,
        forall|i: int| 0 <= i < 3 ==> #[trigger] r.subdirs@[i]@ == join_spec(r.dir@, setup_subdirs()[i]),
        r.config_file@ == join_spec(r.dir@, "config.toml"@),
        r.fallback_file@ == join_spec(r.dir@, "fallback.json"@),
        r.files@.len() == 4,
        forall|i: int|
            0 <= i < 4 ==> #[trigger] r.files@[i].0@ == join_spec(r.dir@, setup_files()[i].0)
                && r.files@[i].1@ == setup_files()[i].1,
{
    let dir = expand_path(loc, home);
    let d = dir.as_str();
    let subdirs = vec![join_path(d, "icons/"), join_path(d, "scripts/"), join_path(d, "themes/")];
    let config_file = join_path(d, "config.toml");
    let files = vec![
        (join_path(d, "sherlockignore"), "".to_owned()),
        (join_path(d, "sherlock_actions.json"), "[]".to_owned()),
        (join_path(d, "sherlock_alias.json"), "{}".to_owned()),
        (join_path(d, "main.css"), "".to_owned()),
    ];
    let fallback_file = join_path(d, "fallback.json");
    SetupPlan { dir, subdirs, config_file, files, fallback_file }
}

/// `s` without the `/` characters that end it.
pub open spec fn trim_end_slashes(s: Seq<char>) -> Seq<char>
    decreases s.len(),
{
    if s.len() > 0 && s.last() == '/' {
        trim_end_slashes(s.drop_last())
    } else {
        s
    }
}

/// The hint printed after a configuration was made elsewhere than in
/// `~/.config/sherlock/`: how to run Sherlock with it.
pub open spec fn custom_config_hint_spec(loc: Seq<char>) -> Option<Seq<char>> {
    if loc == "~/.config/sherlock/"@ {
        None
    } else {
        Some("\nUse \u{1b}[32msherlock --config "@ + trim_end_slashes(loc)
            + "/config.toml\u{1b}[0m to run sherlock with the custom configuration."@)
    }
}

/// The hint for a configuration made in `loc`.
pub fn custom_config_hint(loc: &str) -> (r: Option<String>)
    ensures
        match r {
            Some(h) => custom_config_hint_spec(loc@) == Some(h@),
            None => custom_config_hint_spec(loc@) is None,
        },
{
    let v = str_chars(loc);
    if chars_eq(&v, &str_chars("~/.config/sherlock/")) {
        return None;
    }
    let mut e = v.len();
    assert(v@.take(e as int) == v@);
    while e > 0 && v[e - 1] == '/'
        invariant
            e <= v@.len(),
            trim_end_slashes(v@.take(e as int)) == trim_end_slashes(v@),
        decreases e,
    {
        assert(v@.take(e as int).drop_last() == v@.take(e - 1));
        e -= 1;
    }
    let mut out = str_chars("\nUse \u{1b}[32msherlock --config ");
    let mut i: usize = 0;
    let ghost start = out@;
    while i < e
        invariant
            i <= e <= v@.len(),
            out@ == start + v@.take(i as int),
        decreases e - i,
    {
        out.push(v[i]);
        assert(v@.take(i + 1) == v@.take(i as int).push(v@[i as int]));
        i += 1;
    }
    extend_chars(&mut out, &str_chars("/config.toml\u{1b}[0m to run sherlock with the custom configuration."));
    Some(string_from_chars(out.as_slice()))
}

} // verus!
