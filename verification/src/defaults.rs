use vstd::prelude::*;

use crate::errors::SherlockErrorType;
use crate::paths::{join_path, join_spec};

verus! {

/// The terminal emulators tried, in this order, when `$TERMINAL` names none
/// that is installed.
pub open spec fn terminal_candidates_spec() -> Seq<Seq<char>> {
    seq![
        "kitty"@, "gnome-terminal"@, "xterm"@, "konsole"@, "alacritty"@,
        "urxvt"@, "mate-terminal"@, "terminator"@, "sakura"@, "terminology"@,
        "st"@, "xfce4-terminal"@, "guake"@, "x11-terminal"@, "macos-terminal"@,
        "iterm2"@, "lxterminal"@, "foot"@, "wezterm"@, "tilix"@,
    ]
}

/// The first index `i >= from` below `bound` at which `installed` holds `true`.
pub open spec fn first_installed(installed: Seq<bool>, from: int, bound: int) -> Option<int>
    decreases bound - from,
{
    if from >= bound || from >= installed.len() || from < 0 {
        None
    } else if installed[from] {
        Some(from)
    } else {
        first_installed(installed, from + 1, bound)
    }
}

/// The terminal Sherlock uses: `$TERMINAL` when it is set and installed,
/// else the first installed candidate; `None` when there is none.
pub open spec fn terminal_choice(
    env_terminal: Option<String>,
    env_installed: bool,
    installed: Seq<bool>,
) -> Option<Seq<char>> {
    if env_terminal is Some && env_installed {
        Some(env_terminal->0@)
    } else {
        match first_installed(installed, 0, terminal_candidates_spec().len() as int) {
            Some(i) => Some(terminal_candidates_spec()[i]),
            None => None,
        }
    }
}

/// The error reported when no terminal can be found.
pub open spec fn is_no_terminal_error(e: SherlockErrorType) -> bool {
    e matches SherlockErrorType::ConfigError(m) && m@ == "Failed to get terminal"@
}

/// Defaults for the applications and units of the configuration.
pub struct ConstantDefaults {}

impl ConstantDefaults {
    /// The candidate terminal emulators, in the order in which they are tried.
    pub fn terminal_candidates() -> (r: Vec<&'static str>)
        ensures
            r@.map_values(|s: &str| s@) == terminal_candidates_spec(),
    {
        let r = vec![
            "kitty", "gnome-terminal", "xterm", "konsole", "alacritty",
            "urxvt", "mate-terminal", "terminator", "sakura", "terminology",
            "st", "xfce4-terminal", "guake", "x11-terminal", "macos-terminal",
            "iterm2", "lxterminal", "foot", "wezterm", "tilix",
        ];
        assert(r@.map_values(|s: &str| s@) =~= terminal_candidates_spec());
        r
    }

    /// Picks the terminal from what was found on the machine: `env_terminal` is
    /// `$TERMINAL`, `env_installed` whether it answered `--version`, and
    /// `installed[i]` whether the `i`-th candidate did (missing entries count
    /// as not installed).
    pub fn get_terminal(
        env_terminal: Option<String>,
        env_installed: bool,
        installed: &[bool],
    ) -> (r: Result<String, SherlockErrorType>)
        ensures
            match r {
                Ok(t) => terminal_choice(env_terminal, env_installed, installed@) == Some(t@),
                Err(e) => terminal_choice(env_terminal, env_installed, installed@) is None
                    && is_no_terminal_error(e),
            },
    {
        let ghost env = env_terminal;
        if env_installed {
            if let Some(t) = env_terminal {
                return Ok(t);
            }
        }
        let candidates = Self::terminal_candidates();
        let ghost cs = candidates@.map_values(|s: &str| s@);
        let bound = if installed.len() < candidates.len() {
            installed.len()
        } else {
            candidates.len()
        };
        let mut i: usize = 0;
        while i < bound
            invariant
                i <= bound <= installed@.len(),
                bound <= candidates@.len(),
                cs == candidates@.map_values(|s: &str| s@),
                cs == terminal_candidates_spec(),
                env == env_terminal,
                !(env is Some && env_installed),
                first_installed(installed@, i as int, cs.len() as int)
                    == first_installed(installed@, 0, cs.len() as int),
            decreases bound - i,
        {
            if installed[i] {
                let t = candidates[i].to_owned();
                assert(cs[i as int] == candidates@[i as int]@);
                return Ok(t);
            }
            i += 1;
        }
        assert(first_installed(installed@, i as int, cs.len() as int) is None);
        Err(SherlockErrorType::ConfigError("Failed to get terminal".to_owned()))
    }

    /// The terminal, or an empty string when none is found.
    pub fn terminal(env_terminal: Option<String>, env_installed: bool, installed: &[bool]) -> (r:
        String)
        ensures
            r@ == match terminal_choice(env_terminal, env_installed, installed@) {
                Some(t) => t,
                None => Seq::<char>::empty(),
            },
    {
        match Self::get_terminal(env_terminal, env_installed, installed) {
            Ok(t) => t,
            Err(_) => String::new(),
        }
    }

    /// The default command for joining a Teams meeting.
    pub fn teams() -> (r: String)
        ensures
            r@ == "teams-for-linux --enable-features=UseOzonePlatform --ozone-platform=wayland --url {meeting_url}"@,
    {
        "teams-for-linux --enable-features=UseOzonePlatform --ozone-platform=wayland --url {meeting_url}".to_owned()
    }

    pub fn calendar_client() -> (r: String)
        ensures
            r@ == "thunderbird"@,
    {
        "thunderbird".to_owned()
    }

    pub fn lengths() -> (r: String)
        ensures
            r@ == "meters"@,
    {
        "meters".to_owned()
    }

    pub fn weights() -> (r: String)
        ensures
            r@ == "kg"@,
    {
        "kg".to_owned()
    }

    pub fn volumes() -> (r: String)
        ensures
            r@ == "l"@,
    {
        "l".to_owned()
    }

    pub fn temperatures() -> (r: String)
        ensures
            r@ == "C"@,
    {
        "C".to_owned()
    }

    pub fn currency() -> (r: String)
        ensures
            r@ == "eur"@,
    {
        "eur".to_owned()
    }
}

/// Default key bindings.
pub struct BindDefaults {}

impl BindDefaults {
    /// The symbols shown for the command, control, alt and shift keys.
    pub fn modkey_ascii() -> (r: [char; 4])
        ensures
            r@ == seq!['\u{2318}', '^', '\u{2387}', '\u{21e7}'],
    {
        let r = ['\u{2318}', '^', '\u{2387}', '\u{21e7}'];
        assert(r@ =~= seq!['\u{2318}', '^', '\u{2387}', '\u{21e7}']);
        r
    }

    pub fn shortcut_mod() -> (r: String)
        ensures
            r@ == "\u{2318}"@,
    {
        "\u{2318}".to_owned()
    }

    pub fn up() -> (r: Option<String>)
        ensures
            r matches Some(s) && s@ == "control-k"@,
    {
        Some("control-k".to_owned())
    }

    pub fn down() -> (r: Option<String>)
        ensures
            r matches Some(s) && s@ == "control-j"@,
    {
        Some("control-j".to_owned())
    }

    pub fn left() -> (r: Option<String>)
        ensures
            r matches Some(s) && s@ == "control-ih"@,
    {
        Some("control-ih".to_owned())
    }

    pub fn right() -> (r: Option<String>)
        ensures
            r matches Some(s) && s@ == "control-l"@,
    {
        Some("control-l".to_owned())
    }

    pub fn context() -> (r: Option<String>)
        ensures
            r matches Some(s) && s@ == "control-i"@,
    {
        Some("control-i".to_owned())
    }

    pub fn modifier() -> (r: Option<String>)
        ensures
            r matches Some(s) && s@ == "control"@,
    {
        Some("control".to_owned())
    }

    pub fn exec_inplace() -> (r: Option<String>)
        ensures
            r matches Some(s) && s@ == "control-return"@,
    {
        Some("control-return".to_owned())
    }
}

/// Default file locations, inside the configuration or cache directory.
pub struct FileDefaults {}

impl FileDefaults {
    pub fn cache(cache_dir: &str) -> (r: String)
        ensures
            r@ == join_spec(cache_dir@, "desktop_files.bin"@),
    {
        join_path(cache_dir, "desktop_files.bin")
    }

    pub fn config(config_dir: &str) -> (r: String)
        ensures
            r@ == join_spec(config_dir@, "config.toml"@),
    {
        join_path(config_dir, "config.toml")
    }

    pub fn css(config_dir: &str) -> (r: String)
        ensures
            r@ == join_spec(config_dir@, "main.css"@),
    {
        join_path(config_dir, "main.css")
    }

    pub fn fallback(config_dir: &str) -> (r: String)
        ensures
            r@ == join_spec(config_dir@, "fallback.json"@),
    {
        join_path(config_dir, "fallback.json")
    }

    pub fn alias(config_dir: &str) -> (r: String)
        ensures
            r@ == join_spec(config_dir@, "sherlock_alias.json"@),
    {
        join_path(config_dir, "sherlock_alias.json")
    }

    pub fn ignore(config_dir: &str) -> (r: String)
        ensures
            r@ == join_spec(config_dir@, "sherlockignore"@),
    {
        join_path(config_dir, "sherlockignore")
    }

    pub fn actions(config_dir: &str) -> (r: String)
        ensures
            r@ == join_spec(config_dir@, "sherlock_actions.json"@),
    {
        join_path(config_dir, "sherlock_actions.json")
    }

    /// The directories searched for icons: only `icons/` in the configuration
    /// directory.
    pub fn icon_paths(config_dir: &str) -> (r: Vec<String>)
        ensures
            r@.len() == 1,
            r@[0]@ == join_spec(config_dir@, "icons/"@),
    {
        vec![join_path(config_dir, "icons/")]
    }
}

/// Other defaults of the configuration.
pub struct OtherDefaults {}

impl OtherDefaults {
    pub fn bool_true() -> (r: bool)
        ensures
            r,
    {
        true
    }

    pub fn five() -> (r: u8)
        ensures
            r == 5,
    {
        5
    }

    pub fn backdrop_edge() -> (r: String)
        ensures
            r@ == "top"@,
    {
        "top".to_owned()
    }

    pub fn icon_size() -> (r: i32)
        ensures
            r == 22,
    {
        22
    }

    pub fn search_icon() -> (r: String)
        ensures
            r@ == "system-search-symbolic"@,
    {
        "system-search-symbolic".to_owned()
    }

    pub fn search_icon_back() -> (r: String)
        ensures
            r@ == "sherlock-back"@,
    {
        "sherlock-back".to_owned()
    }

    pub fn placeholder() -> (r: String)
        ensures
            r@ == "Search:"@,
    {
        "Search:".to_owned()
    }
}

} // verus!
