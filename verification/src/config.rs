use vstd::prelude::*;

use std::collections::HashSet;

use crate::defaults::{BindDefaults, ConstantDefaults, FileDefaults, OtherDefaults};
use crate::errors::{FileAction, SherlockErrorType};
use crate::paths::{
    expand_path, expand_path_spec, extension_dot, extension_spec, join_path, join_spec,
    path_extension, replace_extension, replace_extension_spec, comps_of, same_path,
};
use crate::text::{chars_eq, str_chars, string_from_chars};

verus! {

/// User-defined default applications.
#[derive(Clone, Debug)]
pub struct ConfigDefaultApps {
    pub teams: String,
    pub calendar_client: String,
    pub terminal: String,
    pub browser: Option<String>,
    pub mpris: Option<String>,
}

/// Preferred measurement units.
#[derive(Clone, Debug)]
pub struct ConfigUnits {
    pub lengths: String,
    pub weights: String,
    pub volumes: String,
    pub temperatures: String,
    pub currency: String,
}

/// Debugging preferences.
#[derive(Debug)]
pub struct ConfigDebug {
    pub try_suppress_errors: bool,
    pub try_suppress_warnings: bool,
    pub app_paths: HashSet<String>,
}

/// Runtime behaviour settings. Paths are held as strings.
#[derive(Clone, Debug)]
pub struct ConfigBehavior {
    pub use_xdg_data_dir_icons: bool,
    pub cache: String,
    pub caching: bool,
    pub daemonize: bool,
    pub animate: bool,
    pub field: Option<String>,
    pub global_prefix: Option<String>,
    pub global_flags: Option<String>,
}

/// Locations of the configuration files. Paths are held as strings.
#[derive(Clone, Debug)]
pub struct ConfigFiles {
    pub config: String,
    pub css: String,
    pub fallback: String,
    pub alias: String,
    pub ignore: String,
    pub actions: String,
}

/// Custom key bindings.
#[derive(Clone, Debug)]
pub struct ConfigBinds {
    pub up: Option<String>,
    pub down: Option<String>,
    pub left: Option<String>,
    pub right: Option<String>,
    pub context: Option<String>,
    pub modifier: Option<String>,
    pub exec_inplace: Option<String>,
}

/// Settings that come from the command line for one run.
#[derive(Clone, Debug)]
pub struct Runtime {
    pub method: Option<String>,
    pub multi: bool,
    pub center: bool,
    pub photo_mode: bool,
    pub display_raw: bool,
    pub input: Option<bool>,
    pub sub_menu: Option<String>,
}

/// The expand feature.
#[derive(Clone, Debug)]
pub struct ConfigExpand {
    pub enable: bool,
    pub edge: String,
    pub margin: i32,
}

/// The icons of the search bar.
#[derive(Clone, Debug)]
pub struct SearchBarIcon {
    pub enable: bool,
    pub icon: String,
    pub icon_back: String,
    pub size: i32,
}

/// The status bar.
#[derive(Clone, Debug)]
pub struct StatusBar {
    pub enable: bool,
}

/// The configuration sections that hold no floating-point values; the
/// appearance and backdrop sections are kept beside it by the application.
#[derive(Debug)]
pub struct SherlockConfig {
    pub default_apps: ConfigDefaultApps,
    pub units: ConfigUnits,
    pub debug: ConfigDebug,
    pub behavior: ConfigBehavior,
    pub binds: ConfigBinds,
    pub files: ConfigFiles,
    pub runtime: Runtime,
    pub expand: ConfigExpand,
    pub status_bar: StatusBar,
    pub search_bar_icon: SearchBarIcon,
    pub initialized: bool,
}

/// Command-line flags. Paths are held as strings.
#[derive(Clone, Debug)]
pub struct SherlockFlags {
    pub config_dir: Option<String>,
    pub config: Option<String>,
    pub fallback: Option<String>,
    pub style: Option<String>,
    pub ignore: Option<String>,
    pub alias: Option<String>,
    pub display_raw: bool,
    pub center_raw: bool,
    pub cache: Option<String>,
    pub daemonize: bool,
    pub method: Option<String>,
    pub field: Option<String>,
    pub sub_menu: Option<String>,
    pub multi: bool,
    pub photo_mode: bool,
    pub input: Option<bool>,
    pub placeholder: Option<String>,
}

impl Default for SherlockFlags {
    fn default() -> (r: Self)
        ensures
            r.config_dir is None && r.config is None && r.fallback is None && r.style is None,
            r.ignore is None && r.alias is None && r.cache is None && r.method is None,
            r.field is None && r.sub_menu is None && r.input is None && r.placeholder is None,
            !r.display_raw && !r.center_raw && !r.daemonize && !r.multi && !r.photo_mode,
    {
        SherlockFlags {
            config_dir: None,
            config: None,
            fallback: None,
            style: None,
            ignore: None,
            alias: None,
            display_raw: false,
            center_raw: false,
            cache: None,
            daemonize: false,
            method: None,
            field: None,
            sub_menu: None,
            multi: false,
            photo_mode: false,
            input: None,
            placeholder: None,
        }
    }
}

impl ConfigDefaultApps {
    /// The defaults, given the terminal and browser found on the machine.
    pub fn with_detected(terminal: String, browser: Option<String>) -> (r: Self)
        ensures
            r.teams@ == "teams-for-linux --enable-features=UseOzonePlatform --ozone-platform=wayland --url {meeting_url}"@,
            r.calendar_client@ == "thunderbird"@,
            r.terminal == terminal,
            r.browser == browser,
            r.mpris is None,
    {
        ConfigDefaultApps {
            teams: ConstantDefaults::teams(),
            calendar_client: ConstantDefaults::calendar_client(),
            terminal,
            browser,
            mpris: None,
        }
    }
}

impl Default for ConfigUnits {
    fn default() -> (r: Self)
        ensures
            r.lengths@ == "meters"@,
            r.weights@ == "kg"@,
            r.volumes@ == "l"@,
            r.temperatures@ == "C"@,
            r.currency@ == "eur"@,
    {
        ConfigUnits {
            lengths: ConstantDefaults::lengths(),
            weights: ConstantDefaults::weights(),
            volumes: ConstantDefaults::volumes(),
            temperatures: ConstantDefaults::temperatures(),
            currency: ConstantDefaults::currency(),
        }
    }
}

impl Default for ConfigDebug {
    fn default() -> (r: Self)
        ensures
            !r.try_suppress_errors,
            !r.try_suppress_warnings,
            r.app_paths@ == Set::<String>::empty(),
    {
        ConfigDebug {
            try_suppress_errors: false,
            try_suppress_warnings: false,
            app_paths: HashSet::new(),
        }
    }
}

impl ConfigBehavior {
    /// The defaults, with the cache file in `cache_dir`.
    pub fn with_cache_dir(cache_dir: &str) -> (r: Self)
        ensures
            !r.use_xdg_data_dir_icons,
            r.cache@ == join_spec(cache_dir@, "desktop_files.bin"@),
            !r.caching,
            !r.daemonize,
            r.animate,
            r.field is None && r.global_prefix is None && r.global_flags is None,
    {
        ConfigBehavior {
            use_xdg_data_dir_icons: false,
            cache: FileDefaults::cache(cache_dir),
            caching: false,
            daemonize: false,
            animate: true,
            field: None,
            global_prefix: None,
            global_flags: None,
        }
    }
}

impl ConfigFiles {
    /// The defaults, all inside `config_dir`.
    pub fn in_dir(config_dir: &str) -> (r: Self)
        ensures
            r.config@ == join_spec(config_dir@, "config.toml"@),
            r.css@ == join_spec(config_dir@, "main.css"@),
            r.fallback@ == join_spec(config_dir@, "fallback.json"@),
            r.alias@ == join_spec(config_dir@, "sherlock_alias.json"@),
            r.ignore@ == join_spec(config_dir@, "sherlockignore"@),
            r.actions@ == join_spec(config_dir@, "sherlock_actions.json"@),
    {
        ConfigFiles {
            config: FileDefaults::config(config_dir),
            css: FileDefaults::css(config_dir),
            fallback: FileDefaults::fallback(config_dir),
            alias: FileDefaults::alias(config_dir),
            ignore: FileDefaults::ignore(config_dir),
            actions: FileDefaults::actions(config_dir),
        }
    }
}

impl ConfigFiles {
    /// The default files of a configuration made in `root`: each one moved
    /// into `root` under its usual name.
    pub fn with_root(root: &str) -> (r: Self)
        ensures
            r.config@ == join_spec(root@, "config.toml"@),
            r.css@ == join_spec(root@, "main.css"@),
            r.fallback@ == join_spec(root@, "fallback.json"@),
            r.alias@ == join_spec(root@, "sherlock_alias.json"@),
            r.ignore@ == join_spec(root@, "sherlockignore"@),
            r.actions@ == join_spec(root@, "sherlock_actions.json"@),
    {
        Self::in_dir(root)
    }
}

impl Default for ConfigBinds {
    fn default() -> (r: Self)
        ensures
            r.up matches Some(s) && s@ == "control-k"@,
            r.down matches Some(s) && s@ == "control-j"@,
            r.left matches Some(s) && s@ == "control-ih"@,
            r.right matches Some(s) && s@ == "control-l"@,
            r.context matches Some(s) && s@ == "control-i"@,
            r.modifier matches Some(s) && s@ == "control"@,
            r.exec_inplace matches Some(s) && s@ == "control-return"@,
    {
        ConfigBinds {
            up: BindDefaults::up(),
            down: BindDefaults::down(),
            left: BindDefaults::left(),
            right: BindDefaults::right(),
            context: BindDefaults::context(),
            modifier: BindDefaults::modifier(),
            exec_inplace: BindDefaults::exec_inplace(),
        }
    }
}

impl Default for Runtime {
    fn default() -> (r: Self)
        ensures
            r.method is None && r.input is None && r.sub_menu is None,
            !r.multi && !r.center && !r.photo_mode && !r.display_raw,
    {
        Runtime {
            method: None,
            multi: false,
            center: false,
            photo_mode: false,
            display_raw: false,
            input: None,
            sub_menu: None,
        }
    }
}

impl Default for ConfigExpand {
    fn default() -> (r: Self)
        ensures
            !r.enable,
            r.edge@ == "top"@,
            r.margin == 0,
    {
        ConfigExpand { enable: false, edge: OtherDefaults::backdrop_edge(), margin: 0 }
    }
}

impl Default for SearchBarIcon {
    fn default() -> (r: Self)
        ensures
            r.enable,
            r.icon@ == "system-search-symbolic"@,
            r.icon_back@ == "sherlock-back"@,
            r.size == 22,
    {
        SearchBarIcon {
            enable: true,
            icon: OtherDefaults::search_icon(),
            icon_back: OtherDefaults::search_icon_back(),
            size: OtherDefaults::icon_size(),
        }
    }
}

impl Default for StatusBar {
    fn default() -> (r: Self)
        ensures
            r.enable,
    {
        StatusBar { enable: true }
    }
}

/// The path a flag gives, or the configured one when the flag is not set.
pub open spec fn flag_or(flag: Option<String>, current: String) -> Seq<char> {
    match flag {
        Some(p) => p@,
        None => current@,
    }
}

/// The configured path `current`, overridden by `flag` when it is set, with a
/// leading `~` replaced by `home`.
fn override_path(flag: &Option<String>, current: &String, home: &str) -> (r: String)
    ensures
        r@ == expand_path_spec(flag_or(*flag, *current), home@),
{
    match flag {
        Some(p) => expand_path(p.as_str(), home),
        None => expand_path(current.as_str(), home),
    }
}

/// What `apply_flags` leaves of the flags: the one-shot flags are taken when
/// the home directory is known.
pub open spec fn flags_after_apply(f: SherlockFlags, home: Option<String>) -> SherlockFlags {
    if home is Some {
        SherlockFlags { sub_menu: None, method: None, input: None, field: None, ..f }
    } else {
        f
    }
}

/// `r` is `config` with the flags `f` applied (all but `initialized`): with
/// no home directory nothing changes; else each path flag that is set
/// replaces the configured path, every such path has a leading `~` expanded,
/// the runtime settings come from the flags, and `daemonize` is turned on by
/// its flag.
pub open spec fn flags_applied(
    f: SherlockFlags,
    config: SherlockConfig,
    home: Option<String>,
    r: SherlockConfig,
) -> bool {
    match home {
        None => r == (SherlockConfig { initialized: r.initialized, ..config }),
        Some(home) => {
            let h = home@;
            &&& r.files.config@ == expand_path_spec(flag_or(f.config, config.files.config), h)
            &&& r.files.fallback@ == expand_path_spec(flag_or(f.fallback, config.files.fallback), h)
            &&& r.files.css@ == expand_path_spec(flag_or(f.style, config.files.css), h)
            &&& r.files.alias@ == expand_path_spec(flag_or(f.alias, config.files.alias), h)
            &&& r.files.ignore@ == expand_path_spec(flag_or(f.ignore, config.files.ignore), h)
            &&& r.files.actions == config.files.actions
            &&& r.behavior.cache@ == expand_path_spec(flag_or(f.cache, config.behavior.cache), h)
            &&& r.runtime == (Runtime {
                method: f.method,
                multi: f.multi,
                center: f.center_raw,
                photo_mode: f.photo_mode,
                display_raw: f.display_raw,
                input: f.input,
                sub_menu: f.sub_menu,
            })
            &&& r.behavior.field == f.field
            &&& r.behavior.daemonize == (f.daemonize || config.behavior.daemonize)
            &&& r.behavior.use_xdg_data_dir_icons == config.behavior.use_xdg_data_dir_icons
            &&& r.behavior.caching == config.behavior.caching
            &&& r.behavior.animate == config.behavior.animate
            &&& r.behavior.global_prefix == config.behavior.global_prefix
            &&& r.behavior.global_flags == config.behavior.global_flags
            &&& r.default_apps == config.default_apps
            &&& r.units == config.units
            &&& r.debug == config.debug
            &&& r.binds == config.binds
            &&& r.expand == config.expand
            &&& r.status_bar == config.status_bar
            &&& r.search_bar_icon == config.search_bar_icon
        },
    }
}

impl SherlockConfig {
    /// The default configuration, given the configuration and cache
    /// directories and the terminal and browser found on the machine.
    pub fn defaults(config_dir: &str, cache_dir: &str, terminal: String, browser: Option<String>) -> (r:
        Self)
        ensures
            r.default_apps.terminal == terminal,
            r.default_apps.browser == browser,
            r.default_apps.mpris is None,
            r.default_apps.teams@ == "teams-for-linux --enable-features=UseOzonePlatform --ozone-platform=wayland --url {meeting_url}"@,
            r.default_apps.calendar_client@ == "thunderbird"@,
            r.units.lengths@ == "meters"@ && r.units.weights@ == "kg"@ && r.units.volumes@ == "l"@,
            r.units.temperatures@ == "C"@ && r.units.currency@ == "eur"@,
            !r.debug.try_suppress_errors && !r.debug.try_suppress_warnings,
            r.debug.app_paths@ == Set::<String>::empty(),
            r.behavior.cache@ == join_spec(cache_dir@, "desktop_files.bin"@),
            !r.behavior.use_xdg_data_dir_icons && !r.behavior.caching && !r.behavior.daemonize,
            r.behavior.animate,
            r.behavior.field is None && r.behavior.global_prefix is None
                && r.behavior.global_flags is None,
            r.binds.up matches Some(s) && s@ == "control-k"@,
            r.binds.down matches Some(s) && s@ == "control-j"@,
            r.binds.left matches Some(s) && s@ == "control-ih"@,
            r.binds.right matches Some(s) && s@ == "control-l"@,
            r.binds.context matches Some(s) && s@ == "control-i"@,
            r.binds.modifier matches Some(s) && s@ == "control"@,
            r.binds.exec_inplace matches Some(s) && s@ == "control-return"@,
            r.files.config@ == join_spec(config_dir@, "config.toml"@),
            r.files.css@ == join_spec(config_dir@, "main.css"@),
            r.files.fallback@ == join_spec(config_dir@, "fallback.json"@),
            r.files.alias@ == join_spec(config_dir@, "sherlock_alias.json"@),
            r.files.ignore@ == join_spec(config_dir@, "sherlockignore"@),
            r.files.actions@ == join_spec(config_dir@, "sherlock_actions.json"@),
            r.runtime.method is None && r.runtime.input is None && r.runtime.sub_menu is None,
            !r.runtime.multi && !r.runtime.center && !r.runtime.photo_mode
                && !r.runtime.display_raw,
            !r.expand.enable && r.expand.edge@ == "top"@ && r.expand.margin == 0,
            r.status_bar.enable,
            r.search_bar_icon.enable && r.search_bar_icon.size == 22,
            r.search_bar_icon.icon@ == "system-search-symbolic"@,
            r.search_bar_icon.icon_back@ == "sherlock-back"@,
            !r.initialized,
    {
        SherlockConfig {
            default_apps: ConfigDefaultApps::with_detected(terminal, browser),
            units: ConfigUnits::default(),
            debug: ConfigDebug::default(),
            behavior: ConfigBehavior::with_cache_dir(cache_dir),
            binds: ConfigBinds::default(),
            files: ConfigFiles::in_dir(config_dir),
            runtime: Runtime::default(),
            expand: ConfigExpand::default(),
            status_bar: StatusBar::default(),
            search_bar_icon: SearchBarIcon::default(),
            initialized: false,
        }
    }

    /// Overrides the configuration with the command-line flags. `home` is the
    /// home directory, by which a leading `~` of each path is replaced; when
    /// it is unknown the configuration is returned unchanged. The one-shot
    /// flags (`sub_menu`, `method`, `input`, `field`) are moved out of
    /// `sherlock_flags`.
    pub fn apply_flags(sherlock_flags: &mut SherlockFlags, config: SherlockConfig, home: Option<
        String,
    >) -> (r: SherlockConfig)
        ensures
            flags_applied(*old(sherlock_flags), config, home, r),
            r.initialized == config.initialized,
            *final(sherlock_flags) == flags_after_apply(*old(sherlock_flags), home),
    {
        let home = match home {
            Some(h) => h,
            None => return config,
        };
        let mut config = config;
        let h = home.as_str();
        config.files.config = override_path(&sherlock_flags.config, &config.files.config, h);
        config.files.fallback = override_path(&sherlock_flags.fallback, &config.files.fallback, h);
        config.files.css = override_path(&sherlock_flags.style, &config.files.css, h);
        config.files.alias = override_path(&sherlock_flags.alias, &config.files.alias, h);
        config.files.ignore = override_path(&sherlock_flags.ignore, &config.files.ignore, h);
        config.behavior.cache = override_path(&sherlock_flags.cache, &config.behavior.cache, h);
        config.runtime.sub_menu = sherlock_flags.sub_menu.take();
        config.runtime.method = sherlock_flags.method.take();
        config.runtime.input = sherlock_flags.input.take();
        config.runtime.center = sherlock_flags.center_raw;
        config.runtime.multi = sherlock_flags.multi;
        config.runtime.display_raw = sherlock_flags.display_raw;
        config.runtime.photo_mode = sherlock_flags.photo_mode;
        config.behavior.field = sherlock_flags.field.take();
        if sherlock_flags.daemonize {
            config.behavior.daemonize = true;
        }
        config
    }
}

/// The format a configuration file is read in, by its extension.
#[derive(Clone, Copy, Debug, PartialEq, Eq, Structural)]
pub enum ConfigFormat {
    Json,
    Toml,
}

/// Whether `e` reports that the file at `path` cannot be parsed.
pub open spec fn is_parse_error(e: SherlockErrorType, path: Seq<char>) -> bool {
    e matches SherlockErrorType::FileError(act, p) && act is Parse && p@ == path
}

/// The configuration file to read and its format. A file that exists is read
/// by its extension, `json` or `toml`; when the file does not exist, a `json`
/// file is looked for as `toml` and the other way round. Any other extension,
/// or none, cannot be parsed.
pub open spec fn resolve_spec(path: Seq<char>, exists: bool) -> Option<(Seq<char>, ConfigFormat)> {
    match extension_spec(path) {
        None => None,
        Some(ext) => if exists {
            if ext == "json"@ {
                Some((path, ConfigFormat::Json))
            } else if ext == "toml"@ {
                Some((path, ConfigFormat::Toml))
            } else {
                None
            }
        } else if ext == "json"@ {
            Some((replace_extension_spec(path, "toml"@), ConfigFormat::Toml))
        } else if ext == "toml"@ {
            Some((replace_extension_spec(path, "json"@), ConfigFormat::Json))
        } else {
            None
        },
    }
}

/// A missing JSON configuration is looked for as TOML, and a missing TOML one
/// as JSON; when that one is missing too, the search comes back to the first
/// file (for a path that does not end in a separator).
pub proof fn lemma_fallback_swaps_back(p: Seq<char>)
    requires
        crate::paths::trim_back(p) == p,
        extension_spec(p) == Some("json"@) || extension_spec(p) == Some("toml"@),
    ensures
        resolve_spec(p, false) matches Some((q, _)) && resolve_spec(q, false) matches Some((r, f))
            && r == p && (f is Json <==> extension_spec(p) == Some("json"@)),
{
    reveal_strlit("json");
    reveal_strlit("toml");
    let e = extension_spec(p)->0;
    let other = if e == "json"@ {
        "toml"@
    } else {
        "json"@
    };
    crate::paths::lemma_replace_extension_dot(p, other);
    let q = replace_extension_spec(p, other);
    crate::paths::lemma_replace_extension_dot(q, e);
    let d = crate::paths::extension_dot(p)->0;
    assert(q.take(d) == p.take(d));
    assert(replace_extension_spec(q, e) == p);
}

/// Decides which configuration file to read, given whether `path` exists.
pub fn resolve_config_file(path: String, exists: bool) -> (r: Result<
    (String, ConfigFormat),
    SherlockErrorType,
>)
    ensures
        match r {
            Ok((p, f)) => resolve_spec(path@, exists) == Some((p@, f)),
            Err(e) => resolve_spec(path@, exists) is None && is_parse_error(e, path@),
        },
{
    let p = str_chars(path.as_str());
    let ext = match path_extension(&p) {
        Some(e) => e,
        None => return Err(SherlockErrorType::FileError(FileAction::Parse, path)),
    };
    let json = str_chars("json");
    let toml = str_chars("toml");
    let is_json = chars_eq(&ext, &json);
    let is_toml = chars_eq(&ext, &toml);
    if exists {
        if is_json {
            Ok((path, ConfigFormat::Json))
        } else if is_toml {
            Ok((path, ConfigFormat::Toml))
        } else {
            Err(SherlockErrorType::FileError(FileAction::Parse, path))
        }
    } else if is_json {
        let np = replace_extension(&p, "toml");
        Ok((string_from_chars(np.as_slice()), ConfigFormat::Toml))
    } else if is_toml {
        let np = replace_extension(&p, "json");
        Ok((string_from_chars(np.as_slice()), ConfigFormat::Json))
    } else {
        Err(SherlockErrorType::FileError(FileAction::Parse, path))
    }
}

impl SherlockFlags {
    /// The path of the configuration file: the `config` flag with `~`
    /// expanded, else `config.toml` in the `config_dir` flag's directory, else
    /// in `default_dir`. The `config_dir` flag is moved out.
    pub fn config_file(&mut self, default_dir: &str, home: &str) -> (r: String)
        ensures
            *final(self) == (SherlockFlags { config_dir: None, ..*old(self) }),
            r@ == match old(self).config {
                Some(p) => expand_path_spec(p@, home@),
                None => join_spec(
                    match old(self).config_dir {
                        Some(d) => d@,
                        None => default_dir@,
                    },
                    "config.toml"@,
                ),
            },
    {
        let dir = self.config_dir.take();
        match &self.config {
            Some(p) => expand_path(p.as_str(), home),
            None => match dir {
                Some(d) => join_path(d.as_str(), "config.toml"),
                None => join_path(default_dir, "config.toml"),
            },
        }
    }

    /// The configuration to run with, once the file has been read: what was
    /// parsed, or `defaults` with the error that stopped the reading; either
    /// way with the flags applied. A parsed configuration is marked
    /// initialized.
    pub fn settle_config(
        &mut self,
        loaded: Result<SherlockConfig, SherlockErrorType>,
        defaults: SherlockConfig,
        home: Option<String>,
    ) -> (r: (SherlockConfig, Vec<SherlockErrorType>))
        ensures
            match loaded {
                Ok(c) => {
                    &&& r.1@.len() == 0
                    &&& r.0.initialized
                    &&& flags_applied(*old(self), c, home, r.0)
                },
                Err(e) => {
                    &&& r.1@ == seq![e]
                    &&& r.0.initialized == defaults.initialized
                    &&& flags_applied(*old(self), defaults, home, r.0)
                },
            },
            *final(self) == flags_after_apply(*old(self), home),
    {
        match loaded {
            Ok(c) => {
                let mut cfg = SherlockConfig::apply_flags(self, c, home);
                cfg.initialized = true;
                (cfg, Vec::new())
            },
            Err(e) => {
                let cfg = SherlockConfig::apply_flags(self, defaults, home);
                let mut msgs = Vec::new();
                msgs.push(e);
                (cfg, msgs)
            },
        }
    }
}

/// Which configuration file changed on disk.
#[derive(Clone, Copy, Debug, PartialEq, Eq, Structural)]
pub enum ConfigFileChange {
    Fallback,
    Config,
    Alias,
    Ignore,
    Actions,
    Other,
}

/// A change that calls for the launchers to be loaded again.
pub open spec fn touches_launchers(c: ConfigFileChange) -> bool {
    c is Fallback || c is Alias || c is Actions || c is Ignore
}

/// What has to be reloaded after some configuration files changed.
#[derive(Clone, Copy, Debug, PartialEq, Eq, Structural)]
pub struct ReloadNeeds {
    pub config: bool,
    pub launchers: bool,
}

impl ReloadNeeds {
    /// The configuration is reloaded when the configuration file changed, the
    /// launchers when the fallback, alias, actions or ignore file did.
    pub fn from_changes(changes: &[ConfigFileChange]) -> (r: Self)
        ensures
            r.config == needs_config(changes@),
            r.launchers == needs_launchers(changes@),
    {
        let mut needs = ReloadNeeds { config: false, launchers: false };
        let mut i: usize = 0;
        while i < changes.len()
            invariant
                i <= changes@.len(),
                needs.config <==> exists|j: int| 0 <= j < i && changes@[j] is Config,
                needs.launchers <==> exists|j: int|
                    0 <= j < i && touches_launchers(#[trigger] changes@[j]),
            decreases changes.len() - i,
        {
            match changes[i] {
                ConfigFileChange::Config => needs.config = true,
                ConfigFileChange::Fallback
                | ConfigFileChange::Alias
                | ConfigFileChange::Actions
                | ConfigFileChange::Ignore => needs.launchers = true,
                ConfigFileChange::Other => {},
            }
            proof {
                assert(touches_launchers(changes@[i as int]) ==> exists|j: int|
                    0 <= j < i + 1 && touches_launchers(#[trigger] changes@[j]));
            }
            i += 1;
        }
        needs
    }
}

/// The configuration is to be reloaded after some changes.
pub open spec fn needs_config(changes: Seq<ConfigFileChange>) -> bool {
    exists|i: int| 0 <= i < changes.len() && changes[i] is Config
}

/// The launchers are to be reloaded after some changes.
pub open spec fn needs_launchers(changes: Seq<ConfigFileChange>) -> bool {
    exists|i: int| 0 <= i < changes.len() && touches_launchers(#[trigger] changes[i])
}

/// Changes seen in two batches call for what they call for together: what
/// one batch needs, or the other.
pub proof fn lemma_reload_needs_batches(a: Seq<ConfigFileChange>, b: Seq<ConfigFileChange>)
    ensures
        needs_config(a + b) == (needs_config(a) || needs_config(b)),
        needs_launchers(a + b) == (needs_launchers(a) || needs_launchers(b)),
{
    let ab = a + b;
    if needs_config(ab) {
        let i = choose|i: int| 0 <= i < ab.len() && ab[i] is Config;
        if i < a.len() {
            assert(a[i] == ab[i]);
        } else {
            assert(b[i - a.len()] == ab[i]);
        }
    }
    if needs_config(a) {
        let i = choose|i: int| 0 <= i < a.len() && a[i] is Config;
        assert(ab[i] == a[i]);
    }
    if needs_config(b) {
        let i = choose|i: int| 0 <= i < b.len() && b[i] is Config;
        assert(ab[a.len() + i] == b[i]);
    }
    if needs_launchers(ab) {
        let i = choose|i: int| 0 <= i < ab.len() && touches_launchers(#[trigger] ab[i]);
        if i < a.len() {
            assert(a[i] == ab[i]);
        } else {
            assert(b[i - a.len()] == ab[i]);
        }
    }
    if needs_launchers(a) {
        let i = choose|i: int| 0 <= i < a.len() && touches_launchers(#[trigger] a[i]);
        assert(ab[i] == a[i]);
    }
    if needs_launchers(b) {
        let i = choose|i: int| 0 <= i < b.len() && touches_launchers(#[trigger] b[i]);
        assert(ab[a.len() + i] == b[i]);
    }
}

/// Which configuration file a changed path is, comparing paths component
/// by component.
pub open spec fn change_kind(path: Seq<char>, files: ConfigFiles) -> ConfigFileChange {
    let c = comps_of(path);
    if c == comps_of(files.config@) {
        ConfigFileChange::Config
    } else if c == comps_of(files.fallback@) {
        ConfigFileChange::Fallback
    } else if c == comps_of(files.alias@) {
        ConfigFileChange::Alias
    } else if c == comps_of(files.ignore@) {
        ConfigFileChange::Ignore
    } else if c == comps_of(files.actions@) {
        ConfigFileChange::Actions
    } else {
        ConfigFileChange::Other
    }
}

/// Tells which configuration file a changed file is.
pub fn classify_change(path: &str, files: &ConfigFiles) -> (r: ConfigFileChange)
    ensures
        r == change_kind(path@, *files),
{
    if same_path(path, files.config.as_str()) {
        ConfigFileChange::Config
    } else if same_path(path, files.fallback.as_str()) {
        ConfigFileChange::Fallback
    } else if same_path(path, files.alias.as_str()) {
        ConfigFileChange::Alias
    } else if same_path(path, files.ignore.as_str()) {
        ConfigFileChange::Ignore
    } else if same_path(path, files.actions.as_str()) {
        ConfigFileChange::Actions
    } else {
        ConfigFileChange::Other
    }
}

} // verus!
