use vstd::prelude::*;

use crate::text::{
    chars_eq, decimal, extend_chars, push_decimal, str_chars, string_from_chars, trim_bounds,
    trim_spec,
};

verus! {

/// The default of the legacy flags that are on unless a file says otherwise.
pub fn default_true() -> (r: bool)
    ensures
        r,
{
    true
}

/// An input field of a legacy launcher.
#[derive(Clone, Debug, PartialEq, Eq)]
pub enum LegacyExecVariable {
    StringInput(String),
    PasswordInput(String),
}

/// What a legacy launcher file says that the migration reports on.
#[derive(Clone, Debug)]
pub struct LegacyLauncherFacts {
    pub name: Option<String>,
    pub has_tags: bool,
    pub has_binds: bool,
    pub variables: Option<usize>,
}

/// The name a launcher is reported under.
pub open spec fn report_name(name: Option<String>) -> Seq<char> {
    match name {
        Some(n) => n@,
        None => "Unknown"@,
    }
}

/// The lines the migration reports for a launcher, before those about its
/// arguments: dropped tags, dropped key bindings, converted variables.
pub open spec fn migration_logs_spec(f: LegacyLauncherFacts) -> Seq<Seq<char>> {
    let tag = "["@ + report_name(f.name) + "] "@;
    let a = if f.has_tags {
        seq![tag + "Removed legacy tags (tag_start/tag_end)."@]
    } else {
        seq![]
    };
    let b = if f.has_binds {
        seq![tag + "Dropped custom keybind(s)."@]
    } else {
        seq![]
    };
    let c = match f.variables {
        Some(n) => seq![tag + "Migrated "@ + decimal(n as nat) + " variables to new format."@],
        None => seq![],
    };
    a + b + c
}

fn tagged(tag: &Vec<char>, text: &str) -> (r: String)
    ensures
        r@ == tag@ + text@,
{
    let mut v = tag.clone();
    extend_chars(&mut v, &str_chars(text));
    string_from_chars(v.as_slice())
}

/// The lines reported for a legacy launcher.
pub fn migration_logs(facts: &LegacyLauncherFacts) -> (r: Vec<String>)
    ensures
        r@.map_values(|s: String| s@) == migration_logs_spec(*facts),
{
    let mut tag = str_chars("[");
    match &facts.name {
        Some(n) => extend_chars(&mut tag, &str_chars(n.as_str())),
        None => extend_chars(&mut tag, &str_chars("Unknown")),
    }
    extend_chars(&mut tag, &str_chars("] "));
    let mut logs: Vec<String> = Vec::new();
    if facts.has_tags {
        logs.push(tagged(&tag, "Removed legacy tags (tag_start/tag_end)."));
    }
    if facts.has_binds {
        logs.push(tagged(&tag, "Dropped custom keybind(s)."));
    }
    match facts.variables {
        Some(n) => {
            let mut v = tag.clone();
            extend_chars(&mut v, &str_chars("Migrated "));
            push_decimal(&mut v, n as u64);
            extend_chars(&mut v, &str_chars(" variables to new format."));
            logs.push(string_from_chars(v.as_slice()));
        },
        None => {},
    }
    assert(logs@.map_values(|s: String| s@) =~= migration_logs_spec(*facts));
    logs
}

/// `s` without the `&` characters that end it.
pub open spec fn trim_end_ampersands(s: Seq<char>) -> Seq<char>
    decreases s.len(),
{
    if s.len() > 0 && s.last() == '&' {
        trim_end_ampersands(s.drop_last())
    } else {
        s
    }
}

/// A legacy command that ends in `&` (to run in the background) loses the
/// `&`s and the white space around the rest; `None` for any other command.
pub fn clean_background_exec(exec: &str) -> (r: Option<String>)
    ensures
        match r {
            Some(c) => exec@.len() > 0 && exec@.last() == '&' && c@ == trim_spec(
                trim_end_ampersands(exec@),
            ),
            None => !(exec@.len() > 0 && exec@.last() == '&'),
        },
{
    let v = str_chars(exec);
    let n = v.len();
    if n == 0 || v[n - 1] != '&' {
        return None;
    }
    let mut e = n;
    assert(v@.take(n as int) == v@);
    while e > 0 && v[e - 1] == '&'
        invariant
            e <= n == v@.len(),
            trim_end_ampersands(v@.take(e as int)) == trim_end_ampersands(v@),
        decreases e,
    {
        assert(v@.take(e as int).drop_last() == v@.take(e - 1));
        e -= 1;
    }
    assert(v@.subrange(0, e as int) == v@.take(e as int));
    assert(v@.subrange(0, e as int) == trim_end_ampersands(v@));
    let (b, f) = trim_bounds(&v, 0, e);
    let mut out: Vec<char> = Vec::new();
    let mut i = b;
    while i < f
        invariant
            b <= i <= f <= v@.len(),
            out@ == v@.subrange(b as int, i as int),
        decreases f - i,
    {
        out.push(v[i]);
        i += 1;
    }
    Some(string_from_chars(out.as_slice()))
}

/// The text items of a capability list, `None` standing for an item that is
/// not text.
pub open spec fn is_colors_all(item: Option<String>) -> bool {
    item matches Some(s) && s@ == "colors.all"@
}

pub open spec fn is_colors(item: Option<String>) -> bool {
    item matches Some(s) && s@ == "colors"@
}

/// Whether a capability list holds `colors.all`.
pub open spec fn has_colors_all(caps: Seq<Option<String>>) -> bool {
    exists|i: int| 0 <= i < caps.len() && is_colors_all(#[trigger] caps[i])
}

/// The new capability list is the items at the indices `kept` (every item
/// but `colors.all`, in order), then `colors` when `add` is set, which it is
/// when no item is `colors`.
pub open spec fn capability_edit(caps: Seq<Option<String>>, kept: Seq<usize>, add: bool) -> bool {
    &&& forall|k: int| 0 <= k < kept.len() ==> #[trigger] kept[k] < caps.len()
        && !is_colors_all(caps[kept[k] as int])
    &&& forall|k: int, l: int| 0 <= k < l < kept.len() ==> kept[k] < kept[l]
    &&& forall|i: int|
        0 <= i < caps.len() && !is_colors_all(#[trigger] caps[i]) ==> kept.contains(i as usize)
    &&& add == !(exists|i: int| 0 <= i < caps.len() && is_colors(#[trigger] caps[i]))
}

/// How a capability list changes: `None` when it holds no `colors.all`;
/// else the indices of the items kept (all but `colors.all`, in order) and
/// whether `colors` is to be added at the end (when no item is `colors`).
pub fn migrate_capabilities(caps: &Vec<Option<String>>) -> (r: Option<(Vec<usize>, bool)>)
    ensures
        r is None <==> !has_colors_all(caps@),
        r matches Some((kept, add)) ==> capability_edit(caps@, kept@, add),
{
    let mut kept: Vec<usize> = Vec::new();
    let mut found = false;
    let mut has_colors = false;
    let mut i: usize = 0;
    while i < caps.len()
        invariant
            i <= caps@.len(),
            found <==> exists|j: int| 0 <= j < i && is_colors_all(#[trigger] caps@[j]),
            has_colors <==> exists|j: int| 0 <= j < i && is_colors(#[trigger] caps@[j]),
            forall|k: int| 0 <= k < kept@.len() ==> #[trigger] kept@[k] < i && !is_colors_all(
                caps@[kept@[k] as int],
            ),
            forall|k: int, l: int| 0 <= k < l < kept@.len() ==> kept@[k] < kept@[l],
            forall|j: int| 0 <= j < i && !is_colors_all(#[trigger] caps@[j]) ==> kept@.contains(
                j as usize,
            ),
        decreases caps.len() - i,
    {
        let (all, plain) = match &caps[i] {
            Some(s) => {
                let v = str_chars(s.as_str());
                (chars_eq(&v, &str_chars("colors.all")), chars_eq(&v, &str_chars("colors")))
            },
            None => (false, false),
        };
        if all {
            found = true;
        } else {
            let ghost before = kept@;
            kept.push(i);
            assert(kept@.last() == i);
            assert forall|j: int| 0 <= j < i + 1 && !is_colors_all(#[trigger] caps@[j]) implies kept@.contains(
                j as usize,
            ) by {
                if j < i {
                    assert(before.contains(j as usize));
                    let k = choose|k: int| 0 <= k < before.len() && before[k] == j as usize;
                    assert(kept@[k] == j as usize);
                } else {
                    assert(kept@[kept@.len() - 1] == j as usize);
                }
            }
        }
        if plain {
            has_colors = true;
        }
        i += 1;
    }
    if !found {
        return None;
    }
    Some((kept, !has_colors))
}

/// The kinds of launcher a legacy type name migrates to.
#[derive(Clone, Copy, Debug, PartialEq, Eq, Structural)]
pub enum LauncherVariant {
    Apps,
    MusicPlayer,
    Bookmarks,
    Categories,
    Clipboard,
    Commands,
    Emoji,
    Weather,
    Web,
    Calculator,
    Script,
    Files,
    Event,
}

/// The launcher kind a legacy type name stands for; `None` for the kinds
/// that are gone (`debug`, `theme_picker`, `theme`, `process`, `pomodoro`)
/// and for unknown names.
pub open spec fn legacy_type_spec(t: Seq<char>) -> Option<LauncherVariant> {
    if t == "app_launcher"@ {
        Some(LauncherVariant::Apps)
    } else if t == "audio_sink"@ {
        Some(LauncherVariant::MusicPlayer)
    } else if t == "bookmarks"@ {
        Some(LauncherVariant::Bookmarks)
    } else if t == "categories"@ || t == "category"@ {
        Some(LauncherVariant::Categories)
    } else if t == "clipboard-execution"@ || t == "clipboard"@ {
        Some(LauncherVariant::Clipboard)
    } else if t == "command"@ {
        Some(LauncherVariant::Commands)
    } else if t == "emoji_picker"@ || t == "emoji"@ {
        Some(LauncherVariant::Emoji)
    } else if t == "weather"@ {
        Some(LauncherVariant::Weather)
    } else if t == "web_launcher"@ {
        Some(LauncherVariant::Web)
    } else if t == "calculation"@ || t == "calculator"@ {
        Some(LauncherVariant::Calculator)
    } else if t == "bulk_text"@ {
        Some(LauncherVariant::Script)
    } else if t == "files"@ {
        Some(LauncherVariant::Files)
    } else if t == "teams_event"@ || t == "event"@ {
        Some(LauncherVariant::Event)
    } else {
        None
    }
}

fn is_word(v: &Vec<char>, lit: &str) -> (r: bool)
    ensures
        r == (v@ == lit@),
{
    chars_eq(v, &str_chars(lit))
}

/// The launcher kind of a legacy type name.
pub fn migrate_type(t: &str) -> (r: Option<LauncherVariant>)
    ensures
        r == legacy_type_spec(t@),
{
    let v = str_chars(t);
    if is_word(&v, "app_launcher") {
        Some(LauncherVariant::Apps)
    } else if is_word(&v, "audio_sink") {
        Some(LauncherVariant::MusicPlayer)
    } else if is_word(&v, "bookmarks") {
        Some(LauncherVariant::Bookmarks)
    } else if is_word(&v, "categories") || is_word(&v, "category") {
        Some(LauncherVariant::Categories)
    } else if is_word(&v, "clipboard-execution") || is_word(&v, "clipboard") {
        Some(LauncherVariant::Clipboard)
    } else if is_word(&v, "command") {
        Some(LauncherVariant::Commands)
    } else if is_word(&v, "emoji_picker") || is_word(&v, "emoji") {
        Some(LauncherVariant::Emoji)
    } else if is_word(&v, "weather") {
        Some(LauncherVariant::Weather)
    } else if is_word(&v, "web_launcher") {
        Some(LauncherVariant::Web)
    } else if is_word(&v, "calculation") || is_word(&v, "calculator") {
        Some(LauncherVariant::Calculator)
    } else if is_word(&v, "bulk_text") {
        Some(LauncherVariant::Script)
    } else if is_word(&v, "files") {
        Some(LauncherVariant::Files)
    } else if is_word(&v, "teams_event") || is_word(&v, "event") {
        Some(LauncherVariant::Event)
    } else {
        None
    }
}

/// What the arguments of a launcher need on migration.
#[derive(Clone, Copy, Debug, PartialEq, Eq, Structural)]
pub enum ArgsStep {
    /// `colors.all` in the capabilities becomes `colors`.
    Capabilities,
    /// A trailing `&` leaves the command.
    BackgroundExec,
    /// `default_skin_color` is renamed `default_skin_tone`.
    SkinTone,
    /// Nothing changes.
    Keep,
}

/// The argument migration of each launcher kind.
pub open spec fn args_step_spec(kind: Option<LauncherVariant>) -> ArgsStep {
    match kind {
        Some(LauncherVariant::Calculator) => ArgsStep::Capabilities,
        Some(LauncherVariant::Clipboard) => ArgsStep::Capabilities,
        Some(LauncherVariant::Commands) => ArgsStep::BackgroundExec,
        Some(LauncherVariant::Emoji) => ArgsStep::SkinTone,
        _ => ArgsStep::Keep,
    }
}

/// Which argument migration a launcher of the kind `kind` gets.
pub fn args_step(kind: Option<LauncherVariant>) -> (r: ArgsStep)
    ensures
        r == args_step_spec(kind),
{
    match kind {
        Some(LauncherVariant::Calculator) | Some(LauncherVariant::Clipboard) => ArgsStep::Capabilities,
        Some(LauncherVariant::Commands) => ArgsStep::BackgroundExec,
        Some(LauncherVariant::Emoji) => ArgsStep::SkinTone,
        _ => ArgsStep::Keep,
    }
}

/// The line reported when a launcher's arguments changed.
pub open spec fn args_log_spec(name: Seq<char>, step: ArgsStep) -> Seq<char> {
    "["@ + name + "] "@ + match step {
        ArgsStep::Capabilities => "Renamed 'colors.all' to 'colors' in capabilities."@,
        ArgsStep::BackgroundExec => "Removed trailing '&' from command exec."@,
        ArgsStep::SkinTone => "Renamed 'default_skin_color' to 'default_skin_tone'."@,
        ArgsStep::Keep => ""@,
    }
}

/// The line reported when the arguments of the launcher `name` changed by
/// `step`.
pub fn args_log(name: &str, step: ArgsStep) -> (r: String)
    ensures
        r@ == args_log_spec(name@, step),
{
    let mut v = str_chars("[");
    extend_chars(&mut v, &str_chars(name));
    extend_chars(&mut v, &str_chars("] "));
    let text = match step {
        ArgsStep::Capabilities => "Renamed 'colors.all' to 'colors' in capabilities.",
        ArgsStep::BackgroundExec => "Removed trailing '&' from command exec.",
        ArgsStep::SkinTone => "Renamed 'default_skin_color' to 'default_skin_tone'.",
        ArgsStep::Keep => "",
    };
    extend_chars(&mut v, &str_chars(text));
    string_from_chars(v.as_slice())
}

/// What the arguments of a legacy launcher hold that the migration reads.
#[derive(Clone, Debug)]
pub struct LegacyArgs {
    /// The items of `capabilities` when the arguments are an object with a
    /// list there, each item as text or `None` when it is not text.
    pub capabilities: Option<Vec<Option<String>>>,
    /// `exec`, the command, when it is text.
    pub command: Option<String>,
    /// Whether the arguments are an object that holds `default_skin_color`.
    pub has_skin_color: bool,
}

/// How the arguments of a launcher change on migration.
#[derive(Clone, Debug)]
pub enum ArgsEdit {
    /// Nothing changes.
    Keep,
    /// The capability list becomes its items at these indices, then
    /// `colors` when the flag is set.
    Capabilities(Vec<usize>, bool),
    /// `exec` becomes this text.
    Exec(String),
    /// `default_skin_color` is renamed `default_skin_tone`.
    RenameSkinKey,
}

/// Whether the migration `step` changes the arguments `a`.
pub open spec fn args_change(step: ArgsStep, a: LegacyArgs) -> bool {
    match step {
        ArgsStep::Capabilities => a.capabilities matches Some(c) && has_colors_all(c@),
        ArgsStep::BackgroundExec => a.command matches Some(e) && e@.len() > 0 && e@.last() == '&',
        ArgsStep::SkinTone => a.has_skin_color,
        ArgsStep::Keep => false,
    }
}

/// The edit that `step` makes to `a`, as far as equality of the variant and
/// its text says it: the variant that `step` names where it changes
/// anything, `Keep` elsewhere.
pub open spec fn args_edit_fits(step: ArgsStep, a: LegacyArgs, r: ArgsEdit) -> bool {
    &&& r is Keep <==> !args_change(step, a)
    &&& match r {
        ArgsEdit::Keep => true,
        ArgsEdit::Capabilities(kept, add) => step == ArgsStep::Capabilities
            && (a.capabilities matches Some(c) && capability_edit(c@, kept@, add)),
        ArgsEdit::Exec(t) => step == ArgsStep::BackgroundExec
            && (a.command matches Some(e) && t@ == trim_spec(trim_end_ampersands(e@))),
        ArgsEdit::RenameSkinKey => step == ArgsStep::SkinTone,
    }
}

/// The edit that the migration `step` makes to the arguments `a`.
pub fn args_edit(step: ArgsStep, a: &LegacyArgs) -> (r: ArgsEdit)
    ensures
        args_edit_fits(step, *a, r),
{
    match step {
        ArgsStep::Capabilities => match &a.capabilities {
            Some(c) => match migrate_capabilities(c) {
                Some((kept, add)) => ArgsEdit::Capabilities(kept, add),
                None => ArgsEdit::Keep,
            },
            None => ArgsEdit::Keep,
        },
        ArgsStep::BackgroundExec => match &a.command {
            Some(e) => match clean_background_exec(e.as_str()) {
                Some(t) => ArgsEdit::Exec(t),
                None => ArgsEdit::Keep,
            },
            None => ArgsEdit::Keep,
        },
        ArgsStep::SkinTone => if a.has_skin_color {
            ArgsEdit::RenameSkinKey
        } else {
            ArgsEdit::Keep
        },
        ArgsStep::Keep => ArgsEdit::Keep,
    }
}

/// A launcher as a legacy file holds it, with what the migration reads of
/// its arguments.
#[derive(Clone, Debug)]
pub struct LegacyLauncher {
    pub name: Option<String>,
    pub alias: Option<String>,
    pub tag_start: Option<String>,
    pub tag_end: Option<String>,
    pub display_name: Option<String>,
    pub on_return: Option<String>,
    pub next_content: Option<String>,
    pub kind_name: String,
    /// The kind that `kind_name` names when read as a current launcher kind
    /// (as the launcher file format writes one), if it does.
    pub parsed_kind: Option<LauncherVariant>,
    pub exit: bool,
    pub shortcut: bool,
    pub spawn_focus: bool,
    pub is_async: bool,
    pub has_binds: bool,
    pub variables: Option<Vec<LegacyExecVariable>>,
    pub args: LegacyArgs,
}

/// A launcher in the current format: its kind (`None` for a kind that is
/// gone) and the edit its arguments get.
#[derive(Clone, Debug)]
pub struct MigratedLauncher {
    pub name: Option<String>,
    pub alias: Option<String>,
    pub display_name: Option<String>,
    pub on_return: Option<String>,
    pub next_content: Option<String>,
    pub kind: Option<LauncherVariant>,
    pub exit: bool,
    pub shortcut: bool,
    pub spawn_focus: bool,
    pub is_async: bool,
    pub variables: Option<Vec<LegacyExecVariable>>,
    pub args: ArgsEdit,
}

/// A migrated launcher and the lines reported about it.
#[derive(Clone, Debug)]
pub struct MigrationResult {
    pub launcher: MigratedLauncher,
    pub logs: Vec<String>,
}

/// The kind a launcher migrates to: the current kind its type names, if it
/// names one, else the kind of its legacy type name.
pub open spec fn kind_of(parsed: Option<LauncherVariant>, name: Seq<char>) -> Option<LauncherVariant> {
    match parsed {
        Some(k) => Some(k),
        None => legacy_type_spec(name),
    }
}

/// The kind of a launcher whose type name reads as the current kind
/// `parsed` (if it does) or is the legacy name `name`.
pub fn resolve_kind(parsed: Option<LauncherVariant>, name: &str) -> (r: Option<LauncherVariant>)
    ensures
        r == kind_of(parsed, name@),
{
    match parsed {
        Some(k) => Some(k),
        None => migrate_type(name),
    }
}

/// What the migration reports on, read from a legacy launcher.
pub open spec fn legacy_facts(l: LegacyLauncher) -> LegacyLauncherFacts {
    LegacyLauncherFacts {
        name: l.name,
        has_tags: l.tag_start is Some || l.tag_end is Some,
        has_binds: l.has_binds,
        variables: match l.variables {
            Some(v) => Some(v.len()),
            None => None,
        },
    }
}

/// Every line reported for a legacy launcher: dropped tags, dropped key
/// bindings, converted variables, then the change to its arguments.
pub open spec fn migrated_logs_spec(l: LegacyLauncher) -> Seq<Seq<char>> {
    let step = args_step_spec(kind_of(l.parsed_kind, l.kind_name@));
    migration_logs_spec(legacy_facts(l)) + if args_change(step, l.args) {
        seq![args_log_spec(report_name(l.name), step)]
    } else {
        seq![]
    }
}

impl LegacyLauncher {
    /// The launcher kind this launcher migrates to.
    pub fn migrate_type(&self) -> (r: Option<LauncherVariant>)
        ensures
            r == kind_of(self.parsed_kind, self.kind_name@),
    {
        resolve_kind(self.parsed_kind, self.kind_name.as_str())
    }

    /// The launcher in the current format, and the lines reported about it.
    /// The tags are dropped and every other field here is kept; key
    /// bindings are reported as dropped, and stay with the caller as they are.
    pub fn migrate(self) -> (r: MigrationResult)
        ensures
            r.launcher.name == self.name,
            r.launcher.alias == self.alias,
            r.launcher.display_name == self.display_name,
            r.launcher.on_return == self.on_return,
            r.launcher.next_content == self.next_content,
            r.launcher.kind == kind_of(self.parsed_kind, self.kind_name@),
            r.launcher.exit == self.exit,
            r.launcher.shortcut == self.shortcut,
            r.launcher.spawn_focus == self.spawn_focus,
            r.launcher.is_async == self.is_async,
            r.launcher.variables == self.variables,
            args_edit_fits(
                args_step_spec(kind_of(self.parsed_kind, self.kind_name@)),
                self.args,
                r.launcher.args,
            ),
            r.logs@.map_values(|s: String| s@) == migrated_logs_spec(self),
    {
        let kind = self.migrate_type();
        let step = args_step(kind);
        let edit = args_edit(step, &self.args);
        let count = match &self.variables {
            Some(v) => Some(v.len()),
            None => None,
        };
        let facts = LegacyLauncherFacts {
            name: self.name,
            has_tags: self.tag_start.is_some() || self.tag_end.is_some(),
            has_binds: self.has_binds,
            variables: count,
        };
        let mut logs = migration_logs(&facts);
        let ghost before = logs@;
        let changed = match edit {
            ArgsEdit::Keep => false,
            _ => true,
        };
        if changed {
            let line = match &facts.name {
                Some(n) => args_log(n.as_str(), step),
                None => args_log("Unknown", step),
            };
            logs.push(line);
            assert(logs@.map_values(|s: String| s@) =~= before.map_values(|s: String| s@).push(line@));
        }
        let launcher = MigratedLauncher {
            name: facts.name,
            alias: self.alias,
            display_name: self.display_name,
            on_return: self.on_return,
            next_content: self.next_content,
            kind,
            exit: self.exit,
            shortcut: self.shortcut,
            spawn_focus: self.spawn_focus,
            is_async: self.is_async,
            variables: self.variables,
            args: edit,
        };
        MigrationResult { launcher, logs }
    }
}

} // verus!
