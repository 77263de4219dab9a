use vstd::prelude::*;

use crate::config::ConfigBinds;
use crate::defaults::BindDefaults;
use crate::text::{
    chars_eq, chars_to_ascii_lowercase, lower_seq, split_chars, split_on, str_chars,
    string_from_chars,
};

verus! {

/// A key that a binding can name.
#[derive(Clone, Copy, Debug, PartialEq, Eq, Structural)]
pub enum Key {
    Tab,
    Up,
    Down,
    Left,
    Right,
    PageUp,
    PageDown,
    End,
    Home,
    Return,
    /// A letter key, by its lower-case letter.
    Letter(char),
}

/// A modifier that a binding can name.
#[derive(Clone, Copy, Debug, PartialEq, Eq, Structural)]
pub enum Modifier {
    Shift,
    Control,
    Alt,
    Super,
    Lock,
    Hyper,
    Meta,
}

/// The modifier a name stands for; names are matched exactly.
pub open spec fn modifier_spec(name: Seq<char>) -> Option<Modifier> {
    if name == "shift"@ {
        Some(Modifier::Shift)
    } else if name == "control"@ {
        Some(Modifier::Control)
    } else if name == "alt"@ {
        Some(Modifier::Alt)
    } else if name == "super"@ {
        Some(Modifier::Super)
    } else if name == "lock"@ {
        Some(Modifier::Lock)
    } else if name == "hypr"@ {
        Some(Modifier::Hyper)
    } else if name == "meta"@ {
        Some(Modifier::Meta)
    } else {
        None
    }
}

/// Whether `c` is an ASCII letter.
pub open spec fn is_ascii_letter(c: char) -> bool {
    ('a' <= c <= 'z') || ('A' <= c <= 'Z')
}

/// The upper-case form of an ASCII lower-case letter.
pub open spec fn upper_char(c: char) -> char {
    if 'a' <= c <= 'z' {
        ((c as u32) - 32) as char
    } else {
        c
    }
}

/// The key a name stands for (in any case) and the symbol shown for it.
pub open spec fn key_spec(name: Seq<char>) -> (Option<Key>, Option<Seq<char>>) {
    let k = lower_seq(name);
    if k == "tab"@ {
        (Some(Key::Tab), Some("\u{21e5}"@))
    } else if k == "up"@ {
        (Some(Key::Up), Some("\u{2191}"@))
    } else if k == "down"@ {
        (Some(Key::Down), Some("\u{2193}"@))
    } else if k == "left"@ {
        (Some(Key::Left), Some("\u{2190}"@))
    } else if k == "right"@ {
        (Some(Key::Right), Some("\u{2192}"@))
    } else if k == "pgup"@ {
        (Some(Key::PageUp), Some("\u{21de}"@))
    } else if k == "pgdown"@ {
        (Some(Key::PageDown), Some("\u{21df}"@))
    } else if k == "end"@ {
        (Some(Key::End), Some("End"@))
    } else if k == "home"@ {
        (Some(Key::Home), Some("Home"@))
    } else if k == "return"@ {
        (Some(Key::Return), Some("\u{21a9}"@))
    } else if k.len() == 1 && is_ascii_letter(k[0]) {
        (Some(Key::Letter(k[0])), Some(seq![upper_char(k[0])]))
    } else {
        (None, None)
    }
}

/// A binding such as `control-k`: the modifier before the first `-` and the
/// key after it (what follows a second `-` is ignored); without a `-`, the
/// whole is the key.
pub open spec fn bind_spec(bind: Seq<char>) -> (Option<Modifier>, Option<Key>, Option<Seq<char>>) {
    let parts = split_on(bind, '-');
    if parts.len() >= 2 {
        (modifier_spec(parts[0]), key_spec(parts[1]).0, key_spec(parts[1]).1)
    } else {
        (None, key_spec(parts[0]).0, key_spec(parts[0]).1)
    }
}

fn modifier_of(name: &Vec<char>) -> (r: Option<Modifier>)
    ensures
        r == modifier_spec(name@),
{
    if chars_eq(name, &str_chars("shift")) {
        Some(Modifier::Shift)
    } else if chars_eq(name, &str_chars("control")) {
        Some(Modifier::Control)
    } else if chars_eq(name, &str_chars("alt")) {
        Some(Modifier::Alt)
    } else if chars_eq(name, &str_chars("super")) {
        Some(Modifier::Super)
    } else if chars_eq(name, &str_chars("lock")) {
        Some(Modifier::Lock)
    } else if chars_eq(name, &str_chars("hypr")) {
        Some(Modifier::Hyper)
    } else if chars_eq(name, &str_chars("meta")) {
        Some(Modifier::Meta)
    } else {
        None
    }
}

fn key_of(name: &Vec<char>) -> (r: (Option<Key>, Option<String>))
    ensures
        r.0 == key_spec(name@).0,
        match r.1 {
            Some(s) => key_spec(name@).1 == Some(s@),
            None => key_spec(name@).1 is None,
        },
{
    let k = chars_to_ascii_lowercase(name);
    if chars_eq(&k, &str_chars("tab")) {
        (Some(Key::Tab), Some("\u{21e5}".to_owned()))
    } else if chars_eq(&k, &str_chars("up")) {
        (Some(Key::Up), Some("\u{2191}".to_owned()))
    } else if chars_eq(&k, &str_chars("down")) {
        (Some(Key::Down), Some("\u{2193}".to_owned()))
    } else if chars_eq(&k, &str_chars("left")) {
        (Some(Key::Left), Some("\u{2190}".to_owned()))
    } else if chars_eq(&k, &str_chars("right")) {
        (Some(Key::Right), Some("\u{2192}".to_owned()))
    } else if chars_eq(&k, &str_chars("pgup")) {
        (Some(Key::PageUp), Some("\u{21de}".to_owned()))
    } else if chars_eq(&k, &str_chars("pgdown")) {
        (Some(Key::PageDown), Some("\u{21df}".to_owned()))
    } else if chars_eq(&k, &str_chars("end")) {
        (Some(Key::End), Some("End".to_owned()))
    } else if chars_eq(&k, &str_chars("home")) {
        (Some(Key::Home), Some("Home".to_owned()))
    } else if chars_eq(&k, &str_chars("return")) {
        (Some(Key::Return), Some("\u{21a9}".to_owned()))
    } else if k.len() == 1 && (('a' <= k[0] && k[0] <= 'z') || ('A' <= k[0] && k[0] <= 'Z')) {
        let c = k[0];
        let u = if 'a' <= c && c <= 'z' {
            ((c as u8) - 32) as char
        } else {
            c
        };
        let v = vec![u];
        assert(v@ =~= seq![upper_char(c)]);
        (Some(Key::Letter(c)), Some(string_from_chars(v.as_slice())))
    } else {
        (None, None)
    }
}

/// Reads a binding.
pub fn parse_bind(bind: &str) -> (r: (Option<Modifier>, Option<Key>, Option<String>))
    ensures
        r.0 == bind_spec(bind@).0,
        r.1 == bind_spec(bind@).1,
        match r.2 {
            Some(s) => bind_spec(bind@).2 == Some(s@),
            None => bind_spec(bind@).2 is None,
        },
{
    let v = str_chars(bind);
    let parts = split_chars(&v, '-');
    let ghost ps = parts@.map_values(|p: Vec<char>| p@);
    assert(ps == split_on(bind@, '-'));
    proof {
        crate::text::lemma_split_on_len(bind@, '-');
    }
    if parts.len() >= 2 {
        let m = modifier_of(&parts[0]);
        let (k, s) = key_of(&parts[1]);
        (m, k, s)
    } else {
        let (k, s) = key_of(&parts[0]);
        (None, k, s)
    }
}

/// A binding that may be missing.
pub open spec fn opt_bind_spec(bind: Option<String>) -> (Option<Modifier>, Option<Key>, Option<Seq<char>>) {
    match bind {
        Some(b) => bind_spec(b@),
        None => (None, None, None),
    }
}

/// The symbol shown for a modifier: from the eight symbols configured when
/// there are eight, else from the four default ones, and `modkey` when the
/// list has none for it.
pub open spec fn modifier_symbol(m: Option<Modifier>, custom: Seq<Seq<char>>) -> Seq<char> {
    let symbols = if custom.len() == 8 {
        custom
    } else {
        seq![seq!['\u{2318}'], seq!['^'], seq!['\u{2387}'], seq!['\u{21e7}']]
    };
    let k: int = match m {
        Some(Modifier::Shift) => 0,
        Some(Modifier::Lock) => 1,
        Some(Modifier::Control) => 2,
        Some(Modifier::Meta) => 3,
        Some(Modifier::Alt) => 4,
        Some(Modifier::Super) => 5,
        Some(Modifier::Hyper) => 6,
        None => 7,
    };
    if k < symbols.len() {
        symbols[k]
    } else {
        "modkey"@
    }
}

/// Gives the symbol shown for a modifier.
pub fn mod_str(m: Option<Modifier>, custom: &Vec<String>) -> (r: String)
    ensures
        r@ == modifier_symbol(m, custom@.map_values(|s: String| s@)),
{
    let k: usize = match m {
        Some(Modifier::Shift) => 0,
        Some(Modifier::Lock) => 1,
        Some(Modifier::Control) => 2,
        Some(Modifier::Meta) => 3,
        Some(Modifier::Alt) => 4,
        Some(Modifier::Super) => 5,
        Some(Modifier::Hyper) => 6,
        None => 7,
    };
    if custom.len() == 8 {
        return custom[k].clone();
    }
    let defaults = BindDefaults::modkey_ascii();
    if k < 4 {
        let v = vec![defaults[k]];
        proof {
            assert(v@ =~= seq![defaults@[k as int]]);
        }
        string_from_chars(v.as_slice())
    } else {
        "modkey".to_owned()
    }
}

/// The key bindings in effect, read from the configuration.
#[derive(Clone, Debug)]
pub struct ConfKeys {
    pub up: Option<Key>,
    pub up_mod: Option<Modifier>,
    pub down: Option<Key>,
    pub down_mod: Option<Modifier>,
    pub right: Option<Key>,
    pub right_mod: Option<Modifier>,
    pub left: Option<Key>,
    pub left_mod: Option<Modifier>,
    pub exec_inplace: Option<Key>,
    pub exec_inplace_mod: Option<Modifier>,
    pub context: Option<Key>,
    pub context_mod: Option<Modifier>,
    pub context_str: Option<String>,
    pub context_mod_str: String,
    pub shortcut_modifier: Option<Modifier>,
    pub shortcut_modifier_str: String,
}

fn read_bind(bind: &Option<String>) -> (r: (Option<Modifier>, Option<Key>, Option<String>))
    ensures
        r.0 == opt_bind_spec(*bind).0,
        r.1 == opt_bind_spec(*bind).1,
        match r.2 {
            Some(s) => opt_bind_spec(*bind).2 == Some(s@),
            None => opt_bind_spec(*bind).2 is None,
        },
{
    match bind {
        Some(b) => parse_bind(b.as_str()),
        None => (None, None, None),
    }
}

impl ConfKeys {
    /// Reads the bindings of the configuration; `mod_key_ascii` is the list
    /// of modifier symbols configured.
    pub fn new(binds: &ConfigBinds, mod_key_ascii: &Vec<String>) -> (r: Self)
        ensures
            r.up_mod == opt_bind_spec(binds.up).0 && r.up == opt_bind_spec(binds.up).1,
            r.down_mod == opt_bind_spec(binds.down).0 && r.down == opt_bind_spec(binds.down).1,
            r.left_mod == opt_bind_spec(binds.left).0 && r.left == opt_bind_spec(binds.left).1,
            r.right_mod == opt_bind_spec(binds.right).0 && r.right == opt_bind_spec(binds.right).1,
            r.exec_inplace_mod == opt_bind_spec(binds.exec_inplace).0,
            r.exec_inplace == opt_bind_spec(binds.exec_inplace).1,
            r.context_mod == opt_bind_spec(binds.context).0,
            r.context == opt_bind_spec(binds.context).1,
            match r.context_str {
                Some(s) => opt_bind_spec(binds.context).2 == Some(s@),
                None => opt_bind_spec(binds.context).2 is None,
            },
            r.shortcut_modifier == match binds.modifier {
                Some(m) => modifier_spec(m@),
                None => Some(Modifier::Control),
            },
            r.shortcut_modifier_str@ == modifier_symbol(
                r.shortcut_modifier,
                mod_key_ascii@.map_values(|s: String| s@),
            ),
            r.context_mod_str@ == modifier_symbol(
                r.context_mod,
                mod_key_ascii@.map_values(|s: String| s@),
            ),
    {
        let (up_mod, up, _) = read_bind(&binds.up);
        let (down_mod, down, _) = read_bind(&binds.down);
        let (left_mod, left, _) = read_bind(&binds.left);
        let (right_mod, right, _) = read_bind(&binds.right);
        let (exec_inplace_mod, exec_inplace, _) = read_bind(&binds.exec_inplace);
        let (context_mod, context, context_str) = read_bind(&binds.context);
        let shortcut_modifier = match &binds.modifier {
            Some(m) => modifier_of(&str_chars(m.as_str())),
            None => Some(Modifier::Control),
        };
        let shortcut_modifier_str = mod_str(shortcut_modifier, mod_key_ascii);
        let context_mod_str = mod_str(context_mod, mod_key_ascii);
        ConfKeys {
            up,
            up_mod,
            down,
            down_mod,
            right,
            right_mod,
            left,
            left_mod,
            exec_inplace,
            exec_inplace_mod,
            context,
            context_mod,
            context_str,
            context_mod_str,
            shortcut_modifier,
            shortcut_modifier_str,
        }
    }

    /// No bindings at all.
    pub fn empty() -> (r: Self)
        ensures
            r.up is None && r.up_mod is None && r.down is None && r.down_mod is None,
            r.right is None && r.right_mod is None && r.left is None && r.left_mod is None,
            r.exec_inplace is None && r.exec_inplace_mod is None,
            r.context is None && r.context_mod is None && r.context_str is None,
            r.context_mod_str@.len() == 0,
            r.shortcut_modifier is None && r.shortcut_modifier_str@.len() == 0,
    {
        ConfKeys {
            up: None,
            up_mod: None,
            down: None,
            down_mod: None,
            right: None,
            right_mod: None,
            left: None,
            left_mod: None,
            exec_inplace: None,
            exec_inplace_mod: None,
            context: None,
            context_mod: None,
            context_str: None,
            context_mod_str: String::new(),
            shortcut_modifier: None,
            shortcut_modifier_str: String::new(),
        }
    }
}

/// The name a binding writes for each modifier.
pub open spec fn modifier_name(m: Modifier) -> Seq<char> {
    match m {
        Modifier::Shift => "shift"@,
        Modifier::Control => "control"@,
        Modifier::Alt => "alt"@,
        Modifier::Super => "super"@,
        Modifier::Lock => "lock"@,
        Modifier::Hyper => "hypr"@,
        Modifier::Meta => "meta"@,
    }
}

/// Cutting `s` followed by text without `c` extends the last piece of `s`.
proof fn lemma_split_on_extend(s: Seq<char>, b: Seq<char>, c: char)
    requires
        forall|i: int| 0 <= i < b.len() ==> b[i] != c,
    ensures
        split_on(s + b, c) == split_on(s, c).update(
            split_on(s, c).len() - 1,
            split_on(s, c).last() + b,
        ),
        split_on(s + b, c).len() == split_on(s, c).len(),
    decreases b.len(),
{
    crate::text::lemma_split_on_len(s, c);
    if b.len() == 0 {
        assert(s + b == s);
        assert(split_on(s, c).last() + b == split_on(s, c).last());
        assert(split_on(s, c).update(split_on(s, c).len() - 1, split_on(s, c).last()) =~= split_on(s, c));
    } else {
        let b0 = b.drop_last();
        lemma_split_on_extend(s, b0, c);
        assert((s + b).drop_last() == s + b0);
        assert((s + b).last() == b.last());
        let r = split_on(s, c);
        let r0 = split_on(s + b0, c);
        assert(r0.last() == r.last() + b0);
        assert(r.last() + b0 + seq![b.last()] == r.last() + b) by {
            assert(b0.push(b.last()) == b);
        }
        assert(split_on(s + b, c) =~= r.update(r.len() - 1, r.last() + b));
    }
}

/// Text with one `c` in it, between `a` and `b` that hold none, is cut into
/// `a` and `b`.
proof fn lemma_split_on_pair(a: Seq<char>, b: Seq<char>, c: char)
    requires
        forall|i: int| 0 <= i < a.len() ==> a[i] != c,
        forall|i: int| 0 <= i < b.len() ==> b[i] != c,
    ensures
        split_on(a + seq![c] + b, c) == seq![a, b],
{
    let e = Seq::<char>::empty();
    lemma_split_on_extend(e, a, c);
    assert(e + a == a);
    assert(split_on(e, c) == seq![e]);
    assert(split_on(a, c) =~= seq![a]);
    let ac = a + seq![c];
    assert(ac.drop_last() == a);
    assert(split_on(ac, c) =~= seq![a, e]);
    lemma_split_on_extend(ac, b, c);
    assert(e + b == b);
    assert(split_on(ac + b, c) =~= seq![a, b]);
}

/// Each modifier is read from its own name and from no other, so a binding
/// that starts with a modifier's name and a `-` has that modifier, and the
/// key after the `-`.
pub proof fn lemma_modifier_names(m: Modifier, k: Seq<char>)
    requires
        forall|i: int| 0 <= i < k.len() ==> k[i] != '-',
    ensures
        modifier_spec(modifier_name(m)) == Some(m),
        forall|n: Seq<char>| modifier_spec(n) == Some(m) ==> n == modifier_name(m),
        bind_spec(modifier_name(m) + seq!['-'] + k) == (Some(m), key_spec(k).0, key_spec(k).1),
{
    reveal_strlit("shift");
    reveal_strlit("control");
    reveal_strlit("alt");
    reveal_strlit("super");
    reveal_strlit("lock");
    reveal_strlit("hypr");
    reveal_strlit("meta");
    let n = modifier_name(m);
    // the names differ in length or in their first or second character
    assert("shift"@[1] == 'h' && "super"@[1] == 'u');
    assert("lock"@[0] == 'l' && "hypr"@[0] == 'h' && "meta"@[0] == 'm');
    assert("shift"@ != "super"@);
    assert("lock"@ != "hypr"@ && "lock"@ != "meta"@ && "hypr"@ != "meta"@);
    assert(forall|i: int| 0 <= i < n.len() ==> n[i] != '-');
    lemma_split_on_pair(n, k, '-');
}

} // verus!
