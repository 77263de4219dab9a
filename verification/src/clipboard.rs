use vstd::prelude::*;

use std::collections::HashMap;


use crate::number::{parse_unsigned, parse_unsigned_chars};
use crate::text::{
    split_on,
    chars_eq, extend_chars, replace_chars, replace_spec, str_chars, string_from_chars,
    trim_bounds, trim_spec, utf8_len, utf8_len_at_most,
};

verus! {

// ---- Text of the clipboard ----------------------------------------------

/// Whether a MIME type names text that the clipboard can take.
pub open spec fn is_text_mime(m: Seq<char>) -> bool {
    m == "text/plain;charset=utf-8"@ || m == "UTF8_STRING"@ || m == "text/plain"@ || (m.len()
        >= 5 && m.take(5) == "text/"@)
}

/// The first MIME type of `mimes` that names text.
pub open spec fn first_text_mime(mimes: Seq<Seq<char>>) -> Option<int>
    decreases mimes.len(),
{
    if mimes.len() == 0 {
        None
    } else {
        match first_text_mime(mimes.drop_last()) {
            Some(i) => Some(i),
            None => if is_text_mime(mimes.last()) {
                Some(mimes.len() - 1)
            } else {
                None
            },
        }
    }
}

fn starts_with_chars(s: &Vec<char>, p: &Vec<char>) -> (r: bool)
    ensures
        r == (s@.len() >= p@.len() && s@.take(p@.len() as int) == p@),
{
    if s.len() < p.len() {
        return false;
    }
    let mut i: usize = 0;
    while i < p.len()
        invariant
            p@.len() <= s@.len(),
            i <= p@.len(),
            forall|j: int| 0 <= j < i ==> s@[j] == p@[j],
        decreases p.len() - i,
    {
        if s[i] != p[i] {
            assert(s@.take(p@.len() as int)[i as int] != p@[i as int]);
            return false;
        }
        i += 1;
    }
    assert(s@.take(p@.len() as int) == p@);
    true
}

fn text_mime(m: &str) -> (r: bool)
    ensures
        r == is_text_mime(m@),
{
    let v = str_chars(m);
    proof {
        reveal_strlit("text/");
    }
    chars_eq(&v, &str_chars("text/plain;charset=utf-8")) || chars_eq(&v, &str_chars("UTF8_STRING"))
        || chars_eq(&v, &str_chars("text/plain")) || starts_with_chars(&v, &str_chars("text/"))
}

/// The views of a list of strings.
pub open spec fn views(v: Seq<String>) -> Seq<Seq<char>> {
    v.map_values(|s: String| s@)
}

/// Picks the MIME type to read the clipboard in: the first that names text.
pub fn pick_text_mime(mimes: &Vec<String>) -> (r: Option<usize>)
    ensures
        match r {
            Some(i) => first_text_mime(views(mimes@)) == Some(i as int) && i < mimes@.len(),
            None => first_text_mime(views(mimes@)) is None,
        },
{
    let mut i: usize = 0;
    while i < mimes.len()
        invariant
            i <= mimes@.len(),
            first_text_mime(views(mimes@.take(i as int))) is None,
        decreases mimes.len() - i,
    {
        assert(views(mimes@.take(i + 1)).drop_last() == views(mimes@.take(i as int)));
        if text_mime(mimes[i].as_str()) {
            proof {
                lemma_first_text_mime_prefix(views(mimes@), i as int + 1);
                assert(views(mimes@.take(i + 1)) == views(mimes@).take(i + 1));
            }
            return Some(i);
        }
        i += 1;
    }
    assert(mimes@.take(mimes@.len() as int) == mimes@);
    None
}

/// The first text MIME type of a list is that of any prefix holding one.
proof fn lemma_first_text_mime_prefix(m: Seq<Seq<char>>, k: int)
    requires
        0 <= k <= m.len(),
        first_text_mime(m.take(k)) is Some,
    ensures
        first_text_mime(m) == first_text_mime(m.take(k)),
    decreases m.len(),
{
    if k < m.len() {
        assert(m.drop_last().take(k) == m.take(k));
        lemma_first_text_mime_prefix(m.drop_last(), k);
    } else {
        assert(m.take(k) == m);
    }
}

/// Clipboard text with Windows line ends turned into `\n`.
pub fn normalize_newlines(text: &str) -> (r: String)
    ensures
        r@ == replace_spec(text@, "\r\n"@, "\n"@),
{
    let t = str_chars(text);
    let from = str_chars("\r\n");
    let to = str_chars("\n");
    proof {
        reveal_strlit("\r\n");
    }
    let v = replace_chars(&t, &from, &to);
    string_from_chars(v.as_slice())
}

/// What the clipboard watcher hears from the compositor; offers are known by
/// their protocol ids.
#[derive(Debug)]
pub enum ClipboardEvent {
    /// A new offer was announced.
    DataOffer(u32),
    /// An offer names one more MIME type it can give.
    Offer { id: u32, mime: String },
    /// The selection changed to an offer, or was cleared.
    Selection(Option<u32>),
}

/// What the watcher is to do after an event.
#[derive(Debug)]
pub enum ClipboardAction {
    Nothing,
    /// The clipboard is empty now.
    Clear,
    /// Read the offer `id` in the MIME type `mime`.
    Receive { id: u32, mime: String },
}

/// The MIME types of the offers announced and not yet dropped.
pub struct ClipboardOffers {
    pub offers: HashMap<u32, Vec<String>>,
}

impl ClipboardOffers {
    pub fn new() -> (r: Self)
        ensures
            r.offers@ == Map::<u32, Vec<String>>::empty(),
    {
        ClipboardOffers { offers: HashMap::new() }
    }

    /// Handles one event: offers are recorded with their MIME types; when the
    /// selection moves to an offer, its first text MIME type is read, and
    /// every other offer is dropped.
    pub fn on_event(&mut self, event: ClipboardEvent) -> (r: ClipboardAction)
        ensures
            ({
                let o = old(self).offers@;
                let f = final(self).offers@;
                match event {
                    ClipboardEvent::DataOffer(id) => {
                        &&& r is Nothing
                        &&& f.dom() == o.dom().insert(id)
                        &&& f[id]@.len() == 0
                        &&& forall|k: u32| k != id && #[trigger] o.contains_key(k) ==> f[k] == o[k]
                    },
                    ClipboardEvent::Offer { id, mime } => {
                        &&& r is Nothing
                        &&& f.dom() == o.dom().insert(id)
                        &&& forall|k: u32| k != id && #[trigger] o.contains_key(k) ==> f[k] == o[k]
                        &&& f[id]@ == (if o.contains_key(id) {
                            o[id]@
                        } else {
                            Seq::<String>::empty()
                        }).push(mime)
                    },
                    ClipboardEvent::Selection(None) => r is Clear && f == o,
                    ClipboardEvent::Selection(Some(id)) => {
                        let mimes = if o.contains_key(id) {
                            o[id]@
                        } else {
                            Seq::<String>::empty()
                        };
                        &&& f.dom() == (if o.contains_key(id) {
                            set![id]
                        } else {
                            Set::<u32>::empty()
                        })
                        &&& o.contains_key(id) ==> f[id] == o[id]
                        &&& match first_text_mime(views(mimes)) {
                            Some(i) => r matches ClipboardAction::Receive { id: rid, mime }
                                && rid == id && mime@ == mimes[i]@,
                            None => r is Nothing,
                        }
                    },
                }
            }),
    {
        match event {
            ClipboardEvent::DataOffer(id) => {
                self.offers.insert(id, Vec::new());
                ClipboardAction::Nothing
            },
            ClipboardEvent::Offer { id, mime } => {
                let mut list = match self.offers.remove(&id) {
                    Some(l) => l,
                    None => Vec::new(),
                };
                list.push(mime);
                self.offers.insert(id, list);
                ClipboardAction::Nothing
            },
            ClipboardEvent::Selection(None) => ClipboardAction::Clear,
            ClipboardEvent::Selection(Some(id)) => {
                let kept = self.offers.remove(&id);
                let mut rest: HashMap<u32, Vec<String>> = HashMap::new();
                let action = match kept {
                    Some(list) => {
                        let action = match pick_text_mime(&list) {
                            Some(i) => {
                                let mime = list[i].clone();
                                ClipboardAction::Receive { id, mime }
                            },
                            None => ClipboardAction::Nothing,
                        };
                        rest.insert(id, list);
                        action
                    },
                    None => {
                        let empty: Vec<String> = Vec::new();
                        proof {
                            assert(views(empty@) =~= Seq::<Seq<char>>::empty());
                        }
                        ClipboardAction::Nothing
                    },
                };
                proof {
                    assert(rest@.dom() =~= (if old(self).offers@.contains_key(id) {
                        set![id]
                    } else {
                        Set::<u32>::empty()
                    }));
                }
                self.offers = rest;
                action
            },
        }
    }
}

// ---- The tile shown for the clipboard ------------------------------------

/// Names what `regex::Regex::captures` gives for the expression `pattern`
/// (compiled with `Regex::new`) on `text`: `None` when the pattern does not
/// compile or does not match, else the text of each group in order (group 0
/// is the whole match), `None` for a group that took no part.
pub uninterp spec fn regex_captures_of(pattern: Seq<char>, text: Seq<char>) -> Option<
    Seq<Option<Seq<char>>>,
>;

/// The views of captured groups.
pub open spec fn group_views(v: Seq<Option<String>>) -> Seq<Option<Seq<char>>> {
    v.map_values(
        |g: Option<String>|
            match g {
                Some(s) => Some(s@),
                None => None,
            },
    )
}

/// Compiles `pattern` with `regex::Regex::new` and runs `Regex::captures` on
/// `text`, giving each group's text. Claimed: the result is
/// `regex_captures_of` of the two strings; nothing is claimed of what that is.
#[verifier::external_body]
fn regex_captures(pattern: &str, text: &str) -> (r: Option<Vec<Option<String>>>)
    ensures
        match r {
            Some(v) => regex_captures_of(pattern@, text@) == Some(group_views(v@)),
            None => regex_captures_of(pattern@, text@) is None,
        },
{
    let re = regex::Regex::new(pattern).ok()?;
    let caps = re.captures(text)?;
    Some(caps.iter().map(|m| m.map(|m| m.as_str().to_string())).collect())
}

/// The expression a link is recognised by; its third group is the domain.
pub open spec fn url_pattern() -> Seq<char> {
    "^(https?:\\/\\/)?(www\\.)?([\\da-z\\.-]+)\\.([a-z]{2,6})([\\/\\w\\.-]*)*\\/?$"@
}

/// The expression a colour is recognised by: `rgb` channels in the second
/// group, `hsl` ones in the third, hexadecimal digits in the fourth.
pub open spec fn color_pattern() -> Seq<char> {
    "^(rgb|hsl)*\\(?(\\d{1,3}\\s*,\\s*\\d{1,3}\\s*,\\s*\\d{1,3})\\)?|\\(?(\\s*\\d{1,3}\\s*,\\s*\\d{1,3}%\\s*,\\s*\\d{1,3}\\s*%\\w*)\\)?|^#([a-fA-F0-9]{6,8})$"@
}

/// The capabilities used when a launcher names none.
pub open spec fn default_clipboard_caps() -> Seq<Seq<char>> {
    seq!["url"@, "calc.math"@, "calc.units"@, "colors.all"@]
}

/// Some capability starts with `p`.
pub open spec fn any_starts_with(caps: Seq<Seq<char>>, p: Seq<char>) -> bool {
    exists|i: int| 0 <= i < caps.len() && caps[i].len() >= p.len() && #[trigger] caps[i].take(
        p.len() as int,
    ) == p
}

/// The icon of a link by its domain.
pub open spec fn link_icon(domain: Seq<char>) -> Seq<char> {
    if domain == "google"@ {
        "google"@
    } else if domain == "chatgpt"@ {
        "chat-gpt"@
    } else if domain == "youtube"@ {
        "sherlock-youtube"@
    } else {
        "sherlock-link"@
    }
}

/// The pieces that read as a byte (0 to 255) once trimmed, in order.
pub open spec fn byte_values(pieces: Seq<Seq<char>>) -> Seq<nat>
    decreases pieces.len(),
{
    if pieces.len() == 0 {
        seq![]
    } else {
        let r = byte_values(pieces.drop_last());
        match parse_unsigned(trim_spec(pieces.last()), 10, 255) {
            Some(v) => r.push(v),
            None => r,
        }
    }
}

/// The colour written as three comma-separated channels; black unless
/// exactly three pieces read as bytes.
pub open spec fn rgb_from_channels_spec(s: Seq<char>) -> (nat, nat, nat) {
    let v = byte_values(split_on(s, ','));
    if v.len() == 3 {
        (v[0], v[1], v[2])
    } else {
        (0, 0, 0)
    }
}

/// The colour written as six hexadecimal digits (more may follow); black
/// unless the first six characters are three hexadecimal bytes.
pub open spec fn rgb_from_hex_spec(s: Seq<char>) -> (nat, nat, nat) {
    if s.len() >= 6 {
        match (
            parse_unsigned(s.subrange(0, 2), 16, 255),
            parse_unsigned(s.subrange(2, 4), 16, 255),
            parse_unsigned(s.subrange(4, 6), 16, 255),
        ) {
            (Some(r), Some(g), Some(b)) => (r, g, b),
            _ => (0, 0, 0),
        }
    } else {
        (0, 0, 0)
    }
}

/// A colour as its red, green and blue bytes.
pub fn rgb_from_channels(s: &str) -> (r: (u8, u8, u8))
    ensures
        (r.0 as nat, r.1 as nat, r.2 as nat) == rgb_from_channels_spec(s@),
{
    let v = str_chars(s);
    let mut values: Vec<u8> = Vec::new();
    let mut lo: usize = 0;
    let mut i: usize = 0;
    let ghost mut done: Seq<Seq<char>> = seq![];
    proof {
        assert(v@.take(0) =~= Seq::<char>::empty());
        assert(done.push(v@.subrange(0, 0)) =~= seq![Seq::<char>::empty()]);
    }
    while i < v.len()
        invariant
            lo <= i <= v@.len(),
            forall|j: int| lo <= j < i ==> v@[j] != ',',
            split_on(v@.take(i as int), ',') == done.push(v@.subrange(lo as int, i as int)),
            values@.map_values(|b: u8| b as nat) == byte_values(done),
        decreases v.len() - i,
    {
        proof {
            assert(v@.take(i + 1).drop_last() == v@.take(i as int));
        }
        if v[i] == ',' {
            let (b, e) = trim_bounds(&v, lo, i);
            let p = parse_unsigned_chars(&v, b, e, 10, 255);
            proof {
                let piece = v@.subrange(lo as int, i as int);
                assert(done.push(piece).drop_last() == done);
                assert(done.push(piece).last() == piece);
            }
            match p {
                Some(x) => {
                    values.push(x as u8);
                },
                None => {},
            }
            proof {
                let piece = v@.subrange(lo as int, i as int);
                assert(byte_values(done.push(piece)) == values@.map_values(|b: u8| b as nat));
                done = done.push(piece);
                assert(v@.subrange(i + 1, i + 1) =~= Seq::<char>::empty());
            }
            lo = i + 1;
        } else {
            proof {
                assert(v@.subrange(lo as int, i as int).push(v@[i as int]) == v@.subrange(
                    lo as int,
                    i + 1,
                ));
            }
        }
        i += 1;
    }
    let (b, e) = trim_bounds(&v, lo, v.len());
    let p = parse_unsigned_chars(&v, b, e, 10, 255);
    proof {
        let piece = v@.subrange(lo as int, v@.len() as int);
        assert(done.push(piece).drop_last() == done);
        assert(v@.take(v@.len() as int) == v@);
    }
    match p {
        Some(x) => {
            values.push(x as u8);
        },
        None => {},
    }
    proof {
        let piece = v@.subrange(lo as int, v@.len() as int);
        assert(byte_values(done.push(piece)) == values@.map_values(|b: u8| b as nat));
    }
    if values.len() == 3 {
        (values[0], values[1], values[2])
    } else {
        (0, 0, 0)
    }
}

/// A colour from hexadecimal digits.
pub fn rgb_from_hex(s: &str) -> (r: (u8, u8, u8))
    ensures
        (r.0 as nat, r.1 as nat, r.2 as nat) == rgb_from_hex_spec(s@),
{
    let v = str_chars(s);
    if v.len() < 6 {
        return (0, 0, 0);
    }
    let r = parse_unsigned_chars(&v, 0, 2, 16, 255);
    let g = parse_unsigned_chars(&v, 2, 4, 16, 255);
    let b = parse_unsigned_chars(&v, 4, 6, 16, 255);
    match (r, g, b) {
        (Some(r), Some(g), Some(b)) => (r as u8, g as u8, b as u8),
        _ => (0, 0, 0),
    }
}

/// What the clipboard shows as, in terms of the texts matched.
pub enum TileChoice {
    /// A link to the domain, titled with the trimmed content.
    Link { domain: Seq<char> },
    /// A colour given by `rgb` channels.
    Rgb { channels: Seq<char> },
    /// A colour given by `hsl` channels.
    Hsl { channels: Seq<char> },
    /// A colour given by hexadecimal digits.
    Hex { digits: Seq<char> },
    /// Whatever the calculator makes of the content.
    Calculator,
    Nothing,
}

/// The capabilities in effect.
pub open spec fn caps_in_effect(caps: Option<Vec<String>>) -> Seq<Seq<char>> {
    match caps {
        Some(v) => views(v@),
        None => default_clipboard_caps(),
    }
}

/// Group `i` of a match, if it took part.
pub open spec fn group(g: Option<Seq<Option<Seq<char>>>>, i: int) -> Option<Seq<char>> {
    match g {
        Some(groups) => if 0 <= i < groups.len() {
            groups[i]
        } else {
            None
        },
        None => None,
    }
}

/// The view of an optional list of captured groups.
pub open spec fn captures_view(g: Option<Vec<Option<String>>>) -> Option<Seq<Option<Seq<char>>>> {
    match g {
        Some(v) => Some(group_views(v@)),
        None => None,
    }
}

/// What the clipboard content shows as, given what the link expression
/// (`url`) and the colour expression (`color`) captured in it: a link when
/// links are allowed and the link matched; else, when colours are allowed
/// and the content is at most 20 bytes, a colour in the first allowed
/// notation whose group matched; else the calculator when it is allowed.
/// The captures are only looked at where that capability is on.
pub open spec fn choice_from_captures(
    content: Seq<char>,
    caps: Seq<Seq<char>>,
    url: Option<Seq<Option<Seq<char>>>>,
    color: Option<Seq<Option<Seq<char>>>>,
) -> TileChoice {
    let colors_on = any_starts_with(caps, "colors."@) && utf8_len(content) <= 20;
    let all = caps.contains("colors.all"@);
    if content.len() == 0 {
        TileChoice::Nothing
    } else if caps.contains("url"@) && group(url, 3) is Some {
        TileChoice::Link { domain: group(url, 3)->0 }
    } else if colors_on && (all || caps.contains("colors.rgb"@)) && group(color, 2) is Some {
        TileChoice::Rgb { channels: group(color, 2)->0 }
    } else if colors_on && (all || caps.contains("colors.hsl"@)) && group(color, 3) is Some {
        TileChoice::Hsl { channels: group(color, 3)->0 }
    } else if colors_on && (all || caps.contains("colors.hex"@)) && group(color, 4) is Some {
        TileChoice::Hex { digits: group(color, 4)->0 }
    } else if any_starts_with(caps, "calc."@) {
        TileChoice::Calculator
    } else {
        TileChoice::Nothing
    }
}

/// What the clipboard content shows as, the expressions run on it.
pub open spec fn clipboard_choice(content: Seq<char>, caps: Seq<Seq<char>>) -> TileChoice {
    choice_from_captures(
        content,
        caps,
        regex_captures_of(url_pattern(), content),
        regex_captures_of(color_pattern(), content),
    )
}

/// The tile shown for the clipboard.
#[derive(Debug)]
pub enum ClipboardTile {
    Link { icon: String, title: String },
    /// An `rgb` or hexadecimal colour, as red, green and blue bytes.
    Color { color: (u8, u8, u8), label: String },
    /// An `hsl` colour, by the text of its channels.
    Hsl { channels: String, label: String },
    /// The calculator is to be asked about the content.
    Calculator,
    Nothing,
}

/// `r` is the tile for the choice `c` made on `content`.
pub open spec fn tile_for(c: TileChoice, content: Seq<char>, r: ClipboardTile) -> bool {
    match c {
        TileChoice::Link { domain } => r matches ClipboardTile::Link { icon, title } && icon@
            == link_icon(domain) && title@ == trim_spec(content),
        TileChoice::Rgb { channels } => r matches ClipboardTile::Color { color, label } && (
        color.0 as nat, color.1 as nat, color.2 as nat) == rgb_from_channels_spec(channels)
            && label@ == "rbg("@ + trim_spec(channels) + ")"@,
        TileChoice::Hsl { channels } => r matches ClipboardTile::Hsl { channels: text, label }
            && text@ == channels && label@ == "hls("@ + trim_spec(channels) + ")"@,
        TileChoice::Hex { digits } => r matches ClipboardTile::Color { color, label } && (
        color.0 as nat, color.1 as nat, color.2 as nat) == rgb_from_hex_spec(digits) && label@
            == "#"@ + trim_spec(digits),
        TileChoice::Calculator => r is Calculator,
        TileChoice::Nothing => r is Nothing,
    }
}

fn contains_str(caps: &Vec<String>, c: &str) -> (r: bool)
    ensures
        r == views(caps@).contains(c@),
{
    let target = str_chars(c);
    let mut i: usize = 0;
    while i < caps.len()
        invariant
            i <= caps@.len(),
            target@ == c@,
            forall|j: int| 0 <= j < i ==> caps@[j]@ != c@,
        decreases caps.len() - i,
    {
        let v = str_chars(caps[i].as_str());
        if chars_eq(&v, &target) {
            assert(views(caps@)[i as int] == c@);
            return true;
        }
        i += 1;
    }
    proof {
        if views(caps@).contains(c@) {
            let j = choose|j: int| 0 <= j < views(caps@).len() && views(caps@)[j] == c@;
            assert(caps@[j]@ == c@);
        }
    }
    false
}

fn any_prefixed(caps: &Vec<String>, p: &str) -> (r: bool)
    ensures
        r == any_starts_with(views(caps@), p@),
{
    let target = str_chars(p);
    let mut i: usize = 0;
    while i < caps.len()
        invariant
            i <= caps@.len(),
            target@ == p@,
            forall|j: int|
                0 <= j < i ==> !(caps@[j]@.len() >= p@.len() && #[trigger] caps@[j]@.take(
                    p@.len() as int,
                ) == p@),
        decreases caps.len() - i,
    {
        let v = str_chars(caps[i].as_str());
        if starts_with_chars(&v, &target) {
            assert(views(caps@)[i as int] == caps@[i as int]@);
            return true;
        }
        i += 1;
    }
    proof {
        if any_starts_with(views(caps@), p@) {
            let j = choose|j: int|
                0 <= j < views(caps@).len() && views(caps@)[j].len() >= p@.len() && #[trigger] views(
                    caps@,
                )[j].take(p@.len() as int) == p@;
            assert(views(caps@)[j] == caps@[j]@);
        }
    }
    false
}

/// The capabilities of a clipboard launcher that names none.
pub fn default_capabilities() -> (r: Vec<String>)
    ensures
        views(r@) == default_clipboard_caps(),
{
    let r = vec![
        "url".to_owned(),
        "calc.math".to_owned(),
        "calc.units".to_owned(),
        "colors.all".to_owned(),
    ];
    assert(views(r@) =~= default_clipboard_caps());
    r
}

fn trimmed(s: &str) -> (r: String)
    ensures
        r@ == trim_spec(s@),
{
    let v = str_chars(s);
    let (b, e) = trim_bounds(&v, 0, v.len());
    assert(v@.subrange(0, v@.len() as int) == v@);
    let mut out: Vec<char> = Vec::new();
    let mut i = b;
    while i < e
        invariant
            b <= i <= e <= v@.len(),
            out@ == v@.subrange(b as int, i as int),
        decreases e - i,
    {
        out.push(v[i]);
        i += 1;
    }
    string_from_chars(out.as_slice())
}

fn wrapped(open: &str, inner: &str, close: &str) -> (r: String)
    ensures
        r@ == open@ + inner@ + close@,
{
    let mut out = str_chars(open);
    extend_chars(&mut out, &str_chars(inner));
    extend_chars(&mut out, &str_chars(close));
    string_from_chars(out.as_slice())
}

fn icon_for(domain: &str) -> (r: String)
    ensures
        r@ == link_icon(domain@),
{
    let d = str_chars(domain);
    if chars_eq(&d, &str_chars("google")) {
        "google".to_owned()
    } else if chars_eq(&d, &str_chars("chatgpt")) {
        "chat-gpt".to_owned()
    } else if chars_eq(&d, &str_chars("youtube")) {
        "sherlock-youtube".to_owned()
    } else {
        "sherlock-link".to_owned()
    }
}

fn take_group(g: &Option<Vec<Option<String>>>, i: usize) -> (r: Option<String>)
    ensures
        match r {
            Some(s) => group(
                match g {
                    Some(v) => Some(group_views(v@)),
                    None => None,
                },
                i as int,
            ) == Some(s@),
            None => group(
                match g {
                    Some(v) => Some(group_views(v@)),
                    None => None,
                },
                i as int,
            ) is None,
        },
{
    match g {
        Some(v) => if i < v.len() {
            match &v[i] {
                Some(s) => Some(s.clone()),
                None => None,
            }
        } else {
            None
        },
        None => None,
    }
}

/// The tile for the clipboard content, given the capabilities in effect and
/// what the link expression (`url`) and the colour expression (`color`)
/// captured in the content (see [`choice_from_captures`]).
pub fn tile_from_captures(
    content: &str,
    caps: &Vec<String>,
    url: Option<Vec<Option<String>>>,
    color: Option<Vec<Option<String>>>,
) -> (r: ClipboardTile)
    ensures
        tile_for(
            choice_from_captures(content@, views(caps@), captures_view(url), captures_view(color)),
            content@,
            r,
        ),
{
    if content.is_empty() {
        return ClipboardTile::Nothing;
    }
    if contains_str(caps, "url") {
        if let Some(domain) = take_group(&url, 3) {
            return ClipboardTile::Link { icon: icon_for(domain.as_str()), title: trimmed(content) };
        }
    }
    if any_prefixed(caps, "colors.") && utf8_len_at_most(&str_chars(content), 20) {
        let all = contains_str(caps, "colors.all");
        if all || contains_str(caps, "colors.rgb") {
            if let Some(rgb) = take_group(&color, 2) {
                let label = wrapped("rbg(", trimmed(rgb.as_str()).as_str(), ")");
                return ClipboardTile::Color { color: rgb_from_channels(rgb.as_str()), label };
            }
        }
        if all || contains_str(caps, "colors.hsl") {
            if let Some(hsl) = take_group(&color, 3) {
                let label = wrapped("hls(", trimmed(hsl.as_str()).as_str(), ")");
                return ClipboardTile::Hsl { channels: hsl, label };
            }
        }
        if all || contains_str(caps, "colors.hex") {
            if let Some(hex) = take_group(&color, 4) {
                let label = wrapped("#", trimmed(hex.as_str()).as_str(), "");
                proof {
                    reveal_strlit("");
                    assert(label@ == "#"@ + trim_spec(hex@));
                }
                return ClipboardTile::Color { color: rgb_from_hex(hex.as_str()), label };
            }
        }
    }
    if any_prefixed(caps, "calc.") {
        return ClipboardTile::Calculator;
    }
    ClipboardTile::Nothing
}

/// Chooses the tile for the clipboard content, given the launcher's
/// capabilities (the defaults when it names none). The link expression is
/// run only when links are allowed, the colour expression only when colours
/// are and the content is short enough to be one.
pub fn clipboard_tile(content: &str, capabilities: Option<Vec<String>>) -> (r: ClipboardTile)
    ensures
        tile_for(clipboard_choice(content@, caps_in_effect(capabilities)), content@, r),
{
    let ghost caps_v = caps_in_effect(capabilities);
    let caps = match capabilities {
        Some(v) => v,
        None => default_capabilities(),
    };
    assert(views(caps@) == caps_v);
    let url = if !content.is_empty() && contains_str(&caps, "url") {
        regex_captures(
            "^(https?:\\/\\/)?(www\\.)?([\\da-z\\.-]+)\\.([a-z]{2,6})([\\/\\w\\.-]*)*\\/?$",
            content,
        )
    } else {
        None
    };
    let color = if !content.is_empty() && any_prefixed(&caps, "colors.") && utf8_len_at_most(
        &str_chars(content),
        20,
    ) {
        regex_captures(
            "^(rgb|hsl)*\\(?(\\d{1,3}\\s*,\\s*\\d{1,3}\\s*,\\s*\\d{1,3})\\)?|\\(?(\\s*\\d{1,3}\\s*,\\s*\\d{1,3}%\\s*,\\s*\\d{1,3}\\s*%\\w*)\\)?|^#([a-fA-F0-9]{6,8})$",
            content,
        )
    } else {
        None
    };
    let ghost gu = regex_captures_of(url_pattern(), content@);
    let ghost gc = regex_captures_of(color_pattern(), content@);
    assert(choice_from_captures(content@, caps_v, captures_view(url), captures_view(color))
        == choice_from_captures(content@, caps_v, gu, gc));
    tile_from_captures(content, &caps, url, color)
}

/// Reading the text of `hsl` channels: white space is skipped, digits build
/// a number, and any other character ends the number being built (if a
/// digit came since the last one ended). The result: the numbers ended so
/// far, the number being built, and whether a digit came since.
pub open spec fn hsl_scan(s: Seq<char>) -> (Seq<nat>, nat, bool)
    decreases s.len(),
{
    if s.len() == 0 {
        (seq![], 0, false)
    } else {
        let (done, cur, changed) = hsl_scan(s.drop_last());
        let c = s.last();
        if crate::text::is_ws(c) {
            (done, cur, changed)
        } else if '0' <= c <= '9' {
            (done, (cur * 10 + (c as nat - '0' as nat)) as nat, true)
        } else if changed {
            (done.push(cur), 0, false)
        } else {
            (done, cur, changed)
        }
    }
}

/// Every number built while reading `s` fits in a `u32`.
pub open spec fn hsl_fits(s: Seq<char>) -> bool {
    forall|k: int| 0 <= k <= s.len() ==> #[trigger] hsl_scan(s.take(k)).1 <= u32::MAX
}

/// The numbers of the text of `hsl` channels (`"120, 50%, 40%"` gives 120,
/// 50 and 40); a number not followed by another character is left out.
pub fn hsl_numbers(text: &str) -> (r: Vec<u32>)
    requires
        hsl_fits(text@),
    ensures
        r@.map_values(|n: u32| n as nat) == hsl_scan(text@).0,
{
    let v = str_chars(text);
    let mut res: Vec<u32> = Vec::new();
    let mut tmp: u32 = 0;
    let mut changed = false;
    let mut i: usize = 0;
    while i < v.len()
        invariant
            i <= v@.len(),
            v@ == text@,
            hsl_fits(text@),
            hsl_scan(v@.take(i as int)) == (res@.map_values(|n: u32| n as nat), tmp as nat, changed),
        decreases v.len() - i,
    {
        let c = v[i];
        proof {
            assert(v@.take(i + 1).drop_last() == v@.take(i as int));
            assert(v@.take(i + 1).last() == c);
            assert(hsl_scan(text@.take(i + 1)).1 <= u32::MAX);
            assert(text@.take(i + 1) == v@.take(i + 1));
        }
        if crate::text::char_is_whitespace(c) {
        } else if '0' <= c && c <= '9' {
            tmp = tmp * 10 + ((c as u32) - ('0' as u32));
            changed = true;
        } else if changed {
            let ghost before = res@.map_values(|n: u32| n as nat);
            res.push(tmp);
            assert(res@.map_values(|n: u32| n as nat) == before.push(tmp as nat));
            changed = false;
            tmp = 0;
        }
        i += 1;
    }
    assert(v@.take(v@.len() as int) == v@);
    res
}

} // verus!
