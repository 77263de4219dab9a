use vstd::prelude::*;

use crate::colors::{hex_rgb_spec, hex_slices_ok, strip_hashes, ColorConverter};
use crate::number::{all_digits, drop_sign, float_literal, is_float_literal};
use crate::text::{
    chars_eq, decimal, lower_char, matches_at, push_decimal, str_chars, string_from_chars, sub_chars,
    trim_bounds, trim_spec,
};
use crate::translation::{language_named, Language};
use crate::websearch::{is_url, is_url_spec};
use crate::units::{
    lemma_parsed_unit_allowed, lemma_parsed_unit_in_category, parse_in_category_spec, parse_with_caps_spec,
    unit_category, Unit,
};

verus! {

/// The features a launcher may use, as a bit mask.
#[derive(Clone, Copy, Debug, PartialEq, Eq, Structural)]
pub struct Capabilities(pub u32);

impl Capabilities {
    pub const NONE: u32 = 0;
    pub const MATH: u32 = 1;
    pub const COLORS: u32 = 2;
    pub const CURRENCY: u32 = 4;
    pub const LENGTH: u32 = 8;
    pub const VOLUME: u32 = 16;
    pub const WEIGHT: u32 = 32;
    pub const TEMPERATURE: u32 = 64;
    pub const PRESSURE: u32 = 128;
    pub const DIGITAL: u32 = 256;
    pub const TIME: u32 = 512;
    pub const AREA: u32 = 1024;
    pub const SPEED: u32 = 2048;
    pub const EVERYTHING: u32 = 0xffff_ffff;

    /// Whether any of the features in `cap` is allowed.
    pub fn allows(&self, cap: u32) -> (r: bool)
        ensures
            r == (self.0 & cap != 0),
    {
        (self.0 & cap) != 0
    }

    /// The mask of the features named in `strs`.
    pub fn from_strings(strs: &[String]) -> (r: Self)
        ensures
            r.0 == caps_mask(strs@.map_values(|s: String| s@)),
    {
        let ghost names = strs@.map_values(|s: String| s@);
        let mut mask: u32 = Self::NONE;
        let mut i: usize = 0;
        while i < strs.len()
            invariant
                i <= strs@.len(),
                names == strs@.map_values(|s: String| s@),
                mask == caps_mask(names.take(i as int)),
            decreases strs.len() - i,
        {
            let m = capability_named(strs[i].as_str());
            proof {
                assert(names.take(i + 1).drop_last() == names.take(i as int));
                assert(names.take(i + 1).last() == strs@[i as int]@);
            }
            mask = mask | m;
            i += 1;
        }
        assert(names.take(strs@.len() as int) == names);
        Capabilities(mask)
    }
}

/// The features of all unit conversions.
pub open spec fn all_units_mask() -> u32 {
    8u32 | 16u32 | 32u32 | 64u32 | 128u32 | 256u32 | 512u32 | 1024u32 | 2048u32
}

/// The features a capability name stands for (none for an unknown name).
pub open spec fn capability_mask(name: Seq<char>) -> u32 {
    if name == "calc.currencies"@ {
        4
    } else if name == "calc.math"@ {
        1
    } else if name == "colors"@ {
        2
    } else if name == "calc.units"@ {
        all_units_mask()
    } else if name == "calc.length"@ {
        8
    } else if name == "calc.volume"@ {
        16
    } else if name == "calc.weight"@ {
        32
    } else if name == "calc.temperature"@ {
        64
    } else if name == "calc.pressure"@ {
        128
    } else if name == "calc.digital"@ {
        256
    } else if name == "calc.time"@ {
        512
    } else if name == "calc.area"@ {
        1024
    } else if name == "calc.speed"@ {
        2048
    } else {
        0
    }
}

/// The union of the features named in `names`.
pub open spec fn caps_mask(names: Seq<Seq<char>>) -> u32
    decreases names.len(),
{
    if names.len() == 0 {
        0
    } else {
        caps_mask(names.drop_last()) | capability_mask(names.last())
    }
}

fn capability_named(s: &str) -> (r: u32)
    ensures
        r == capability_mask(s@),
{
    let v = str_chars(s);
    if chars_eq(&v, &str_chars("calc.currencies")) {
        Capabilities::CURRENCY
    } else if chars_eq(&v, &str_chars("calc.math")) {
        Capabilities::MATH
    } else if chars_eq(&v, &str_chars("colors")) {
        Capabilities::COLORS
    } else if chars_eq(&v, &str_chars("calc.units")) {
        Capabilities::LENGTH | Capabilities::VOLUME | Capabilities::WEIGHT
            | Capabilities::TEMPERATURE | Capabilities::PRESSURE | Capabilities::DIGITAL
            | Capabilities::TIME | Capabilities::AREA | Capabilities::SPEED
    } else if chars_eq(&v, &str_chars("calc.length")) {
        Capabilities::LENGTH
    } else if chars_eq(&v, &str_chars("calc.volume")) {
        Capabilities::VOLUME
    } else if chars_eq(&v, &str_chars("calc.weight")) {
        Capabilities::WEIGHT
    } else if chars_eq(&v, &str_chars("calc.temperature")) {
        Capabilities::TEMPERATURE
    } else if chars_eq(&v, &str_chars("calc.pressure")) {
        Capabilities::PRESSURE
    } else if chars_eq(&v, &str_chars("calc.digital")) {
        Capabilities::DIGITAL
    } else if chars_eq(&v, &str_chars("calc.time")) {
        Capabilities::TIME
    } else if chars_eq(&v, &str_chars("calc.area")) {
        Capabilities::AREA
    } else if chars_eq(&v, &str_chars("calc.speed")) {
        Capabilities::SPEED
    } else {
        Capabilities::NONE
    }
}

proof fn lemma_or_keeps(a: u32, b: u32)
    ensures
        (a | b) & b == b,
        (a | b) & a == a,
{
    assert((a | b) & b == b) by (bit_vector);
    assert((a | b) & a == a) by (bit_vector);
}

/// Every feature that a name in `names` stands for is in their mask.
pub proof fn lemma_caps_mask_has_each(names: Seq<Seq<char>>, k: int)
    requires
        0 <= k < names.len(),
    ensures
        caps_mask(names) & capability_mask(names[k]) == capability_mask(names[k]),
    decreases names.len(),
{
    let rest = names.drop_last();
    lemma_or_keeps(caps_mask(rest), capability_mask(names.last()));
    if k < names.len() - 1 {
        lemma_caps_mask_has_each(rest, k);
        let x = caps_mask(rest);
        let y = capability_mask(names.last());
        let c = capability_mask(names[k]);
        assert(x & c == c ==> (x | y) & c == c) by (bit_vector);
    }
}

/// A capability named in the list is allowed by the mask built from it.
pub proof fn lemma_named_capability_allowed(names: Seq<Seq<char>>, k: int)
    requires
        0 <= k < names.len(),
        capability_mask(names[k]) != 0,
    ensures
        caps_mask(names) & capability_mask(names[k]) != 0,
{
    lemma_caps_mask_has_each(names, k);
}

// ---- Tokens of a query ----------------------------------------------------

/// The characters a query is cut at.
pub open spec fn is_token_sep(c: char) -> bool {
    c == ' ' || c == '(' || c == ')' || c == '%' || c == ','
}

/// The words of a query: the non-empty pieces between separators, in order.
pub open spec fn tokens(s: Seq<char>) -> Seq<Seq<char>>
    decreases s.len(),
{
    tokens_from(s, 0, 0)
}

/// The words of `s[start..]`, where the current word began at `start` and
/// `i` is the next character to look at.
pub open spec fn tokens_from(s: Seq<char>, start: int, i: int) -> Seq<Seq<char>>
    decreases s.len() - i,
{
    if i < 0 || i >= s.len() || start > i {
        if 0 <= start < s.len() {
            seq![s.subrange(start, s.len() as int)]
        } else {
            seq![]
        }
    } else if is_token_sep(s[i]) {
        let rest = tokens_from(s, i + 1, i + 1);
        if start < i {
            seq![s.subrange(start, i)] + rest
        } else {
            rest
        }
    } else {
        tokens_from(s, start, i + 1)
    }
}

proof fn lemma_tokens_from_clean(s: Seq<char>, start: int, i: int)
    requires
        0 <= start <= i <= s.len(),
        forall|j: int| start <= j < i ==> !is_token_sep(#[trigger] s[j]),
    ensures
        forall|k: int|
            0 <= k < tokens_from(s, start, i).len() ==> #[trigger] tokens_from(s, start, i)[k].len()
                > 0 && forall|j: int|
                0 <= j < tokens_from(s, start, i)[k].len() ==> !is_token_sep(
                    tokens_from(s, start, i)[k][j],
                ),
    decreases s.len() - i,
{
    let t = tokens_from(s, start, i);
    if i >= s.len() {
        if start < s.len() {
            assert(t == seq![s.subrange(start, s.len() as int)]);
            assert forall|j: int| 0 <= j < t[0].len() implies !is_token_sep(t[0][j]) by {
                assert(t[0][j] == s[start + j]);
            }
        } else {
            assert(t.len() == 0);
        }
    } else if is_token_sep(s[i]) {
        lemma_tokens_from_clean(s, i + 1, i + 1);
        let rest = tokens_from(s, i + 1, i + 1);
        if start < i {
            assert(t == seq![s.subrange(start, i)] + rest);
            assert forall|k: int| 0 <= k < t.len() implies #[trigger] t[k].len() > 0 && forall|j: int|
                0 <= j < t[k].len() ==> !is_token_sep(t[k][j]) by {
                if k > 0 {
                    assert(t[k] == rest[k - 1]);
                } else {
                    assert(t[0] == s.subrange(start, i));
                    assert forall|j: int| 0 <= j < t[0].len() implies !is_token_sep(t[0][j]) by {
                        assert(t[0][j] == s[start + j]);
                    }
                }
            }
        } else {
            assert(t == rest);
        }
    } else {
        lemma_tokens_from_clean(s, start, i + 1);
        assert(t == tokens_from(s, start, i + 1));
    }
}

/// The words of a query are never empty and hold no separator.
pub proof fn lemma_tokens_clean(s: Seq<char>)
    ensures
        forall|k: int|
            0 <= k < tokens(s).len() ==> #[trigger] tokens(s)[k].len() > 0 && forall|j: int|
                0 <= j < tokens(s)[k].len() ==> !is_token_sep(tokens(s)[k][j]),
{
    lemma_tokens_from_clean(s, 0, 0);
}

fn split_words(input: &str) -> (r: Vec<String>)
    ensures
        r@.map_values(|t: String| t@) == tokens(input@),
{
    let s = str_chars(input);
    let n = s.len();
    let mut out: Vec<String> = Vec::new();
    let mut start: usize = 0;
    let mut i: usize = 0;
    while i < n
        invariant
            start <= i <= n == s@.len(),
            forall|j: int| start <= j < i ==> !is_token_sep(#[trigger] s@[j]),
            out@.map_values(|t: String| t@) + tokens_from(s@, start as int, i as int) == tokens(
                input@,
            ),
        decreases n - i,
    {
        if s[i] == ' ' || s[i] == '(' || s[i] == ')' || s[i] == '%' || s[i] == ',' {
            if start < i {
                let w = sub_chars(&s, start, i);
                let ghost before = out@.map_values(|t: String| t@);
                out.push(string_from_chars(w.as_slice()));
                assert(out@.map_values(|t: String| t@) == before.push(s@.subrange(
                    start as int,
                    i as int,
                )));
            }
            start = i + 1;
        }
        i += 1;
    }
    if start < n {
        let w = sub_chars(&s, start, n);
        let ghost before = out@.map_values(|t: String| t@);
        out.push(string_from_chars(w.as_slice()));
        assert(out@.map_values(|t: String| t@) == before.push(
            s@.subrange(start as int, n as int),
        ));
    }
    out
}

/// `a` and `b` equal once ASCII letters are lowered, as
/// `str::eq_ignore_ascii_case` compares.
pub open spec fn eq_ignore_ascii_case(a: Seq<char>, b: Seq<char>) -> bool {
    a.len() == b.len() && forall|i: int| 0 <= i < a.len() ==> lower_char(#[trigger] a[i]) == lower_char(b[i])
}

/// Words that carry no meaning in a query.
pub open spec fn is_noise(w: Seq<char>) -> bool {
    eq_ignore_ascii_case(w, "how"@) || eq_ignore_ascii_case(w, "much"@) || eq_ignore_ascii_case(
        w,
        "is"@,
    ) || eq_ignore_ascii_case(w, "are"@) || eq_ignore_ascii_case(w, "convert"@)
        || eq_ignore_ascii_case(w, "what"@)
}

/// The words of `ws` that are not noise, in order.
pub open spec fn without_noise(ws: Seq<Seq<char>>) -> Seq<Seq<char>>
    decreases ws.len(),
{
    if ws.len() == 0 {
        seq![]
    } else if is_noise(ws.last()) {
        without_noise(ws.drop_last())
    } else {
        without_noise(ws.drop_last()).push(ws.last())
    }
}

/// No noise word is left once the noise is taken out.
pub proof fn lemma_without_noise_clean(ws: Seq<Seq<char>>)
    ensures
        forall|k: int| 0 <= k < without_noise(ws).len() ==> !is_noise(#[trigger] without_noise(ws)[k]),
    decreases ws.len(),
{
    if ws.len() > 0 {
        lemma_without_noise_clean(ws.drop_last());
        let r = without_noise(ws.drop_last());
        if !is_noise(ws.last()) {
            assert forall|k: int| 0 <= k < without_noise(ws).len() implies !is_noise(
                #[trigger] without_noise(ws)[k],
            ) by {
                if k < r.len() {
                    assert(without_noise(ws)[k] == r[k]);
                }
            }
        }
    }
}

fn same_ignoring_ascii_case(a: &Vec<char>, b: &str) -> (r: bool)
    ensures
        r == eq_ignore_ascii_case(a@, b@),
{
    let bv = str_chars(b);
    if a.len() != bv.len() {
        return false;
    }
    let mut i: usize = 0;
    while i < a.len()
        invariant
            a@.len() == bv@.len(),
            bv@ == b@,
            i <= a@.len(),
            forall|j: int| 0 <= j < i ==> lower_char(#[trigger] a@[j]) == lower_char(bv@[j]),
        decreases a.len() - i,
    {
        if crate::text::char_to_ascii_lowercase(a[i]) != crate::text::char_to_ascii_lowercase(bv[i]) {
            return false;
        }
        i += 1;
    }
    true
}

fn noise_word(w: &Vec<char>) -> (r: bool)
    ensures
        r == is_noise(w@),
{
    same_ignoring_ascii_case(w, "how") || same_ignoring_ascii_case(w, "much")
        || same_ignoring_ascii_case(w, "is") || same_ignoring_ascii_case(w, "are")
        || same_ignoring_ascii_case(w, "convert") || same_ignoring_ascii_case(w, "what")
}

fn meaningful_words(input: &str) -> (r: Vec<String>)
    ensures
        r@.map_values(|t: String| t@) == without_noise(tokens(input@)),
{
    let words = split_words(input);
    let ghost ws = words@.map_values(|t: String| t@);
    let mut out: Vec<String> = Vec::new();
    let mut i: usize = 0;
    while i < words.len()
        invariant
            i <= words@.len(),
            ws == words@.map_values(|t: String| t@),
            out@.map_values(|t: String| t@) == without_noise(ws.take(i as int)),
        decreases words.len() - i,
    {
        let w = str_chars(words[i].as_str());
        proof {
            assert(ws.take(i + 1).drop_last() == ws.take(i as int));
            assert(ws.take(i + 1).last() == words@[i as int]@);
        }
        if !noise_word(&w) {
            let ghost before = out@.map_values(|t: String| t@);
            out.push(string_from_chars(w.as_slice()));
            assert(out@.map_values(|t: String| t@) == before.push(w@));
        }
        i += 1;
    }
    assert(ws.take(words@.len() as int) == ws);
    out
}

// ---- Recognised requests --------------------------------------------------

/// Whether `c` is a numeric character (Unicode general category `Nd`, `Nl`
/// or `No`), as `char::is_numeric` answers.
pub uninterp spec fn is_numeric_of(c: char) -> bool;

/// `char::is_numeric`. The contract names its answer and states the one fact
/// the documentation gives for ASCII: the digits `0` to `9` are numeric.
/// Which other characters are numeric (a table over all of Unicode) is left
/// to the name.
#[verifier::external_body]
fn char_is_numeric(c: char) -> (r: bool)
    ensures
        r == is_numeric_of(c),
        '0' <= c <= '9' ==> r,
{
    c.is_numeric()
}

/// A request the launcher recognised in a query. Numbers are kept as the
/// text they were written in, and each such text reads as a float
/// ([`crate::number::is_float_literal`]).
#[derive(Clone, Debug, PartialEq)]
pub enum Intent {
    /// A colour written in `from_space`, to be shown in `to_space`.
    ColorConvert { from_space: String, values: Vec<String>, to_space: String },
    /// A colour written in `from_space`, to be shown as it is.
    ColorDisplay { from_space: String, values: Vec<String> },
    /// An amount of `from` to be expressed in `to`.
    Conversion { value: String, from: Unit, to: Unit },
    /// A web address to open.
    Url { url: String },
    /// Text to translate into `target_lang`.
    Translation { text: String, target_lang: Language },
    /// Nothing the launcher answers directly.
    NoIntent,
}

/// The text of each string.
pub open spec fn words(v: Seq<String>) -> Seq<Seq<char>> {
    v.map_values(|s: String| s@)
}

/// The words that join what to convert and what to convert it to.
pub open spec fn is_connector(w: Seq<char>) -> bool {
    w == "to"@ || w == "in"@ || w == "as"@
}

/// The names of the colour notations.
pub open spec fn is_color_space(w: Seq<char>) -> bool {
    w == "rgb"@ || w == "rgba"@ || w == "hex"@ || w == "hsl"@ || w == "hsv"@ || w == "lab"@
}

/// Index of the first connector in `ws[i..]`, or `ws.len()`.
pub open spec fn connector_from(ws: Seq<Seq<char>>, i: int) -> int
    decreases ws.len() - i,
{
    if i < 0 || i >= ws.len() {
        ws.len() as int
    } else if is_connector(ws[i]) {
        i
    } else {
        connector_from(ws, i + 1)
    }
}

/// The words of `ws` that read as floats, in order.
pub open spec fn float_words(ws: Seq<Seq<char>>) -> Seq<Seq<char>>
    decreases ws.len(),
{
    if ws.len() == 0 {
        seq![]
    } else if is_float_literal(ws.last()) {
        float_words(ws.drop_last()).push(ws.last())
    } else {
        float_words(ws.drop_last())
    }
}

/// The notation named after a connector at `j`, if there is one.
pub open spec fn target_space(ws: Seq<Seq<char>>, j: int) -> Option<Seq<char>> {
    if 0 <= j && j + 1 < ws.len() && is_connector(ws[j]) && is_color_space(ws[j + 1]) {
        Some(ws[j + 1])
    } else {
        None
    }
}

/// The colour request in the words `ws`: its notation, its components and
/// the notation to show it in (`None` to show it as it is). A first word
/// starting with `#` is a hexadecimal colour; a first word naming a notation
/// is followed by components up to the connector, of which the words that
/// read as numbers count. Needs the colour feature.
pub open spec fn color_request(ws: Seq<Seq<char>>, caps: u32) -> Option<
    (Seq<char>, Seq<Seq<char>>, Option<Seq<char>>),
> {
    if caps & Capabilities::COLORS == 0 || ws.len() == 0 {
        None
    } else if ws[0].len() > 0 && ws[0][0] == '#' {
        match hex_rgb_spec(strip_hashes(ws[0])) {
            Some(c) => Some(
                ("hex"@, seq![decimal(c.0), decimal(c.1), decimal(c.2)], target_space(ws, 1)),
            ),
            None => None,
        }
    } else if is_color_space(ws[0]) {
        let j = connector_from(ws, 1);
        let vals = float_words(ws.subrange(1, j));
        if vals.len() == 0 {
            None
        } else {
            Some((ws[0], vals, target_space(ws, j)))
        }
    } else {
        None
    }
}

/// A hexadecimal colour in first place is read by byte offsets that fall
/// between characters (see [`hex_slices_ok`]).
pub open spec fn color_slices_ok(ws: Seq<Seq<char>>, caps: u32) -> bool {
    (caps & Capabilities::COLORS != 0 && ws.len() > 0 && ws[0].len() > 0 && ws[0][0] == '#')
        ==> hex_slices_ok(strip_hashes(ws[0]))
}

/// `r` is the colour request `c`.
pub open spec fn color_matches(r: Intent, c: (Seq<char>, Seq<Seq<char>>, Option<Seq<char>>)) -> bool {
    match r {
        Intent::ColorConvert { from_space, values, to_space } => c.2 == Some(to_space@) && from_space@
            == c.0 && words(values@) == c.1,
        Intent::ColorDisplay { from_space, values } => c.2 is None && from_space@ == c.0 && words(
            values@,
        ) == c.1,
        _ => false,
    }
}

/// `s` without its commas.
pub open spec fn drop_commas(s: Seq<char>) -> Seq<char>
    decreases s.len(),
{
    if s.len() == 0 {
        s
    } else if s.last() == ',' {
        drop_commas(s.drop_last())
    } else {
        drop_commas(s.drop_last()).push(s.last())
    }
}

/// A character that ends the number at the start of a word such as `100kg`.
pub open spec fn ends_amount(c: char) -> bool {
    !is_numeric_of(c) && c != '.' && c != ','
}

/// Index of the first character of `s[i..]` that ends an amount.
pub open spec fn amount_end_from(s: Seq<char>, i: int) -> Option<int>
    decreases s.len() - i,
{
    if i < 0 || i >= s.len() {
        None
    } else if ends_amount(s[i]) {
        Some(i)
    } else {
        amount_end_from(s, i + 1)
    }
}

/// The amount (without commas) and the unit named by `unit`, when the amount
/// reads as a float and the unit is known among the allowed ones.
pub open spec fn amount_with_unit(value: Seq<char>, unit: Seq<char>, caps: u32) -> Option<
    (Seq<char>, Unit),
> {
    let v = drop_commas(value);
    if is_float_literal(v) {
        match parse_with_caps_spec(unit, caps) {
            Some(u) => Some((v, u)),
            None => None,
        }
    } else {
        None
    }
}

/// The amount and unit in the words `pre` before a connector: an amount
/// word and a unit word, or one word that is cut at `split` (the first
/// character that ends an amount): `100kg` is read amount first, `$100` unit
/// first.
pub open spec fn amount_of(pre: Seq<Seq<char>>, split: Option<int>, caps: u32) -> Option<
    (Seq<char>, Unit),
> {
    if pre.len() == 2 {
        amount_with_unit(pre[0], pre[1], caps)
    } else if pre.len() == 1 {
        match split {
            None => None,
            Some(k) => if k > 0 {
                amount_with_unit(pre[0].take(k), pre[0].skip(k), caps)
            } else {
                amount_with_unit(pre[0].skip(1), pre[0].take(1), caps)
            },
        }
    } else {
        None
    }
}

/// The unit conversion in the words `ws`: the amount and unit before the
/// first connector, and the unit of the same kind named right after it.
pub open spec fn unit_request(ws: Seq<Seq<char>>, caps: u32) -> Option<(Seq<char>, Unit, Unit)> {
    let j = connector_from(ws, 0);
    if j + 1 >= ws.len() {
        None
    } else {
        let pre = ws.take(j);
        let split = if pre.len() == 1 {
            amount_end_from(pre[0], 0)
        } else {
            None
        };
        match amount_of(pre, split, caps) {
            None => None,
            Some(a) => match parse_in_category_spec(ws[j + 1], unit_category(a.1)) {
                Some(t) => Some((a.0, a.1, t)),
                None => None,
            },
        }
    }
}

/// The words of a query once it is trimmed and its noise words are dropped.
pub open spec fn query_words(input: Seq<char>) -> Seq<Seq<char>> {
    without_noise(tokens(trim_spec(input)))
}

/// `s[i..i + 4]` is ` to ` or ` in `.
pub open spec fn translation_connector_at(s: Seq<char>, i: int) -> bool {
    0 <= i && i + 4 <= s.len() && (s.subrange(i, i + 4) == " to "@ || s.subrange(i, i + 4)
        == " in "@)
}

/// The last position below `k` at which ` to ` or ` in ` starts in `s`.
pub open spec fn last_connector_below(s: Seq<char>, k: int) -> Option<int>
    decreases k,
{
    if k <= 0 {
        None
    } else if translation_connector_at(s, k - 1) {
        Some(k - 1)
    } else {
        last_connector_below(s, k - 1)
    }
}

/// The translation asked for in `s`: the text before the last ` to ` or
/// ` in ` and the language named after it, both trimmed and neither empty.
pub open spec fn translation_request(s: Seq<char>) -> Option<(Seq<char>, Language)> {
    match last_connector_below(s, s.len() as int) {
        None => None,
        Some(i) => {
            let text = trim_spec(s.take(i));
            let lang = trim_spec(s.skip(i + 4));
            if text.len() == 0 || lang.len() == 0 {
                None
            } else {
                match language_named(lang) {
                    Some(l) => Some((text, l)),
                    None => None,
                }
            }
        },
    }
}

/// `r` is the request recognised in `input`: a colour request first, then
/// a unit conversion, then a translation, then a web address, else none.
pub open spec fn intent_for(input: Seq<char>, caps: u32, r: Intent) -> bool {
    let ws = query_words(input);
    let raw = trim_spec(input);
    if raw.len() == 0 {
        r is NoIntent
    } else {
        match color_request(ws, caps) {
            Some(c) => color_matches(r, c),
            None => match unit_request(ws, caps) {
                Some(u) => r matches Intent::Conversion { value, from, to } && value@ == u.0 && from
                    == u.1 && to == u.2,
                None => match translation_request(raw) {
                    Some(t) => r matches Intent::Translation { text, target_lang } && text@ == t.0
                        && target_lang == t.1,
                    None => if is_url_spec(raw) {
                        r matches Intent::Url { url } && url@ == raw
                    } else {
                        r is NoIntent
                    },
                },
            },
        }
    }
}

fn word_is(w: &String, lit: &str) -> (r: bool)
    ensures
        r == (w@ == lit@),
{
    let a = str_chars(w.as_str());
    let b = str_chars(lit);
    chars_eq(&a, &b)
}

fn connector_word(w: &String) -> (r: bool)
    ensures
        r == is_connector(w@),
{
    proof {
        reveal_strlit("to");
        reveal_strlit("in");
        reveal_strlit("as");
    }
    word_is(w, "to") || word_is(w, "in") || word_is(w, "as")
}

fn color_space_word(w: &String) -> (r: bool)
    ensures
        r == is_color_space(w@),
{
    word_is(w, "rgb") || word_is(w, "rgba") || word_is(w, "hex") || word_is(w, "hsl") || word_is(
        w,
        "hsv",
    ) || word_is(w, "lab")
}

/// Index of the first connector in `ws[i..]`, or `ws.len()`.
fn find_connector(ws: &Vec<String>, i: usize) -> (r: usize)
    requires
        i <= ws@.len(),
    ensures
        r == connector_from(words(ws@), i as int),
        i <= r <= ws@.len(),
    decreases ws.len() - i,
{
    if i >= ws.len() {
        return ws.len();
    }
    if connector_word(&ws[i]) {
        i
    } else {
        find_connector(ws, i + 1)
    }
}

fn target_of(ws: &Vec<String>, j: usize) -> (r: Option<String>)
    requires
        j <= ws@.len(),
    ensures
        match r {
            Some(t) => target_space(words(ws@), j as int) == Some(t@),
            None => target_space(words(ws@), j as int) is None,
        },
{
    if j < ws.len() && j + 1 < ws.len() && connector_word(&ws[j]) && color_space_word(&ws[j + 1]) {
        Some(ws[j + 1].clone())
    } else {
        None
    }
}

fn decimal_string(n: u8) -> (r: String)
    ensures
        r@ == decimal(n as nat),
{
    let mut v: Vec<char> = Vec::new();
    push_decimal(&mut v, n as u64);
    string_from_chars(v.as_slice())
}

/// The colour request in the words `ws` (see [`color_request`]).
pub fn color_intent(ws: &Vec<String>, caps: &Capabilities) -> (r: Option<Intent>)
    requires
        color_slices_ok(words(ws@), caps.0),
    ensures
        match color_request(words(ws@), caps.0) {
            Some(c) => r is Some && color_matches(r->0, c),
            None => r is None,
        },
{
    let ghost w = words(ws@);
    if !caps.allows(Capabilities::COLORS) || ws.len() == 0 {
        return None;
    }
    assert(w[0] == ws@[0]@);
    let first = str_chars(ws[0].as_str());
    if first.len() > 0 && first[0] == '#' {
        match ColorConverter::hex_to_rgb(ws[0].as_str()) {
            None => None,
            Some((r, g, b)) => {
                let values = vec![decimal_string(r), decimal_string(g), decimal_string(b)];
                assert(words(values@) == seq![decimal(r as nat), decimal(g as nat), decimal(b as nat)]);
                let from_space = string_from_chars(str_chars("hex").as_slice());
                match target_of(ws, 1) {
                    Some(to_space) => Some(Intent::ColorConvert { from_space, values, to_space }),
                    None => Some(Intent::ColorDisplay { from_space, values }),
                }
            },
        }
    } else if color_space_word(&ws[0]) {
        let j = find_connector(ws, 1);
        let mut values: Vec<String> = Vec::new();
        let mut i: usize = 1;
        while i < j
            invariant
                1 <= i <= j <= ws@.len(),
                w == words(ws@),
                words(values@) == float_words(w.subrange(1, i as int)),
            decreases j - i,
        {
            proof {
                assert(w.subrange(1, i + 1).drop_last() == w.subrange(1, i as int));
                assert(w.subrange(1, i + 1).last() == ws@[i as int]@);
            }
            let c = str_chars(ws[i].as_str());
            if float_literal(&c) {
                let ghost before = words(values@);
                values.push(ws[i].clone());
                assert(words(values@) == before.push(ws@[i as int]@));
            }
            i += 1;
        }
        if values.len() == 0 {
            return None;
        }
        let from_space = ws[0].clone();
        match target_of(ws, j) {
            Some(to_space) => Some(Intent::ColorConvert { from_space, values, to_space }),
            None => Some(Intent::ColorDisplay { from_space, values }),
        }
    } else {
        None
    }
}

/// `s` without its commas.
fn without_commas(s: &Vec<char>) -> (r: Vec<char>)
    ensures
        r@ == drop_commas(s@),
{
    let mut r: Vec<char> = Vec::new();
    let mut i: usize = 0;
    while i < s.len()
        invariant
            i <= s@.len(),
            r@ == drop_commas(s@.take(i as int)),
        decreases s.len() - i,
    {
        proof {
            assert(s@.take(i + 1).drop_last() == s@.take(i as int));
        }
        if s[i] != ',' {
            r.push(s[i]);
        }
        i += 1;
    }
    assert(s@.take(s@.len() as int) == s@);
    r
}

fn amount_unit_pair(value: &Vec<char>, unit: &Vec<char>, caps: &Capabilities) -> (r: Option<(String, Unit)>)
    ensures
        match amount_with_unit(value@, unit@, caps.0) {
            Some(a) => r matches Some(p) && p.0@ == a.0 && p.1 == a.1,
            None => r is None,
        },
{
    let v = without_commas(value);
    if !float_literal(&v) {
        return None;
    }
    let u = string_from_chars(unit.as_slice());
    match Unit::parse_with_capabilities(u.as_str(), caps) {
        Some(unit) => Some((string_from_chars(v.as_slice()), unit)),
        None => None,
    }
}

/// The amount and unit in the `n` words before a connector (see
/// [`amount_of`]), with `split` the first character of the only word that
/// ends an amount.
pub fn amount_at(ws: &Vec<String>, n: usize, split: Option<usize>, caps: &Capabilities) -> (r: Option<(String, Unit)>)
    requires
        n <= ws@.len(),
        n == 1 ==> match split {
            Some(k) => k < ws@[0]@.len(),
            None => true,
        },
    ensures
        match amount_of(words(ws@).take(n as int), match split {
            Some(k) => Some(k as int),
            None => None,
        }, caps.0) {
            Some(a) => r matches Some(p) && p.0@ == a.0 && p.1 == a.1,
            None => r is None,
        },
{
    let ghost pre = words(ws@).take(n as int);
    if n == 2 {
        assert(pre[0] == ws@[0]@ && pre[1] == ws@[1]@);
        amount_unit_pair(&str_chars(ws[0].as_str()), &str_chars(ws[1].as_str()), caps)
    } else if n == 1 {
        assert(pre[0] == ws@[0]@);
        let c = str_chars(ws[0].as_str());
        match split {
            None => None,
            Some(k) => {
                if k > 0 {
                    amount_unit_pair(&sub_chars(&c, 0, k), &sub_chars(&c, k, c.len()), caps)
                } else if c.len() == 0 {
                    amount_unit_pair(&c, &c, caps)
                } else {
                    amount_unit_pair(&sub_chars(&c, 1, c.len()), &sub_chars(&c, 0, 1), caps)
                }
            },
        }
    } else {
        None
    }
}

/// First character of `s` that ends an amount.
fn amount_end(s: &Vec<char>) -> (r: Option<usize>)
    ensures
        match r {
            Some(k) => amount_end_from(s@, 0) == Some(k as int) && k < s@.len(),
            None => amount_end_from(s@, 0) is None,
        },
{
    let mut i: usize = 0;
    while i < s.len()
        invariant
            i <= s@.len(),
            amount_end_from(s@, 0) == amount_end_from(s@, i as int),
        decreases s.len() - i,
    {
        if !char_is_numeric(s[i]) && s[i] != '.' && s[i] != ',' {
            return Some(i);
        }
        i += 1;
    }
    None
}

/// The unit conversion in the words `ws` (see [`unit_request`]).
pub fn unit_intent(ws: &Vec<String>, caps: &Capabilities) -> (r: Option<Intent>)
    ensures
        match unit_request(words(ws@), caps.0) {
            Some(u) => r matches Some(Intent::Conversion { value, from, to }) && value@ == u.0 && from
                == u.1 && to == u.2,
            None => r is None,
        },
{
    let ghost w = words(ws@);
    let j = find_connector(ws, 0);
    if j >= ws.len() || j + 1 >= ws.len() {
        return None;
    }
    let ghost pre = w.take(j as int);
    let split = if j == 1 {
        assert(pre[0] == ws@[0]@);
        amount_end(&str_chars(ws[0].as_str()))
    } else {
        None
    };
    assert(match split {
        Some(k) => Some(k as int),
        None => None,
    } == if pre.len() == 1 {
        amount_end_from(pre[0], 0)
    } else {
        None
    });
    match amount_at(ws, j, split, caps) {
        None => None,
        Some((value, from)) => {
            assert(w[j + 1] == ws@[j + 1]@);
            match Unit::parse_in_category(ws[j + 1].as_str(), from.category()) {
                Some(to) => Some(Intent::Conversion { value, from, to }),
                None => None,
            }
        },
    }
}

/// The last position at which ` to ` or ` in ` starts in `v`.
fn last_translation_connector(v: &Vec<char>) -> (r: Option<usize>)
    ensures
        r matches Some(i) ==> (last_connector_below(v@, v@.len() as int) == Some(i as int) && i + 4
            <= v@.len()),
        r is None ==> last_connector_below(v@, v@.len() as int) is None,
{
    let to = str_chars(" to ");
    let inn = str_chars(" in ");
    proof {
        reveal_strlit(" to ");
        reveal_strlit(" in ");
    }
    let n = v.len();
    let mut k = n;
    while k > 0
        invariant
            k <= n == v@.len(),
            to@ == " to "@,
            inn@ == " in "@,
            " to "@.len() == 4,
            " in "@.len() == 4,
            last_connector_below(v@, k as int) == last_connector_below(v@, n as int),
        decreases k,
    {
        let a = matches_at(v, k - 1, &to);
        let b = matches_at(v, k - 1, &inn);
        assert(to@.len() == 4 && inn@.len() == 4);
        if a || b {
            assert(translation_connector_at(v@, k - 1));
            assert(last_connector_below(v@, k as int) == Some((k - 1) as int));
            return Some(k - 1);
        }
        assert(!translation_connector_at(v@, k - 1));
        k -= 1;
    }
    None
}

impl Intent {
    /// Whether a request was recognised.
    pub fn is_some(&self) -> (r: bool)
        ensures
            r == !(self is NoIntent),
    {
        match self {
            Intent::NoIntent => false,
            _ => true,
        }
    }

    /// Cuts a query into its words.
    pub fn tokenize(input: &str) -> (r: Vec<String>)
        ensures
            words(r@) == tokens(input@),
    {
        split_words(input)
    }

    /// The words of a query without the noise words ("how", "much", "is",
    /// "are", "convert", "what", in any case).
    pub fn tokenize_kill_noise(input: &str) -> (r: Vec<String>)
        ensures
            words(r@) == without_noise(tokens(input@)),
    {
        meaningful_words(input)
    }

    /// The request a query makes: a colour request, a unit conversion, a
    /// translation or a web address, tried in that order, or `NoIntent`.
    pub fn parse(input: &str, caps: &Capabilities) -> (r: Intent)
        requires
            color_slices_ok(query_words(input@), caps.0),
        ensures
            intent_for(input@, caps.0, r),
    {
        let c = str_chars(input);
        let (lo, hi) = trim_bounds(&c, 0, c.len());
        assert(c@.subrange(0, c@.len() as int) == input@);
        if lo == hi {
            return Intent::NoIntent;
        }
        let raw = string_from_chars(sub_chars(&c, lo, hi).as_slice());
        let ws = meaningful_words(raw.as_str());
        if let Some(i) = color_intent(&ws, caps) {
            return i;
        }
        if let Some(i) = unit_intent(&ws, caps) {
            return i;
        }
        assert(raw@ == trim_spec(input@));
        if let Some(i) = Self::try_parse_translation(raw.as_str()) {
            return i;
        }
        match Self::try_parse_url(raw.as_str()) {
            Some(i) => i,
            None => Intent::NoIntent,
        }
    }

    /// The translation asked for in `input`: the text before the last ` to `
    /// or ` in ` into the language named after it.
    pub fn try_parse_translation(input: &str) -> (r: Option<Intent>)
        ensures
            match translation_request(input@) {
                Some(t) => r matches Some(Intent::Translation { text, target_lang }) && text@ == t.0
                    && target_lang == t.1,
                None => r is None,
            },
    {
        let v = str_chars(input);
        let n = v.len();
        let i = match last_translation_connector(&v) {
            Some(i) => i,
            None => return None,
        };
        let (tl, th) = trim_bounds(&v, 0, i);
        let (ll, lh) = trim_bounds(&v, i + 4, n);
        assert(v@.subrange(0, i as int) == v@.take(i as int));
        assert(v@.subrange(i + 4, n as int) == v@.skip(i + 4));
        if tl == th || ll == lh {
            return None;
        }
        let lang = string_from_chars(sub_chars(&v, ll, lh).as_slice());
        match Language::from_str(lang.as_str()) {
            Some(l) => Some(Intent::Translation {
                text: string_from_chars(sub_chars(&v, tl, th).as_slice()),
                target_lang: l,
            }),
            None => None,
        }
    }

    /// A request to open `input` when it reads as a web address.
    fn try_parse_url(input: &str) -> (r: Option<Intent>)
        ensures
            r is Some <==> is_url_spec(input@),
            r matches Some(i) ==> (i matches Intent::Url { url } && url@ == input@),
    {
        if is_url(input) {
            Some(Intent::Url { url: string_from_chars(str_chars(input).as_slice()) })
        } else {
            None
        }
    }
}

/// The words `float_words` keeps all read as floats.
proof fn lemma_float_words_read(ws: Seq<Seq<char>>)
    ensures
        forall|k: int| 0 <= k < float_words(ws).len() ==> is_float_literal(#[trigger] float_words(ws)[k]),
    decreases ws.len(),
{
    if ws.len() > 0 {
        let p = ws.drop_last();
        lemma_float_words_read(p);
        assert forall|k: int| 0 <= k < float_words(ws).len() implies is_float_literal(
            #[trigger] float_words(ws)[k],
        ) by {
            if k < float_words(p).len() {
                assert(float_words(ws)[k] == float_words(p)[k]);
            }
        }
    }
}

/// A recognised unit conversion converts between two units of the same kind,
/// the first of them one the capabilities allow, and its amount reads as a
/// float.
pub proof fn lemma_conversion_same_kind(input: Seq<char>, caps: u32, r: Intent)
    requires
        intent_for(input, caps, r),
        r is Conversion,
    ensures
        r matches Intent::Conversion { value, from, to } && unit_category(from) == unit_category(to)
            && crate::units::allowed(caps, from) && is_float_literal(value@),
{
    let ws = query_words(input);
    let j = connector_from(ws, 0);
    if j + 1 < ws.len() {
        let pre = ws.take(j);
        if pre.len() == 2 {
            lemma_parsed_unit_allowed(pre[1], caps);
        } else if pre.len() == 1 {
            lemma_parsed_unit_allowed(pre[0].take(0), caps);
            let c = pre[0];
            match amount_end_from(c, 0) {
                Some(k) => {
                    lemma_parsed_unit_allowed(c.skip(k), caps);
                    lemma_parsed_unit_allowed(c.take(1), caps);
                },
                None => {},
            }
        }
        match amount_of(
            pre,
            if pre.len() == 1 {
                amount_end_from(pre[0], 0)
            } else {
                None
            },
            caps,
        ) {
            Some(a) => lemma_parsed_unit_in_category(ws[j + 1], unit_category(a.1)),
            None => {},
        }
    }
}

/// Every component of a recognised colour reads as a float.
pub proof fn lemma_color_values_read(input: Seq<char>, caps: u32, r: Intent)
    requires
        intent_for(input, caps, r),
    ensures
        r matches Intent::ColorConvert { values, .. } ==> forall|k: int|
            0 <= k < values@.len() ==> is_float_literal(#[trigger] values@[k]@),
        r matches Intent::ColorDisplay { values, .. } ==> forall|k: int|
            0 <= k < values@.len() ==> is_float_literal(#[trigger] values@[k]@),
{
    let ws = query_words(input);
    if trim_spec(input).len() > 0 && color_request(ws, caps) is Some {
        let c = color_request(ws, caps)->0;
        if ws[0].len() > 0 && ws[0][0] == '#' {
            let h = hex_rgb_spec(strip_hashes(ws[0]))->0;
            lemma_decimal_reads(h.0);
            lemma_decimal_reads(h.1);
            lemma_decimal_reads(h.2);
            assert(c.1 == seq![decimal(h.0), decimal(h.1), decimal(h.2)]);
            assert(forall|k: int| 0 <= k < c.1.len() ==> is_float_literal(#[trigger] c.1[k]));
        } else {
            let j = connector_from(ws, 1);
            lemma_float_words_read(ws.subrange(1, j));
            assert(c.1 == float_words(ws.subrange(1, j)));
        }
        match r {
            Intent::ColorConvert { values, .. } => {
                assert forall|k: int| 0 <= k < values@.len() implies is_float_literal(
                    #[trigger] values@[k]@,
                ) by {
                    assert(words(values@)[k] == values@[k]@);
                    assert(c.1[k] == values@[k]@);
                }
            },
            Intent::ColorDisplay { values, .. } => {
                assert forall|k: int| 0 <= k < values@.len() implies is_float_literal(
                    #[trigger] values@[k]@,
                ) by {
                    assert(words(values@)[k] == values@[k]@);
                    assert(c.1[k] == values@[k]@);
                }
            },
            _ => {},
        }
    }
}

/// The decimal text of a number is a non-empty run of digits.
proof fn lemma_decimal_digits(n: nat)
    ensures
        decimal(n).len() > 0,
        all_digits(decimal(n)),
    decreases n,
{
    let d = (n % 10) as nat;
    assert(crate::number::is_digit(crate::text::digit_char(d)));
    if n >= 10 {
        lemma_decimal_digits(n / 10);
        let p = decimal(n / 10);
        assert forall|k: int| 0 <= k < decimal(n).len() implies crate::number::is_digit(
            #[trigger] decimal(n)[k],
        ) by {
            if k < p.len() {
                assert(decimal(n)[k] == p[k]);
            }
        }
    }
}

/// The decimal text of a number reads as a float.
proof fn lemma_decimal_reads(n: nat)
    ensures
        is_float_literal(decimal(n)),
{
    lemma_decimal_digits(n);
    let d = decimal(n);
    assert(drop_sign(d) == d);
    assert(crate::number::decimal_number(d));
}

} // verus!
