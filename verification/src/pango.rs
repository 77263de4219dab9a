use vstd::prelude::*;

use crate::text::{
    chars_eq, chars_to_ascii_lowercase, extend_chars, find_char, find_char_from, find_seq,
    find_seq_from, lemma_find_char_from, lemma_utf8_len_concat, lower_seq, matches_at,
    str_chars, string_from_chars, sub_chars, trim_bounds, trim_spec, utf8_len,
    utf8_len_range,
};

verus! {

/// The fonts of the active theme that markup can select.
#[derive(Clone, Debug)]
pub struct FontTheme {
    /// Family used when no `<span font_desc=..>` is open.
    pub font_family: String,
    /// Family used for `font_desc='monospace'`.
    pub monospace: String,
}

/// A styled stretch of the rendered text; `len` counts UTF-8 bytes.
/// Bold runs are drawn in the theme's primary text colour, others in the
/// secondary one.
#[derive(Clone, Debug)]
pub struct TextRun {
    pub len: usize,
    pub bold: bool,
    pub italic: bool,
    pub family: String,
}

/// Mathematical view of a run.
pub struct RunSpec {
    pub len: nat,
    pub bold: bool,
    pub italic: bool,
    pub family: Seq<char>,
}

/// The parser's state: text so far, runs so far, open `<b>`/`<i>` depths and the
/// stack of font families opened by `<span>`.
pub struct MarkupState {
    pub text: Seq<char>,
    pub runs: Seq<RunSpec>,
    pub bold: nat,
    pub italic: nat,
    pub families: Seq<Seq<char>>,
}

pub open spec fn markup_init() -> MarkupState {
    MarkupState { text: seq![], runs: seq![], bold: 0, italic: 0, families: seq![] }
}

pub open spec fn s_quot() -> Seq<char> {
    seq!['&', 'q', 'u', 'o', 't', ';']
}

pub open spec fn s_amp() -> Seq<char> {
    seq!['&', 'a', 'm', 'p', ';']
}

pub open spec fn s_lt() -> Seq<char> {
    seq!['&', 'l', 't', ';']
}

pub open spec fn s_gt() -> Seq<char> {
    seq!['&', 'g', 't', ';']
}

pub open spec fn s_nbsp() -> Seq<char> {
    seq!['&', 'n', 'b', 's', 'p', ';']
}

pub open spec fn s_apos() -> Seq<char> {
    seq!['&', 'a', 'p', 'o', 's', ';']
}

pub open spec fn s_monospace() -> Seq<char> {
    seq!['m', 'o', 'n', 'o', 's', 'p', 'a', 'c', 'e']
}

pub open spec fn s_font_desc() -> Seq<char> {
    seq!['f', 'o', 'n', 't', '_', 'd', 'e', 's', 'c']
}

/// `s` starts with `p`.
pub open spec fn starts_with_seq(s: Seq<char>, p: Seq<char>) -> bool {
    s.len() >= p.len() && s.take(p.len() as int) == p
}

/// HTML entity decoding in one pass from left to right: each of `&quot;`,
/// `&amp;`, `&lt;`, `&gt;`, `&nbsp;` and `&apos;` becomes its character, and
/// the text that a decoding produces is not read again (`&amp;lt;` gives
/// `&lt;`).
pub open spec fn unescape_spec(s: Seq<char>) -> Seq<char>
    decreases s.len(),
{
    if s.len() == 0 {
        s
    } else if starts_with_seq(s, s_quot()) {
        seq!['"'] + unescape_spec(s.skip(6))
    } else if starts_with_seq(s, s_amp()) {
        seq!['&'] + unescape_spec(s.skip(5))
    } else if starts_with_seq(s, s_lt()) {
        seq!['<'] + unescape_spec(s.skip(4))
    } else if starts_with_seq(s, s_gt()) {
        seq!['>'] + unescape_spec(s.skip(4))
    } else if starts_with_seq(s, s_nbsp()) {
        seq![' '] + unescape_spec(s.skip(6))
    } else if starts_with_seq(s, s_apos()) {
        seq!['\''] + unescape_spec(s.skip(6))
    } else {
        seq![s[0]] + unescape_spec(s.drop_first())
    }
}

/// Value of `attr='..'` (or, failing that, `attr=".."`) inside a tag.
pub open spec fn get_attribute_spec(tag: Seq<char>, attr: Seq<char>) -> Option<Seq<char>> {
    let pat = attr + seq!['=', '\''];
    let single = match find_seq_from(tag, 0, pat) {
        Some(st) => match find_char_from(tag, st + pat.len(), '\'') {
            Some(e) => Some(tag.subrange(st + pat.len(), e)),
            None => None,
        },
        None => None,
    };
    if single is Some {
        single
    } else {
        let pat2 = attr + seq!['=', '"'];
        match find_seq_from(tag, 0, pat2) {
            Some(st) => match find_char_from(tag, st + pat2.len(), '"') {
                Some(e) => Some(tag.subrange(st + pat2.len(), e)),
                None => None,
            },
            None => None,
        }
    }
}

/// The family a new run uses: the innermost open `<span>` family (with
/// `monospace` standing for the theme's monospace font), or the theme font.
pub open spec fn resolve_family(families: Seq<Seq<char>>, font: Seq<char>, mono: Seq<char>) -> Seq<
    char,
> {
    if families.len() == 0 {
        font
    } else if families.last() == s_monospace() {
        mono
    } else {
        families.last()
    }
}

/// Appends text `t` in the current style; merges with the last run when its
/// weight, slant and family are the same.
pub open spec fn push_spec(st: MarkupState, t: Seq<char>, font: Seq<char>, mono: Seq<char>) -> MarkupState {
    if t.len() == 0 {
        st
    } else {
        let fam = resolve_family(st.families, font, mono);
        let b = st.bold > 0;
        let i = st.italic > 0;
        let n = utf8_len(t);
        let runs = if st.runs.len() > 0 && st.runs.last().bold == b && st.runs.last().italic == i
            && st.runs.last().family == fam {
            st.runs.update(
                st.runs.len() - 1,
                RunSpec { len: st.runs.last().len + n, ..st.runs.last() },
            )
        } else {
            st.runs.push(RunSpec { len: n, bold: b, italic: i, family: fam })
        };
        MarkupState { text: st.text + t, runs, ..st }
    }
}

pub open spec fn is_br(lower: Seq<char>) -> bool {
    lower == seq!['b', 'r'] || lower == seq!['b', 'r', '/'] || lower == seq!['b', 'r', ' ', '/']
}

/// Effect of one complete tag `<...>` on the state.
pub open spec fn tag_spec(st: MarkupState, tag: Seq<char>, font: Seq<char>, mono: Seq<char>) -> MarkupState {
    let inner = trim_spec(tag.subrange(1, tag.len() - 1));
    let lower = lower_seq(inner);
    if lower == seq!['b'] {
        MarkupState { bold: st.bold + 1, ..st }
    } else if lower == seq!['/', 'b'] {
        MarkupState {
            bold: if st.bold > 0 {
                (st.bold - 1) as nat
            } else {
                0
            },
            ..st
        }
    } else if lower == seq!['i'] {
        MarkupState { italic: st.italic + 1, ..st }
    } else if lower == seq!['/', 'i'] {
        MarkupState {
            italic: if st.italic > 0 {
                (st.italic - 1) as nat
            } else {
                0
            },
            ..st
        }
    } else if is_br(lower) {
        push_spec(st, seq!['\n', '\n'], font, mono)
    } else if lower.len() >= 4 && lower.take(4) == seq!['s', 'p', 'a', 'n'] {
        match get_attribute_spec(inner, s_font_desc()) {
            Some(f) => MarkupState { families: st.families.push(f), ..st },
            None => st,
        }
    } else if lower == seq!['/', 's', 'p', 'a', 'n'] {
        MarkupState {
            families: if st.families.len() > 0 {
                st.families.drop_last()
            } else {
                st.families
            },
            ..st
        }
    } else {
        push_spec(st, unescape_spec(tag), font, mono)
    }
}

/// Parses `c[p..]` from state `st`.
pub open spec fn markup_run(c: Seq<char>, p: int, st: MarkupState, font: Seq<char>, mono: Seq<char>) -> MarkupState
    decreases c.len() - p,
{
    if p < 0 || p >= c.len() {
        st
    } else {
        match find_char_from(c, p, '<') {
            None => push_spec(st, unescape_spec(c.subrange(p, c.len() as int)), font, mono),
            Some(ts) => {
                let st1 = if ts > p {
                    push_spec(st, unescape_spec(c.subrange(p, ts)), font, mono)
                } else {
                    st
                };
                match find_char_from(c, ts, '>') {
                    None => push_spec(st1, unescape_spec(c.subrange(ts, c.len() as int)), font, mono),
                    Some(te) => {
                        proof {
                            lemma_find_char_from(c, p, '<');
                            lemma_find_char_from(c, ts, '>');
                        }
                        markup_run(
                            c,
                            te + 1,
                            tag_spec(st1, c.subrange(ts, te + 1), font, mono),
                            font,
                            mono,
                        )
                    },
                }
            },
        }
    }
}

/// Text and runs that markup `c` renders to.
pub open spec fn markup_spec(c: Seq<char>, font: Seq<char>, mono: Seq<char>) -> MarkupState {
    markup_run(c, 0, markup_init(), font, mono)
}

/// Sum of the run lengths.
pub open spec fn runs_total(runs: Seq<RunSpec>) -> nat
    decreases runs.len(),
{
    if runs.len() == 0 {
        0
    } else {
        runs_total(runs.drop_last()) + runs.last().len
    }
}

pub open spec fn same_style(a: RunSpec, b: RunSpec) -> bool {
    a.bold == b.bold && a.italic == b.italic && a.family == b.family
}

/// What every parser state keeps: the runs cover the text byte for byte, no
/// run is empty, and neighbouring runs differ in style.
pub open spec fn runs_wf(st: MarkupState) -> bool {
    &&& runs_total(st.runs) == utf8_len(st.text)
    &&& forall|k: int| 0 <= k < st.runs.len() ==> #[trigger] st.runs[k].len > 0
    &&& forall|k: int|
        0 <= k < st.runs.len() - 1 ==> !same_style(#[trigger] st.runs[k], st.runs[k + 1])
}

proof fn lemma_runs_total_update(runs: Seq<RunSpec>, n: nat)
    requires
        runs.len() > 0,
    ensures
        runs_total(runs.update(runs.len() - 1, RunSpec { len: runs.last().len + n, ..runs.last() }))
            == runs_total(runs) + n,
{
    let u = runs.update(runs.len() - 1, RunSpec { len: runs.last().len + n, ..runs.last() });
    assert(u.drop_last() == runs.drop_last());
}

proof fn lemma_push_wf(st: MarkupState, t: Seq<char>, font: Seq<char>, mono: Seq<char>)
    requires
        runs_wf(st),
    ensures
        runs_wf(push_spec(st, t, font, mono)),
        push_spec(st, t, font, mono).text == st.text + t,
        push_spec(st, t, font, mono).bold == st.bold,
        push_spec(st, t, font, mono).italic == st.italic,
        push_spec(st, t, font, mono).families == st.families,
{
    if t.len() > 0 {
        lemma_utf8_len_concat(st.text, t);
        let n = utf8_len(t);
        assert(n > 0) by {
            assert(t == seq![t[0]] + t.drop_first());
            lemma_utf8_len_concat(seq![t[0]], t.drop_first());
            vstd::utf8::char_is_scalar(t[0]);
            assert(seq![t[0]].drop_first() == Seq::<char>::empty());
        }
        let r = push_spec(st, t, font, mono);
        let fam = resolve_family(st.families, font, mono);
        if st.runs.len() > 0 && st.runs.last().bold == (st.bold > 0) && st.runs.last().italic == (
        st.italic > 0) && st.runs.last().family == fam {
            lemma_runs_total_update(st.runs, n);
            assert forall|k: int| 0 <= k < r.runs.len() - 1 implies !same_style(
                #[trigger] r.runs[k],
                r.runs[k + 1],
            ) by {
                assert(same_style(r.runs[k + 1], st.runs[k + 1]));
                assert(r.runs[k] == st.runs[k]);
            }
        } else {
            assert(r.runs.drop_last() == st.runs);
            assert forall|k: int| 0 <= k < r.runs.len() - 1 implies !same_style(
                #[trigger] r.runs[k],
                r.runs[k + 1],
            ) by {
                if k < st.runs.len() - 1 {
                    assert(r.runs[k] == st.runs[k]);
                    assert(r.runs[k + 1] == st.runs[k + 1]);
                }
            }
        }
    }
}

proof fn lemma_tag_wf(st: MarkupState, tag: Seq<char>, font: Seq<char>, mono: Seq<char>)
    requires
        runs_wf(st),
    ensures
        runs_wf(tag_spec(st, tag, font, mono)),
{
    lemma_push_wf(st, seq!['\n', '\n'], font, mono);
    lemma_push_wf(st, unescape_spec(tag), font, mono);
}

proof fn lemma_run_wf(c: Seq<char>, p: int, st: MarkupState, font: Seq<char>, mono: Seq<char>)
    requires
        runs_wf(st),
    ensures
        runs_wf(markup_run(c, p, st, font, mono)),
    decreases c.len() - p,
{
    if 0 <= p < c.len() {
        lemma_find_char_from(c, p, '<');
        match find_char_from(c, p, '<') {
            None => {
                lemma_push_wf(st, unescape_spec(c.subrange(p, c.len() as int)), font, mono);
            },
            Some(ts) => {
                let st1 = if ts > p {
                    push_spec(st, unescape_spec(c.subrange(p, ts)), font, mono)
                } else {
                    st
                };
                lemma_push_wf(st, unescape_spec(c.subrange(p, ts)), font, mono);
                lemma_find_char_from(c, ts, '>');
                match find_char_from(c, ts, '>') {
                    None => {
                        lemma_push_wf(st1, unescape_spec(c.subrange(ts, c.len() as int)), font, mono);
                    },
                    Some(te) => {
                        lemma_tag_wf(st1, c.subrange(ts, te + 1), font, mono);
                        lemma_run_wf(
                            c,
                            te + 1,
                            tag_spec(st1, c.subrange(ts, te + 1), font, mono),
                            font,
                            mono,
                        );
                    },
                }
            },
        }
    }
}

/// Rendering any markup gives runs whose byte lengths add up to the byte length
/// of the rendered text, none of them empty, and no two neighbours of the same
/// style (they would have been merged).
pub proof fn lemma_markup_runs_cover_text(c: Seq<char>, font: Seq<char>, mono: Seq<char>)
    ensures
        runs_wf(markup_spec(c, font, mono)),
{
    lemma_run_wf(c, 0, markup_init(), font, mono);
}

proof fn lemma_unescape_len(s: Seq<char>)
    ensures
        unescape_spec(s).len() <= s.len(),
    decreases s.len(),
{
    if s.len() > 0 {
        if starts_with_seq(s, s_quot()) || starts_with_seq(s, s_nbsp()) || starts_with_seq(s, s_apos()) {
            lemma_unescape_len(s.skip(6));
        }
        if starts_with_seq(s, s_amp()) {
            lemma_unescape_len(s.skip(5));
        }
        if starts_with_seq(s, s_lt()) || starts_with_seq(s, s_gt()) {
            lemma_unescape_len(s.skip(4));
        }
        lemma_unescape_len(s.drop_first());
    }
}

/// `s[i..]` starts with `p` exactly when `matches_at` says so.
proof fn lemma_starts_at(s: Seq<char>, i: int, p: Seq<char>)
    requires
        0 <= i <= s.len(),
    ensures
        starts_with_seq(s.skip(i), p) == (p.len() <= s.len() - i && s.subrange(i, i + p.len()) == p),
{
    if p.len() <= s.len() - i {
        assert(s.skip(i).take(p.len() as int) == s.subrange(i, i + p.len()));
    }
}

fn unescape_chars(s: &Vec<char>) -> (r: Vec<char>)
    ensures
        r@ == unescape_spec(s@),
{
    let quot = vec!['&', 'q', 'u', 'o', 't', ';'];
    let amp = vec!['&', 'a', 'm', 'p', ';'];
    let lt = vec!['&', 'l', 't', ';'];
    let gt = vec!['&', 'g', 't', ';'];
    let nbsp = vec!['&', 'n', 'b', 's', 'p', ';'];
    let apos = vec!['&', 'a', 'p', 'o', 's', ';'];
    assert(quot@ =~= s_quot());
    assert(amp@ =~= s_amp());
    assert(lt@ =~= s_lt());
    assert(gt@ =~= s_gt());
    assert(nbsp@ =~= s_nbsp());
    assert(apos@ =~= s_apos());
    let n = s.len();
    let mut out: Vec<char> = Vec::new();
    let mut i: usize = 0;
    assert(s@.skip(0) == s@);
    while i < n
        invariant
            i <= n == s@.len(),
            quot@ == s_quot() && amp@ == s_amp() && lt@ == s_lt(),
            gt@ == s_gt() && nbsp@ == s_nbsp() && apos@ == s_apos(),
            out@ + unescape_spec(s@.skip(i as int)) == unescape_spec(s@),
        decreases n - i,
    {
        let ghost rest = s@.skip(i as int);
        proof {
            lemma_starts_at(s@, i as int, s_quot());
            lemma_starts_at(s@, i as int, s_amp());
            lemma_starts_at(s@, i as int, s_lt());
            lemma_starts_at(s@, i as int, s_gt());
            lemma_starts_at(s@, i as int, s_nbsp());
            lemma_starts_at(s@, i as int, s_apos());
        }
        let (c, w): (char, usize) = if matches_at(s, i, &quot) {
            ('"', 6)
        } else if matches_at(s, i, &amp) {
            ('&', 5)
        } else if matches_at(s, i, &lt) {
            ('<', 4)
        } else if matches_at(s, i, &gt) {
            ('>', 4)
        } else if matches_at(s, i, &nbsp) {
            (' ', 6)
        } else if matches_at(s, i, &apos) {
            ('\'', 6)
        } else {
            (s[i], 1)
        };
        proof {
            assert(rest.skip(w as int) == s@.skip(i + w));
            assert(rest.drop_first() == s@.skip(i + 1));
            assert(rest[0] == s@[i as int]);
            assert(unescape_spec(rest) == seq![c] + unescape_spec(s@.skip(i + w)));
            assert(out@.push(c) + unescape_spec(s@.skip(i + w)) == out@ + (seq![c] + unescape_spec(
                s@.skip(i + w),
            )));
        }
        out.push(c);
        i = i + w;
    }
    assert(s@.skip(n as int).len() == 0);
    assert(out@ + unescape_spec(s@.skip(n as int)) == out@);
    out
}

/// Decodes the HTML entities `&quot;`, `&amp;`, `&lt;`, `&gt;`, `&nbsp;` and
/// `&apos;`, each once, in one pass from left to right.
pub fn unescape_html(s: &str) -> (r: String)
    ensures
        r@ == unescape_spec(s@),
{
    let v = str_chars(s);
    let u = unescape_chars(&v);
    string_from_chars(u.as_slice())
}

fn get_attribute_chars(tag: &Vec<char>, attr: &Vec<char>) -> (r: Option<Vec<char>>)
    ensures
        r matches Some(v) ==> get_attribute_spec(tag@, attr@) == Some(v@),
        r is None ==> get_attribute_spec(tag@, attr@) is None,
{
    let mut pat = attr.clone();
    pat.push('=');
    pat.push('\'');
    assert(pat@ == attr@ + seq!['=', '\'']);
    if let Some(start) = find_seq(tag, 0, &pat) {
        assert(start + pat.len() <= tag.len());
        if let Some(end) = find_char(tag, start + pat.len(), '\'') {
            proof {
                lemma_find_char_from(tag@, start + pat@.len(), '\'');
            }
            return Some(sub_chars(tag, start + pat.len(), end));
        }
    }
    let mut pat2 = attr.clone();
    pat2.push('=');
    pat2.push('"');
    assert(pat2@ == attr@ + seq!['=', '"']);
    if let Some(start) = find_seq(tag, 0, &pat2) {
        assert(start + pat2.len() <= tag.len());
        if let Some(end) = find_char(tag, start + pat2.len(), '"') {
            proof {
                lemma_find_char_from(tag@, start + pat2@.len(), '"');
            }
            return Some(sub_chars(tag, start + pat2.len(), end));
        }
    }
    None
}

/// Value of `attr='..'` or `attr=".."` inside a tag, if present.
pub fn get_attribute(tag: &str, attr: &str) -> (r: Option<String>)
    ensures
        r matches Some(v) ==> get_attribute_spec(tag@, attr@) == Some(v@),
        r is None ==> get_attribute_spec(tag@, attr@) is None,
{
    let t = str_chars(tag);
    let a = str_chars(attr);
    match get_attribute_chars(&t, &a) {
        Some(v) => Some(string_from_chars(v.as_slice())),
        None => None,
    }
}

struct RunBuf {
    len: usize,
    bold: bool,
    italic: bool,
    family: Vec<char>,
}

spec fn run_view(r: RunBuf) -> RunSpec {
    RunSpec { len: r.len as nat, bold: r.bold, italic: r.italic, family: r.family@ }
}

spec fn runs_view(runs: Seq<RunBuf>) -> Seq<RunSpec> {
    runs.map_values(|r: RunBuf| run_view(r))
}

spec fn fams_view(f: Seq<Vec<char>>) -> Seq<Seq<char>> {
    f.map_values(|v: Vec<char>| v@)
}

spec fn state_view(
    text: Seq<char>,
    runs: Seq<RunBuf>,
    bold: usize,
    italic: usize,
    fams: Seq<Vec<char>>,
) -> MarkupState {
    MarkupState {
        text,
        runs: runs_view(runs),
        bold: bold as nat,
        italic: italic as nat,
        families: fams_view(fams),
    }
}

proof fn lemma_total_le_last(runs: Seq<RunSpec>)
    requires
        runs.len() > 0,
    ensures
        runs.last().len <= runs_total(runs),
{
}

fn resolve_family_exec(fams: &Vec<Vec<char>>, font: &Vec<char>, mono: &Vec<char>) -> (r: Vec<char>)
    ensures
        r@ == resolve_family(fams_view(fams@), font@, mono@),
{
    if fams.len() == 0 {
        font.clone()
    } else {
        let last = &fams[fams.len() - 1];
        let m = vec!['m', 'o', 'n', 'o', 's', 'p', 'a', 'c', 'e'];
        assert(m@ =~= s_monospace());
        if chars_eq(last, &m) {
            mono.clone()
        } else {
            last.clone()
        }
    }
}

fn push_run(
    t: &Vec<char>,
    bold: usize,
    italic: usize,
    fams: &Vec<Vec<char>>,
    font: &Vec<char>,
    mono: &Vec<char>,
    text: &mut Vec<char>,
    runs: &mut Vec<RunBuf>,
)
    requires
        4 * (old(text)@.len() + t@.len()) <= usize::MAX,
        runs_wf(state_view(old(text)@, old(runs)@, bold, italic, fams@)),
    ensures
        state_view(final(text)@, final(runs)@, bold, italic, fams@) == push_spec(
            state_view(old(text)@, old(runs)@, bold, italic, fams@),
            t@,
            font@,
            mono@,
        ),
{
    let ghost st = state_view(old(text)@, old(runs)@, bold, italic, fams@);
    if t.len() == 0 {
        return;
    }
    let n = utf8_len_range(t, 0, t.len());
    assert(t@.subrange(0, t@.len() as int) == t@);
    proof {
        lemma_push_wf(st, t@, font@, mono@);
        crate::text::lemma_utf8_len_bound(st.text + t@);
    }
    extend_chars(text, t);
    let family = resolve_family_exec(fams, font, mono);
    let b = bold > 0;
    let i = italic > 0;
    let ghost fam = resolve_family(st.families, font@, mono@);
    let k = runs.len();
    if k > 0 && runs[k - 1].bold == b && runs[k - 1].italic == i && chars_eq(
        &runs[k - 1].family,
        &family,
    ) {
        proof {
            lemma_total_le_last(st.runs);
            lemma_runs_total_update(st.runs, utf8_len(t@));
        }
        let mut last = runs.pop().unwrap();
        last.len = last.len + n;
        runs.push(last);
        assert(runs_view(runs@) == st.runs.update(
            st.runs.len() - 1,
            RunSpec { len: st.runs.last().len + utf8_len(t@), ..st.runs.last() },
        ));
    } else {
        runs.push(RunBuf { len: n, bold: b, italic: i, family });
        assert(runs_view(runs@) == st.runs.push(
            RunSpec { len: utf8_len(t@), bold: b, italic: i, family: fam },
        ));
    }
}

fn apply_tag(
    tag: &Vec<char>,
    bold: &mut usize,
    italic: &mut usize,
    fams: &mut Vec<Vec<char>>,
    font: &Vec<char>,
    mono: &Vec<char>,
    text: &mut Vec<char>,
    runs: &mut Vec<RunBuf>,
)
    requires
        tag@.len() >= 2,
        *old(bold) < usize::MAX,
        *old(italic) < usize::MAX,
        4 * (old(text)@.len() + tag@.len()) <= usize::MAX,
        runs_wf(state_view(old(text)@, old(runs)@, *old(bold), *old(italic), old(fams)@)),
    ensures
        state_view(final(text)@, final(runs)@, *final(bold), *final(italic), final(fams)@)
            == tag_spec(
            state_view(old(text)@, old(runs)@, *old(bold), *old(italic), old(fams)@),
            tag@,
            font@,
            mono@,
        ),
        final(text)@.len() <= old(text)@.len() + tag@.len(),
        *final(bold) <= *old(bold) + 1,
        *final(italic) <= *old(italic) + 1,
{
    let (b, e) = trim_bounds(tag, 1, tag.len() - 1);
    let inner = sub_chars(tag, b, e);
    let lower = chars_to_ascii_lowercase(&inner);
    proof {
        crate::text::lemma_trim_len(tag@.subrange(1, tag@.len() - 1));
    }
    let l_b = vec!['b'];
    let l_cb = vec!['/', 'b'];
    let l_i = vec!['i'];
    let l_ci = vec!['/', 'i'];
    let l_br = vec!['b', 'r'];
    let l_br2 = vec!['b', 'r', '/'];
    let l_br3 = vec!['b', 'r', ' ', '/'];
    let l_cspan = vec!['/', 's', 'p', 'a', 'n'];
    assert(l_b@ =~= seq!['b']);
    assert(l_cb@ =~= seq!['/', 'b']);
    assert(l_i@ =~= seq!['i']);
    assert(l_ci@ =~= seq!['/', 'i']);
    assert(l_br@ =~= seq!['b', 'r']);
    assert(l_br2@ =~= seq!['b', 'r', '/']);
    assert(l_br3@ =~= seq!['b', 'r', ' ', '/']);
    assert(l_cspan@ =~= seq!['/', 's', 'p', 'a', 'n']);
    if chars_eq(&lower, &l_b) {
        *bold = *bold + 1;
    } else if chars_eq(&lower, &l_cb) {
        if *bold > 0 {
            *bold = *bold - 1;
        }
    } else if chars_eq(&lower, &l_i) {
        *italic = *italic + 1;
    } else if chars_eq(&lower, &l_ci) {
        if *italic > 0 {
            *italic = *italic - 1;
        }
    } else if chars_eq(&lower, &l_br) || chars_eq(&lower, &l_br2) || chars_eq(&lower, &l_br3) {
        let nl = vec!['\n', '\n'];
        assert(nl@ =~= seq!['\n', '\n']);
        assert(lower@.len() >= 2);
        push_run(&nl, *bold, *italic, fams, font, mono, text, runs);
    } else if lower.len() >= 4 && lower[0] == 's' && lower[1] == 'p' && lower[2] == 'a' && lower[3]
        == 'n' {
        assert(lower@.take(4) =~= seq!['s', 'p', 'a', 'n']);
        let fd = vec!['f', 'o', 'n', 't', '_', 'd', 'e', 's', 'c'];
        assert(fd@ =~= s_font_desc());
        if let Some(f) = get_attribute_chars(&inner, &fd) {
            let ghost f0 = fams@;
            fams.push(f);
            assert(fams_view(fams@) == fams_view(f0).push(f@));
        }
    } else if chars_eq(&lower, &l_cspan) {
        if fams.len() > 0 {
            let ghost f0 = fams@;
            let _ = fams.pop();
            assert(fams_view(fams@) == fams_view(f0).drop_last());
        }
    } else {
        proof {
            if lower@.len() >= 4 {
                assert(lower@.take(4) != seq!['s', 'p', 'a', 'n']) by {
                    if lower@.take(4) == seq!['s', 'p', 'a', 'n'] {
                        assert(lower@.take(4)[0] == lower@[0]);
                        assert(lower@.take(4)[1] == lower@[1]);
                        assert(lower@.take(4)[2] == lower@[2]);
                        assert(lower@.take(4)[3] == lower@[3]);
                    }
                }
            }
            lemma_unescape_len(tag@);
        }
        let lit = unescape_chars(tag);
        push_run(&lit, *bold, *italic, fams, font, mono, text, runs);
    }
}

/// Renders a small Pango-like markup: `<b>`, `<i>`, `<br>` (also `<br/>` and
/// `<br />`), `<span font_desc='..'>` and HTML entities. Unknown tags are kept
/// as literal text; an unclosed `<` ends the markup and is kept as text.
///
/// Returns the plain text and its styled runs (lengths in UTF-8 bytes).
pub fn parse_pango(content: &str, theme: &FontTheme) -> (r: (String, Vec<TextRun>))
    requires
        4 * content@.len() <= usize::MAX,
    ensures
        r.0@ == markup_spec(content@, theme.font_family@, theme.monospace@).text,
        r.1@.len() == markup_spec(content@, theme.font_family@, theme.monospace@).runs.len(),
        forall|k: int|
            0 <= k < r.1@.len() ==> {
                let s = #[trigger] markup_spec(content@, theme.font_family@, theme.monospace@).runs[k];
                &&& r.1@[k].len == s.len
                &&& r.1@[k].bold == s.bold
                &&& r.1@[k].italic == s.italic
                &&& r.1@[k].family@ == s.family
            },
        runs_wf(markup_spec(content@, theme.font_family@, theme.monospace@)),
{
    let c = str_chars(content);
    let font = str_chars(theme.font_family.as_str());
    let mono = str_chars(theme.monospace.as_str());
    let ghost fs = font@;
    let ghost ms = mono@;
    let mut text: Vec<char> = Vec::new();
    let mut runs: Vec<RunBuf> = Vec::new();
    let mut bold: usize = 0;
    let mut italic: usize = 0;
    let mut fams: Vec<Vec<char>> = Vec::new();
    let mut p: usize = 0;
    proof {
        assert(runs_view(runs@) =~= Seq::<RunSpec>::empty());
        assert(fams_view(fams@) =~= Seq::<Seq<char>>::empty());
        assert(state_view(text@, runs@, bold, italic, fams@) =~= markup_init());
    }
    while p < c.len()
        invariant
            c@ == content@,
            font@ == fs,
            mono@ == ms,
            4 * c@.len() <= usize::MAX,
            p <= c@.len(),
            text@.len() <= p,
            bold <= p,
            italic <= p,
            runs_wf(state_view(text@, runs@, bold, italic, fams@)),
            markup_run(c@, p as int, state_view(text@, runs@, bold, italic, fams@), fs, ms)
                == markup_run(c@, 0, markup_init(), fs, ms),
        decreases c.len() - p,
    {
        let ghost st = state_view(text@, runs@, bold, italic, fams@);
        match find_char(&c, p, '<') {
            None => {
                proof {
                    lemma_unescape_len(c@.subrange(p as int, c@.len() as int));
                    lemma_push_wf(st, unescape_spec(c@.subrange(p as int, c@.len() as int)), fs, ms);
                }
                let seg = sub_chars(&c, p, c.len());
                let u = unescape_chars(&seg);
                push_run(&u, bold, italic, &fams, &font, &mono, &mut text, &mut runs);
                p = c.len();
            },
            Some(ts) => {
                proof {
                    lemma_find_char_from(c@, p as int, '<');
                }
                if ts > p {
                    proof {
                        lemma_unescape_len(c@.subrange(p as int, ts as int));
                        lemma_push_wf(st, unescape_spec(c@.subrange(p as int, ts as int)), fs, ms);
                    }
                    let seg = sub_chars(&c, p, ts);
                    let u = unescape_chars(&seg);
                    push_run(&u, bold, italic, &fams, &font, &mono, &mut text, &mut runs);
                }
                let ghost st1 = state_view(text@, runs@, bold, italic, fams@);
                match find_char(&c, ts, '>') {
                    None => {
                        proof {
                            lemma_unescape_len(c@.subrange(ts as int, c@.len() as int));
                            lemma_push_wf(
                                st1,
                                unescape_spec(c@.subrange(ts as int, c@.len() as int)),
                                fs,
                                ms,
                            );
                        }
                        let seg = sub_chars(&c, ts, c.len());
                        let u = unescape_chars(&seg);
                        push_run(&u, bold, italic, &fams, &font, &mono, &mut text, &mut runs);
                        p = c.len();
                    },
                    Some(te) => {
                        proof {
                            lemma_find_char_from(c@, ts as int, '>');
                            lemma_tag_wf(st1, c@.subrange(ts as int, te + 1), fs, ms);
                        }
                        let tag = sub_chars(&c, ts, te + 1);
                        apply_tag(
                            &tag,
                            &mut bold,
                            &mut italic,
                            &mut fams,
                            &font,
                            &mono,
                            &mut text,
                            &mut runs,
                        );
                        p = te + 1;
                    },
                }
            },
        }
    }
    proof {
        lemma_markup_runs_cover_text(c@, fs, ms);
    }
    let mut out: Vec<TextRun> = Vec::new();
    let mut k: usize = 0;
    let ghost rv = runs_view(runs@);
    while k < runs.len()
        invariant
            k <= runs@.len(),
            rv == runs_view(runs@),
            out@.len() == k,
            forall|j: int|
                0 <= j < k ==> {
                    &&& (#[trigger] out@[j]).len == rv[j].len
                    &&& out@[j].bold == rv[j].bold
                    &&& out@[j].italic == rv[j].italic
                    &&& out@[j].family@ == rv[j].family
                },
        decreases runs.len() - k,
    {
        let r = &runs[k];
        out.push(
            TextRun {
                len: r.len,
                bold: r.bold,
                italic: r.italic,
                family: string_from_chars(r.family.as_slice()),
            },
        );
        k += 1;
    }
    (string_from_chars(text.as_slice()), out)
}

} // verus!

