use vstd::prelude::*;

use crate::intent::eq_ignore_ascii_case;
use crate::text::{chars_eq, char_is_whitespace, char_to_ascii_lowercase, is_ws, lower_char, str_chars, string_from_chars};

verus! {

/// The state of the command splitter between two characters.
pub struct SplitState {
    pub args: Seq<Seq<char>>,
    pub current: Seq<char>,
    pub in_single_quote: bool,
    pub in_double_quote: bool,
    pub escaped: bool,
}

pub open spec fn split_init() -> SplitState {
    SplitState {
        args: seq![],
        current: seq![],
        in_single_quote: false,
        in_double_quote: false,
        escaped: false,
    }
}

/// One step of the splitter on character `c`; `has_next` tells whether another
/// character follows.
pub open spec fn split_step(st: SplitState, c: char, has_next: bool) -> SplitState {
    if st.escaped {
        SplitState { current: st.current.push(c), escaped: false, ..st }
    } else if c == '\\' {
        if has_next {
            SplitState { escaped: true, ..st }
        } else {
            SplitState { current: st.current.push('\\'), ..st }
        }
    } else if c == '\'' && !st.in_double_quote {
        SplitState { in_single_quote: !st.in_single_quote, ..st }
    } else if c == '"' && !st.in_single_quote {
        SplitState { in_double_quote: !st.in_double_quote, ..st }
    } else if is_ws(c) && !st.in_single_quote && !st.in_double_quote {
        if st.current.len() > 0 {
            SplitState { args: st.args.push(st.current), current: seq![], ..st }
        } else {
            st
        }
    } else {
        SplitState { current: st.current.push(c), ..st }
    }
}

/// Runs the splitter over `chars[i..]` from state `st`.
pub open spec fn split_run(chars: Seq<char>, i: int, st: SplitState) -> SplitState
    decreases chars.len() - i,
{
    if i < 0 || i >= chars.len() {
        st
    } else {
        split_run(chars, i + 1, split_step(st, chars[i], i + 1 < chars.len()))
    }
}

/// Arguments found once the last buffered argument is flushed.
pub open spec fn split_finish(st: SplitState) -> Seq<Seq<char>> {
    if st.current.len() > 0 {
        st.args.push(st.current)
    } else {
        st.args
    }
}

/// Whether an argument is a desktop-entry field code such as `%u`.
pub open spec fn is_field_code(a: Seq<char>) -> bool {
    a.len() > 0 && a[0] == '%'
}

/// The arguments that are no field codes, in order.
pub open spec fn drop_field_codes(args: Seq<Seq<char>>) -> Seq<Seq<char>>
    decreases args.len(),
{
    if args.len() == 0 {
        seq![]
    } else if is_field_code(args.last()) {
        drop_field_codes(args.drop_last())
    } else {
        drop_field_codes(args.drop_last()).push(args.last())
    }
}

/// The arguments that `split_as_command` yields for a command line.
pub open spec fn split_spec(cmd: Seq<char>) -> Seq<Seq<char>> {
    drop_field_codes(split_finish(split_run(cmd, 0, split_init())))
}

proof fn lemma_split_run_unfold(chars: Seq<char>, i: int, st: SplitState)
    requires
        0 <= i < chars.len(),
    ensures
        split_run(chars, i, st) == split_run(
            chars,
            i + 1,
            split_step(st, chars[i], i + 1 < chars.len()),
        ),
{
}

/// Splits a command line into its arguments, the way a shell would: white space
/// separates arguments, single and double quotes group them (and are dropped),
/// a backslash escapes the next character, and desktop-entry field codes
/// (arguments starting with `%`) are removed.
pub fn split_as_command(cmd: &str) -> (args: Vec<String>)
    ensures
        args@.len() == split_spec(cmd@).len(),
        forall|k: int| 0 <= k < args@.len() ==> #[trigger] args@[k]@ == split_spec(cmd@)[k],
{
    let chars = str_chars(cmd);
    let mut args: Vec<Vec<char>> = Vec::new();
    let mut current: Vec<char> = Vec::new();
    let mut in_single_quote = false;
    let mut in_double_quote = false;
    let mut escaped = false;
    let ghost init = split_init();
    let mut i: usize = 0;
    assert(args@.map_values(|a: Vec<char>| a@) == init.args);
    assert(current@ == init.current);
    while i < chars.len()
        invariant
            chars@ == cmd@,
            i <= chars@.len(),
            ({
                let st = SplitState {
                    args: args@.map_values(|a: Vec<char>| a@),
                    current: current@,
                    in_single_quote,
                    in_double_quote,
                    escaped,
                };
                split_run(chars@, i as int, st) == split_run(chars@, 0, init)
            }),
        decreases chars.len() - i,
    {
        let ghost st0 = SplitState {
            args: args@.map_values(|a: Vec<char>| a@),
            current: current@,
            in_single_quote,
            in_double_quote,
            escaped,
        };
        proof {
            lemma_split_run_unfold(chars@, i as int, st0);
        }
        let c = chars[i];
        if escaped {
            current.push(c);
            escaped = false;
        } else if c == '\\' {
            // only an escape when a character follows
            if i + 1 < chars.len() {
                escaped = true;
            } else {
                current.push('\\');
            }
        } else if c == '\'' && !in_double_quote {
            in_single_quote = !in_single_quote;
        } else if c == '"' && !in_single_quote {
            in_double_quote = !in_double_quote;
        } else if char_is_whitespace(c) && !in_single_quote && !in_double_quote {
            if current.len() > 0 {
                let ghost old_args = args@;
                args.push(current);
                current = Vec::new();
                assert(args@.map_values(|a: Vec<char>| a@) == old_args.map_values(
                    |a: Vec<char>| a@,
                ).push(st0.current));
            }
        } else {
            current.push(c);
        }
        i += 1;
        proof {
            let st1 = SplitState {
                args: args@.map_values(|a: Vec<char>| a@),
                current: current@,
                in_single_quote,
                in_double_quote,
                escaped,
            };
            assert(st1 == split_step(st0, c, i < chars@.len()));
        }
    }
    // flush the last argument
    if current.len() > 0 {
        let ghost old_args = args@;
        args.push(current);
        assert(args@.map_values(|a: Vec<char>| a@) == old_args.map_values(|a: Vec<char>| a@).push(
            current@,
        ));
    }
    let ghost all = split_finish(split_run(chars@, 0, init));
    assert(args@.map_values(|a: Vec<char>| a@) == all);

    // drop field codes such as %u
    let mut out: Vec<String> = Vec::new();
    let mut k: usize = 0;
    while k < args.len()
        invariant
            k <= args@.len(),
            args@.map_values(|a: Vec<char>| a@) == all,
            out@.len() == drop_field_codes(all.take(k as int)).len(),
            forall|j: int|
                0 <= j < out@.len() ==> #[trigger] out@[j]@ == drop_field_codes(all.take(k as int))[j],
        decreases args.len() - k,
    {
        let a = &args[k];
        assert(all.take(k + 1).drop_last() == all.take(k as int));
        assert(all.take(k + 1).last() == a@);
        if !(a.len() > 0 && a[0] == '%') {
            out.push(string_from_chars(a.as_slice()));
        }
        k += 1;
    }
    assert(all.take(args@.len() as int) == all);
    out
}

/// Every argument collected so far is non-empty.
pub open spec fn args_nonempty(st: SplitState) -> bool {
    forall|k: int| 0 <= k < st.args.len() ==> #[trigger] st.args[k].len() > 0
}

proof fn lemma_split_run_nonempty(chars: Seq<char>, i: int, st: SplitState)
    requires
        args_nonempty(st),
    ensures
        args_nonempty(split_run(chars, i, st)),
    decreases chars.len() - i,
{
    if 0 <= i < chars.len() {
        let next = split_step(st, chars[i], i + 1 < chars.len());
        assert(args_nonempty(next));
        lemma_split_run_nonempty(chars, i + 1, next);
    }
}

proof fn lemma_drop_field_codes(args: Seq<Seq<char>>)
    requires
        forall|k: int| 0 <= k < args.len() ==> #[trigger] args[k].len() > 0,
    ensures
        forall|k: int|
            0 <= k < drop_field_codes(args).len() ==> #[trigger] drop_field_codes(args)[k].len() > 0
                && drop_field_codes(args)[k][0] != '%',
    decreases args.len(),
{
    if args.len() > 0 {
        let rest = args.drop_last();
        assert forall|k: int| 0 <= k < rest.len() implies #[trigger] rest[k].len() > 0 by {
            assert(rest[k] == args[k]);
        }
        lemma_drop_field_codes(rest);
        assert(args.last() == args[args.len() - 1]);
        let d = drop_field_codes(args);
        let dr = drop_field_codes(rest);
        if !is_field_code(args.last()) {
            assert(d == dr.push(args.last()));
            assert forall|k: int| 0 <= k < d.len() implies #[trigger] d[k].len() > 0 && d[k][0] != '%' by {
                if k < dr.len() {
                    assert(d[k] == dr[k]);
                }
            }
        }
    }
}

/// The state inside a quoted word after its first `k` characters.
pub open spec fn quoted_state(w: Seq<char>, k: int, q: char) -> SplitState {
    SplitState {
        args: seq![],
        current: w.take(k),
        in_single_quote: q == '\'',
        in_double_quote: q == '"',
        escaped: false,
    }
}

proof fn lemma_quoted_run(w: Seq<char>, q: char, k: int)
    requires
        q == '\'' || q == '"',
        0 <= k <= w.len(),
        forall|i: int| 0 <= i < w.len() ==> w[i] != q && w[i] != '\\',
    ensures
        split_run(seq![q] + w + seq![q], 1 + k, quoted_state(w, k, q)) == split_run(
            seq![q] + w + seq![q],
            1 + w.len() as int,
            quoted_state(w, w.len() as int, q),
        ),
    decreases w.len() - k,
{
    let cmd = seq![q] + w + seq![q];
    if k < w.len() {
        assert(cmd[1 + k] == w[k]);
        let st = quoted_state(w, k, q);
        assert(w.take(k).push(w[k]) == w.take(k + 1));
        assert(split_step(st, w[k], 1 + k + 1 < cmd.len()) == quoted_state(w, k + 1, q));
        lemma_quoted_run(w, q, k + 1);
    }
}

/// A word in single or double quotes is one argument, its white space kept,
/// when it holds neither that quote nor a backslash (and is no field code).
pub proof fn lemma_quoted_word(w: Seq<char>, q: char)
    requires
        q == '\'' || q == '"',
        w.len() > 0,
        w[0] != '%',
        forall|i: int| 0 <= i < w.len() ==> w[i] != q && w[i] != '\\',
    ensures
        split_spec(seq![q] + w + seq![q]) == seq![w],
{
    let cmd = seq![q] + w + seq![q];
    assert(cmd[0] == q);
    assert(split_step(split_init(), q, 1 < cmd.len()) == quoted_state(w, 0, q)) by {
        assert(w.take(0) == Seq::<char>::empty());
    }
    lemma_quoted_run(w, q, 0);
    let n = w.len() as int;
    assert(cmd[1 + n] == q);
    assert(w.take(n) == w);
    let last = split_step(quoted_state(w, n, q), q, 1 + n + 1 < cmd.len());
    assert(last.args == Seq::<Seq<char>>::empty() && last.current == w);
    assert(split_run(cmd, 2 + n, last) == last);
    assert(split_finish(last) == seq![w]);
    assert(seq![w].drop_last() == Seq::<Seq<char>>::empty());
    assert(drop_field_codes(seq![w]) == drop_field_codes(Seq::<Seq<char>>::empty()).push(w));
}

/// A character the splitter, in state `st`, just adds to the current
/// argument: no backslash, and no quote that would open or close, nor
/// (outside quotes) white space.
pub open spec fn plain_in(st: SplitState, c: char) -> bool {
    c != '\\' && if st.in_single_quote {
        c != '\''
    } else if st.in_double_quote {
        c != '"'
    } else {
        c != '\'' && c != '"' && !is_ws(c)
    }
}

proof fn lemma_plain_run(cmd: Seq<char>, i: int, j: int, st: SplitState)
    requires
        0 <= i <= j <= cmd.len(),
        !st.escaped,
        !(st.in_single_quote && st.in_double_quote),
        forall|k: int| i <= k < j ==> plain_in(st, #[trigger] cmd[k]),
    ensures
        split_run(cmd, i, st) == split_run(
            cmd,
            j,
            SplitState { current: st.current + cmd.subrange(i, j), ..st },
        ),
    decreases j - i,
{
    if i == j {
        assert(st.current + cmd.subrange(i, j) == st.current);
        assert(SplitState { current: st.current + cmd.subrange(i, j), ..st } == st);
    } else {
        lemma_split_run_unfold(cmd, i, st);
        let next = SplitState { current: st.current.push(cmd[i]), ..st };
        assert(split_step(st, cmd[i], i + 1 < cmd.len()) == next);
        lemma_plain_run(cmd, i + 1, j, next);
        assert(next.current + cmd.subrange(i + 1, j) == st.current + cmd.subrange(i, j));
    }
}

/// Quotes group wherever they stand in a word: a quoted part that follows
/// the start of a word joins that word, its quotes dropped and its white
/// space kept (`--name="My App"` is one argument, `--name=My App`).
pub proof fn lemma_quote_inside_word(p: Seq<char>, w: Seq<char>, q: char)
    requires
        q == '\'' || q == '"',
        p.len() > 0,
        p[0] != '%',
        forall|i: int|
            0 <= i < p.len() ==> #[trigger] p[i] != '\'' && p[i] != '"' && p[i] != '\\' && !is_ws(p[i]),
        forall|i: int| 0 <= i < w.len() ==> #[trigger] w[i] != q && w[i] != '\\',
    ensures
        split_spec(p + seq![q] + w + seq![q]) == seq![p + w],
{
    let cmd = p + seq![q] + w + seq![q];
    let n = p.len() as int;
    let m = w.len() as int;
    assert(cmd.len() == n + m + 2);
    assert(cmd.subrange(0, n) == p);
    assert(cmd.subrange(n + 1, n + 1 + m) == w);
    assert(cmd[n] == q);
    assert(cmd[n + 1 + m] == q);
    let st0 = split_init();
    assert forall|k: int| 0 <= k < n implies plain_in(st0, #[trigger] cmd[k]) by {
        assert(cmd[k] == p[k]);
    }
    lemma_plain_run(cmd, 0, n, st0);
    let a = SplitState { current: st0.current + cmd.subrange(0, n), ..st0 };
    assert(a.current == p);
    lemma_split_run_unfold(cmd, n, a);
    let b = split_step(a, q, n + 1 < cmd.len());
    assert(b == SplitState {
        in_single_quote: q == '\'',
        in_double_quote: q == '"',
        ..a
    });
    assert forall|k: int| n + 1 <= k < n + 1 + m implies plain_in(b, #[trigger] cmd[k]) by {
        assert(cmd[k] == w[k - n - 1]);
    }
    lemma_plain_run(cmd, n + 1, n + 1 + m, b);
    let c = SplitState { current: b.current + cmd.subrange(n + 1, n + 1 + m), ..b };
    assert(c.current == p + w);
    lemma_split_run_unfold(cmd, n + 1 + m, c);
    let d = split_step(c, q, n + 2 + m < cmd.len());
    assert(d.args == Seq::<Seq<char>>::empty() && d.current == p + w);
    assert(split_run(cmd, n + 2 + m, d) == d);
    assert(split_finish(d) == seq![p + w]);
    assert((p + w)[0] == p[0]);
    assert(seq![p + w].drop_last() == Seq::<Seq<char>>::empty());
    assert(drop_field_codes(seq![p + w]) == drop_field_codes(Seq::<Seq<char>>::empty()).push(p + w));
}

/// A backslash makes the character after it part of the word, whatever
/// that character is (white space or a quote too), and is itself dropped.
pub proof fn lemma_backslash_escapes(p: Seq<char>, c: char)
    requires
        p.len() > 0,
        p[0] != '%',
        forall|i: int|
            0 <= i < p.len() ==> #[trigger] p[i] != '\'' && p[i] != '"' && p[i] != '\\' && !is_ws(p[i]),
    ensures
        split_spec(p + seq!['\\', c]) == seq![p.push(c)],
{
    let cmd = p + seq!['\\', c];
    let n = p.len() as int;
    assert(cmd.len() == n + 2);
    assert(cmd.subrange(0, n) == p);
    assert(cmd[n] == '\\');
    assert(cmd[n + 1] == c);
    let st0 = split_init();
    assert forall|k: int| 0 <= k < n implies plain_in(st0, #[trigger] cmd[k]) by {
        assert(cmd[k] == p[k]);
    }
    lemma_plain_run(cmd, 0, n, st0);
    let a = SplitState { current: st0.current + cmd.subrange(0, n), ..st0 };
    assert(a.current == p);
    lemma_split_run_unfold(cmd, n, a);
    let b = split_step(a, '\\', n + 1 < cmd.len());
    assert(b == SplitState { escaped: true, ..a });
    lemma_split_run_unfold(cmd, n + 1, b);
    let d = split_step(b, c, n + 2 < cmd.len());
    assert(d.args == Seq::<Seq<char>>::empty() && d.current == p.push(c));
    assert(split_run(cmd, n + 2, d) == d);
    assert(split_finish(d) == seq![p.push(c)]);
    assert(p.push(c)[0] == p[0]);
    assert(seq![p.push(c)].drop_last() == Seq::<Seq<char>>::empty());
    assert(drop_field_codes(seq![p.push(c)]) == drop_field_codes(Seq::<Seq<char>>::empty()).push(p.push(c)));
}

/// White space outside quotes separates arguments: two plain words with
/// white space between them are two arguments.
pub proof fn lemma_space_separates(p: Seq<char>, sp: char, r: Seq<char>)
    requires
        is_ws(sp),
        p.len() > 0,
        r.len() > 0,
        p[0] != '%',
        r[0] != '%',
        forall|i: int|
            0 <= i < p.len() ==> #[trigger] p[i] != '\'' && p[i] != '"' && p[i] != '\\' && !is_ws(p[i]),
        forall|i: int|
            0 <= i < r.len() ==> #[trigger] r[i] != '\'' && r[i] != '"' && r[i] != '\\' && !is_ws(r[i]),
    ensures
        split_spec(p + seq![sp] + r) == seq![p, r],
{
    let cmd = p + seq![sp] + r;
    let n = p.len() as int;
    let m = r.len() as int;
    assert(cmd.len() == n + 1 + m);
    assert(cmd.subrange(0, n) == p);
    assert(cmd.subrange(n + 1, n + 1 + m) == r);
    assert(cmd[n] == sp);
    let st0 = split_init();
    assert forall|k: int| 0 <= k < n implies plain_in(st0, #[trigger] cmd[k]) by {
        assert(cmd[k] == p[k]);
    }
    lemma_plain_run(cmd, 0, n, st0);
    let a = SplitState { current: st0.current + cmd.subrange(0, n), ..st0 };
    assert(a.current == p);
    lemma_split_run_unfold(cmd, n, a);
    let b = split_step(a, sp, n + 1 < cmd.len());
    assert(b == SplitState { args: seq![p], current: seq![], ..a });
    assert forall|k: int| n + 1 <= k < n + 1 + m implies plain_in(b, #[trigger] cmd[k]) by {
        assert(cmd[k] == r[k - n - 1]);
    }
    lemma_plain_run(cmd, n + 1, n + 1 + m, b);
    let c = SplitState { current: b.current + cmd.subrange(n + 1, n + 1 + m), ..b };
    assert(c.current == r);
    assert(split_run(cmd, n + 1 + m, c) == c);
    assert(split_finish(c) == seq![p, r]);
    let two = seq![p, r];
    assert(two.drop_last() == seq![p]);
    assert(seq![p].drop_last() == Seq::<Seq<char>>::empty());
    assert(drop_field_codes(seq![p]) == drop_field_codes(Seq::<Seq<char>>::empty()).push(p));
    assert(drop_field_codes(two) == drop_field_codes(seq![p]).push(r));
}

/// Every argument of a split command line is non-empty and none is a field
/// code (starts with `%`).
pub proof fn lemma_split_words(cmd: Seq<char>)
    ensures
        forall|k: int|
            0 <= k < split_spec(cmd).len() ==> #[trigger] split_spec(cmd)[k].len() > 0
                && split_spec(cmd)[k][0] != '%',
{
    lemma_split_run_nonempty(cmd, 0, split_init());
    let st = split_run(cmd, 0, split_init());
    let args = split_finish(st);
    assert forall|k: int| 0 <= k < args.len() implies #[trigger] args[k].len() > 0 by {
        if k < st.args.len() {
            assert(args[k] == st.args[k]);
        }
    }
    lemma_drop_field_codes(args);
}

/// The first argument that is `sudo`.
pub open spec fn first_sudo(parts: Seq<Seq<char>>) -> Option<int>
    decreases parts.len(),
{
    if parts.len() == 0 {
        None
    } else {
        match first_sudo(parts.drop_last()) {
            Some(i) => Some(i),
            None => if parts.last() == "sudo"@ {
                Some(parts.len() - 1)
            } else {
                None
            },
        }
    }
}

/// The arguments with `-S` put after the first `sudo`, so that it reads the
/// password from its input.
pub open spec fn with_sudo_flag(parts: Seq<Seq<char>>) -> Seq<Seq<char>> {
    match first_sudo(parts) {
        Some(i) => parts.insert(i + 1, "-S"@),
        None => parts,
    }
}

proof fn lemma_first_sudo_prefix(parts: Seq<Seq<char>>, k: int)
    requires
        0 <= k <= parts.len(),
        first_sudo(parts.take(k)) is Some,
    ensures
        first_sudo(parts) == first_sudo(parts.take(k)),
    decreases parts.len(),
{
    if k < parts.len() {
        assert(parts.drop_last().take(k) == parts.take(k));
        lemma_first_sudo_prefix(parts.drop_last(), k);
    } else {
        assert(parts.take(k) == parts);
    }
}

proof fn lemma_first_sudo_bound(parts: Seq<Seq<char>>)
    ensures
        first_sudo(parts) matches Some(i) ==> 0 <= i < parts.len() && parts[i] == "sudo"@,
    decreases parts.len(),
{
    if parts.len() > 0 {
        lemma_first_sudo_bound(parts.drop_last());
    }
}

/// How a command is started: its words (program first), with `-S` after the
/// first `sudo`, and whether a `sudo` is there (its password is then written
/// to the program's input); `None` for a command with no words.
pub fn plan_spawn(cmd: &str) -> (r: Option<(Vec<String>, bool)>)
    ensures
        r is None <==> split_spec(cmd@).len() == 0,
        r matches Some((parts, sudo)) ==> {
            &&& parts@.map_values(|p: String| p@) == with_sudo_flag(split_spec(cmd@))
            &&& sudo == first_sudo(split_spec(cmd@)) is Some
        },
{
    let mut parts = split_as_command(cmd);
    let ghost words = split_spec(cmd@);
    assert(parts@.map_values(|p: String| p@) =~= words);
    if parts.len() == 0 {
        return None;
    }
    let sudo = str_chars("sudo");
    let mut i: usize = 0;
    while i < parts.len()
        invariant
            i <= parts@.len(),
            sudo@ == "sudo"@,
            words == split_spec(cmd@),
            parts@.map_values(|p: String| p@) == words,
            first_sudo(words.take(i as int)) is None,
        decreases parts.len() - i,
    {
        let w = str_chars(parts[i].as_str());
        assert(words.take(i + 1).drop_last() == words.take(i as int));
        assert(words[i as int] == parts@[i as int]@);
        if chars_eq(&w, &sudo) {
            proof {
                lemma_first_sudo_prefix(words, i + 1);
                lemma_first_sudo_bound(words);
            }
            parts.insert(i + 1, "-S".to_owned());
            assert(parts@.map_values(|p: String| p@) =~= words.insert(i + 1, "-S"@));
            return Some((parts, true));
        }
        i += 1;
    }
    assert(words.take(parts@.len() as int) == words);
    Some((parts, false))
}

/// The variables as plain views.
pub open spec fn pair_views(v: Seq<(String, String)>) -> Seq<(Seq<char>, Seq<char>)> {
    v.map_values(|p: (String, String)| (p.0@, p.1@))
}

/// The first variable whose name is `sudo` in any case.
pub open spec fn first_sudo_var(vars: Seq<(Seq<char>, Seq<char>)>) -> Option<int>
    decreases vars.len(),
{
    if vars.len() == 0 {
        None
    } else {
        match first_sudo_var(vars.drop_last()) {
            Some(i) => Some(i),
            None => if eq_ignore_ascii_case(vars.last().0, "sudo"@) {
                Some(vars.len() - 1)
            } else {
                None
            },
        }
    }
}

proof fn lemma_first_sudo_var_prefix(vars: Seq<(Seq<char>, Seq<char>)>, k: int)
    requires
        0 <= k <= vars.len(),
        first_sudo_var(vars.take(k)) is Some,
    ensures
        first_sudo_var(vars) == first_sudo_var(vars.take(k)),
    decreases vars.len(),
{
    if k < vars.len() {
        assert(vars.drop_last().take(k) == vars.take(k));
        lemma_first_sudo_var_prefix(vars.drop_last(), k);
    } else {
        assert(vars.take(k) == vars);
    }
}

fn is_sudo_name(k: &Vec<char>) -> (r: bool)
    ensures
        r == eq_ignore_ascii_case(k@, "sudo"@),
{
    let s = str_chars("sudo");
    if k.len() != s.len() {
        return false;
    }
    let mut i: usize = 0;
    while i < k.len()
        invariant
            k@.len() == s@.len(),
            s@ == "sudo"@,
            i <= k@.len(),
            forall|j: int| 0 <= j < i ==> lower_char(#[trigger] k@[j]) == lower_char(s@[j]),
        decreases k.len() - i,
    {
        if char_to_ascii_lowercase(k[i]) != char_to_ascii_lowercase(s[i]) {
            return false;
        }
        i += 1;
    }
    true
}

/// The password to give `sudo`: the value of the first variable named `sudo`
/// in any case.
pub fn sudo_password(variables: &[(String, String)]) -> (r: Option<String>)
    ensures
        match r {
            Some(p) => first_sudo_var(pair_views(variables@)) matches Some(i) && p@ == pair_views(
                variables@,
            )[i].1,
            None => first_sudo_var(pair_views(variables@)) is None,
        },
{
    let ghost vs = pair_views(variables@);
    let mut i: usize = 0;
    while i < variables.len()
        invariant
            i <= variables@.len(),
            vs == pair_views(variables@),
            first_sudo_var(vs.take(i as int)) is None,
        decreases variables.len() - i,
    {
        let k = str_chars(variables[i].0.as_str());
        assert(vs.take(i + 1).drop_last() == vs.take(i as int));
        assert(vs[i as int] == (variables@[i as int].0@, variables@[i as int].1@));
        if is_sudo_name(&k) {
            proof {
                lemma_first_sudo_var_prefix(vs, i + 1);
            }
            return Some(variables[i].1.clone());
        }
        i += 1;
    }
    assert(vs.take(variables@.len() as int) == vs);
    None
}

} // verus!
