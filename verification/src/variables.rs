use vstd::prelude::*;

use crate::text::{chars_eq, extend_chars, str_chars, string_from_chars};

verus! {

/// Names what `regex::Regex::split` gives for the expression `pattern`
/// (compiled with `Regex::new`) on `text`: the pieces of `text` between the
/// matches, in order; `None` when the pattern does not compile.
pub uninterp spec fn regex_split_of(pattern: Seq<char>, text: Seq<char>) -> Option<Seq<Seq<char>>>;

/// Names what `regex::Regex::captures_iter` gives for the expression
/// `pattern` (compiled with `Regex::new`) on `text`: for each match in order,
/// the text of each group (group 0 is the whole match, `None` for a group
/// that took no part); `None` when the pattern does not compile.
pub uninterp spec fn regex_matches_of(pattern: Seq<char>, text: Seq<char>) -> Option<
    Seq<Seq<Option<Seq<char>>>>,
>;

/// The views of a list of strings.
pub open spec fn str_views(v: Seq<String>) -> Seq<Seq<char>> {
    v.map_values(|s: String| s@)
}

/// The views of the groups of several matches.
pub open spec fn match_views(v: Seq<Vec<Option<String>>>) -> Seq<Seq<Option<Seq<char>>>> {
    v.map_values(
        |m: Vec<Option<String>>|
            m@.map_values(
                |g: Option<String>|
                    match g {
                        Some(s) => Some(s@),
                        None => None,
                    },
            ),
    )
}

/// Compiles `pattern` with `regex::Regex::new` and cuts `text` at its
/// matches with `Regex::split`. Claimed: the result is `regex_split_of` of
/// the two strings; nothing is claimed of what that is.
#[verifier::external_body]
fn regex_split(pattern: &str, text: &str) -> (r: Option<Vec<String>>)
    ensures
        match r {
            Some(v) => regex_split_of(pattern@, text@) == Some(str_views(v@)),
            None => regex_split_of(pattern@, text@) is None,
        },
{
    let re = regex::Regex::new(pattern).ok()?;
    Some(re.split(text).map(|p| p.to_string()).collect())
}

/// Compiles `pattern` with `regex::Regex::new` and lists its matches in
/// `text` with `Regex::captures_iter`, giving each group's text. Claimed: the
/// result is `regex_matches_of` of the two strings; nothing is claimed of
/// what that is.
#[verifier::external_body]
fn regex_matches(pattern: &str, text: &str) -> (r: Option<Vec<Vec<Option<String>>>>)
    ensures
        match r {
            Some(v) => regex_matches_of(pattern@, text@) == Some(match_views(v@)),
            None => regex_matches_of(pattern@, text@) is None,
        },
{
    let re = regex::Regex::new(pattern).ok()?;
    Some(
        re.captures_iter(text).map(
            |c| c.iter().map(|m| m.map(|m| m.as_str().to_string())).collect(),
        ).collect(),
    )
}

/// The expression of the variables of a command: `{key}` or `{key:value}`
/// (groups 1 and 2), and `{prefix[key]:text}` (groups 3 and 4).
pub open spec fn variable_pattern() -> Seq<char> {
    "\\{([a-zA-Z_]+)(?::(.*?))?\\}|\\{prefix\\[(.*?)\\]:(.*?)\\}"@
}

/// Group `i` of a match, if it took part.
pub open spec fn group_at(m: Seq<Option<Seq<char>>>, i: int) -> Option<Seq<char>> {
    if 0 <= i < m.len() {
        m[i]
    } else {
        None
    }
}

/// The text of group `i`, empty when it took no part.
pub open spec fn group_text(m: Seq<Option<Seq<char>>>, i: int) -> Seq<char> {
    match group_at(m, i) {
        Some(t) => t,
        None => seq![],
    }
}

/// Some variable is named `key` and has a value.
pub open spec fn has_value(vars: Seq<(Seq<char>, Seq<char>)>, key: Seq<char>) -> bool {
    exists|i: int| 0 <= i < vars.len() && #[trigger] vars[i].0 == key && vars[i].1.len() > 0
}

/// The first variable named `key`.
pub open spec fn first_named(vars: Seq<(Seq<char>, Seq<char>)>, key: Seq<char>) -> Option<int>
    decreases vars.len(),
{
    if vars.len() == 0 {
        None
    } else {
        match first_named(vars.drop_last(), key) {
            Some(i) => Some(i),
            None => if vars.last().0 == key {
                Some(vars.len() - 1)
            } else {
                None
            },
        }
    }
}

/// What a match of a variable is replaced by: a prefix gives its text when
/// its variable has a value and nothing otherwise; `{terminal}` gives the
/// terminal with `-e`, `{keyword}` the query, `{variable:name}` the value of
/// the variable `name`; anything else stays as it was.
pub open spec fn replacement(
    m: Seq<Option<Seq<char>>>,
    keyword: Seq<char>,
    vars: Seq<(Seq<char>, Seq<char>)>,
    terminal: Seq<char>,
) -> Seq<char> {
    if group_at(m, 3) is Some && group_at(m, 4) is Some {
        if has_value(vars, group_text(m, 3)) {
            group_text(m, 4)
        } else {
            seq![]
        }
    } else {
        let key = group_text(m, 1);
        if key == "terminal"@ {
            terminal + " -e"@
        } else if key == "keyword"@ {
            keyword
        } else if key == "variable"@ {
            match group_at(m, 2) {
                Some(name) => match first_named(vars, name) {
                    Some(i) => vars[i].1,
                    None => group_text(m, 0),
                },
                None => group_text(m, 0),
            }
        } else {
            group_text(m, 0)
        }
    }
}

/// The pieces between the matches, each followed by the replacement of the
/// match after it (a missing piece counts as empty).
pub open spec fn interleave(
    gaps: Seq<Seq<char>>,
    ms: Seq<Seq<Option<Seq<char>>>>,
    keyword: Seq<char>,
    vars: Seq<(Seq<char>, Seq<char>)>,
    terminal: Seq<char>,
) -> Seq<char>
    decreases ms.len(),
{
    if ms.len() == 0 {
        if gaps.len() > 0 {
            gaps[0]
        } else {
            seq![]
        }
    } else {
        interleave(gaps, ms.drop_last(), keyword, vars, terminal) + replacement(
            ms.last(),
            keyword,
            vars,
            terminal,
        ) + if ms.len() < gaps.len() {
            gaps[ms.len() as int]
        } else {
            seq![]
        }
    }
}

/// The variables given as plain views.
pub open spec fn var_views(v: Seq<(String, String)>) -> Seq<(Seq<char>, Seq<char>)> {
    v.map_values(|p: (String, String)| (p.0@, p.1@))
}

/// The command with its variables filled in, given the pieces between the
/// matches of the variable pattern and the matches themselves; unchanged
/// when the pattern gave nothing.
pub open spec fn fill_spec(
    exec: Seq<char>,
    gaps: Option<Seq<Seq<char>>>,
    ms: Option<Seq<Seq<Option<Seq<char>>>>>,
    keyword: Seq<char>,
    vars: Seq<(Seq<char>, Seq<char>)>,
    terminal: Seq<char>,
) -> Seq<char> {
    match (gaps, ms) {
        (Some(g), Some(m)) => interleave(g, m, keyword, vars, terminal),
        _ => exec,
    }
}

fn group_of(m: &Vec<Option<String>>, i: usize) -> (r: Option<&String>)
    ensures
        match r {
            Some(s) => group_at(
                m@.map_values(
                    |g: Option<String>|
                        match g {
                            Some(s) => Some(s@),
                            None => None,
                        },
                ),
                i as int,
            ) == Some(s@),
            None => group_at(
                m@.map_values(
                    |g: Option<String>|
                        match g {
                            Some(s) => Some(s@),
                            None => None,
                        },
                ),
                i as int,
            ) is None,
        },
{
    if i < m.len() {
        match &m[i] {
            Some(s) => Some(s),
            None => None,
        }
    } else {
        None
    }
}

fn text_of(g: Option<&String>) -> (r: Vec<char>)
    ensures
        r@ == match g {
            Some(s) => s@,
            None => Seq::<char>::empty(),
        },
{
    match g {
        Some(s) => str_chars(s.as_str()),
        None => Vec::new(),
    }
}

fn any_with_value(vars: &[(String, String)], key: &Vec<char>) -> (r: bool)
    ensures
        r == has_value(var_views(vars@), key@),
{
    let mut i: usize = 0;
    while i < vars.len()
        invariant
            i <= vars@.len(),
            forall|j: int| 0 <= j < i ==> !(vars@[j].0@ == key@ && vars@[j].1@.len() > 0),
        decreases vars.len() - i,
    {
        let k = str_chars(vars[i].0.as_str());
        let v = str_chars(vars[i].1.as_str());
        if chars_eq(&k, key) && v.len() > 0 {
            assert(var_views(vars@)[i as int] == (vars@[i as int].0@, vars@[i as int].1@));
            assert(var_views(vars@)[i as int].0 == key@);
            return true;
        }
        i += 1;
    }
    proof {
        if has_value(var_views(vars@), key@) {
            let j = choose|j: int|
                0 <= j < var_views(vars@).len() && #[trigger] var_views(vars@)[j].0 == key@
                    && var_views(vars@)[j].1.len() > 0;
            assert(var_views(vars@)[j] == (vars@[j].0@, vars@[j].1@));
        }
    }
    false
}

fn find_named(vars: &[(String, String)], key: &Vec<char>) -> (r: Option<usize>)
    ensures
        match r {
            Some(i) => first_named(var_views(vars@), key@) == Some(i as int) && i < vars@.len(),
            None => first_named(var_views(vars@), key@) is None,
        },
{
    let ghost vs = var_views(vars@);
    let mut i: usize = 0;
    while i < vars.len()
        invariant
            i <= vars@.len(),
            vs == var_views(vars@),
            first_named(vs.take(i as int), key@) is None,
        decreases vars.len() - i,
    {
        let k = str_chars(vars[i].0.as_str());
        assert(vs.take(i + 1).drop_last() == vs.take(i as int));
        if chars_eq(&k, key) {
            proof {
                lemma_first_named_prefix(vs, key@, i + 1);
            }
            return Some(i);
        }
        i += 1;
    }
    assert(vs.take(vars@.len() as int) == vs);
    None
}

proof fn lemma_first_named_prefix(vars: Seq<(Seq<char>, Seq<char>)>, key: Seq<char>, k: int)
    requires
        0 <= k <= vars.len(),
        first_named(vars.take(k), key) is Some,
    ensures
        first_named(vars, key) == first_named(vars.take(k), key),
    decreases vars.len(),
{
    if k < vars.len() {
        assert(vars.drop_last().take(k) == vars.take(k));
        lemma_first_named_prefix(vars.drop_last(), key, k);
    } else {
        assert(vars.take(k) == vars);
    }
}

fn replace_match(
    m: &Vec<Option<String>>,
    keyword: &str,
    vars: &[(String, String)],
    terminal: &str,
) -> (r: Vec<char>)
    ensures
        r@ == replacement(
            m@.map_values(
                |g: Option<String>|
                    match g {
                        Some(s) => Some(s@),
                        None => None,
                    },
            ),
            keyword@,
            var_views(vars@),
            terminal@,
        ),
{
    let g3 = group_of(m, 3);
    let g4 = group_of(m, 4);
    if g3.is_some() && g4.is_some() {
        let key = text_of(g3);
        if any_with_value(vars, &key) {
            return text_of(g4);
        } else {
            return Vec::new();
        }
    }
    let key = text_of(group_of(m, 1));
    if chars_eq(&key, &str_chars("terminal")) {
        let mut out = str_chars(terminal);
        extend_chars(&mut out, &str_chars(" -e"));
        out
    } else if chars_eq(&key, &str_chars("keyword")) {
        str_chars(keyword)
    } else if chars_eq(&key, &str_chars("variable")) {
        match group_of(m, 2) {
            Some(name) => {
                let n = str_chars(name.as_str());
                match find_named(vars, &n) {
                    Some(i) => {
                        assert(var_views(vars@)[i as int] == (vars@[i as int].0@, vars@[i as int].1@));
                        str_chars(vars[i].1.as_str())
                    },
                    None => text_of(group_of(m, 0)),
                }
            },
            None => text_of(group_of(m, 0)),
        }
    } else {
        text_of(group_of(m, 0))
    }
}

/// Fills the variables of a command given the pieces between the matches of
/// the variable pattern and the matches themselves.
pub fn fill_variables(
    gaps: &Vec<String>,
    matches: &Vec<Vec<Option<String>>>,
    keyword: &str,
    variables: &[(String, String)],
    terminal: &str,
) -> (r: String)
    ensures
        r@ == interleave(
            str_views(gaps@),
            match_views(matches@),
            keyword@,
            var_views(variables@),
            terminal@,
        ),
{
    let ghost gs = str_views(gaps@);
    let ghost ms = match_views(matches@);
    let mut out: Vec<char> = if gaps.len() > 0 {
        str_chars(gaps[0].as_str())
    } else {
        Vec::new()
    };
    let mut i: usize = 0;
    while i < matches.len()
        invariant
            i <= matches@.len(),
            gs == str_views(gaps@),
            ms == match_views(matches@),
            out@ == interleave(gs, ms.take(i as int), keyword@, var_views(variables@), terminal@),
        decreases matches.len() - i,
    {
        let rep = replace_match(&matches[i], keyword, variables, terminal);
        extend_chars(&mut out, &rep);
        if i + 1 < gaps.len() {
            let g = str_chars(gaps[i + 1].as_str());
            extend_chars(&mut out, &g);
        }
        proof {
            let t = ms.take(i + 1);
            assert(t.drop_last() == ms.take(i as int));
            assert(t.last() == ms[i as int]);
        }
        i += 1;
    }
    assert(ms.take(matches@.len() as int) == ms);
    string_from_chars(out.as_slice())
}

/// Fills the variables of a command: `{terminal}`, `{keyword}`,
/// `{variable:name}` and `{prefix[name]:text}`.
pub fn parse_variables(
    exec_input: &str,
    keyword: &str,
    variables: &[(String, String)],
    terminal: &str,
) -> (r: String)
    ensures
        r@ == fill_spec(
            exec_input@,
            regex_split_of(variable_pattern(), exec_input@),
            regex_matches_of(variable_pattern(), exec_input@),
            keyword@,
            var_views(variables@),
            terminal@,
        ),
{
    let pattern = "\\{([a-zA-Z_]+)(?::(.*?))?\\}|\\{prefix\\[(.*?)\\]:(.*?)\\}";
    let gaps = regex_split(pattern, exec_input);
    let matches = regex_matches(pattern, exec_input);
    match (gaps, matches) {
        (Some(g), Some(m)) => fill_variables(&g, &m, keyword, variables, terminal),
        _ => exec_input.to_owned(),
    }
}

/// `first_named` finds the first variable called `key`, and none when no
/// variable is called so.
proof fn lemma_first_named_first(vars: Seq<(Seq<char>, Seq<char>)>, key: Seq<char>)
    ensures
        match first_named(vars, key) {
            Some(i) => 0 <= i < vars.len() && vars[i].0 == key && forall|k: int|
                0 <= k < i ==> vars[k].0 != key,
            None => forall|k: int| 0 <= k < vars.len() ==> vars[k].0 != key,
        },
    decreases vars.len(),
{
    if vars.len() > 0 {
        let p = vars.drop_last();
        lemma_first_named_first(p, key);
        assert(forall|k: int| 0 <= k < p.len() ==> p[k] == vars[k]);
    }
}

/// A `{variable:name}` placeholder is replaced by the value of the first
/// variable called `name`, whatever that value is (an empty one too), and
/// stays as it is written when no variable is called `name`.
pub proof fn lemma_variable_placeholder(
    m: Seq<Option<Seq<char>>>,
    keyword: Seq<char>,
    vars: Seq<(Seq<char>, Seq<char>)>,
    terminal: Seq<char>,
    name: Seq<char>,
)
    requires
        group_at(m, 1) == Some("variable"@),
        group_at(m, 2) == Some(name),
        !(group_at(m, 3) is Some && group_at(m, 4) is Some),
    ensures
        forall|i: int|
            0 <= i < vars.len() && vars[i].0 == name && (forall|k: int| 0 <= k < i ==> vars[k].0 != name)
                ==> replacement(m, keyword, vars, terminal) == #[trigger] vars[i].1,
        (forall|k: int| 0 <= k < vars.len() ==> vars[k].0 != name) ==> replacement(
            m,
            keyword,
            vars,
            terminal,
        ) == group_text(m, 0),
{
    reveal_strlit("variable");
    reveal_strlit("terminal");
    reveal_strlit("keyword");
    assert("variable"@[0] == 'v' && "terminal"@[0] == 't');
    assert("variable"@ != "terminal"@);
    assert("variable"@ != "keyword"@);
    lemma_first_named_first(vars, name);
    assert forall|i: int|
        0 <= i < vars.len() && vars[i].0 == name && (forall|k: int| 0 <= k < i ==> vars[k].0 != name)
            implies replacement(m, keyword, vars, terminal) == #[trigger] vars[i].1 by {
        match first_named(vars, name) {
            Some(j) => {
                if j < i {
                    assert(vars[j].0 != name);
                } else if i < j {
                    assert(vars[i].0 != name);
                }
            },
            None => {
                assert(vars[i].0 != name);
            },
        }
    }
}

} // verus!
