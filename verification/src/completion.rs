use vstd::prelude::*;

use crate::order::{lex_order, sort_strings, string_views};
use crate::paths::{join_path, join_spec};
use crate::text::{extend_chars, str_chars, string_from_chars};

verus! {

/// The path typed, made absolute: `~` at its start stands for the home
/// directory and a relative path is taken from the home directory; `None`
/// for nothing typed.
pub open spec fn completion_path_spec(input: Seq<char>, home: Seq<char>) -> Option<Seq<char>> {
    if input.len() == 0 {
        None
    } else if input[0] == '/' {
        Some(input)
    } else if input[0] == '~' {
        Some(home + input.drop_first())
    } else {
        Some(join_spec(home, input))
    }
}

/// Makes the typed path absolute.
pub fn completion_path(input: &str, home: &str) -> (r: Option<String>)
    ensures
        match r {
            Some(p) => completion_path_spec(input@, home@) == Some(p@),
            None => completion_path_spec(input@, home@) is None,
        },
{
    let v = str_chars(input);
    if v.len() == 0 {
        return None;
    }
    if v[0] == '/' {
        return Some(input.to_owned());
    }
    if v[0] == '~' {
        let mut out = str_chars(home);
        let mut i: usize = 1;
        let ghost start = out@;
        while i < v.len()
            invariant
                1 <= i <= v@.len(),
                out@ == start + v@.subrange(1, i as int),
            decreases v.len() - i,
        {
            out.push(v[i]);
            i += 1;
        }
        assert(v@.subrange(1, v@.len() as int) == v@.drop_first());
        return Some(string_from_chars(out.as_slice()));
    }
    Some(join_path(home, input))
}

/// Whether `s` starts with `p`.
pub open spec fn starts_with(s: Seq<char>, p: Seq<char>) -> bool {
    s.len() >= p.len() && s.take(p.len() as int) == p
}

/// The entries offered for completion: those not hidden that start with the
/// part typed, in the order listed.
pub open spec fn candidates(names: Seq<Seq<char>>, prefix: Seq<char>) -> Seq<Seq<char>>
    decreases names.len(),
{
    if names.len() == 0 {
        seq![]
    } else {
        let rest = candidates(names.drop_last(), prefix);
        let n = names.last();
        if !(n.len() > 0 && n[0] == '.') && starts_with(n, prefix) {
            rest.push(n)
        } else {
            rest
        }
    }
}

/// The `n`-th completion, counting round the candidates sorted.
pub open spec fn pick_spec(names: Seq<Seq<char>>, prefix: Seq<char>, n: nat) -> Option<Seq<char>> {
    let c = candidates(names, prefix).sort_by(lex_order());
    if c.len() == 0 {
        None
    } else {
        Some(c[(n % c.len()) as int])
    }
}

/// Asking for the `n`-th completion or for the one a full round later gives
/// the same entry.
pub proof fn lemma_pick_cycles(names: Seq<Seq<char>>, prefix: Seq<char>, n: nat)
    ensures
        pick_spec(names, prefix, n) == pick_spec(
            names,
            prefix,
            n + candidates(names, prefix).sort_by(lex_order()).len(),
        ),
{
    let c = candidates(names, prefix).sort_by(lex_order());
    if c.len() > 0 {
        assert((n + c.len()) % c.len() == n % c.len()) by (nonlinear_arith)
            requires
                c.len() > 0,
        ;
    }
}

fn starts_with_vec(s: &Vec<char>, p: &Vec<char>) -> (r: bool)
    ensures
        r == starts_with(s@, p@),
{
    if s.len() < p.len() {
        return false;
    }
    let mut i: usize = 0;
    while i < p.len()
        invariant
            p@.len() <= s@.len(),
            i <= p@.len(),
            forall|j: int| 0 <= j < i ==> s@[j] == p@[j],
        decreases p.len() - i,
    {
        if s[i] != p[i] {
            assert(s@.take(p@.len() as int)[i as int] != p@[i as int]);
            return false;
        }
        i += 1;
    }
    assert(s@.take(p@.len() as int) == p@);
    true
}

/// Picks the `n`-th entry (round the sorted candidates) of a directory
/// listing for the part typed.
pub fn pick_completion(names: Vec<String>, prefix: &str, n: usize) -> (r: Option<String>)
    ensures
        match r {
            Some(s) => pick_spec(string_views(names@), prefix@, n as nat) == Some(s@),
            None => pick_spec(string_views(names@), prefix@, n as nat) is None,
        },
{
    broadcast use vstd::seq_lib::group_to_multiset_ensures;

    let ghost ns = string_views(names@);
    let p = str_chars(prefix);
    let mut kept: Vec<String> = Vec::new();
    let mut i: usize = 0;
    while i < names.len()
        invariant
            i <= names@.len(),
            ns == string_views(names@),
            p@ == prefix@,
            string_views(kept@) == candidates(ns.take(i as int), prefix@),
        decreases names.len() - i,
    {
        let s = str_chars(names[i].as_str());
        assert(ns.take(i + 1).drop_last() == ns.take(i as int));
        assert(ns.take(i + 1).last() == names@[i as int]@);
        if !(s.len() > 0 && s[0] == '.') && starts_with_vec(&s, &p) {
            let ghost before = string_views(kept@);
            kept.push(names[i].clone());
            assert(string_views(kept@) == before.push(s@));
        }
        i += 1;
    }
    assert(ns.take(names@.len() as int) == ns);
    let sorted = sort_strings(kept);
    if sorted.len() == 0 {
        return None;
    }
    let k = n % sorted.len();
    assert(string_views(sorted@)[k as int] == sorted@[k as int]@);
    Some(sorted[k].clone())
}

/// Index just after the last `/` of `s[..j]`, or 0.
pub open spec fn after_last_slash(s: Seq<char>, j: int) -> int
    decreases j,
{
    if j <= 0 {
        0
    } else if s[j - 1] == '/' {
        j
    } else {
        after_last_slash(s, j - 1)
    }
}

/// What is shown after the typed text: the chosen entry put in place of the
/// last part typed (with `/` after a directory), less the text typed; `None`
/// when that does not start with the text typed.
pub open spec fn remainder_spec(input: Seq<char>, chosen: Seq<char>, is_dir: bool) -> Option<Seq<char>> {
    let full = input.take(after_last_slash(input, input.len() as int)) + chosen + if is_dir {
        seq!['/']
    } else {
        seq![]
    };
    if starts_with(full, input) {
        Some(full.skip(input.len() as int))
    } else {
        None
    }
}

/// The completion shown after the typed text.
pub fn completion_remainder(input: &str, chosen: &str, is_dir: bool) -> (r: Option<String>)
    ensures
        match r {
            Some(s) => remainder_spec(input@, chosen@, is_dir) == Some(s@),
            None => remainder_spec(input@, chosen@, is_dir) is None,
        },
{
    let v = str_chars(input);
    let mut j = v.len();
    while j > 0 && v[j - 1] != '/'
        invariant
            j <= v@.len(),
            after_last_slash(v@, j as int) == after_last_slash(v@, v@.len() as int),
        decreases j,
    {
        j -= 1;
    }
    let mut full: Vec<char> = Vec::new();
    let mut i: usize = 0;
    while i < j
        invariant
            i <= j <= v@.len(),
            full@ == v@.take(i as int),
        decreases j - i,
    {
        full.push(v[i]);
        assert(v@.take(i + 1) == v@.take(i as int).push(v@[i as int]));
        i += 1;
    }
    extend_chars(&mut full, &str_chars(chosen));
    if is_dir {
        full.push('/');
    }
    proof {
        let t = if is_dir {
            seq!['/']
        } else {
            Seq::<char>::empty()
        };
        assert(full@ == v@.take(j as int) + chosen@ + t);
    }
    if !starts_with_vec(&full, &v) {
        return None;
    }
    let mut out: Vec<char> = Vec::new();
    let mut k = v.len();
    while k < full.len()
        invariant
            v@.len() <= k <= full@.len(),
            out@ == full@.subrange(v@.len() as int, k as int),
        decreases full.len() - k,
    {
        out.push(full[k]);
        k += 1;
    }
    assert(full@.subrange(v@.len() as int, full@.len() as int) == full@.skip(v@.len() as int));
    Some(string_from_chars(out.as_slice()))
}

} // verus!
