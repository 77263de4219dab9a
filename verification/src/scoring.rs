use vstd::prelude::*;

use crate::text::{
    chars_eq, char_len_utf8, find_seq, find_seq_from, split_chars, split_on, str_chars,
    string_from_chars, utf8_len,
};
use crate::units::{begins_with, lowercase_of, to_lowercase};

verus! {

/// The smallest of three numbers.
pub open spec fn min3(x: nat, y: nat, z: nat) -> nat {
    let m = if x <= y {
        x
    } else {
        y
    };
    if m <= z {
        m
    } else {
        z
    }
}

/// The Levenshtein distance of two texts: the fewest insertions, deletions
/// and substitutions of characters that turn `a` into `b`.
pub open spec fn edit_distance(a: Seq<char>, b: Seq<char>) -> nat
    decreases a.len() + b.len(),
{
    if a.len() == 0 {
        b.len()
    } else if b.len() == 0 {
        a.len()
    } else {
        min3(
            edit_distance(a.drop_last(), b) + 1,
            edit_distance(a, b.drop_last()) + 1,
            edit_distance(a.drop_last(), b.drop_last()) + if a.last() == b.last() {
                0nat
            } else {
                1nat
            },
        )
    }
}

/// `levenshtein::levenshtein`: the Levenshtein distance of two texts,
/// counted in characters (the crate's description is "Levenshtein
/// algorithm", and its source is the one-row dynamic program over the
/// characters of both texts); the contract states that distance.
#[verifier::external_body]
fn levenshtein(a: &str, b: &str) -> (r: usize)
    ensures
        r as nat == edit_distance(a@, b@),
{
    levenshtein::levenshtein(a, b)
}

/// How one `;`-separated name of an entry relates to the query.
#[derive(Clone, Copy, Debug, PartialEq, Eq, Structural)]
pub enum ElementMatch {
    /// The name is the query.
    Exact,
    /// The name is the query once both are lowered.
    CaseInsensitive,
    /// The lowered name starts with the lowered query.
    Prefix,
    /// The lowered query occurs in the lowered name, first at this character
    /// of the lowered name.
    Substring(usize),
    /// The name is close enough in length to be compared by edit distance:
    /// the distance of the lowered texts.
    Distance(usize),
    /// None of these.
    NoMatch,
}

/// The length in bytes of the UTF-8 text `s`, as `str::len` gives it.
pub open spec fn byte_len(s: Seq<char>) -> int {
    (utf8_len(s) as usize) as int
}

/// How much two lengths may differ for an edit distance to be worth taking:
/// a quarter of the query's length plus one, at most 4.
pub open spec fn distance_window(query_len: int) -> int {
    let m = query_len / 4 + 1;
    if m < 4 {
        m
    } else {
        4
    }
}

/// The lengths of the query and the name differ by less than the window.
pub open spec fn near_in_length(q: Seq<char>, e: Seq<char>) -> bool {
    let d = byte_len(e) - byte_len(q);
    (if d < 0 {
        -d
    } else {
        d
    }) < distance_window(byte_len(q))
}

/// How the name `e` relates to the query `q`: the first of exact, equal
/// when lowered, prefix, occurrence, and near in length that holds.
pub open spec fn element_match_spec(q: Seq<char>, e: Seq<char>) -> ElementMatch {
    let lq = lowercase_of(q);
    let le = lowercase_of(e);
    if e == q {
        ElementMatch::Exact
    } else if le == lq {
        ElementMatch::CaseInsensitive
    } else if begins_with(le, lq) {
        ElementMatch::Prefix
    } else {
        match find_seq_from(le, 0, lq) {
            Some(p) => ElementMatch::Substring(p as usize),
            None => if near_in_length(q, e) {
                ElementMatch::Distance(edit_distance(lq, le) as usize)
            } else {
                ElementMatch::NoMatch
            },
        }
    }
}

/// A match that settles the score at once.
pub open spec fn decisive(m: ElementMatch) -> bool {
    m is Exact || m is CaseInsensitive
}

/// Each non-empty name of `names` with its match, in order, up to and
/// including the first decisive one.
pub open spec fn element_matches(q: Seq<char>, names: Seq<Seq<char>>) -> Seq<(Seq<char>, ElementMatch)>
    decreases names.len(),
{
    if names.len() == 0 {
        seq![]
    } else if names[0].len() == 0 {
        element_matches(q, names.drop_first())
    } else {
        let m = element_match_spec(q, names[0]);
        if decisive(m) {
            seq![(names[0], m)]
        } else {
            seq![(names[0], m)] + element_matches(q, names.drop_first())
        }
    }
}

/// The length of `s` in bytes.
fn bytes_of(s: &str) -> (r: usize)
    ensures
        r as int == byte_len(s@),
{
    s.len()
}

/// How the name `element` relates to the query (see [`element_match_spec`]).
pub fn element_match(query: &str, element: &str) -> (r: ElementMatch)
    ensures
        r == element_match_spec(query@, element@),
{
    let qc = str_chars(query);
    let ec = str_chars(element);
    if chars_eq(&ec, &qc) {
        return ElementMatch::Exact;
    }
    let lq = to_lowercase(query);
    let le = to_lowercase(element);
    let lqc = str_chars(lq.as_str());
    let lec = str_chars(le.as_str());
    if chars_eq(&lec, &lqc) {
        return ElementMatch::CaseInsensitive;
    }
    if lqc.len() <= lec.len() {
        let head = crate::text::sub_chars(&lec, 0, lqc.len());
        if chars_eq(&head, &lqc) {
            return ElementMatch::Prefix;
        }
    }
    match find_seq(&lec, 0, &lqc) {
        Some(p) => ElementMatch::Substring(p),
        None => {
            let ql = bytes_of(query);
            let el = bytes_of(element);
            let m: usize = if ql / 4 + 1 < 4 {
                ql / 4 + 1
            } else {
                4
            };
            let near = if el >= ql {
                el - ql < m
            } else {
                ql - el < m
            };
            if near {
                ElementMatch::Distance(levenshtein(lq.as_str(), le.as_str()))
            } else {
                ElementMatch::NoMatch
            }
        },
    }
}

/// The `;`-separated names of `match_in` that are not empty, each with how
/// it relates to the query, in order, up to the first exact or
/// case-insensitive one.
pub fn match_elements(query: &str, match_in: &str) -> (r: Vec<(String, ElementMatch)>)
    ensures
        r@.map_values(|p: (String, ElementMatch)| (p.0@, p.1)) == element_matches(
            query@,
            split_on(match_in@, ';'),
        ),
{
    let pieces = split_chars(&str_chars(match_in), ';');
    let ghost names = pieces@.map_values(|p: Vec<char>| p@);
    let mut out: Vec<(String, ElementMatch)> = Vec::new();
    let mut i: usize = 0;
    assert(names.skip(0) == names);
    assert(out@.map_values(|p: (String, ElementMatch)| (p.0@, p.1)) + element_matches(query@, names)
        == element_matches(query@, names));
    while i < pieces.len()
        invariant
            i <= pieces@.len(),
            names == pieces@.map_values(|p: Vec<char>| p@),
            names == split_on(match_in@, ';'),
            out@.map_values(|p: (String, ElementMatch)| (p.0@, p.1)) + element_matches(
                query@,
                names.skip(i as int),
            ) == element_matches(query@, names),
        decreases pieces.len() - i,
    {
        let ghost rest = names.skip(i as int);
        assert(rest[0] == pieces@[i as int]@);
        assert(rest.drop_first() == names.skip(i + 1));
        if pieces[i].len() > 0 {
            let e = string_from_chars(pieces[i].as_slice());
            let m = element_match(query, e.as_str());
            let ghost before = out@.map_values(|p: (String, ElementMatch)| (p.0@, p.1));
            out.push((e, m));
            assert(out@.map_values(|p: (String, ElementMatch)| (p.0@, p.1)) == before.push(
                (pieces@[i as int]@, m),
            ));
            match m {
                ElementMatch::Exact | ElementMatch::CaseInsensitive => {
                    assert(element_matches(query@, rest) == seq![(pieces@[i as int]@, m)]);
                    assert(before + seq![(pieces@[i as int]@, m)] == before.push(
                        (pieces@[i as int]@, m),
                    ));
                    return out;
                },
                _ => {
                    assert(before.push((pieces@[i as int]@, m)) + element_matches(
                        query@,
                        names.skip(i + 1),
                    ) == before + (seq![(pieces@[i as int]@, m)] + element_matches(
                        query@,
                        names.skip(i + 1),
                    )));
                },
            }
        }
        i += 1;
    }
    assert(names.skip(pieces@.len() as int).len() == 0);
    assert(names == split_on(match_in@, ';'));
    out
}

/// `t` occurs in `s` at position `i`.
pub open spec fn occurs_at(s: Seq<char>, t: Seq<char>, i: int) -> bool {
    0 <= i && i + t.len() <= s.len() && s.subrange(i, i + t.len()) == t
}

/// The search from `p` finds the first occurrence at or after `p`, and none
/// when there is none.
proof fn lemma_find_seq_first(s: Seq<char>, p: int, t: Seq<char>)
    requires
        0 <= p,
    ensures
        match find_seq_from(s, p, t) {
            Some(i) => p <= i && occurs_at(s, t, i) && forall|k: int|
                p <= k < i ==> !occurs_at(s, t, k),
            None => forall|k: int| p <= k ==> !occurs_at(s, t, k),
        },
    decreases s.len() - p,
{
    if p + t.len() <= s.len() {
        if t.len() == 0 {
            assert(s.subrange(p, p) =~= t);
        } else if s.subrange(p, p + t.len()) != t {
            lemma_find_seq_first(s, p + 1, t);
        }
    }
}

/// What each kind of match means, for the lowered query `lq` and the
/// lowered name `le`: exact only for the query itself; equal when lowered
/// otherwise; a prefix when `lq` starts `le`; else the first position at
/// which `lq` occurs in `le`; the other kinds only when `lq` occurs nowhere
/// in `le`. So a name matches regardless of its case.
pub proof fn lemma_element_match_meaning(q: Seq<char>, e: Seq<char>)
    ensures
        ({
            let lq = lowercase_of(q);
            let le = lowercase_of(e);
            let r = element_match_spec(q, e);
            &&& (r == ElementMatch::Exact) == (e == q)
            &&& (r == ElementMatch::CaseInsensitive) == (e != q && le == lq)
            &&& (r == ElementMatch::Prefix) == (e != q && le != lq && occurs_at(le, lq, 0))
            &&& forall|i: int|
                0 < i && #[trigger] occurs_at(le, lq, i) && (forall|k: int| 0 <= k < i ==> !occurs_at(le, lq, k))
                    && e != q && le != lq ==> r == ElementMatch::Substring(i as usize)
            &&& (r is Distance || r is NoMatch) ==> forall|i: int| !#[trigger] occurs_at(le, lq, i)
        }),
{
    let lq = lowercase_of(q);
    let le = lowercase_of(e);
    lemma_find_seq_first(le, 0, lq);
    assert(begins_with(le, lq) == occurs_at(le, lq, 0)) by {
        if le.len() >= lq.len() {
            assert(le.take(lq.len() as int) == le.subrange(0, lq.len() as int));
        }
    }
    let r = element_match_spec(q, e);
    assert forall|i: int|
        0 < i && #[trigger] occurs_at(le, lq, i) && (forall|k: int| 0 <= k < i ==> !occurs_at(le, lq, k))
            && e != q && le != lq implies r == ElementMatch::Substring(i as usize) by {
        match find_seq_from(le, 0, lq) {
            Some(j) => {
                if j < i {
                    assert(!occurs_at(le, lq, j));
                } else if i < j {
                    assert(!occurs_at(le, lq, i));
                }
            },
            None => {
                assert(!occurs_at(le, lq, i));
            },
        }
    }
}

} // verus!
