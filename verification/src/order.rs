use vstd::prelude::*;
use vstd::relations::{sorted_by, total_ordering};

use crate::text::str_chars;

verus! {

/// `a` comes before or is `b` in the lexicographic order of code points,
/// the order in which `String`s compare.
pub open spec fn lex_le(a: Seq<char>, b: Seq<char>) -> bool
    decreases a.len(),
{
    if a.len() == 0 {
        true
    } else if b.len() == 0 {
        false
    } else if a[0] != b[0] {
        (a[0] as int) < (b[0] as int)
    } else {
        lex_le(a.drop_first(), b.drop_first())
    }
}

/// The lexicographic order as a relation.
pub open spec fn lex_order() -> spec_fn(Seq<char>, Seq<char>) -> bool {
    |a: Seq<char>, b: Seq<char>| lex_le(a, b)
}

proof fn lemma_lex_reflexive(a: Seq<char>)
    ensures
        lex_le(a, a),
    decreases a.len(),
{
    if a.len() > 0 {
        lemma_lex_reflexive(a.drop_first());
    }
}

proof fn lemma_lex_antisymmetric(a: Seq<char>, b: Seq<char>)
    requires
        lex_le(a, b),
        lex_le(b, a),
    ensures
        a == b,
    decreases a.len(),
{
    if a.len() > 0 && b.len() > 0 {
        lemma_lex_antisymmetric(a.drop_first(), b.drop_first());
        assert(a =~= seq![a[0]] + a.drop_first());
        assert(b =~= seq![b[0]] + b.drop_first());
    }
}

proof fn lemma_lex_transitive(a: Seq<char>, b: Seq<char>, c: Seq<char>)
    requires
        lex_le(a, b),
        lex_le(b, c),
    ensures
        lex_le(a, c),
    decreases a.len(),
{
    if a.len() > 0 && b.len() > 0 && c.len() > 0 {
        if a[0] == b[0] && b[0] == c[0] {
            lemma_lex_transitive(a.drop_first(), b.drop_first(), c.drop_first());
        }
    }
}

proof fn lemma_lex_connected(a: Seq<char>, b: Seq<char>)
    ensures
        lex_le(a, b) || lex_le(b, a),
    decreases a.len(),
{
    if a.len() > 0 && b.len() > 0 {
        if a[0] == b[0] {
            lemma_lex_connected(a.drop_first(), b.drop_first());
        } else {
            assert((a[0] as int) != (b[0] as int));
        }
    }
}

/// The lexicographic order is a total order.
pub proof fn lemma_lex_total()
    ensures
        total_ordering(lex_order()),
{
    assert forall|x: Seq<char>| #[trigger] lex_order()(x, x) by {
        lemma_lex_reflexive(x);
    }
    assert forall|x: Seq<char>, y: Seq<char>| #[trigger] lex_order()(x, y) && #[trigger] lex_order()(
        y,
        x,
    ) implies x == y by {
        lemma_lex_antisymmetric(x, y);
    }
    assert forall|x: Seq<char>, y: Seq<char>, z: Seq<char>| #[trigger] lex_order()(x, y)
        && #[trigger] lex_order()(y, z) implies lex_order()(x, z) by {
        lemma_lex_transitive(x, y, z);
    }
    assert forall|x: Seq<char>, y: Seq<char>| #[trigger] lex_order()(x, y) || #[trigger] lex_order()(
        y,
        x,
    ) by {
        lemma_lex_connected(x, y);
    }
}

/// Compares two character sequences lexicographically.
pub fn lex_le_chars(a: &Vec<char>, b: &Vec<char>) -> (r: bool)
    ensures
        r == lex_le(a@, b@),
{
    let mut i: usize = 0;
    assert(a@.skip(0) == a@);
    assert(b@.skip(0) == b@);
    while i < a.len() && i < b.len() && a[i] == b[i]
        invariant
            i <= a@.len(),
            i <= b@.len(),
            lex_le(a@.skip(i as int), b@.skip(i as int)) == lex_le(a@, b@),
        decreases a.len() - i,
    {
        assert(a@.skip(i as int).drop_first() == a@.skip(i + 1));
        assert(b@.skip(i as int).drop_first() == b@.skip(i + 1));
        i += 1;
    }
    if i == a.len() {
        true
    } else if i == b.len() {
        false
    } else {
        proof {
            assert(a@.skip(i as int)[0] == a@[i as int]);
            assert(b@.skip(i as int)[0] == b@[i as int]);
        }
        a[i] < b[i]
    }
}

/// The views of a list of strings.
pub open spec fn string_views(v: Seq<String>) -> Seq<Seq<char>> {
    v.map_values(|s: String| s@)
}

/// Sorting names that are already sorted leaves them as they are, and
/// sorting is the same for any order of the same names.
pub proof fn lemma_sort_settles(a: Seq<Seq<char>>, b: Seq<Seq<char>>)
    requires
        a.to_multiset() == b.to_multiset(),
    ensures
        a.sort_by(lex_order()).sort_by(lex_order()) == a.sort_by(lex_order()),
        a.sort_by(lex_order()) == b.sort_by(lex_order()),
{
    lemma_lex_total();
    let s = a.sort_by(lex_order());
    a.lemma_sort_by_ensures(lex_order());
    b.lemma_sort_by_ensures(lex_order());
    s.lemma_sort_by_ensures(lex_order());
    vstd::seq_lib::lemma_sorted_unique(s, s.sort_by(lex_order()), lex_order());
    vstd::seq_lib::lemma_sorted_unique(s, b.sort_by(lex_order()), lex_order());
}

/// Sorts strings in the order in which `String`s compare.
pub fn sort_strings(v: Vec<String>) -> (r: Vec<String>)
    ensures
        string_views(r@) == string_views(v@).sort_by(lex_order()),
{
    broadcast use vstd::seq_lib::group_to_multiset_ensures;

    let ghost vs = string_views(v@);
    let mut out: Vec<String> = Vec::new();
    let mut i: usize = 0;
    proof {
        lemma_lex_total();
    }
    while i < v.len()
        invariant
            i <= v@.len(),
            vs == string_views(v@),
            total_ordering(lex_order()),
            sorted_by(string_views(out@), lex_order()),
            string_views(out@).to_multiset() == vs.take(i as int).to_multiset(),
        decreases v.len() - i,
    {
        let x = str_chars(v[i].as_str());
        let ghost os = string_views(out@);
        let mut p: usize = 0;
        while p < out.len() && lex_le_chars(&str_chars(out[p].as_str()), &x)
            invariant
                p <= out@.len(),
                os == string_views(out@),
                forall|k: int| 0 <= k < p ==> lex_le(#[trigger] os[k], x@),
            decreases out.len() - p,
        {
            p += 1;
        }
        proof {
            if p < out@.len() {
                assert(!lex_le(os[p as int], x@));
                lemma_lex_connected(os[p as int], x@);
            }
        }
        out.insert(p, v[i].clone());
        proof {
            let ns = string_views(out@);
            assert(ns =~= os.insert(p as int, x@));
            assert(vs.take(i + 1) =~= vs.take(i as int).push(vs[i as int]));
            assert(vs[i as int] == x@);
            vstd::seq_lib::to_multiset_insert(os, p as int, x@);
            vstd::seq_lib::to_multiset_build(vs.take(i as int), x@);
            assert forall|a: int, b: int| 0 <= a < b < ns.len() implies #[trigger] lex_order()(
                ns[a],
                ns[b],
            ) by {
                if a < p && b == p {
                } else if a == p && b > p {
                    if b - 1 > p {
                        assert(lex_order()(os[p as int], os[b - 1]));
                        lemma_lex_transitive(x@, os[p as int], os[b - 1]);
                    }
                } else if a < p && b > p {
                    assert(lex_order()(os[a], os[b - 1]));
                } else if b < p {
                    assert(lex_order()(os[a], os[b]));
                } else {
                    assert(lex_order()(os[a - 1], os[b - 1]));
                }
            }
        }
        i += 1;
    }
    proof {
        assert(vs.take(v@.len() as int) == vs);
        vs.lemma_sort_by_ensures(lex_order());
        vstd::seq_lib::lemma_sorted_unique(string_views(out@), vs.sort_by(lex_order()), lex_order());
    }
    out
}

} // verus!
