use vstd::prelude::*;

use crate::text::{
    char_is_whitespace, find_char, find_char_from, is_ws, lemma_find_char_from, matches_at,
    str_chars, sub_chars,
};

verus! {

/// `s` starts with `p`.
pub open spec fn starts_with(s: Seq<char>, p: Seq<char>) -> bool {
    p.len() <= s.len() && s.subrange(0, p.len() as int) == p
}

/// The length of the `https://` or `http://` that starts `s`, else 0.
pub open spec fn scheme_len(s: Seq<char>) -> int {
    if starts_with(s, "https://"@) {
        8
    } else if starts_with(s, "http://"@) {
        7
    } else {
        0
    }
}

/// The host of an address: what follows the scheme, up to the first `/`.
pub open spec fn url_host(s: Seq<char>) -> Seq<char> {
    let rest = s.skip(scheme_len(s));
    match find_char_from(rest, 0, '/') {
        Some(i) => rest.take(i),
        None => rest,
    }
}

pub open spec fn is_ascii_alpha(c: char) -> bool {
    ('a' <= c && c <= 'z') || ('A' <= c && c <= 'Z')
}

/// `h` ends in a top-level domain: a dot that is not its first character,
/// followed by two or more ASCII letters and nothing else.
pub open spec fn has_domain_ending(h: Seq<char>) -> bool {
    exists|i: int|
        0 < i && i + 2 < h.len() && #[trigger] h[i] == '.' && forall|j: int|
            i < j < h.len() ==> is_ascii_alpha(#[trigger] h[j])
}

/// `s` reads as a web address: it is not empty, holds no white space, and
/// has a host, which is either behind an `http://` or `https://` or ends in
/// a top-level domain (`google.com`).
pub open spec fn is_url_spec(s: Seq<char>) -> bool {
    &&& s.len() > 0
    &&& forall|j: int| 0 <= j < s.len() ==> !is_ws(#[trigger] s[j])
    &&& url_host(s).len() > 0
    &&& (scheme_len(s) > 0 || has_domain_ending(url_host(s)))
}

fn ascii_alpha(c: char) -> (r: bool)
    ensures
        r == is_ascii_alpha(c),
{
    ('a' <= c && c <= 'z') || ('A' <= c && c <= 'Z')
}

fn domain_ending(h: &Vec<char>) -> (r: bool)
    ensures
        r == has_domain_ending(h@),
{
    let n = h.len();
    let mut j = n;
    while j > 0 && ascii_alpha(h[j - 1])
        invariant
            j <= n == h@.len(),
            forall|m: int| j <= m < n ==> is_ascii_alpha(#[trigger] h@[m]),
        decreases j,
    {
        j -= 1;
    }
    let ok = j >= 2 && h[j - 1] == '.' && n - j >= 2;
    proof {
        if ok {
            assert(h@[j - 1] == '.');
            assert forall|m: int| j - 1 < m < h@.len() implies is_ascii_alpha(#[trigger] h@[m]) by {}
        } else if has_domain_ending(h@) {
            let i = choose|i: int|
                0 < i && i + 2 < h@.len() && #[trigger] h@[i] == '.' && forall|m: int|
                    i < m < h@.len() ==> is_ascii_alpha(#[trigger] h@[m]);
            if j > i + 1 {
                assert(is_ascii_alpha(h@[j - 1]));
            } else if j <= i {
                assert(is_ascii_alpha(h@[i]));
            }
            assert(j == i + 1);
        }
    }
    ok
}

/// Whether `s` reads as a web address.
pub fn is_url(s: &str) -> (r: bool)
    ensures
        r == is_url_spec(s@),
{
    let v = str_chars(s);
    if v.len() == 0 {
        return false;
    }
    let mut i: usize = 0;
    while i < v.len()
        invariant
            i <= v@.len(),
            v@ == s@,
            forall|j: int| 0 <= j < i ==> !is_ws(#[trigger] v@[j]),
        decreases v.len() - i,
    {
        if char_is_whitespace(v[i]) {
            return false;
        }
        i += 1;
    }
    proof {
        reveal_strlit("https://");
        reveal_strlit("http://");
    }
    let start: usize = if matches_at(&v, 0, &str_chars("https://")) {
        8
    } else if matches_at(&v, 0, &str_chars("http://")) {
        7
    } else {
        0
    };
    assert(start == scheme_len(v@));
    let rest = sub_chars(&v, start, v.len());
    assert(rest@ == v@.skip(start as int));
    let host = match find_char(&rest, 0, '/') {
        Some(k) => {
            proof {
                lemma_find_char_from(rest@, 0, '/');
            }
            sub_chars(&rest, 0, k)
        },
        None => rest,
    };
    assert(host@ == url_host(v@));
    if host.len() == 0 {
        return false;
    }
    if start > 0 {
        return true;
    }
    domain_ending(&host)
}

} // verus!
