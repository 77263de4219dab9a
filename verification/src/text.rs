use vstd::prelude::*;

verus! {

/// Collects the characters of a string slice into a vector.
pub fn str_chars(s: &str) -> (v: Vec<char>)
    ensures
        v@ == s@,
{
    let mut v: Vec<char> = Vec::new();
    for c in it: s.chars()
        invariant
            v@ == it.seq().take(it.index() as int),
            it.seq() == s@,
    {
        v.push(c);
    }
    v
}

/// Builds a `String` from a slice of characters (std's `FromIterator<&char>`
/// for `String`); the string holds exactly these characters, in order.
#[verifier::external_body]
pub fn string_from_chars(v: &[char]) -> (s: String)
    ensures
        s@ == v@,
{
    v.iter().collect()
}

/// Unicode `White_Space`, the set that `char::is_whitespace` accepts.
pub open spec fn is_ws(c: char) -> bool {
    let u = c as u32;
    (0x09 <= u && u <= 0x0D) || u == 0x20 || u == 0x85 || u == 0xA0 || u == 0x1680 || (0x2000
        <= u && u <= 0x200A) || u == 0x2028 || u == 0x2029 || u == 0x202F || u == 0x205F || u
        == 0x3000
}

/// Whether a character is Unicode white space.
pub fn char_is_whitespace(c: char) -> (r: bool)
    ensures
        r == is_ws(c),
{
    let u = c as u32;
    (0x09 <= u && u <= 0x0D) || u == 0x20 || u == 0x85 || u == 0xA0 || u == 0x1680 || (0x2000
        <= u && u <= 0x200A) || u == 0x2028 || u == 0x2029 || u == 0x202F || u == 0x205F || u
        == 0x3000
}

/// ASCII lower-casing of a character; other characters are unchanged.
pub open spec fn lower_char(c: char) -> char {
    if 'A' <= c && c <= 'Z' {
        ((c as u32) + 32) as char
    } else {
        c
    }
}

pub fn char_to_ascii_lowercase(c: char) -> (r: char)
    ensures
        r == lower_char(c),
{
    if 'A' <= c && c <= 'Z' {
        ((c as u8) + 32) as char
    } else {
        c
    }
}

/// ASCII lower-casing of a whole sequence.
pub open spec fn lower_seq(s: Seq<char>) -> Seq<char> {
    s.map_values(|c: char| lower_char(c))
}

pub fn chars_to_ascii_lowercase(s: &Vec<char>) -> (r: Vec<char>)
    ensures
        r@ == lower_seq(s@),
{
    let mut r: Vec<char> = Vec::new();
    let mut i: usize = 0;
    while i < s.len()
        invariant
            i <= s@.len(),
            r@ == lower_seq(s@.take(i as int)),
        decreases s.len() - i,
    {
        r.push(char_to_ascii_lowercase(s[i]));
        i += 1;
        assert(lower_seq(s@.take(i as int)) == lower_seq(s@.take(i - 1)).push(lower_char(s@[i - 1])));
    }
    assert(s@.take(s@.len() as int) == s@);
    r
}

/// Position of the first character of `s` that is not white space (or `s.len()`).
pub open spec fn trim_start_idx(s: Seq<char>) -> int
    decreases s.len(),
{
    if s.len() == 0 {
        0
    } else if is_ws(s[0]) {
        1 + trim_start_idx(s.drop_first())
    } else {
        0
    }
}

/// Length of `s` once trailing white space is removed.
pub open spec fn trim_end_len(s: Seq<char>) -> int
    decreases s.len(),
{
    if s.len() == 0 {
        0
    } else if is_ws(s.last()) {
        trim_end_len(s.drop_last())
    } else {
        s.len() as int
    }
}

/// `s` without leading and trailing white space, as `str::trim` gives it.
pub open spec fn trim_spec(s: Seq<char>) -> Seq<char> {
    let e = trim_end_len(s);
    s.take(e).skip(trim_start_idx(s.take(e)))
}

proof fn lemma_trim_start_bounds(s: Seq<char>)
    ensures
        0 <= trim_start_idx(s) <= s.len(),
        forall|i: int| 0 <= i < trim_start_idx(s) ==> is_ws(#[trigger] s[i]),
        trim_start_idx(s) < s.len() ==> !is_ws(s[trim_start_idx(s)]),
    decreases s.len(),
{
    if s.len() > 0 && is_ws(s[0]) {
        lemma_trim_start_bounds(s.drop_first());
        assert forall|i: int| 0 <= i < trim_start_idx(s) implies is_ws(#[trigger] s[i]) by {
            if i > 0 {
                assert(s[i] == s.drop_first()[i - 1]);
            }
        }
    }
}

proof fn lemma_trim_end_bounds(s: Seq<char>)
    ensures
        0 <= trim_end_len(s) <= s.len(),
        forall|i: int| trim_end_len(s) <= i < s.len() ==> is_ws(#[trigger] s[i]),
        trim_end_len(s) > 0 ==> !is_ws(s[trim_end_len(s) - 1]),
    decreases s.len(),
{
    if s.len() > 0 && is_ws(s.last()) {
        lemma_trim_end_bounds(s.drop_last());
        assert forall|i: int| trim_end_len(s) <= i < s.len() implies is_ws(#[trigger] s[i]) by {
            if i < s.len() - 1 {
                assert(s[i] == s.drop_last()[i]);
            }
        }
    }
}

proof fn lemma_trim_start_unique(s: Seq<char>, k: int)
    requires
        0 <= k <= s.len(),
        forall|i: int| 0 <= i < k ==> is_ws(#[trigger] s[i]),
        k < s.len() ==> !is_ws(s[k]),
    ensures
        trim_start_idx(s) == k,
    decreases s.len(),
{
    if s.len() > 0 && k > 0 {
        assert(is_ws(s[0]));
        assert forall|i: int| 0 <= i < k - 1 implies is_ws(#[trigger] s.drop_first()[i]) by {
            assert(is_ws(s[i + 1]));
        }
        lemma_trim_start_unique(s.drop_first(), k - 1);
    }
}

proof fn lemma_trim_end_unique(s: Seq<char>, k: int)
    requires
        0 <= k <= s.len(),
        forall|i: int| k <= i < s.len() ==> is_ws(#[trigger] s[i]),
        k > 0 ==> !is_ws(s[k - 1]),
    ensures
        trim_end_len(s) == k,
    decreases s.len(),
{
    if s.len() > 0 && k < s.len() {
        assert(is_ws(s.last()));
        assert forall|i: int| k <= i < s.drop_last().len() implies is_ws(#[trigger] s.drop_last()[i]) by {
            assert(is_ws(s[i]));
        }
        lemma_trim_end_unique(s.drop_last(), k);
    }
}

/// Bounds `(start, end)` of the trimmed part of `s[lo..hi]`.
pub fn trim_bounds(s: &Vec<char>, lo: usize, hi: usize) -> (r: (usize, usize))
    requires
        lo <= hi <= s@.len(),
    ensures
        lo <= r.0 <= r.1 <= hi,
        s@.subrange(r.0 as int, r.1 as int) == trim_spec(s@.subrange(lo as int, hi as int)),
{
    let ghost t = s@.subrange(lo as int, hi as int);
    let mut e = hi;
    while e > lo && char_is_whitespace(s[e - 1])
        invariant
            lo <= e <= hi <= s@.len(),
            forall|i: int| e <= i < hi ==> is_ws(#[trigger] s@[i]),
        decreases e,
    {
        e -= 1;
    }
    proof {
        assert forall|i: int| e - lo <= i < t.len() implies is_ws(#[trigger] t[i]) by {
            assert(t[i] == s@[lo + i]);
        }
        if e > lo {
            assert(t[e - lo - 1] == s@[e - 1]);
        }
        lemma_trim_end_unique(t, e - lo);
    }
    let mut b = lo;
    while b < e && char_is_whitespace(s[b])
        invariant
            lo <= b <= e,
            e <= hi <= s@.len(),
            forall|i: int| lo <= i < b ==> is_ws(#[trigger] s@[i]),
        decreases e - b,
    {
        b += 1;
    }
    proof {
        let te = t.take(e - lo);
        assert forall|i: int| 0 <= i < b - lo implies is_ws(#[trigger] te[i]) by {
            assert(te[i] == s@[lo + i]);
        }
        if b < e {
            assert(te[b - lo] == s@[b as int]);
        }
        lemma_trim_start_unique(te, b - lo);
        assert(te.skip(b - lo) == s@.subrange(b as int, e as int));
    }
    (b, e)
}

/// `s` with every non-overlapping occurrence of `from`, scanned left to right,
/// replaced by `to` (the behaviour of `str::replace` for a non-empty `from`).
pub open spec fn replace_spec(s: Seq<char>, from: Seq<char>, to: Seq<char>) -> Seq<char>
    recommends
        from.len() > 0,
    decreases s.len(),
{
    if s.len() == 0 || from.len() == 0 {
        s
    } else if from.len() <= s.len() && s.take(from.len() as int) == from {
        to + replace_spec(s.skip(from.len() as int), from, to)
    } else {
        seq![s[0]] + replace_spec(s.drop_first(), from, to)
    }
}

/// Whether `s[i..]` starts with `pat`.
pub fn matches_at(s: &Vec<char>, i: usize, pat: &Vec<char>) -> (r: bool)
    requires
        i <= s@.len(),
    ensures
        r == (pat@.len() <= s@.len() - i && s@.subrange(i as int, i + pat@.len()) == pat@),
{
    if pat.len() > s.len() - i {
        return false;
    }
    let mut k: usize = 0;
    while k < pat.len()
        invariant
            i <= s@.len(),
            pat@.len() <= s@.len() - i,
            k <= pat@.len(),
            forall|j: int| 0 <= j < k ==> s@[i + j] == pat@[j],
        decreases pat.len() - k,
    {
        assert(i + k < s.len());
        if s[i + k] != pat[k] {
            assert(s@.subrange(i as int, i + pat@.len())[k as int] != pat@[k as int]);
            return false;
        }
        k += 1;
    }
    assert(s@.subrange(i as int, i + pat@.len()) == pat@);
    true
}

/// Replaces every occurrence of `from` in `s` by `to`.
pub fn replace_chars(s: &Vec<char>, from: &Vec<char>, to: &Vec<char>) -> (r: Vec<char>)
    requires
        from@.len() > 0,
    ensures
        r@ == replace_spec(s@, from@, to@),
{
    let mut r: Vec<char> = Vec::new();
    let mut i: usize = 0;
    assert(s@.skip(0) == s@);
    assert(r@ + replace_spec(s@, from@, to@) == replace_spec(s@, from@, to@));
    while i < s.len()
        invariant
            i <= s@.len(),
            from@.len() > 0,
            r@ + replace_spec(s@.skip(i as int), from@, to@) == replace_spec(s@, from@, to@),
        decreases s.len() - i,
    {
        let ghost rest = s@.skip(i as int);
        if matches_at(s, i, from) {
            proof {
                assert(rest.take(from@.len() as int) == s@.subrange(i as int, i + from@.len()));
                assert(rest.skip(from@.len() as int) == s@.skip(i + from@.len()));
            }
            let mut k: usize = 0;
            let ghost r0 = r@;
            while k < to.len()
                invariant
                    k <= to@.len(),
                    r@ == r0 + to@.take(k as int),
                decreases to.len() - k,
            {
                r.push(to[k]);
                k += 1;
            }
            assert(to@.take(to@.len() as int) == to@);
            assert(r@ + replace_spec(s@.skip(i + from@.len()), from@, to@) == r0 + replace_spec(rest, from@, to@));
            i = i + from.len();
        } else {
            proof {
                if from@.len() <= rest.len() {
                    assert(rest.take(from@.len() as int) == s@.subrange(i as int, i + from@.len()));
                }
                assert(rest.drop_first() == s@.skip(i + 1));
            }
            let ghost r0 = r@;
            r.push(s[i]);
            assert(r@ + replace_spec(s@.skip(i + 1), from@, to@) == r0 + replace_spec(rest, from@, to@));
            i = i + 1;
        }
    }
    assert(s@.skip(i as int).len() == 0);
    assert(r@ + replace_spec(s@.skip(i as int), from@, to@) == r@);
    r
}

/// Number of bytes in the UTF-8 encoding of a character sequence.
pub open spec fn utf8_len(s: Seq<char>) -> nat {
    vstd::utf8::encode_utf8(s).len()
}

pub proof fn lemma_encode_utf8_concat(a: Seq<char>, b: Seq<char>)
    ensures
        vstd::utf8::encode_utf8(a + b) == vstd::utf8::encode_utf8(a) + vstd::utf8::encode_utf8(b),
    decreases a.len(),
{
    if a.len() > 0 {
        assert((a + b).drop_first() == a.drop_first() + b);
        lemma_encode_utf8_concat(a.drop_first(), b);
        assert(vstd::utf8::encode_utf8(a + b) == vstd::utf8::encode_scalar(a[0] as u32)
            + vstd::utf8::encode_utf8(a.drop_first() + b));
    } else {
        assert(a + b == b);
    }
}

pub proof fn lemma_utf8_len_concat(a: Seq<char>, b: Seq<char>)
    ensures
        utf8_len(a + b) == utf8_len(a) + utf8_len(b),
{
    lemma_encode_utf8_concat(a, b);
}

pub proof fn lemma_utf8_len_bound(s: Seq<char>)
    ensures
        utf8_len(s) <= 4 * s.len(),
    decreases s.len(),
{
    if s.len() > 0 {
        lemma_utf8_len_bound(s.drop_first());
        assert(vstd::utf8::encode_utf8(s) == vstd::utf8::encode_scalar(s[0] as u32)
            + vstd::utf8::encode_utf8(s.drop_first()));
    }
}

pub proof fn lemma_trim_len(s: Seq<char>)
    ensures
        trim_spec(s).len() <= s.len(),
{
    lemma_trim_end_bounds(s);
    lemma_trim_start_bounds(s.take(trim_end_len(s)));
}

/// A non-empty sequence takes at least one byte.
pub proof fn lemma_utf8_len_pos(s: Seq<char>)
    requires
        s.len() > 0,
    ensures
        utf8_len(s) > 0,
{
    assert(vstd::utf8::encode_utf8(s) == vstd::utf8::encode_scalar(s[0] as u32)
        + vstd::utf8::encode_utf8(s.drop_first()));
}

/// For a prefix `p` of `s`, `s` takes more bytes exactly when it has more
/// characters.
pub proof fn lemma_utf8_longer_prefix(s: Seq<char>, p: Seq<char>)
    requires
        s.len() >= p.len(),
        s.take(p.len() as int) == p,
    ensures
        utf8_len(s) > utf8_len(p) <==> s.len() > p.len(),
{
    let rest = s.skip(p.len() as int);
    assert(s == p + rest);
    lemma_utf8_len_concat(p, rest);
    if rest.len() > 0 {
        lemma_utf8_len_pos(rest);
    } else {
        assert(rest =~= Seq::<char>::empty());
        assert(vstd::utf8::encode_utf8(rest).len() == 0);
    }
}

/// Width in bytes of a character's UTF-8 encoding.
pub fn char_len_utf8(c: char) -> (n: usize)
    ensures
        n == utf8_len(seq![c]),
        1 <= n <= 4,
{
    proof {
        vstd::utf8::char_is_scalar(c);
        assert(seq![c].drop_first() == Seq::<char>::empty());
        assert(vstd::utf8::encode_utf8(seq![c]) == vstd::utf8::encode_scalar(c as u32)
            + vstd::utf8::encode_utf8(Seq::<char>::empty()));
    }
    let u = c as u32;
    if u <= 0x7F {
        1
    } else if u <= 0x7FF {
        2
    } else if u <= 0xFFFF {
        3
    } else {
        4
    }
}

/// Number of UTF-8 bytes of `s[lo..hi]`.
pub fn utf8_len_range(s: &Vec<char>, lo: usize, hi: usize) -> (n: usize)
    requires
        lo <= hi <= s@.len(),
        4 * s@.len() <= usize::MAX,
    ensures
        n == utf8_len(s@.subrange(lo as int, hi as int)),
        n <= 4 * (hi - lo),
{
    let mut n: usize = 0;
    let mut i = lo;
    while i < hi
        invariant
            lo <= i <= hi <= s@.len(),
            4 * s@.len() <= usize::MAX,
            n == utf8_len(s@.subrange(lo as int, i as int)),
            n <= 4 * (i - lo),
        decreases hi - i,
    {
        let w = char_len_utf8(s[i]);
        proof {
            assert(s@.subrange(lo as int, i + 1) == s@.subrange(lo as int, i as int) + seq![s@[i as int]]);
            lemma_utf8_len_concat(s@.subrange(lo as int, i as int), seq![s@[i as int]]);
        }
        n = n + w;
        i += 1;
    }
    n
}

/// Whether the UTF-8 encoding of `s` takes at most `limit` bytes.
pub fn utf8_len_at_most(s: &Vec<char>, limit: usize) -> (r: bool)
    requires
        limit <= usize::MAX - 4,
    ensures
        r == (utf8_len(s@) <= limit),
{
    let mut n: usize = 0;
    let mut i: usize = 0;
    while i < s.len()
        invariant
            i <= s@.len(),
            limit <= usize::MAX - 4,
            n == utf8_len(s@.take(i as int)),
            n <= limit,
        decreases s.len() - i,
    {
        let w = char_len_utf8(s[i]);
        proof {
            assert(s@.take(i + 1) == s@.take(i as int) + seq![s@[i as int]]);
            lemma_utf8_len_concat(s@.take(i as int), seq![s@[i as int]]);
        }
        n = n + w;
        i += 1;
        if n > limit {
            proof {
                lemma_utf8_len_concat(s@.take(i as int), s@.skip(i as int));
                assert(s@.take(i as int) + s@.skip(i as int) == s@);
            }
            return false;
        }
    }
    assert(s@.take(s@.len() as int) == s@);
    true
}

/// First index `i >= p` with `s[i] == c`.
pub open spec fn find_char_from(s: Seq<char>, p: int, c: char) -> Option<int>
    decreases s.len() - p,
{
    if p < 0 || p >= s.len() {
        None
    } else if s[p] == c {
        Some(p)
    } else {
        find_char_from(s, p + 1, c)
    }
}

pub proof fn lemma_find_char_from(s: Seq<char>, p: int, c: char)
    requires
        0 <= p <= s.len(),
    ensures
        match find_char_from(s, p, c) {
            Some(i) => p <= i < s.len() && s[i] == c && forall|j: int| p <= j < i ==> s[j] != c,
            None => forall|j: int| p <= j < s.len() ==> s[j] != c,
        },
    decreases s.len() - p,
{
    if p < s.len() && s[p] != c {
        lemma_find_char_from(s, p + 1, c);
    }
}

/// Finds the first `c` in `s[p..]`.
pub fn find_char(s: &Vec<char>, p: usize, c: char) -> (r: Option<usize>)
    requires
        p <= s@.len(),
    ensures
        r matches Some(i) ==> find_char_from(s@, p as int, c) == Some(i as int),
        r is None ==> find_char_from(s@, p as int, c) is None,
{
    let mut i = p;
    while i < s.len()
        invariant
            p <= i <= s@.len(),
            find_char_from(s@, p as int, c) == find_char_from(s@, i as int, c),
        decreases s.len() - i,
    {
        if s[i] == c {
            return Some(i);
        }
        i += 1;
    }
    None
}

/// First index `i >= p` at which `s[i..]` starts with the non-empty `pat`.
pub open spec fn find_seq_from(s: Seq<char>, p: int, pat: Seq<char>) -> Option<int>
    decreases s.len() - p,
{
    if p < 0 || p + pat.len() > s.len() {
        None
    } else if pat.len() == 0 || s.subrange(p, p + pat.len()) == pat {
        Some(p)
    } else {
        find_seq_from(s, p + 1, pat)
    }
}

/// Finds the first occurrence of `pat` in `s[p..]`.
pub fn find_seq(s: &Vec<char>, p: usize, pat: &Vec<char>) -> (r: Option<usize>)
    requires
        p <= s@.len(),
    ensures
        r matches Some(i) ==> find_seq_from(s@, p as int, pat@) == Some(i as int) && i + pat@.len()
            <= s@.len(),
        r is None ==> find_seq_from(s@, p as int, pat@) is None,
{
    let mut i = p;
    while i < s.len() && pat.len() <= s.len() - i
        invariant
            p <= i <= s@.len(),
            find_seq_from(s@, p as int, pat@) == find_seq_from(s@, i as int, pat@),
        decreases s.len() - i,
    {
        proof {
            if pat@.len() == 0 {
                assert(s@.subrange(i as int, i as int) =~= pat@);
            }
        }
        if matches_at(s, i, pat) {
            return Some(i);
        }
        assert(pat@.len() > 0);
        assert(find_seq_from(s@, i as int, pat@) == find_seq_from(s@, i + 1, pat@));
        i += 1;
    }
    if i == s.len() && pat.len() == 0 {
        return Some(i);
    }
    None
}

/// Copies `s[lo..hi]`.
pub fn sub_chars(s: &Vec<char>, lo: usize, hi: usize) -> (r: Vec<char>)
    requires
        lo <= hi <= s@.len(),
    ensures
        r@ == s@.subrange(lo as int, hi as int),
{
    let mut r: Vec<char> = Vec::new();
    let mut i = lo;
    while i < hi
        invariant
            lo <= i <= hi <= s@.len(),
            r@ == s@.subrange(lo as int, i as int),
        decreases hi - i,
    {
        r.push(s[i]);
        i += 1;
    }
    r
}

/// Appends all of `src` to `dst`.
pub fn extend_chars(dst: &mut Vec<char>, src: &Vec<char>)
    ensures
        final(dst)@ == old(dst)@ + src@,
{
    let mut i: usize = 0;
    let ghost d0 = dst@;
    while i < src.len()
        invariant
            i <= src@.len(),
            dst@ == d0 + src@.take(i as int),
        decreases src.len() - i,
    {
        dst.push(src[i]);
        i += 1;
    }
    assert(src@.take(src@.len() as int) == src@);
}

/// Whether two character vectors are equal.
pub fn chars_eq(a: &Vec<char>, b: &Vec<char>) -> (r: bool)
    ensures
        r == (a@ == b@),
{
    if a.len() != b.len() {
        return false;
    }
    let mut i: usize = 0;
    while i < a.len()
        invariant
            a@.len() == b@.len(),
            i <= a@.len(),
            forall|j: int| 0 <= j < i ==> a@[j] == b@[j],
        decreases a.len() - i,
    {
        if a[i] != b[i] {
            return false;
        }
        i += 1;
    }
    assert(a@ == b@);
    true
}

/// The decimal digit for `d < 10`.
pub open spec fn digit_char(d: nat) -> char {
    ((d + '0' as nat) as u32) as char
}

/// The decimal representation of `n`, without leading zeros.
pub open spec fn decimal(n: nat) -> Seq<char>
    decreases n,
{
    if n < 10 {
        seq![digit_char(n)]
    } else {
        decimal(n / 10).push(digit_char(n % 10))
    }
}

/// Appends the decimal representation of `n` to `out`.
pub fn push_decimal(out: &mut Vec<char>, n: u64)
    ensures
        final(out)@ == old(out)@ + decimal(n as nat),
    decreases n,
{
    if n >= 10 {
        push_decimal(out, n / 10);
    }
    let d = (n % 10) as u32;
    let c = char_from_digit(d);
    out.push(c);
    proof {
        if n >= 10 {
            assert(old(out)@ + decimal(n as nat) == (old(out)@ + decimal((n / 10) as nat)).push(
                digit_char((n % 10) as nat),
            ));
        }
    }
}

fn char_from_digit(d: u32) -> (c: char)
    requires
        d < 10,
    ensures
        c == digit_char(d as nat),
{
    if d == 0 {
        '0'
    } else if d == 1 {
        '1'
    } else if d == 2 {
        '2'
    } else if d == 3 {
        '3'
    } else if d == 4 {
        '4'
    } else if d == 5 {
        '5'
    } else if d == 6 {
        '6'
    } else if d == 7 {
        '7'
    } else if d == 8 {
        '8'
    } else {
        '9'
    }
}

/// `s` cut at each `c`, as `str::split` cuts it (empty pieces kept).
pub open spec fn split_on(s: Seq<char>, c: char) -> Seq<Seq<char>>
    decreases s.len(),
{
    if s.len() == 0 {
        seq![Seq::<char>::empty()]
    } else {
        let rest = split_on(s.drop_last(), c);
        if s.last() == c {
            rest.push(Seq::<char>::empty())
        } else {
            rest.update(rest.len() - 1, rest.last().push(s.last()))
        }
    }
}

/// Cutting gives at least one piece.
pub proof fn lemma_split_on_len(s: Seq<char>, c: char)
    ensures
        split_on(s, c).len() >= 1,
    decreases s.len(),
{
    if s.len() > 0 {
        lemma_split_on_len(s.drop_last(), c);
    }
}

/// Cuts `s` at each `c`.
pub fn split_chars(s: &Vec<char>, c: char) -> (r: Vec<Vec<char>>)
    ensures
        r@.map_values(|p: Vec<char>| p@) == split_on(s@, c),
{
    let mut out: Vec<Vec<char>> = Vec::new();
    let mut cur: Vec<char> = Vec::new();
    let mut i: usize = 0;
    assert(s@.take(0) =~= Seq::<char>::empty());
    assert(out@.map_values(|p: Vec<char>| p@).push(cur@) =~= seq![Seq::<char>::empty()]);
    while i < s.len()
        invariant
            i <= s@.len(),
            out@.map_values(|p: Vec<char>| p@).push(cur@) == split_on(s@.take(i as int), c),
        decreases s.len() - i,
    {
        assert(s@.take(i + 1).drop_last() == s@.take(i as int));
        let ghost before = out@.map_values(|p: Vec<char>| p@);
        if s[i] == c {
            let piece = cur;
            cur = Vec::new();
            out.push(piece);
            assert(out@.map_values(|p: Vec<char>| p@) == before.push(piece@));
        } else {
            cur.push(s[i]);
        }
        i += 1;
    }
    assert(s@.take(s@.len() as int) == s@);
    let ghost before = out@.map_values(|p: Vec<char>| p@);
    out.push(cur);
    assert(out@.map_values(|p: Vec<char>| p@) == before.push(cur@));
    out
}

} // verus!
