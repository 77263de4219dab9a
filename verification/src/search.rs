use vstd::prelude::*;

verus! {

/// ASCII lower-casing of a single byte; other bytes are left unchanged.
pub open spec fn ascii_lower(b: u8) -> u8 {
    if 65 <= b && b <= 90 {
        (b + 32) as u8
    } else {
        b
    }
}

/// Byte equality that ignores ASCII case.
pub open spec fn eq_ci(a: u8, b: u8) -> bool {
    ascii_lower(a) == ascii_lower(b)
}

/// `p` is a subsequence of `t` when bytes are compared ignoring ASCII case.
pub open spec fn subseq_ci(p: Seq<u8>, t: Seq<u8>) -> bool
    decreases t.len(),
{
    if p.len() == 0 {
        true
    } else if t.len() == 0 {
        false
    } else if eq_ci(p[0], t[0]) {
        subseq_ci(p.drop_first(), t.drop_first())
    } else {
        subseq_ci(p, t.drop_first())
    }
}

/// What `fuzzy_match` answers for a text and a pattern, both given as UTF-8 bytes:
/// the empty pattern matches everything; otherwise the pattern must fit in the
/// text, hold no `;`, and be a case-insensitive subsequence of the text.
pub open spec fn fuzzy_spec(t: Seq<u8>, p: Seq<u8>) -> bool {
    p.len() == 0 || (p.len() <= t.len() && !p.contains(59u8) && subseq_ci(p, t))
}

/// Bytes lowered as ASCII.
pub open spec fn lower_bytes(s: Seq<u8>) -> Seq<u8> {
    s.map_values(|b: u8| ascii_lower(b))
}

/// The empty pattern matches every text.
pub proof fn lemma_empty_pattern_matches(t: Seq<u8>)
    ensures
        fuzzy_spec(t, Seq::<u8>::empty()),
{
}

/// A pattern longer than the text never matches.
pub proof fn lemma_longer_pattern_never_matches(t: Seq<u8>, p: Seq<u8>)
    requires
        p.len() > t.len(),
    ensures
        !fuzzy_spec(t, p),
{
}

proof fn lemma_subseq_lower_text(p: Seq<u8>, t: Seq<u8>)
    ensures
        subseq_ci(p, t) == subseq_ci(p, lower_bytes(t)),
    decreases t.len(),
{
    let lt = lower_bytes(t);
    if p.len() > 0 && t.len() > 0 {
        assert(lt.drop_first() =~= lower_bytes(t.drop_first()));
        assert(lt[0] == ascii_lower(t[0]));
        if eq_ci(p[0], t[0]) {
            lemma_subseq_lower_text(p.drop_first(), t.drop_first());
        } else {
            lemma_subseq_lower_text(p, t.drop_first());
        }
    }
}

proof fn lemma_subseq_lower_pattern(p: Seq<u8>, t: Seq<u8>)
    ensures
        subseq_ci(p, t) == subseq_ci(lower_bytes(p), t),
    decreases t.len(),
{
    let lp = lower_bytes(p);
    if p.len() > 0 && t.len() > 0 {
        assert(lp.drop_first() =~= lower_bytes(p.drop_first()));
        assert(lp[0] == ascii_lower(p[0]));
        if eq_ci(p[0], t[0]) {
            lemma_subseq_lower_pattern(p.drop_first(), t.drop_first());
        } else {
            lemma_subseq_lower_pattern(p, t.drop_first());
        }
    }
}

/// Matching ignores ASCII case, in the text and in the pattern.
pub proof fn lemma_fuzzy_ignores_case(t: Seq<u8>, p: Seq<u8>)
    ensures
        fuzzy_spec(t, p) == fuzzy_spec(lower_bytes(t), p),
        fuzzy_spec(t, p) == fuzzy_spec(t, lower_bytes(p)),
{
    lemma_subseq_lower_text(p, t);
    lemma_subseq_lower_pattern(p, t);
    let lp = lower_bytes(p);
    assert(lp.contains(59u8) == p.contains(59u8)) by {
        if p.contains(59u8) {
            let i = choose|i: int| 0 <= i < p.len() && p[i] == 59u8;
            assert(lp[i] == 59u8);
        }
        if lp.contains(59u8) {
            let i = choose|i: int| 0 <= i < lp.len() && lp[i] == 59u8;
            assert(p[i] == 59u8);
        }
    }
}

proof fn lemma_subseq_prefix(p: Seq<u8>, t: Seq<u8>, k: int)
    requires
        0 <= k <= p.len(),
        subseq_ci(p, t),
    ensures
        subseq_ci(p.take(k), t),
    decreases t.len(),
{
    if k > 0 && t.len() > 0 {
        assert(p.take(k)[0] == p[0]);
        if eq_ci(p[0], t[0]) {
            assert(p.take(k).drop_first() =~= p.drop_first().take(k - 1));
            lemma_subseq_prefix(p.drop_first(), t.drop_first(), k - 1);
        } else {
            lemma_subseq_prefix(p, t.drop_first(), k);
        }
    }
}

/// Every prefix of a matching pattern matches too.
pub proof fn lemma_fuzzy_prefix_closed(t: Seq<u8>, p: Seq<u8>, k: int)
    requires
        0 <= k <= p.len(),
        fuzzy_spec(t, p),
    ensures
        fuzzy_spec(t, p.take(k)),
{
    if p.len() > 0 {
        lemma_subseq_prefix(p, t, k);
        if p.take(k).contains(59u8) {
            let i = choose|i: int| 0 <= i < p.take(k).len() && p.take(k)[i] == 59u8;
            assert(p[i] == 59u8);
        }
    }
}

fn byte_eq_ci(a: u8, b: u8) -> (r: bool)
    ensures
        r == eq_ci(a, b),
{
    let la: u8 = if 65 <= a && a <= 90 { a + 32 } else { a };
    let lb: u8 = if 65 <= b && b <= 90 { b + 32 } else { b };
    la == lb
}

proof fn lemma_subseq_len(p: Seq<u8>, t: Seq<u8>)
    requires
        subseq_ci(p, t),
    ensures
        p.len() <= t.len(),
    decreases t.len(),
{
    if p.len() > 0 && t.len() > 0 {
        if eq_ci(p[0], t[0]) {
            lemma_subseq_len(p.drop_first(), t.drop_first());
        } else {
            lemma_subseq_len(p, t.drop_first());
        }
    }
}

/// A subsequence match ends at a text position no earlier than `p.len() - 1`,
/// so the last pattern byte occurs in `t[p.len() - 1..]`.
proof fn lemma_subseq_last(p: Seq<u8>, t: Seq<u8>)
    requires
        subseq_ci(p, t),
        p.len() > 0,
    ensures
        exists|j: int| p.len() - 1 <= j < t.len() && eq_ci(#[trigger] t[j], p.last()),
    decreases t.len(),
{
    if eq_ci(p[0], t[0]) {
        if p.len() == 1 {
            assert(eq_ci(t[0], p.last()));
        } else {
            lemma_subseq_last(p.drop_first(), t.drop_first());
            let j = choose|j: int|
                p.drop_first().len() - 1 <= j < t.drop_first().len() && eq_ci(
                    #[trigger] t.drop_first()[j],
                    p.drop_first().last(),
                );
            assert(eq_ci(t[j + 1], p.last()));
        }
    } else {
        lemma_subseq_last(p, t.drop_first());
        let j = choose|j: int|
            p.len() - 1 <= j < t.drop_first().len() && eq_ci(#[trigger] t.drop_first()[j], p.last());
        assert(eq_ci(t[j + 1], p.last()));
    }
}

/// A prefix that matches byte by byte is a subsequence.
proof fn lemma_prefix_subseq(p: Seq<u8>, t: Seq<u8>)
    requires
        p.len() <= t.len(),
        forall|i: int| 0 <= i < p.len() ==> eq_ci(#[trigger] t[i], p[i]),
    ensures
        subseq_ci(p, t),
    decreases p.len(),
{
    if p.len() > 0 {
        assert forall|i: int| 0 <= i < p.drop_first().len() implies eq_ci(
            #[trigger] t.drop_first()[i],
            p.drop_first()[i],
        ) by {
            assert(eq_ci(t[i + 1], p[i + 1]));
        }
        lemma_prefix_subseq(p.drop_first(), t.drop_first());
    }
}

/// A single pattern byte is a subsequence exactly when it occurs in the text.
proof fn lemma_single_subseq(p: Seq<u8>, t: Seq<u8>)
    requires
        p.len() == 1,
    ensures
        subseq_ci(p, t) <==> exists|j: int| 0 <= j < t.len() && eq_ci(#[trigger] t[j], p[0]),
    decreases t.len(),
{
    if t.len() > 0 {
        lemma_single_subseq(p, t.drop_first());
        if eq_ci(p[0], t[0]) {
            assert(p.drop_first().len() == 0);
            assert(subseq_ci(p.drop_first(), t.drop_first()));
            assert(eq_ci(t[0], p[0]));
        } else {
            if exists|j: int| 0 <= j < t.len() && eq_ci(#[trigger] t[j], p[0]) {
                let j = choose|j: int| 0 <= j < t.len() && eq_ci(#[trigger] t[j], p[0]);
                assert(eq_ci(t.drop_first()[j - 1], p[0]));
            }
            if exists|j: int| 0 <= j < t.drop_first().len() && eq_ci(#[trigger] t.drop_first()[j], p[0]) {
                let j = choose|j: int| 0 <= j < t.drop_first().len() && eq_ci(#[trigger] t.drop_first()[j], p[0]);
                assert(eq_ci(t[j + 1], p[0]));
            }
        }
    }
}

/// Every byte of the pattern is matched by an equal byte of the text.
proof fn lemma_subseq_semicolon(p: Seq<u8>, t: Seq<u8>)
    requires
        subseq_ci(p, t),
        p.contains(59u8),
    ensures
        t.contains(59u8),
    decreases t.len(),
{
    let k = choose|k: int| 0 <= k < p.len() && p[k] == 59u8;
    if eq_ci(p[0], t[0]) {
        if k == 0 {
            assert(t[0] == 59u8);
        } else {
            assert(p.drop_first()[k - 1] == 59u8);
            lemma_subseq_semicolon(p.drop_first(), t.drop_first());
            let m = choose|m: int| 0 <= m < t.drop_first().len() && t.drop_first()[m] == 59u8;
            assert(t[m + 1] == 59u8);
        }
    } else {
        lemma_subseq_semicolon(p, t.drop_first());
        let m = choose|m: int| 0 <= m < t.drop_first().len() && t.drop_first()[m] == 59u8;
        assert(t[m + 1] == 59u8);
    }
}

proof fn lemma_subseq_skip(p: Seq<u8>, t: Seq<u8>, pi: int, ti: int)
    requires
        0 <= pi < p.len(),
        0 <= ti < t.len(),
    ensures
        subseq_ci(p.skip(pi), t.skip(ti)) == (if eq_ci(p[pi], t[ti]) {
            subseq_ci(p.skip(pi + 1), t.skip(ti + 1))
        } else {
            subseq_ci(p.skip(pi), t.skip(ti + 1))
        }),
{
    assert(p.skip(pi).drop_first() == p.skip(pi + 1));
    assert(t.skip(ti).drop_first() == t.skip(ti + 1));
}

/// Case-insensitive fuzzy match of one text segment against a pattern.
pub fn fuzzy_match_single(text: &[u8], pattern: &[u8]) -> (r: bool)
    ensures
        r == subseq_ci(pattern@, text@),
{
    let p_len = pattern.len();
    let t_len = text.len();

    if t_len < p_len {
        proof {
            if subseq_ci(pattern@, text@) {
                lemma_subseq_len(pattern@, text@);
            }
        }
        return false;
    }
    if p_len == 0 {
        return true;
    }

    // single char match for speed
    if p_len == 1 {
        proof {
            lemma_single_subseq(pattern@, text@);
        }
        let mut k: usize = 0;
        while k < t_len
            invariant
                t_len == text@.len(),
                p_len == 1 == pattern@.len(),
                k <= t_len,
                forall|j: int| 0 <= j < k ==> !eq_ci(#[trigger] text@[j], pattern@[0]),
            decreases t_len - k,
        {
            if byte_eq_ci(text[k], pattern[0]) {
                proof {
                    lemma_single_subseq(pattern@, text@);
                    assert(eq_ci(text@[k as int], pattern@[0]));
                }
                return true;
            }
            k += 1;
        }
        return false;
    }

    // case insensitive prefix match (fast path)
    let mut i: usize = 0;
    let mut prefix_match = true;
    while i < p_len
        invariant
            p_len == pattern@.len(),
            p_len <= t_len == text@.len(),
            i <= p_len,
            prefix_match ==> forall|j: int| 0 <= j < i ==> eq_ci(#[trigger] text@[j], pattern@[j]),
        decreases p_len - i,
    {
        if !byte_eq_ci(text[i], pattern[i]) {
            prefix_match = false;
        }
        i += 1;
    }
    if prefix_match {
        proof {
            lemma_prefix_subseq(pattern@, text@);
        }
        return true;
    }

    // the last pattern byte must occur in text[p_len - 1..]
    let last_p = pattern[p_len - 1];
    let mut k: usize = p_len - 1;
    let mut has_last = false;
    while k < t_len
        invariant
            p_len == pattern@.len(),
            p_len >= 2,
            t_len == text@.len(),
            p_len - 1 <= k <= t_len,
            last_p == pattern@.last(),
            !has_last ==> forall|j: int| p_len - 1 <= j < k ==> !eq_ci(#[trigger] text@[j], last_p),
        decreases t_len - k,
    {
        if byte_eq_ci(text[k], last_p) {
            has_last = true;
        }
        k += 1;
    }
    if !has_last {
        proof {
            if subseq_ci(pattern@, text@) {
                lemma_subseq_last(pattern@, text@);
            }
        }
        return false;
    }

    let mut p_idx: usize = 0;
    let mut t_idx: usize = 0;
    assert(pattern@.skip(0) == pattern@);
    assert(text@.skip(0) == text@);
    while t_idx < t_len && p_idx < p_len
        invariant
            p_len == pattern@.len(),
            t_len == text@.len(),
            p_idx < p_len,
            t_idx <= t_len,
            subseq_ci(pattern@, text@) == subseq_ci(pattern@.skip(p_idx as int), text@.skip(t_idx as int)),
        decreases t_len - t_idx,
    {
        let remaining_text = t_len - t_idx;
        let remaining_pattern = p_len - p_idx;
        if remaining_text < remaining_pattern {
            proof {
                if subseq_ci(pattern@.skip(p_idx as int), text@.skip(t_idx as int)) {
                    lemma_subseq_len(pattern@.skip(p_idx as int), text@.skip(t_idx as int));
                }
            }
            return false;
        }
        proof {
            lemma_subseq_skip(pattern@, text@, p_idx as int, t_idx as int);
        }
        if byte_eq_ci(text[t_idx], pattern[p_idx]) {
            p_idx += 1;
            if p_idx == p_len {
                return true;
            }
        }
        t_idx += 1;
    }
    assert(text@.skip(t_idx as int).len() == 0);
    false
}

/// Fuzzy matching of a pattern against a searchable text.
///
/// Both sides are expected to be lower-cased already; the comparison also
/// ignores ASCII case.
pub trait SherlockSearch {
    /// The UTF-8 bytes that are searched.
    spec fn search_bytes(&self) -> Seq<u8>;

    fn fuzzy_match(&self, pattern: &str) -> (r: bool)
        ensures
            r == fuzzy_spec(self.search_bytes(), vstd::utf8::encode_utf8(pattern@)),
    ;
}

fn fuzzy_match_bytes(t: &[u8], p: &[u8], pattern_has_semicolon: bool) -> (r: bool)
    requires
        pattern_has_semicolon == p@.contains(59u8),
    ensures
        r == fuzzy_spec(t@, p@),
{
    // empty pattern always matches
    if p.len() == 0 {
        return true;
    }
    // pattern longer than text can never match
    if p.len() > t.len() {
        return false;
    }
    // exact check for single-segment patterns
    if !pattern_has_semicolon {
        return fuzzy_match_single(t, p);
    }
    // match against any semicolon-separated segment
    let mut start: usize = 0;
    let mut i: usize = 0;
    while i < t.len()
        invariant
            start <= i <= t@.len(),
            p@.contains(59u8),
            forall|j: int| start <= j < i ==> t@[j] != 59u8,
        decreases t.len() - i,
    {
        if t[i] == 59u8 {
            let m = segment_matches(t, start, i, p);
            proof {
                lemma_segment_never_matches(t@, start as int, i as int, p@);
            }
            if m {
                return true;
            }
            start = i + 1;
        }
        i += 1;
    }
    let m = segment_matches(t, start, i, p);
    proof {
        lemma_segment_never_matches(t@, start as int, i as int, p@);
    }
    m
}

/// A segment free of `;` never holds a pattern that has one.
proof fn lemma_segment_never_matches(t: Seq<u8>, start: int, end: int, p: Seq<u8>)
    requires
        0 <= start <= end <= t.len(),
        p.contains(59u8),
        forall|j: int| start <= j < end ==> t[j] != 59u8,
    ensures
        !subseq_ci(p, t.subrange(start, end)),
{
    let seg = t.subrange(start, end);
    if subseq_ci(p, seg) {
        lemma_subseq_semicolon(p, seg);
        let m = choose|m: int| 0 <= m < seg.len() && seg[m] == 59u8;
        assert(t[start + m] == 59u8);
    }
}

/// Whether the segment `t[start..end]` is at least as long as the pattern and
/// holds it as a case-insensitive subsequence.
fn segment_matches(t: &[u8], start: usize, end: usize, p: &[u8]) -> (r: bool)
    requires
        start <= end <= t@.len(),
    ensures
        r == (end - start >= p@.len() && subseq_ci(p@, t@.subrange(start as int, end as int))),
{
    let seg = vstd::slice::slice_subrange(t, start, end);
    seg.len() >= p.len() && fuzzy_match_single(seg, p)
}

fn contains_semicolon(p: &[u8]) -> (r: bool)
    ensures
        r == p@.contains(59u8),
{
    let mut i: usize = 0;
    while i < p.len()
        invariant
            i <= p@.len(),
            forall|j: int| 0 <= j < i ==> p@[j] != 59u8,
        decreases p.len() - i,
    {
        if p[i] == 59u8 {
            return true;
        }
        i += 1;
    }
    false
}

impl SherlockSearch for str {
    open spec fn search_bytes(&self) -> Seq<u8> {
        vstd::utf8::encode_utf8(self@)
    }

    fn fuzzy_match(&self, pattern: &str) -> (r: bool) {
        let p = pattern.as_bytes();
        fuzzy_match_bytes(self.as_bytes(), p, contains_semicolon(p))
    }
}

impl SherlockSearch for String {
    open spec fn search_bytes(&self) -> Seq<u8> {
        vstd::utf8::encode_utf8(self@)
    }

    fn fuzzy_match(&self, pattern: &str) -> (r: bool) {
        let p = pattern.as_bytes();
        fuzzy_match_bytes(self.as_str().as_bytes(), p, contains_semicolon(p))
    }
}

} // verus!
