use vstd::prelude::*;

use crate::text::{chars_eq, extend_chars, split_chars, split_on, str_chars, string_from_chars, sub_chars};

verus! {

/// A path's remainder with leading `/` separators and `.` components removed.
pub open spec fn trim_front(s: Seq<char>) -> Seq<char>
    decreases s.len(),
{
    if s.len() > 0 && s[0] == '/' {
        trim_front(s.drop_first())
    } else if s.len() > 0 && s[0] == '.' && (s.len() == 1 || s[1] == '/') {
        trim_front(s.drop_first())
    } else {
        s
    }
}

/// A path's remainder with trailing `/` separators and `.` components removed.
pub open spec fn trim_back(s: Seq<char>) -> Seq<char>
    decreases s.len(),
{
    if s.len() > 0 && s.last() == '/' {
        trim_back(s.drop_last())
    } else if s.len() > 0 && s.last() == '.' && (s.len() == 1 || s[s.len() - 2] == '/') {
        trim_back(s.drop_last())
    } else {
        s
    }
}

/// What `Components::as_path` gives for the components still to come.
pub open spec fn remaining_path(s: Seq<char>) -> Seq<char> {
    trim_back(trim_front(s))
}

/// First segment of a relative path (up to the first `/`), or the whole path.
pub open spec fn first_seg_end(s: Seq<char>, i: int) -> int
    decreases s.len() - i,
{
    if i < 0 || i >= s.len() {
        s.len() as int
    } else if s[i] == '/' {
        i
    } else {
        first_seg_end(s, i + 1)
    }
}

/// The next path component of `s` (a path in the middle of its components) and
/// what follows it: `.` components and separators are skipped.
pub open spec fn next_comp(s: Seq<char>) -> Option<(Seq<char>, Seq<char>)> {
    let t = trim_front(s);
    if t.len() == 0 {
        None
    } else {
        let e = first_seg_end(t, 0);
        Some((t.take(e), t.skip(e)))
    }
}

/// Whether the first component of a path is the normal component `c` (not
/// the root, not a leading `.`), and what follows it.
pub open spec fn first_normal(s: Seq<char>) -> Option<(Seq<char>, Seq<char>)> {
    if s.len() == 0 || s[0] == '/' || (s[0] == '.' && (s.len() == 1 || s[1] == '/')) {
        None
    } else {
        let e = first_seg_end(s, 0);
        Some((s.take(e), s.skip(e)))
    }
}

/// `PathBuf::join` on Unix: an absolute `rel` replaces `base`; otherwise a `/`
/// is put between them unless `base` is empty or already ends with one.
pub open spec fn join_spec(base: Seq<char>, rel: Seq<char>) -> Seq<char> {
    if rel.len() > 0 && rel[0] == '/' {
        rel
    } else if base.len() > 0 && base.last() != '/' {
        base + seq!['/'] + rel
    } else {
        base + rel
    }
}

/// A path whose first component is `~` has it replaced by `home`; any other
/// path is returned as it is.
pub open spec fn expand_path_spec(path: Seq<char>, home: Seq<char>) -> Seq<char> {
    match first_normal(path) {
        Some((c, rest)) => if c == seq!['~'] {
            join_spec(home, remaining_path(rest))
        } else {
            path
        },
        None => path,
    }
}

fn trim_front_idx(s: &Vec<char>, lo: usize, hi: usize) -> (r: usize)
    requires
        lo <= hi <= s@.len(),
    ensures
        lo <= r <= hi,
        s@.subrange(r as int, hi as int) == trim_front(s@.subrange(lo as int, hi as int)),
{
    let mut i = lo;
    while i < hi && (s[i] == '/' || (s[i] == '.' && (i + 1 == hi || s[i + 1] == '/')))
        invariant
            lo <= i <= hi <= s@.len(),
            trim_front(s@.subrange(i as int, hi as int)) == trim_front(s@.subrange(lo as int, hi as int)),
        decreases hi - i,
    {
        assert(s@.subrange(i as int, hi as int).drop_first() == s@.subrange(i + 1, hi as int));
        i += 1;
    }
    i
}

fn trim_back_idx(s: &Vec<char>, lo: usize, hi: usize) -> (r: usize)
    requires
        lo <= hi <= s@.len(),
    ensures
        lo <= r <= hi,
        s@.subrange(lo as int, r as int) == trim_back(s@.subrange(lo as int, hi as int)),
{
    let mut j = hi;
    while j > lo && (s[j - 1] == '/' || (s[j - 1] == '.' && (j - 1 == lo || s[j - 2] == '/')))
        invariant
            lo <= j <= hi <= s@.len(),
            trim_back(s@.subrange(lo as int, j as int)) == trim_back(s@.subrange(lo as int, hi as int)),
        decreases j,
    {
        assert(s@.subrange(lo as int, j as int).drop_last() == s@.subrange(lo as int, j - 1));
        j -= 1;
    }
    j
}

fn seg_end(s: &Vec<char>, lo: usize, hi: usize) -> (r: usize)
    requires
        lo <= hi <= s@.len(),
    ensures
        lo <= r <= hi,
        r - lo == first_seg_end(s@.subrange(lo as int, hi as int), 0),
        forall|j: int| lo <= j < r ==> s@[j] != '/',
        r < hi ==> s@[r as int] == '/',
{
    let ghost t = s@.subrange(lo as int, hi as int);
    let mut i = lo;
    while i < hi && s[i] != '/'
        invariant
            lo <= i <= hi <= s@.len(),
            t == s@.subrange(lo as int, hi as int),
            first_seg_end(t, (i - lo) as int) == first_seg_end(t, 0),
            forall|j: int| lo <= j < i ==> s@[j] != '/',
        decreases hi - i,
    {
        i += 1;
    }
    i
}

/// Joins two paths as `PathBuf::join` does on Unix.
pub fn join_path(base: &str, rel: &str) -> (r: String)
    ensures
        r@ == join_spec(base@, rel@),
{
    let b = str_chars(base);
    let c = str_chars(rel);
    let v = join_chars(&b, &c);
    string_from_chars(v.as_slice())
}

fn join_chars(b: &Vec<char>, c: &Vec<char>) -> (r: Vec<char>)
    ensures
        r@ == join_spec(b@, c@),
{
    if c.len() > 0 && c[0] == '/' {
        return c.clone();
    }
    let mut out = b.clone();
    if b.len() > 0 && b[b.len() - 1] != '/' {
        out.push('/');
    }
    extend_chars(&mut out, c);
    out
}

/// Replaces a leading `~` component of `path` by the home directory `home`.
pub fn expand_path(path: &str, home: &str) -> (r: String)
    ensures
        r@ == expand_path_spec(path@, home@),
{
    let p = str_chars(path);
    let h = str_chars(home);
    let n = p.len();
    if n == 0 || p[0] == '/' || (p[0] == '.' && (n == 1 || p[1] == '/')) {
        return string_from_chars(p.as_slice());
    }
    let e = seg_end(&p, 0, n);
    assert(p@.subrange(0, n as int) == p@);
    if !(e == 1 && p[0] == '~') {
        proof {
            let first = p@.take(e as int);
            assert(first.len() == e);
            if first == seq!['~'] {
                assert(first[0] == p@[0]);
                assert(false);
            }
            assert(first_normal(p@) == Some((first, p@.skip(e as int))));
        }
        return string_from_chars(p.as_slice());
    }
    assert(p@.take(e as int) =~= seq!['~']);
    let lo = trim_front_idx(&p, e, n);
    let hi = trim_back_idx(&p, lo, n);
    assert(p@.skip(e as int) == p@.subrange(e as int, n as int));
    let rest = sub_chars(&p, lo, hi);
    let v = join_chars(&h, &rest);
    string_from_chars(v.as_slice())
}

/// Start of the last segment of `t[..j]`: just after its last `/`, or 0.
pub open spec fn seg_start(t: Seq<char>, j: int) -> int
    decreases j,
{
    if j <= 0 {
        0
    } else if t[j - 1] == '/' {
        j
    } else {
        seg_start(t, j - 1)
    }
}

/// Index of the last `.` in `t[..j]`, or -1.
pub open spec fn last_dot(t: Seq<char>, j: int) -> int
    decreases j,
{
    if j <= 0 {
        -1
    } else if t[j - 1] == '.' {
        j - 1
    } else {
        last_dot(t, j - 1)
    }
}

/// Where the file name of `s` starts and ends, as `Path::file_name` finds it
/// (trailing separators and `.` components are not part of it); `None` when
/// the path has no file name (it is empty, the root, `.` or ends in `..`).
pub open spec fn file_name_bounds(s: Seq<char>) -> Option<(int, int)> {
    let t = trim_back(s);
    let st = seg_start(t, t.len() as int);
    let name = t.subrange(st, t.len() as int);
    if name.len() == 0 || name == ".."@ {
        None
    } else {
        Some((st, t.len() as int))
    }
}

/// Index in `s` of the dot that starts the extension of its file name, as
/// `Path::extension` finds it: the last dot of the name, unless the name
/// starts with it.
pub open spec fn extension_dot(s: Seq<char>) -> Option<int> {
    match file_name_bounds(s) {
        Some((st, en)) => {
            let d = last_dot(s.subrange(st, en), en - st);
            if d <= 0 {
                None
            } else {
                Some(st + d)
            }
        },
        None => None,
    }
}

/// `Path::extension`: what follows the extension dot in the file name.
pub open spec fn extension_spec(s: Seq<char>) -> Option<Seq<char>> {
    match extension_dot(s) {
        Some(d) => Some(s.subrange(d + 1, trim_back(s).len() as int)),
        None => None,
    }
}

/// `seg_start` looks only at the characters before `j`.
proof fn lemma_seg_start_prefix(a: Seq<char>, b: Seq<char>, j: int)
    requires
        0 <= j <= a.len(),
        j <= b.len(),
        a.take(j) == b.take(j),
    ensures
        seg_start(a, j) == seg_start(b, j),
    decreases j,
{
    if j > 0 {
        assert(a[j - 1] == a.take(j)[j - 1]);
        assert(b[j - 1] == b.take(j)[j - 1]);
        assert(a.take(j - 1) == a.take(j).take(j - 1));
        assert(b.take(j - 1) == b.take(j).take(j - 1));
        lemma_seg_start_prefix(a, b, j - 1);
    }
}

/// Characters that are no separators do not move the start of the last
/// segment.
proof fn lemma_seg_start_skip(t: Seq<char>, i: int, j: int)
    requires
        0 <= i <= j <= t.len(),
        forall|k: int| i <= k < j ==> t[k] != '/',
    ensures
        seg_start(t, j) == seg_start(t, i),
    decreases j,
{
    if j > i {
        lemma_seg_start_skip(t, i, j - 1);
    }
}

/// The last dot of `t[..j]` when no dot follows the one at `k`.
proof fn lemma_last_dot_at(t: Seq<char>, k: int, j: int)
    requires
        0 <= k < j <= t.len(),
        t[k] == '.',
        forall|i: int| k < i < j ==> t[i] != '.',
    ensures
        last_dot(t, j) == k,
    decreases j,
{
    if j - 1 > k {
        lemma_last_dot_at(t, k, j - 1);
    }
}

/// `last_dot` finds a dot before `j`, or -1.
proof fn lemma_last_dot_is_dot(t: Seq<char>, j: int)
    requires
        j <= t.len(),
    ensures
        last_dot(t, j) == -1 || (0 <= last_dot(t, j) < j && t[last_dot(t, j)] == '.'),
        forall|i: int| last_dot(t, j) < i < j ==> t[i] != '.',
    decreases j,
{
    if j > 0 && t[j - 1] != '.' {
        lemma_last_dot_is_dot(t, j - 1);
    }
}

/// A file name with no trailing separator and the extension `e`: replacing the
/// extension by another one `f` (no separators or dots in it, not empty)
/// gives a path whose extension is `f`, at the same dot.
pub proof fn lemma_replace_extension_dot(p: Seq<char>, f: Seq<char>)
    requires
        trim_back(p) == p,
        extension_dot(p) is Some,
        f.len() > 0,
        forall|i: int| 0 <= i < f.len() ==> f[i] != '/' && f[i] != '.',
    ensures
        trim_back(replace_extension_spec(p, f)) == replace_extension_spec(p, f),
        extension_dot(replace_extension_spec(p, f)) == extension_dot(p),
        extension_spec(replace_extension_spec(p, f)) == Some(f),
        0 <= extension_dot(p)->0 < p.len(),
        p[extension_dot(p)->0] == '.',
        p == p.take(extension_dot(p)->0) + seq!['.'] + extension_spec(p)->0,
{
    let d = extension_dot(p)->0;
    let q = replace_extension_spec(p, f);
    let (st, en) = file_name_bounds(p)->0;
    assert(en == p.len());
    assert(st == seg_start(p, p.len() as int));
    lemma_seg_start_is_segment(p, p.len() as int);
    let name = p.subrange(st, en);
    lemma_last_dot_is_dot(name, en - st);
    let dd = last_dot(name, en - st);
    assert(d == st + dd);
    assert(p[d] == name[dd]);
    // q: no trailing separator
    assert(q.last() == f.last());
    assert(trim_back(q) == q);
    assert forall|k: int| d <= k < q.len() implies q[k] != '/' by {
        if k > d {
            assert(q[k] == f[k - d - 1]);
        }
    }
    lemma_seg_start_skip(q, d, q.len() as int);
    assert(q.take(d) == p.take(d));
    lemma_seg_start_prefix(q, p, d);
    lemma_seg_start_skip(p, d, p.len() as int);
    let qname = q.subrange(st, q.len() as int);
    assert(qname[dd] == '.');
    assert forall|i: int| dd < i < qname.len() implies qname[i] != '.' by {
        assert(qname[i] == f[i - dd - 1]);
    }
    lemma_last_dot_at(qname, dd, qname.len() as int);
    assert(dd > 0);
    assert(qname.len() >= 3);
    reveal_strlit("..");
    assert(qname != ".."@);
    assert(seg_start(q, q.len() as int) == st);
    assert(trim_back(q).len() == q.len());
    assert(file_name_bounds(q) == Some((st, q.len() as int)));
    assert(extension_dot(q) == Some(d));
    assert(q.subrange(d + 1, q.len() as int) == f);
    assert(p == p.take(d) + seq!['.'] + p.subrange(d + 1, p.len() as int));
}

/// From `seg_start` on, up to `j`, there is no separator.
proof fn lemma_seg_start_is_segment(t: Seq<char>, j: int)
    requires
        0 <= j <= t.len(),
    ensures
        0 <= seg_start(t, j) <= j,
        forall|k: int| seg_start(t, j) <= k < j ==> t[k] != '/',
    decreases j,
{
    if j > 0 && t[j - 1] != '/' {
        lemma_seg_start_is_segment(t, j - 1);
    }
}

/// `PathBuf::set_extension` on a path that has an extension: the path is cut
/// at the extension dot and `.` and `ext` are appended.
pub open spec fn replace_extension_spec(s: Seq<char>, ext: Seq<char>) -> Seq<char>
    recommends
        extension_dot(s) is Some,
{
    s.take(extension_dot(s)->0) + seq!['.'] + ext
}

/// The bounds of the file name of `s`, and the index of its extension dot.
fn file_name_and_dot(s: &Vec<char>) -> (r: (Option<(usize, usize)>, Option<usize>))
    ensures
        match r.0 {
            Some((st, en)) => file_name_bounds(s@) == Some((st as int, en as int)),
            None => file_name_bounds(s@) is None,
        },
        match r.1 {
            Some(d) => extension_dot(s@) == Some(d as int),
            None => extension_dot(s@) is None,
        },
        r.0 matches Some((_, en)) ==> en == trim_back(s@).len(),
        r.0 matches Some((st, en)) ==> st < en <= s@.len(),
        r.1 matches Some(d) ==> (r.0 matches Some((st, en)) && st < d < en),
{
    let n = s.len();
    let en = trim_back_idx(s, 0, n);
    assert(s@.subrange(0, n as int) == s@);
    let ghost t = trim_back(s@);
    assert(t == s@.subrange(0, en as int));
    let mut st = en;
    while st > 0 && s[st - 1] != '/'
        invariant
            st <= en <= n == s@.len(),
            t == s@.subrange(0, en as int),
            seg_start(t, st as int) == seg_start(t, en as int),
        decreases st,
    {
        st -= 1;
    }
    let ghost name = t.subrange(st as int, en as int);
    assert(name == s@.subrange(st as int, en as int));
    let empty_or_up = st == en || (en - st == 2 && s[st] == '.' && s[st + 1] == '.');
    proof {
        if name == ".."@ {
            reveal_strlit("..");
            assert(name[0] == '.' && name[1] == '.');
        }
        if en - st == 2 && s@[st as int] == '.' && s@[st + 1] == '.' {
            reveal_strlit("..");
            assert(name =~= ".."@);
        }
    }
    if empty_or_up {
        return (None, None);
    }
    let mut d = en;
    while d > st && s[d - 1] != '.'
        invariant
            st <= d <= en <= n == s@.len(),
            name == s@.subrange(st as int, en as int),
            last_dot(name, d - st) == last_dot(name, en - st),
        decreases d,
    {
        d -= 1;
    }
    if d <= st + 1 {
        (Some((st, en)), None)
    } else {
        (Some((st, en)), Some(d - 1))
    }
}

/// The extension of the file name of `path`, as `Path::extension` gives it.
pub fn path_extension(path: &Vec<char>) -> (r: Option<Vec<char>>)
    ensures
        match r {
            Some(e) => extension_spec(path@) == Some(e@),
            None => extension_spec(path@) is None,
        },
{
    let (bounds, dot) = file_name_and_dot(path);
    match dot {
        Some(d) => {
            let en = match bounds {
                Some((_, en)) => en,
                None => d + 1,
            };
            proof {
                assert(bounds is Some);
            }
            Some(sub_chars(path, d + 1, en))
        },
        None => None,
    }
}

/// Replaces the extension of a path that has one.
pub fn replace_extension(path: &Vec<char>, ext: &str) -> (r: Vec<char>)
    requires
        extension_dot(path@) is Some,
    ensures
        r@ == replace_extension_spec(path@, ext@),
{
    let (_, dot) = file_name_and_dot(path);
    let d = match dot {
        Some(d) => d,
        None => 0,
    };
    let mut out = sub_chars(path, 0, d);
    out.push('.');
    let e = str_chars(ext);
    extend_chars(&mut out, &e);
    out
}

/// The configuration directory of old versions, `~/.sherlock`, for the home
/// directory `home`.
pub fn legacy_path(home: &str) -> (r: String)
    ensures
        r@ == join_spec(home@, ".sherlock"@),
{
    join_path(home, ".sherlock")
}

/// With an absolute home directory, an expanded path never starts with a
/// `~` component.
pub proof fn lemma_expanded_has_no_tilde(path: Seq<char>, home: Seq<char>)
    requires
        home.len() > 0,
        home[0] == '/',
    ensures
        !(first_normal(expand_path_spec(path, home)) matches Some((c, _)) && c == seq!['~']),
{
    match first_normal(path) {
        Some((c, rest)) => {
            if c == seq!['~'] {
                let r = remaining_path(rest);
                let j = join_spec(home, r);
                if r.len() > 0 && r[0] == '/' {
                    assert(j == r);
                } else if home.last() != '/' {
                    assert(j == home + seq!['/'] + r);
                    assert(j[0] == '/');
                } else {
                    assert(j == home + r);
                    assert(j[0] == '/');
                }
            }
        },
        None => {},
    }
}

/// The segments of a path between separators that name something: not
/// empty and not `.`.
pub open spec fn body_comps(segs: Seq<Seq<char>>) -> Seq<Seq<char>>
    decreases segs.len(),
{
    if segs.len() == 0 {
        seq![]
    } else {
        let rest = body_comps(segs.drop_last());
        let g = segs.last();
        if g.len() == 0 || g == seq!['.'] {
            rest
        } else {
            rest.push(g)
        }
    }
}

/// The components of a path as `Path::components` gives them on Unix, the
/// root written `/` and a leading current directory `.`.
pub open spec fn comps_of(s: Seq<char>) -> Seq<Seq<char>> {
    let body = body_comps(split_on(s, '/'));
    if s.len() > 0 && s[0] == '/' {
        seq![seq!['/']] + body
    } else if s.len() > 0 && s[0] == '.' && (s.len() == 1 || s[1] == '/') {
        seq![seq!['.']] + body
    } else {
        body
    }
}

pub(crate) fn comps_vec(s: &Vec<char>) -> (r: Vec<Vec<char>>)
    ensures
        r@.map_values(|c: Vec<char>| c@) == comps_of(s@),
{
    let segs = split_chars(s, '/');
    let ghost gs = segs@.map_values(|c: Vec<char>| c@);
    let mut out: Vec<Vec<char>> = Vec::new();
    if s.len() > 0 && s[0] == '/' {
        let root = vec!['/'];
        assert(root@ =~= seq!['/']);
        out.push(root);
        assert(out@.map_values(|c: Vec<char>| c@) =~= seq![seq!['/']]);
    } else if s.len() > 0 && s[0] == '.' && (s.len() == 1 || s[1] == '/') {
        let cur = vec!['.'];
        assert(cur@ =~= seq!['.']);
        out.push(cur);
        assert(out@.map_values(|c: Vec<char>| c@) =~= seq![seq!['.']]);
    }
    let ghost head = out@.map_values(|c: Vec<char>| c@);
    let mut i: usize = 0;
    while i < segs.len()
        invariant
            i <= segs@.len(),
            gs == segs@.map_values(|c: Vec<char>| c@),
            out@.map_values(|c: Vec<char>| c@) == head + body_comps(gs.take(i as int)),
        decreases segs.len() - i,
    {
        assert(gs.take(i + 1).drop_last() == gs.take(i as int));
        assert(gs.take(i + 1).last() == segs@[i as int]@);
        let g = &segs[i];
        if !(g.len() == 0 || (g.len() == 1 && g[0] == '.')) {
            let ghost before = out@.map_values(|c: Vec<char>| c@);
            out.push(g.clone());
            assert(out@.map_values(|c: Vec<char>| c@) == before.push(g@));
        } else {
            proof {
                if g@.len() == 1 {
                    assert(g@ =~= seq!['.']);
                }
            }
        }
        i += 1;
    }
    proof {
        assert(gs.take(segs@.len() as int) == gs);
        if s@.len() > 0 && s@[0] == '/' {
            assert(head =~= seq![seq!['/']]);
        } else if s@.len() > 0 && s@[0] == '.' && (s@.len() == 1 || s@[1] == '/') {
            assert(head =~= seq![seq!['.']]);
        } else {
            assert(head =~= Seq::<Seq<char>>::empty());
        }
    }
    out
}

/// Whether two paths are equal as `Path`s: component by component.
pub fn same_path(a: &str, b: &str) -> (r: bool)
    ensures
        r == (comps_of(a@) == comps_of(b@)),
{
    let sa = str_chars(a);
    let sb = str_chars(b);
    let ca = comps_vec(&sa);
    let cb = comps_vec(&sb);
    let ghost va = ca@.map_values(|c: Vec<char>| c@);
    let ghost vb = cb@.map_values(|c: Vec<char>| c@);
    assert(va == comps_of(a@));
    assert(vb == comps_of(b@));
    if ca.len() != cb.len() {
        assert(va.len() != vb.len());
        return false;
    }
    let mut i: usize = 0;
    while i < ca.len()
        invariant
            i <= ca@.len(),
            ca@.len() == cb@.len(),
            va == ca@.map_values(|c: Vec<char>| c@),
            vb == cb@.map_values(|c: Vec<char>| c@),
            va == comps_of(a@),
            vb == comps_of(b@),
            forall|j: int| 0 <= j < i ==> va[j] == vb[j],
        decreases ca.len() - i,
    {
        if !chars_eq(&ca[i], &cb[i]) {
            assert(va[i as int] != vb[i as int]);
            return false;
        }
        i += 1;
    }
    assert(va =~= vb);
    true
}

} // verus!
