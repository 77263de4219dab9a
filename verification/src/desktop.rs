use vstd::prelude::*;

use crate::paths::{comps_of, comps_vec};
use crate::text::{chars_eq, str_chars, string_from_chars};

verus! {

/// Whether `s` starts with `p`.
pub open spec fn has_prefix(s: Seq<char>, p: Seq<char>) -> bool {
    s.len() >= p.len() && s.take(p.len() as int) == p
}

/// The first line that starts with `Exec=`.
pub open spec fn first_exec_line(lines: Seq<Seq<char>>) -> Option<int>
    decreases lines.len(),
{
    if lines.len() == 0 {
        None
    } else {
        match first_exec_line(lines.drop_last()) {
            Some(i) => Some(i),
            None => if has_prefix(lines.last(), "Exec="@) {
                Some(lines.len() - 1)
            } else {
                None
            },
        }
    }
}

/// `s` without every `Exec=` it starts with.
pub open spec fn trim_exec_prefixes(s: Seq<char>) -> Seq<char>
    decreases s.len(),
{
    if s.len() >= 5 && has_prefix(s, "Exec="@) {
        trim_exec_prefixes(s.skip(5))
    } else {
        s
    }
}

proof fn lemma_first_exec_line_prefix(lines: Seq<Seq<char>>, k: int)
    requires
        0 <= k <= lines.len(),
        first_exec_line(lines.take(k)) is Some,
    ensures
        first_exec_line(lines) == first_exec_line(lines.take(k)),
    decreases lines.len(),
{
    if k < lines.len() {
        assert(lines.drop_last().take(k) == lines.take(k));
        lemma_first_exec_line_prefix(lines.drop_last(), k);
    } else {
        assert(lines.take(k) == lines);
    }
}

proof fn lemma_first_exec_line_holds(lines: Seq<Seq<char>>)
    ensures
        first_exec_line(lines) matches Some(i) ==> 0 <= i < lines.len() && has_prefix(
            lines[i],
            "Exec="@,
        ),
    decreases lines.len(),
{
    if lines.len() > 0 {
        lemma_first_exec_line_holds(lines.drop_last());
    }
}

fn starts_with_exec(v: &Vec<char>) -> (r: bool)
    ensures
        r == has_prefix(v@, "Exec="@),
{
    proof {
        reveal_strlit("Exec=");
    }
    if v.len() < 5 {
        return false;
    }
    let p = str_chars("Exec=");
    let mut i: usize = 0;
    while i < 5
        invariant
            i <= 5 <= v@.len(),
            p@ == "Exec="@,
            p@.len() == 5,
            forall|j: int| 0 <= j < i ==> v@[j] == p@[j],
        decreases 5 - i,
    {
        if v[i] != p[i] {
            assert(v@.take(5)[i as int] != p@[i as int]);
            return false;
        }
        i += 1;
    }
    assert(v@.take(5) == p@);
    true
}

fn find_exec_line(lines: &Vec<String>) -> (r: Option<usize>)
    ensures
        match r {
            Some(i) => first_exec_line(lines@.map_values(|s: String| s@)) == Some(i as int) && i
                < lines@.len(),
            None => first_exec_line(lines@.map_values(|s: String| s@)) is None,
        },
{
    let ghost ls = lines@.map_values(|s: String| s@);
    let mut i: usize = 0;
    while i < lines.len()
        invariant
            i <= lines@.len(),
            ls == lines@.map_values(|s: String| s@),
            first_exec_line(ls.take(i as int)) is None,
        decreases lines.len() - i,
    {
        let v = str_chars(lines[i].as_str());
        assert(ls.take(i + 1).drop_last() == ls.take(i as int));
        assert(ls.take(i + 1).last() == lines@[i as int]@);
        if starts_with_exec(&v) {
            proof {
                lemma_first_exec_line_prefix(ls, i + 1);
            }
            return Some(i);
        }
        i += 1;
    }
    assert(ls.take(lines@.len() as int) == ls);
    None
}

fn tail_from(v: &Vec<char>, start: usize) -> (r: Vec<char>)
    requires
        start <= v@.len(),
    ensures
        r@ == v@.skip(start as int),
{
    let mut out: Vec<char> = Vec::new();
    let mut i = start;
    while i < v.len()
        invariant
            start <= i <= v@.len(),
            out@ == v@.subrange(start as int, i as int),
        decreases v.len() - i,
    {
        out.push(v[i]);
        i += 1;
    }
    out
}

/// The command of a desktop entry: the first `Exec=` line with that prefix
/// taken off once.
pub fn exec_command(lines: &Vec<String>) -> (r: Option<String>)
    ensures
        match first_exec_line(lines@.map_values(|s: String| s@)) {
            Some(i) => r matches Some(c) && c@ == lines@[i]@.skip(5),
            None => r is None,
        },
{
    match find_exec_line(lines) {
        Some(i) => {
            let v = str_chars(lines[i].as_str());
            proof {
                reveal_strlit("Exec=");
                lemma_first_exec_line_holds(lines@.map_values(|s: String| s@));
                assert(lines@.map_values(|s: String| s@)[i as int] == v@);
            }
            Some(string_from_chars(tail_from(&v, 5).as_slice()))
        },
        None => None,
    }
}

/// The command of the first `Exec=` line with every leading `Exec=` taken
/// off.
pub fn exec_command_trimmed(lines: &Vec<String>) -> (r: Option<String>)
    ensures
        match first_exec_line(lines@.map_values(|s: String| s@)) {
            Some(i) => r matches Some(c) && c@ == trim_exec_prefixes(lines@[i]@),
            None => r is None,
        },
{
    match find_exec_line(lines) {
        Some(i) => {
            let mut v = str_chars(lines[i].as_str());
            while starts_with_exec(&v)
                invariant
                    trim_exec_prefixes(v@) == trim_exec_prefixes(lines@[i as int]@),
                decreases v@.len(),
            {
                proof {
                    reveal_strlit("Exec=");
                }
                v = tail_from(&v, 5);
            }
            Some(string_from_chars(v.as_slice()))
        },
        None => None,
    }
}

/// Whether the components of `child` end those of `path`, as
/// `Path::ends_with` compares.
pub open spec fn path_ends_with(path: Seq<char>, child: Seq<char>) -> bool {
    let p = comps_of(path);
    let c = comps_of(child);
    c.len() <= p.len() && p.skip(p.len() - c.len()) == c
}

/// The first desktop file whose path ends with `name`.
pub open spec fn first_ending(files: Seq<Seq<char>>, name: Seq<char>) -> Option<int>
    decreases files.len(),
{
    if files.len() == 0 {
        None
    } else {
        match first_ending(files.drop_last(), name) {
            Some(i) => Some(i),
            None => if path_ends_with(files.last(), name) {
                Some(files.len() - 1)
            } else {
                None
            },
        }
    }
}

proof fn lemma_first_ending_prefix(files: Seq<Seq<char>>, name: Seq<char>, k: int)
    requires
        0 <= k <= files.len(),
        first_ending(files.take(k), name) is Some,
    ensures
        first_ending(files, name) == first_ending(files.take(k), name),
    decreases files.len(),
{
    if k < files.len() {
        assert(files.drop_last().take(k) == files.take(k));
        lemma_first_ending_prefix(files.drop_last(), name, k);
    } else {
        assert(files.take(k) == files);
    }
}

fn ends_with_path(path: &str, child: &Vec<Vec<char>>) -> (r: bool)
    ensures
        r == ({
            let p = comps_of(path@);
            let c = child@.map_values(|x: Vec<char>| x@);
            c.len() <= p.len() && p.skip(p.len() - c.len()) == c
        }),
{
    let pv = comps_vec(&str_chars(path));
    let ghost p = pv@.map_values(|x: Vec<char>| x@);
    let ghost c = child@.map_values(|x: Vec<char>| x@);
    assert(p == comps_of(path@));
    if child.len() > pv.len() {
        return false;
    }
    let off = pv.len() - child.len();
    let mut i: usize = 0;
    while i < child.len()
        invariant
            i <= child@.len(),
            off + child@.len() == pv@.len(),
            pv@.len() == pv.len(),
            p == pv@.map_values(|x: Vec<char>| x@),
            c == child@.map_values(|x: Vec<char>| x@),
            p == comps_of(path@),
            forall|j: int| 0 <= j < i ==> p[off + j] == c[j],
        decreases child.len() - i,
    {
        assert(off + i < pv.len());
        if !chars_eq(&pv[off + i], &child[i]) {
            assert(p.skip(off as int)[i as int] != c[i as int]);
            return false;
        }
        i += 1;
    }
    assert(p.skip(off as int) =~= c);
    true
}

/// Finds the first desktop file whose path ends with `name`.
pub fn find_desktop_file(files: &Vec<String>, name: &str) -> (r: Option<usize>)
    ensures
        match r {
            Some(i) => first_ending(files@.map_values(|s: String| s@), name@) == Some(i as int),
            None => first_ending(files@.map_values(|s: String| s@), name@) is None,
        },
{
    let ghost fs = files@.map_values(|s: String| s@);
    let child = comps_vec(&str_chars(name));
    assert(child@.map_values(|x: Vec<char>| x@) == comps_of(name@));
    let mut i: usize = 0;
    while i < files.len()
        invariant
            i <= files@.len(),
            fs == files@.map_values(|s: String| s@),
            child@.map_values(|x: Vec<char>| x@) == comps_of(name@),
            first_ending(fs.take(i as int), name@) is None,
        decreases files.len() - i,
    {
        assert(fs.take(i + 1).drop_last() == fs.take(i as int));
        assert(fs.take(i + 1).last() == files@[i as int]@);
        if ends_with_path(files[i].as_str(), &child) {
            proof {
                lemma_first_ending_prefix(fs, name@, i + 1);
            }
            return Some(i);
        }
        i += 1;
    }
    assert(fs.take(files@.len() as int) == fs);
    None
}

} // verus!
