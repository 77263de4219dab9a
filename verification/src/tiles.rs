use vstd::prelude::*;

use crate::text::{
    extend_chars, find_char, find_char_from, replace_chars, replace_spec, str_chars,
    string_from_chars,
};

verus! {

/// What a tag label shows for a query.
#[derive(Clone, Debug, PartialEq, Eq)]
pub enum TagUpdate {
    /// The launcher has no tag: the label is left as it is.
    Unchanged,
    /// The query is empty: the label is hidden.
    Hidden,
    /// The label shows this text.
    Shown(String),
}

/// A tag shows its text with the query put in for `{keyword}`, and hides
/// while nothing is typed.
pub fn tag_text(content: &Option<String>, keyword: &str) -> (r: TagUpdate)
    ensures
        match content {
            None => r is Unchanged,
            Some(c) => if keyword@.len() == 0 {
                r is Hidden
            } else {
                r matches TagUpdate::Shown(t) && t@ == replace_spec(c@, "{keyword}"@, keyword@)
            },
        },
{
    match content {
        None => TagUpdate::Unchanged,
        Some(c) => {
            let k = str_chars(keyword);
            if k.len() == 0 {
                return TagUpdate::Hidden;
            }
            proof {
                reveal_strlit("{keyword}");
            }
            let t = replace_chars(&str_chars(c.as_str()), &str_chars("{keyword}"), &k);
            TagUpdate::Shown(string_from_chars(t.as_slice()))
        },
    }
}

/// The parent and child process ids of a process entry, written `parent,child`
/// (the child part is empty when there is no comma).
pub open spec fn process_ids_spec(exec: Seq<char>) -> (Seq<char>, Seq<char>) {
    match find_char_from(exec, 0, ',') {
        Some(i) => (exec.take(i), exec.skip(i + 1)),
        None => (exec, seq![]),
    }
}

pub fn process_ids(exec: &str) -> (r: (String, String))
    ensures
        (r.0@, r.1@) == process_ids_spec(exec@),
{
    let v = str_chars(exec);
    proof {
        crate::text::lemma_find_char_from(v@, 0, ',');
    }
    match find_char(&v, 0, ',') {
        Some(i) => {
            let mut a: Vec<char> = Vec::new();
            let mut j: usize = 0;
            while j < i
                invariant
                    j <= i < v@.len(),
                    a@ == v@.take(j as int),
                decreases i - j,
            {
                a.push(v[j]);
                assert(v@.take(j + 1) == v@.take(j as int).push(v@[j as int]));
                j += 1;
            }
            let mut b: Vec<char> = Vec::new();
            assert(i < v.len());
            let mut k = i + 1;
            while k < v.len()
                invariant
                    i + 1 <= k <= v@.len(),
                    b@ == v@.subrange(i + 1, k as int),
                decreases v.len() - k,
            {
                b.push(v[k]);
                k += 1;
            }
            assert(v@.subrange(i + 1, v@.len() as int) == v@.skip(i + 1));
            (string_from_chars(a.as_slice()), string_from_chars(b.as_slice()))
        },
        None => (exec.to_owned(), String::new()),
    }
}

/// How an attendee is written: the name, or failing it the e-mail address,
/// or `Unknown`; the address follows in brackets when both are known.
pub fn attendee_label(name: &Option<String>, email: &Option<String>) -> (r: (String, Option<String>))
    ensures
        r.0@ == match (*name, *email) {
            (Some(n), _) => n@,
            (None, Some(e)) => e@,
            (None, None) => "Unknown"@,
        },
        match r.1 {
            Some(s) => name is Some && (email matches Some(e) && s@ == "("@ + e@ + ")"@),
            None => !(name is Some && email is Some),
        },
{
    let main = match name {
        Some(n) => n.clone(),
        None => match email {
            Some(e) => e.clone(),
            None => "Unknown".to_owned(),
        },
    };
    let extra = match (name, email) {
        (Some(_), Some(e)) => {
            let mut v = str_chars("(");
            extend_chars(&mut v, &str_chars(e.as_str()));
            extend_chars(&mut v, &str_chars(")"));
            Some(string_from_chars(v.as_slice()))
        },
        _ => None,
    };
    (main, extra)
}

/// An attendee's answer to an invitation.
#[derive(Clone, Copy, Debug, PartialEq, Eq, Structural)]
pub enum Partstat {
    Accepted,
    Tentative,
    Declined,
    NeedsAction,
}

/// The colour an attendee's dot is drawn in.
#[derive(Clone, Copy, Debug, PartialEq, Eq, Structural)]
pub enum AttendeeColor {
    Success,
    Warning,
    Error,
    Neutral,
}

pub fn attendee_color(p: Option<Partstat>) -> (r: AttendeeColor)
    ensures
        r == match p {
            Some(Partstat::Accepted) => AttendeeColor::Success,
            Some(Partstat::Tentative) => AttendeeColor::Warning,
            Some(Partstat::Declined) => AttendeeColor::Error,
            _ => AttendeeColor::Neutral,
        },
{
    match p {
        Some(Partstat::Accepted) => AttendeeColor::Success,
        Some(Partstat::Tentative) => AttendeeColor::Warning,
        Some(Partstat::Declined) => AttendeeColor::Error,
        _ => AttendeeColor::Neutral,
    }
}

/// The text a piped item is searched by, `name;description`, and whether it
/// is shown: an item with neither and no picture is not.
pub fn pipe_search(name: &Option<String>, description: &Option<String>, has_picture: bool) -> (r: Option<String>)
    ensures
        ({
            let n = match *name {
                Some(s) => s@,
                None => Seq::<char>::empty(),
            };
            let d = match *description {
                Some(s) => s@,
                None => Seq::<char>::empty(),
            };
            let s = n + seq![';'] + d;
            if s == seq![';'] && !has_picture {
                r is None
            } else {
                r matches Some(t) && t@ == s
            }
        }),
{
    let mut v: Vec<char> = match name {
        Some(n) => str_chars(n.as_str()),
        None => Vec::new(),
    };
    v.push(';');
    match description {
        Some(d) => extend_chars(&mut v, &str_chars(d.as_str())),
        None => {},
    }
    if v.len() == 1 && !has_picture {
        assert(v@ =~= seq![';']);
        return None;
    }
    proof {
        if v@.len() != 1 {
            assert(v@ != seq![';']);
        }
    }
    Some(string_from_chars(v.as_slice()))
}

} // verus!
