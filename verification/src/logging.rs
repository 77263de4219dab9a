use vstd::prelude::*;

use crate::config::SherlockFlags;
use crate::text::{
    decimal, extend_chars, push_decimal, split_chars, split_on, str_chars, string_from_chars,
    sub_chars, trim_bounds, trim_spec,
};

verus! {

/// The non-empty trimmed lines of `pieces`, in order.
pub open spec fn kept_lines(pieces: Seq<Seq<char>>) -> Seq<Seq<char>>
    decreases pieces.len(),
{
    if pieces.len() == 0 {
        seq![]
    } else if trim_spec(pieces.last()).len() == 0 {
        kept_lines(pieces.drop_last())
    } else {
        kept_lines(pieces.drop_last()).push(trim_spec(pieces.last()))
    }
}

/// One line of the log: `[time] file:line - text`.
pub open spec fn log_line(now: Seq<char>, file: Seq<char>, line: u32, text: Seq<char>) -> Seq<char> {
    "["@ + now + "] "@ + file + ":"@ + decimal(line as nat) + " - "@ + text
}

/// The log lines of a message: one per non-empty line of it, trimmed.
pub open spec fn log_lines_spec(message: Seq<char>, now: Seq<char>, file: Seq<char>, line: u32) -> Seq<
    Seq<char>,
> {
    kept_lines(split_on(message, '\n')).map_values(|t: Seq<char>| log_line(now, file, line, t))
}

/// The lines written to the log for `message`, stamped with the time `now`
/// and the place `file`:`line` it was logged from.
pub fn log_lines(message: &str, now: &str, file: &str, line: u32) -> (r: Vec<String>)
    ensures
        r@.map_values(|s: String| s@) == log_lines_spec(message@, now@, file@, line),
{
    let pieces = split_chars(&str_chars(message), '\n');
    let ghost ps = pieces@.map_values(|p: Vec<char>| p@);
    let mut head = str_chars("[");
    extend_chars(&mut head, &str_chars(now));
    extend_chars(&mut head, &str_chars("] "));
    extend_chars(&mut head, &str_chars(file));
    extend_chars(&mut head, &str_chars(":"));
    push_decimal(&mut head, line as u64);
    extend_chars(&mut head, &str_chars(" - "));
    let mut out: Vec<String> = Vec::new();
    let mut i: usize = 0;
    while i < pieces.len()
        invariant
            i <= pieces@.len(),
            ps == pieces@.map_values(|p: Vec<char>| p@),
            head@ == "["@ + now@ + "] "@ + file@ + ":"@ + decimal(line as nat) + " - "@,
            out@.map_values(|s: String| s@) == kept_lines(ps.take(i as int)).map_values(
                |t: Seq<char>| log_line(now@, file@, line, t),
            ),
        decreases pieces.len() - i,
    {
        let p = &pieces[i];
        let (lo, hi) = trim_bounds(p, 0, p.len());
        proof {
            assert(ps.take(i + 1).drop_last() == ps.take(i as int));
            assert(ps.take(i + 1).last() == p@);
            assert(p@.subrange(0, p@.len() as int) == p@);
        }
        if lo < hi {
            let mut l = head.clone();
            extend_chars(&mut l, &sub_chars(p, lo, hi));
            let ghost before = out@.map_values(|s: String| s@);
            out.push(string_from_chars(l.as_slice()));
            assert(out@.map_values(|s: String| s@) == before.push(log_line(now@, file@, line, trim_spec(p@))));
            assert(kept_lines(ps.take(i + 1)) == kept_lines(ps.take(i as int)).push(trim_spec(p@)));
        }
        i += 1;
    }
    assert(ps.take(pieces@.len() as int) == ps);
    out
}

/// What a second instance of the launcher tells the running one.
#[derive(Debug)]
pub enum ClientMessage {
    /// Run with these flags.
    ConfigUpdate(Box<SherlockFlags>),
    /// Show these lines to pick from.
    Dmenu(Vec<String>),
    /// Open the window.
    Open,
}

/// Two messages are alike when they are of the same kind, whatever they
/// carry.
pub open spec fn same_kind(a: ClientMessage, b: ClientMessage) -> bool {
    (a is ConfigUpdate && b is ConfigUpdate) || (a is Dmenu && b is Dmenu) || (a is Open && b is Open)
}

impl PartialEq for ClientMessage {
    fn eq(&self, other: &Self) -> (r: bool) {
        match (self, other) {
            (ClientMessage::ConfigUpdate(_), ClientMessage::ConfigUpdate(_)) => true,
            (ClientMessage::Dmenu(_), ClientMessage::Dmenu(_)) => true,
            (ClientMessage::Open, ClientMessage::Open) => true,
            _ => false,
        }
    }
}

impl vstd::std_specs::cmp::PartialEqSpecImpl for ClientMessage {
    open spec fn obeys_eq_spec() -> bool {
        true
    }

    open spec fn eq_spec(&self, other: &Self) -> bool {
        same_kind(*self, *other)
    }
}

} // verus!
