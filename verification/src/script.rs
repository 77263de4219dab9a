use vstd::prelude::*;

use crate::command::{split_as_command, split_spec};
use crate::paths::{join_path, join_spec};
use crate::text::{
    chars_eq, extend_chars, find_seq, find_seq_from, replace_chars, replace_spec, str_chars,
    string_from_chars, trim_bounds, trim_spec,
};

verus! {

/// The placeholder of an argument template that the query replaces.
pub open spec fn keyword_placeholder() -> Seq<char> {
    "{keyword}"@
}

/// The program to run: a command starting with `~/` is taken relative to the
/// home directory (and cannot be run when it is unknown); any other is used
/// as it is.
pub open spec fn script_program(command: Seq<char>, home: Option<String>) -> Option<Seq<char>> {
    if command.len() >= 2 && command[0] == '~' && command[1] == '/' {
        match home {
            Some(h) => Some(join_spec(h@, command.skip(2))),
            None => None,
        }
    } else {
        Some(command)
    }
}

/// A template that takes the query is not run for a blank query.
pub open spec fn skips_blank_query(args_template: Seq<char>, keyword: Seq<char>) -> bool {
    find_seq_from(args_template, 0, keyword_placeholder()) is Some && trim_spec(keyword).len() == 0
}

/// The arguments: the template with the query put in for each placeholder,
/// split as a command line.
pub open spec fn script_args(args_template: Seq<char>, keyword: Seq<char>) -> Seq<Seq<char>> {
    split_spec(replace_spec(args_template, keyword_placeholder(), keyword))
}

/// A script to run: the program and its arguments.
#[derive(Clone, Debug)]
pub struct ScriptCall {
    pub program: String,
    pub args: Vec<String>,
}

/// Prepares the call of a script for the query `keyword`, or `None` when it is
/// not to be run.
pub fn prepare_script(command: &str, args_template: &str, keyword: &str, home: Option<String>) -> (r:
    Option<ScriptCall>)
    ensures
        r is None <==> (skips_blank_query(args_template@, keyword@) || script_program(
            command@,
            home,
        ) is None),
        r matches Some(c) ==> {
            &&& script_program(command@, home) == Some(c.program@)
            &&& c.args@.len() == script_args(args_template@, keyword@).len()
            &&& forall|k: int|
                0 <= k < c.args@.len() ==> #[trigger] c.args@[k]@ == script_args(
                    args_template@,
                    keyword@,
                )[k]
        },
{
    let template = str_chars(args_template);
    let placeholder = str_chars("{keyword}");
    let kw = str_chars(keyword);
    let takes_keyword = find_seq(&template, 0, &placeholder).is_some();
    if takes_keyword {
        let (b, e) = trim_bounds(&kw, 0, kw.len());
        assert(kw@.subrange(0, kw@.len() as int) == kw@);
        if b == e {
            return None;
        }
    }
    let cmd = str_chars(command);
    let program = if cmd.len() >= 2 && cmd[0] == '~' && cmd[1] == '/' {
        match home {
            Some(h) => {
                let mut rest: Vec<char> = Vec::new();
                let mut i: usize = 2;
                while i < cmd.len()
                    invariant
                        2 <= i <= cmd@.len(),
                        rest@ == cmd@.subrange(2, i as int),
                    decreases cmd.len() - i,
                {
                    rest.push(cmd[i]);
                    i += 1;
                }
                assert(rest@ == cmd@.skip(2));
                let rest = string_from_chars(rest.as_slice());
                join_path(h.as_str(), rest.as_str())
            },
            None => return None,
        }
    } else {
        string_from_chars(cmd.as_slice())
    };
    proof {
        reveal_strlit("{keyword}");
    }
    let filled = replace_chars(&template, &placeholder, &kw);
    let filled = string_from_chars(filled.as_slice());
    let args = split_as_command(filled.as_str());
    Some(ScriptCall { program, args })
}

/// How a script run ended, as the caller saw it.
#[derive(Debug)]
pub enum ScriptOutcome {
    /// The program could not be started; the text of the error.
    SpawnFailed(String),
    /// The program exited, successfully or not, with what it printed.
    Exited { success: bool, status: String, stdout: String, stderr: String },
    /// Waiting for the program failed; the text of the error.
    WaitFailed(String),
    /// The program ran past the time limit and was killed.
    TimedOut,
}

/// A title and a text shown in place of a script's answer.
#[derive(Clone, Debug)]
pub struct ScriptMessage {
    pub title: String,
    pub content: String,
}

/// What is shown for a script run: its output, to be read as JSON, or a
/// message.
#[derive(Debug)]
pub enum ScriptReply {
    Output(String),
    Message(ScriptMessage),
}

fn concat_strs(parts: &Vec<&str>) -> (r: String)
    ensures
        r@ == parts@.fold_left(Seq::<char>::empty(), |acc: Seq<char>, p: &str| acc + p@),
{
    let mut out: Vec<char> = Vec::new();
    let mut i: usize = 0;
    while i < parts.len()
        invariant
            i <= parts@.len(),
            out@ == parts@.take(i as int).fold_left(
                Seq::<char>::empty(),
                |acc: Seq<char>, p: &str| acc + p@,
            ),
        decreases parts.len() - i,
    {
        let v = str_chars(parts[i]);
        extend_chars(&mut out, &v);
        assert(parts@.take(i + 1).drop_last() == parts@.take(i as int));
        i += 1;
    }
    assert(parts@.take(parts@.len() as int) == parts@);
    string_from_chars(out.as_slice())
}

fn message(title: &str, parts: &Vec<&str>) -> (r: ScriptMessage)
    ensures
        r.title@ == title@,
        r.content@ == parts@.fold_left(Seq::<char>::empty(), |acc: Seq<char>, p: &str| acc + p@),
{
    ScriptMessage { title: title.to_owned(), content: concat_strs(parts) }
}

/// The message for a script run that did not give an answer to read, or the
/// output to read.
pub open spec fn reply_spec(outcome: ScriptOutcome) -> Result<Seq<char>, (Seq<char>, Seq<char>)> {
    match outcome {
        ScriptOutcome::SpawnFailed(e) => Err(
            ("Failed to execute script."@, "Execution Error: "@ + e@),
        ),
        ScriptOutcome::Exited { success, status, stdout, stderr } => if success {
            Ok(stdout@)
        } else {
            Err(("Script Error"@, "Exit Status: "@ + status@ + "\nStderr: "@ + stderr@))
        },
        ScriptOutcome::WaitFailed(e) => Err(("Runtime Error"@, e@)),
        ScriptOutcome::TimedOut => Err(
            ("Timeout"@, "The script took too long to respond (10s)."@),
        ),
    }
}

/// What to show for a script run.
pub fn script_reply(outcome: ScriptOutcome) -> (r: ScriptReply)
    ensures
        match r {
            ScriptReply::Output(out) => reply_spec(outcome) == Ok::<Seq<char>, (Seq<char>, Seq<char>)>(out@),
            ScriptReply::Message(m) => reply_spec(outcome) == Err::<Seq<char>, (Seq<char>, Seq<char>)>((m.title@, m.content@)),
        },
{
    match outcome {
        ScriptOutcome::SpawnFailed(e) => {
            let parts = vec!["Execution Error: ", e.as_str()];
            let m = message("Failed to execute script.", &parts);
            proof {
                reveal_with_fuel(Seq::fold_left, 3);
            }
            ScriptReply::Message(m)
        },
        ScriptOutcome::Exited { success, status, stdout, stderr } => {
            if success {
                ScriptReply::Output(stdout)
            } else {
                let parts = vec!["Exit Status: ", status.as_str(), "\nStderr: ", stderr.as_str()];
                let m = message("Script Error", &parts);
                proof {
                    reveal_with_fuel(Seq::fold_left, 5);
                }
                ScriptReply::Message(m)
            }
        },
        ScriptOutcome::WaitFailed(e) => {
            let parts = vec![e.as_str()];
            let m = message("Runtime Error", &parts);
            proof {
                reveal_with_fuel(Seq::fold_left, 2);
            }
            ScriptReply::Message(m)
        },
        ScriptOutcome::TimedOut => {
            let parts = vec!["The script took too long to respond (10s)."];
            let m = message("Timeout", &parts);
            proof {
                reveal_with_fuel(Seq::fold_left, 2);
            }
            ScriptReply::Message(m)
        },
    }
}

/// The message shown when a script's output is not the JSON expected; `err`
/// is the text of the parse error.
pub fn invalid_output_reply(err: &str) -> (r: ScriptMessage)
    ensures
        r.title@ == "Invalid JSON Output"@,
        r.content@ == "Parse error: "@ + err@,
{
    let parts = vec!["Parse error: ", err];
    let m = message("Invalid JSON Output", &parts);
    proof {
        reveal_with_fuel(Seq::fold_left, 3);
    }
    m
}

/// The text shown on a script's row and whether it is the placeholder: the
/// answer's title, else the last query, else an invitation to type.
pub fn display_text(title: Option<String>, last_query: &str) -> (r: (String, bool))
    ensures
        match title {
            Some(t) => r.0 == t && !r.1,
            None => if last_query@.len() > 0 {
                r.0@ == last_query@ && !r.1
            } else {
                r.0@ == "Start typing to search..."@ && r.1
            },
        },
{
    match title {
        Some(t) => (t, false),
        None => {
            let q = str_chars(last_query);
            if q.len() > 0 {
                (last_query.to_owned(), false)
            } else {
                ("Start typing to search...".to_owned(), true)
            }
        },
    }
}

/// The state of a script row between queries: the last answer, whether the
/// loading note shows, the last query and whether a run is under way.
pub struct ScriptState<R> {
    pub result: Option<R>,
    pub show_loading: bool,
    pub last_query: String,
    pub running: bool,
}

/// What to do for a new query.
#[derive(Clone, Copy, Debug, PartialEq, Eq, Structural)]
pub enum QueryAction {
    /// The query is empty: the row was cleared.
    Cleared,
    /// The query is the one already asked: nothing to do.
    Unchanged,
    /// A run for the query is to be started.
    Run,
}

impl<R> ScriptState<R> {
    pub fn new() -> (r: Self)
        ensures
            r.result is None && !r.show_loading && r.last_query@.len() == 0 && !r.running,
    {
        ScriptState { result: None, show_loading: false, last_query: String::new(), running: false }
    }

    /// A new query was typed.
    pub fn on_query(&mut self, query: String) -> (r: QueryAction)
        ensures
            query@.len() == 0 ==> {
                &&& r is Cleared
                &&& final(self).result is None
                &&& !final(self).show_loading
                &&& final(self).last_query@.len() == 0
                &&& !final(self).running
            },
            query@.len() > 0 && query@ == old(self).last_query@ ==> {
                &&& r is Unchanged
                &&& *final(self) == *old(self)
            },
            query@.len() > 0 && query@ != old(self).last_query@ ==> {
                &&& r is Run
                &&& final(self).last_query == query
                &&& final(self).running
                &&& final(self).result == old(self).result
                &&& final(self).show_loading == old(self).show_loading
            },
    {
        let q = str_chars(query.as_str());
        if q.len() == 0 {
            self.running = false;
            self.result = None;
            self.last_query = String::new();
            self.show_loading = false;
            return QueryAction::Cleared;
        }
        let last = str_chars(self.last_query.as_str());
        if chars_eq(&last, &q) {
            return QueryAction::Unchanged;
        }
        self.last_query = query;
        self.running = true;
        QueryAction::Run
    }

    /// The run is taking a while: the loading note shows.
    pub fn on_slow(&mut self)
        ensures
            *final(self) == (ScriptState { show_loading: true, ..*old(self) }),
    {
        self.show_loading = true;
    }

    /// The run finished with `result`.
    pub fn on_result(&mut self, result: Option<R>)
        ensures
            *final(self) == (ScriptState {
                result: result,
                show_loading: false,
                running: false,
                ..*old(self)
            }),
    {
        self.running = false;
        self.show_loading = false;
        self.result = result;
    }
}

} // verus!
