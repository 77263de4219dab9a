use sherlock::script::{
    display_text, invalid_output_reply, prepare_script, script_reply, QueryAction, ScriptOutcome,
    ScriptReply, ScriptState,
};

#[test]
fn prepare_script_fills_in_the_query() {
    let call = prepare_script("~/bin/search", "--q '{keyword}' -n 5", "rust verus", Some("/home/u".into()))
        .unwrap();
    assert_eq!(call.program, "/home/u/bin/search");
    assert_eq!(call.args, vec!["--q", "rust verus", "-n", "5"]);
}

#[test]
fn prepare_script_skips_blank_queries() {
    assert!(prepare_script("/bin/s", "{keyword}", "   ", None).is_none());
    let call = prepare_script("/bin/s", "--all", "   ", None).unwrap();
    assert_eq!(call.program, "/bin/s");
    assert_eq!(call.args, vec!["--all"]);
}

#[test]
fn prepare_script_needs_home_for_tilde() {
    assert!(prepare_script("~/bin/s", "", "x", None).is_none());
    let call = prepare_script("~x/bin/s", "", "x", None).unwrap();
    assert_eq!(call.program, "~x/bin/s");
    assert!(call.args.is_empty());
}

fn message(r: ScriptReply) -> (String, String) {
    match r {
        ScriptReply::Message(m) => (m.title, m.content),
        ScriptReply::Output(_) => panic!("expected a message"),
    }
}

#[test]
fn script_reply_messages() {
    assert_eq!(
        message(script_reply(ScriptOutcome::SpawnFailed("not found".into()))),
        ("Failed to execute script.".to_string(), "Execution Error: not found".to_string())
    );
    assert_eq!(
        message(script_reply(ScriptOutcome::Exited {
            success: false,
            status: "exit status: 2".into(),
            stdout: String::new(),
            stderr: "boom".into(),
        })),
        ("Script Error".to_string(), "Exit Status: exit status: 2\nStderr: boom".to_string())
    );
    assert_eq!(
        message(script_reply(ScriptOutcome::WaitFailed("interrupted".into()))),
        ("Runtime Error".to_string(), "interrupted".to_string())
    );
    assert_eq!(
        message(script_reply(ScriptOutcome::TimedOut)),
        ("Timeout".to_string(), "The script took too long to respond (10s).".to_string())
    );
    let m = invalid_output_reply("expected value");
    assert_eq!(m.title, "Invalid JSON Output");
    assert_eq!(m.content, "Parse error: expected value");
}

#[test]
fn script_reply_passes_output_on() {
    match script_reply(ScriptOutcome::Exited {
        success: true,
        status: "exit status: 0".into(),
        stdout: "{\"title\":\"x\"}".into(),
        stderr: String::new(),
    }) {
        ScriptReply::Output(o) => assert_eq!(o, "{\"title\":\"x\"}"),
        ScriptReply::Message(_) => panic!("expected output"),
    }
}

#[test]
fn display_text_prefers_title_then_query() {
    assert_eq!(display_text(Some("T".into()), "q"), ("T".to_string(), false));
    assert_eq!(display_text(None, "q"), ("q".to_string(), false));
    assert_eq!(display_text(None, ""), ("Start typing to search...".to_string(), true));
}

#[test]
fn script_state_follows_queries() {
    let mut s: ScriptState<u32> = ScriptState::new();
    assert_eq!(s.on_query("abc".into()), QueryAction::Run);
    assert!(s.running);
    assert_eq!(s.on_query("abc".into()), QueryAction::Unchanged);
    s.on_slow();
    assert!(s.show_loading);
    s.on_result(Some(7));
    assert_eq!(s.result, Some(7));
    assert!(!s.show_loading && !s.running);
    assert_eq!(s.on_query(String::new()), QueryAction::Cleared);
    assert_eq!(s.result, None);
    assert_eq!(s.last_query, "");
}
