use sherlock::pango::{get_attribute, parse_pango, unescape_html, FontTheme, TextRun};

fn dummy_theme() -> FontTheme {
    FontTheme {
        font_family: "Inter".to_string(),
        monospace: "JetBrains Mono".to_string(),
    }
}

fn parse(s: &str) -> (String, Vec<TextRun>) {
    parse_pango(s, &dummy_theme())
}

#[test]
fn plain_text_produces_one_run() {
    let (text, runs) = parse("hello world");
    assert_eq!(text, "hello world");
    assert_eq!(runs.len(), 1);
    assert_eq!(runs[0].len, 11);
    assert!(!runs[0].bold);
}

#[test]
fn bold_tag_sets_weight() {
    let (text, runs) = parse("<b>bold</b>");
    assert_eq!(text, "bold");
    assert_eq!(runs.len(), 1);
    assert!(runs[0].bold);
}

#[test]
fn italic_tag_sets_style() {
    let (text, runs) = parse("<i>slanted</i>");
    assert_eq!(text, "slanted");
    assert!(runs[0].italic);
}

#[test]
fn mixed_bold_and_italic() {
    let (text, runs) = parse("<b><i>both</i></b>");
    assert_eq!(text, "both");
    assert!(runs[0].bold);
    assert!(runs[0].italic);
}

#[test]
fn bold_wrapping_plain_text() {
    let (text, runs) = parse("before <b>bold</b> after");
    assert_eq!(text, "before bold after");
    assert_eq!(runs.len(), 3);
    assert!(!runs[0].bold);
    assert!(runs[1].bold);
    assert!(!runs[2].bold);
    // byte lengths
    assert_eq!(runs[0].len, 7); // "before "
    assert_eq!(runs[1].len, 4); // "bold"
    assert_eq!(runs[2].len, 6); // " after"
}

#[test]
fn br_tag_inserts_newline() {
    let (text, runs) = parse("line1<br/>line2");
    assert_eq!(text, "line1\n\nline2");
    let total_run_len: usize = runs.iter().map(|r| r.len).sum();
    assert_eq!(total_run_len, text.len());

    assert_eq!(runs.len(), 1);
}

#[test]
fn br_without_slash_also_works() {
    let (text, _) = parse("a<br>b");
    assert_eq!(text, "a\n\nb");
}

#[test]
fn html_entities_unescaped() {
    let (text, _) = parse("a &amp; b &lt;c&gt; &quot;d&quot;");
    assert_eq!(text, "a & b <c> \"d\"");
}

#[test]
fn nbsp_entity() {
    let (text, _) = parse("a&nbsp;b");
    assert_eq!(text, "a b");
}

#[test]
fn empty_string() {
    let (text, runs) = parse("");
    assert_eq!(text, "");
    assert!(runs.is_empty());
}

#[test]
fn unclosed_tag_treated_as_text() {
    let (text, _) = parse("hello <b world");
    assert!(text.contains("hello"));
}

#[test]
fn unknown_tag_emitted_as_literal() {
    let (text, _) = parse("hello <stan>world</stan>");
    assert!(text.contains("<stan>"));
    assert!(text.contains("world"));
    assert!(text.contains("</stan>"));
}

#[test]
fn nested_bold() {
    let (text, runs) = parse("<b>a<b>b</b>c</b>");
    assert_eq!(text, "abc");
    assert_eq!(runs.len(), 1);
    assert!(runs[0].bold);
}

#[test]
fn adjacent_same_style_runs_are_merged() {
    let (text, runs) = parse("hello <!-- comment --> world");
    let total_len: usize = runs.iter().map(|r| r.len).sum();
    assert_eq!(total_len, text.len());
}

#[test]
fn run_lengths_sum_to_text_length() {
    let cases = [
        "plain",
        "<b>bold</b> normal <i>italic</i>",
        "a &amp; <b>b &lt; <i>c</i></b> d",
        "<br/><br/>",
        "",
    ];
    let theme = dummy_theme();
    for case in &cases {
        let (text, runs) = parse_pango(case, &theme);
        let total: usize = runs.iter().map(|r| r.len).sum();
        assert_eq!(
            total,
            text.len(),
            "run lengths don't sum to text length for: {case:?}"
        );
    }
}

#[test]
fn span_applies_font_family() {
    let (text, runs) = parse("normal <span font_desc='Courier'>monospace</span> normal");
    assert_eq!(text, "normal monospace normal");
    assert_eq!(runs.len(), 3);
    assert_eq!(runs[1].family, "Courier");
}

#[test]
fn nested_spans_restore_family() {
    let (_text, runs) =
        parse("<span font_desc='A'>outer <span font_desc='B'>inner</span> outer</span>");
    assert_eq!(runs.len(), 3);
    assert_eq!(runs[0].family, "A");
    assert_eq!(runs[1].family, "B");
    assert_eq!(runs[2].family, "A");
}

#[test]
fn plain_runs_use_theme_family() {
    let (_text, runs) = parse("plain");
    assert_eq!(runs[0].family, "Inter");
}

#[test]
fn monospace_span_uses_theme_monospace() {
    let (text, runs) = parse("<span font_desc='monospace'>code</span>");
    assert_eq!(text, "code");
    assert_eq!(runs.len(), 1);
    assert_eq!(runs[0].family, "JetBrains Mono");
}

#[test]
fn multibyte_run_lengths_count_bytes() {
    let (text, runs) = parse("caf\u{e9} <b>\u{fc}ber</b>");
    assert_eq!(text, "caf\u{e9} \u{fc}ber");
    assert_eq!(runs.len(), 2);
    assert_eq!(runs[0].len, 6);
    assert_eq!(runs[1].len, 5);
}

#[test]
fn unescape_html_replaces_each_entity() {
    assert_eq!(unescape_html("&quot;&amp;&lt;&gt;&nbsp;&apos;"), "\"&<> '");
    // each entity is decoded once
    assert_eq!(unescape_html("&amp;lt;"), "&lt;");
    assert_eq!(unescape_html("&amp;gt;"), "&gt;");
    assert_eq!(
        unescape_html("a &lt;b&gt; &amp; &apos;c&apos; &quot;d&quot;"),
        r#"a <b> & 'c' "d""#
    );
    assert_eq!(unescape_html("&amp;&amp;"), "&&");
    assert_eq!(unescape_html("&am&amp;p;"), "&am&p;");
    assert_eq!(unescape_html("no entities"), "no entities");
}

#[test]
fn get_attribute_reads_either_quote() {
    assert_eq!(get_attribute("span font_desc='Mono 10'", "font_desc"), Some("Mono 10".to_string()));
    assert_eq!(get_attribute("span font_desc=\"Serif\"", "font_desc"), Some("Serif".to_string()));
    assert_eq!(get_attribute("span color='red'", "font_desc"), None);
    assert_eq!(get_attribute("span font_desc='open", "font_desc"), None);
}
