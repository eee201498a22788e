use markdown_editor::markdown::{
    convert, fib, promote_soft_breaks, Markdown, MarkdownInput, MarkdownOutput, Token,
    EDITOR_OPTIONS, ENABLE_FOOTNOTES, ENABLE_HEADING_ATTRIBUTES, ENABLE_SMART_PUNCTUATION,
    ENABLE_STRIKETHROUGH, ENABLE_TABLES, ENABLE_TASKLISTS, FIB_MAX,
};
use pulldown_cmark::Options;

#[test]
fn convert_is_deterministic() {
    let src = "# Title\n\nSome *text* with a [link](http://x.org)\nand a second line.";
    assert_eq!(convert(src), convert(src));
}

#[test]
fn soft_break_becomes_line_break() {
    assert_eq!(convert("a\nb"), "<p>a<br />\nb</p>\n");
}

#[test]
fn hard_break_stays_line_break() {
    assert_eq!(convert("a  \nb"), "<p>a<br />\nb</p>\n");
}

#[test]
fn paragraphs_are_not_joined_by_breaks() {
    assert_eq!(convert("a\n\nb"), "<p>a</p>\n<p>b</p>\n");
}

#[test]
fn empty_source_gives_empty_html() {
    assert_eq!(convert(""), "");
}

#[test]
fn strikethrough_is_on() {
    assert_eq!(convert("~~gone~~"), "<p><del>gone</del></p>\n");
}

#[test]
fn tables_are_on() {
    let html = convert("| a | b |\n|---|---|\n| 1 | 2 |");
    assert!(html.contains("<table>"));
    assert!(html.contains("<td>1</td>"));
}

#[test]
fn task_lists_are_on() {
    let html = convert("- [x] done\n- [ ] todo");
    assert!(html.contains("checked=\"\""));
    assert!(html.contains("type=\"checkbox\""));
}

#[test]
fn smart_punctuation_is_on() {
    assert_eq!(convert("\"hi\""), "<p>\u{201c}hi\u{201d}</p>\n");
}

#[test]
fn heading_attributes_are_on() {
    assert!(convert("# Head {#top}").contains("id=\"top\""));
}

#[test]
fn footnotes_are_on() {
    let html = convert("Text[^1]\n\n[^1]: note");
    assert!(html.contains("footnote-reference"));
    assert!(html.contains("footnote-definition"));
}

#[test]
fn raw_html_passes_through() {
    assert_eq!(convert("<b>x</b>"), "<p><b>x</b></p>\n");
}

#[test]
fn promote_turns_only_soft_breaks() {
    let mut tokens = vec![Token::SoftBreak, Token::HardBreak, Token::SoftBreak];
    promote_soft_breaks(&mut tokens);
    assert_eq!(tokens.len(), 3);
    assert!(tokens.iter().all(|t| matches!(t, Token::HardBreak)));
}

#[test]
fn flag_bits_match_pulldown_cmark() {
    assert_eq!(Options::ENABLE_TABLES.bits(), ENABLE_TABLES);
    assert_eq!(Options::ENABLE_FOOTNOTES.bits(), ENABLE_FOOTNOTES);
    assert_eq!(Options::ENABLE_STRIKETHROUGH.bits(), ENABLE_STRIKETHROUGH);
    assert_eq!(Options::ENABLE_TASKLISTS.bits(), ENABLE_TASKLISTS);
    assert_eq!(Options::ENABLE_SMART_PUNCTUATION.bits(), ENABLE_SMART_PUNCTUATION);
    assert_eq!(Options::ENABLE_HEADING_ATTRIBUTES.bits(), ENABLE_HEADING_ATTRIBUTES);
}

#[test]
fn editor_options_hold_the_six_extensions() {
    assert_eq!(EDITOR_OPTIONS, 126);
    let o = Options::from_bits_truncate(EDITOR_OPTIONS);
    assert!(o.contains(Options::ENABLE_FOOTNOTES | Options::ENABLE_HEADING_ATTRIBUTES));
    assert!(o.contains(Options::ENABLE_SMART_PUNCTUATION | Options::ENABLE_STRIKETHROUGH));
    assert!(o.contains(Options::ENABLE_TABLES | Options::ENABLE_TASKLISTS));
}

#[test]
fn fib_small_values() {
    assert_eq!(fib(0), 1);
    assert_eq!(fib(1), 1);
    assert_eq!(fib(2), 2);
    assert_eq!(fib(5), 8);
    assert_eq!(fib(10), 89);
}

#[test]
fn fib_largest_exact_value() {
    assert_eq!(fib(46), 2971215073);
}

#[test]
fn fib_largest_argument() {
    assert_eq!(fib(FIB_MAX), 2971215073);
}

#[test]
fn worker_answers_probe_to_its_handler() {
    let mut w = Markdown::create();
    let (id, out) = w.handle_input(MarkdownInput::N(5), 7u64);
    assert_eq!(id, 7);
    assert!(matches!(out, MarkdownOutput::Value(8)));
}

#[test]
fn worker_answers_content_with_html() {
    let mut w = Markdown::create();
    let (id, out) = w.handle_input(MarkdownInput::Content("a\nb".to_string()), "h1");
    assert_eq!(id, "h1");
    match out {
        MarkdownOutput::Html(h) => assert_eq!(h, "<p>a<br />\nb</p>\n"),
        MarkdownOutput::Value(_) => panic!("expected html"),
    }
}

#[test]
fn worker_resource_name() {
    assert_eq!(Markdown::name_of_resource(), "markdown.js");
}

#[test]
fn soft_break_renders_like_hard_break() {
    assert_eq!(convert("a\nb"), convert("a  \nb"));
}
