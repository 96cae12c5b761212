use hackernews_tim::html::{parse_hn_html_text, HTMLTextParsedResult};
use hackernews_tim::theme::{ComponentStyle, Style};

fn render(text: &str, base_link_id: usize) -> HTMLTextParsedResult {
    let cs = ComponentStyle::default();
    parse_hn_html_text(text.to_string(), Style::plain(), base_link_id, &cs)
}

fn rendered_source(text: &str) -> String {
    render(text, 0).content.source()
}

#[test]
fn plain_text_paragraph_has_no_links() {
    let result = render("hello world", 0);
    assert_eq!(result.content.source(), "hello world\n");
    assert!(result.links.is_empty());
}

#[test]
fn single_link_collected_with_marker() {
    let result = render(r#"<p>see <a href="https://example.com">site</a></p>"#, 0);
    assert_eq!(result.links, vec!["https://example.com".to_string()]);
    let src = result.content.source();
    assert!(src.contains("[1]"), "expected [1] marker; got {src:?}");
    assert!(src.contains("example.com"), "got {src:?}");
}

#[test]
fn base_link_id_offsets_marker() {
    let result = render(r#"<p><a href="https://a.example">a</a></p>"#, 4);
    let src = result.content.source();
    assert!(src.contains("[5]"), "expected [5] marker; got {src:?}");
    assert_eq!(result.links, vec!["https://a.example".to_string()]);
}

#[test]
fn multiple_links_numbered_sequentially() {
    let result = render(
        r#"<p><a href="https://one.example">one</a> and <a href="https://two.example">two</a> and <a href="https://three.example">three</a></p>"#,
        0,
    );
    assert_eq!(
        result.links,
        vec![
            "https://one.example".to_string(),
            "https://two.example".to_string(),
            "https://three.example".to_string(),
        ]
    );
    let src = result.content.source();
    assert!(src.contains("[1]"));
    assert!(src.contains("[2]"));
    assert!(src.contains("[3]"));
}

#[test]
fn pre_code_block_preserved_verbatim_with_whitespace() {
    let src = rendered_source("<pre><code>fn main() {\n    println!(\"hi\");\n}</code></pre>");
    assert!(src.contains("fn main() {\n    println!(\"hi\");\n}"), "got {src:?}");
}

#[test]
fn italic_tag_content_is_preserved() {
    let src = rendered_source("<i>emphasis</i>");
    assert!(src.contains("emphasis"), "got {src:?}");
}

#[test]
fn inline_code_backticks_are_consumed() {
    let src = rendered_source("see `foo` here");
    assert!(src.contains("foo"), "got {src:?}");
    assert!(!src.contains("`foo`"), "backticks should be stripped: {src:?}");
}

#[test]
fn link_inside_italic_is_not_recursed_into() {
    let result = render(r#"<p><i>see <a href="https://nested.example">it</a></i></p>"#, 0);
    assert!(result.links.is_empty(), "got links {:?}", result.links);
}

#[test]
fn link_inside_paragraph_is_recursed_into() {
    let result = render(r#"<p>see <a href="https://outer.example">it</a></p>"#, 0);
    assert_eq!(result.links, vec!["https://outer.example".to_string()]);
}

#[test]
fn empty_input_returns_empty_styled_string_and_no_links() {
    let result = render("", 0);
    assert_eq!(result.content.source(), "");
    assert!(result.links.is_empty());
}

#[test]
fn whitespace_only_input_does_not_emit_links() {
    let result = render("   ", 0);
    assert!(result.links.is_empty());
}

#[test]
fn merge_appends_content_and_links() {
    let mut a = render(r#"<p><a href="https://a.example">a</a></p>"#, 0);
    let b = render(r#"<p><a href="https://b.example">b</a></p>"#, 0);
    a.merge(b);
    assert_eq!(a.links, vec!["https://a.example".to_string(), "https://b.example".to_string()]);
}

#[test]
fn link_marker_and_short_url_exact_text() {
    let result = render(r#"<a href="https://example.com/x">x</a>"#, 0);
    assert_eq!(result.content.source(), "https://example.com/x [1]\n");
}
