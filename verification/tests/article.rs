use hackernews_tim::html::HTMLTextParsedResult;
use hackernews_tim::model::Article;
use hackernews_tim::theme::ComponentStyle;

fn article(content: &str) -> Article {
    Article {
        title: "Title".to_string(),
        url: "https://example.com/post/42".to_string(),
        content: content.to_string(),
        author: None,
        date_published: None,
    }
}

fn parse_at(a: &Article, width: usize) -> Result<HTMLTextParsedResult, String> {
    a.try_parse(width, &ComponentStyle::default()).expect("article should render at this width")
}

#[test]
fn parse_renders_paragraph_text() {
    let a = article("<html><body><p>hello world</p></body></html>");
    let result = parse_at(&a, 80).expect("article should parse");
    let src = result.content.source();
    assert!(src.contains("hello world"), "got {src:?}");
}

#[test]
fn parse_extracts_links_in_document_order() {
    let a = article(
        r#"<html><body>
            <p>first <a href="https://one.example">one</a>,
               second <a href="https://two.example">two</a>,
               third <a href="https://three.example">three</a>.</p>
        </body></html>"#,
    );
    let result = parse_at(&a, 80).expect("article should parse");
    assert_eq!(
        result.links,
        vec![
            "https://one.example".to_string(),
            "https://two.example".to_string(),
            "https://three.example".to_string(),
        ]
    );
}

#[test]
fn parse_resolves_relative_urls_against_article_url() {
    let a = article(r#"<html><body><a href="/a/b">rel</a></body></html>"#);
    let result = parse_at(&a, 80).expect("article should parse");
    assert_eq!(result.links, vec!["https://example.com/a/b".to_string()]);
}

#[test]
fn parse_handles_empty_content() {
    let a = article("");
    let result = parse_at(&a, 80).expect("empty content should not error");
    assert!(result.links.is_empty());
}

#[test]
fn parse_handles_malformed_html_without_panicking() {
    let a = article("<p>unclosed <i>italic <a href='https://x.example'>and link");
    let result = parse_at(&a, 80).expect("malformed html should still parse");
    assert_eq!(result.links, vec!["https://x.example".to_string()]);
}

#[test]
fn parse_preserves_pre_block_content() {
    let a = article("<html><body><pre>line one\n    line two\n  line three</pre></body></html>");
    let result = parse_at(&a, 80).expect("article should parse");
    let src = result.content.source();
    assert!(src.contains("line one"), "got {src:?}");
    assert!(src.contains("line two"), "got {src:?}");
    assert!(src.contains("line three"), "got {src:?}");
}

#[test]
fn article_struct_carries_title_url_metadata() {
    let a = article("<p>x</p>");
    assert_eq!(a.title, "Title");
    assert_eq!(a.url, "https://example.com/post/42");
}

use hackernews_tim::article::article_from_page;

#[test]
fn reader_mode_builds_the_article_of_a_page() {
    let html = "<html><head><title>Page title</title></head><body><article><p>Some\tarticle text that is long enough to be kept by reader mode, with several words in it.</p></article></body></html>";
    let a = article_from_page("https://example.com/a", html).expect("page should be read");
    assert_eq!(a.title, "Page title");
    assert_eq!(a.url, "https://example.com/a");
    assert!(!a.content.contains('\t'));
    assert_eq!(a.date_published, None);
    assert!(article_from_page("not a url", html).unwrap_err().starts_with("failed to read the article at "));
}
