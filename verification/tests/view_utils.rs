use hackernews_tim::links::{nth_link, open_ith_link_in_article_view, open_ith_link_in_browser};

#[test]
fn nth_link_empty_slice_returns_none() {
    let links: Vec<String> = vec![];
    assert!(nth_link(&links, 0).is_none());
    assert!(nth_link(&links, 1).is_none());
}

#[test]
fn nth_link_zero_index_returns_none() {
    let links = vec!["https://a.example".to_string()];
    assert!(nth_link(&links, 0).is_none());
}

#[test]
fn nth_link_in_range_returns_link() {
    let links = vec!["https://a.example".to_string(), "https://b.example".to_string()];
    assert_eq!(nth_link(&links, 1), Some("https://a.example"));
    assert_eq!(nth_link(&links, 2), Some("https://b.example"));
}

#[test]
fn nth_link_past_end_returns_none() {
    let links = vec!["https://a.example".to_string()];
    assert!(nth_link(&links, 2).is_none());
    assert!(nth_link(&links, 99).is_none());
}

#[test]
fn ith_link_openers_pick_the_numbered_link() {
    let links = vec!["https://a.example".to_string(), "https://b.example".to_string()];
    assert_eq!(open_ith_link_in_browser(&links, 2), Some("https://b.example".to_string()));
    assert_eq!(open_ith_link_in_article_view(&links, 1), Some("https://a.example".to_string()));
    assert_eq!(open_ith_link_in_browser(&links, 3), None);
}

#[test]
fn empty_link_is_not_opened_in_the_browser() {
    let links = vec![String::new(), "https://b.example".to_string()];
    assert_eq!(open_ith_link_in_browser(&links, 1), None);
    assert_eq!(open_ith_link_in_article_view(&links, 1), Some(String::new()));
}
