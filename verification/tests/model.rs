use hackernews_tim::items::{comment_points_prefix, own_item_prefix};
use hackernews_tim::theme::Style;

#[test]
fn own_item_prefix_marks_self_author() {
    let s = own_item_prefix("freedomben", Some("freedomben"), Style::plain());
    assert_eq!(s.source(), "* ");
}

#[test]
fn own_item_prefix_empty_for_other_author() {
    let s = own_item_prefix("nkrisc", Some("freedomben"), Style::plain());
    assert_eq!(s.source(), "");
}

#[test]
fn own_item_prefix_empty_when_logged_out() {
    let s = own_item_prefix("freedomben", None, Style::plain());
    assert_eq!(s.source(), "");
}

#[test]
fn comment_points_prefix_uses_plural_for_zero_and_many() {
    let style = Style::plain();
    assert_eq!(comment_points_prefix(Some(0), style).source(), "0 points by ");
    assert_eq!(comment_points_prefix(Some(42), style).source(), "42 points by ");
}

#[test]
fn comment_points_prefix_uses_singular_for_one() {
    let s = comment_points_prefix(Some(1), Style::plain());
    assert_eq!(s.source(), "1 point by ");
}

#[test]
fn comment_points_prefix_empty_when_none() {
    let s = comment_points_prefix(None, Style::plain());
    assert_eq!(s.source(), "");
}

use hackernews_tim::responses::{comments_from_user_comments, UserCommentResponse, UserCommentsResponse};

/// Reads an Algolia user-comments reply the way the program's reader does.
fn user_comments_of(json: &str) -> UserCommentsResponse {
    let v: serde_json::Value = serde_json::from_str(json).unwrap();
    let text = |h: &serde_json::Value, k: &str| h.get(k).and_then(|x| x.as_str()).map(|x| x.to_string());
    let hits = v["hits"]
        .as_array()
        .unwrap()
        .iter()
        .map(|h| UserCommentResponse {
            id: h["objectID"].as_str().unwrap().parse().unwrap(),
            author: text(h, "author"),
            comment_text: text(h, "comment_text"),
            time: h["created_at_i"].as_u64().unwrap_or(0),
            story_id: h.get("story_id").and_then(|x| x.as_u64()).map(|x| x as u32),
            story_title: text(h, "story_title"),
            dead: false,
            flagged: false,
        })
        .collect();
    UserCommentsResponse { hits }
}

#[test]
fn user_comments_response_parses_and_prepends_story_header() {
    let json = r#"{
        "hits": [
            {
                "objectID": "12345",
                "author": "freedomben",
                "comment_text": "the body",
                "created_at_i": 100,
                "story_id": 9999,
                "story_title": "A <em>great</em> story"
            }
        ]
    }"#;
    let comments = comments_from_user_comments(&user_comments_of(json));
    assert_eq!(comments.len(), 1);
    let c = &comments[0];
    assert_eq!(c.id, 12345);
    assert_eq!(c.author, "freedomben");
    assert_eq!(c.level, 0);
    assert!(c.content.contains("/item?id=9999"));
    assert!(c.content.contains("the body"));
}

#[test]
fn user_comments_response_drops_hits_missing_required_fields() {
    let json = r#"{
        "hits": [
            { "objectID": "1", "author": null,    "comment_text": "x", "created_at_i": 1 },
            { "objectID": "2", "author": "alice", "comment_text": null, "created_at_i": 2 }
        ]
    }"#;
    let comments = comments_from_user_comments(&user_comments_of(json));
    assert!(comments.is_empty());
}
