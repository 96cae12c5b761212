use std::collections::HashMap;

use crossbeam_channel::unbounded;
use hackernews_tim::comment_view::{CommentView, NavigationDirection, PageData};
use hackernews_tim::find::FindState;
use hackernews_tim::model::{Comment, DisplayState, HnItem, Story};
use hackernews_tim::theme::ComponentStyle;

fn fixture_root_story() -> Story {
    Story {
        id: 9000,
        url: "https://example.com/post".to_string(),
        author: "alice".to_string(),
        points: 42,
        num_comments: 4,
        time: 1_700_000_000,
        title: "An interesting post".to_string(),
        content: String::new(),
        dead: false,
        flagged: false,
    }
}

fn fixture_comment(id: u32, level: usize, author: &str, content: &str) -> Comment {
    Comment {
        id,
        level,
        n_children: 0,
        author: author.to_string(),
        time: 1_700_000_000,
        content: content.to_string(),
        dead: false,
        flagged: false,
        points: None,
        parent_story_id: None,
    }
}

fn fixture_comments() -> Vec<Comment> {
    vec![
        Comment { n_children: 2, ..fixture_comment(101, 0, "bob", "First top-level comment") },
        fixture_comment(102, 1, "carol", "Reply to bob"),
        fixture_comment(103, 1, "dan", "Another reply to bob"),
        fixture_comment(104, 0, "erin", "Second top-level comment"),
    ]
}

fn build_page_data(comments: Vec<Comment>, cs: &ComponentStyle) -> PageData {
    let (sender, receiver) = unbounded();
    sender.send(comments).expect("send into fresh channel");
    drop(sender);
    PageData {
        title: "An interesting post".to_string(),
        url: "https://example.com/post".to_string(),
        root_item: HnItem::from_story(fixture_root_story(), cs, None),
        comment_receiver: receiver,
        vote_state: HashMap::new(),
        vouch_state: HashMap::new(),
    }
}

fn comment_view(comments: Vec<Comment>) -> (CommentView, ComponentStyle) {
    let cs = ComponentStyle::default();
    let data = build_page_data(comments, &cs);
    (CommentView::new(data, FindState::new_ref(), &cs, None), cs)
}

/// The text of every item the view shows, as it shows it.
fn screen_text(v: &CommentView) -> String {
    let mut out = String::new();
    for (i, item) in v.items.iter().enumerate() {
        if item.display_state == DisplayState::Hidden {
            continue;
        }
        out.push_str(&v.rendered[i].source());
        out.push('\n');
    }
    out
}

#[test]
fn try_update_comments_loads_tree_into_view() {
    let (v, _) = comment_view(fixture_comments());
    assert_eq!(v.len(), 5);
}

#[test]
fn find_sibling_skips_children_at_top_level() {
    let (v, _) = comment_view(fixture_comments());
    assert_eq!(v.find_sibling(0, NavigationDirection::Next), 1, "find_sibling Next from root should land on bob");
    assert_eq!(
        v.find_sibling(1, NavigationDirection::Next),
        4,
        "find_sibling Next from bob should skip carol/dan and land on erin"
    );
    assert_eq!(
        v.find_sibling(4, NavigationDirection::Previous),
        1,
        "find_sibling Previous from erin should land on bob"
    );
}

#[test]
fn find_sibling_walks_within_a_level_one_subtree() {
    let (v, _) = comment_view(fixture_comments());
    assert_eq!(v.find_sibling(2, NavigationDirection::Next), 3);
    assert_eq!(v.find_sibling(3, NavigationDirection::Previous), 2);
}

#[test]
fn find_item_id_by_max_level_jumps_to_parent() {
    let (v, _) = comment_view(fixture_comments());
    assert_eq!(
        v.find_item_id_by_max_level(3, 0, NavigationDirection::Previous),
        1,
        "from dan (level 1), seeking max_level 0 backwards should land on bob"
    );
    assert_eq!(
        v.find_item_id_by_max_level(2, 0, NavigationDirection::Previous),
        1,
        "from carol (level 1), seeking max_level 0 backwards should land on bob"
    );
}

#[test]
fn toggle_collapse_hides_and_restores_subtree() {
    let (mut v, cs) = comment_view(fixture_comments());
    let initial = screen_text(&v);
    assert!(initial.contains("Reply to bob"), "initial render should include carol's reply:\n{initial}");

    v.set_focus_index(1);
    v.toggle_collapse_focused_item(&cs);
    let after_collapse = screen_text(&v);
    assert!(
        !after_collapse.contains("Reply to bob"),
        "carol's reply should be hidden after collapsing bob:\n{after_collapse}"
    );
    assert!(after_collapse.contains("more)"), "collapsed subtree should show '(N more)' marker:\n{after_collapse}");

    v.toggle_collapse_focused_item(&cs);
    let after_restore = screen_text(&v);
    assert!(
        after_restore.contains("Reply to bob"),
        "carol's reply should be visible again after a second toggle:\n{after_restore}"
    );
}

#[test]
fn dead_comment_renders_with_dead_marker() {
    let (v, _) = comment_view(vec![Comment { dead: true, ..fixture_comment(201, 0, "spammer", "Some dead content") }]);
    let text = screen_text(&v);
    assert!(text.contains("[dead]"), "dead comment metadata should include '[dead]':\n{text}");
}

#[test]
fn flagged_comment_renders_with_flagged_marker() {
    let (v, _) = comment_view(vec![Comment {
        flagged: true,
        ..fixture_comment(202, 0, "controversial", "Some flagged content")
    }]);
    let text = screen_text(&v);
    assert!(text.contains("[flagged]"), "flagged comment metadata should include '[flagged]':\n{text}");
}
