use std::collections::HashMap;

use hackernews_tim::keymap::KeyMap;
use hackernews_tim::keys::{KeyCode, KeyEvent};
use hackernews_tim::model::{Story, VoteData, VoteDirection};
use hackernews_tim::story_view::{get_story_text, story_handlers, StoryAction, StoryHandler, StoryView};
use hackernews_tim::theme::ComponentStyle;

fn story(id: u32, title: &str, url: &str) -> Story {
    Story {
        id,
        url: url.to_string(),
        author: "alice".to_string(),
        points: 12,
        num_comments: 3,
        time: 1_000,
        title: title.to_string(),
        content: String::new(),
        dead: false,
        flagged: false,
    }
}

#[test]
fn story_text_shows_domain_points_author_age_and_comments() {
    let cs = ComponentStyle::default();
    let s = story(1, "Hello", "https://www.example.com/a/b");
    let text = get_story_text(2, &s, None, &cs, 1_000 + 120);
    assert_eq!(text.source(), "Hello (www.example.com)\n    12 points | by alice | 2 minutes ago | 3 comments");
    let up = VoteData { auth: "t".to_string(), vote: Some(VoteDirection::Up), can_downvote: false };
    let voted = get_story_text(1, &s, Some(&up), &cs, 1_000 + 5);
    assert_eq!(voted.source(), "Hello (www.example.com)\n   ▲ 12 points | by alice | 5 seconds ago | 3 comments");
}

#[test]
fn story_without_url_has_no_domain() {
    let cs = ComponentStyle::default();
    let text = get_story_text(1, &story(2, "Ask HN: x", ""), None, &cs, 1_000);
    assert!(text.source().starts_with("Ask HN: x\n"), "{}", text.source());
}

fn list() -> (StoryView, ComponentStyle, KeyMap) {
    let cs = ComponentStyle::default();
    let stories = vec![
        story(101, "one", "https://a.example/x"),
        story(102, "two", ""),
        story(103, "three", "https://c.example/y"),
    ];
    (StoryView::new_at(stories, 0, HashMap::new(), &cs, 2_000), cs, KeyMap::default())
}

/// Runs every handler a key reaches, in order, as the story list does.
fn press(v: &mut StoryView, km: &KeyMap, e: KeyEvent) -> Vec<StoryAction> {
    let mut actions = Vec::new();
    let heights = vec![2; v.stories.len()];
    for h in story_handlers(&e, &km.story_view_keymap, &km.scroll_keymap) {
        let out = v.run_handler(h, &e, &km.story_view_keymap, 4, &heights);
        if let Some(a) = out.action {
            actions.push(a);
        }
    }
    actions
}

#[test]
fn rows_are_numbered_from_one() {
    let (v, _, _) = list();
    assert_eq!(v.rows.len(), 3);
    assert!(v.rows[0].source().starts_with("1. one (a.example)"), "{}", v.rows[0].source());
    assert_eq!(v.focus, 0);
}

#[test]
fn j_and_k_move_the_focus_within_the_list() {
    let (mut v, _, km) = list();
    press(&mut v, &km, KeyEvent::Char('j'));
    assert_eq!(v.focus, 1);
    press(&mut v, &km, KeyEvent::Key(KeyCode::Down));
    press(&mut v, &km, KeyEvent::Char('j'));
    assert_eq!(v.focus, 2);
    press(&mut v, &km, KeyEvent::Char('k'));
    assert_eq!(v.focus, 1);
}

#[test]
fn digits_then_g_jump_to_the_numbered_story() {
    let (mut v, _, km) = list();
    press(&mut v, &km, KeyEvent::Char('3'));
    assert_eq!(v.raw_command, "3");
    press(&mut v, &km, KeyEvent::Char('g'));
    assert_eq!(v.focus, 2);
    assert_eq!(v.raw_command, "");
}

#[test]
fn enter_and_vote_keys_ask_for_the_focused_story() {
    let (mut v, _, km) = list();
    press(&mut v, &km, KeyEvent::Char('j'));
    let a = press(&mut v, &km, KeyEvent::Key(KeyCode::Enter));
    assert!(matches!(a.as_slice(), [StoryAction::OpenComments(102)]), "{a:?}");
    let up = press(&mut v, &km, KeyEvent::Char('v'));
    assert!(matches!(up.as_slice(), [StoryAction::RequestVote(102, VoteDirection::Up)]), "{up:?}");
    let s = press(&mut v, &km, KeyEvent::Char('s'));
    match s.as_slice() {
        [StoryAction::OpenInBrowser(u)] => assert_eq!(u, "https://news.ycombinator.com/item?id=102"),
        other => panic!("{other:?}"),
    }
}

#[test]
fn every_key_reaches_the_prefix_handler_first() {
    let km = KeyMap::default();
    let hs = story_handlers(&KeyEvent::Char('j'), &km.story_view_keymap, &km.scroll_keymap);
    assert_eq!(hs, vec![StoryHandler::Prefix, StoryHandler::NextStory]);
    let none = story_handlers(&KeyEvent::Char('z'), &km.story_view_keymap, &km.scroll_keymap);
    assert_eq!(none, vec![StoryHandler::Prefix]);
}

#[test]
fn a_vote_update_re_renders_the_row() {
    let (mut v, cs, _) = list();
    let vd = VoteData { auth: "t".to_string(), vote: Some(VoteDirection::Up), can_downvote: false };
    v.apply_vote_update(103, vd, &cs, 2_000);
    assert!(v.rows[2].source().contains("▲ 12 points"), "{}", v.rows[2].source());
    assert!(!v.rows[1].source().contains('▲'));
}

#[test]
fn frame_keys_are_taken_even_when_they_ask_nothing() {
    let km = hackernews_tim::keymap::StoryViewKeyMap::default();
    let g = hackernews_tim::keymap::GlobalKeyMap::default();
    let prev = km.prev_page.events[0].clone();
    assert!(hackernews_tim::story_view::story_frame_takes(&prev, &km, &g));
}
