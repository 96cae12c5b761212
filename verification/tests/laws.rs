use std::collections::HashMap;

use crossbeam_channel::unbounded;
use hackernews_tim::article_view::construct_article_view;
use hackernews_tim::comment_view::{CommentView, PageData};
use hackernews_tim::find::FindState;
use hackernews_tim::keys::{event_text_string, parse_key_string, KeyCode, KeyEvent, Keys};
use hackernews_tim::model::{Article, Comment, DisplayState, HnItem, Story, VoteData, VoteDirection};
use hackernews_tim::query::StorySortMode;
use hackernews_tim::reply::{read_and_strip, reply_scaffold};
use hackernews_tim::theme::{BaseColor, Color, ComponentStyle, Theme};

fn comment(id: u32, level: usize, n_children: usize, content: &str) -> Comment {
    Comment {
        id,
        level,
        n_children,
        author: format!("user{id}"),
        time: 1_700_000_000,
        content: content.to_string(),
        dead: false,
        flagged: false,
        points: None,
        parent_story_id: None,
    }
}

fn view_with(comments: Vec<Comment>, votes: HashMap<u32, VoteData>) -> (CommentView, ComponentStyle) {
    let cs = ComponentStyle::default();
    let (sender, receiver) = unbounded();
    sender.send(comments).unwrap();
    drop(sender);
    let story = Story {
        id: 1,
        url: String::new(),
        author: "op".to_string(),
        points: 1,
        num_comments: 4,
        time: 1_700_000_000,
        title: "t".to_string(),
        content: String::new(),
        dead: false,
        flagged: false,
    };
    let data = PageData {
        title: "t".to_string(),
        url: String::new(),
        root_item: HnItem::from_story(story, &cs, None),
        comment_receiver: receiver,
        vote_state: votes,
        vouch_state: HashMap::new(),
    };
    (CommentView::new(data, FindState::new_ref(), &cs, None), cs)
}

fn states(v: &CommentView) -> Vec<DisplayState> {
    v.items.iter().map(|i| i.display_state).collect()
}

#[test]
fn collapsing_twice_restores_every_item() {
    let (mut v, cs) = view_with(
        vec![
            comment(10, 0, 3, "a"),
            comment(11, 1, 1, "b"),
            comment(12, 2, 0, "c"),
            comment(13, 1, 0, "d"),
            comment(14, 0, 0, "e"),
        ],
        HashMap::new(),
    );
    for focus in 0..v.len() {
        let before = states(&v);
        v.set_focus_index(focus);
        v.toggle_collapse_focused_item(&cs);
        v.toggle_collapse_focused_item(&cs);
        assert_eq!(states(&v), before, "focus {focus}");
    }
    v.set_focus_index(2);
    v.toggle_collapse_focused_item(&cs);
    v.set_focus_index(1);
    let before = states(&v);
    v.toggle_collapse_focused_item(&cs);
    assert_eq!(v.items[3].display_state, DisplayState::Hidden);
    v.toggle_collapse_focused_item(&cs);
    assert_eq!(states(&v), before);
}

#[test]
fn voting_twice_restores_the_vote() {
    let mut votes = HashMap::new();
    votes.insert(20u32, VoteData { auth: "tok".to_string(), vote: None, can_downvote: true });
    let (mut v, cs) = view_with(vec![comment(20, 0, 0, "x")], votes);
    v.set_focus_index(1);
    let first = v.apply_vote(VoteDirection::Up, &cs).expect("a vote request");
    assert_eq!((first.item_id, first.vote), (20, Some(VoteDirection::Up)));
    assert_eq!(v.vote_state[&20].vote, Some(VoteDirection::Up));
    let second = v.apply_vote(VoteDirection::Up, &cs).expect("a rescind request");
    assert_eq!(second.vote, None);
    assert_eq!(v.vote_state[&20].vote, None);
    assert_eq!(second.auth, "tok");
}

#[test]
fn downvote_needs_the_privilege() {
    let mut votes = HashMap::new();
    votes.insert(30u32, VoteData { auth: "tok".to_string(), vote: None, can_downvote: false });
    let (mut v, cs) = view_with(vec![comment(30, 0, 0, "x")], votes);
    v.set_focus_index(1);
    assert!(v.apply_vote(VoteDirection::Down, &cs).is_none());
    assert_eq!(v.vote_state[&30].vote, None);
}

#[test]
fn key_texts_read_back_as_the_same_key() {
    let keys = [
        KeyEvent::Char('q'),
        KeyEvent::Char('?'),
        KeyEvent::CtrlChar('c'),
        KeyEvent::AltChar('x'),
        KeyEvent::Key(KeyCode::Esc),
        KeyEvent::Key(KeyCode::PageDown),
        KeyEvent::Key(KeyCode::F12),
        KeyEvent::Key(KeyCode::Enter),
    ];
    for e in keys {
        let text = event_text_string(e);
        assert_eq!(parse_key_string(&text), Ok(e), "{text}");
    }
    assert_eq!(Keys::from_key_strings(&vec!["q".to_string(), "nope".to_string()]).unwrap_err(), "failed to parse key: unknown/invalid key nope");
}

#[test]
fn sort_modes_cycle_back() {
    assert_eq!(StorySortMode::Date.next("story").next("story"), StorySortMode::Date);
    assert_eq!(StorySortMode::Points.next("job").next("job"), StorySortMode::Points);
    let m = StorySortMode::NoSort;
    assert_eq!(m.next("ask_hn").next("ask_hn").next("ask_hn"), m);
    assert_eq!(StorySortMode::NoSort.next("front_page"), StorySortMode::NoSort);
}

#[test]
fn topcolor_applies_once() {
    let mut theme = Theme::default();
    assert!(theme.apply_hn_topcolor("33cc33"));
    let once = theme.component_style;
    assert_eq!(once.title_bar.back, Some(Color::Rgb(0x33, 0xcc, 0x33)));
    assert!(!theme.apply_hn_topcolor("#33CC33"));
    assert_eq!(theme.component_style, once);
    let before = theme.component_style;
    assert!(!theme.apply_hn_topcolor("not-a-color"));
    assert_eq!(theme.component_style, before);
}

#[test]
fn untouched_reply_scaffold_holds_no_reply() {
    for parent in ["", "one line", "two\nlines", "crlf\r\nlines\r\n"] {
        assert_eq!(read_and_strip(&reply_scaffold(parent)), "", "{parent:?}");
    }
}

#[test]
fn next_then_previous_match_comes_back() {
    let cs = ComponentStyle::default();
    let article = Article {
        title: "a".to_string(),
        url: "https://example.com/a".to_string(),
        content: "<p>alpha bravo alpha charlie alpha</p>".to_string(),
        author: None,
        date_published: None,
    };
    let mut s = construct_article_view(article, None, &Keys::new(vec![]), &cs, Color::Light(BaseColor::White));
    assert!(s.view.relayout(80, &cs));
    s.view.apply_find_query("alpha", cs.matched_highlight);
    assert_eq!(s.view.match_ranges.len(), 3);
    for _ in 0..4 {
        s.view.jump_to_next_match();
        let at = s.view.current_match;
        s.view.jump_to_next_match();
        s.view.jump_to_prev_match();
        assert_eq!(s.view.current_match, at);
    }
    s.view.jump_to_prev_match();
    let at = s.view.current_match;
    s.view.jump_to_prev_match();
    s.view.jump_to_next_match();
    assert_eq!(s.view.current_match, at);
}

#[test]
fn orange_topcolor_on_an_orange_theme_changes_nothing() {
    let mut theme = Theme::default();
    theme.apply_hn_topcolor("ff6600");
    let before = theme.component_style;
    assert!(!theme.apply_hn_topcolor("ff6600"));
    assert_eq!(theme.component_style, before);
}

#[test]
fn non_ascii_color_text_names_no_color() {
    assert_eq!(Color::try_parse("é1"), None);
    assert_eq!(Color::try_parse("#é1"), None);
    assert_eq!(Color::try_parse("#ff6600"), Some(Color::Rgb(0xff, 0x66, 0x00)));
    let mut theme = Theme::default();
    let before = theme.component_style;
    assert!(!theme.apply_hn_topcolor("é1"));
    assert_eq!(theme.component_style, before);
}

#[test]
fn styled_title_reads_as_its_plain_title() {
    let story = Story {
        id: 7,
        url: String::new(),
        author: "op".to_string(),
        points: 1,
        num_comments: 0,
        time: 1_700_000_000,
        title: "Show HN: a <em>Rust</em> tool for <em>terminals</em>".to_string(),
        content: String::new(),
        dead: false,
        flagged: false,
    };
    let cs = ComponentStyle::default();
    let styled = story.styled_title(&cs);
    assert_eq!(story.plain_title(), "Show HN: a Rust tool for terminals");
    assert_eq!(styled.source(), story.plain_title());
}

#[test]
fn styled_title_reads_as_plain_title_with_a_lone_less_than() {
    let story = Story {
        id: 8,
        url: String::new(),
        author: "op".to_string(),
        points: 1,
        num_comments: 0,
        time: 1_700_000_000,
        title: "Ask HN: a < b <em>x</em> and b > a".to_string(),
        content: String::new(),
        dead: false,
        flagged: false,
    };
    let cs = ComponentStyle::default();
    assert_eq!(story.plain_title(), "Ask HN: a < b x and b > a");
    assert_eq!(story.styled_title(&cs).source(), story.plain_title());
}
