use std::collections::HashMap;

use crossbeam_channel::unbounded;
use hackernews_tim::comment_keys::{comment_handlers, CommentAction, CommentHandler};
use hackernews_tim::comment_view::{CommentView, PageData};
use hackernews_tim::find::FindState;
use hackernews_tim::keymap::KeyMap;
use hackernews_tim::keys::{KeyCode, KeyEvent};
use hackernews_tim::model::{Comment, HnItem, Story, VouchData};
use hackernews_tim::reply::PendingAction;
use hackernews_tim::theme::ComponentStyle;

fn comment(id: u32, level: usize, n_children: usize, author: &str, content: &str) -> Comment {
    Comment {
        id,
        level,
        n_children,
        author: author.to_string(),
        time: 1_700_000_000,
        content: content.to_string(),
        dead: false,
        flagged: false,
        points: None,
        parent_story_id: None,
    }
}

fn view(me: Option<&str>, vouch: HashMap<u32, VouchData>) -> (CommentView, ComponentStyle, KeyMap) {
    let cs = ComponentStyle::default();
    let (sender, receiver) = unbounded();
    sender
        .send(vec![
            comment(1, 0, 2, "bob", "see <a href=\"https://x.example\">x</a>"),
            comment(2, 1, 0, "carol", "reply"),
            comment(3, 1, 0, "me", "mine"),
            comment(4, 0, 0, "erin", "last"),
        ])
        .unwrap();
    drop(sender);
    let story = Story {
        id: 900,
        url: "https://example.com/story".to_string(),
        author: "op".to_string(),
        points: 3,
        num_comments: 4,
        time: 1_700_000_000,
        title: "Story".to_string(),
        content: String::new(),
        dead: false,
        flagged: false,
    };
    let data = PageData {
        title: "Story".to_string(),
        url: "https://example.com/story".to_string(),
        root_item: HnItem::from_story(story, &cs, me),
        comment_receiver: receiver,
        vote_state: HashMap::new(),
        vouch_state: vouch,
    };
    (CommentView::new(data, FindState::new_ref(), &cs, me), cs, KeyMap::default())
}

/// Runs every handler a key reaches, in registration order, as the view does.
fn press(v: &mut CommentView, cs: &ComponentStyle, km: &KeyMap, me: Option<&str>, e: KeyEvent) -> Vec<CommentAction> {
    let mut actions = Vec::new();
    let heights = vec![1; v.len()];
    for h in comment_handlers(&e, &km.comment_view_keymap, &km.scroll_keymap, &km.global_keymap) {
        let out = v.run_handler(h, &e, &km.comment_view_keymap, me, 5, &heights, cs);
        if let Some(a) = out.action {
            actions.push(a);
        }
    }
    actions
}

#[test]
fn handlers_run_in_registration_order() {
    let km = KeyMap::default();
    let hs = comment_handlers(&KeyEvent::Char('j'), &km.comment_view_keymap, &km.scroll_keymap, &km.global_keymap);
    assert_eq!(hs.first(), Some(&CommentHandler::Prefix));
    assert!(hs.contains(&CommentHandler::NextComment));
    let none = comment_handlers(&KeyEvent::Char('~'), &km.comment_view_keymap, &km.scroll_keymap, &km.global_keymap);
    assert_eq!(none, vec![CommentHandler::Prefix]);
}

#[test]
fn navigation_keys_move_between_comments() {
    let (mut v, cs, km) = view(None, HashMap::new());
    assert_eq!(v.focus, 0);
    press(&mut v, &cs, &km, None, KeyEvent::Char('j'));
    assert_eq!(v.focus, 1);
    press(&mut v, &cs, &km, None, KeyEvent::Char('j'));
    assert_eq!(v.focus, 2);
    press(&mut v, &cs, &km, None, KeyEvent::Char('k'));
    assert_eq!(v.focus, 1);
}

#[test]
fn toggle_key_collapses_the_focused_subtree() {
    let (mut v, cs, km) = view(None, HashMap::new());
    press(&mut v, &cs, &km, None, KeyEvent::Char('j'));
    press(&mut v, &cs, &km, None, KeyEvent::Key(KeyCode::Tab));
    assert!(!v.visible[2] && !v.visible[3], "children of bob should be hidden: {:?}", v.visible);
    press(&mut v, &cs, &km, None, KeyEvent::Key(KeyCode::Tab));
    assert!(v.visible.iter().all(|x| *x));
}

#[test]
fn reply_key_asks_to_reply_to_the_focused_comment() {
    let (mut v, cs, km) = view(Some("me"), HashMap::new());
    press(&mut v, &cs, &km, Some("me"), KeyEvent::Char('j'));
    let a = press(&mut v, &cs, &km, Some("me"), KeyEvent::Char('r'));
    match a.as_slice() {
        [CommentAction::Pending(PendingAction::ReplyTo { parent_id, return_to_id, .. })] => {
            assert_eq!(*parent_id, 1);
            assert_eq!(*return_to_id, 900);
        },
        other => panic!("expected a reply request, got {other:?}"),
    }
}

#[test]
fn comment_in_browser_names_the_focused_item() {
    let (mut v, cs, km) = view(None, HashMap::new());
    press(&mut v, &cs, &km, None, KeyEvent::Char('j'));
    press(&mut v, &cs, &km, None, KeyEvent::Char('j'));
    let a = press(&mut v, &cs, &km, None, KeyEvent::Char('c'));
    assert!(matches!(a.as_slice(), [CommentAction::OpenCommentInBrowser(2)]), "{a:?}");
}

#[test]
fn vouch_key_flips_the_vouch() {
    let mut vouch = HashMap::new();
    vouch.insert(4u32, VouchData { auth: "tok".to_string(), vouched: false });
    let (mut v, cs, km) = view(None, vouch);
    v.set_focus_index(4);
    let a = press(&mut v, &cs, &km, None, KeyEvent::Char('!'));
    match a.as_slice() {
        [CommentAction::SendVouch(r)] => {
            assert_eq!((r.item_id, r.rescind), (4, false));
            assert_eq!(r.auth, "tok");
        },
        other => panic!("expected a vouch, got {other:?}"),
    }
    assert!(v.vouch_state[&4].vouched);
}
