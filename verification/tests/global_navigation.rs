use hackernews_tim::dialogs::{global_actions, GlobalAction};
use hackernews_tim::keymap::{CustomKeyMap, GlobalKeyMap};
use hackernews_tim::keys::{KeyCode, KeyEvent, Keys};
use hackernews_tim::query::{StoryNumericFilters, StorySortMode};

const CUSTOM_KEY: char = 'r';
const CUSTOM_TAG: &str = "rust_news";
const TEST_USERNAME: &str = "alice_navtest";

fn custom_keymaps() -> Vec<CustomKeyMap> {
    vec![CustomKeyMap {
        key: Keys::new(vec![KeyEvent::Char(CUSTOM_KEY)]),
        tag: CUSTOM_TAG.to_string(),
        by_date: true,
        numeric_filters: StoryNumericFilters::default(),
    }]
}

/// The requests a key makes on a screen with one view and a logged-in user.
fn actions_for(e: KeyEvent) -> Vec<GlobalAction> {
    global_actions(&e, &GlobalKeyMap::default(), &custom_keymaps(), Some(TEST_USERNAME), 1)
}

fn assert_get_stories_by_tag(actions: &[GlobalAction], tag: &str, expected_sort: StorySortMode) {
    assert!(
        actions.iter().any(|a| matches!(
            a,
            GlobalAction::LoadStories { tag: t, sort, .. } if t == tag && *sort == expected_sort
        )),
        "expected a load of {tag} by {expected_sort:?}; got {actions:?}"
    );
}

#[test]
fn f1_opens_front_page_story_view() {
    assert_get_stories_by_tag(&actions_for(KeyEvent::Key(KeyCode::F1)), "front_page", StorySortMode::NoSort);
}

#[test]
fn f2_opens_all_stories_view() {
    assert_get_stories_by_tag(&actions_for(KeyEvent::Key(KeyCode::F2)), "story", StorySortMode::Date);
}

#[test]
fn f3_opens_ask_hn_view() {
    assert_get_stories_by_tag(&actions_for(KeyEvent::Key(KeyCode::F3)), "ask_hn", StorySortMode::NoSort);
}

#[test]
fn f4_opens_show_hn_view() {
    assert_get_stories_by_tag(&actions_for(KeyEvent::Key(KeyCode::F4)), "show_hn", StorySortMode::NoSort);
}

#[test]
fn f5_opens_jobs_view() {
    assert_get_stories_by_tag(&actions_for(KeyEvent::Key(KeyCode::F5)), "job", StorySortMode::Date);
}

#[test]
fn custom_keymap_opens_configured_story_view() {
    assert_get_stories_by_tag(&actions_for(KeyEvent::Char(CUSTOM_KEY)), CUSTOM_TAG, StorySortMode::Date);
}

#[test]
fn open_help_dialog_pushes_help_layer() {
    let actions = actions_for(KeyEvent::Char('?'));
    assert!(matches!(actions.as_slice(), [GlobalAction::OpenHelp]), "got {actions:?}");
}

#[test]
fn quit_key_signals_cursive_shutdown() {
    let actions = actions_for(KeyEvent::Char('q'));
    assert!(matches!(actions.as_slice(), [GlobalAction::Quit]), "got {actions:?}");
    let ctrl_c = actions_for(KeyEvent::CtrlChar('c'));
    assert!(matches!(ctrl_c.as_slice(), [GlobalAction::Quit]), "got {ctrl_c:?}");
}

#[test]
fn back_key_pops_only_when_a_view_is_below() {
    let e = KeyEvent::Key(KeyCode::Backspace);
    let g = GlobalKeyMap::default();
    assert!(global_actions(&e, &g, &vec![], None, 1).is_empty());
    let two = global_actions(&e, &g, &vec![], None, 2);
    assert!(matches!(two.as_slice(), [GlobalAction::PopLayer]), "got {two:?}");
}

#[test]
fn my_threads_in_browser_needs_a_login() {
    let e = KeyEvent::Char('T');
    let g = GlobalKeyMap::default();
    let logged_out = global_actions(&e, &g, &vec![], None, 1);
    assert!(matches!(logged_out.as_slice(), [GlobalAction::NotLoggedIn]), "got {logged_out:?}");
    let logged_in = global_actions(&e, &g, &vec![], Some("pg"), 1);
    match logged_in.as_slice() {
        [GlobalAction::OpenInBrowser(url)] => assert_eq!(url, "https://news.ycombinator.com/threads?id=pg"),
        other => panic!("expected the threads page, got {other:?}"),
    }
}

#[test]
fn unbound_key_asks_for_nothing() {
    assert!(actions_for(KeyEvent::Char('z')).is_empty());
}
