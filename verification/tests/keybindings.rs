use hackernews_tim::keymap::{CustomKeyMap, GlobalKeyMap, KeyMap};
use hackernews_tim::keys::{KeyCode, KeyEvent, Keys};
use hackernews_tim::query::{FilterInterval, StoryNumericFilters};

/// The key texts of a TOML value: one string, or an array of strings.
fn key_texts(toml_value: &str) -> Vec<String> {
    let raw = format!("key = {toml_value}");
    let value: toml::Value = toml::from_str(&raw).expect("test toml should parse");
    match value.get("key").expect("key field") {
        toml::Value::String(s) => vec![s.clone()],
        toml::Value::Array(a) => a.iter().map(|v| v.as_str().expect("key string").to_string()).collect(),
        other => panic!("unexpected key value {other:?}"),
    }
}

fn try_parse_keys(toml_value: &str) -> Result<Keys, String> {
    Keys::from_key_strings(&key_texts(toml_value))
}

fn parse_keys(toml_value: &str) -> Keys {
    try_parse_keys(toml_value).expect("Keys should deserialize")
}

fn interval_of(v: Option<&toml::Value>) -> FilterInterval {
    let get = |k: &str| v.and_then(|t| t.get(k)).and_then(|x| x.as_integer()).map(|x| x as u64);
    FilterInterval::new(get("start"), get("end"))
}

#[test]
fn keys_deserialize_single_char() {
    let keys = parse_keys("\"q\"");
    assert!(keys.has_event(&KeyEvent::Char('q')));
    assert!(!keys.has_event(&KeyEvent::Char('Q')));
}

#[test]
fn keys_deserialize_ctrl_modifier() {
    let keys = parse_keys("\"C-c\"");
    assert!(keys.has_event(&KeyEvent::CtrlChar('c')));
}

#[test]
fn keys_deserialize_alt_modifier() {
    let keys = parse_keys("\"M-x\"");
    assert!(keys.has_event(&KeyEvent::AltChar('x')));
}

#[test]
fn keys_deserialize_special_keys() {
    for (s, expected) in [
        ("\"esc\"", KeyCode::Esc),
        ("\"backspace\"", KeyCode::Backspace),
        ("\"enter\"", KeyCode::Enter),
        ("\"tab\"", KeyCode::Tab),
        ("\"page_up\"", KeyCode::PageUp),
        ("\"page_down\"", KeyCode::PageDown),
        ("\"f1\"", KeyCode::F1),
        ("\"f12\"", KeyCode::F12),
    ] {
        let keys = parse_keys(s);
        assert!(keys.has_event(&KeyEvent::Key(expected)), "{s} should resolve to {expected:?}");
    }
}

#[test]
fn keys_deserialize_array_acts_as_or() {
    let keys = parse_keys(r#"["q", "C-c"]"#);
    assert!(keys.has_event(&KeyEvent::Char('q')));
    assert!(keys.has_event(&KeyEvent::CtrlChar('c')));
    assert!(!keys.has_event(&KeyEvent::Char('x')));
}

#[test]
fn keys_deserialize_unknown_string_errors() {
    let err = try_parse_keys("\"ctrl-c\"").unwrap_err();
    assert!(err.contains("unknown/invalid key"), "expected key parse error, got {err}");
}

#[test]
fn keys_deserialize_unknown_special_key_errors() {
    let err = try_parse_keys("\"f99\"").unwrap_err();
    assert!(err.contains("unknown/invalid key"), "expected key parse error, got {err}");
}

#[test]
fn keys_display_single_char() {
    let keys = Keys::new(vec![KeyEvent::Char('q')]);
    assert_eq!(keys.to_text(), "q");
}

#[test]
fn keys_display_ctrl_uses_capital_c_prefix() {
    let keys = Keys::new(vec![KeyEvent::CtrlChar('c')]);
    assert_eq!(keys.to_text(), "C-c");
}

#[test]
fn keys_display_alt_uses_capital_m_prefix() {
    let keys = Keys::new(vec![KeyEvent::AltChar('x')]);
    assert_eq!(keys.to_text(), "M-x");
}

#[test]
fn keys_display_special_keys() {
    assert_eq!(Keys::new(vec![KeyEvent::Key(KeyCode::Esc)]).to_text(), "esc");
    assert_eq!(Keys::new(vec![KeyEvent::Key(KeyCode::Backspace)]).to_text(), "backspace");
    assert_eq!(Keys::new(vec![KeyEvent::Key(KeyCode::F1)]).to_text(), "f1");
    assert_eq!(Keys::new(vec![KeyEvent::Key(KeyCode::PageUp)]).to_text(), "page_up");
}

#[test]
fn keys_display_multi_event_uses_brackets() {
    let keys = Keys::new(vec![KeyEvent::Char('q'), KeyEvent::CtrlChar('c')]);
    assert_eq!(keys.to_text(), "[q, C-c]");
}

#[test]
fn keys_display_empty_renders_nothing() {
    let keys = Keys::new(vec![]);
    assert_eq!(keys.to_text(), "");
}

#[test]
fn keys_round_trip_single_to_canonical() {
    for canonical in ["q", "C-c", "M-x", "esc", "f1", "page_down"] {
        let keys = parse_keys(&format!("\"{canonical}\""));
        assert_eq!(keys.to_text(), canonical);
    }
}

#[test]
fn keys_to_event_trigger_matches_listed_events() {
    let keys = Keys::new(vec![KeyEvent::Char('q'), KeyEvent::CtrlChar('c')]);
    assert!(keys.has_event(&KeyEvent::Char('q')));
    assert!(keys.has_event(&KeyEvent::CtrlChar('c')));
    assert!(!keys.has_event(&KeyEvent::Char('Q')));
    assert!(!keys.has_event(&KeyEvent::Key(KeyCode::Esc)));
}

#[test]
fn global_keymap_default_has_quit_binding() {
    let g = GlobalKeyMap::default();
    assert!(g.quit.has_event(&KeyEvent::Char('q')));
    assert!(g.quit.has_event(&KeyEvent::CtrlChar('c')));
}

#[test]
fn global_keymap_default_has_help_dialog_binding() {
    let g = GlobalKeyMap::default();
    assert!(g.open_help_dialog.has_event(&KeyEvent::Char('?')));
}

#[test]
fn global_keymap_default_function_keys_route_to_views() {
    let g = GlobalKeyMap::default();
    assert!(g.goto_front_page_view.has_event(&KeyEvent::Key(KeyCode::F1)));
    assert!(g.goto_all_stories_view.has_event(&KeyEvent::Key(KeyCode::F2)));
    assert!(g.goto_ask_hn_view.has_event(&KeyEvent::Key(KeyCode::F3)));
    assert!(g.goto_show_hn_view.has_event(&KeyEvent::Key(KeyCode::F4)));
    assert!(g.goto_jobs_view.has_event(&KeyEvent::Key(KeyCode::F5)));
    assert!(g.goto_my_threads_view.has_event(&KeyEvent::Key(KeyCode::F6)));
}

#[test]
fn keymap_default_populates_every_section() {
    let km = KeyMap::default();
    assert!(km.global_keymap.quit.has_event(&KeyEvent::Char('q')));
    assert!(km.scroll_keymap.up.has_event(&KeyEvent::Char('k')));
    assert!(km.custom_keymaps.is_empty());
}

#[test]
fn custom_keymap_deserializes_from_toml_block() {
    let toml_src = r#"
        key = "M-1"
        tag = "story"
        by_date = false
        [numeric_filters]
        elapsed_days_interval = {start = 0, end = 3}
        points_interval = {start = 10}
        num_comments_interval = {}
    "#;
    let value: toml::Value = toml::from_str(toml_src).expect("custom keymap parse");
    let filters = value.get("numeric_filters");
    let custom = CustomKeyMap {
        key: Keys::from_key_strings(&vec![value["key"].as_str().unwrap().to_string()]).unwrap(),
        tag: value["tag"].as_str().unwrap().to_string(),
        by_date: value["by_date"].as_bool().unwrap(),
        numeric_filters: StoryNumericFilters {
            elapsed_days_interval: interval_of(filters.and_then(|f| f.get("elapsed_days_interval"))),
            points_interval: interval_of(filters.and_then(|f| f.get("points_interval"))),
            num_comments_interval: interval_of(filters.and_then(|f| f.get("num_comments_interval"))),
        },
    };
    assert_eq!(custom.tag, "story");
    assert!(!custom.by_date);
    assert!(custom.key.has_event(&KeyEvent::AltChar('1')));
    let desc = custom.numeric_filters.desc();
    assert!(desc.contains("elapsed_days: [0:3]"));
    assert!(desc.contains("points: [10:]"));
}
