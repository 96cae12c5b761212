use hackernews_tim::config::{
    auth_prompt_answer, auth_prompt_result, flavor_prompt_answer, needs_backport, url_open_command_for, Auth,
    AuthPromptResult, Command, Config, ConfigFlavor, DARK_CONFIG, LIGHT_CONFIG, update_theme_text,
};

#[test]
fn flavor_from_str_accepts_both_cases() {
    assert_eq!("light".parse::<ConfigFlavor>().unwrap(), ConfigFlavor::Light);
    assert_eq!("LIGHT".parse::<ConfigFlavor>().unwrap(), ConfigFlavor::Light);
    assert_eq!("Dark".parse::<ConfigFlavor>().unwrap(), ConfigFlavor::Dark);
    assert!("midnight".parse::<ConfigFlavor>().is_err());
}

#[test]
fn embedded_configs_are_nonempty_and_distinct() {
    assert!(!LIGHT_CONFIG.is_empty());
    assert!(!DARK_CONFIG.is_empty());
    assert_ne!(LIGHT_CONFIG, DARK_CONFIG);
}

#[test]
fn unknown_flavor_error_names_it_in_lower_case() {
    assert_eq!(
        ConfigFlavor::parse_flavor("MidNight"),
        Err("unknown config flavor 'midnight' (expected 'light' or 'dark')".to_string())
    );
    assert_eq!(ConfigFlavor::Dark.contents(), DARK_CONFIG);
}

#[test]
fn auth_prompt_answers() {
    assert_eq!(auth_prompt_answer(" Yes \n"), Some(true));
    assert_eq!(auth_prompt_answer("y"), Some(true));
    assert_eq!(auth_prompt_answer("N"), Some(false));
    assert_eq!(auth_prompt_answer("no"), Some(false));
    assert_eq!(auth_prompt_answer("\n"), Some(false));
    assert_eq!(auth_prompt_answer("maybe"), None);
}

#[test]
fn flavor_prompt_answers() {
    assert_eq!(flavor_prompt_answer("l\n"), Some(Some(ConfigFlavor::Light)));
    assert_eq!(flavor_prompt_answer("DARK"), Some(Some(ConfigFlavor::Dark)));
    assert_eq!(flavor_prompt_answer("skip"), Some(None));
    assert_eq!(flavor_prompt_answer(""), Some(None));
    assert_eq!(flavor_prompt_answer("x"), None);
}

#[test]
fn auth_prompt_result_skips_empty_fields() {
    assert!(matches!(auth_prompt_result("  \n", "pw".to_string()), AuthPromptResult::Skip));
    assert!(matches!(auth_prompt_result("bob", String::new()), AuthPromptResult::Skip));
    match auth_prompt_result("  bob \n", "pw".to_string()) {
        AuthPromptResult::Credentials { username, password } => {
            assert_eq!(username, "bob");
            assert_eq!(password, "pw");
        }
        AuthPromptResult::Skip => panic!("expected credentials"),
    }
}

#[test]
fn session_placeholder_is_no_session() {
    let a = Auth { username: "u".to_string(), password: "p".to_string(), session: Some(String::new()) };
    assert_eq!(a.normalize_session().session, None);
    let b = Auth { username: "u".to_string(), password: "p".to_string(), session: Some("c".to_string()) };
    assert_eq!(b.normalize_session().session, Some("c".to_string()));
}

#[test]
fn annotated_auth_toml_carries_guidance_and_placeholder() {
    let a = Auth { username: "alice".to_string(), password: "hunter2".to_string(), session: None };
    let text = a.to_annotated_toml();
    assert!(text.contains("username = \"alice\""), "got {text}");
    assert!(text.contains("password = \"hunter2\""), "got {text}");
    assert!(text.contains("session = \"\""), "got {text}");
    assert!(text.contains("# `session` is the value of Hacker News's `user=` cookie."), "got {text}");
}

#[test]
fn backport_detects_session_line() {
    assert!(needs_backport("username = \"a\"\npassword = \"b\"\n"));
    assert!(!needs_backport("username = \"a\"\n  session   = \"\"\n"));
    assert!(!needs_backport("session=\"x\""));
    assert!(needs_backport("# session = nope\nsessions = 1\n"));
}

#[test]
fn command_text_and_defaults() {
    let c = Command { command: "article_md".to_string(), options: vec!["--format".to_string(), "html".to_string()] };
    assert_eq!(c.to_text(), "article_md --format html");
    let d = Config::default();
    assert_eq!(d.client_timeout, 32);
    assert_eq!(d.url_open_command.command, "xdg-open");
    assert_eq!(d.article_parse_command.to_text(), "article_md --format html");
    assert_eq!(url_open_command_for("macos").command, "open");
    assert_eq!(url_open_command_for("windows").command, "start");
    assert_eq!(url_open_command_for("linux").command, "xdg-open");
}

/// The session that a written auth file gives back when read.
fn session_read_back(text: &str) -> Option<String> {
    let v: toml::Value = toml::from_str(text).expect("auth file should parse");
    let a = Auth {
        username: v["username"].as_str().unwrap().to_string(),
        password: v["password"].as_str().unwrap().to_string(),
        session: v.get("session").and_then(|s| s.as_str()).map(|s| s.to_string()),
    };
    a.normalize_session().session
}

#[test]
fn auth_write_then_read_preserves_session() {
    let original = Auth {
        username: "alice".to_string(),
        password: "hunter2".to_string(),
        session: Some("alice&abcdef123456".to_string()),
    };
    let written = original.to_annotated_toml();
    assert_eq!(session_read_back(&written), original.session);
}

#[test]
fn auth_write_always_emits_session_placeholder_with_guidance() {
    let written = Auth { username: "alice".to_string(), password: "hunter2".to_string(), session: None }.to_annotated_toml();
    assert!(written.contains("session = \"\""), "expected empty session line, got:\n{written}");
    assert!(written.contains("user="), "expected the `user=` cookie hint in the guidance, got:\n{written}");
    assert!(written.contains("news.ycombinator.com"), "expected a link to HN in the guidance, got:\n{written}");
    assert_eq!(session_read_back(&written), None);
}

#[test]
fn backport_rewrites_legacy_file_with_session_line() {
    let legacy = "username = \"bob\"\npassword = \"pw\"\n";
    assert!(needs_backport(legacy), "expected legacy file to be rewritten");
    let new_body = Auth { username: "bob".to_string(), password: "pw".to_string(), session: None }.to_annotated_toml();
    assert!(new_body.contains("session = \"\""), "expected empty session placeholder, got:\n{new_body}");
    assert!(new_body.contains("news.ycombinator.com"), "expected cookie-paste guidance, got:\n{new_body}");
}

#[test]
fn backport_noops_when_session_line_already_present() {
    let body = "username = \"bob\"\npassword = \"pw\"\nsession = \"\"\n";
    assert!(!needs_backport(body), "expected already-migrated file to be left alone");
}

#[test]
fn update_theme_replaces_theme_and_preserves_other_sections() {
    let original = r##"# user comment above general
use_page_scrolling = false
client_timeout = 99

[theme.palette]
background = "#123456"
foreground = "#abcdef"

[keymap.global_keymap]
quit = "Q"
"##;
    let updated = update_theme_text(original, ConfigFlavor::Dark).expect("update should succeed");
    assert!(updated.contains(r##"background = "#1d1f21""##), "expected dark background, got:\n{updated}");
    assert!(!updated.contains("#123456"), "old palette leaked through:\n{updated}");
    assert!(updated.contains("# user comment above general"));
    assert!(updated.contains("use_page_scrolling = false"));
    assert!(updated.contains("client_timeout = 99"));
    assert!(updated.contains(r##"quit = "Q""##));
}

#[test]
fn update_theme_adds_theme_when_missing() {
    let updated = update_theme_text("client_timeout = 10\n", ConfigFlavor::Light).expect("update should succeed");
    assert!(updated.contains("client_timeout = 10"));
    assert!(
        updated.contains("[theme.palette]") || updated.contains("palette"),
        "expected theme section to be added:\n{updated}"
    );
}

#[test]
fn update_theme_reports_an_unreadable_config() {
    let err = update_theme_text("this is = = not toml", ConfigFlavor::Dark).unwrap_err();
    assert!(err.starts_with("failed to parse existing config: "), "got {err}");
}
