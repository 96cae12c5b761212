use hackernews_tim::config::Auth;
use hackernews_tim::hn_forms::{
    StartupAction, StartupEvent, StartupLoginFlow, StartupLoginStatus, StartupStage,
    auth_to_save, classify_missing_edit_form, edit_changes_text, session_cookie, startup_login_plan, StartupLogin,
};

fn auth(session: Option<&str>) -> Auth {
    Auth { username: "alice".to_string(), password: "pw".to_string(), session: session.map(|s| s.to_string()) }
}

#[test]
fn session_cookie_is_read_from_the_user_header() {
    let headers = vec![
        "theme=dark; Path=/".to_string(),
        "user=alice&abc123; Path=/; Secure".to_string(),
        "user=other".to_string(),
    ];
    assert_eq!(session_cookie(&headers).as_deref(), Some("alice&abc123"));
}

#[test]
fn session_cookie_without_attributes_is_the_whole_value() {
    assert_eq!(session_cookie(&vec!["user=tok".to_string()]).as_deref(), Some("tok"));
}

#[test]
fn no_user_header_gives_no_session_cookie() {
    assert_eq!(session_cookie(&vec!["theme=dark".to_string(), "xuser=1".to_string()]), None);
    assert_eq!(session_cookie(&Vec::new()), None);
}

#[test]
fn startup_login_prefers_a_cached_session() {
    assert!(matches!(startup_login_plan(&None), StartupLogin::Anonymous));
    assert!(matches!(startup_login_plan(&Some(auth(None))), StartupLogin::Password));
    assert!(matches!(startup_login_plan(&Some(auth(Some("")))), StartupLogin::Password));
    match startup_login_plan(&Some(auth(Some("tok")))) {
        StartupLogin::CachedSession(s) => assert_eq!(s, "tok"),
        _ => panic!("expected the cached session"),
    }
}

#[test]
fn only_a_changed_session_is_saved() {
    assert!(auth_to_save(&auth(Some("tok")), &Some("tok".to_string())).is_none());
    assert!(auth_to_save(&auth(None), &None).is_none());
    let saved = auth_to_save(&auth(Some("old")), &Some("new".to_string())).expect("a changed session");
    assert_eq!(saved.username, "alice");
    assert_eq!(saved.password, "pw");
    assert_eq!(saved.session.as_deref(), Some("new"));
    let cleared = auth_to_save(&auth(Some("old")), &None).expect("a dropped session");
    assert_eq!(cleared.session, None);
}

#[test]
fn edit_is_submitted_only_when_the_trimmed_text_changed() {
    assert!(!edit_changes_text("  same text \n", "same text"));
    assert!(edit_changes_text("new text", "old text"));
    assert!(edit_changes_text("", "old"));
    assert!(!edit_changes_text("\t\n", ""));
}

#[test]
fn missing_edit_form_cause_tells_an_empty_answer_apart() {
    assert!(classify_missing_edit_form("  \n").starts_with("HN returned an empty response"));
    assert!(classify_missing_edit_form("<html></html>").starts_with("not your comment"));
}

#[test]
fn unicode_white_space_is_trimmed_before_comparing_edits() {
    assert!(!edit_changes_text("\u{3000}text\u{a0}\u{2028}", "text"));
    assert!(edit_changes_text("\u{200b}text", "text"));
}

#[test]
fn startup_flow_without_credentials_finishes_logged_out() {
    let mut flow = StartupLoginFlow::new(None);
    match flow.step(StartupEvent::Begin) {
        StartupAction::Finish { logged_in, status, save } => {
            assert!(!logged_in);
            assert!(matches!(status, StartupLoginStatus::NotAttempted));
            assert!(save.is_none());
        },
        _ => panic!("expected to finish"),
    }
    assert_eq!(flow.stage, StartupStage::Finished);
}

#[test]
fn startup_flow_keeps_an_accepted_cached_session() {
    let mut flow = StartupLoginFlow::new(Some(auth(Some("tok"))));
    match flow.step(StartupEvent::Begin) {
        StartupAction::CheckSession(s) => assert_eq!(s, "tok"),
        _ => panic!("expected a session check"),
    }
    match flow.step(StartupEvent::SessionChecked(true)) {
        StartupAction::Finish { logged_in, status, save } => {
            assert!(logged_in);
            assert!(matches!(status, StartupLoginStatus::NotAttempted));
            assert!(save.is_none());
        },
        _ => panic!("expected to finish"),
    }
}

#[test]
fn startup_flow_falls_back_to_the_password_and_saves_a_fresh_cookie() {
    let mut flow = StartupLoginFlow::new(Some(auth(Some("stale"))));
    flow.step(StartupEvent::Begin);
    match flow.step(StartupEvent::SessionChecked(false)) {
        StartupAction::LogIn { username, password } => {
            assert_eq!(username, "alice");
            assert_eq!(password, "pw");
        },
        _ => panic!("expected a password login"),
    }
    match flow.step(StartupEvent::LoginAnswered(Ok(()), Some("fresh".to_string()))) {
        StartupAction::Finish { logged_in, status, save } => {
            assert!(logged_in);
            match status {
                StartupLoginStatus::Success { username } => assert_eq!(username, "alice"),
                _ => panic!("expected success"),
            }
            assert_eq!(save.expect("a changed session").session.as_deref(), Some("fresh"));
        },
        _ => panic!("expected to finish"),
    }
}

#[test]
fn startup_flow_reports_a_bad_login() {
    let mut flow = StartupLoginFlow::new(Some(auth(None)));
    assert!(matches!(flow.step(StartupEvent::Begin), StartupAction::LogIn { .. }));
    match flow.step(StartupEvent::LoginAnswered(Err("Bad login".to_string()), None)) {
        StartupAction::Finish { logged_in, status, save } => {
            assert!(!logged_in);
            assert!(matches!(status, StartupLoginStatus::BadLogin));
            assert!(save.is_none());
        },
        _ => panic!("expected to finish"),
    }
    assert!(matches!(flow.step(StartupEvent::Begin), StartupAction::Wait));
}
