use hackernews_tim::config::Auth;
use hackernews_tim::dialogs::{
    get_login_dialog, login_form_check, login_outcome, LoginAction, LoginEvent, LoginOutcome, LoginStage,
};

#[test]
fn empty_input_shows_status_and_keeps_dialog() {
    let dialog = get_login_dialog();
    let status = login_form_check(&dialog.username, &dialog.password).unwrap_err();
    assert!(status.contains("Username and password are required."), "expected status message; got:\n{status}");
    assert!(dialog.title.contains("Log in to Hacker News"));
    assert!(login_form_check("alice", "").is_err());
    assert!(login_form_check("", "pw").is_err());
}

#[test]
fn successful_login_writes_auth_file_and_swaps_dialog() {
    assert!(login_form_check("alice", "hunter2").is_ok());
    let auth = Auth {
        username: "alice".to_string(),
        password: "hunter2".to_string(),
        session: Some("alice&abcdef0123".to_string()),
    };
    let written = auth.to_annotated_toml();
    let v: toml::Value = toml::from_str(&written).expect("auth file should be parseable");
    assert_eq!(v["username"].as_str(), Some("alice"));
    assert_eq!(v["password"].as_str(), Some("hunter2"));
    assert_eq!(v["session"].as_str(), Some("alice&abcdef0123"));
    match login_outcome(Ok(()), Ok(()), "alice", "/tmp/auth.toml") {
        LoginOutcome::Done { title, body } => {
            assert!(title.contains("Login successful"), "expected the success info dialog; got {title}");
            assert_eq!(body, "Logged in as alice. Credentials saved to /tmp/auth.toml.");
        },
        other => panic!("expected the success report, got {other:?}"),
    }
}

#[test]
fn failed_login_shows_inline_error_and_keeps_dialog() {
    match login_outcome(Err("Bad login.".to_string()), Ok(()), "alice", "/tmp/auth.toml") {
        LoginOutcome::Status(m) => assert!(m.contains("Login failed"), "expected inline failure status; got {m}"),
        other => panic!("expected an inline status, got {other:?}"),
    }
}

#[test]
fn unsaved_credentials_are_reported_in_the_dialog() {
    match login_outcome(Ok(()), Err("disk full".to_string()), "alice", "/tmp/auth.toml") {
        LoginOutcome::Status(m) => assert_eq!(m, "Logged in, but failed to save credentials: disk full"),
        other => panic!("expected an inline status, got {other:?}"),
    }
}

#[test]
fn login_step_requires_both_fields_and_asks_nothing() {
    let mut d = get_login_dialog();
    d.username = "alice".to_string();
    assert!(matches!(d.step(LoginEvent::Submit, "/tmp/auth.toml"), LoginAction::Stay));
    assert_eq!(d.status, "Username and password are required.");
    assert_eq!(d.stage, LoginStage::Editing);
}

#[test]
fn login_step_logs_in_once_then_saves_then_reports() {
    let mut d = get_login_dialog();
    d.username = "alice".to_string();
    d.password = "pw".to_string();
    match d.step(LoginEvent::Submit, "/tmp/auth.toml") {
        LoginAction::LogIn { username, password } => {
            assert_eq!(username, "alice");
            assert_eq!(password, "pw");
        },
        _ => panic!("expected a login"),
    }
    assert!(matches!(d.step(LoginEvent::Submit, "/tmp/auth.toml"), LoginAction::Stay));
    match d.step(LoginEvent::LoginAnswered(Ok(())), "/tmp/auth.toml") {
        LoginAction::SaveAuth { username, password } => {
            assert_eq!(username, "alice");
            assert_eq!(password, "pw");
        },
        _ => panic!("expected a save"),
    }
    match d.step(LoginEvent::Saved(Ok(())), "/tmp/auth.toml") {
        LoginAction::Report { title, body } => {
            assert_eq!(title, "Login successful");
            assert_eq!(body, "Logged in as alice. Credentials saved to /tmp/auth.toml.");
        },
        _ => panic!("expected the report"),
    }
}

#[test]
fn login_step_failure_shows_the_error_and_saves_nothing() {
    let mut d = get_login_dialog();
    d.username = "alice".to_string();
    d.password = "bad".to_string();
    assert!(matches!(d.step(LoginEvent::Submit, "/tmp/auth.toml"), LoginAction::LogIn { .. }));
    assert!(matches!(d.step(LoginEvent::LoginAnswered(Err("Bad login".to_string())), "/tmp/auth.toml"), LoginAction::Stay));
    assert_eq!(d.status, "Login failed: Bad login");
    assert_eq!(d.stage, LoginStage::Editing);
    assert!(matches!(d.step(LoginEvent::Saved(Ok(())), "/tmp/auth.toml"), LoginAction::Stay));
}

#[test]
fn login_step_save_failure_keeps_the_dialog() {
    let mut d = get_login_dialog();
    d.username = "alice".to_string();
    d.password = "pw".to_string();
    d.step(LoginEvent::Submit, "/tmp/auth.toml");
    d.step(LoginEvent::LoginAnswered(Ok(())), "/tmp/auth.toml");
    assert!(matches!(d.step(LoginEvent::Saved(Err("disk full".to_string())), "/tmp/auth.toml"), LoginAction::Stay));
    assert_eq!(d.status, "Logged in, but failed to save credentials: disk full");
}

#[test]
fn login_step_cancel_closes_without_login() {
    let mut d = get_login_dialog();
    d.username = "alice".to_string();
    d.password = "pw".to_string();
    assert!(matches!(d.step(LoginEvent::Cancel, "/tmp/auth.toml"), LoginAction::Close));
    assert_eq!(d.stage, LoginStage::Editing);
}
