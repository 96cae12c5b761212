//! The small dialogs and global keys of the interface: the find dialog's
//! input, the login dialog's steps, the startup login report, and what
//! the global keys ask.

use vstd::prelude::*;
use crate::find::{FindSignal, FindState};
use crate::hn_forms::StartupLoginStatus;
use crate::keymap::{CustomKeyMap, EditKeyMap, GlobalKeyMap};
use crate::keys::{KeyCode, KeyEvent};
use crate::query::{no_filters, StoryNumericFilters, StorySortMode};
use crate::responses::HN_HOST_URL;
use crate::text::{chars_of, string_of};

verus! {

/// The text typed into the find dialog and the cursor in it.
pub struct FindInput {
    pub text: Vec<char>,
    pub cursor: usize,
}

/// What a key does to the find dialog's input: a character is inserted at
/// the cursor; the delete key removes the character before the cursor;
/// the cursor keys move the cursor within the text; the first binding
/// that matches wins. `None` when the key does nothing here; otherwise
/// the new text, the new cursor, and whether the text changed.
pub open spec fn input_after(
    text: Seq<char>,
    cursor: int,
    e: KeyEvent,
    km: EditKeyMap,
) -> Option<(Seq<char>, int, bool)> {
    match e {
        KeyEvent::Char(c) => Some((text.insert(cursor, c), cursor + 1, true)),
        _ => if km.backward_delete_char.events@.contains(e) {
            if cursor > 0 {
                Some((text.remove(cursor - 1), cursor - 1, true))
            } else {
                Some((text, cursor, true))
            }
        } else if km.move_cursor_left.events@.contains(e) {
            Some((text, if cursor > 0 { cursor - 1 } else { cursor }, false))
        } else if km.move_cursor_right.events@.contains(e) {
            Some((text, if cursor < text.len() { cursor + 1 } else { cursor }, false))
        } else if km.move_cursor_to_begin.events@.contains(e) {
            Some((text, 0, false))
        } else if km.move_cursor_to_end.events@.contains(e) {
            Some((text, text.len() as int, false))
        } else {
            None
        },
    }
}

/// What the find dialog asks of the program: to close it.
#[derive(Debug, Clone, Copy, PartialEq, Eq, Structural)]
pub enum FindDialogAction {
    Close,
}

impl FindInput {
    /// An empty input.
    pub fn new() -> (res: FindInput)
        ensures
            res.text@.len() == 0,
            res.cursor == 0,
    {
        FindInput { text: Vec::new(), cursor: 0 }
    }

    /// The cursor is within the text.
    pub open spec fn wf(&self) -> bool {
        self.cursor <= self.text@.len()
    }

    /// Handles a key in the find dialog, every handler bound to it running
    /// in order: a close key asks to clear the find session and close the
    /// dialog; Enter asks to jump to the next match and close the dialog;
    /// then the input takes the key (see `input_after`), and a change of
    /// text becomes the new query, to be highlighted. Returns the requests
    /// and whether a handler took the key.
    pub fn handle_key(&mut self, e: &KeyEvent, close: &crate::keys::Keys, km: &EditKeyMap, state: &mut FindState) -> (res: (
        Vec<FindDialogAction>,
        bool,
    ))
        requires
            old(self).wf(),
            old(self).text@.len() < usize::MAX,
        ensures
            final(self).wf(),
            ({
                let closing = close.events@.contains(*e);
                let entering = *e == KeyEvent::Key(KeyCode::Enter);
                let p1 = if closing { Some(FindSignal::Clear) } else { old(state).pending };
                let p2 = if entering { Some(FindSignal::JumpNext) } else { p1 };
                let acts = (if closing { seq![FindDialogAction::Close] } else { Seq::empty() }) + (if entering {
                    seq![FindDialogAction::Close]
                } else {
                    Seq::empty()
                });
                &&& res.0@ == acts
                &&& match input_after(old(self).text@, old(self).cursor as int, *e, *km) {
                    None => {
                        &&& final(self).text@ == old(self).text@
                        &&& final(self).cursor == old(self).cursor
                        &&& final(state).query == old(state).query
                        &&& final(state).pending == p2
                        &&& res.1 == (closing || entering)
                    },
                    Some((t, c, changed)) => {
                        &&& final(self).text@ == t
                        &&& final(self).cursor == c
                        &&& res.1
                        &&& changed ==> final(state).query@ == t && final(state).pending == Some(FindSignal::Update)
                        &&& !changed ==> final(state).query == old(state).query && final(state).pending == p2
                    },
                }
                &&& final(state).match_ids == old(state).match_ids
            }),
    {
        let mut actions: Vec<FindDialogAction> = Vec::new();
        let mut taken = false;
        if close.has_event(e) {
            state.pending = Some(FindSignal::Clear);
            actions.push(FindDialogAction::Close);
            taken = true;
        }
        if *e == KeyEvent::Key(KeyCode::Enter) {
            state.pending = Some(FindSignal::JumpNext);
            actions.push(FindDialogAction::Close);
            taken = true;
        }
        let changed = match *e {
            KeyEvent::Char(c) => {
                self.text.insert(self.cursor, c);
                self.cursor = self.cursor + 1;
                Some(true)
            },
            _ => if km.backward_delete_char.has_event(e) {
                if self.cursor > 0 {
                    self.cursor = self.cursor - 1;
                    self.text.remove(self.cursor);
                }
                Some(true)
            } else if km.move_cursor_left.has_event(e) {
                if self.cursor > 0 {
                    self.cursor = self.cursor - 1;
                }
                Some(false)
            } else if km.move_cursor_right.has_event(e) {
                if self.cursor < self.text.len() {
                    self.cursor = self.cursor + 1;
                }
                Some(false)
            } else if km.move_cursor_to_begin.has_event(e) {
                self.cursor = 0;
                Some(false)
            } else if km.move_cursor_to_end.has_event(e) {
                self.cursor = self.text.len();
                Some(false)
            } else {
                None
            },
        };
        match changed {
            None => {},
            Some(ch) => {
                taken = true;
                if ch {
                    state.query = string_of(self.text.as_slice());
                    state.pending = Some(FindSignal::Update);
                }
            },
        }
        proof {
            let closing = close.events@.contains(*e);
            let entering = *e == KeyEvent::Key(KeyCode::Enter);
            let acts = (if closing { seq![FindDialogAction::Close] } else { Seq::<FindDialogAction>::empty() }) + (
            if entering {
                seq![FindDialogAction::Close]
            } else {
                Seq::<FindDialogAction>::empty()
            });
            assert(actions@ =~= acts);
        }
        (actions, taken)
    }
}

/// What the login dialog's "Log in" button finds in the form: both fields
/// are required.
pub fn login_form_check(username: &str, password: &str) -> (res: Result<(), String>)
    ensures
        (username@.len() > 0 && password@.len() > 0) <==> res is Ok,
        res matches Err(m) ==> m@ == "Username and password are required."@,
{
    if username.is_empty() || password.is_empty() {
        Err(String::from_str("Username and password are required."))
    } else {
        Ok(())
    }
}

/// What the login dialog shows after an attempt: a status line in the
/// dialog, or, once logged in and saved, a report in place of the dialog.
#[derive(Debug)]
pub enum LoginOutcome {
    Status(String),
    Done { title: String, body: String },
}

/// The outcome of a login attempt: a failed login shows its error; a
/// login whose credentials could not be saved says so; otherwise the
/// dialog gives way to a report naming the user and the auth file.
pub fn login_outcome(
    login: Result<(), String>,
    saved: Result<(), String>,
    username: &str,
    auth_file: &str,
) -> (res: LoginOutcome)
    ensures
        match login {
            Err(err) => res matches LoginOutcome::Status(m) && m@ == "Login failed: "@ + err@,
            Ok(()) => match saved {
                Err(err) => res matches LoginOutcome::Status(m) && m@ == "Logged in, but failed to save credentials: "@
                    + err@,
                Ok(()) => res matches LoginOutcome::Done { title, body } && title@ == "Login successful"@ && body@
                    == "Logged in as "@ + username@ + ". Credentials saved to "@ + auth_file@ + "."@,
            },
        },
{
    match login {
        Err(err) => {
            let mut m = String::from_str("Login failed: ");
            m.append(err.as_str());
            LoginOutcome::Status(m)
        },
        Ok(()) => match saved {
            Err(err) => {
                let mut m = String::from_str("Logged in, but failed to save credentials: ");
                m.append(err.as_str());
                LoginOutcome::Status(m)
            },
            Ok(()) => {
                let mut body = String::from_str("Logged in as ");
                body.append(username);
                body.append(". Credentials saved to ");
                body.append(auth_file);
                body.append(".");
                LoginOutcome::Done { title: String::from_str("Login successful"), body }
            },
        },
    }
}

/// The report of a login attempted at startup, as a title and a body;
/// `None` when no login was attempted.
pub fn login_status_dialog(status: &StartupLoginStatus) -> (res: Option<(String, String)>)
    ensures
        match *status {
            StartupLoginStatus::NotAttempted => res is None,
            StartupLoginStatus::Success { username } => res matches Some((t, b)) && t@ == "Login successful"@
                && b@ == "Logged in to Hacker News as "@ + username@
                + ". A fresh session cookie was saved to your auth file."@,
            StartupLoginStatus::BadLogin => res matches Some((t, b)) && t@ == "Login failed"@ && b@
                == "Hacker News rejected the stored credentials (`Bad login.`). Update `username`/`password` in hn-auth.toml and restart."@,
            StartupLoginStatus::Captcha => res matches Some((t, b)) && t@ == "CAPTCHA required"@ && b@
                == "Hacker News asked for a CAPTCHA before letting us log in, and the TUI can't solve it. Sign in at https://news.ycombinator.com/ in a browser, copy the `user` cookie from DevTools, and paste its value into the `session = \"\"` line in hn-auth.toml."@,
            StartupLoginStatus::Other(msg) => res matches Some((t, b)) && t@ == "Login failed"@ && b@
                == "Hacker News login failed: "@ + msg@,
        },
{
    match status {
        StartupLoginStatus::NotAttempted => None,
        StartupLoginStatus::Success { username } => {
            let mut b = String::from_str("Logged in to Hacker News as ");
            b.append(username.as_str());
            b.append(". A fresh session cookie was saved to your auth file.");
            Some((String::from_str("Login successful"), b))
        },
        StartupLoginStatus::BadLogin => Some(
            (
                String::from_str("Login failed"),
                String::from_str(
                    "Hacker News rejected the stored credentials (`Bad login.`). Update `username`/`password` in hn-auth.toml and restart.",
                ),
            ),
        ),
        StartupLoginStatus::Captcha => Some(
            (
                String::from_str("CAPTCHA required"),
                String::from_str(
                    "Hacker News asked for a CAPTCHA before letting us log in, and the TUI can't solve it. Sign in at https://news.ycombinator.com/ in a browser, copy the `user` cookie from DevTools, and paste its value into the `session = \"\"` line in hn-auth.toml.",
                ),
            ),
        ),
        StartupLoginStatus::Other(msg) => {
            let mut b = String::from_str("Hacker News login failed: ");
            b.append(msg.as_str());
            Some((String::from_str("Login failed"), b))
        },
    }
}

/// What a global key asks of the program.
#[derive(Debug)]
pub enum GlobalAction {
    /// Load the stories of a tag in a sort order, from the first page,
    /// with filters.
    LoadStories { tag: String, sort: StorySortMode, filters: StoryNumericFilters },
    /// Go back to the previous view.
    PopLayer,
    /// Open the search view.
    OpenSearch,
    /// Show the global help.
    OpenHelp,
    /// Show the login dialog.
    OpenLogin,
    /// Open a URL in the browser.
    OpenInBrowser(String),
    /// Tell the user to log in first.
    NotLoggedIn,
    /// Quit the program.
    Quit,
}

/// The abstract request of a global action.
pub enum GlobalActionV {
    LoadStories { tag: Seq<char>, sort: StorySortMode, filters: StoryNumericFilters },
    PopLayer,
    OpenSearch,
    OpenHelp,
    OpenLogin,
    OpenInBrowser(Seq<char>),
    NotLoggedIn,
    Quit,
}

/// The request of a global action as values.
pub open spec fn action_view(a: GlobalAction) -> GlobalActionV {
    match a {
        GlobalAction::LoadStories { tag, sort, filters } => GlobalActionV::LoadStories { tag: tag@, sort, filters },
        GlobalAction::PopLayer => GlobalActionV::PopLayer,
        GlobalAction::OpenSearch => GlobalActionV::OpenSearch,
        GlobalAction::OpenHelp => GlobalActionV::OpenHelp,
        GlobalAction::OpenLogin => GlobalActionV::OpenLogin,
        GlobalAction::OpenInBrowser(u) => GlobalActionV::OpenInBrowser(u@),
        GlobalAction::NotLoggedIn => GlobalActionV::NotLoggedIn,
        GlobalAction::Quit => GlobalActionV::Quit,
    }
}

/// A story tag's starting request: by date for all stories and jobs.
pub open spec fn tag_load(tag: Seq<char>) -> GlobalActionV {
    GlobalActionV::LoadStories {
        tag,
        sort: if tag == "story"@ || tag == "job"@ {
            StorySortMode::Date
        } else {
            StorySortMode::NoSort
        },
        filters: no_filters(),
    }
}

/// The requests of the custom key maps bound to a key, in order.
pub open spec fn custom_actions(e: KeyEvent, custom: Seq<CustomKeyMap>) -> Seq<GlobalActionV>
    decreases custom.len(),
{
    if custom.len() == 0 {
        Seq::empty()
    } else {
        custom_actions(e, custom.drop_last()) + (if custom.last().key.events@.contains(e) {
            seq![
                GlobalActionV::LoadStories {
                    tag: custom.last().tag@,
                    sort: if custom.last().by_date {
                        StorySortMode::Date
                    } else {
                        StorySortMode::Points
                    },
                    filters: custom.last().numeric_filters,
                },
            ]
        } else {
            Seq::empty()
        })
    }
}

/// One request when the key is bound, none otherwise.
pub open spec fn when_bound(bound: bool, a: GlobalActionV) -> Seq<GlobalActionV> {
    if bound {
        seq![a]
    } else {
        Seq::empty()
    }
}

/// The page of a user's threads on HN.
pub open spec fn threads_page(username: Seq<char>) -> Seq<char> {
    HN_HOST_URL@ + "/threads?id="@ + username
}

/// What the global keys ask for a key that no view took, every callback
/// bound to it running in the order they are registered: the story tags,
/// the custom key maps, going back when there is a view to go back to,
/// the search view, the help, the login dialog, the user's threads in the
/// browser (or a reminder to log in), and quitting.
pub open spec fn global_actions_spec(
    e: KeyEvent,
    g: GlobalKeyMap,
    custom: Seq<CustomKeyMap>,
    user: Option<Seq<char>>,
    layers: nat,
) -> Seq<GlobalActionV> {
    when_bound(g.goto_front_page_view.events@.contains(e), tag_load("front_page"@)) + when_bound(
        g.goto_all_stories_view.events@.contains(e),
        tag_load("story"@),
    ) + when_bound(g.goto_ask_hn_view.events@.contains(e), tag_load("ask_hn"@)) + when_bound(
        g.goto_show_hn_view.events@.contains(e),
        tag_load("show_hn"@),
    ) + when_bound(g.goto_jobs_view.events@.contains(e), tag_load("job"@)) + custom_actions(e, custom)
        + when_bound(g.goto_previous_view.events@.contains(e) && layers > 1, GlobalActionV::PopLayer) + when_bound(
        g.goto_search_view.events@.contains(e),
        GlobalActionV::OpenSearch,
    ) + when_bound(g.open_help_dialog.events@.contains(e), GlobalActionV::OpenHelp) + when_bound(
        g.open_login_dialog.events@.contains(e),
        GlobalActionV::OpenLogin,
    ) + when_bound(
        g.open_my_threads_in_browser.events@.contains(e),
        match user {
            Some(u) => GlobalActionV::OpenInBrowser(HN_HOST_URL@ + "/threads?id="@ + u),
            None => GlobalActionV::NotLoggedIn,
        },
    ) + when_bound(g.quit.events@.contains(e), GlobalActionV::Quit)
}

/// Adds a tag's starting request.
fn push_tag_load(out: &mut Vec<GlobalAction>, bound: bool, tag: &str)
    ensures
        final(out)@.map_values(|a: GlobalAction| action_view(a)) == old(out)@.map_values(|a: GlobalAction| action_view(a))
            + when_bound(bound, tag_load(tag@)),
{
    let ghost before = out@;
    if bound {
        let sort = if crate::query::str_eq(tag, "story") || crate::query::str_eq(tag, "job") {
            StorySortMode::Date
        } else {
            StorySortMode::NoSort
        };
        out.push(GlobalAction::LoadStories { tag: String::from_str(tag), sort, filters: StoryNumericFilters::default() });
    }
    assert(out@.map_values(|a: GlobalAction| action_view(a)) =~= before.map_values(|a: GlobalAction| action_view(a))
        + when_bound(bound, tag_load(tag@)));
}

/// Adds a request when the key is bound.
fn push_when(out: &mut Vec<GlobalAction>, bound: bool, a: GlobalAction)
    ensures
        final(out)@.map_values(|a: GlobalAction| action_view(a)) == old(out)@.map_values(|a: GlobalAction| action_view(a))
            + when_bound(bound, action_view(a)),
{
    let ghost before = out@;
    let ghost av = action_view(a);
    if bound {
        out.push(a);
    }
    assert(out@.map_values(|a: GlobalAction| action_view(a)) =~= before.map_values(|a: GlobalAction| action_view(a))
        + when_bound(bound, av));
}

/// What the global keys ask for a key that no view took (see
/// `global_actions_spec`). `user` is the logged-in user, `layers` the
/// number of views on the screen.
pub fn global_actions(
    e: &KeyEvent,
    g: &GlobalKeyMap,
    custom: &Vec<CustomKeyMap>,
    user: Option<&str>,
    layers: usize,
) -> (res: Vec<GlobalAction>)
    ensures
        res@.map_values(|a: GlobalAction| action_view(a)) == global_actions_spec(
            *e,
            *g,
            custom@,
            crate::items::me_view(user),
            layers as nat,
        ),
{
    let mut out: Vec<GlobalAction> = Vec::new();
    assert(out@.map_values(|a: GlobalAction| action_view(a)) =~= Seq::<GlobalActionV>::empty());
    push_tag_load(&mut out, g.goto_front_page_view.has_event(e), "front_page");
    push_tag_load(&mut out, g.goto_all_stories_view.has_event(e), "story");
    push_tag_load(&mut out, g.goto_ask_hn_view.has_event(e), "ask_hn");
    push_tag_load(&mut out, g.goto_show_hn_view.has_event(e), "show_hn");
    push_tag_load(&mut out, g.goto_jobs_view.has_event(e), "job");
    let ghost before_custom = out@.map_values(|a: GlobalAction| action_view(a));
    let mut k: usize = 0;
    while k < custom.len()
        invariant
            k <= custom@.len(),
            out@.map_values(|a: GlobalAction| action_view(a)) == before_custom + custom_actions(
                *e,
                custom@.take(k as int),
            ),
        decreases custom@.len() - k,
    {
        let ghost prev = out@.map_values(|a: GlobalAction| action_view(a));
        let ghost prev_out = out@;
        assert(custom@.take(k as int + 1).drop_last() =~= custom@.take(k as int));
        assert(custom@.take(k as int + 1).last() == custom@[k as int]);
        if custom[k].key.has_event(e) {
            let sort = if custom[k].by_date {
                StorySortMode::Date
            } else {
                StorySortMode::Points
            };
            out.push(
                GlobalAction::LoadStories {
                    tag: custom[k].tag.clone(),
                    sort,
                    filters: custom[k].numeric_filters,
                },
            );
            assert(out@.map_values(|a: GlobalAction| action_view(a)) =~= prev_out.map_values(
                |a: GlobalAction| action_view(a),
            ).push(action_view(out@.last())));
        }
        k += 1;
        assert(out@.map_values(|a: GlobalAction| action_view(a)) =~= before_custom + custom_actions(
            *e,
            custom@.take(k as int),
        ));
    }
    assert(custom@.take(custom@.len() as int) =~= custom@);
    push_when(&mut out, g.goto_previous_view.has_event(e) && layers > 1, GlobalAction::PopLayer);
    push_when(&mut out, g.goto_search_view.has_event(e), GlobalAction::OpenSearch);
    push_when(&mut out, g.open_help_dialog.has_event(e), GlobalAction::OpenHelp);
    push_when(&mut out, g.open_login_dialog.has_event(e), GlobalAction::OpenLogin);
    let threads = match user {
        Some(u) => {
            let mut url = String::from_str(HN_HOST_URL);
            url.append("/threads?id=");
            url.append(u);
            GlobalAction::OpenInBrowser(url)
        },
        None => GlobalAction::NotLoggedIn,
    };
    push_when(&mut out, g.open_my_threads_in_browser.has_event(e), threads);
    push_when(&mut out, g.quit.has_event(e), GlobalAction::Quit);
    proof {
        let s = global_actions_spec(*e, *g, custom@, crate::items::me_view(user), layers as nat);
        assert(out@.map_values(|a: GlobalAction| action_view(a)) =~= s);
    }
    out
}

/// The find dialog: its title and its empty input.
pub struct FindDialog {
    pub title: String,
    pub input: FindInput,
}

/// A find dialog titled `Find` with an empty input.
pub fn construct_find_dialog() -> (res: FindDialog)
    ensures
        res.title@ == "Find"@,
        res.input.text@.len() == 0,
        res.input.cursor == 0,
{
    FindDialog { title: String::from_str("Find"), input: FindInput::new() }
}

/// Where the login dialog stands: taking input, waiting for Hacker News'
/// answer to a login, or waiting for the credentials to be saved.
#[derive(Debug, Clone, Copy, PartialEq, Eq, Structural)]
pub enum LoginStage {
    Editing,
    LoggingIn,
    Saving,
}

/// The login dialog: its title, the labels of its fields and its buttons,
/// the two fields, the status line and its stage.
pub struct LoginDialog {
    pub title: String,
    pub labels: (String, String),
    pub buttons: (String, String),
    pub username: String,
    pub password: String,
    pub status: String,
    pub stage: LoginStage,
}

/// What happens to the login dialog.
pub enum LoginEvent {
    /// The "Cancel" button.
    Cancel,
    /// The "Log in" button.
    Submit,
    /// Hacker News answered the login, with its error if it failed.
    LoginAnswered(Result<(), String>),
    /// The credentials were written to the auth file, or failed to be.
    Saved(Result<(), String>),
}

/// What the login dialog asks of the program.
pub enum LoginAction {
    /// Close the dialog.
    Close,
    /// Keep the dialog as it now stands.
    Stay,
    /// Log in to Hacker News with these credentials.
    LogIn { username: String, password: String },
    /// Write these credentials to the auth file.
    SaveAuth { username: String, password: String },
    /// Replace the dialog with a report.
    Report { title: String, body: String },
}

impl LoginDialog {
    /// The dialog's next step. "Cancel" closes it. "Log in" with both
    /// fields filled asks for one login with them, otherwise it shows that
    /// both are required. A failed login shows its error; a successful one
    /// asks to save the credentials, and only then: a failed save shows its
    /// error, a successful one gives way to a report naming the user and
    /// the auth file. Any other event leaves the dialog as it is.
    pub fn step(&mut self, event: LoginEvent, auth_file: &str) -> (res: LoginAction)
        ensures
            final(self).title == old(self).title,
            final(self).labels == old(self).labels,
            final(self).buttons == old(self).buttons,
            final(self).username == old(self).username,
            final(self).password == old(self).password,
            match (old(self).stage, event) {
                (LoginStage::Editing, LoginEvent::Cancel) => res is Close && final(self).status == old(self).status
                    && final(self).stage == old(self).stage,
                (LoginStage::Editing, LoginEvent::Submit) => if old(self).username@.len() > 0
                    && old(self).password@.len() > 0 {
                    &&& res matches LoginAction::LogIn { username, password }
                    &&& username@ == old(self).username@ && password@ == old(self).password@
                    &&& final(self).status == old(self).status
                    &&& final(self).stage == LoginStage::LoggingIn
                } else {
                    &&& res is Stay
                    &&& final(self).status@ == "Username and password are required."@
                    &&& final(self).stage == LoginStage::Editing
                },
                (LoginStage::LoggingIn, LoginEvent::LoginAnswered(Err(err))) => {
                    &&& res is Stay
                    &&& final(self).status@ == "Login failed: "@ + err@
                    &&& final(self).stage == LoginStage::Editing
                },
                (LoginStage::LoggingIn, LoginEvent::LoginAnswered(Ok(()))) => {
                    &&& res matches LoginAction::SaveAuth { username, password }
                    &&& username@ == old(self).username@ && password@ == old(self).password@
                    &&& final(self).status == old(self).status
                    &&& final(self).stage == LoginStage::Saving
                },
                (LoginStage::Saving, LoginEvent::Saved(Err(err))) => {
                    &&& res is Stay
                    &&& final(self).status@ == "Logged in, but failed to save credentials: "@ + err@
                    &&& final(self).stage == LoginStage::Editing
                },
                (LoginStage::Saving, LoginEvent::Saved(Ok(()))) => {
                    &&& res matches LoginAction::Report { title, body }
                    &&& title@ == "Login successful"@
                    &&& body@ == "Logged in as "@ + old(self).username@ + ". Credentials saved to "@ + auth_file@
                        + "."@
                    &&& final(self).status == old(self).status
                    &&& final(self).stage == LoginStage::Editing
                },
                _ => res is Stay && final(self).status == old(self).status && final(self).stage == old(self).stage,
            },
    {
        match (self.stage, event) {
            (LoginStage::Editing, LoginEvent::Cancel) => LoginAction::Close,
            (LoginStage::Editing, LoginEvent::Submit) => match login_form_check(
                self.username.as_str(),
                self.password.as_str(),
            ) {
                Ok(()) => {
                    self.stage = LoginStage::LoggingIn;
                    LoginAction::LogIn {
                        username: String::from_str(self.username.as_str()),
                        password: String::from_str(self.password.as_str()),
                    }
                },
                Err(m) => {
                    self.status = m;
                    LoginAction::Stay
                },
            },
            (LoginStage::LoggingIn, LoginEvent::LoginAnswered(Err(err))) => {
                match login_outcome(Err(err), Ok(()), self.username.as_str(), auth_file) {
                    LoginOutcome::Status(m) => {
                        self.status = m;
                    },
                    LoginOutcome::Done { .. } => {},
                }
                self.stage = LoginStage::Editing;
                LoginAction::Stay
            },
            (LoginStage::LoggingIn, LoginEvent::LoginAnswered(Ok(()))) => {
                self.stage = LoginStage::Saving;
                LoginAction::SaveAuth {
                    username: String::from_str(self.username.as_str()),
                    password: String::from_str(self.password.as_str()),
                }
            },
            (LoginStage::Saving, LoginEvent::Saved(saved)) => {
                self.stage = LoginStage::Editing;
                match login_outcome(Ok(()), saved, self.username.as_str(), auth_file) {
                    LoginOutcome::Status(m) => {
                        self.status = m;
                        LoginAction::Stay
                    },
                    LoginOutcome::Done { title, body } => LoginAction::Report { title, body },
                }
            },
            _ => LoginAction::Stay,
        }
    }
}

/// A login dialog with empty fields and no status.
pub fn get_login_dialog() -> (res: LoginDialog)
    ensures
        res.title@ == "Log in to Hacker News"@,
        res.labels.0@ == "Username:"@ && res.labels.1@ == "Password:"@,
        res.buttons.0@ == "Cancel"@ && res.buttons.1@ == "Log in"@,
        res.username@.len() == 0 && res.password@.len() == 0 && res.status@.len() == 0,
        res.stage == LoginStage::Editing,
{
    LoginDialog {
        title: String::from_str("Log in to Hacker News"),
        labels: (String::from_str("Username:"), String::from_str("Password:")),
        buttons: (String::from_str("Cancel"), String::from_str("Log in")),
        username: String::new(),
        password: String::new(),
        status: String::new(),
        stage: LoginStage::Editing,
    }
}

} // verus!

