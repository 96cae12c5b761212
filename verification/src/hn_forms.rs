//! Reading Hacker News responses around logging in, replying and editing:
//! outcome classification, form fields, and the listing pages to fetch.

use vstd::prelude::*;
use crate::markup::{find_char, find_char_exec, find_from, find_from_exec, occurs_at, occurs_at_exec};
use crate::config::Auth;
use crate::query::StorySortMode;

verus! {

/// Whether `needle` occurs in `hay`.
pub open spec fn contains_seq(hay: Seq<char>, needle: Seq<char>) -> bool {
    exists|i: int| #[trigger] occurs_at(hay, needle, i)
}

proof fn lemma_find_from_complete(t: Seq<char>, p: Seq<char>, from: int)
    requires
        0 <= from,
        p.len() > 0,
    ensures
        find_from(t, p, from) == -1 ==> forall|i: int| from <= i ==> !#[trigger] occurs_at(t, p, i),
    decreases t.len() - from,
{
    if from + p.len() > t.len() || from >= t.len() {
    } else if occurs_at(t, p, from) {
    } else {
        lemma_find_from_complete(t, p, from + 1);
    }
}

/// Whether `needle` occurs in `hay` (`str::contains`).
pub fn str_contains(hay: &str, needle: &str) -> (res: bool)
    ensures
        res == contains_seq(hay@, needle@),
{
    let h = crate::text::chars_of(hay);
    let n = crate::text::chars_of(needle);
    if n.len() == 0 {
        assert(occurs_at(hay@, needle@, 0)) by {
            assert(hay@.subrange(0, 0) =~= needle@);
        }
        return true;
    }
    proof {
        crate::markup::lemma_find_from_bounds(h@, n@, 0);
        lemma_find_from_complete(h@, n@, 0);
    }
    match find_from_exec(&h, &n, 0) {
        Some(k) => {
            assert(occurs_at(hay@, needle@, k as int));
            true
        },
        None => false,
    }
}

/// The error HN's login answer gives: `Bad login` when it says so, the
/// captcha advice when it asks for validation, nothing when it shows the
/// logout link, and an unexpected-response error otherwise.
pub open spec fn login_outcome(body: Seq<char>) -> Result<(), Seq<char>> {
    if contains_seq(body, "Bad login"@) {
        Err("Bad login"@)
    } else if contains_seq(body, "Validation required"@) {
        Err("Hacker News requires a captcha — sign in once via news.ycombinator.com, then retry"@)
    } else if contains_seq(body, "href=\"logout"@) {
        Ok(())
    } else {
        Err("login failed: unexpected response from Hacker News"@)
    }
}

/// The value of a result whose error is a message.
pub open spec fn result_view(r: Result<(), String>) -> Result<(), Seq<char>> {
    match r {
        Ok(()) => Ok(()),
        Err(m) => Err(m@),
    }
}

/// Classifies HN's answer to a login request.
pub fn classify_login_response(body: &str) -> (res: Result<(), String>)
    ensures
        result_view(res) == login_outcome(body@),
{
    if str_contains(body, "Bad login") {
        return Err(String::from_str("Bad login"));
    }
    if str_contains(body, "Validation required") {
        return Err(
            String::from_str("Hacker News requires a captcha — sign in once via news.ycombinator.com, then retry"),
        );
    }
    if str_contains(body, "href=\"logout") {
        return Ok(());
    }
    Err(String::from_str("login failed: unexpected response from Hacker News"))
}

/// The error HN's answer to a reply gives: an expired link, a captcha or
/// the rate limit, each when its phrase appears; otherwise success.
pub open spec fn reply_outcome(body: Seq<char>) -> Result<(), Seq<char>> {
    if contains_seq(body, "Unknown or expired link"@) {
        Err("reply link expired — try again"@)
    } else if contains_seq(body, "Validation required"@) {
        Err("HN requires a CAPTCHA — log in via the web UI first, then retry"@)
    } else if contains_seq(body, "You broke the rate limit"@) {
        Err("HN rate-limited the reply"@)
    } else {
        Ok(())
    }
}

/// Classifies HN's answer to a reply.
pub fn classify_post_reply_response(body: &str) -> (res: Result<(), String>)
    ensures
        result_view(res) == reply_outcome(body@),
{
    if str_contains(body, "Unknown or expired link") {
        return Err(String::from_str("reply link expired — try again"));
    }
    if str_contains(body, "Validation required") {
        return Err(String::from_str("HN requires a CAPTCHA — log in via the web UI first, then retry"));
    }
    if str_contains(body, "You broke the rate limit") {
        return Err(String::from_str("HN rate-limited the reply"));
    }
    Ok(())
}

/// Why an item page had no reply form: an empty answer, a login page, or
/// an item that takes no replies.
pub open spec fn missing_form_cause(body: Seq<char>) -> Seq<char> {
    if crate::theme::trim(body).len() == 0 {
        "HN returned an empty response — likely a transient hiccup; try again"@
    } else if contains_seq(body, "name=\"acct\""@) || contains_seq(body, "name='acct'"@) {
        "HN redirected the GET to its login page — the cached session is probably stale. Try deleting the `session` line in hn-auth.toml and restarting, or re-paste a fresh cookie"@
    } else {
        "no comment box on the item page — replies may be disabled (locked, dead, or archived item), or HN changed its markup"@
    }
}

/// The cause to report when an item page had no reply form.
pub fn classify_missing_reply_form(body: &str) -> (res: &'static str)
    ensures
        res@ == missing_form_cause(body@),
{
    let b = crate::text::chars_of(body);
    let trimmed = crate::theme::trim_chars(&b);
    if trimmed.len() == 0 {
        "HN returned an empty response — likely a transient hiccup; try again"
    } else if str_contains(body, "name=\"acct\"") || str_contains(body, "name='acct'") {
        "HN redirected the GET to its login page — the cached session is probably stale. Try deleting the `session` line in hn-auth.toml and restarting, or re-paste a fresh cookie"
    } else {
        "no comment box on the item page — replies may be disabled (locked, dead, or archived item), or HN changed its markup"
    }
}

/// The result of the startup login attempt.
#[derive(Debug, Clone)]
pub enum StartupLoginStatus {
    /// No password login was attempted.
    NotAttempted,
    /// Password login succeeded.
    Success { username: String },
    /// HN replied `Bad login.`.
    BadLogin,
    /// HN served a captcha.
    Captcha,
    /// Any other error, with its message.
    Other(String),
}

impl StartupLoginStatus {
    /// Classifies a login error by its message: `Bad login` and `captcha`
    /// are recognised, anything else is kept as is.
    pub fn from_login_error(msg: &str) -> (res: StartupLoginStatus)
        ensures
            contains_seq(msg@, "Bad login"@) ==> res is BadLogin,
            !contains_seq(msg@, "Bad login"@) && contains_seq(msg@, "captcha"@) ==> res is Captcha,
            !contains_seq(msg@, "Bad login"@) && !contains_seq(msg@, "captcha"@) ==> (res matches StartupLoginStatus::Other(m) && m@ == msg@),
    {
        if str_contains(msg, "Bad login") {
            StartupLoginStatus::BadLogin
        } else if str_contains(msg, "captcha") {
            StartupLoginStatus::Captcha
        } else {
            StartupLoginStatus::Other(String::from_str(msg))
        }
    }
}

/// The value of a `user=` cookie in a `Set-Cookie` header: what follows
/// `user=`, up to the first `;`.
pub open spec fn cookie_value(h: Seq<char>) -> Seq<char> {
    let k = find_char(h, ';', 5);
    if k >= 0 {
        h.subrange(5, k)
    } else {
        h.subrange(5, h.len() as int)
    }
}

/// The session cookie set by HN's answer to a login: the value in the
/// first `Set-Cookie` header that sets `user`.
pub open spec fn session_cookie_of(headers: Seq<Seq<char>>) -> Option<Seq<char>>
    decreases headers.len(),
{
    if headers.len() == 0 {
        None
    } else if occurs_at(headers[0], "user="@, 0) {
        Some(cookie_value(headers[0]))
    } else {
        session_cookie_of(headers.skip(1))
    }
}

/// The characters of a list of strings.
pub open spec fn texts_view(v: Seq<String>) -> Seq<Seq<char>> {
    v.map_values(|h: String| h@)
}

/// The session cookie in the `Set-Cookie` headers of a login answer.
pub fn session_cookie(headers: &Vec<String>) -> (res: Option<String>)
    ensures
        match res {
            Some(c) => session_cookie_of(texts_view(headers@)) == Some(c@),
            None => session_cookie_of(texts_view(headers@)) is None,
        },
{
    let ghost hv = texts_view(headers@);
    let kw = crate::text::chars_of("user=");
    proof {
        reveal_strlit("user=");
    }
    let mut i: usize = 0;
    assert(hv.skip(0) =~= hv);
    while i < headers.len()
        invariant
            i <= headers.len(),
            hv == texts_view(headers@),
            kw@ == "user="@,
            kw@.len() == 5,
            session_cookie_of(hv) == session_cookie_of(hv.skip(i as int)),
        decreases headers.len() - i,
    {
        let h = crate::text::chars_of(headers[i].as_str());
        assert(hv.skip(i as int)[0] == h@);
        assert(hv.skip(i as int).skip(1) =~= hv.skip(i + 1));
        if occurs_at_exec(&h, &kw, 0) {
            let end = match find_char_exec(&h, ';', 5) {
                Some(k) => k,
                None => h.len(),
            };
            proof {
                crate::markup::lemma_find_char_bounds(h@, ';', 5);
            }
            let mut v: Vec<char> = Vec::new();
            let mut j: usize = 5;
            while j < end
                invariant
                    5 <= j <= end <= h@.len(),
                    v@ == h@.subrange(5, j as int),
                decreases end - j,
            {
                v.push(h[j]);
                j += 1;
                assert(v@ =~= h@.subrange(5, j as int));
            }
            let c = crate::text::string_of(v.as_slice());
            return Some(c);
        }
        i += 1;
    }
    None
}

/// Why an edit page had no edit form: an empty answer, or a comment that
/// cannot be edited.
pub open spec fn missing_edit_form_cause(body: Seq<char>) -> Seq<char> {
    if crate::theme::trim(body).len() == 0 {
        "HN returned an empty response — likely a transient hiccup; try again"@
    } else {
        "not your comment, edit window closed, or HN changed its markup"@
    }
}

/// The cause to report when an edit page had no edit form.
pub fn classify_missing_edit_form(body: &str) -> (res: &'static str)
    ensures
        res@ == missing_edit_form_cause(body@),
{
    let b = crate::text::chars_of(body);
    let trimmed = crate::theme::trim_chars(&b);
    if trimmed.len() == 0 {
        "HN returned an empty response — likely a transient hiccup; try again"
    } else {
        "not your comment, edit window closed, or HN changed its markup"
    }
}

/// Whether an edited comment differs from the text it had, leading and
/// trailing white space aside: only then is the edit submitted.
pub fn edit_changes_text(new_text: &str, old_text: &str) -> (res: bool)
    ensures
        res == (crate::theme::trim(new_text@) != crate::theme::trim(old_text@)),
{
    let a = crate::theme::trim_chars(&crate::text::chars_of(new_text));
    let b = crate::theme::trim_chars(&crate::text::chars_of(old_text));
    if a.len() != b.len() {
        assert(a@ != b@);
        return true;
    }
    let mut i: usize = 0;
    while i < a.len()
        invariant
            a@ == crate::theme::trim(new_text@),
            b@ == crate::theme::trim(old_text@),
            a.len() == b.len(),
            i <= a.len(),
            forall|j: int| 0 <= j < i ==> a@[j] == b@[j],
        decreases a.len() - i,
    {
        if a[i] != b[i] {
            assert(a@[i as int] != b@[i as int]);
            return true;
        }
        i += 1;
    }
    assert(a@ =~= b@);
    false
}

/// What the startup login tries first.
pub enum StartupLogin {
    /// No credentials: start logged out.
    Anonymous,
    /// Restore the cached session cookie; log in with the password if HN
    /// does not accept it.
    CachedSession(String),
    /// Log in with the password.
    Password,
}

/// The first step of the startup login: the cached session when the
/// credentials hold a non-empty one, the password otherwise, nothing
/// without credentials.
pub fn startup_login_plan(auth: &Option<Auth>) -> (res: StartupLogin)
    ensures
        auth is None <==> res is Anonymous,
        match auth {
            Some(a) => match a.session {
                Some(s) if s@.len() > 0 => res matches StartupLogin::CachedSession(c) && c@ == s@,
                _ => res is Password,
            },
            None => true,
        },
{
    match auth {
        None => StartupLogin::Anonymous,
        Some(a) => match &a.session {
            Some(s) => if s.as_str().is_empty() {
                StartupLogin::Password
            } else {
                StartupLogin::CachedSession(String::from_str(s.as_str()))
            },
            None => StartupLogin::Password,
        },
    }
}

/// The characters of an optional string.
pub open spec fn opt_chars(o: Option<String>) -> Option<Seq<char>> {
    match o {
        Some(s) => Some(s@),
        None => None,
    }
}

/// The credentials to write back after a password login: the same
/// username and password with the fresh session cookie, when that differs
/// from the cached one; nothing otherwise.
pub fn auth_to_save(auth: &Auth, fresh: &Option<String>) -> (res: Option<Auth>)
    ensures
        res is Some <==> opt_chars(*fresh) != opt_chars(auth.session),
        res matches Some(a) ==> a.username@ == auth.username@ && a.password@ == auth.password@ && opt_chars(
            a.session,
        ) == opt_chars(*fresh),
{
    let same = match (fresh, &auth.session) {
        (Some(x), Some(y)) => crate::query::str_eq(x.as_str(), y.as_str()),
        (None, None) => true,
        _ => false,
    };
    if same {
        None
    } else {
        let session = match fresh {
            Some(x) => Some(String::from_str(x.as_str())),
            None => None,
        };
        Some(
            Auth {
                username: String::from_str(auth.username.as_str()),
                password: String::from_str(auth.password.as_str()),
                session,
            },
        )
    }
}

/// How a login error is reported at startup: `Bad login` and `captcha`
/// are recognised, any other message is kept as it is.
pub open spec fn reports_login_error(msg: Seq<char>, st: StartupLoginStatus) -> bool {
    if contains_seq(msg, "Bad login"@) {
        st is BadLogin
    } else if contains_seq(msg, "captcha"@) {
        st is Captcha
    } else {
        st matches StartupLoginStatus::Other(m) && m@ == msg
    }
}

/// Where the startup login stands.
#[derive(Debug, Clone, Copy, PartialEq, Eq, Structural)]
pub enum StartupStage {
    Start,
    CheckingSession,
    LoggingIn,
    Finished,
}

/// The startup login: the credentials read from the auth file, and where
/// the login stands.
pub struct StartupLoginFlow {
    pub auth: Option<Auth>,
    pub stage: StartupStage,
}

/// What the program reports to the startup login.
pub enum StartupEvent {
    /// The program starts.
    Begin,
    /// Whether Hacker News accepted the cached session cookie.
    SessionChecked(bool),
    /// Hacker News' answer to the password login, and the session cookie
    /// the client then holds.
    LoginAnswered(Result<(), String>, Option<String>),
}

/// What the startup login asks of the program.
pub enum StartupAction {
    /// Check the cached session cookie with Hacker News.
    CheckSession(String),
    /// Log in with the password, on a fresh client.
    LogIn { username: String, password: String },
    /// The login is over: whether the client is logged in, the status to
    /// report, and the credentials to write back, if any.
    Finish { logged_in: bool, status: StartupLoginStatus, save: Option<Auth> },
    /// Nothing to do: the event came out of turn.
    Wait,
}

impl StartupLoginFlow {
    /// Credentials are at hand wherever a login is under way.
    pub open spec fn wf(&self) -> bool {
        (self.stage == StartupStage::CheckingSession || self.stage == StartupStage::LoggingIn) ==> self.auth is Some
    }

    /// A startup login that has not begun.
    pub fn new(auth: Option<Auth>) -> (res: StartupLoginFlow)
        ensures
            res.auth == auth,
            res.stage == StartupStage::Start,
            res.wf(),
    {
        StartupLoginFlow { auth, stage: StartupStage::Start }
    }

    /// The next step of the startup login. Without credentials it finishes
    /// logged out at once. A non-empty cached session is checked first and
    /// kept when Hacker News accepts it; otherwise, or without one, one
    /// password login follows. A successful login finishes logged in,
    /// writing the credentials back only when the session cookie changed;
    /// a failed one finishes logged out with its error classified.
    pub fn step(&mut self, event: StartupEvent) -> (res: StartupAction)
        requires
            old(self).wf(),
        ensures
            final(self).wf(),
            final(self).auth == old(self).auth,
            match (old(self).stage, event) {
                (StartupStage::Start, StartupEvent::Begin) => match old(self).auth {
                    None => {
                        &&& res matches StartupAction::Finish { logged_in, status, save }
                        &&& !logged_in && status is NotAttempted && save is None
                        &&& final(self).stage == StartupStage::Finished
                    },
                    Some(a) => match a.session {
                        Some(s) if s@.len() > 0 => {
                            &&& res matches StartupAction::CheckSession(c) && c@ == s@
                            &&& final(self).stage == StartupStage::CheckingSession
                        },
                        _ => {
                            &&& res matches StartupAction::LogIn { username, password }
                            &&& username@ == a.username@ && password@ == a.password@
                            &&& final(self).stage == StartupStage::LoggingIn
                        },
                    },
                },
                (StartupStage::CheckingSession, StartupEvent::SessionChecked(true)) => {
                    &&& res matches StartupAction::Finish { logged_in, status, save }
                    &&& logged_in && status is NotAttempted && save is None
                    &&& final(self).stage == StartupStage::Finished
                },
                (StartupStage::CheckingSession, StartupEvent::SessionChecked(false)) => {
                    &&& res matches StartupAction::LogIn { username, password }
                    &&& username@ == old(self).auth.unwrap().username@
                    &&& password@ == old(self).auth.unwrap().password@
                    &&& final(self).stage == StartupStage::LoggingIn
                },
                (StartupStage::LoggingIn, StartupEvent::LoginAnswered(Ok(()), fresh)) => {
                    let a = old(self).auth.unwrap();
                    &&& res matches StartupAction::Finish { logged_in, status, save }
                    &&& logged_in
                    &&& status matches StartupLoginStatus::Success { username } && username@ == a.username@
                    &&& (save is Some <==> opt_chars(fresh) != opt_chars(a.session))
                    &&& save matches Some(b) ==> b.username@ == a.username@ && b.password@ == a.password@
                        && opt_chars(b.session) == opt_chars(fresh)
                    &&& final(self).stage == StartupStage::Finished
                },
                (StartupStage::LoggingIn, StartupEvent::LoginAnswered(Err(err), _)) => {
                    &&& res matches StartupAction::Finish { logged_in, status, save }
                    &&& !logged_in && reports_login_error(err@, status) && save is None
                    &&& final(self).stage == StartupStage::Finished
                },
                _ => res is Wait && final(self).stage == old(self).stage,
            },
    {
        match (self.stage, event) {
            (StartupStage::Start, StartupEvent::Begin) => match startup_login_plan(&self.auth) {
                StartupLogin::Anonymous => {
                    self.stage = StartupStage::Finished;
                    StartupAction::Finish { logged_in: false, status: StartupLoginStatus::NotAttempted, save: None }
                },
                StartupLogin::CachedSession(s) => {
                    self.stage = StartupStage::CheckingSession;
                    StartupAction::CheckSession(s)
                },
                StartupLogin::Password => {
                    self.stage = StartupStage::LoggingIn;
                    self.password_login()
                },
            },
            (StartupStage::CheckingSession, StartupEvent::SessionChecked(ok)) => if ok {
                self.stage = StartupStage::Finished;
                StartupAction::Finish { logged_in: true, status: StartupLoginStatus::NotAttempted, save: None }
            } else {
                self.stage = StartupStage::LoggingIn;
                self.password_login()
            },
            (StartupStage::LoggingIn, StartupEvent::LoginAnswered(answer, fresh)) => {
                self.stage = StartupStage::Finished;
                match &self.auth {
                    Some(a) => match answer {
                        Ok(()) => StartupAction::Finish {
                            logged_in: true,
                            status: StartupLoginStatus::Success { username: String::from_str(a.username.as_str()) },
                            save: auth_to_save(a, &fresh),
                        },
                        Err(err) => StartupAction::Finish {
                            logged_in: false,
                            status: StartupLoginStatus::from_login_error(err.as_str()),
                            save: None,
                        },
                    },
                    None => StartupAction::Wait,
                }
            },
            _ => StartupAction::Wait,
        }
    }

    /// The password login with the credentials at hand.
    fn password_login(&self) -> (res: StartupAction)
        requires
            self.auth is Some,
        ensures
            res matches StartupAction::LogIn { username, password } && username@ == self.auth.unwrap().username@
                && password@ == self.auth.unwrap().password@,
    {
        match &self.auth {
            Some(a) => StartupAction::LogIn {
                username: String::from_str(a.username.as_str()),
                password: String::from_str(a.password.as_str()),
            },
            None => StartupAction::Wait,
        }
    }
}

/// The query fragment that asks HN to show dead items, after `sep`, when
/// the viewer's `showdead` preference is on; empty otherwise.
pub fn showdead_query_suffix(sep: &str, showdead: bool) -> (res: String)
    ensures
        res@ == (if showdead {
            sep@ + "showdead=yes"@
        } else {
            Seq::empty()
        }),
{
    if showdead {
        let mut s = String::from_str(sep);
        s.append("showdead=yes");
        s
    } else {
        String::new()
    }
}

/// The HN listing path that shows the items of a story view with their
/// vote links: `news`, `ask`, `show`, and `newest` for stories by date.
pub open spec fn listing_path(tag: Seq<char>, sort_mode: StorySortMode) -> Option<Seq<char>> {
    if tag == "front_page"@ {
        Some("news"@)
    } else if tag == "ask_hn"@ {
        Some("ask"@)
    } else if tag == "show_hn"@ {
        Some("show"@)
    } else if tag == "story"@ && sort_mode == StorySortMode::Date {
        Some("newest"@)
    } else {
        None
    }
}

/// The HN listing path for a story view, if HN has one.
pub fn listing_path_for_view(tag: &str, sort_mode: StorySortMode) -> (res: Option<&'static str>)
    ensures
        match res {
            Some(p) => listing_path(tag@, sort_mode) == Some(p@),
            None => listing_path(tag@, sort_mode) is None,
        },
{
    if crate::query::str_eq(tag, "front_page") {
        Some("news")
    } else if crate::query::str_eq(tag, "ask_hn") {
        Some("ask")
    } else if crate::query::str_eq(tag, "show_hn") {
        Some("show")
    } else if crate::query::str_eq(tag, "story") && sort_mode == StorySortMode::Date {
        Some("newest")
    } else {
        None
    }
}

/// Items per page on HN's own listing pages.
pub const HN_LISTING_PAGE_SIZE: usize = 30;

/// The HN listing pages (1-based, inclusive) that hold the items of a TUI
/// page (0-based) of `page_size` items; a page size of 0 counts as 1.
pub open spec fn listing_pages(page: nat, page_size: nat) -> (nat, nat) {
    let size = if page_size == 0 {
        1
    } else {
        page_size
    };
    ((size * page) / 30 + 1, (size * (page + 1) - 1) as nat / 30 + 1)
}

/// The range of HN listing pages to fetch for a TUI page.
pub fn hn_listing_pages_for_tui_page(page: usize, page_size: usize) -> (res: (usize, usize))
    requires
        (if page_size == 0 {
            1
        } else {
            page_size as int
        }) * (page + 1) <= usize::MAX,
    ensures
        (res.0 as nat, res.1 as nat) == listing_pages(page as nat, page_size as nat),
{
    let size = if page_size == 0 {
        1
    } else {
        page_size
    };
    assert(size * (page + 1) <= usize::MAX);
    assert(page + 1 <= size * (page + 1)) by (nonlinear_arith)
        requires
            size >= 1,
    ;
    assert(size * page <= size * (page + 1)) by (nonlinear_arith)
        requires
            size >= 1,
    ;
    assert(size * (page + 1) >= 1) by (nonlinear_arith)
        requires
            size >= 1,
    ;
    let start_item = size * page;
    let end_item = size * (page + 1) - 1;
    (start_item / HN_LISTING_PAGE_SIZE + 1, end_item / HN_LISTING_PAGE_SIZE + 1)
}

/// A quote character of an HTML attribute.
pub open spec fn is_quote(c: char) -> bool {
    c == '\'' || c == '"'
}

/// The end of the run of non-quote characters that starts at `j`.
pub open spec fn quote_free_end(t: Seq<char>, j: int) -> int
    decreases t.len() - j,
{
    if 0 <= j < t.len() && !is_quote(t[j]) {
        quote_free_end(t, j + 1)
    } else {
        j
    }
}

/// `name=`, a quote, `name` and a quote at `i`: the index after them.
pub open spec fn name_attr_end(t: Seq<char>, i: int, name: Seq<char>) -> Option<int> {
    let q = i + 6 + name.len();
    if occurs_at(t, "name="@, i) && 0 <= i + 5 < t.len() && is_quote(t[i + 5]) && occurs_at(t, name, i + 6) && q < t.len()
        && is_quote(t[q]) {
        Some(q + 1)
    } else {
        None
    }
}

/// `value=`, a quote, a non-empty quote-free value and a quote at `v`: the
/// value's range.
pub open spec fn value_attr_at(t: Seq<char>, v: int) -> Option<(int, int)> {
    if occurs_at(t, "value="@, v) && v + 6 < t.len() && is_quote(t[v + 6]) {
        let r = quote_free_end(t, v + 7);
        if r > v + 7 && r < t.len() && is_quote(t[r]) {
            Some((v + 7, r))
        } else {
            None
        }
    } else {
        None
    }
}

/// The last `value=` attribute at or below `v`, down to `p`, that fits.
pub open spec fn value_attr_back(t: Seq<char>, p: int, v: int) -> Option<(int, int)>
    decreases v - p + 1,
{
    if v < p {
        None
    } else if let Some(r) = value_attr_at(t, v) {
        Some(r)
    } else {
        value_attr_back(t, p, v - 1)
    }
}

/// The last index before the first `>` at or after `p` (or before the end).
pub open spec fn before_tag_end(t: Seq<char>, p: int) -> int {
    let g = find_char(t, '>', p);
    if g < 0 {
        t.len() - 1
    } else {
        g - 1
    }
}

/// A hidden input named `name` at `i`: the range of its value; the last
/// `value=` of the tag wins.
pub open spec fn hidden_input_at(t: Seq<char>, i: int, name: Seq<char>) -> Option<(int, int)> {
    match name_attr_end(t, i, name) {
        Some(p) => value_attr_back(t, p, before_tag_end(t, p)),
        None => None,
    }
}

pub open spec fn hidden_input_finder(t: Seq<char>, name: Seq<char>) -> spec_fn(int) -> Option<(int, int)> {
    |i: int| hidden_input_at(t, i, name)
}

/// The value of the first `<input name="NAME" ... value="...">` in `body`.
pub open spec fn hidden_input_value(body: Seq<char>, name: Seq<char>) -> Option<Seq<char>> {
    match crate::scan::first_from(body.len() as int, hidden_input_finder(body, name), 0) {
        Some((_, (a, b))) => Some(body.subrange(a, b)),
        None => None,
    }
}

fn quote_free_end_exec(t: &Vec<char>, j: usize) -> (res: usize)
    ensures
        res as int == quote_free_end(t@, j as int),
{
    let mut k = j;
    while k < t.len() && t[k] != '\'' && t[k] != '"'
        invariant
            j <= k,
            quote_free_end(t@, j as int) == quote_free_end(t@, k as int),
        decreases t.len() - k,
    {
        k += 1;
    }
    k
}

proof fn lemma_quote_free_end(t: Seq<char>, j: int)
    ensures
        j <= quote_free_end(t, j),
        0 <= j <= t.len() ==> quote_free_end(t, j) <= t.len(),
    decreases t.len() - j,
{
    if 0 <= j < t.len() && !is_quote(t[j]) {
        lemma_quote_free_end(t, j + 1);
    }
}

fn name_attr_end_exec(t: &Vec<char>, i: usize, name: &Vec<char>) -> (res: Option<usize>)
    ensures
        match res {
            Some(p) => name_attr_end(t@, i as int, name@) == Some(p as int),
            None => name_attr_end(t@, i as int, name@) is None,
        },
{
    let kw = crate::text::chars_of("name=");
    proof {
        reveal_strlit("name=");
    }
    if !occurs_at_exec(t, &kw, i) {
        return None;
    }
    if i + 5 >= t.len() || !(t[i + 5] == '\'' || t[i + 5] == '"') {
        return None;
    }
    if !occurs_at_exec(t, name, i + 6) {
        return None;
    }
    let q = i + 6 + name.len();
    if q < t.len() && (t[q] == '\'' || t[q] == '"') {
        Some(q + 1)
    } else {
        None
    }
}

fn value_attr_at_exec(t: &Vec<char>, v: usize) -> (res: Option<(usize, usize)>)
    ensures
        match res {
            Some((a, b)) => value_attr_at(t@, v as int) == Some((a as int, b as int)),
            None => value_attr_at(t@, v as int) is None,
        },
{
    let kw = crate::text::chars_of("value=");
    proof {
        reveal_strlit("value=");
    }
    if occurs_at_exec(t, &kw, v) && v + 6 < t.len() && (t[v + 6] == '\'' || t[v + 6] == '"') {
        let r = quote_free_end_exec(t, v + 7);
        if r > v + 7 && r < t.len() && (t[r] == '\'' || t[r] == '"') {
            Some((v + 7, r))
        } else {
            None
        }
    } else {
        None
    }
}

fn hidden_input_at_exec(t: &Vec<char>, i: usize, name: &Vec<char>) -> (res: Option<(usize, usize)>)
    ensures
        match res {
            Some((a, b)) => hidden_input_at(t@, i as int, name@) == Some((a as int, b as int)),
            None => hidden_input_at(t@, i as int, name@) is None,
        },
{
    let p = match name_attr_end_exec(t, i, name) {
        Some(p) => p,
        None => return None,
    };
    assert(name_attr_end(t@, i as int, name@) == Some(p as int));
    assert(hidden_input_at(t@, i as int, name@) == value_attr_back(t@, p as int, before_tag_end(t@, p as int)));
    proof {
        crate::markup::lemma_find_char_bounds(t@, '>', p as int);
    }
    let hi: usize = match find_char_exec(t, '>', p) {
        Some(g) => g,
        None => t.len(),
    };
    // candidates are tried from the last one before the tag's end down to `p`
    let mut v = hi;
    while v > p
        invariant
            p <= v <= t@.len(),
            hidden_input_at(t@, i as int, name@) == value_attr_back(t@, p as int, before_tag_end(t@, p as int)),
            value_attr_back(t@, p as int, before_tag_end(t@, p as int)) == value_attr_back(t@, p as int, v - 1),
        decreases v,
    {
        if let Some(r) = value_attr_at_exec(t, v - 1) {
            assert(value_attr_back(t@, p as int, v - 1) == Some((r.0 as int, r.1 as int)));
            return Some(r);
        }
        v -= 1;
    }
    assert(value_attr_back(t@, p as int, p - 1) is None);
    None
}

/// The value of the first `<input name="NAME" ... value="...">` of `body`
/// (either quote style), if any.
pub fn extract_hidden_input(body: &str, name: &str) -> (res: Option<String>)
    ensures
        match res {
            Some(v) => hidden_input_value(body@, name@) == Some(v@),
            None => hidden_input_value(body@, name@) is None,
        },
{
    let t = crate::text::chars_of(body);
    let n = crate::text::chars_of(name);
    let mut i: usize = 0;
    while i < t.len()
        invariant
            t@ == body@,
            n@ == name@,
            crate::scan::first_from(t@.len() as int, hidden_input_finder(t@, n@), 0) == crate::scan::first_from(
                t@.len() as int,
                hidden_input_finder(t@, n@),
                i as int,
            ),
        decreases t.len() - i,
    {
        if let Some((a, b)) = hidden_input_at_exec(&t, i, &n) {
            assert(crate::scan::first_from(t@.len() as int, hidden_input_finder(t@, n@), i as int) == Some(
                (i as int, (a as int, b as int)),
            ));
            proof {
                lemma_hidden_range(t@, i as int, n@);
            }
            return Some(crate::scan::range_string(&t, a, b));
        }
        i += 1;
    }
    None
}

proof fn lemma_value_back(t: Seq<char>, p: int, v: int)
    ensures
        value_attr_back(t, p, v) matches Some((a, b)) ==> 0 <= a <= b <= t.len(),
    decreases v - p + 1,
{
    reveal_strlit("value=");
    if v >= p {
        lemma_quote_free_end(t, v + 7);
        if value_attr_at(t, v) is None {
            lemma_value_back(t, p, v - 1);
        }
    }
}

proof fn lemma_hidden_range(t: Seq<char>, i: int, name: Seq<char>)
    ensures
        hidden_input_at(t, i, name) matches Some((a, b)) ==> 0 <= a <= b <= t.len(),
{
    if let Some(p) = name_attr_end(t, i, name) {
        lemma_value_back(t, p, before_tag_end(t, p));
    }
}

/// The `hmac` token of HN's reply form, if the page has one.
pub fn parse_reply_form(body: &str) -> (res: Option<String>)
    ensures
        match res {
            Some(v) => hidden_input_value(body@, "hmac"@) == Some(v@),
            None => hidden_input_value(body@, "hmac"@) is None,
        },
{
    extract_hidden_input(body, "hmac")
}

/// `name=`, a quote, `name`, a quote at `n`, then the rest of the tag and
/// the text up to the first `</textarea>`: the text's range.
pub open spec fn textarea_tail(t: Seq<char>, n: int, name: Seq<char>) -> Option<(int, int)> {
    match name_attr_end(t, n, name) {
        Some(e) => {
            let g = find_char(t, '>', e);
            if g >= 0 {
                let k = find_from(t, "</textarea>"@, g + 1);
                if k >= 0 {
                    Some((g + 1, k))
                } else {
                    None
                }
            } else {
                None
            }
        },
        None => None,
    }
}

/// The last `name=` attribute at or below `v`, down to `p`, that fits.
pub open spec fn textarea_back(t: Seq<char>, p: int, v: int, name: Seq<char>) -> Option<(int, int)>
    decreases v - p + 1,
{
    if v < p {
        None
    } else if let Some(r) = textarea_tail(t, v, name) {
        Some(r)
    } else {
        textarea_back(t, p, v - 1, name)
    }
}

/// A `<textarea ... name="NAME" ...>TEXT</textarea>` at `i`: the range of
/// its text; the last `name=` of the tag that fits wins.
pub open spec fn textarea_at(t: Seq<char>, i: int, name: Seq<char>) -> Option<(int, int)> {
    if occurs_at(t, "<textarea"@, i) {
        textarea_back(t, i + 9, before_tag_end(t, i + 9), name)
    } else {
        None
    }
}

pub open spec fn textarea_finder(t: Seq<char>, name: Seq<char>) -> spec_fn(int) -> Option<(int, int)> {
    |i: int| textarea_at(t, i, name)
}

/// The text of the first `<textarea name="NAME">` of `body`.
pub open spec fn textarea_value(body: Seq<char>, name: Seq<char>) -> Option<Seq<char>> {
    match crate::scan::first_from(body.len() as int, textarea_finder(body, name), 0) {
        Some((_, (a, b))) => Some(body.subrange(a, b)),
        None => None,
    }
}

proof fn lemma_textarea_back(t: Seq<char>, p: int, v: int, name: Seq<char>)
    ensures
        textarea_back(t, p, v, name) matches Some((a, b)) ==> 0 <= a <= b <= t.len(),
    decreases v - p + 1,
{
    reveal_strlit("</textarea>");
    if v >= p {
        if let Some(e) = name_attr_end(t, v, name) {
            crate::markup::lemma_find_char_bounds(t, '>', e);
            crate::markup::lemma_find_from_bounds(t, "</textarea>"@, find_char(t, '>', e) + 1);
        }
        if textarea_tail(t, v, name) is None {
            lemma_textarea_back(t, p, v - 1, name);
        }
    }
}

fn textarea_tail_exec(t: &Vec<char>, n: usize, name: &Vec<char>, close: &Vec<char>) -> (res: Option<(usize, usize)>)
    requires
        close@ == "</textarea>"@,
    ensures
        match res {
            Some((a, b)) => textarea_tail(t@, n as int, name@) == Some((a as int, b as int)),
            None => textarea_tail(t@, n as int, name@) is None,
        },
{
    proof {
        reveal_strlit("</textarea>");
    }
    match name_attr_end_exec(t, n, name) {
        Some(e) => {
            proof {
                crate::markup::lemma_find_char_bounds(t@, '>', e as int);
            }
            match find_char_exec(t, '>', e) {
                Some(g) => match find_from_exec(t, close, g + 1) {
                    Some(k) => Some((g + 1, k)),
                    None => None,
                },
                None => None,
            }
        },
        None => None,
    }
}

fn textarea_at_exec(t: &Vec<char>, i: usize, name: &Vec<char>, open: &Vec<char>, close: &Vec<char>) -> (res: Option<(usize, usize)>)
    requires
        open@ == "<textarea"@,
        close@ == "</textarea>"@,
    ensures
        match res {
            Some((a, b)) => textarea_at(t@, i as int, name@) == Some((a as int, b as int)),
            None => textarea_at(t@, i as int, name@) is None,
        },
{
    proof {
        reveal_strlit("<textarea");
    }
    if !occurs_at_exec(t, open, i) {
        return None;
    }
    let p = i + 9;
    proof {
        crate::markup::lemma_find_char_bounds(t@, '>', p as int);
    }
    let hi: usize = match find_char_exec(t, '>', p) {
        Some(g) => g,
        None => t.len(),
    };
    let mut v = hi;
    while v > p
        invariant
            p <= v <= t@.len(),
            p == i + 9,
            close@ == "</textarea>"@,
            textarea_at(t@, i as int, name@) == textarea_back(t@, p as int, before_tag_end(t@, p as int), name@),
            textarea_back(t@, p as int, before_tag_end(t@, p as int), name@) == textarea_back(t@, p as int, v - 1, name@),
        decreases v,
    {
        if let Some(r) = textarea_tail_exec(t, v - 1, name, close) {
            assert(textarea_back(t@, p as int, v - 1, name@) == Some((r.0 as int, r.1 as int)));
            return Some(r);
        }
        v -= 1;
    }
    None
}

/// The text of the first `<textarea ... name="NAME" ...>` of `body`.
pub fn extract_textarea(body: &str, name: &str) -> (res: Option<String>)
    ensures
        match res {
            Some(v) => textarea_value(body@, name@) == Some(v@),
            None => textarea_value(body@, name@) is None,
        },
{
    let t = crate::text::chars_of(body);
    let n = crate::text::chars_of(name);
    let open = crate::text::chars_of("<textarea");
    let close = crate::text::chars_of("</textarea>");
    let mut i: usize = 0;
    while i < t.len()
        invariant
            t@ == body@,
            n@ == name@,
            open@ == "<textarea"@,
            close@ == "</textarea>"@,
            crate::scan::first_from(t@.len() as int, textarea_finder(t@, n@), 0) == crate::scan::first_from(
                t@.len() as int,
                textarea_finder(t@, n@),
                i as int,
            ),
        decreases t.len() - i,
    {
        if let Some((a, b)) = textarea_at_exec(&t, i, &n, &open, &close) {
            assert(crate::scan::first_from(t@.len() as int, textarea_finder(t@, n@), i as int) == Some(
                (i as int, (a as int, b as int)),
            ));
            proof {
                reveal_strlit("<textarea");
                lemma_textarea_back(t@, i + 9, before_tag_end(t@, i + 9), n@);
            }
            return Some(crate::scan::range_string(&t, a, b));
        }
        i += 1;
    }
    None
}

} // verus!
