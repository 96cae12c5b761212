//! Configuration flavors, the embedded default configurations, the
//! authentication record, and the answers of the first-run prompts.

use vstd::prelude::*;
use crate::keymap::KeyMap;
use crate::theme::{trim, trim_chars, Theme};

verus! {

/// The default configuration with the light theme.
pub const LIGHT_CONFIG: &'static str = "# hackernews-tim configuration (light theme)
use_page_scrolling = true
use_pacman_loading = true
use_hn_topcolor = true
client_timeout = 32

[url_open_command]
command = \"xdg-open\"
options = []

[article_parse_command]
command = \"article_md\"
options = [\"--format\", \"html\"]

[theme.palette]
background = \"#f6f6ef\"
foreground = \"#242424\"
selection_background = \"#d8dad6\"
selection_foreground = \"#4a4c4c\"
black = \"#000000\"
blue = \"#0000aa\"
cyan = \"#00aaaa\"
green = \"#00aa00\"
magenta = \"#aa00aa\"
red = \"#aa0000\"
white = \"#aaaaaa\"
yellow = \"#aaaa00\"
light_black = \"#555555\"
light_white = \"#ffffff\"
light_red = \"#ff5555\"
light_magenta = \"#5555ff\"
light_green = \"#55ff55\"
light_cyan = \"#55ffff\"
light_blue = \"#5555ff\"
light_yellow = \"#ffff55\"

[theme.component_style]
title_bar = { back = \"#ff6600\", effect = \"bold\" }
link = { front = \"#4fbbfd\" }
metadata = { front = \"#828282\" }
";

/// The default configuration with the dark theme.
pub const DARK_CONFIG: &'static str = "# hackernews-tim configuration (dark theme)
use_page_scrolling = true
use_pacman_loading = true
use_hn_topcolor = true
client_timeout = 32

[url_open_command]
command = \"xdg-open\"
options = []

[article_parse_command]
command = \"article_md\"
options = [\"--format\", \"html\"]

[theme.palette]
background = \"#1d1f21\"
foreground = \"#c5c8c6\"
selection_background = \"#373b41\"
selection_foreground = \"#c5c8c6\"
black = \"#1d1f21\"
blue = \"#81a2be\"
cyan = \"#8abeb7\"
green = \"#b5bd68\"
magenta = \"#b294bb\"
red = \"#cc6666\"
white = \"#c5c8c6\"
yellow = \"#f0c674\"
light_black = \"#969896\"
light_white = \"#ffffff\"
light_red = \"#d54e53\"
light_magenta = \"#c397d8\"
light_green = \"#b9ca4a\"
light_cyan = \"#70c0b1\"
light_blue = \"#7aa6da\"
light_yellow = \"#e7c547\"

[theme.component_style]
title_bar = { back = \"#ff6600\", effect = \"bold\" }
link = { front = \"#7aa6da\" }
metadata = { front = \"#969896\" }
";

/// A flavor of the default configuration.
#[derive(Debug, Clone, Copy, PartialEq, Eq, Structural)]
pub enum ConfigFlavor {
    Light,
    Dark,
}

impl ConfigFlavor {
    /// The text of the embedded default configuration of the flavor.
    pub open spec fn contents_spec(self) -> Seq<char> {
        match self {
            ConfigFlavor::Light => LIGHT_CONFIG@,
            ConfigFlavor::Dark => DARK_CONFIG@,
        }
    }

    /// The embedded default configuration of the flavor.
    pub fn contents(self) -> (res: &'static str)
        ensures
            res@ == (match self {
                ConfigFlavor::Light => LIGHT_CONFIG@,
                ConfigFlavor::Dark => DARK_CONFIG@,
            }),
    {
        match self {
            ConfigFlavor::Light => LIGHT_CONFIG,
            ConfigFlavor::Dark => DARK_CONFIG,
        }
    }

    /// Parses a flavor name, ignoring ASCII case (`light` or `dark`).
    pub fn parse_flavor(s: &str) -> (res: Result<ConfigFlavor, String>)
        ensures
            lower_text(s@) == "light"@ ==> res == Ok::<ConfigFlavor, String>(ConfigFlavor::Light),
            lower_text(s@) == "dark"@ ==> res == Ok::<ConfigFlavor, String>(ConfigFlavor::Dark),
            lower_text(s@) != "light"@ && lower_text(s@) != "dark"@ ==> (res matches Err(e) && e@
                == "unknown config flavor '"@ + lower_text(s@) + "' (expected 'light' or 'dark')"@),
    {
        let lowered = to_ascii_lower(s);
        proof {
            reveal_strlit("light");
            reveal_strlit("dark");
            assert("light"@.len() != "dark"@.len());
            assert("light"@ != "dark"@);
        }
        if crate::query::str_eq(lowered.as_str(), "light") {
            Ok(ConfigFlavor::Light)
        } else if crate::query::str_eq(lowered.as_str(), "dark") {
            Ok(ConfigFlavor::Dark)
        } else {
            let mut e = String::from_str("unknown config flavor '");
            e.append(lowered.as_str());
            e.append("' (expected 'light' or 'dark')");
            Err(e)
        }
    }
}

impl std::str::FromStr for ConfigFlavor {
    type Err = String;

    fn from_str(s: &str) -> (res: Result<ConfigFlavor, String>)
        ensures
            lower_text(s@) == "light"@ ==> res == Ok::<ConfigFlavor, String>(ConfigFlavor::Light),
            lower_text(s@) == "dark"@ ==> res == Ok::<ConfigFlavor, String>(ConfigFlavor::Dark),
            lower_text(s@) != "light"@ && lower_text(s@) != "dark"@ ==> (res matches Err(e) && e@
                == "unknown config flavor '"@ + lower_text(s@) + "' (expected 'light' or 'dark')"@),
    {
        ConfigFlavor::parse_flavor(s)
    }
}

/// A text with ASCII letters lowered.
pub open spec fn lower_text(s: Seq<char>) -> Seq<char> {
    s.map_values(|c: char| crate::find::ascii_lower(c))
}

/// Lowers the ASCII letters of a text (`str::to_ascii_lowercase`).
pub fn to_ascii_lower(s: &str) -> (res: String)
    ensures
        res@ == lower_text(s@),
{
    let chars = crate::text::chars_of(s);
    let mut out: Vec<char> = Vec::new();
    let mut i: usize = 0;
    while i < chars.len()
        invariant
            i <= chars.len(),
            out@ == lower_text(chars@.take(i as int)),
        decreases chars.len() - i,
    {
        let c = chars[i];
        let l = if 'A' <= c && c <= 'Z' {
            ((c as u8) + 32) as char
        } else {
            c
        };
        out.push(l);
        assert(out@ =~= lower_text(chars@.take(i + 1)));
        i += 1;
    }
    assert(chars@.take(chars.len() as int) =~= chars@);
    crate::text::string_of(out.as_slice())
}

/// A command and its options, as the configuration gives a program to run.
#[derive(Debug, Clone)]
pub struct Command {
    pub command: String,
    pub options: Vec<String>,
}

/// Texts joined with single spaces.
pub open spec fn joined(v: Seq<Seq<char>>) -> Seq<char>
    decreases v.len(),
{
    if v.len() == 0 {
        Seq::empty()
    } else if v.len() == 1 {
        v[0]
    } else {
        joined(v.drop_last()) + " "@ + v.last()
    }
}

impl Command {
    /// The command line as text: the command, a space and the options
    /// joined with spaces.
    pub fn to_text(&self) -> (res: String)
        ensures
            res@ == self.command@ + " "@ + joined(crate::html::strings_view(self.options@)),
    {
        let mut s = String::from_str(self.command.as_str());
        s.append(" ");
        let ghost opts = crate::html::strings_view(self.options@);
        let mut k: usize = 0;
        while k < self.options.len()
            invariant
                k <= self.options@.len(),
                opts == crate::html::strings_view(self.options@),
                s@ == self.command@ + " "@ + joined(opts.take(k as int)),
            decreases self.options@.len() - k,
        {
            let ghost before = s@;
            if k > 0 {
                s.append(" ");
            }
            s.append(self.options[k].as_str());
            k += 1;
            proof {
                let t = opts.take(k as int);
                assert(t.drop_last() =~= opts.take(k - 1));
                assert(t.last() == self.options@[k - 1]@);
                if k == 1 {
                    assert(joined(opts.take(0)) =~= Seq::<char>::empty());
                }
            }
            assert(s@ =~= self.command@ + " "@ + joined(opts.take(k as int)));
        }
        assert(opts.take(self.options@.len() as int) =~= opts);
        s
    }
}

/// The command that opens URLs on an operating system (as
/// `std::env::consts::OS` names it): `open` on macOS, `start` on Windows,
/// `xdg-open` elsewhere.
pub fn url_open_command_for(os: &str) -> (res: Command)
    ensures
        res.options@.len() == 0,
        os@ == "macos"@ ==> res.command@ == "open"@,
        os@ == "windows"@ ==> res.command@ == "start"@,
        os@ != "macos"@ && os@ != "windows"@ ==> res.command@ == "xdg-open"@,
{
    proof {
        reveal_strlit("macos");
        reveal_strlit("windows");
        assert("windows"@.len() == 7 && "macos"@.len() == 5);
    }
    if crate::query::str_eq(os, "macos") {
        Command { command: String::from_str("open"), options: Vec::new() }
    } else if crate::query::str_eq(os, "windows") {
        Command { command: String::from_str("start"), options: Vec::new() }
    } else {
        Command { command: String::from_str("xdg-open"), options: Vec::new() }
    }
}

/// Fewest stories on a page of a story view.
pub const MIN_PAGE_SIZE: usize = 5;
/// Most stories on a page of a story view.
pub const MAX_PAGE_SIZE: usize = 100;
/// Fewest results on a page of the search view.
pub const MIN_SEARCH_PAGE_SIZE: usize = 5;
/// Most results on a page of the search view.
pub const MAX_SEARCH_PAGE_SIZE: usize = 30;

/// The page size of a story view, brought into
/// `MIN_PAGE_SIZE..=MAX_PAGE_SIZE`.
pub fn clamp_page_size(n: usize) -> (res: usize)
    ensures
        res == (if n < MIN_PAGE_SIZE {
            MIN_PAGE_SIZE
        } else if n > MAX_PAGE_SIZE {
            MAX_PAGE_SIZE
        } else {
            n
        }),
{
    if n < MIN_PAGE_SIZE {
        MIN_PAGE_SIZE
    } else if n > MAX_PAGE_SIZE {
        MAX_PAGE_SIZE
    } else {
        n
    }
}

/// The page size of the search view, brought into
/// `MIN_SEARCH_PAGE_SIZE..=MAX_SEARCH_PAGE_SIZE`.
pub fn clamp_search_page_size(n: usize) -> (res: usize)
    ensures
        res == (if n < MIN_SEARCH_PAGE_SIZE {
            MIN_SEARCH_PAGE_SIZE
        } else if n > MAX_SEARCH_PAGE_SIZE {
            MAX_SEARCH_PAGE_SIZE
        } else {
            n
        }),
{
    if n < MIN_SEARCH_PAGE_SIZE {
        MIN_SEARCH_PAGE_SIZE
    } else if n > MAX_SEARCH_PAGE_SIZE {
        MAX_SEARCH_PAGE_SIZE
    } else {
        n
    }
}

/// The application's configuration.
#[derive(Debug, Clone)]
pub struct Config {
    pub use_page_scrolling: bool,
    pub use_pacman_loading: bool,
    pub use_hn_topcolor: bool,
    pub client_timeout: u64,
    pub url_open_command: Command,
    pub article_parse_command: Command,
    pub theme: Theme,
    pub keymap: KeyMap,
}

impl Default for Config {
    /// Page scrolling, the loading animation and the HN top colour on; a
    /// client timeout of 32 seconds; URLs opened with `xdg-open`; articles
    /// parsed with `article_md --format html`; the default theme and keys.
    fn default() -> (res: Config)
        ensures
            res.use_page_scrolling,
            res.use_pacman_loading,
            res.use_hn_topcolor,
            res.client_timeout == 32,
            res.url_open_command.command@ == "xdg-open"@,
            res.url_open_command.options@.len() == 0,
            res.article_parse_command.command@ == "article_md"@,
            crate::html::strings_view(res.article_parse_command.options@) == seq!["--format"@, "html"@],
            res.theme.palette == crate::theme::Palette::default_spec(),
            res.theme.component_style == crate::theme::ComponentStyle::default_spec(),
    {
        let options = vec![String::from_str("--format"), String::from_str("html")];
        assert(crate::html::strings_view(options@) =~= seq!["--format"@, "html"@]);
        Config {
            use_page_scrolling: true,
            use_pacman_loading: true,
            use_hn_topcolor: true,
            client_timeout: 32,
            url_open_command: Command { command: String::from_str("xdg-open"), options: Vec::new() },
            article_parse_command: Command { command: String::from_str("article_md"), options },
            theme: Theme::default(),
            keymap: KeyMap::default(),
        }
    }
}

/// A Hacker News user's credentials and cached session cookie.
#[derive(Debug, Clone)]
pub struct Auth {
    pub username: String,
    pub password: String,
    pub session: Option<String>,
}

impl Auth {
    /// An empty cached session counts as none.
    pub fn normalize_session(self) -> (res: Auth)
        ensures
            res.username == self.username,
            res.password == self.password,
            match self.session {
                Some(s) => if s@.len() == 0 { res.session is None } else { res.session == Some(s) },
                None => res.session is None,
            },
    {
        let Auth { username, password, session } = self;
        let session = match session {
            Some(s) => if s.as_str().is_empty() {
                None
            } else {
                Some(s)
            },
            None => None,
        };
        Auth { username, password, session }
    }

    /// The auth file's text: the username, the password and the session
    /// (empty without one), the session key preceded by the guidance on
    /// pasting a browser cookie.
    pub fn to_annotated_toml(&self) -> (res: String)
        ensures
            res@ == annotated_auth_toml(
                self.username@,
                self.password@,
                match self.session {
                    Some(s) => s@,
                    None => Seq::empty(),
                },
                SESSION_GUIDANCE@,
            ),
    {
        proof {
            reveal_strlit("");
            assert(""@ =~= Seq::<char>::empty());
        }
        let session = match &self.session {
            Some(s) => s.as_str(),
            None => "",
        };
        write_auth_toml(self.username.as_str(), self.password.as_str(), session, SESSION_GUIDANCE)
    }
}

/// The comment written before the session key of the auth file.
pub const SESSION_GUIDANCE: &'static str = "
# `session` is the value of Hacker News's `user=` cookie.
# The TUI fills this in automatically after a successful
# login so later runs can skip the `/login` POST, which HN
# throttles with a CAPTCHA after a few attempts.
#
# If you get stuck at the CAPTCHA, populate it by hand:
#   1. Sign in to https://news.ycombinator.com/ in a browser.
#   2. Open DevTools -> Application/Storage -> Cookies ->
#      https://news.ycombinator.com.
#   3. Copy the value of the cookie named `user` (looks like
#      `yourname&abcdef0123...`).
#   4. Paste it between the quotes below.
";

/// The text of a `toml_edit` document holding the string keys `username`,
/// `password` and `session` with these values, in that order, the
/// `session` key carrying `prefix` before it.
pub uninterp spec fn annotated_auth_toml(username: Seq<char>, password: Seq<char>, session: Seq<char>, prefix: Seq<char>) -> Seq<char>;

/// Writes the auth document with `toml_edit`: the three string keys,
/// `prefix` as the decor before the `session` key, then the document's
/// text. Trusted: the result is the text `annotated_auth_toml` names.
#[verifier::external_body]
fn write_auth_toml(username: &str, password: &str, session: &str, prefix: &str) -> (res: String)
    ensures
        res@ == annotated_auth_toml(username@, password@, session@, prefix@),
{
    let mut doc = toml_edit::DocumentMut::new();
    doc["username"] = toml_edit::value(username);
    doc["password"] = toml_edit::value(password);
    doc["session"] = toml_edit::value(session);
    if let Some(mut key) = doc.as_table_mut().key_mut("session") {
        key.leaf_decor_mut().set_prefix(prefix);
    }
    doc.to_string()
}

/// Whether a line, after leading white space, reads `session`, white
/// space and `=`.
pub open spec fn session_line_at(t: Seq<char>, i: int) -> bool {
    let a = i + crate::theme::leading_ws(t.subrange(i, t.len() as int)) as int;
    let rest = t.subrange(a, t.len() as int);
    &&& rest.len() >= 7
    &&& rest.subrange(0, 7) == "session"@
    &&& {
        let after = rest.subrange(7, rest.len() as int);
        let b = crate::theme::leading_ws(after) as int;
        b < after.len() && after[b] == '='
    }
}

/// Whether a text has a line that starts (after white space) with
/// `session =`.
pub open spec fn has_session_line(t: Seq<char>) -> bool {
    exists|i: int| 0 <= i <= t.len() && (i == 0 || t[i - 1] == '\n') && #[trigger] session_line_at(t, i)
}

/// Whether an auth file's text lacks a `session =` line, so that it is to
/// be written again in the current format.
pub fn needs_backport(existing: &str) -> (res: bool)
    ensures
        res == !has_session_line(existing@),
{
    proof {
        reveal_strlit("session");
    }
    let t = crate::text::chars_of(existing);
    let n = t.len();
    let mut i: usize = 0;
    while i < n
        invariant
            i <= n,
            n == t@.len(),
            t@ == existing@,
            forall|j: int| 0 <= j < i && (j == 0 || t@[j - 1] == '\n') ==> !#[trigger] session_line_at(t@, j),
        decreases n - i,
    {
        if i == 0 || t[i - 1] == '\n' {
            if session_line_exec(&t, i) {
                return false;
            }
        }
        i += 1;
    }
    if n == 0 || t[n - 1] == '\n' {
        if session_line_exec(&t, n) {
            return false;
        }
    }
    true
}

/// Whether the line starting at `i` reads `session`, white space and `=`.
fn session_line_exec(t: &Vec<char>, i: usize) -> (res: bool)
    requires
        i <= t@.len(),
    ensures
        res == session_line_at(t@, i as int),
{
    proof {
        reveal_strlit("session");
    }
    let mut a = i;
    while a < t.len() && char_ws(t[a])
        invariant
            i <= a <= t@.len(),
            forall|k: int| i <= k < a ==> crate::theme::is_white_space(#[trigger] t@[k]),
        decreases t@.len() - a,
    {
        a += 1;
    }
    proof {
        lemma_leading_ws_run(t@.subrange(i as int, t@.len() as int), (a - i) as int);
    }
    if t.len() - a < 7 {
        return false;
    }
    let word = crate::text::chars_of("session");
    assert(word@.len() == 7);
    if !crate::markup::occurs_at_exec(t, &word, a) {
        assert(!(t@.subrange(a as int, t@.len() as int).subrange(0, 7) == "session"@)) by {
            if t@.subrange(a as int, t@.len() as int).subrange(0, 7) == "session"@ {
                assert(t@.subrange(a as int, a + 7) =~= t@.subrange(a as int, t@.len() as int).subrange(0, 7));
            }
        }
        return false;
    }
    assert(t@.subrange(a as int, t@.len() as int).subrange(0, 7) =~= t@.subrange(a as int, a + 7));
    let mut b = a + 7;
    while b < t.len() && char_ws(t[b])
        invariant
            a + 7 <= b <= t@.len(),
            forall|k: int| a + 7 <= k < b ==> crate::theme::is_white_space(#[trigger] t@[k]),
        decreases t@.len() - b,
    {
        b += 1;
    }
    proof {
        let rest = t@.subrange(a as int, t@.len() as int);
        let after = rest.subrange(7, rest.len() as int);
        assert(after =~= t@.subrange(a + 7, t@.len() as int));
        lemma_leading_ws_run(after, (b - a - 7) as int);
    }
    b < t.len() && t[b] == '='
}

/// Whether a character is white space.
fn char_ws(c: char) -> (res: bool)
    ensures
        res == crate::theme::is_white_space(c),
{
    crate::theme::char_is_whitespace(c)
}

proof fn lemma_leading_ws_run(s: Seq<char>, k: int)
    requires
        0 <= k <= s.len(),
        forall|j: int| 0 <= j < k ==> crate::theme::is_white_space(#[trigger] s[j]),
        k == s.len() || !crate::theme::is_white_space(s[k]),
    ensures
        crate::theme::leading_ws(s) == k,
    decreases k,
{
    if k > 0 {
        assert(s.drop_first().len() == s.len() - 1);
        assert forall|j: int| 0 <= j < k - 1 implies crate::theme::is_white_space(#[trigger] s.drop_first()[j]) by {
            assert(s.drop_first()[j] == s[j + 1]);
        }
        if k < s.len() {
            assert(s.drop_first()[k - 1] == s[k]);
        }
        lemma_leading_ws_run(s.drop_first(), k - 1);
    }
}

/// What the user answered when asked whether to log in: yes (`y`,
/// `yes`), no (`n`, `no`, or nothing), or something else, which asks
/// again; case and surrounding white space do not matter.
pub fn auth_prompt_answer(line: &str) -> (res: Option<bool>)
    ensures
        ({
            let a = lower_text(trim(line@));
            &&& (a == "y"@ || a == "yes"@) ==> res == Some(true)
            &&& (a == "n"@ || a == "no"@ || a.len() == 0) ==> res == Some(false)
            &&& !(a == "y"@ || a == "yes"@ || a == "n"@ || a == "no"@ || a.len() == 0) ==> res is None
        }),
{
    proof {
        reveal_strlit("y");
        reveal_strlit("yes");
        reveal_strlit("n");
        reveal_strlit("no");
        assert("y"@.len() == 1 && "yes"@.len() == 3 && "n"@.len() == 1 && "no"@.len() == 2);
        assert("y"@[0] == 'y' && "n"@[0] == 'n' && "yes"@[0] == 'y' && "no"@[0] == 'n');
    }
    let a = trimmed_lower(line);
    let s = a.as_str();
    if crate::query::str_eq(s, "y") || crate::query::str_eq(s, "yes") {
        Some(true)
    } else if crate::query::str_eq(s, "n") || crate::query::str_eq(s, "no") || s.is_empty() {
        Some(false)
    } else {
        None
    }
}

/// What the user answered when asked which configuration to write: light
/// (`l`, `light`), dark (`d`, `dark`), none (`s`, `skip`, or nothing), or
/// something else, which asks again.
pub fn flavor_prompt_answer(line: &str) -> (res: Option<Option<ConfigFlavor>>)
    ensures
        ({
            let a = lower_text(trim(line@));
            &&& (a == "l"@ || a == "light"@) ==> res == Some(Some(ConfigFlavor::Light))
            &&& (a == "d"@ || a == "dark"@) ==> res == Some(Some(ConfigFlavor::Dark))
            &&& (a == "s"@ || a == "skip"@ || a.len() == 0) ==> res == Some(None::<ConfigFlavor>)
            &&& !(a == "l"@ || a == "light"@ || a == "d"@ || a == "dark"@ || a == "s"@ || a == "skip"@ || a.len()
                == 0) ==> res is None
        }),
{
    proof {
        reveal_strlit("l");
        reveal_strlit("light");
        reveal_strlit("d");
        reveal_strlit("dark");
        reveal_strlit("s");
        reveal_strlit("skip");
        assert("l"@.len() == 1 && "light"@.len() == 5 && "d"@.len() == 1 && "dark"@.len() == 4 && "s"@.len() == 1
            && "skip"@.len() == 4);
        assert("l"@[0] == 'l' && "light"@[0] == 'l' && "d"@[0] == 'd' && "dark"@[0] == 'd' && "s"@[0] == 's'
            && "skip"@[0] == 's');
    }
    let a = trimmed_lower(line);
    let s = a.as_str();
    if crate::query::str_eq(s, "l") || crate::query::str_eq(s, "light") {
        Some(Some(ConfigFlavor::Light))
    } else if crate::query::str_eq(s, "d") || crate::query::str_eq(s, "dark") {
        Some(Some(ConfigFlavor::Dark))
    } else if crate::query::str_eq(s, "s") || crate::query::str_eq(s, "skip") || s.is_empty() {
        Some(None)
    } else {
        None
    }
}

/// A line without surrounding white space, its ASCII letters lowered.
fn trimmed_lower(line: &str) -> (res: String)
    ensures
        res@ == lower_text(trim(line@)),
{
    let c = crate::text::chars_of(line);
    let t = trim_chars(&c);
    let s = crate::text::string_of(t.as_slice());
    to_ascii_lower(s.as_str())
}

/// The outcome of asking the user to log in.
pub enum AuthPromptResult {
    /// The user declined to log in; no file is to be written.
    Skip,
    /// The user gave credentials, still to be checked and written.
    Credentials { username: String, password: String },
}

/// The outcome of the login prompt from the username line and the
/// password typed: an empty username (after trimming) or an empty
/// password skips the login.
pub fn auth_prompt_result(username_line: &str, password: String) -> (res: AuthPromptResult)
    ensures
        (trim(username_line@).len() == 0 || password@.len() == 0) ==> res is Skip,
        (trim(username_line@).len() > 0 && password@.len() > 0) ==> (res matches AuthPromptResult::Credentials {
            username,
            password: p,
        } && username@ == trim(username_line@) && p@ == password@),
{
    let c = crate::text::chars_of(username_line);
    let t = trim_chars(&c);
    if t.len() == 0 || password.as_str().is_empty() {
        AuthPromptResult::Skip
    } else {
        AuthPromptResult::Credentials { username: crate::text::string_of(t.as_slice()), password }
    }
}

/// Why a configuration's theme could not be replaced.
pub enum ThemeMergeError {
    /// The configuration is no valid TOML; the parser's message.
    BadExisting(String),
    /// The embedded default is no valid TOML; the parser's message.
    BadDefault(String),
    /// The embedded default has no `theme` table.
    NoTheme,
}

/// What `toml_edit` makes of replacing the `theme` item of the document
/// `existing` with that of the document `default`: the new document's
/// text, or why it could not.
pub uninterp spec fn theme_replaced(existing: Seq<char>, default: Seq<char>) -> Result<Seq<char>, ThemeMergeError>;

/// Parses both texts as `toml_edit` documents, sets the `theme` item of
/// the first to a copy of that of the second, and writes the first out.
/// Trusted: the result is the one `theme_replaced` names.
#[verifier::external_body]
fn replace_theme_item(existing: &str, default: &str) -> (res: Result<String, ThemeMergeError>)
    ensures
        match res {
            Ok(t) => theme_replaced(existing@, default@) == Ok::<Seq<char>, ThemeMergeError>(t@),
            Err(e) => theme_replaced(existing@, default@) matches Err(e2) && e == e2,
        },
{
    let mut doc = existing.parse::<toml_edit::DocumentMut>().map_err(|e| ThemeMergeError::BadExisting(e.to_string()))?;
    let d = default.parse::<toml_edit::DocumentMut>().map_err(|e| ThemeMergeError::BadDefault(e.to_string()))?;
    let theme = d.get("theme").ok_or(ThemeMergeError::NoTheme)?.clone();
    doc["theme"] = theme;
    Ok(doc.to_string())
}

/// A configuration text with its `theme` table replaced by that of the
/// embedded default of `flavor`, everything else kept; or the message of
/// what went wrong.
pub fn update_theme_text(existing: &str, flavor: ConfigFlavor) -> (res: Result<String, String>)
    ensures
        match theme_replaced(existing@, flavor.contents_spec()) {
            Ok(t) => res matches Ok(r) && r@ == t,
            Err(ThemeMergeError::BadExisting(m)) => res matches Err(r) && r@ == "failed to parse existing config: "@ + m@,
            Err(ThemeMergeError::BadDefault(m)) => res matches Err(r) && r@ == "failed to parse embedded default config: "@ + m@,
            Err(ThemeMergeError::NoTheme) => res matches Err(r) && r@ == "embedded default is missing the [theme] table"@,
        },
{
    match replace_theme_item(existing, flavor.contents()) {
        Ok(t) => Ok(t),
        Err(ThemeMergeError::BadExisting(m)) => {
            let mut r = String::from_str("failed to parse existing config: ");
            r.append(m.as_str());
            Err(r)
        },
        Err(ThemeMergeError::BadDefault(m)) => {
            let mut r = String::from_str("failed to parse embedded default config: ");
            r.append(m.as_str());
            Err(r)
        },
        Err(ThemeMergeError::NoTheme) => Err(String::from_str("embedded default is missing the [theme] table")),
    }
}

} // verus!

