//! The reader-mode article view: the article's rendering at the view's
//! width, find-on-page over it, link numbers typed before a key, and what
//! each key does.

use vstd::prelude::*;
use crate::article::{article_renders, document_render, html_document_tree, resolved_links};
use crate::find::{copy_text, highlight_matches, highlight_result, FindSignal, FindState};
use crate::html::{strings_view, HTMLTextParsedResult};
use crate::keymap::{ArticleViewKeyMap, GlobalKeyMap};
use crate::keys::KeyEvent;
use crate::model::Article;
use crate::requests::{parse_usize, parsed_usize};
use crate::styled::StyledText;
use crate::theme::{ComponentStyle, Style};

verus! {

/// The article view: the article, its links as last rendered, the width
/// it was rendered at, the metadata line, the shown content, the digits
/// typed so far, the find state, the content before highlighting, the
/// ranges of the find matches and the match last jumped to.
pub struct ArticleView {
    pub article: Article,
    pub links: Vec<String>,
    pub width: usize,
    pub metadata: String,
    pub content: StyledText,
    pub raw_command: String,
    pub find_state: FindState,
    pub base_content: Option<StyledText>,
    pub match_ranges: Vec<(usize, usize)>,
    pub current_match: Option<usize>,
}

/// A text, or `[unknown]` without one.
pub open spec fn or_unknown(o: Option<String>) -> Seq<char> {
    match o {
        Some(s) => s@,
        None => "[unknown]"@,
    }
}

/// The metadata line of an article: its author and publication date.
pub open spec fn article_metadata(a: Article) -> Seq<char> {
    "by: "@ + or_unknown(a.author) + ", date_published: "@ + or_unknown(a.date_published)
}

/// The match after `c` among `n`, from the first one, wrapping.
pub open spec fn next_index(c: Option<usize>, n: nat) -> int {
    match c {
        None => 0,
        Some(i) => (i + 1) % (n as int),
    }
}

/// The match before `c` among `n`, from the last one, wrapping.
pub open spec fn prev_index(c: Option<usize>, n: nat) -> int {
    match c {
        None => n - 1,
        Some(i) => if i == 0 {
            n - 1
        } else {
            i - 1
        },
    }
}

/// Stepping to the next match and back to the previous one returns to
/// the match one started from, and so does the other order.
pub proof fn next_prev_inverse(i: usize, n: usize)
    requires
        i < n,
    ensures
        prev_index(Some(next_index(Some(i), n as nat) as usize), n as nat) == i,
        next_index(Some(prev_index(Some(i), n as nat) as usize), n as nat) == i,
{
    if i + 1 < n {
        assert((i + 1) % (n as int) == i + 1) by (nonlinear_arith)
            requires
                i + 1 < n,
        ;
    } else {
        assert((i + 1) % (n as int) == 0) by (nonlinear_arith)
            requires
                i + 1 == n,
        ;
    }
    if i == 0 {
        assert(((n - 1) + 1) % (n as int) == 0) by (nonlinear_arith)
            requires
                n > 0,
        ;
    } else {
        assert(((i - 1) + 1) % (n as int) == i) by (nonlinear_arith)
            requires
                0 < i < n,
        ;
    }
}

/// The indexes `0..n`.
pub open spec fn index_range(n: nat) -> Seq<usize> {
    Seq::new(n, |i: int| i as usize)
}

/// A width less 5 columns, at least 0.
pub open spec fn narrower(width: usize) -> usize {
    if width >= 5 {
        (width - 5) as usize
    } else {
        0
    }
}

/// What parsing an article gives: its rendering and resolved links, or
/// `None` when its content cannot be read.
pub open spec fn parse_outcome(a: Article, w: usize, cs: ComponentStyle) -> Option<(Seq<(Seq<char>, Style)>, Seq<Seq<char>>)> {
    match html_document_tree(a.content@) {
        None => None,
        Some(doc) => Some(
            (document_render(doc, w, cs).0.0, resolved_links(a.url@, document_render(doc, w, cs).0.1)),
        ),
    }
}

/// What a key asks of the program around the article view.
#[derive(Debug, Clone, Copy, PartialEq, Eq, Structural)]
pub enum ArticleAction {
    /// Show the dialog listing the article's links.
    OpenLinkDialog,
    /// Open the link of this number (from 1) in the browser.
    OpenLinkInBrowser(usize),
    /// Open the link of this number (from 1) in a new article view.
    OpenLinkInArticleView(usize),
    /// Open the article's URL in the browser.
    OpenArticleInBrowser,
    /// Show the help of the view.
    OpenHelp,
    /// Show the find dialog.
    OpenFindDialog,
}

/// What the handlers of a key did: the requests for the program around
/// the view, in order, and whether a handler took the key.
#[derive(Debug)]
pub struct KeyOutcome<A> {
    pub actions: Vec<A>,
    pub consumed: bool,
}

/// The state the key handlers of the article view read and change: the
/// typed digits, the find query, the pending find request, the matches,
/// and what the handlers did so far.
pub struct ArticleKeyState {
    pub raw: Seq<char>,
    pub query: Seq<char>,
    pub pending: Option<FindSignal>,
    pub match_ids: Seq<usize>,
    pub actions: Seq<ArticleAction>,
    pub consumed: bool,
}

/// Whether `e` is an ASCII digit.
pub open spec fn digit_key(e: KeyEvent) -> bool {
    e matches KeyEvent::Char(c) && '0' <= c && c <= '9'
}

/// The typed digits after a key: a digit is added, a key that takes a
/// number keeps them, any other key drops them.
pub open spec fn digits_after(raw: Seq<char>, e: KeyEvent, takes_number: bool) -> Seq<char> {
    match e {
        KeyEvent::Char(c) => if '0' <= c && c <= '9' {
            raw.push(c)
        } else if takes_number {
            raw
        } else {
            Seq::empty()
        },
        _ => if takes_number {
            raw
        } else {
            Seq::empty()
        },
    }
}

/// A handler that takes the key and adds a request.
pub open spec fn with_action(s: ArticleKeyState, a: ArticleAction) -> ArticleKeyState {
    ArticleKeyState { actions: s.actions.push(a), consumed: true, ..s }
}

/// A handler that opens the link whose number was typed: without a number
/// nothing happens; with one the digits are dropped, the key is taken,
/// and the link is asked for when the number names one.
pub open spec fn numbered_link(s: ArticleKeyState, n_links: nat, in_browser: bool) -> ArticleKeyState {
    match parsed_usize(s.raw) {
        None => s,
        Some(num) => {
            let s2 = ArticleKeyState { raw: Seq::empty(), consumed: true, ..s };
            if 0 < num <= n_links {
                ArticleKeyState {
                    actions: s2.actions.push(
                        if in_browser {
                            ArticleAction::OpenLinkInBrowser(num)
                        } else {
                            ArticleAction::OpenLinkInArticleView(num)
                        },
                    ),
                    ..s2
                }
            } else {
                s2
            }
        },
    }
}

/// The find handlers shared by the views: a find key starts a session
/// with an empty query and shows the dialog; while matches are tracked,
/// the close key ends the session and the next and previous keys ask for
/// a jump.
pub open spec fn find_keys_after(
    s: ArticleKeyState,
    e: KeyEvent,
    find_in_view: bool,
    close: bool,
    next: bool,
    prev: bool,
) -> ArticleKeyState {
    let s1 = if find_in_view {
        ArticleKeyState { query: Seq::empty(), pending: Some(FindSignal::Clear), ..with_action(s, ArticleAction::OpenFindDialog) }
    } else {
        s
    };
    let s2 = if close && s1.match_ids.len() > 0 {
        ArticleKeyState { match_ids: Seq::empty(), pending: Some(FindSignal::Clear), consumed: true, ..s1 }
    } else {
        s1
    };
    let s3 = if next && s2.match_ids.len() > 0 {
        ArticleKeyState { pending: Some(FindSignal::JumpNext), consumed: true, ..s2 }
    } else {
        s2
    };
    if prev && s3.match_ids.len() > 0 {
        ArticleKeyState { pending: Some(FindSignal::JumpPrev), consumed: true, ..s3 }
    } else {
        s3
    }
}

/// What the handlers of the article view do with a key, each in the order
/// they are registered, all of those bound to the key running: the typed
/// digits, the link dialog, the numbered links in the browser and in an
/// article view, the article in the browser, the help, then the find keys.
pub open spec fn article_key_spec(
    s0: ArticleKeyState,
    e: KeyEvent,
    km: ArticleViewKeyMap,
    g: GlobalKeyMap,
    n_links: nat,
) -> ArticleKeyState {
    let takes_number = km.open_link_in_browser.events@.contains(e) || km.open_link_in_article_view.events@.contains(e);
    let s1 = ArticleKeyState { raw: digits_after(s0.raw, e, takes_number), ..s0 };
    let s2 = if km.open_link_dialog.events@.contains(e) { with_action(s1, ArticleAction::OpenLinkDialog) } else { s1 };
    let s3 = if km.open_link_in_browser.events@.contains(e) { numbered_link(s2, n_links, true) } else { s2 };
    let s4 = if km.open_link_in_article_view.events@.contains(e) { numbered_link(s3, n_links, false) } else { s3 };
    let s5 = if km.open_article_in_browser.events@.contains(e) {
        with_action(s4, ArticleAction::OpenArticleInBrowser)
    } else {
        s4
    };
    let s6 = if g.open_help_dialog.events@.contains(e) { with_action(s5, ArticleAction::OpenHelp) } else { s5 };
    find_keys_after(
        s6,
        e,
        km.find_in_view.events@.contains(e),
        g.close_dialog.events@.contains(e),
        km.find_next_match.events@.contains(e),
        km.find_prev_match.events@.contains(e),
    )
}

/// The key state of a view before a key.
pub open spec fn key_state_of(raw: Seq<char>, fs: FindState) -> ArticleKeyState {
    ArticleKeyState {
        raw,
        query: fs.query@,
        pending: fs.pending,
        match_ids: fs.match_ids@,
        actions: Seq::empty(),
        consumed: false,
    }
}

/// Adds a typed digit, keeps the digits for a key that takes a number,
/// drops them for any other key.
pub fn take_digit(raw: &mut String, e: &KeyEvent, takes_number: bool)
    ensures
        final(raw)@ == digits_after(old(raw)@, *e, takes_number),
{
    match e {
        KeyEvent::Char(c) => {
            if '0' <= *c && *c <= '9' {
                let mut t: Vec<char> = crate::text::chars_of(raw.as_str());
                t.push(*c);
                *raw = crate::text::string_of(t.as_slice());
            } else if !takes_number {
                *raw = String::new();
            }
        },
        _ => {
            if !takes_number {
                *raw = String::new();
            }
        },
    }
}

/// Opens the link whose number was typed (see `numbered_link`).
fn open_numbered_link(
    raw: &mut String,
    n_links: usize,
    in_browser: bool,
    actions: &mut Vec<ArticleAction>,
    consumed: &mut bool,
)
    ensures
        ({
            let s = ArticleKeyState {
                raw: old(raw)@,
                query: Seq::empty(),
                pending: None,
                match_ids: Seq::empty(),
                actions: old(actions)@,
                consumed: *old(consumed),
            };
            let t = numbered_link(s, n_links as nat, in_browser);
            &&& final(raw)@ == t.raw
            &&& final(actions)@ == t.actions
            &&& *final(consumed) == t.consumed
        }),
{
    match parse_usize(raw.as_str()) {
        None => {},
        Some(num) => {
            *raw = String::new();
            *consumed = true;
            if 0 < num && num <= n_links {
                if in_browser {
                    actions.push(ArticleAction::OpenLinkInBrowser(num));
                } else {
                    actions.push(ArticleAction::OpenLinkInArticleView(num));
                }
            }
        },
    }
}

impl ArticleView {
    /// The match last jumped to is one of the matches.
    pub open spec fn wf(&self) -> bool {
        self.current_match matches Some(i) ==> i < self.match_ranges@.len()
    }

    /// Everything but the shown content, the find state and the matches
    /// is the same in both views.
    pub open spec fn same_article(&self, other: &ArticleView) -> bool {
        &&& self.article == other.article
        &&& self.links@ == other.links@
        &&& self.width == other.width
        &&& self.metadata@ == other.metadata@
        &&& self.raw_command@ == other.raw_command@
        &&& self.base_content == other.base_content
    }

    /// A view of an article before its first layout: nothing rendered,
    /// no link, no match.
    pub fn new(article: Article, find_state: FindState) -> (res: ArticleView)
        ensures
            res.article == article,
            res.metadata@ == article_metadata(article),
            res.links@.len() == 0,
            res.width == 0,
            res.content@.len() == 0,
            res.raw_command@.len() == 0,
            res.find_state == find_state,
            res.base_content is None,
            res.match_ranges@.len() == 0,
            res.current_match is None,
            res.wf(),
    {
        let mut metadata = String::from_str("by: ");
        match &article.author {
            Some(a) => metadata.append(a.as_str()),
            None => metadata.append("[unknown]"),
        }
        metadata.append(", date_published: ");
        match &article.date_published {
            Some(d) => metadata.append(d.as_str()),
            None => metadata.append("[unknown]"),
        }
        ArticleView {
            article,
            links: Vec::new(),
            width: 0,
            metadata,
            content: StyledText::new(),
            raw_command: String::new(),
            find_state,
            base_content: None,
            match_ranges: Vec::new(),
            current_match: None,
        }
    }

    /// Shows new content.
    pub fn set_article_content(&mut self, new_content: StyledText)
        ensures
            final(self).content == new_content,
            final(self).same_article(old(self)),
            final(self).find_state == old(self).find_state,
            final(self).match_ranges@ == old(self).match_ranges@,
            final(self).current_match == old(self).current_match,
    {
        self.content = new_content;
    }

    /// Highlights `query` in the content before highlighting and records
    /// the matches; nothing happens before the article is rendered.
    pub fn apply_find_query(&mut self, query: &str, highlight: Style)
        requires
            old(self).wf(),
        ensures
            final(self).same_article(old(self)),
            final(self).find_state.query == old(self).find_state.query,
            final(self).find_state.pending == old(self).find_state.pending,
            final(self).wf(),
            match old(self).base_content {
                None => {
                    &&& final(self).content == old(self).content
                    &&& final(self).match_ranges@ == old(self).match_ranges@
                    &&& final(self).current_match == old(self).current_match
                    &&& final(self).find_state.match_ids@ == old(self).find_state.match_ids@
                },
                Some(base) => {
                    &&& highlight_result(base@, query@, highlight, final(self).content@, final(self).match_ranges@)
                    &&& final(self).current_match is None
                    &&& final(self).find_state.match_ids@ == index_range(final(self).match_ranges@.len())
                },
            },
    {
        if self.base_content.is_none() {
            return;
        }
        let (highlighted, ranges) = match &self.base_content {
            Some(base) => highlight_matches(base, query, highlight),
            None => {
                return;
            },
        };
        let mut ids: Vec<usize> = Vec::new();
        let mut k: usize = 0;
        while k < ranges.len()
            invariant
                k <= ranges@.len(),
                ids@ == index_range(k as nat),
            decreases ranges@.len() - k,
        {
            ids.push(k);
            k += 1;
            assert(ids@ =~= index_range(k as nat));
        }
        self.match_ranges = ranges;
        self.current_match = None;
        self.find_state.match_ids = ids;
        self.content = highlighted;
    }

    /// Drops the matches and shows the content before highlighting again.
    pub fn clear_find_highlights(&mut self)
        ensures
            final(self).same_article(old(self)),
            final(self).find_state == old(self).find_state,
            final(self).match_ranges@.len() == 0,
            final(self).current_match is None,
            match old(self).base_content {
                Some(base) => final(self).content@ == base@,
                None => final(self).content == old(self).content,
            },
            final(self).wf(),
    {
        self.match_ranges = Vec::new();
        self.current_match = None;
        match &self.base_content {
            Some(base) => {
                let c = copy_text(base);
                self.content = c;
            },
            None => {},
        }
    }

    /// Jumps to the next match, wrapping to the first; returns where in
    /// the content the match starts. Nothing happens without a match.
    pub fn jump_to_next_match(&mut self) -> (res: Option<usize>)
        requires
            old(self).wf(),
        ensures
            final(self).same_article(old(self)),
            final(self).content == old(self).content,
            final(self).find_state == old(self).find_state,
            final(self).match_ranges@ == old(self).match_ranges@,
            final(self).wf(),
            old(self).match_ranges@.len() == 0 ==> res is None && final(self).current_match == old(self).current_match,
            old(self).match_ranges@.len() > 0 ==> {
                let i = next_index(old(self).current_match, old(self).match_ranges@.len());
                &&& final(self).current_match == Some(i as usize)
                &&& res == Some(old(self).match_ranges@[i].0)
            },
    {
        let n = self.match_ranges.len();
        if n == 0 {
            return None;
        }
        let next = match self.current_match {
            None => 0,
            Some(i) => (i + 1) % n,
        };
        self.current_match = Some(next);
        Some(self.match_ranges[next].0)
    }

    /// Jumps to the previous match, wrapping to the last; returns where in
    /// the content the match starts. Nothing happens without a match.
    pub fn jump_to_prev_match(&mut self) -> (res: Option<usize>)
        requires
            old(self).wf(),
        ensures
            final(self).same_article(old(self)),
            final(self).content == old(self).content,
            final(self).find_state == old(self).find_state,
            final(self).match_ranges@ == old(self).match_ranges@,
            final(self).wf(),
            old(self).match_ranges@.len() == 0 ==> res is None && final(self).current_match == old(self).current_match,
            old(self).match_ranges@.len() > 0 ==> {
                let i = prev_index(old(self).current_match, old(self).match_ranges@.len());
                &&& final(self).current_match == Some(i as usize)
                &&& res == Some(old(self).match_ranges@[i].0)
            },
    {
        let n = self.match_ranges.len();
        if n == 0 {
            return None;
        }
        let prev = match self.current_match {
            None => n - 1,
            Some(i) => if i == 0 {
                n - 1
            } else {
                i - 1
            },
        };
        self.current_match = Some(prev);
        Some(self.match_ranges[prev].0)
    }

    /// Takes the pending find request and carries it out: highlights the
    /// query, clears the find session, or jumps to a match, whose start in
    /// the content is returned.
    pub fn process_find_signal(&mut self, highlight: Style) -> (res: Option<usize>)
        requires
            old(self).wf(),
        ensures
            final(self).same_article(old(self)),
            final(self).find_state.pending is None,
            final(self).wf(),
            match old(self).find_state.pending {
                None => {
                    &&& final(self).content == old(self).content
                    &&& final(self).find_state.query == old(self).find_state.query
                    &&& final(self).find_state.match_ids == old(self).find_state.match_ids
                    &&& final(self).match_ranges@ == old(self).match_ranges@
                    &&& final(self).current_match == old(self).current_match
                    &&& res is None
                },
                Some(FindSignal::Update) => {
                    &&& res is None
                    &&& final(self).find_state.query == old(self).find_state.query
                    &&& match old(self).base_content {
                        None => {
                            &&& final(self).content == old(self).content
                            &&& final(self).match_ranges@ == old(self).match_ranges@
                            &&& final(self).current_match == old(self).current_match
                        },
                        Some(base) => {
                            &&& highlight_result(
                                base@,
                                old(self).find_state.query@,
                                highlight,
                                final(self).content@,
                                final(self).match_ranges@,
                            )
                            &&& final(self).current_match is None
                            &&& final(self).find_state.match_ids@ == index_range(
                                final(self).match_ranges@.len(),
                            )
                        },
                    }
                },
                Some(FindSignal::Clear) => {
                    &&& res is None
                    &&& final(self).find_state.query@.len() == 0
                    &&& final(self).find_state.match_ids@.len() == 0
                    &&& final(self).match_ranges@.len() == 0
                    &&& final(self).current_match is None
                    &&& match old(self).base_content {
                        Some(base) => final(self).content@ == base@,
                        None => final(self).content == old(self).content,
                    }
                },
                Some(FindSignal::JumpNext) => {
                    &&& final(self).content == old(self).content
                    &&& final(self).find_state.query == old(self).find_state.query
                    &&& final(self).find_state.match_ids == old(self).find_state.match_ids
                    &&& final(self).match_ranges@ == old(self).match_ranges@
                    &&& (old(self).match_ranges@.len() == 0 ==> res is None && final(self).current_match
                        == old(self).current_match)
                    &&& (old(self).match_ranges@.len() > 0 ==> {
                        let i = next_index(old(self).current_match, old(self).match_ranges@.len());
                        final(self).current_match == Some(i as usize) && res == Some(
                            old(self).match_ranges@[i].0,
                        )
                    })
                },
                Some(FindSignal::JumpPrev) => {
                    &&& final(self).content == old(self).content
                    &&& final(self).find_state.query == old(self).find_state.query
                    &&& final(self).find_state.match_ids == old(self).find_state.match_ids
                    &&& final(self).match_ranges@ == old(self).match_ranges@
                    &&& (old(self).match_ranges@.len() == 0 ==> res is None && final(self).current_match
                        == old(self).current_match)
                    &&& (old(self).match_ranges@.len() > 0 ==> {
                        let i = prev_index(old(self).current_match, old(self).match_ranges@.len());
                        final(self).current_match == Some(i as usize) && res == Some(
                            old(self).match_ranges@[i].0,
                        )
                    })
                },
            },
    {
        let signal = self.find_state.pending;
        self.find_state.pending = None;
        match signal {
            Some(FindSignal::Update) => {
                let query = self.find_state.query.clone();
                self.apply_find_query(query.as_str(), highlight);
                None
            },
            Some(FindSignal::Clear) => {
                self.clear_find_highlights();
                self.find_state.query = String::new();
                self.find_state.match_ids = Vec::new();
                None
            },
            Some(FindSignal::JumpNext) => self.jump_to_next_match(),
            Some(FindSignal::JumpPrev) => self.jump_to_prev_match(),
            None => None,
        }
    }

    /// Takes a new rendering of the article: keeps it as the content before
    /// highlighting, shows it, keeps its links, and highlights the query of
    /// a live find session again. A failed rendering changes nothing.
    pub fn apply_parse(&mut self, parsed: Result<HTMLTextParsedResult, String>, highlight: Style)
        requires
            old(self).wf(),
        ensures
            final(self).article == old(self).article,
            final(self).width == old(self).width,
            final(self).metadata@ == old(self).metadata@,
            final(self).raw_command@ == old(self).raw_command@,
            final(self).find_state.query == old(self).find_state.query,
            final(self).find_state.pending == old(self).find_state.pending,
            final(self).wf(),
            match parsed {
                Err(_) => *final(self) == *old(self),
                Ok(r) => {
                    &&& final(self).links@ == r.links@
                    &&& final(self).base_content matches Some(b) && b@ == r.content@
                    &&& old(self).find_state.query@.len() == 0 ==> {
                        &&& final(self).content@ == r.content@
                        &&& final(self).match_ranges@ == old(self).match_ranges@
                        &&& final(self).current_match == old(self).current_match
                        &&& final(self).find_state.match_ids == old(self).find_state.match_ids
                    }
                    &&& old(self).find_state.query@.len() > 0 ==> {
                        &&& highlight_result(
                            r.content@,
                            old(self).find_state.query@,
                            highlight,
                            final(self).content@,
                            final(self).match_ranges@,
                        )
                        &&& final(self).current_match is None
                        &&& final(self).find_state.match_ids@ == index_range(final(self).match_ranges@.len())
                    }
                },
            },
    {
        match parsed {
            Err(_) => {},
            Ok(result) => {
                let HTMLTextParsedResult { content, links } = result;
                let base = copy_text(&content);
                self.base_content = Some(base);
                self.content = content;
                self.links = links;
                if !self.find_state.query.as_str().is_empty() {
                    let query = self.find_state.query.clone();
                    self.apply_find_query(query.as_str(), highlight);
                } else {
                    assert(self.find_state.query@.len() == 0);
                }
            },
        }
    }

    /// Renders the article again when the width changed, 5 columns
    /// narrower than the view (see `apply_parse`); `false`, with nothing
    /// changed, where the article cannot be rendered at that width.
    pub fn relayout(&mut self, width: usize, cs: &ComponentStyle) -> (res: bool)
        requires
            old(self).wf(),
        ensures
            final(self).wf(),
            width == old(self).width ==> res && *final(self) == *old(self),
            width != old(self).width && !article_renders(old(self).article, narrower(width), *cs) ==> !res
                && *final(self) == *old(self),
            width != old(self).width && article_renders(old(self).article, narrower(width), *cs) ==> {
                &&& res
                &&& final(self).width == width
                &&& final(self).article == old(self).article
                &&& final(self).metadata@ == old(self).metadata@
                &&& final(self).raw_command@ == old(self).raw_command@
                &&& final(self).find_state.query == old(self).find_state.query
                &&& final(self).find_state.pending == old(self).find_state.pending
                &&& match parse_outcome(old(self).article, narrower(width), *cs) {
                    None => {
                        &&& final(self).content == old(self).content
                        &&& final(self).links@ == old(self).links@
                        &&& final(self).base_content == old(self).base_content
                        &&& final(self).match_ranges@ == old(self).match_ranges@
                        &&& final(self).current_match == old(self).current_match
                        &&& final(self).find_state.match_ids == old(self).find_state.match_ids
                    },
                    Some((c, l)) => {
                        &&& strings_view(final(self).links@) == l
                        &&& final(self).base_content matches Some(b) && b@ == c
                        &&& old(self).find_state.query@.len() == 0 ==> {
                            &&& final(self).content@ == c
                            &&& final(self).match_ranges@ == old(self).match_ranges@
                            &&& final(self).current_match == old(self).current_match
                            &&& final(self).find_state.match_ids == old(self).find_state.match_ids
                        }
                        &&& old(self).find_state.query@.len() > 0 ==> {
                            &&& highlight_result(
                                c,
                                old(self).find_state.query@,
                                cs.matched_highlight,
                                final(self).content@,
                                final(self).match_ranges@,
                            )
                            &&& final(self).current_match is None
                            &&& final(self).find_state.match_ids@ == index_range(final(self).match_ranges@.len())
                        }
                    },
                }
            },
    {
        if self.width == width {
            return true;
        }
        match self.article.try_parse(width.saturating_sub(5), cs) {
            None => false,
            Some(parsed) => {
                self.width = width;
                self.apply_parse(parsed, cs.matched_highlight);
                true
            },
        }
    }

    /// Handles a key with every handler bound to it, in the order they are
    /// registered (see `article_key_spec`): the digits typed so far and the
    /// find state change, and the requests for the program around the view
    /// come back.
    #[verifier::spinoff_prover]
    #[verifier::rlimit(40)]
    pub fn handle_key(&mut self, e: &KeyEvent, km: &ArticleViewKeyMap, g: &GlobalKeyMap) -> (res: KeyOutcome<
        ArticleAction,
    >)
        ensures
            ({
                let s = article_key_spec(
                    key_state_of(old(self).raw_command@, old(self).find_state),
                    *e,
                    *km,
                    *g,
                    old(self).links@.len(),
                );
                &&& final(self).raw_command@ == s.raw
                &&& final(self).find_state.query@ == s.query
                &&& final(self).find_state.pending == s.pending
                &&& final(self).find_state.match_ids@ == s.match_ids
                &&& res.actions@ == s.actions
                &&& res.consumed == s.consumed
            }),
            final(self).article == old(self).article,
            final(self).links@ == old(self).links@,
            final(self).width == old(self).width,
            final(self).metadata@ == old(self).metadata@,
            final(self).content == old(self).content,
            final(self).base_content == old(self).base_content,
            final(self).match_ranges@ == old(self).match_ranges@,
            final(self).current_match == old(self).current_match,
    {
        let mut actions: Vec<ArticleAction> = Vec::new();
        let mut consumed = false;
        let takes_number = km.open_link_in_browser.has_event(e) || km.open_link_in_article_view.has_event(e);
        take_digit(&mut self.raw_command, e, takes_number);
        if km.open_link_dialog.has_event(e) {
            actions.push(ArticleAction::OpenLinkDialog);
            consumed = true;
        }
        if km.open_link_in_browser.has_event(e) {
            open_numbered_link(&mut self.raw_command, self.links.len(), true, &mut actions, &mut consumed);
        }
        if km.open_link_in_article_view.has_event(e) {
            open_numbered_link(&mut self.raw_command, self.links.len(), false, &mut actions, &mut consumed);
        }
        if km.open_article_in_browser.has_event(e) {
            actions.push(ArticleAction::OpenArticleInBrowser);
            consumed = true;
        }
        if g.open_help_dialog.has_event(e) {
            actions.push(ArticleAction::OpenHelp);
            consumed = true;
        }
        if km.find_in_view.has_event(e) {
            self.find_state.query = String::new();
            self.find_state.pending = Some(FindSignal::Clear);
            actions.push(ArticleAction::OpenFindDialog);
            consumed = true;
        }
        if g.close_dialog.has_event(e) && self.find_state.match_ids.len() > 0 {
            self.find_state.match_ids = Vec::new();
            self.find_state.pending = Some(FindSignal::Clear);
            consumed = true;
        }
        if km.find_next_match.has_event(e) && self.find_state.match_ids.len() > 0 {
            self.find_state.pending = Some(FindSignal::JumpNext);
            consumed = true;
        }
        if km.find_prev_match.has_event(e) && self.find_state.match_ids.len() > 0 {
            self.find_state.pending = Some(FindSignal::JumpPrev);
            consumed = true;
        }
        KeyOutcome { actions, consumed }
    }
}

/// The article screen: its title bar, the article view and the footer.
pub struct ArticleScreen {
    pub title_bar: crate::bars::TitleBar,
    pub view: ArticleView,
    pub footer: (StyledText, Vec<String>),
}

/// The article screen of an article: the title bar describing it as
/// `Article View - <title>`, a fresh article view with a fresh find
/// state, and the footer.
pub fn construct_article_view(
    article: Article,
    user: Option<&crate::profile::UserInfo>,
    help_keys: &crate::keys::Keys,
    cs: &ComponentStyle,
    light_white: crate::theme::Color,
) -> (res: ArticleScreen)
    ensures
        res.title_bar.description matches Some(d) && d@ == seq![("Article View - "@ + article.title@, cs.title_bar)],
        crate::bars::cells_view(res.title_bar.nav@) == crate::bars::nav_cells(
            crate::links::NavTarget::NoTarget,
            Seq::empty(),
            cs.title_bar,
            cs.current_story_tag,
            light_white,
        ),
        res.view.article == article,
        res.view.metadata@ == article_metadata(article),
        res.view.find_state.query@.len() == 0 && res.view.find_state.pending is None
            && res.view.find_state.match_ids@.len() == 0,
        res.view.wf(),
        res.footer.0@ == seq![("Hacker News Terminal UI - made by AOME ©"@, cs.bold)],
{
    let mut desc = String::from_str("Article View - ");
    desc.append(article.title.as_str());
    let title_bar = crate::bars::construct_view_title_bar(desc.as_str(), user, cs, light_white);
    let view = ArticleView::new(article, FindState::new_ref());
    let footer = crate::bars::construct_footer_view(help_keys, cs);
    ArticleScreen { title_bar, view, footer }
}

} // verus!

