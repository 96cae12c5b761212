//! The story list: the numbered rows of a page of stories, their vote
//! marks, the focus, numbers typed before a key, what each key does, and
//! how the keys move between pages, tags and sort orders.

use vstd::prelude::*;
use crate::article_view::{digits_after, take_digit};
use crate::comment_view::{vote_of, walk_backward, walk_forward};
use crate::items::decorated_title;
use crate::keymap::{GlobalKeyMap, ScrollKeyMap, StoryViewKeyMap};
use crate::keys::{KeyEvent, Keys};
use crate::links::story_tags;
use crate::model::{Story, VoteData, VoteDirection};
use crate::query::{next_sort_mode, no_filters, str_eq, StoryNumericFilters, StorySortMode};
use crate::items::story_page_url;
use crate::requests::{parse_usize, parsed_usize};
use crate::styled::StyledText;
use crate::text::{chars_of, decimal, string_of};
use crate::theme::{ComponentStyle, Style};
use crate::utils::{elapsed_text, get_elapsed_time_as_text_at};
use std::collections::HashMap;

verus! {

/// The number of stories on a page.
pub const STORY_LIMIT: usize = 20;

/// The host of a URL when `url::Url::parse` accepts the text and the URL
/// has a domain (`Url::domain`).
pub uninterp spec fn url_domain(s: Seq<char>) -> Option<Seq<char>>;

/// The domain of a URL (`url::Url::parse`, then `Url::domain`). Trusted:
/// the result is the one `url_domain` names.
#[verifier::external_body]
fn domain_of(s: &str) -> (res: Option<String>)
    ensures
        match res {
            Some(d) => url_domain(s@) == Some(d@),
            None => url_domain(s@) is None,
        },
{
    url::Url::parse(s).ok().and_then(|u| u.domain().map(|d| d.to_string()))
}

/// `n` spaces.
pub open spec fn spaces(n: nat) -> Seq<char>
    decreases n,
{
    if n == 0 {
        Seq::empty()
    } else {
        spaces((n - 1) as nat).push(' ')
    }
}

/// `s` right-aligned in `w` columns.
pub open spec fn pad_left(s: Seq<char>, w: nat) -> Seq<char> {
    if s.len() < w {
        spaces((w - s.len()) as nat) + s
    } else {
        s
    }
}

/// The width of the widest row number of a page: the digits of the
/// number of its last row (at least one digit).
pub open spec fn max_id_len(n: nat, starting_id: nat) -> nat {
    decimal(starting_id + n).len()
}

/// The vote mark shown before a story's points.
pub open spec fn vote_mark(vote: Option<VoteData>, cs: ComponentStyle) -> Seq<(Seq<char>, Style)> {
    match vote {
        Some(vd) => match vd.vote {
            Some(VoteDirection::Up) => seq![("▲ "@, cs.upvote)],
            Some(VoteDirection::Down) => seq![("▼ "@, cs.downvote)],
            None => Seq::empty(),
        },
        None => Seq::empty(),
    }
}

/// The summary of a story: its decorated title and its URL's domain, then
/// on the next line, aligned under the title, its vote mark, points,
/// author, age and number of comments.
pub open spec fn story_text(w: nat, story: Story, vote: Option<VoteData>, cs: ComponentStyle, now: u64) -> Seq<
    (Seq<char>, Style),
> {
    decorated_title(story.title@, cs) + (match url_domain(story.url@) {
        Some(d) => seq![(" ("@ + d + ")"@, cs.link)],
        None => Seq::empty(),
    }) + seq![("\n"@, Style::plain_spec()), (spaces(w + 2), cs.metadata)] + vote_mark(vote, cs) + seq![
        (decimal(story.points as nat) + " points | by "@ + story.author@ + " | "@ + elapsed_text(story.time, now)
            + " ago | "@ + decimal(story.num_comments as nat) + " comments"@, cs.metadata),
    ]
}

/// The row of the `i`-th story of a page: its number, right-aligned, then
/// its summary.
pub open spec fn story_row(
    w: nat,
    starting_id: nat,
    i: nat,
    story: Story,
    vote: Option<VoteData>,
    cs: ComponentStyle,
    now: u64,
) -> Seq<(Seq<char>, Style)> {
    seq![(pad_left(decimal(starting_id + i + 1), w) + ". "@, cs.metadata)] + story_text(w, story, vote, cs, now)
}

/// The width of the widest row number of a page of `n` stories.
pub fn compute_max_id_len(n: usize, starting_id: usize) -> (res: usize)
    requires
        starting_id + n <= usize::MAX,
    ensures
        res == max_id_len(n as nat, starting_id as nat),
{
    let max_id = starting_id + n;
    let digits = crate::text::decimal_chars(max_id as u64);
    digits.len()
}

/// `n` spaces.
fn spaces_string(n: usize) -> (res: String)
    ensures
        res@ == spaces(n as nat),
{
    let mut v: Vec<char> = Vec::new();
    let mut k: usize = 0;
    while k < n
        invariant
            k <= n,
            v@ == spaces(k as nat),
        decreases n - k,
    {
        v.push(' ');
        k += 1;
    }
    string_of(v.as_slice())
}

/// A decimal number right-aligned in `w` columns, then `. `.
fn row_number(number: usize, w: usize) -> (res: String)
    ensures
        res@ == pad_left(decimal(number as nat), w as nat) + ". "@,
{
    let digits = crate::text::decimal_chars(number as u64);
    let mut s = if digits.len() < w {
        spaces_string(w - digits.len())
    } else {
        String::new()
    };
    let d = string_of(digits.as_slice());
    s.append(d.as_str());
    s.append(". ");
    proof {
        if digits@.len() < w {
            assert(s@ =~= spaces((w - digits@.len()) as nat) + decimal(number as nat) + ". "@);
        } else {
            assert(s@ =~= decimal(number as nat) + ". "@);
        }
    }
    s
}

/// The summary of a story (see `story_text`), its age measured at `now`.
pub fn get_story_text(max_id_len: usize, story: &Story, vote: Option<&VoteData>, cs: &ComponentStyle, now: u64) -> (res: StyledText)
    requires
        max_id_len + 2 <= usize::MAX,
    ensures
        res@ == story_text(
            max_id_len as nat,
            *story,
            match vote {
                Some(v) => Some(*v),
                None => None,
            },
            *cs,
            now,
        ),
{
    let mut text = story.styled_title(cs);
    let ghost t0 = text@;
    match domain_of(story.url.as_str()) {
        Some(d) => {
            let mut s = String::from_str(" (");
            s.append(d.as_str());
            s.append(")");
            text.append_styled(s.as_str(), cs.link);
        },
        None => {},
    }
    let ghost t1 = text@;
    text.append_plain("\n");
    let pad = spaces_string(max_id_len + 2);
    text.append_styled(pad.as_str(), cs.metadata);
    let ghost t2 = text@;
    match vote {
        Some(vd) => match vd.vote {
            Some(VoteDirection::Up) => text.append_styled("▲ ", cs.upvote),
            Some(VoteDirection::Down) => text.append_styled("▼ ", cs.downvote),
            None => {},
        },
        None => {},
    }
    let ghost t3 = text@;
    let mut meta = crate::text::decimal_string(story.points as u64);
    meta.append(" points | by ");
    meta.append(story.author.as_str());
    meta.append(" | ");
    let age = get_elapsed_time_as_text_at(story.time, now);
    meta.append(age.as_str());
    meta.append(" ago | ");
    let nc = crate::text::decimal_string(story.num_comments as u64);
    meta.append(nc.as_str());
    meta.append(" comments");
    text.append_styled(meta.as_str(), cs.metadata);
    proof {
        let v = match vote {
            Some(v) => Some(*v),
            None => None,
        };
        let dom = match url_domain(story.url@) {
            Some(d) => seq![(" ("@ + d + ")"@, cs.link)],
            None => Seq::<(Seq<char>, Style)>::empty(),
        };
        assert(t1 =~= decorated_title(story.title@, *cs) + dom);
        assert(t2 =~= t1 + seq![("\n"@, Style::plain_spec()), (spaces(max_id_len as nat + 2), cs.metadata)]);
        assert(t3 =~= t2 + vote_mark(v, *cs));
    }
    text
}

/// The story list: the stories of a page and their rows, the focused row,
/// the digits typed so far, the number of the first row less one, the
/// width of the row numbers, and the viewer's votes keyed by story id.
pub struct StoryView {
    pub stories: Vec<Story>,
    pub rows: Vec<StyledText>,
    pub focus: usize,
    pub raw_command: String,
    pub starting_id: usize,
    pub max_id_len: usize,
    pub vote_state: HashMap<u32, VoteData>,
}

impl StoryView {
    /// The rows match the stories, the focus is on a row (on the first
    /// place of an empty list), and the row numbers fit the machine word.
    pub open spec fn wf(&self) -> bool {
        &&& self.rows@.len() == self.stories@.len()
        &&& (self.stories@.len() > 0 ==> self.focus < self.stories@.len())
        &&& (self.stories@.len() == 0 ==> self.focus == 0)
        &&& self.starting_id + self.stories@.len() + 1 <= usize::MAX
        &&& self.max_id_len == max_id_len(self.stories@.len(), self.starting_id as nat)
    }

    /// The rows of every story rendered at `now`.
    pub open spec fn rows_rendered_at(&self, now: u64, cs: ComponentStyle) -> bool {
        forall|i: int|
            0 <= i < self.stories@.len() ==> (#[trigger] self.rows@[i])@ == story_row(
                self.max_id_len as nat,
                self.starting_id as nat,
                i as nat,
                self.stories@[i],
                vote_of(self.vote_state@, self.stories@[i].id),
                cs,
                now,
            )
    }

    /// A story list for a page starting after `starting_id`, with the
    /// viewer's votes, its ages measured at `now`; the first row is focused.
    pub fn new_at(
        stories: Vec<Story>,
        starting_id: usize,
        initial_vote_state: HashMap<u32, VoteData>,
        cs: &ComponentStyle,
        now: u64,
    ) -> (res: StoryView)
        requires
            starting_id + stories@.len() + 1 <= usize::MAX,
        ensures
            res.wf(),
            res.stories@ == stories@,
            res.starting_id == starting_id,
            res.focus == 0,
            res.raw_command@.len() == 0,
            res.vote_state@ == initial_vote_state@,
            res.rows_rendered_at(now, *cs),
    {
        broadcast use vstd::std_specs::hash::group_hash_axioms;
        let w = compute_max_id_len(stories.len(), starting_id);
        proof {
            crate::text::lemma_decimal_len_bound((starting_id + stories@.len()) as nat);
        }
        let mut rows: Vec<StyledText> = Vec::new();
        let mut i: usize = 0;
        while i < stories.len()
            invariant
                i <= stories@.len(),
                rows@.len() == i,
                w == max_id_len(stories@.len(), starting_id as nat),
                w + 2 <= usize::MAX,
                starting_id + stories@.len() + 1 <= usize::MAX,
                forall|j: int|
                    0 <= j < i ==> (#[trigger] rows@[j])@ == story_row(
                        w as nat,
                        starting_id as nat,
                        j as nat,
                        stories@[j],
                        vote_of(initial_vote_state@, stories@[j].id),
                        *cs,
                        now,
                    ),
            decreases stories@.len() - i,
        {
            let mut row = StyledText::new();
            let num = row_number(starting_id + i + 1, w);
            row.append_styled(num.as_str(), cs.metadata);
            let body = get_story_text(w, &stories[i], initial_vote_state.get(&stories[i].id), cs, now);
            row.append(body);
            assert(row@ =~= story_row(
                w as nat,
                starting_id as nat,
                i as nat,
                stories@[i as int],
                vote_of(initial_vote_state@, stories@[i as int].id),
                *cs,
                now,
            ));
            rows.push(row);
            i += 1;
        }
        StoryView {
            stories,
            rows,
            focus: 0,
            raw_command: String::new(),
            starting_id,
            max_id_len: w,
            vote_state: initial_vote_state,
        }
    }

    /// Records a finished vote on a story and renders again the row of the
    /// first story with that id, its age measured at `now`.
    pub fn apply_vote_update(&mut self, story_id: u32, vd: VoteData, cs: &ComponentStyle, now: u64)
        requires
            old(self).wf(),
        ensures
            final(self).wf(),
            final(self).vote_state@ == old(self).vote_state@.insert(story_id, vd),
            final(self).stories == old(self).stories,
            final(self).focus == old(self).focus,
            final(self).raw_command == old(self).raw_command,
            final(self).rows@.len() == old(self).rows@.len(),
            forall|i: int|
                0 <= i < old(self).rows@.len() && (exists|j: int| 0 <= j < i && old(self).stories@[j].id == story_id)
                    ==> final(self).rows@[i] == old(self).rows@[i],
            forall|i: int| 0 <= i < old(self).rows@.len() && old(self).stories@[i].id != story_id ==> final(self).rows@[i] == old(self).rows@[i],
            forall|i: int|
                0 <= i < old(self).rows@.len() && old(self).stories@[i].id == story_id && (forall|j: int|
                    0 <= j < i ==> old(self).stories@[j].id != story_id) ==> (#[trigger] final(self).rows@[i])@ == story_row(
                    old(self).max_id_len as nat,
                    old(self).starting_id as nat,
                    i as nat,
                    old(self).stories@[i],
                    Some(vd),
                    *cs,
                    now,
                ),
    {
        broadcast use vstd::std_specs::hash::group_hash_axioms;
        let vd2 = VoteData { auth: vd.auth.clone(), vote: vd.vote, can_downvote: vd.can_downvote };
        self.vote_state.insert(story_id, vd);
        let mut k: usize = 0;
        while k < self.stories.len() && self.stories[k].id != story_id
            invariant
                k <= self.stories@.len(),
                self.stories == old(self).stories,
                forall|j: int| 0 <= j < k ==> old(self).stories@[j].id != story_id,
            decreases self.stories@.len() - k,
        {
            k += 1;
        }
        if k < self.stories.len() {
            proof {
                crate::text::lemma_decimal_len_bound((self.starting_id + self.stories@.len()) as nat);
            }
            let mut row = StyledText::new();
            let num = row_number(self.starting_id + k + 1, self.max_id_len);
            row.append_styled(num.as_str(), cs.metadata);
            let body = get_story_text(self.max_id_len, &self.stories[k], Some(&vd2), cs, now);
            row.append(body);
            assert(row@ =~= story_row(
                self.max_id_len as nat,
                self.starting_id as nat,
                k as nat,
                self.stories@[k as int],
                Some(vd2),
                *cs,
                now,
            ));
            let ghost before = self.rows@;
            self.rows.set(k, row);
            assert(self.rows@ == before.update(k as int, self.rows@[k as int]));
            assert(vd2 == vd);
        }
    }
}

/// The handlers of the story list, in the order they are registered.
#[derive(Debug, Clone, Copy, PartialEq, Eq, Structural)]
pub enum StoryHandler {
    /// Runs for every key: keeps the digits typed before a key.
    Prefix,
    PrevStory,
    NextStory,
    GotoCommentView,
    Upvote,
    Downvote,
    OpenArticleInBrowser,
    OpenArticleInArticleView,
    OpenStoryInBrowser,
    GotoStory,
    PageDown,
    PageUp,
}

/// The `k`-th story handler in registration order.
pub open spec fn story_handler_at(k: int) -> StoryHandler {
    if k == 0 {
        StoryHandler::Prefix
    } else if k == 1 {
        StoryHandler::PrevStory
    } else if k == 2 {
        StoryHandler::NextStory
    } else if k == 3 {
        StoryHandler::GotoCommentView
    } else if k == 4 {
        StoryHandler::Upvote
    } else if k == 5 {
        StoryHandler::Downvote
    } else if k == 6 {
        StoryHandler::OpenArticleInBrowser
    } else if k == 7 {
        StoryHandler::OpenArticleInArticleView
    } else if k == 8 {
        StoryHandler::OpenStoryInBrowser
    } else if k == 9 {
        StoryHandler::GotoStory
    } else if k == 10 {
        StoryHandler::PageDown
    } else {
        StoryHandler::PageUp
    }
}

/// The keys a story handler is bound to (none for the handler of every key).
pub open spec fn story_handler_keys(h: StoryHandler, km: StoryViewKeyMap, scroll: ScrollKeyMap) -> Seq<KeyEvent> {
    match h {
        StoryHandler::Prefix => Seq::empty(),
        StoryHandler::PrevStory => km.prev_story.events@,
        StoryHandler::NextStory => km.next_story.events@,
        StoryHandler::GotoCommentView => km.goto_story_comment_view.events@,
        StoryHandler::Upvote => km.upvote.events@,
        StoryHandler::Downvote => km.downvote.events@,
        StoryHandler::OpenArticleInBrowser => km.open_article_in_browser.events@,
        StoryHandler::OpenArticleInArticleView => km.open_article_in_article_view.events@,
        StoryHandler::OpenStoryInBrowser => km.open_story_in_browser.events@,
        StoryHandler::GotoStory => km.goto_story.events@,
        StoryHandler::PageDown => scroll.page_down.events@,
        StoryHandler::PageUp => scroll.page_up.events@,
    }
}

/// The story handlers among the first `k` that a key reaches, in order.
pub open spec fn story_handlers_upto(k: int, e: KeyEvent, km: StoryViewKeyMap, scroll: ScrollKeyMap) -> Seq<
    StoryHandler,
>
    decreases k,
{
    if k <= 0 {
        Seq::empty()
    } else {
        let h = story_handler_at(k - 1);
        story_handlers_upto(k - 1, e, km, scroll) + (if h == StoryHandler::Prefix || story_handler_keys(
            h,
            km,
            scroll,
        ).contains(e) {
            seq![h]
        } else {
            Seq::empty()
        })
    }
}

fn story_handler_at_exec(k: usize) -> (res: StoryHandler)
    requires
        k < 12,
    ensures
        res == story_handler_at(k as int),
{
    if k == 0 {
        StoryHandler::Prefix
    } else if k == 1 {
        StoryHandler::PrevStory
    } else if k == 2 {
        StoryHandler::NextStory
    } else if k == 3 {
        StoryHandler::GotoCommentView
    } else if k == 4 {
        StoryHandler::Upvote
    } else if k == 5 {
        StoryHandler::Downvote
    } else if k == 6 {
        StoryHandler::OpenArticleInBrowser
    } else if k == 7 {
        StoryHandler::OpenArticleInArticleView
    } else if k == 8 {
        StoryHandler::OpenStoryInBrowser
    } else if k == 9 {
        StoryHandler::GotoStory
    } else if k == 10 {
        StoryHandler::PageDown
    } else {
        StoryHandler::PageUp
    }
}

fn story_handler_keys_exec<'a>(h: StoryHandler, km: &'a StoryViewKeyMap, scroll: &'a ScrollKeyMap) -> (res: Option<
    &'a Keys,
>)
    ensures
        match res {
            None => h == StoryHandler::Prefix,
            Some(k) => h != StoryHandler::Prefix && k.events@ == story_handler_keys(h, *km, *scroll),
        },
{
    match h {
        StoryHandler::Prefix => None,
        StoryHandler::PrevStory => Some(&km.prev_story),
        StoryHandler::NextStory => Some(&km.next_story),
        StoryHandler::GotoCommentView => Some(&km.goto_story_comment_view),
        StoryHandler::Upvote => Some(&km.upvote),
        StoryHandler::Downvote => Some(&km.downvote),
        StoryHandler::OpenArticleInBrowser => Some(&km.open_article_in_browser),
        StoryHandler::OpenArticleInArticleView => Some(&km.open_article_in_article_view),
        StoryHandler::OpenStoryInBrowser => Some(&km.open_story_in_browser),
        StoryHandler::GotoStory => Some(&km.goto_story),
        StoryHandler::PageDown => Some(&scroll.page_down),
        StoryHandler::PageUp => Some(&scroll.page_up),
    }
}

/// The story handlers a key reaches, in the order they are registered.
pub fn story_handlers(e: &KeyEvent, km: &StoryViewKeyMap, scroll: &ScrollKeyMap) -> (res: Vec<StoryHandler>)
    ensures
        res@ == story_handlers_upto(12, *e, *km, *scroll),
{
    let mut out: Vec<StoryHandler> = Vec::new();
    let mut k: usize = 0;
    while k < 12
        invariant
            k <= 12,
            out@ == story_handlers_upto(k as int, *e, *km, *scroll),
        decreases 12 - k,
    {
        let h = story_handler_at_exec(k);
        let bound = match story_handler_keys_exec(h, km, scroll) {
            None => true,
            Some(keys) => keys.has_event(e),
        };
        if bound {
            out.push(h);
        }
        k += 1;
        assert(out@ =~= story_handlers_upto(k as int, *e, *km, *scroll));
    }
    out
}

/// A request of a story handler for the program around the list.
#[derive(Debug)]
pub enum StoryAction {
    /// Open the comments of the story of this id.
    OpenComments(u32),
    /// Vote on the story of this id, once its vote data is fetched.
    RequestVote(u32, VoteDirection),
    /// Open a URL in the browser.
    OpenInBrowser(String),
    /// Open a URL in an article view.
    OpenInArticleView(String),
}

/// What a story handler did: its request, if any, and its answer to the
/// key (see `HandlerOutcome` of the comment view).
#[derive(Debug)]
pub struct StoryOutcome {
    pub action: Option<StoryAction>,
    pub result: Option<bool>,
}

/// The target of a half-page move forward from `i`: rows are passed until
/// their heights reach `half` or the last row is reached.
pub open spec fn rows_forward(heights: Seq<usize>, i: int, accum: nat, half: nat) -> int
    decreases heights.len() - i,
{
    if i + 1 >= heights.len() || accum >= half {
        i
    } else {
        rows_forward(heights, i + 1, (accum + heights[i + 1]) as nat, half)
    }
}

/// The same move going back.
pub open spec fn rows_backward(heights: Seq<usize>, i: int, accum: nat, half: nat) -> int
    decreases i,
{
    if i <= 0 || accum >= half || i - 1 >= heights.len() {
        i
    } else {
        rows_backward(heights, i - 1, (accum + heights[i - 1]) as nat, half)
    }
}

/// The list with the focus moved to `t` when `t` is a row: the key is
/// taken; otherwise nothing happens and the key passes.
pub open spec fn story_focus_moved(v0: StoryView, v1: StoryView, t: int, out: StoryOutcome) -> bool {
    &&& out.action is None
    &&& if 0 <= t < v0.stories@.len() {
        v1 == (StoryView { focus: t as usize, ..v0 }) && out.result == Some(true)
    } else {
        v1 == v0 && out.result is None
    }
}

/// Whether a handler reads the focused story.
pub open spec fn reads_story(h: StoryHandler) -> bool {
    h == StoryHandler::GotoCommentView || h == StoryHandler::OpenArticleInBrowser || h
        == StoryHandler::OpenArticleInArticleView || h == StoryHandler::OpenStoryInBrowser
}

/// What each story handler does to the list and what it answers.
pub open spec fn story_handler_effect(
    h: StoryHandler,
    e: KeyEvent,
    km: StoryViewKeyMap,
    half_page: usize,
    heights: Seq<usize>,
    v0: StoryView,
    v1: StoryView,
    out: StoryOutcome,
) -> bool {
    let f = v0.focus as int;
    let story = v0.stories@[f];
    match h {
        StoryHandler::Prefix => {
            &&& v1 == (StoryView { raw_command: v1.raw_command, ..v0 })
            &&& v1.raw_command@ == digits_after(v0.raw_command@, e, km.goto_story.events@.contains(e))
            &&& out.action is None
            &&& out.result == Some(false)
        },
        StoryHandler::PrevStory => if f == 0 {
            v1 == v0 && out.result is None && out.action is None
        } else {
            story_focus_moved(v0, v1, f - 1, out)
        },
        StoryHandler::NextStory => story_focus_moved(v0, v1, f + 1, out),
        StoryHandler::GotoCommentView => {
            &&& v1 == v0
            &&& out.result == Some(true)
            &&& out.action matches Some(StoryAction::OpenComments(id)) && id == story.id
        },
        StoryHandler::Upvote | StoryHandler::Downvote => {
            let d = if h == StoryHandler::Upvote {
                VoteDirection::Up
            } else {
                VoteDirection::Down
            };
            &&& v1 == v0
            &&& out.result == Some(true)
            &&& if f < v0.stories@.len() {
                out.action matches Some(StoryAction::RequestVote(id, dir)) && id == story.id && dir == d
            } else {
                out.action is None
            }
        },
        StoryHandler::OpenArticleInBrowser => {
            &&& v1 == v0
            &&& out.result == Some(true)
            &&& out.action matches Some(StoryAction::OpenInBrowser(u)) && u@ == (if story.url@.len() == 0 {
                story_page_url(story.id)
            } else {
                story.url@
            })
        },
        StoryHandler::OpenArticleInArticleView => {
            &&& v1 == v0
            &&& out.result == Some(true)
            &&& if story.url@.len() > 0 {
                out.action matches Some(StoryAction::OpenInArticleView(u)) && u@ == story.url@
            } else {
                out.action is None
            }
        },
        StoryHandler::OpenStoryInBrowser => {
            &&& v1 == v0
            &&& out.result == Some(true)
            &&& out.action matches Some(StoryAction::OpenInBrowser(u)) && u@ == story_page_url(story.id)
        },
        StoryHandler::GotoStory => match parsed_usize(v0.raw_command@) {
            None => v1 == v0 && out.result is None && out.action is None,
            Some(num) => {
                &&& out.action is None
                &&& v1.raw_command@.len() == 0
                &&& if num < v0.starting_id + 1 || num - 1 - v0.starting_id >= v0.stories@.len() {
                    v1 == (StoryView { raw_command: v1.raw_command, ..v0 }) && out.result is None
                } else {
                    v1 == (StoryView { raw_command: v1.raw_command, focus: (num - 1 - v0.starting_id) as usize, ..v0 })
                        && out.result == Some(true)
                }
            },
        },
        StoryHandler::PageDown | StoryHandler::PageUp => {
            &&& out.action is None
            &&& if v0.stories@.len() == 0 {
                v1 == v0 && out.result is None
            } else {
                let t = if h == StoryHandler::PageDown {
                    rows_forward(heights, f, 0, half_page as nat)
                } else {
                    rows_backward(heights, f, 0, half_page as nat)
                };
                v1 == (StoryView { focus: t as usize, ..v0 }) && out.result == Some(true)
            }
        },
    }
}

proof fn lemma_rows_forward(heights: Seq<usize>, i: int, accum: nat, half: nat)
    requires
        0 <= i < heights.len(),
    ensures
        i <= rows_forward(heights, i, accum, half) < heights.len(),
    decreases heights.len() - i,
{
    if !(i + 1 >= heights.len() || accum >= half) {
        lemma_rows_forward(heights, i + 1, (accum + heights[i + 1]) as nat, half);
    }
}

proof fn lemma_rows_backward(heights: Seq<usize>, i: int, accum: nat, half: nat)
    requires
        0 <= i < heights.len(),
    ensures
        0 <= rows_backward(heights, i, accum, half) <= i,
    decreases i,
{
    if !(i <= 0 || accum >= half || i - 1 >= heights.len()) {
        lemma_rows_backward(heights, i - 1, (accum + heights[i - 1]) as nat, half);
    }
}

impl StoryView {
    /// Runs one handler of the story list on a key (see
    /// `story_handler_effect`). `half_page` and `heights` are the rows of
    /// half the screen and of each story.
    pub fn run_handler(
        &mut self,
        h: StoryHandler,
        e: &KeyEvent,
        km: &StoryViewKeyMap,
        half_page: usize,
        heights: &Vec<usize>,
    ) -> (res: StoryOutcome)
        requires
            old(self).wf(),
            reads_story(h) ==> old(self).stories@.len() > 0,
            heights@.len() == old(self).stories@.len(),
        ensures
            story_handler_effect(h, *e, *km, half_page, heights@, *old(self), *final(self), res),
            final(self).wf(),
    {
        let f = self.focus;
        let n = self.stories.len();
        match h {
            StoryHandler::Prefix => {
                let takes_number = km.goto_story.has_event(e);
                let mut raw = String::new();
                std::mem::swap(&mut raw, &mut self.raw_command);
                take_digit(&mut raw, e, takes_number);
                self.raw_command = raw;
                StoryOutcome { action: None, result: Some(false) }
            },
            StoryHandler::PrevStory => {
                if f == 0 {
                    StoryOutcome { action: None, result: None }
                } else if f - 1 < n {
                    self.focus = f - 1;
                    StoryOutcome { action: None, result: Some(true) }
                } else {
                    StoryOutcome { action: None, result: None }
                }
            },
            StoryHandler::NextStory => {
                if f < n && f + 1 < n {
                    self.focus = f + 1;
                    StoryOutcome { action: None, result: Some(true) }
                } else {
                    StoryOutcome { action: None, result: None }
                }
            },
            StoryHandler::GotoCommentView => StoryOutcome {
                action: Some(StoryAction::OpenComments(self.stories[f].id)),
                result: Some(true),
            },
            StoryHandler::Upvote | StoryHandler::Downvote => {
                let d = match h {
                    StoryHandler::Upvote => VoteDirection::Up,
                    _ => VoteDirection::Down,
                };
                let action = if f < n {
                    Some(StoryAction::RequestVote(self.stories[f].id, d))
                } else {
                    None
                };
                StoryOutcome { action, result: Some(true) }
            },
            StoryHandler::OpenArticleInBrowser => StoryOutcome {
                action: Some(StoryAction::OpenInBrowser(self.stories[f].get_url())),
                result: Some(true),
            },
            StoryHandler::OpenArticleInArticleView => {
                let action = if self.stories[f].url.as_str().is_empty() {
                    None
                } else {
                    Some(StoryAction::OpenInArticleView(self.stories[f].url.clone()))
                };
                StoryOutcome { action, result: Some(true) }
            },
            StoryHandler::OpenStoryInBrowser => StoryOutcome {
                action: Some(StoryAction::OpenInBrowser(self.stories[f].story_url())),
                result: Some(true),
            },
            StoryHandler::GotoStory => {
                match parse_usize(self.raw_command.as_str()) {
                    None => StoryOutcome { action: None, result: None },
                    Some(num) => {
                        self.raw_command = String::new();
                        if num < self.starting_id + 1 {
                            StoryOutcome { action: None, result: None }
                        } else {
                            let idx = num - 1 - self.starting_id;
                            if idx < n {
                                self.focus = idx;
                                StoryOutcome { action: None, result: Some(true) }
                            } else {
                                StoryOutcome { action: None, result: None }
                            }
                        }
                    },
                }
            },
            StoryHandler::PageDown | StoryHandler::PageUp => {
                if n == 0 {
                    return StoryOutcome { action: None, result: None };
                }
                let forward = match h {
                    StoryHandler::PageDown => true,
                    _ => false,
                };
                let ghost goal = if forward {
                    rows_forward(heights@, f as int, 0, half_page as nat)
                } else {
                    rows_backward(heights@, f as int, 0, half_page as nat)
                };
                proof {
                    lemma_rows_forward(heights@, f as int, 0, half_page as nat);
                    lemma_rows_backward(heights@, f as int, 0, half_page as nat);
                }
                let mut i = f;
                let mut accum: u128 = 0;
                let mut done = false;
                while !done
                    invariant
                        i < n,
                        n == heights@.len(),
                        accum <= 2 * (usize::MAX as u128),
                        goal == (if done {
                            i as int
                        } else if forward {
                            rows_forward(heights@, i as int, accum as nat, half_page as nat)
                        } else {
                            rows_backward(heights@, i as int, accum as nat, half_page as nat)
                        }),
                    decreases (if done { 0int } else if forward { n - i } else { i + 1 }), (if done { 0int } else { 1int }),
                {
                    if forward {
                        if i + 1 < n && accum < half_page as u128 {
                            i = i + 1;
                            accum = accum + heights[i] as u128;
                        } else {
                            done = true;
                        }
                    } else {
                        if i > 0 && accum < half_page as u128 {
                            i = i - 1;
                            accum = accum + heights[i] as u128;
                        } else {
                            done = true;
                        }
                    }
                }
                self.focus = i;
                StoryOutcome { action: None, result: Some(true) }
            },
        }
    }
}

/// A change of story list asked by the keys of the list's frame.
#[derive(Debug, Clone, Copy, PartialEq, Eq, Structural)]
pub enum StoryNav {
    /// Show the help of the list.
    Help,
    /// Load the stories of a tag (its place among the tags), in a sort
    /// order, at a page, with filters; the current list is dropped first
    /// when `pop_layer` holds.
    Load { tag_index: usize, sort: StorySortMode, page: usize, filters: StoryNumericFilters, pop_layer: bool },
}

/// The sort order a tag starts with: by date for all stories and jobs,
/// none otherwise.
pub open spec fn default_sort(tag_index: int) -> StorySortMode {
    if tag_index == 1 || tag_index == 4 {
        StorySortMode::Date
    } else {
        StorySortMode::NoSort
    }
}

/// What the keys of the list's frame ask, each key handler that the key
/// reaches adding its request in order: the help; a new sort order
/// (except on the front page); the next or previous tag, wrapping, from
/// its first page in its starting order and without filters; the
/// previous page (from the second one on) or the next page.
pub open spec fn story_nav_spec(
    e: KeyEvent,
    km: StoryViewKeyMap,
    g: GlobalKeyMap,
    tag_index: int,
    sort: StorySortMode,
    page: int,
    filters: StoryNumericFilters,
) -> Seq<StoryNav> {
    nav_help(e, g) + nav_sort(e, km, tag_index, sort, filters) + nav_tag(e, km, tag_index) + nav_page(
        e,
        km,
        tag_index,
        sort,
        page,
        filters,
    )
}

/// The help request of the frame's keys.
pub open spec fn nav_help(e: KeyEvent, g: GlobalKeyMap) -> Seq<StoryNav> {
    if g.open_help_dialog.events@.contains(e) {
        seq![StoryNav::Help]
    } else {
        Seq::empty()
    }
}

/// The sort request of the frame's keys: the next sort order of the tag,
/// except on the front page.
pub open spec fn nav_sort(
    e: KeyEvent,
    km: StoryViewKeyMap,
    tag_index: int,
    sort: StorySortMode,
    filters: StoryNumericFilters,
) -> Seq<StoryNav> {
    if km.cycle_sort_mode.events@.contains(e) && tag_index != 0 {
        seq![
            StoryNav::Load {
                tag_index: tag_index as usize,
                sort: next_sort_mode(sort, story_tags()[tag_index]),
                page: 0,
                filters,
                pop_layer: true,
            },
        ]
    } else {
        Seq::empty()
    }
}

/// The tag requests of the frame's keys: the next and the previous tag,
/// wrapping, from their first page in their starting order and without
/// filters.
pub open spec fn nav_tag(e: KeyEvent, km: StoryViewKeyMap, tag_index: int) -> Seq<StoryNav> {
    let next_tag = (tag_index + 1) % 5;
    let prev_tag = (tag_index + 4) % 5;
    (if km.next_story_tag.events@.contains(e) {
        seq![
            StoryNav::Load {
                tag_index: next_tag as usize,
                sort: default_sort(next_tag),
                page: 0,
                filters: no_filters(),
                pop_layer: false,
            },
        ]
    } else {
        Seq::empty()
    }) + (if km.prev_story_tag.events@.contains(e) {
        seq![
            StoryNav::Load {
                tag_index: prev_tag as usize,
                sort: default_sort(prev_tag),
                page: 0,
                filters: no_filters(),
                pop_layer: false,
            },
        ]
    } else {
        Seq::empty()
    })
}

/// The page requests of the frame's keys: the previous page from the
/// second one on, and the next page.
pub open spec fn nav_page(
    e: KeyEvent,
    km: StoryViewKeyMap,
    tag_index: int,
    sort: StorySortMode,
    page: int,
    filters: StoryNumericFilters,
) -> Seq<StoryNav> {
    (if km.prev_page.events@.contains(e) && page > 0 {
        seq![StoryNav::Load { tag_index: tag_index as usize, sort, page: (page - 1) as usize, filters, pop_layer: true }]
    } else {
        Seq::empty()
    }) + (if km.next_page.events@.contains(e) {
        seq![StoryNav::Load { tag_index: tag_index as usize, sort, page: (page + 1) as usize, filters, pop_layer: true }]
    } else {
        Seq::empty()
    })
}

/// What the keys of the list's frame ask (see `story_nav_spec`); when a
/// request comes back, the key does not reach the list itself.
pub fn story_view_nav(
    e: &KeyEvent,
    km: &StoryViewKeyMap,
    g: &GlobalKeyMap,
    tag_index: usize,
    sort: StorySortMode,
    page: usize,
    filters: StoryNumericFilters,
) -> (res: Vec<StoryNav>)
    requires
        tag_index < story_tags().len(),
        tag_index == 0 ==> sort == StorySortMode::NoSort,
        (tag_index == 1 || tag_index == 4) ==> sort != StorySortMode::NoSort,
        page < usize::MAX,
    ensures
        res@ == story_nav_spec(*e, *km, *g, tag_index as int, sort, page as int, filters),
{
    let mut out: Vec<StoryNav> = Vec::new();
    if g.open_help_dialog.has_event(e) {
        out.push(StoryNav::Help);
    }
    assert(out@ =~= nav_help(*e, *g));
    if km.cycle_sort_mode.has_event(e) && tag_index != 0 {
        let new_sort = next_sort_of_tag(sort, tag_index);
        out.push(StoryNav::Load { tag_index, sort: new_sort, page: 0, filters, pop_layer: true });
    }
    assert(out@ =~= nav_help(*e, *g) + nav_sort(*e, *km, tag_index as int, sort, filters));
    push_tag_navs(&mut out, e, km, tag_index);
    push_page_navs(&mut out, e, km, tag_index, sort, page, filters);
    out
}

/// Whether the list's frame takes a key: each of its keys is taken whether
/// or not it asks for anything (sorting the front page, or the page before
/// the first, asks nothing), and so does not reach the list.
pub fn story_frame_takes(e: &KeyEvent, km: &StoryViewKeyMap, g: &GlobalKeyMap) -> (res: bool)
    ensures
        res == (g.open_help_dialog.events@.contains(*e) || km.cycle_sort_mode.events@.contains(*e)
            || km.next_story_tag.events@.contains(*e) || km.prev_story_tag.events@.contains(*e)
            || km.prev_page.events@.contains(*e) || km.next_page.events@.contains(*e)),
{
    g.open_help_dialog.has_event(e) || km.cycle_sort_mode.has_event(e) || km.next_story_tag.has_event(e)
        || km.prev_story_tag.has_event(e) || km.prev_page.has_event(e) || km.next_page.has_event(e)
}

/// Adds the tag requests of the frame's keys (see `nav_tag`).
fn push_tag_navs(out: &mut Vec<StoryNav>, e: &KeyEvent, km: &StoryViewKeyMap, tag_index: usize)
    requires
        tag_index < 5,
    ensures
        final(out)@ == old(out)@ + nav_tag(*e, *km, tag_index as int),
{
    let ghost s0 = out@;
    let ghost nt = (tag_index + 1) % 5;
    let ghost pt = (tag_index + 4) % 5;
    if km.next_story_tag.has_event(e) {
        let t = (tag_index + 1) % 5;
        let srt = if t == 1 || t == 4 {
            StorySortMode::Date
        } else {
            StorySortMode::NoSort
        };
        out.push(StoryNav::Load { tag_index: t, sort: srt, page: 0, filters: StoryNumericFilters::default(), pop_layer: false });
    }
    let ghost s1 = out@;
    if km.prev_story_tag.has_event(e) {
        let t = (tag_index + 4) % 5;
        let srt = if t == 1 || t == 4 {
            StorySortMode::Date
        } else {
            StorySortMode::NoSort
        };
        out.push(StoryNav::Load { tag_index: t, sort: srt, page: 0, filters: StoryNumericFilters::default(), pop_layer: false });
    }
    assert(out@ =~= s0 + nav_tag(*e, *km, tag_index as int));
}

/// Adds the page requests of the frame's keys (see `nav_page`).
fn push_page_navs(
    out: &mut Vec<StoryNav>,
    e: &KeyEvent,
    km: &StoryViewKeyMap,
    tag_index: usize,
    sort: StorySortMode,
    page: usize,
    filters: StoryNumericFilters,
)
    requires
        page < usize::MAX,
    ensures
        final(out)@ == old(out)@ + nav_page(*e, *km, tag_index as int, sort, page as int, filters),
{
    let ghost s0 = out@;
    if km.prev_page.has_event(e) && page > 0 {
        out.push(StoryNav::Load { tag_index, sort, page: page - 1, filters, pop_layer: true });
    }
    if km.next_page.has_event(e) {
        out.push(StoryNav::Load { tag_index, sort, page: page + 1, filters, pop_layer: true });
    }
    assert(out@ =~= s0 + nav_page(*e, *km, tag_index as int, sort, page as int, filters));
}

/// The next sort order of the tag at `tag_index` (see `next_sort_mode`).
fn next_sort_of_tag(sort: StorySortMode, tag_index: usize) -> (res: StorySortMode)
    requires
        tag_index < story_tags().len(),
        tag_index == 0 ==> sort == StorySortMode::NoSort,
        (tag_index == 1 || tag_index == 4) ==> sort != StorySortMode::NoSort,
    ensures
        res == next_sort_mode(sort, story_tags()[tag_index as int]),
{
    proof {
        reveal_strlit("front_page");
        reveal_strlit("story");
        reveal_strlit("job");
        reveal_strlit("ask_hn");
        reveal_strlit("show_hn");
    }
    let tags = crate::links::story_tags_list();
    assert(tags@.map_values(|s: &str| s@).len() == story_tags().len());
    assert(tags@.map_values(|s: &str| s@)[tag_index as int] == tags@[tag_index as int]@);
    sort.next(tags[tag_index])
}

/// The story screen: the top bar, the list, and the footer, with the
/// list's tag, sort order, page and filters for its frame's keys.
pub struct StoryScreen {
    pub top_bar: crate::bars::TitleBar,
    pub view: StoryView,
    pub footer: (StyledText, Vec<String>),
    pub tag_index: usize,
    pub sort: StorySortMode,
    pub page: usize,
    pub filters: StoryNumericFilters,
}

/// The story screen of a page of stories of a tag: rows numbered from the
/// page's first place (`STORY_LIMIT` per page), ages measured at `now`,
/// the tag active in the top bar with the sort suffix.
pub fn construct_story_view(
    stories: Vec<Story>,
    initial_vote_state: HashMap<u32, VoteData>,
    tag_index: usize,
    sort_mode: StorySortMode,
    page: usize,
    numeric_filters: StoryNumericFilters,
    user: Option<&crate::profile::UserInfo>,
    help_keys: &Keys,
    cs: &ComponentStyle,
    light_white: crate::theme::Color,
    now: u64,
) -> (res: StoryScreen)
    requires
        STORY_LIMIT * page + stories@.len() + 1 <= usize::MAX,
    ensures
        res.view.wf(),
        res.view.stories@ == stories@,
        res.view.starting_id == STORY_LIMIT * page,
        res.view.focus == 0,
        res.view.vote_state@ == initial_vote_state@,
        res.view.rows_rendered_at(now, *cs),
        crate::bars::cells_view(res.top_bar.nav@) == crate::bars::nav_cells(
            crate::links::NavTarget::StoryTag(tag_index),
            crate::links::sort_suffix(sort_mode),
            cs.title_bar,
            cs.current_story_tag,
            light_white,
        ),
        res.tag_index == tag_index,
        res.sort == sort_mode,
        res.page == page,
        res.filters == numeric_filters,
{
    let starting_id = STORY_LIMIT * page;
    let view = StoryView::new_at(stories, starting_id, initial_vote_state, cs, now);
    let top_bar = crate::bars::construct_story_view_top_bar(tag_index, sort_mode, user, cs, light_white);
    let footer = crate::bars::construct_footer_view(help_keys, cs);
    StoryScreen { top_bar, view, footer, tag_index, sort: sort_mode, page, filters: numeric_filters }
}

} // verus!

