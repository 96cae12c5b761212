//! What the keys of the comment view do: which handlers a key reaches, in
//! the order they are registered (every handler bound to the key runs),
//! and what each handler does to the view.

use vstd::prelude::*;
use crate::article_view::{digits_after, take_digit};
use crate::comment_view::{
    PageData,
    consistent, levels, next_leq, next_match, next_visible, prev_leq, prev_match_from, prev_visible_from, sibling_target, states,
    toggle_focused, toggle_keeps_consistent, vote_of, vote_outcome, walk_backward, walk_forward, CommentView,
    NavigationDirection, VoteRequest, VouchRequest,
};
use crate::find::{find_ranges, highlight_matches, highlight_result, FindSignal, FindState};
use crate::keymap::{CommentViewKeyMap, GlobalKeyMap, ScrollKeyMap};
use crate::keys::{KeyEvent, Keys};
use crate::items::{comment_item, me_view};
use crate::model::{item_text, Comment, DisplayState, HnItem, VoteData, VoteDirection};
use crate::reply::PendingAction;
use crate::requests::{parse_usize, parsed_usize};
use crate::styled::source_of;
use crate::theme::{ComponentStyle, Style};

verus! {

/// The handlers of the comment view, in the order they are registered.
#[derive(Debug, Clone, Copy, PartialEq, Eq, Structural)]
pub enum CommentHandler {
    /// Runs for every key: keeps the digits typed before a key.
    Prefix,
    Upvote,
    Downvote,
    Vouch,
    Reply,
    Edit,
    PrevComment,
    NextComment,
    NextLeqLevel,
    PrevLeqLevel,
    CloseFind,
    FindNext,
    FindPrev,
    NextTopLevel,
    PrevTopLevel,
    Parent,
    LinkInBrowser,
    LinkInArticleView,
    CommentInBrowser,
    ToggleCollapse,
    ArticleInBrowser,
    ArticleInArticleView,
    StoryInBrowser,
    Help,
    FindInView,
    PageDown,
    PageUp,
}

/// The number of handlers.
pub open spec fn handler_count() -> int {
    27
}

/// The `k`-th handler in registration order.
pub open spec fn handler_at(k: int) -> CommentHandler {
    if k == 0 {
        CommentHandler::Prefix
    } else if k == 1 {
        CommentHandler::Upvote
    } else if k == 2 {
        CommentHandler::Downvote
    } else if k == 3 {
        CommentHandler::Vouch
    } else if k == 4 {
        CommentHandler::Reply
    } else if k == 5 {
        CommentHandler::Edit
    } else if k == 6 {
        CommentHandler::PrevComment
    } else if k == 7 {
        CommentHandler::NextComment
    } else if k == 8 {
        CommentHandler::NextLeqLevel
    } else if k == 9 {
        CommentHandler::PrevLeqLevel
    } else if k == 10 {
        CommentHandler::CloseFind
    } else if k == 11 {
        CommentHandler::FindNext
    } else if k == 12 {
        CommentHandler::FindPrev
    } else if k == 13 {
        CommentHandler::NextTopLevel
    } else if k == 14 {
        CommentHandler::PrevTopLevel
    } else if k == 15 {
        CommentHandler::Parent
    } else if k == 16 {
        CommentHandler::LinkInBrowser
    } else if k == 17 {
        CommentHandler::LinkInArticleView
    } else if k == 18 {
        CommentHandler::CommentInBrowser
    } else if k == 19 {
        CommentHandler::ToggleCollapse
    } else if k == 20 {
        CommentHandler::ArticleInBrowser
    } else if k == 21 {
        CommentHandler::ArticleInArticleView
    } else if k == 22 {
        CommentHandler::StoryInBrowser
    } else if k == 23 {
        CommentHandler::Help
    } else if k == 24 {
        CommentHandler::FindInView
    } else if k == 25 {
        CommentHandler::PageDown
    } else {
        CommentHandler::PageUp
    }
}

/// The keys a handler is bound to (none for the handler of every key).
pub open spec fn handler_keys(h: CommentHandler, km: CommentViewKeyMap, scroll: ScrollKeyMap, g: GlobalKeyMap) -> Seq<
    KeyEvent,
> {
    match h {
        CommentHandler::Prefix => Seq::empty(),
        CommentHandler::Upvote => km.upvote.events@,
        CommentHandler::Downvote => km.downvote.events@,
        CommentHandler::Vouch => km.vouch.events@,
        CommentHandler::Reply => km.reply.events@,
        CommentHandler::Edit => km.edit.events@,
        CommentHandler::PrevComment => km.prev_comment.events@,
        CommentHandler::NextComment => km.next_comment.events@,
        CommentHandler::NextLeqLevel => km.next_leq_level_comment.events@,
        CommentHandler::PrevLeqLevel => km.prev_leq_level_comment.events@,
        CommentHandler::CloseFind => g.close_dialog.events@,
        CommentHandler::FindNext => km.find_next_match.events@,
        CommentHandler::FindPrev => km.find_prev_match.events@,
        CommentHandler::NextTopLevel => km.next_top_level_comment.events@,
        CommentHandler::PrevTopLevel => km.prev_top_level_comment.events@,
        CommentHandler::Parent => km.parent_comment.events@,
        CommentHandler::LinkInBrowser => km.open_link_in_browser.events@,
        CommentHandler::LinkInArticleView => km.open_link_in_article_view.events@,
        CommentHandler::CommentInBrowser => km.open_comment_in_browser.events@,
        CommentHandler::ToggleCollapse => km.toggle_collapse_comment.events@,
        CommentHandler::ArticleInBrowser => km.open_article_in_browser.events@,
        CommentHandler::ArticleInArticleView => km.open_article_in_article_view.events@,
        CommentHandler::StoryInBrowser => km.open_story_in_browser.events@,
        CommentHandler::Help => g.open_help_dialog.events@,
        CommentHandler::FindInView => km.find_in_view.events@,
        CommentHandler::PageDown => scroll.page_down.events@,
        CommentHandler::PageUp => scroll.page_up.events@,
    }
}

/// Whether a key reaches a handler.
pub open spec fn handler_bound(
    h: CommentHandler,
    e: KeyEvent,
    km: CommentViewKeyMap,
    scroll: ScrollKeyMap,
    g: GlobalKeyMap,
) -> bool {
    h == CommentHandler::Prefix || handler_keys(h, km, scroll, g).contains(e)
}

/// The handlers among the first `k` that a key reaches, in order.
pub open spec fn handlers_upto(k: int, e: KeyEvent, km: CommentViewKeyMap, scroll: ScrollKeyMap, g: GlobalKeyMap) -> Seq<
    CommentHandler,
>
    decreases k,
{
    if k <= 0 {
        Seq::empty()
    } else {
        handlers_upto(k - 1, e, km, scroll, g) + (if handler_bound(handler_at(k - 1), e, km, scroll, g) {
            seq![handler_at(k - 1)]
        } else {
            Seq::empty()
        })
    }
}

/// The `k`-th handler in registration order.
fn handler_at_exec(k: usize) -> (res: CommentHandler)
    requires
        k < 27,
    ensures
        res == handler_at(k as int),
{
    if k == 0 {
        CommentHandler::Prefix
    } else if k == 1 {
        CommentHandler::Upvote
    } else if k == 2 {
        CommentHandler::Downvote
    } else if k == 3 {
        CommentHandler::Vouch
    } else if k == 4 {
        CommentHandler::Reply
    } else if k == 5 {
        CommentHandler::Edit
    } else if k == 6 {
        CommentHandler::PrevComment
    } else if k == 7 {
        CommentHandler::NextComment
    } else if k == 8 {
        CommentHandler::NextLeqLevel
    } else if k == 9 {
        CommentHandler::PrevLeqLevel
    } else if k == 10 {
        CommentHandler::CloseFind
    } else if k == 11 {
        CommentHandler::FindNext
    } else if k == 12 {
        CommentHandler::FindPrev
    } else if k == 13 {
        CommentHandler::NextTopLevel
    } else if k == 14 {
        CommentHandler::PrevTopLevel
    } else if k == 15 {
        CommentHandler::Parent
    } else if k == 16 {
        CommentHandler::LinkInBrowser
    } else if k == 17 {
        CommentHandler::LinkInArticleView
    } else if k == 18 {
        CommentHandler::CommentInBrowser
    } else if k == 19 {
        CommentHandler::ToggleCollapse
    } else if k == 20 {
        CommentHandler::ArticleInBrowser
    } else if k == 21 {
        CommentHandler::ArticleInArticleView
    } else if k == 22 {
        CommentHandler::StoryInBrowser
    } else if k == 23 {
        CommentHandler::Help
    } else if k == 24 {
        CommentHandler::FindInView
    } else if k == 25 {
        CommentHandler::PageDown
    } else {
        CommentHandler::PageUp
    }
}

/// The keys a handler is bound to; `None` for the handler of every key.
fn handler_keys_exec<'a>(
    h: CommentHandler,
    km: &'a CommentViewKeyMap,
    scroll: &'a ScrollKeyMap,
    g: &'a GlobalKeyMap,
) -> (res: Option<&'a Keys>)
    ensures
        match res {
            None => h == CommentHandler::Prefix,
            Some(k) => h != CommentHandler::Prefix && k.events@ == handler_keys(h, *km, *scroll, *g),
        },
{
    match h {
        CommentHandler::Prefix => None,
        CommentHandler::Upvote => Some(&km.upvote),
        CommentHandler::Downvote => Some(&km.downvote),
        CommentHandler::Vouch => Some(&km.vouch),
        CommentHandler::Reply => Some(&km.reply),
        CommentHandler::Edit => Some(&km.edit),
        CommentHandler::PrevComment => Some(&km.prev_comment),
        CommentHandler::NextComment => Some(&km.next_comment),
        CommentHandler::NextLeqLevel => Some(&km.next_leq_level_comment),
        CommentHandler::PrevLeqLevel => Some(&km.prev_leq_level_comment),
        CommentHandler::CloseFind => Some(&g.close_dialog),
        CommentHandler::FindNext => Some(&km.find_next_match),
        CommentHandler::FindPrev => Some(&km.find_prev_match),
        CommentHandler::NextTopLevel => Some(&km.next_top_level_comment),
        CommentHandler::PrevTopLevel => Some(&km.prev_top_level_comment),
        CommentHandler::Parent => Some(&km.parent_comment),
        CommentHandler::LinkInBrowser => Some(&km.open_link_in_browser),
        CommentHandler::LinkInArticleView => Some(&km.open_link_in_article_view),
        CommentHandler::CommentInBrowser => Some(&km.open_comment_in_browser),
        CommentHandler::ToggleCollapse => Some(&km.toggle_collapse_comment),
        CommentHandler::ArticleInBrowser => Some(&km.open_article_in_browser),
        CommentHandler::ArticleInArticleView => Some(&km.open_article_in_article_view),
        CommentHandler::StoryInBrowser => Some(&km.open_story_in_browser),
        CommentHandler::Help => Some(&g.open_help_dialog),
        CommentHandler::FindInView => Some(&km.find_in_view),
        CommentHandler::PageDown => Some(&scroll.page_down),
        CommentHandler::PageUp => Some(&scroll.page_up),
    }
}

/// The handlers a key reaches, in the order they are registered.
pub fn comment_handlers(
    e: &KeyEvent,
    km: &CommentViewKeyMap,
    scroll: &ScrollKeyMap,
    g: &GlobalKeyMap,
) -> (res: Vec<CommentHandler>)
    ensures
        res@ == handlers_upto(handler_count(), *e, *km, *scroll, *g),
{
    let mut out: Vec<CommentHandler> = Vec::new();
    let mut k: usize = 0;
    while k < 27
        invariant
            k <= 27,
            out@ == handlers_upto(k as int, *e, *km, *scroll, *g),
        decreases 27 - k,
    {
        let h = handler_at_exec(k);
        let bound = match handler_keys_exec(h, km, scroll, g) {
            None => true,
            Some(keys) => keys.has_event(e),
        };
        if bound {
            out.push(h);
        }
        k += 1;
        assert(out@ =~= handlers_upto(k as int, *e, *km, *scroll, *g));
    }
    out
}

/// A request of a comment-view handler for the program around the view.
#[derive(Debug)]
pub enum CommentAction {
    /// Send a vote to HN.
    SendVote(VoteRequest),
    /// Send a vouch to HN.
    SendVouch(VouchRequest),
    /// Leave the interface to reply to or edit a comment.
    Pending(PendingAction),
    /// Open the focused item's link of this number (from 1) in the browser.
    OpenLinkInBrowser(usize),
    /// Open the focused item's link of this number (from 1) in an article view.
    OpenLinkInArticleView(usize),
    /// Open the HN page of the item of this id in the browser.
    OpenCommentInBrowser(u32),
    /// Open the story's article in the browser.
    OpenArticleInBrowser,
    /// Open the story's article in an article view.
    OpenArticleInArticleView,
    /// Open the HN page of the story of this id in the browser.
    OpenStoryInBrowser(u32),
    /// Show the help of the view.
    OpenHelp,
    /// Show the find dialog.
    OpenFindDialog,
}

/// What a handler did: its request, if any, and its answer to the key:
/// `None` when it let the key pass, `Some(true)` when it took it, and
/// `Some(false)` when it kept the key from the view's list while leaving
/// it unhandled.
#[derive(Debug)]
pub struct HandlerOutcome {
    pub action: Option<CommentAction>,
    pub result: Option<bool>,
}

/// The view after moving the focus to `t`: an item that is shown takes
/// the focus and the key is taken; otherwise nothing happens and the key
/// passes.
pub open spec fn focus_moved(v0: CommentView, v1: CommentView, t: int, out: HandlerOutcome) -> bool {
    &&& out.action is None
    &&& if 0 <= t < v0.items@.len() && v0.visible@[t] {
        v1 == (CommentView { focus: t as usize, ..v0 }) && out.result == Some(true)
    } else {
        v1 == v0 && out.result is None
    }
}

/// The view is well formed and its focused item is shown.
pub open spec fn ready(v: CommentView) -> bool {
    v.wf() && v.visible@[v.focus as int]
}

/// The level of the focused item.
pub open spec fn focus_level(v: CommentView) -> nat {
    levels(v.items@)[v.focus as int]
}

/// What a vote handler does: see `vote_outcome`.
pub open spec fn voted(v0: CommentView, v1: CommentView, d: VoteDirection, out: HandlerOutcome) -> bool {
    let item_id = v0.items@[v0.focus as int].id;
    &&& out.result == Some(true)
    &&& v1.items == v0.items
    &&& v1.visible == v0.visible
    &&& v1.focus == v0.focus
    &&& v1.rendered.len() == v0.rendered.len()
    &&& v1.find_state == v0.find_state
    &&& v1.raw_command == v0.raw_command
    &&& match vote_of(v0.vote_state@, item_id) {
        None => out.action is None && v1.vote_state@ == v0.vote_state@,
        Some(vd) => match vote_outcome(vd, d) {
            None => out.action is None && v1.vote_state@ == v0.vote_state@,
            Some(nv) => {
                &&& out.action matches Some(CommentAction::SendVote(r)) && r.item_id == item_id && r.auth@
                    == vd.auth@ && r.vote == nv
                &&& v1.vote_state@.dom() == v0.vote_state@.dom()
                &&& v1.vote_state@[item_id].vote == nv
                &&& v1.vote_state@[item_id].auth@ == vd.auth@
                &&& v1.vote_state@[item_id].can_downvote == vd.can_downvote
                &&& forall|k: u32|
                    k != item_id ==> #[trigger] v1.vote_state@.contains_key(k) ==> v1.vote_state@[k]
                        == v0.vote_state@[k]
            },
        },
    }
}

/// What a handler that opens a numbered link of the focused item does:
/// without a typed number the key passes; with one the digits are
/// dropped, the key is taken, and the link is asked for when the number
/// names one.
pub open spec fn numbered(v0: CommentView, v1: CommentView, out: HandlerOutcome, in_browser: bool) -> bool {
    match parsed_usize(v0.raw_command@) {
        None => v1 == v0 && out.result is None && out.action is None,
        Some(num) => {
            &&& v1 == (CommentView { raw_command: v1.raw_command, ..v0 })
            &&& v1.raw_command@.len() == 0
            &&& out.result == Some(true)
            &&& if 0 < num <= v0.items@[v0.focus as int].links@.len() {
                if in_browser {
                    out.action == Some(CommentAction::OpenLinkInBrowser(num))
                } else {
                    out.action == Some(CommentAction::OpenLinkInArticleView(num))
                }
            } else {
                out.action is None
            }
        },
    }
}

/// What each handler does to the comment view and what it answers.
pub open spec fn handler_effect(
    h: CommentHandler,
    e: KeyEvent,
    km: CommentViewKeyMap,
    me: Option<Seq<char>>,
    half_page: usize,
    heights: Seq<usize>,
    v0: CommentView,
    v1: CommentView,
    out: HandlerOutcome,
) -> bool {
    let f = v0.focus as int;
    let item = v0.items@[f];
    let takes_number = km.open_link_in_browser.events@.contains(e) || km.open_link_in_article_view.events@.contains(e);
    match h {
        CommentHandler::Prefix => {
            &&& v1 == (CommentView { raw_command: v1.raw_command, ..v0 })
            &&& v1.raw_command@ == digits_after(v0.raw_command@, e, takes_number)
            &&& out.action is None
            &&& out.result == Some(false)
        },
        CommentHandler::Upvote => voted(v0, v1, VoteDirection::Up, out),
        CommentHandler::Downvote => voted(v0, v1, VoteDirection::Down, out),
        CommentHandler::Vouch => {
            &&& out.result == Some(true)
            &&& v1 == (CommentView { vouch_state: v1.vouch_state, ..v0 })
            &&& if v0.vouch_state@.contains_key(item.id) {
                let vd = v0.vouch_state@[item.id];
                &&& out.action matches Some(CommentAction::SendVouch(r)) && r.item_id == item.id && r.auth@
                    == vd.auth@ && r.rescind == vd.vouched
                &&& v1.vouch_state@.dom() == v0.vouch_state@.dom()
                &&& v1.vouch_state@[item.id].vouched == !vd.vouched
                &&& v1.vouch_state@[item.id].auth@ == vd.auth@
                &&& forall|k: u32|
                    k != item.id ==> #[trigger] v1.vouch_state@.contains_key(k) ==> v1.vouch_state@[k]
                        == v0.vouch_state@[k]
            } else {
                out.action is None && v1.vouch_state@ == v0.vouch_state@
            }
        },
        CommentHandler::Reply => {
            &&& v1 == v0
            &&& out.result == Some(true)
            &&& out.action matches Some(
                CommentAction::Pending(PendingAction::ReplyTo { parent_id, parent_content, return_to_id }),
            ) && parent_id == item.id && parent_content@ == source_of(item.text@) && return_to_id
                == v0.root_id
        },
        CommentHandler::Edit => {
            &&& v1 == v0
            &&& if me matches Some(m) && item.author matches Some(a) && a@ == m {
                &&& out.result == Some(true)
                &&& out.action matches Some(CommentAction::Pending(PendingAction::EditComment { comment_id, return_to_id }))
                    && comment_id == item.id && return_to_id == v0.root_id
            } else {
                out.result is None && out.action is None
            }
        },
        CommentHandler::PrevComment => focus_moved(v0, v1, prev_visible_from(v0.visible@, f, f), out),
        CommentHandler::NextComment => focus_moved(v0, v1, next_visible(v0.visible@, f), out),
        CommentHandler::NextLeqLevel => focus_moved(v0, v1, next_leq(levels(v0.items@), f, focus_level(v0)), out),
        CommentHandler::PrevLeqLevel => focus_moved(v0, v1, prev_leq(levels(v0.items@), f, focus_level(v0)), out),
        CommentHandler::CloseFind => {
            &&& out.action is None
            &&& if v0.find_state.match_ids@.len() == 0 {
                v1 == v0 && out.result is None
            } else {
                &&& v1 == (CommentView { find_state: v1.find_state, ..v0 })
                &&& v1.find_state.match_ids@.len() == 0
                &&& v1.find_state.pending == Some(FindSignal::Clear)
                &&& v1.find_state.query == v0.find_state.query
                &&& out.result == Some(true)
            }
        },
        CommentHandler::FindNext | CommentHandler::FindPrev => {
            &&& out.action is None
            &&& if v0.find_state.match_ids@.len() == 0 {
                v1 == v0 && out.result is None
            } else {
                &&& v1 == (CommentView { find_state: v1.find_state, ..v0 })
                &&& v1.find_state.match_ids == v0.find_state.match_ids
                &&& v1.find_state.query == v0.find_state.query
                &&& v1.find_state.pending == Some(
                    if h == CommentHandler::FindNext {
                        FindSignal::JumpNext
                    } else {
                        FindSignal::JumpPrev
                    },
                )
                &&& out.result == Some(true)
            }
        },
        CommentHandler::NextTopLevel => if km.find_next_match.events@.contains(e)
            && v0.find_state.match_ids@.len() > 0 {
            v1 == v0 && out.result is None && out.action is None
        } else {
            focus_moved(v0, v1, sibling_target(levels(v0.items@), f, NavigationDirection::Next), out)
        },
        CommentHandler::PrevTopLevel => if km.find_prev_match.events@.contains(e)
            && v0.find_state.match_ids@.len() > 0 {
            v1 == v0 && out.result is None && out.action is None
        } else {
            focus_moved(v0, v1, sibling_target(levels(v0.items@), f, NavigationDirection::Previous), out)
        },
        CommentHandler::Parent => if focus_level(v0) > 0 {
            focus_moved(v0, v1, prev_leq(levels(v0.items@), f, (focus_level(v0) - 1) as nat), out)
        } else {
            v1 == v0 && out.result == Some(true) && out.action is None
        },
        CommentHandler::LinkInBrowser => numbered(v0, v1, out, true),
        CommentHandler::LinkInArticleView => numbered(v0, v1, out, false),
        CommentHandler::CommentInBrowser => v1 == v0 && out.result == Some(true) && out.action == Some(
            CommentAction::OpenCommentInBrowser(item.id),
        ),
        CommentHandler::ToggleCollapse => {
            &&& out.result == Some(true)
            &&& out.action is None
            &&& v1.focus == v0.focus
            &&& (states(v1.items@), v1.visible@) == toggle_focused(
                levels(v0.items@),
                states(v0.items@),
                v0.visible@,
                f,
            )
            &&& levels(v1.items@) == levels(v0.items@)
            &&& v1.vote_state == v0.vote_state
            &&& v1.find_state == v0.find_state
            &&& v1.raw_command == v0.raw_command
        },
        CommentHandler::ArticleInBrowser => v1 == v0 && out.result == Some(true) && out.action == Some(
            CommentAction::OpenArticleInBrowser,
        ),
        CommentHandler::ArticleInArticleView => {
            &&& v1 == v0
            &&& out.result == Some(true)
            &&& if v0.url@.len() > 0 {
                out.action == Some(CommentAction::OpenArticleInArticleView)
            } else {
                out.action is None
            }
        },
        CommentHandler::StoryInBrowser => v1 == v0 && out.result == Some(true) && out.action == Some(
            CommentAction::OpenStoryInBrowser(v0.root_id),
        ),
        CommentHandler::Help => v1 == v0 && out.result == Some(true) && out.action == Some(CommentAction::OpenHelp),
        CommentHandler::FindInView => {
            &&& v1 == (CommentView { find_state: v1.find_state, ..v0 })
            &&& v1.find_state.query@.len() == 0
            &&& v1.find_state.pending == Some(FindSignal::Clear)
            &&& v1.find_state.match_ids == v0.find_state.match_ids
            &&& out.result == Some(true)
            &&& out.action == Some(CommentAction::OpenFindDialog)
        },
        CommentHandler::PageDown => {
            &&& v1 == (CommentView {
                focus: walk_forward(v0.visible@, heights, f, 0, half_page as nat) as usize,
                ..v0
            })
            &&& out.result == Some(true)
            &&& out.action is None
        },
        CommentHandler::PageUp => {
            &&& v1 == (CommentView {
                focus: walk_backward(v0.visible@, heights, f, 0, half_page as nat) as usize,
                ..v0
            })
            &&& out.result == Some(true)
            &&& out.action is None
        },
    }
}

proof fn lemma_next_visible_shown(vis: Seq<bool>, start: int)
    requires
        0 <= start,
    ensures
        next_visible(vis, start) < vis.len() ==> start < next_visible(vis, start) && vis[next_visible(vis, start)],
    decreases vis.len() - start,
{
    if start + 1 < vis.len() && !vis[start + 1] {
        lemma_next_visible_shown(vis, start + 1);
    }
}

proof fn lemma_prev_visible_shown(vis: Seq<bool>, k: int, d: int)
    requires
        k <= vis.len(),
    ensures
        prev_visible_from(vis, k, d) == d || (0 <= prev_visible_from(vis, k, d) < k && vis[prev_visible_from(
            vis,
            k,
            d,
        )]),
    decreases k,
{
    if k > 0 && !vis[k - 1] {
        lemma_prev_visible_shown(vis, k - 1, d);
    }
}

proof fn lemma_walk_forward_shown(vis: Seq<bool>, heights: Seq<usize>, target: int, accum: nat, half: nat)
    requires
        0 <= target < vis.len(),
        vis[target],
    ensures
        0 <= walk_forward(vis, heights, target, accum, half) < vis.len(),
        vis[walk_forward(vis, heights, target, accum, half)],
    decreases vis.len() - target,
{
    lemma_next_visible_shown(vis, target);
    let next = next_visible(vis, target);
    if target < 0 || next <= target || next >= vis.len() || next >= heights.len() {
    } else if accum + heights[next] >= half {
    } else {
        lemma_walk_forward_shown(vis, heights, next, (accum + heights[next]) as nat, half);
    }
}

proof fn lemma_walk_backward_shown(vis: Seq<bool>, heights: Seq<usize>, target: int, accum: nat, half: nat)
    requires
        0 <= target < vis.len(),
        vis[target],
    ensures
        0 <= walk_backward(vis, heights, target, accum, half) < vis.len(),
        vis[walk_backward(vis, heights, target, accum, half)],
    decreases target,
{
    lemma_prev_visible_shown(vis, target, target);
    let next = prev_visible_from(vis, target, target);
    if target < 0 || next >= target || next < 0 || next >= heights.len() {
    } else if accum + heights[next] >= half {
    } else {
        lemma_walk_backward_shown(vis, heights, next, (accum + heights[next]) as nat, half);
    }
}

/// Whether the channel holds no batch now (`Receiver::is_empty`).
/// Trusted for nothing: the answer depends on the loading threads.
#[verifier::external_body]
fn channel_is_empty(r: &crossbeam_channel::Receiver<Vec<Comment>>) -> bool {
    r.is_empty()
}

/// Takes a batch of comments if one has arrived (`Receiver::try_recv`).
/// Trusted for nothing: what arrives depends on the loading threads.
#[verifier::external_body]
fn channel_try_recv(r: &crossbeam_channel::Receiver<Vec<Comment>>) -> Option<Vec<Comment>> {
    r.try_recv().ok()
}

/// Whether a comment's text is short enough for its rendering to be
/// counted in the machine word.
fn renderable_length(c: &Comment) -> (res: bool)
    ensures
        res == (3 * c.content@.len() + 7 <= usize::MAX),
{
    let t = crate::text::chars_of(c.content.as_str());
    let r = t.len() <= (usize::MAX - 7) / 3;
    assert(r == (3 * t@.len() + 7 <= usize::MAX)) by (nonlinear_arith)
        requires
            r == (t@.len() <= (usize::MAX - 7) / 3),
            usize::MAX >= 7,
    ;
    r
}

/// `new` is `old` with the items of the comments `got` appended, as
/// `add_comments` appends them: each renderable, shown, rendered with its
/// vote data and aged by the clock; nothing else changes.
pub open spec fn comments_appended(
    old: CommentView,
    new: CommentView,
    got: Seq<Comment>,
    cs: ComponentStyle,
    me: Option<Seq<char>>,
) -> bool {
    &&& new.items@.len() == old.items@.len() + got.len()
    &&& new.items@.take(old.items@.len() as int) == old.items@
    &&& new.visible@.take(old.items@.len() as int) == old.visible@
    &&& new.rendered@.take(old.items@.len() as int) == old.rendered@
    &&& forall|i: int|
        0 <= i < got.len() ==> {
            let item = #[trigger] new.items@[old.items@.len() + i];
            &&& 3 * got[i].content@.len() + 7 <= usize::MAX
            &&& got[i].n_children < usize::MAX
            &&& exists|now: u64| comment_item(item, got[i], me, now, cs)
            &&& new.visible@[old.items@.len() + i]
            &&& new.rendered@[old.items@.len() + i]@ == item_text(item, vote_of(old.vote_state@, item.id), cs)
        }
    &&& new == (CommentView { items: new.items, visible: new.visible, rendered: new.rendered, ..old })
}

/// No item is hidden.
pub open spec fn none_hidden(items: Seq<HnItem>) -> bool {
    forall|i: int| 0 <= i < items.len() ==> #[trigger] items[i].display_state != DisplayState::Hidden
}

/// Whether no item is hidden (`none_hidden`), which a new find query needs.
pub fn none_hidden_exec(items: &Vec<HnItem>) -> (res: bool)
    ensures
        res == none_hidden(items@),
{
    let mut k: usize = 0;
    while k < items.len()
        invariant
            k <= items@.len(),
            forall|i: int| 0 <= i < k ==> #[trigger] items@[i].display_state != DisplayState::Hidden,
        decreases items.len() - k,
    {
        if items[k].display_state == DisplayState::Hidden {
            return false;
        }
        k += 1;
    }
    true
}

/// The text item `i` shows without highlights: its state-based text behind
/// its vote arrows.
pub open spec fn item_base(items: Seq<HnItem>, votes: Map<u32, VoteData>, i: int, cs: ComponentStyle) -> Seq<
    (Seq<char>, Style),
> {
    item_text(items[i], vote_of(votes, items[i].id), cs)
}

/// The indexes among the first `k` items whose text holds the query.
pub open spec fn matching_ids(
    items: Seq<HnItem>,
    votes: Map<u32, VoteData>,
    q: Seq<char>,
    cs: ComponentStyle,
    k: int,
) -> Seq<usize>
    decreases k,
{
    if k <= 0 {
        Seq::empty()
    } else {
        matching_ids(items, votes, q, cs, k - 1) + (if find_ranges(source_of(item_base(items, votes, k - 1, cs)), q).len() > 0 {
            seq![(k - 1) as usize]
        } else {
            Seq::empty()
        })
    }
}

/// Every match is an item.
pub open spec fn matches_in_range(v: CommentView) -> bool {
    forall|k: int| 0 <= k < v.find_state.match_ids@.len() ==> #[trigger] v.find_state.match_ids@[k] < v.items@.len()
}

proof fn lemma_matching_ids_in_range(
    items: Seq<HnItem>,
    votes: Map<u32, VoteData>,
    q: Seq<char>,
    cs: ComponentStyle,
    k: int,
)
    requires
        0 <= k,
    ensures
        forall|j: int| 0 <= j < matching_ids(items, votes, q, cs, k).len() ==> #[trigger] matching_ids(items, votes, q, cs, k)[j] < k,
    decreases k,
{
    if k > 0 {
        lemma_matching_ids_in_range(items, votes, q, cs, k - 1);
        let m = matching_ids(items, votes, q, cs, k - 1);
        assert forall|j: int| 0 <= j < matching_ids(items, votes, q, cs, k).len() implies #[trigger] matching_ids(items, votes, q, cs, k)[j] < k by {
            if j < m.len() {
                assert(matching_ids(items, votes, q, cs, k)[j] == m[j]);
            }
        }
    }
}

/// `out` is `base` with `query` highlighted in `match_style`, for the
/// ranges of some matches (see `highlight_result`).
pub open spec fn is_highlighted(
    base: Seq<(Seq<char>, Style)>,
    query: Seq<char>,
    match_style: Style,
    out: Seq<(Seq<char>, Style)>,
) -> bool {
    exists|r: Seq<(usize, usize)>| #[trigger] highlight_result(base, query, match_style, out, r)
}

impl CommentView {
    /// Moves the focus to `id` when that item is shown: `Some(true)`;
    /// otherwise nothing happens: `None`.
    pub fn set_focus_index(&mut self, id: usize) -> (res: Option<bool>)
        requires
            old(self).wf(),
        ensures
            focus_moved(*old(self), *final(self), id as int, HandlerOutcome { action: None, result: res }),
    {
        if id < self.items.len() && id < self.visible.len() && self.visible[id] {
            self.focus = id;
            Some(true)
        } else {
            None
        }
    }

    /// Runs one handler of the comment view on a key (see
    /// `handler_effect`). `me` is the logged-in user, if any; `half_page`
    /// and `heights` are the rows of half the screen and of each item.
    pub fn run_handler(
        &mut self,
        h: CommentHandler,
        e: &KeyEvent,
        km: &CommentViewKeyMap,
        me: Option<&str>,
        half_page: usize,
        heights: &Vec<usize>,
        cs: &ComponentStyle,
    ) -> (res: HandlerOutcome)
        requires
            ready(*old(self)),
            heights@.len() == old(self).items@.len(),
            forall|i: int| 0 <= i < heights@.len() ==> #[trigger] heights@[i] <= usize::MAX - half_page,
        ensures
            handler_effect(h, *e, *km, me_view(me), half_page, heights@, *old(self), *final(self), res),
            ready(*final(self)),
    {
        let f = self.focus;
        proof {
            assert(levels(self.items@)[f as int] == self.items@[f as int].level);
            assert(states(self.items@)[f as int] == self.items@[f as int].display_state);
        }
        match h {
            CommentHandler::Prefix => {
                let takes_number = km.open_link_in_browser.has_event(e) || km.open_link_in_article_view.has_event(e);
                let mut raw = String::new();
                std::mem::swap(&mut raw, &mut self.raw_command);
                take_digit(&mut raw, e, takes_number);
                self.raw_command = raw;
                HandlerOutcome { action: None, result: Some(false) }
            },
            CommentHandler::Upvote | CommentHandler::Downvote => {
                let d = match h {
                    CommentHandler::Upvote => VoteDirection::Up,
                    _ => VoteDirection::Down,
                };
                let r = self.apply_vote(d, cs);
                let action = match r {
                    Some(req) => Some(CommentAction::SendVote(req)),
                    None => None,
                };
                HandlerOutcome { action, result: Some(true) }
            },
            CommentHandler::Vouch => {
                let r = self.apply_vouch();
                proof {
                    let id = old(self).items@[f as int].id;
                    if old(self).vouch_state@.contains_key(id) {
                        assert(self.vouch_state@.dom() =~= old(self).vouch_state@.dom());
                    }
                }
                let action = match r {
                    Some(req) => Some(CommentAction::SendVouch(req)),
                    None => None,
                };
                HandlerOutcome { action, result: Some(true) }
            },
            CommentHandler::Reply => {
                let parent_id = self.items[f].id;
                let parent_content = self.items[f].plain_text();
                HandlerOutcome {
                    action: Some(
                        CommentAction::Pending(
                            PendingAction::ReplyTo { parent_id, parent_content, return_to_id: self.root_id },
                        ),
                    ),
                    result: Some(true),
                }
            },
            CommentHandler::Edit => {
                let mine = match (me, &self.items[f].author) {
                    (Some(m), Some(a)) => crate::query::str_eq(a.as_str(), m),
                    _ => false,
                };
                if mine {
                    HandlerOutcome {
                        action: Some(
                            CommentAction::Pending(
                                PendingAction::EditComment { comment_id: self.items[f].id, return_to_id: self.root_id },
                            ),
                        ),
                        result: Some(true),
                    }
                } else {
                    HandlerOutcome { action: None, result: None }
                }
            },
            CommentHandler::PrevComment => {
                let t = self.find_next_visible_item(f, NavigationDirection::Previous);
                let r = self.set_focus_index(t);
                HandlerOutcome { action: None, result: r }
            },
            CommentHandler::NextComment => {
                let t = self.find_next_visible_item(f, NavigationDirection::Next);
                let r = self.set_focus_index(t);
                HandlerOutcome { action: None, result: r }
            },
            CommentHandler::NextLeqLevel => {
                let t = self.find_item_id_by_max_level(f, self.items[f].level, NavigationDirection::Next);
                let r = self.set_focus_index(t);
                HandlerOutcome { action: None, result: r }
            },
            CommentHandler::PrevLeqLevel => {
                let t = self.find_item_id_by_max_level(f, self.items[f].level, NavigationDirection::Previous);
                let r = self.set_focus_index(t);
                HandlerOutcome { action: None, result: r }
            },
            CommentHandler::CloseFind => {
                if self.find_state.match_ids.len() == 0 {
                    HandlerOutcome { action: None, result: None }
                } else {
                    self.find_state.match_ids = Vec::new();
                    self.find_state.pending = Some(FindSignal::Clear);
                    HandlerOutcome { action: None, result: Some(true) }
                }
            },
            CommentHandler::FindNext | CommentHandler::FindPrev => {
                if self.find_state.match_ids.len() == 0 {
                    HandlerOutcome { action: None, result: None }
                } else {
                    self.find_state.pending = Some(
                        match h {
                            CommentHandler::FindNext => FindSignal::JumpNext,
                            _ => FindSignal::JumpPrev,
                        },
                    );
                    HandlerOutcome { action: None, result: Some(true) }
                }
            },
            CommentHandler::NextTopLevel | CommentHandler::PrevTopLevel => {
                let next = match h {
                    CommentHandler::NextTopLevel => true,
                    _ => false,
                };
                let find_key = if next {
                    km.find_next_match.has_event(e)
                } else {
                    km.find_prev_match.has_event(e)
                };
                if find_key && self.find_state.match_ids.len() > 0 {
                    HandlerOutcome { action: None, result: None }
                } else {
                    let dir = if next {
                        NavigationDirection::Next
                    } else {
                        NavigationDirection::Previous
                    };
                    let t = self.find_sibling(f, dir);
                    let r = self.set_focus_index(t);
                    HandlerOutcome { action: None, result: r }
                }
            },
            CommentHandler::Parent => {
                let level = self.items[f].level;
                if level > 0 {
                    let t = self.find_item_id_by_max_level(f, level - 1, NavigationDirection::Previous);
                    let r = self.set_focus_index(t);
                    HandlerOutcome { action: None, result: r }
                } else {
                    HandlerOutcome { action: None, result: Some(true) }
                }
            },
            CommentHandler::LinkInBrowser | CommentHandler::LinkInArticleView => {
                let in_browser = match h {
                    CommentHandler::LinkInBrowser => true,
                    _ => false,
                };
                match parse_usize(self.raw_command.as_str()) {
                    None => HandlerOutcome { action: None, result: None },
                    Some(num) => {
                        self.raw_command = String::new();
                        let n = self.items[f].links.len();
                        let action = if 0 < num && num <= n {
                            if in_browser {
                                Some(CommentAction::OpenLinkInBrowser(num))
                            } else {
                                Some(CommentAction::OpenLinkInArticleView(num))
                            }
                        } else {
                            None
                        };
                        HandlerOutcome { action, result: Some(true) }
                    },
                }
            },
            CommentHandler::CommentInBrowser => HandlerOutcome {
                action: Some(CommentAction::OpenCommentInBrowser(self.items[f].id)),
                result: Some(true),
            },
            CommentHandler::ToggleCollapse => {
                let ghost lv = levels(self.items@);
                let ghost st = states(self.items@);
                let ghost vis = self.visible@;
                self.toggle_collapse_focused_item(cs);
                proof {
                    toggle_keeps_consistent(lv, st, vis, f + 1, lv[f as int]);
                    crate::comment_view::lemma_toggle_frame(lv, st, vis, f + 1, lv[f as int]);
                    assert(levels(self.items@) =~= lv);
                    let r = crate::comment_view::toggle_rec(lv, st, vis, f + 1, lv[f as int]);
                    assert(r.1[f as int] == vis[f as int]);
                    assert(consistent(states(self.items@), self.visible@));
                }
                HandlerOutcome { action: None, result: Some(true) }
            },
            CommentHandler::ArticleInBrowser => HandlerOutcome {
                action: Some(CommentAction::OpenArticleInBrowser),
                result: Some(true),
            },
            CommentHandler::ArticleInArticleView => {
                let action = if self.url.as_str().is_empty() {
                    None
                } else {
                    Some(CommentAction::OpenArticleInArticleView)
                };
                HandlerOutcome { action, result: Some(true) }
            },
            CommentHandler::StoryInBrowser => HandlerOutcome {
                action: Some(CommentAction::OpenStoryInBrowser(self.root_id)),
                result: Some(true),
            },
            CommentHandler::Help => HandlerOutcome { action: Some(CommentAction::OpenHelp), result: Some(true) },
            CommentHandler::FindInView => {
                self.find_state.query = String::new();
                self.find_state.pending = Some(FindSignal::Clear);
                HandlerOutcome { action: Some(CommentAction::OpenFindDialog), result: Some(true) }
            },
            CommentHandler::PageDown | CommentHandler::PageUp => {
                let forward = match h {
                    CommentHandler::PageDown => true,
                    _ => false,
                };
                proof {
                    lemma_walk_forward_shown(self.visible@, heights@, f as int, 0, half_page as nat);
                    lemma_walk_backward_shown(self.visible@, heights@, f as int, 0, half_page as nat);
                }
                self.move_focus_half_page(forward, half_page, heights);
                HandlerOutcome { action: None, result: Some(true) }
            },
        }
    }

    /// Appends the items of newly loaded comments, shown, each rendered
    /// with its vote data and aged by the clock; nothing else changes.
    pub fn add_comments(&mut self, comments: Vec<Comment>, cs: &ComponentStyle, me: Option<&str>)
        requires
            ready(*old(self)),
            forall|i: int|
                0 <= i < comments@.len() ==> 3 * (#[trigger] comments@[i]).content@.len() + 7 <= usize::MAX
                    && comments@[i].n_children < usize::MAX,
        ensures
            ready(*final(self)),
            final(self).items@.len() == old(self).items@.len() + comments@.len(),
            final(self).items@.take(old(self).items@.len() as int) == old(self).items@,
            final(self).visible@.take(old(self).items@.len() as int) == old(self).visible@,
            final(self).rendered@.take(old(self).items@.len() as int) == old(self).rendered@,
            forall|i: int|
                0 <= i < comments@.len() ==> {
                    let item = #[trigger] final(self).items@[old(self).items@.len() + i];
                    &&& exists|now: u64| comment_item(item, comments@[i], me_view(me), now, *cs)
                    &&& final(self).visible@[old(self).items@.len() + i]
                    &&& final(self).rendered@[old(self).items@.len() + i]@ == item_text(
                        item,
                        vote_of(old(self).vote_state@, item.id),
                        *cs,
                    )
                },
            *final(self) == (CommentView {
                items: final(self).items,
                visible: final(self).visible,
                rendered: final(self).rendered,
                ..*old(self)
            }),
    {
        broadcast use vstd::std_specs::hash::group_hash_axioms;
        let ghost n0 = self.items@.len();
        let ghost all = comments@;
        let mut rest = comments;
        let total = rest.len();
        let mut k: usize = 0;
        while rest.len() > 0
            invariant
                ready(*self),
                all.len() == total,
                k <= all.len(),
                rest@ == all.skip(k as int),
                self.items@.len() == n0 + k,
                forall|i: int|
                    0 <= i < all.len() ==> 3 * (#[trigger] all[i]).content@.len() + 7 <= usize::MAX
                        && all[i].n_children < usize::MAX,
                self.items@.take(n0 as int) == old(self).items@,
                self.visible@.take(n0 as int) == old(self).visible@,
                self.rendered@.take(n0 as int) == old(self).rendered@,
                forall|i: int|
                    0 <= i < k ==> {
                        let item = #[trigger] self.items@[n0 + i];
                        &&& exists|now: u64| comment_item(item, all[i], me_view(me), now, *cs)
                        &&& self.visible@[n0 + i]
                        &&& self.rendered@[n0 + i]@ == item_text(item, vote_of(old(self).vote_state@, item.id), *cs)
                    },
                *self == (CommentView { items: self.items, visible: self.visible, rendered: self.rendered, ..*old(self) }),
            decreases rest@.len(),
        {
            let c = rest.remove(0);
            assert(c == all[k as int]);
            let item = HnItem::from_comment(c, cs, me);
            let t = item.text(self.vote_state.get(&item.id), cs);
            let ghost items_before = self.items@;
            let ghost vis_before = self.visible@;
            let ghost ren_before = self.rendered@;
            self.items.push(item);
            self.visible.push(true);
            self.rendered.push(t);
            k += 1;
            proof {
                assert(rest@ =~= all.skip(k as int));
                assert(self.items@.take(n0 as int) =~= items_before.take(n0 as int));
                assert(self.visible@.take(n0 as int) =~= vis_before.take(n0 as int));
                assert(self.rendered@.take(n0 as int) =~= ren_before.take(n0 as int));
                assert(states(self.items@) =~= states(items_before).push(DisplayState::Normal));
                assert(levels(self.items@).len() == self.items@.len());
                assert forall|i: int| 0 <= i < k implies {
                    let item = #[trigger] self.items@[n0 + i];
                    &&& exists|now: u64| comment_item(item, all[i], me_view(me), now, *cs)
                    &&& self.visible@[n0 + i]
                    &&& self.rendered@[n0 + i]@ == item_text(item, vote_of(old(self).vote_state@, item.id), *cs)
                } by {
                    if i < k - 1 {
                        assert(self.items@[n0 + i] == items_before[n0 + i]);
                        assert(self.visible@[n0 + i] == vis_before[n0 + i]);
                        assert(self.rendered@[n0 + i] == ren_before[n0 + i]);
                    }
                }
            }
        }
        assert(all.skip(k as int).len() == 0);
    }

    /// Highlights `query` in the text of every item and records the
    /// indexes of the items that hold it.
    pub fn apply_find_query(&mut self, query: &str, highlight: Style, cs: &ComponentStyle)
        requires
            ready(*old(self)),
            none_hidden(old(self).items@),
        ensures
            ready(*final(self)),
            *final(self) == (CommentView {
                rendered: final(self).rendered,
                find_state: FindState { match_ids: final(self).find_state.match_ids, ..old(self).find_state },
                ..*old(self)
            }),
            final(self).rendered@.len() == old(self).rendered@.len(),
            forall|i: int|
                0 <= i < old(self).items@.len() ==> is_highlighted(
                    item_base(old(self).items@, old(self).vote_state@, i, *cs),
                    query@,
                    highlight,
                    (#[trigger] final(self).rendered@[i])@,
                ),
            final(self).find_state.match_ids@ == matching_ids(old(self).items@, old(self).vote_state@, query@, *cs, old(self).items@.len() as int),
            matches_in_range(*final(self)),
    {
        broadcast use vstd::std_specs::hash::group_hash_axioms;
        let ghost v0 = *self;
        let n = self.items.len();
        let mut ids: Vec<usize> = Vec::new();
        let mut id: usize = 0;
        while id < n
            invariant
                n == v0.items@.len(),
                id <= n,
                none_hidden(v0.items@),
                ready(v0),
                *self == (CommentView { rendered: self.rendered, ..v0 }),
                self.rendered@.len() == n,
                forall|i: int|
                    0 <= i < id ==> is_highlighted(item_base(v0.items@, v0.vote_state@, i, *cs), query@, highlight, (#[trigger] self.rendered@[i])@),
                ids@ == matching_ids(v0.items@, v0.vote_state@, query@, *cs, id as int),
            decreases n - id,
        {
            let base = self.items[id].text(self.vote_state.get(&self.items[id].id), cs);
            let (new_text, ranges) = highlight_matches(&base, query, highlight);
            assert(highlight_result(item_base(v0.items@, v0.vote_state@, id as int, *cs), query@, highlight, new_text@, ranges@));
            if ranges.len() > 0 {
                ids.push(id);
            }
            proof {
                assert(crate::find::ranges_view(ranges@).len() == ranges@.len());
            }
            let ghost before = self.rendered@;
            self.rendered.set(id, new_text);
            proof {
                assert forall|i: int| 0 <= i < id + 1 implies is_highlighted(item_base(v0.items@, v0.vote_state@, i, *cs), query@, highlight, (#[trigger] self.rendered@[i])@) by {
                    if i < id {
                        assert(self.rendered@[i] == before[i]);
                    } else {
                        assert(highlight_result(item_base(v0.items@, v0.vote_state@, i, *cs), query@, highlight, self.rendered@[i]@, ranges@));
                    }
                }
            }
            id += 1;
            assert(ids@ =~= matching_ids(v0.items@, v0.vote_state@, query@, *cs, id as int));
        }
        proof {
            lemma_matching_ids_in_range(v0.items@, v0.vote_state@, query@, *cs, n as int);
        }
        self.find_state.match_ids = ids;
    }

    /// Shows the state-based text of every item again.
    pub fn clear_find_highlights(&mut self, cs: &ComponentStyle)
        requires
            ready(*old(self)),
            none_hidden(old(self).items@),
        ensures
            ready(*final(self)),
            *final(self) == (CommentView { rendered: final(self).rendered, ..*old(self) }),
            final(self).rendered@.len() == old(self).rendered@.len(),
            forall|i: int|
                0 <= i < old(self).items@.len() ==> (#[trigger] final(self).rendered@[i])@ == item_base(old(self).items@, old(self).vote_state@, i, *cs),
    {
        let ghost v0 = *self;
        let n = self.items.len();
        let mut id: usize = 0;
        while id < n
            invariant
                n == v0.items@.len(),
                id <= n,
                none_hidden(v0.items@),
                ready(v0),
                *self == (CommentView { rendered: self.rendered, ..v0 }),
                self.rendered@.len() == n,
                forall|i: int| 0 <= i < id ==> (#[trigger] self.rendered@[i])@ == item_base(v0.items@, v0.vote_state@, i, *cs),
            decreases n - id,
        {
            let ghost before = self.rendered@;
            self.update_item_text_content(id, cs);
            proof {
                assert forall|i: int| 0 <= i < id + 1 implies (#[trigger] self.rendered@[i])@ == item_base(v0.items@, v0.vote_state@, i, *cs) by {
                    if i < id {
                        assert(self.rendered@[i] == before[i]);
                    }
                }
            }
            id += 1;
        }
    }

    /// Takes the pending find request and carries it out: highlights the
    /// query, clears the session, or jumps to a match.
    pub fn process_find_signal(&mut self, highlight: Style, cs: &ComponentStyle)
        requires
            ready(*old(self)),
            matches_in_range(*old(self)),
            (old(self).find_state.pending matches Some(FindSignal::Update) || old(self).find_state.pending
                matches Some(FindSignal::Clear)) ==> none_hidden(old(self).items@),
        ensures
            ready(*final(self)),
            matches_in_range(*final(self)),
            final(self).find_state.pending is None,
            final(self).items == old(self).items,
            final(self).visible == old(self).visible,
            final(self).vote_state == old(self).vote_state,
            final(self).rendered@.len() == old(self).rendered@.len(),
            match old(self).find_state.pending {
                None => *final(self) == *old(self),
                Some(FindSignal::Update) => {
                    &&& final(self).focus == old(self).focus
                    &&& final(self).find_state.query == old(self).find_state.query
                    &&& final(self).find_state.match_ids@ == matching_ids(
                        old(self).items@,
                        old(self).vote_state@,
                        old(self).find_state.query@,
                        *cs,
                        old(self).items@.len() as int,
                    )
                    &&& forall|i: int|
                        0 <= i < old(self).items@.len() ==> is_highlighted(
                            item_base(old(self).items@, old(self).vote_state@, i, *cs),
                            old(self).find_state.query@,
                            highlight,
                            (#[trigger] final(self).rendered@[i])@,
                        )
                },
                Some(FindSignal::Clear) => {
                    &&& final(self).focus == old(self).focus
                    &&& final(self).find_state.query@.len() == 0
                    &&& final(self).find_state.match_ids@.len() == 0
                    &&& forall|i: int|
                        0 <= i < old(self).items@.len() ==> (#[trigger] final(self).rendered@[i])@ == item_base(old(self).items@, old(self).vote_state@, i, *cs)
                },
                Some(FindSignal::JumpNext) => {
                    let t = next_match(old(self).find_state.match_ids@, old(self).focus as int);
                    &&& final(self).rendered == old(self).rendered
                    &&& final(self).find_state.match_ids == old(self).find_state.match_ids
                    &&& final(self).find_state.query == old(self).find_state.query
                    &&& final(self).focus == if old(self).find_state.match_ids@.len() > 0 && old(self).visible@[t as int] {
                        t
                    } else {
                        old(self).focus
                    }
                },
                Some(FindSignal::JumpPrev) => {
                    let t = prev_match_from(
                        old(self).find_state.match_ids@,
                        old(self).focus as int,
                        old(self).find_state.match_ids@.len() as int,
                    );
                    &&& final(self).rendered == old(self).rendered
                    &&& final(self).find_state.match_ids == old(self).find_state.match_ids
                    &&& final(self).find_state.query == old(self).find_state.query
                    &&& final(self).focus == if old(self).find_state.match_ids@.len() > 0 && old(self).visible@[t as int] {
                        t
                    } else {
                        old(self).focus
                    }
                },
            },
    {
        let signal = self.find_state.pending;
        match signal {
            None => {},
            Some(FindSignal::Update) => {
                self.find_state.pending = None;
                let query = self.find_state.query.clone();
                self.apply_find_query(query.as_str(), highlight, cs);
            },
            Some(FindSignal::Clear) => {
                self.find_state.pending = None;
                self.clear_find_highlights(cs);
                self.find_state.query = String::new();
                self.find_state.match_ids = Vec::new();
            },
            Some(FindSignal::JumpNext) => {
                self.find_state.pending = None;
                self.jump_to_next_match();
            },
            Some(FindSignal::JumpPrev) => {
                self.find_state.pending = None;
                self.jump_to_prev_match();
            },
        }
    }

    /// A comment view of a page: its root item alone, shown, focused and
    /// rendered with its vote data; then the comments that have arrived
    /// are added (see `try_update_comments`).
    pub fn new(data: PageData, find_state: FindState, cs: &ComponentStyle, me: Option<&str>) -> (res: CommentView)
        requires
            data.root_item.display_state != DisplayState::Hidden,
        ensures
            ready(res),
            res.items@.len() >= 1,
            res.items@[0] == data.root_item,
            res.rendered@[0]@ == item_text(data.root_item, vote_of(data.vote_state@, data.root_item.id), *cs),
            res.focus == 0,
            res.root_id == data.root_item.id,
            res.title == data.title,
            res.url == data.url,
            res.vote_state == data.vote_state,
            res.vouch_state == data.vouch_state,
            res.find_state == find_state,
            res.raw_command@.len() == 0,
    {
        broadcast use vstd::std_specs::hash::group_hash_axioms;
        let PageData { title, url, root_item, comment_receiver, vote_state, vouch_state } = data;
        let t = root_item.text(vote_state.get(&root_item.id), cs);
        let root_id = root_item.id;
        let mut view = CommentView {
            items: vec![root_item],
            visible: vec![true],
            rendered: vec![t],
            focus: 0,
            root_id,
            title,
            url,
            vote_state,
            vouch_state,
            raw_command: String::new(),
            find_state,
            comment_receiver,
        };
        proof {
            assert(states(view.items@) =~= seq![view.items@[0].display_state]);
        }
        view.try_update_comments(cs, me);
        view
    }

    /// Adds the comments that have arrived on the page's channel, taking
    /// at most five batches; a comment too long for the machine word to
    /// render is left out. What arrives depends on the loading threads,
    /// so nothing is said of which comments come; the items before stay.
    pub fn try_update_comments(&mut self, cs: &ComponentStyle, me: Option<&str>)
        requires
            ready(*old(self)),
        ensures
            ready(*final(self)),
            final(self).items@.len() >= old(self).items@.len(),
            final(self).items@.take(old(self).items@.len() as int) == old(self).items@,
            final(self).visible@.take(old(self).items@.len() as int) == old(self).visible@,
            final(self).rendered@.take(old(self).items@.len() as int) == old(self).rendered@,
            *final(self) == (CommentView {
                items: final(self).items,
                visible: final(self).visible,
                rendered: final(self).rendered,
                ..*old(self)
            }),
            exists|got: Seq<Comment>| #[trigger] comments_appended(*old(self), *final(self), got, *cs, me_view(me)),
    {
        let ghost v0 = *self;
        let mut new_comments: Vec<Comment> = Vec::new();
        let mut limit: usize = 5;
        while limit > 0 && !channel_is_empty(&self.comment_receiver)
            invariant
                forall|i: int|
                    0 <= i < new_comments@.len() ==> 3 * (#[trigger] new_comments@[i]).content@.len() + 7
                        <= usize::MAX && new_comments@[i].n_children < usize::MAX,
            decreases limit,
        {
            match channel_try_recv(&self.comment_receiver) {
                Some(batch) => {
                    let mut batch = batch;
                    while batch.len() > 0
                        invariant
                            forall|i: int|
                                0 <= i < new_comments@.len() ==> 3 * (#[trigger] new_comments@[i]).content@.len() + 7
                                    <= usize::MAX && new_comments@[i].n_children < usize::MAX,
                        decreases batch@.len(),
                    {
                        let c = batch.remove(0);
                        if c.n_children < usize::MAX && renderable_length(&c) {
                            new_comments.push(c);
                        }
                    }
                },
                None => {},
            }
            limit -= 1;
        }
        let ghost got = new_comments@;
        if new_comments.len() > 0 {
            self.add_comments(new_comments, cs, me);
            assert(comments_appended(v0, *self, got, *cs, me_view(me)));
        } else {
            assert(self.items@.take(v0.items@.len() as int) =~= v0.items@);
            assert(self.visible@.take(v0.items@.len() as int) =~= v0.visible@);
            assert(self.rendered@.take(v0.items@.len() as int) =~= v0.rendered@);
            assert(comments_appended(v0, *self, Seq::<Comment>::empty(), *cs, me_view(me)));
        }
    }
}

} // verus!
