//! The comment view's state: the list of items with their collapse
//! states and visibility, the focus, and the vote and vouch state, with
//! the navigation and collapsing rules.

use vstd::prelude::*;
use crate::model::{Comment, DisplayState, HnItem, VoteData, VoteDirection, VouchData, item_text};
use crate::styled::StyledText;
use crate::theme::ComponentStyle;
use crate::find::FindState;
use std::collections::HashMap;

verus! {

/// Direction of a navigation step.
#[derive(Debug, Clone, Copy, PartialEq, Eq, Structural)]
pub enum NavigationDirection {
    Next,
    Previous,
}

/// The levels of a list of items.
pub open spec fn levels(items: Seq<HnItem>) -> Seq<nat> {
    items.map_values(|it: HnItem| it.level as nat)
}

/// The display states of a list of items.
pub open spec fn states(items: Seq<HnItem>) -> Seq<DisplayState> {
    items.map_values(|it: HnItem| it.display_state)
}

/// The first index after `start` whose level is at most `max`, or the
/// length when there is none.
pub open spec fn next_leq(lv: Seq<nat>, start: int, max: nat) -> int
    decreases lv.len() - start,
{
    if start + 1 >= lv.len() {
        lv.len() as int
    } else if lv[start + 1] <= max {
        start + 1
    } else {
        next_leq(lv, start + 1, max)
    }
}

/// The last index before `start` whose level is at most `max`, or
/// `start` when there is none.
pub open spec fn prev_leq(lv: Seq<nat>, start: int, max: nat) -> int {
    prev_leq_from(lv, start, start, max)
}

/// The last index before `k` whose level is at most `max`, or `dflt`.
pub open spec fn prev_leq_from(lv: Seq<nat>, k: int, dflt: int, max: nat) -> int
    decreases k,
{
    if k <= 0 {
        dflt
    } else if lv[k - 1] <= max {
        k - 1
    } else {
        prev_leq_from(lv, k - 1, dflt, max)
    }
}

/// The first index after `start` that is visible, or the length.
pub open spec fn next_visible(vis: Seq<bool>, start: int) -> int
    decreases vis.len() - start,
{
    if start + 1 >= vis.len() {
        vis.len() as int
    } else if vis[start + 1] {
        start + 1
    } else {
        next_visible(vis, start + 1)
    }
}

/// The last index before `k` that is visible, or `dflt`.
pub open spec fn prev_visible_from(vis: Seq<bool>, k: int, dflt: int) -> int
    decreases k,
{
    if k <= 0 {
        dflt
    } else if vis[k - 1] {
        k - 1
    } else {
        prev_visible_from(vis, k - 1, dflt)
    }
}

/// The last index before `k` whose level is below `level`, or -1.
pub open spec fn last_below(lv: Seq<nat>, k: int, level: nat) -> int
    decreases k,
{
    if k <= 0 {
        -1
    } else if lv[k - 1] < level {
        k - 1
    } else {
        last_below(lv, k - 1, level)
    }
}

/// The indexes in `[from, to)` whose level is exactly `level`, in order.
pub open spec fn same_level(lv: Seq<nat>, from: int, to: int, level: nat) -> Seq<int>
    decreases to - from,
{
    if from >= to {
        Seq::empty()
    } else if lv[to - 1] == level {
        same_level(lv, from, to - 1, level).push(to - 1)
    } else {
        same_level(lv, from, to - 1, level)
    }
}

/// Where a navigation to the next or previous sibling of `start` lands.
/// Top-level items move among all top-level items without wrapping;
/// deeper items cycle among the items of their parent's subtree at
/// their level.
pub open spec fn sibling_target(lv: Seq<nat>, start: int, dir: NavigationDirection) -> int {
    let level = lv[start];
    if level == 0 {
        match dir {
            NavigationDirection::Next => next_leq(lv, start, 0),
            NavigationDirection::Previous => prev_leq(lv, start, 0),
        }
    } else {
        let parent = last_below(lv, start, level);
        if parent < 0 {
            start
        } else {
            let end = next_leq(lv, parent, lv[parent]);
            let sibs = same_level(lv, parent + 1, end, level);
            if sibs.len() <= 1 {
                start
            } else {
                let pos = if sibs.contains(start) { sibs.index_of(start) } else { 0 };
                match dir {
                    NavigationDirection::Next => if pos + 1 == sibs.len() {
                        sibs[0]
                    } else {
                        sibs[pos + 1]
                    },
                    NavigationDirection::Previous => if pos == 0 {
                        sibs[sibs.len() - 1]
                    } else {
                        sibs[pos - 1]
                    },
                }
            }
        }
    }
}

/// Collapsing or expanding the items from `start` on that sit deeper
/// than `min`: hidden items are shown as normal, normal items are hidden,
/// and a minimized item only flips its visibility while its own subtree
/// is skipped.
pub open spec fn toggle_rec(
    lv: Seq<nat>,
    st: Seq<DisplayState>,
    vis: Seq<bool>,
    start: int,
    min: nat,
) -> (Seq<DisplayState>, Seq<bool>)
    decreases lv.len() - start,
{
    if start < 0 || start >= lv.len() || start >= st.len() || start >= vis.len() || lv[start]
        <= min {
        (st, vis)
    } else {
        match st[start] {
            DisplayState::Hidden => toggle_rec(
                lv,
                st.update(start, DisplayState::Normal),
                vis.update(start, true),
                start + 1,
                min,
            ),
            DisplayState::Normal => toggle_rec(
                lv,
                st.update(start, DisplayState::Hidden),
                vis.update(start, false),
                start + 1,
                min,
            ),
            DisplayState::Minimized => {
                proof {
                    lemma_next_leq_after(lv, start, lv[start]);
                }
                toggle_rec(lv, st, vis.update(start, !vis[start]), next_leq(lv, start, lv[start]), min)
            },
        }
    }
}

/// `next_leq` moves forward.
pub proof fn lemma_next_leq_after(lv: Seq<nat>, start: int, max: nat)
    ensures
        next_leq(lv, start, max) > start || next_leq(lv, start, max) == lv.len(),
        next_leq(lv, start, max) <= lv.len() || start + 1 > lv.len(),
    decreases lv.len() - start,
{
    if start + 1 < lv.len() && !(lv[start + 1] <= max) {
        lemma_next_leq_after(lv, start + 1, max);
    }
}


/// Hidden items are invisible and normal items visible.
pub open spec fn consistent(st: Seq<DisplayState>, vis: Seq<bool>) -> bool {
    &&& st.len() == vis.len()
    &&& forall|i: int|
        0 <= i < st.len() ==> (#[trigger] st[i] == DisplayState::Hidden ==> !vis[i]) && (st[i]
            == DisplayState::Normal ==> vis[i])
}

pub proof fn lemma_toggle_frame(lv: Seq<nat>, st: Seq<DisplayState>, vis: Seq<bool>, start: int, min: nat)
    requires
        st.len() == lv.len(),
        vis.len() == lv.len(),
    ensures
        toggle_rec(lv, st, vis, start, min).0.len() == st.len(),
        toggle_rec(lv, st, vis, start, min).1.len() == vis.len(),
        forall|j: int|
            0 <= j < start && j < st.len() ==> toggle_rec(lv, st, vis, start, min).0[j] == st[j]
                && toggle_rec(lv, st, vis, start, min).1[j] == vis[j],
    decreases lv.len() - start,
{
    let r = toggle_rec(lv, st, vis, start, min);
    if start < 0 || start >= lv.len() || lv[start] <= min {
    } else {
        match st[start] {
            DisplayState::Hidden => {
                let s1 = st.update(start, DisplayState::Normal);
                let v1 = vis.update(start, true);
                assert(r == toggle_rec(lv, s1, v1, start + 1, min));
                lemma_toggle_frame(lv, s1, v1, start + 1, min);
                assert forall|j: int| 0 <= j < start && j < st.len() implies r.0[j] == st[j] && r.1[j]
                    == vis[j] by {
                    assert(s1[j] == st[j]);
                    assert(v1[j] == vis[j]);
                }
            },
            DisplayState::Normal => {
                let s1 = st.update(start, DisplayState::Hidden);
                let v1 = vis.update(start, false);
                assert(r == toggle_rec(lv, s1, v1, start + 1, min));
                lemma_toggle_frame(lv, s1, v1, start + 1, min);
                assert forall|j: int| 0 <= j < start && j < st.len() implies r.0[j] == st[j] && r.1[j]
                    == vis[j] by {
                    assert(s1[j] == st[j]);
                    assert(v1[j] == vis[j]);
                }
            },
            DisplayState::Minimized => {
                lemma_next_leq_after(lv, start, lv[start]);
                let v1 = vis.update(start, !vis[start]);
                let nx = next_leq(lv, start, lv[start]);
                assert(r == toggle_rec(lv, st, v1, nx, min));
                lemma_toggle_frame(lv, st, v1, nx, min);
                assert forall|j: int| 0 <= j < start && j < st.len() implies r.0[j] == st[j] && r.1[j]
                    == vis[j] by {
                    assert(v1[j] == vis[j]);
                }
            },
        }
    }
}

proof fn lemma_toggle_commute(
    lv: Seq<nat>,
    st: Seq<DisplayState>,
    vis: Seq<bool>,
    start: int,
    min: nat,
    j: int,
    x: DisplayState,
    y: bool,
)
    requires
        st.len() == lv.len(),
        vis.len() == lv.len(),
        0 <= j < start,
        j < lv.len(),
    ensures
        toggle_rec(lv, st.update(j, x), vis.update(j, y), start, min) == (
            toggle_rec(lv, st, vis, start, min).0.update(j, x),
            toggle_rec(lv, st, vis, start, min).1.update(j, y),
        ),
    decreases lv.len() - start,
{
    lemma_toggle_frame(lv, st, vis, start, min);
    if start < 0 || start >= lv.len() || lv[start] <= min {
    } else {
        assert(st.update(j, x)[start] == st[start]);
        match st[start] {
            DisplayState::Hidden => {
                assert(st.update(j, x).update(start, DisplayState::Normal) =~= st.update(
                    start,
                    DisplayState::Normal,
                ).update(j, x));
                assert(vis.update(j, y).update(start, true) =~= vis.update(start, true).update(j, y));
                lemma_toggle_commute(
                    lv,
                    st.update(start, DisplayState::Normal),
                    vis.update(start, true),
                    start + 1,
                    min,
                    j,
                    x,
                    y,
                );
            },
            DisplayState::Normal => {
                assert(st.update(j, x).update(start, DisplayState::Hidden) =~= st.update(
                    start,
                    DisplayState::Hidden,
                ).update(j, x));
                assert(vis.update(j, y).update(start, false) =~= vis.update(start, false).update(
                    j,
                    y,
                ));
                lemma_toggle_commute(
                    lv,
                    st.update(start, DisplayState::Hidden),
                    vis.update(start, false),
                    start + 1,
                    min,
                    j,
                    x,
                    y,
                );
            },
            DisplayState::Minimized => {
                lemma_next_leq_after(lv, start, lv[start]);
                assert(vis.update(j, y)[start] == vis[start]);
                assert(vis.update(j, y).update(start, !vis[start]) =~= vis.update(
                    start,
                    !vis[start],
                ).update(j, y));
                lemma_toggle_commute(
                    lv,
                    st,
                    vis.update(start, !vis[start]),
                    next_leq(lv, start, lv[start]),
                    min,
                    j,
                    x,
                    y,
                );
            },
        }
    }
}

/// Collapsing then expanding restores everything: toggling the same range
/// twice gives back the display states and visibility it started from.
pub proof fn toggle_twice_restores(
    lv: Seq<nat>,
    st: Seq<DisplayState>,
    vis: Seq<bool>,
    start: int,
    min: nat,
)
    requires
        st.len() == lv.len(),
        consistent(st, vis),
    ensures
        toggle_rec(
            lv,
            toggle_rec(lv, st, vis, start, min).0,
            toggle_rec(lv, st, vis, start, min).1,
            start,
            min,
        ) == (st, vis),
    decreases lv.len() - start,
{
    let r = toggle_rec(lv, st, vis, start, min);
    lemma_toggle_frame(lv, st, vis, start, min);
    if start < 0 || start >= lv.len() || lv[start] <= min {
    } else {
        match st[start] {
            DisplayState::Hidden => {
                let s1 = st.update(start, DisplayState::Normal);
                let v1 = vis.update(start, true);
                lemma_toggle_frame(lv, s1, v1, start + 1, min);
                assert(r == toggle_rec(lv, s1, v1, start + 1, min));
                assert(0 <= start < start + 1 && start < s1.len());
                assert(toggle_rec(lv, s1, v1, start + 1, min).0[start] == s1[start]);
                assert(r.0[start] == DisplayState::Normal);
                lemma_toggle_commute(lv, s1, v1, start + 1, min, start, DisplayState::Hidden, false);
                assert(s1.update(start, DisplayState::Hidden) =~= st);
                assert(v1.update(start, false) =~= vis);
                toggle_twice_restores(lv, st, vis, start + 1, min);
            },
            DisplayState::Normal => {
                let s1 = st.update(start, DisplayState::Hidden);
                let v1 = vis.update(start, false);
                lemma_toggle_frame(lv, s1, v1, start + 1, min);
                assert(r == toggle_rec(lv, s1, v1, start + 1, min));
                assert(0 <= start < start + 1 && start < s1.len());
                assert(toggle_rec(lv, s1, v1, start + 1, min).0[start] == s1[start]);
                assert(r.0[start] == DisplayState::Hidden);
                lemma_toggle_commute(lv, s1, v1, start + 1, min, start, DisplayState::Normal, true);
                assert(s1.update(start, DisplayState::Normal) =~= st);
                assert(v1.update(start, true) =~= vis);
                toggle_twice_restores(lv, st, vis, start + 1, min);
            },
            DisplayState::Minimized => {
                let nx = next_leq(lv, start, lv[start]);
                lemma_next_leq_after(lv, start, lv[start]);
                let v1 = vis.update(start, !vis[start]);
                lemma_toggle_frame(lv, st, v1, nx, min);
                assert(r == toggle_rec(lv, st, v1, nx, min));
                assert(r.0[start] == DisplayState::Minimized);
                assert(r.1[start] == !vis[start]);
                lemma_toggle_commute(lv, st, v1, nx, min, start, DisplayState::Minimized, vis[start]);
                assert(st.update(start, DisplayState::Minimized) =~= st);
                assert(v1.update(start, vis[start]) =~= vis);
                assert(r.0.update(start, DisplayState::Minimized) =~= r.0);
                toggle_twice_restores(lv, st, vis, nx, min);
            },
        }
    }
}


/// The comment view: the items of a page, whether each one is shown,
/// the text each one displays, the focused item, and the viewer's vote
/// and vouch state keyed by item id.
pub struct CommentView {
    pub items: Vec<HnItem>,
    pub visible: Vec<bool>,
    pub rendered: Vec<StyledText>,
    pub focus: usize,
    pub root_id: u32,
    pub title: String,
    pub url: String,
    pub vote_state: HashMap<u32, VoteData>,
    pub vouch_state: HashMap<u32, VouchData>,
    pub raw_command: String,
    pub find_state: FindState,
    /// Where the comments of the page arrive while they load.
    pub comment_receiver: crossbeam_channel::Receiver<Vec<Comment>>,
}

/// The declaration of `crossbeam_channel`'s receiving end, which holds
/// the batches of comments of a page while they load.
#[verifier::external_type_specification]
#[verifier::external_body]
#[verifier::reject_recursive_types(T)]
pub struct ExReceiver<T>(crossbeam_channel::Receiver<T>);

/// A Hacker News page for the comment view: its title and URL, its root
/// item, the channel its comments arrive on, and the viewer's vote and
/// vouch state keyed by item id.
pub struct PageData {
    pub title: String,
    pub url: String,
    pub root_item: HnItem,
    pub comment_receiver: crossbeam_channel::Receiver<Vec<Comment>>,
    pub vote_state: HashMap<u32, VoteData>,
    pub vouch_state: HashMap<u32, VouchData>,
}

/// A vote request to send to HN: item id, auth token and the new vote.
#[derive(Debug)]
pub struct VoteRequest {
    pub item_id: u32,
    pub auth: String,
    pub vote: Option<VoteDirection>,
}

/// A vouch request to send to HN: item id, auth token and whether the
/// vouch is rescinded.
#[derive(Debug)]
pub struct VouchRequest {
    pub item_id: u32,
    pub auth: String,
    pub rescind: bool,
}

/// The vote data recorded for an item id, if any.
pub open spec fn vote_of(m: Map<u32, VoteData>, id: u32) -> Option<VoteData> {
    if m.contains_key(id) {
        Some(m[id])
    } else {
        None
    }
}

/// `b` is `a` with possibly other display states.
pub open spec fn same_but_states(a: Seq<HnItem>, b: Seq<HnItem>) -> bool {
    &&& a.len() == b.len()
    &&& forall|i: int| 0 <= i < a.len() ==> #[trigger] b[i] == (HnItem { display_state: b[i].display_state, ..a[i] })
}

/// Collapsing or expanding keeps hidden items invisible and normal items
/// visible.
pub proof fn toggle_keeps_consistent(lv: Seq<nat>, st: Seq<DisplayState>, vis: Seq<bool>, start: int, min: nat)
    requires
        st.len() == lv.len(),
        consistent(st, vis),
    ensures
        consistent(toggle_rec(lv, st, vis, start, min).0, toggle_rec(lv, st, vis, start, min).1),
    decreases lv.len() - start,
{
    if start < 0 || start >= lv.len() || start >= st.len() || start >= vis.len() || lv[start] <= min {
    } else {
        match st[start] {
            DisplayState::Hidden => {
                let s1 = st.update(start, DisplayState::Normal);
                let v1 = vis.update(start, true);
                assert(consistent(s1, v1));
                toggle_keeps_consistent(lv, s1, v1, start + 1, min);
            },
            DisplayState::Normal => {
                let s1 = st.update(start, DisplayState::Hidden);
                let v1 = vis.update(start, false);
                assert(consistent(s1, v1));
                toggle_keeps_consistent(lv, s1, v1, start + 1, min);
            },
            DisplayState::Minimized => {
                let v1 = vis.update(start, !vis[start]);
                assert(consistent(st, v1));
                lemma_next_leq_after(lv, start, lv[start]);
                toggle_keeps_consistent(lv, st, v1, next_leq(lv, start, lv[start]), min);
            },
        }
    }
}

/// Collapsing or expanding the focused item `f`: its descendants are
/// toggled and the item itself switches between normal and minimized.
pub open spec fn toggle_focused(lv: Seq<nat>, st: Seq<DisplayState>, vis: Seq<bool>, f: int) -> (Seq<DisplayState>, Seq<bool>) {
    let r = toggle_rec(lv, st, vis, f + 1, lv[f]);
    let new_state = if st[f] == DisplayState::Minimized { DisplayState::Normal } else { DisplayState::Minimized };
    (r.0.update(f, new_state), r.1)
}

/// Collapsing the focused item and expanding it again (or the reverse)
/// restores every item's display state and visibility.
pub proof fn toggle_focused_twice_restores(lv: Seq<nat>, st: Seq<DisplayState>, vis: Seq<bool>, f: int)
    requires
        st.len() == lv.len(),
        consistent(st, vis),
        0 <= f < lv.len(),
        st[f] != DisplayState::Hidden,
    ensures
        toggle_focused(lv, toggle_focused(lv, st, vis, f).0, toggle_focused(lv, st, vis, f).1, f) == (st, vis),
{
    let r = toggle_rec(lv, st, vis, f + 1, lv[f]);
    lemma_toggle_frame(lv, st, vis, f + 1, lv[f]);
    let t1 = toggle_focused(lv, st, vis, f);
    let ns = if st[f] == DisplayState::Minimized { DisplayState::Normal } else { DisplayState::Minimized };
    assert(r.0[f] == st[f]);
    assert(t1.0 == r.0.update(f, ns));
    lemma_toggle_commute(lv, r.0, r.1, f + 1, lv[f], f, ns, r.1[f]);
    assert(r.1.update(f, r.1[f]) =~= r.1);
    toggle_twice_restores(lv, st, vis, f + 1, lv[f]);
    lemma_toggle_frame(lv, r.0, r.1, f + 1, lv[f]);
    let r2 = toggle_rec(lv, r.0, r.1, f + 1, lv[f]);
    assert(r2.0[f] == r.0[f]);
    assert(r2.0 == st);
    assert(toggle_rec(lv, t1.0, t1.1, f + 1, lv[f]) == (r2.0.update(f, ns), r2.1));
    assert(st.update(f, ns).update(f, st[f]) =~= st);
}

/// What pressing a vote key in direction `d` does to an item's vote:
/// `None` when the key is ignored (a downvote without the privilege),
/// otherwise the new vote: pressing the current direction again
/// rescinds it, any other press sets the direction.
pub open spec fn vote_outcome(vd: VoteData, d: VoteDirection) -> Option<Option<VoteDirection>> {
    if d == VoteDirection::Down && !vd.can_downvote && vd.vote != Some(VoteDirection::Down) {
        None
    } else if vd.vote == Some(d) {
        Some(None)
    } else {
        Some(Some(d))
    }
}

/// The new vote of an item after a vote key (see `vote_outcome`), for the
/// story list, whose vote data is fetched when the key is pressed.
pub fn vote_decision(vd: &VoteData, direction: VoteDirection) -> (res: Option<Option<VoteDirection>>)
    ensures
        res == vote_outcome(*vd, direction),
{
    let is_down = match direction {
        VoteDirection::Down => true,
        VoteDirection::Up => false,
    };
    let voted_down = match vd.vote {
        Some(VoteDirection::Down) => true,
        _ => false,
    };
    if is_down && !vd.can_downvote && !voted_down {
        return None;
    }
    let same = match (vd.vote, direction) {
        (Some(VoteDirection::Up), VoteDirection::Up) => true,
        (Some(VoteDirection::Down), VoteDirection::Down) => true,
        _ => false,
    };
    if same {
        Some(None)
    } else {
        Some(Some(direction))
    }
}

/// Pressing the same vote key twice cancels out: a vote the first press
/// casts, the second press rescinds, and a vote the first press rescinds,
/// the second casts again.
pub proof fn vote_twice_restores(vd: VoteData, d: VoteDirection)
    requires
        vote_outcome(vd, d) is Some,
        vd.vote is None || vd.vote == Some(d),
        d == VoteDirection::Up || vd.can_downvote,
    ensures
        vote_outcome(VoteData { vote: vote_outcome(vd, d)->0, ..vd }, d) == Some(vd.vote),
{
}

/// The next item of a half-page move forward from `target`: visible
/// items are taken until their heights reach `half`.
pub open spec fn walk_forward(vis: Seq<bool>, heights: Seq<usize>, target: int, accum: nat, half: nat) -> int
    decreases vis.len() - target,
{
    let next = next_visible(vis, target);
    if target < 0 || next <= target || next >= vis.len() || next >= heights.len() {
        target
    } else if accum + heights[next] >= half {
        next
    } else {
        walk_forward(vis, heights, next, (accum + heights[next]) as nat, half)
    }
}

/// The same walk going back.
pub open spec fn walk_backward(vis: Seq<bool>, heights: Seq<usize>, target: int, accum: nat, half: nat) -> int
    decreases target,
{
    let next = prev_visible_from(vis, target, target);
    if target < 0 || next >= target || next < 0 || next >= heights.len() {
        target
    } else if accum + heights[next] >= half {
        next
    } else {
        walk_backward(vis, heights, next, (accum + heights[next]) as nat, half)
    }
}

proof fn lemma_next_visible_after(vis: Seq<bool>, start: int)
    ensures
        next_visible(vis, start) > start || next_visible(vis, start) == vis.len(),
        next_visible(vis, start) <= vis.len() || start + 1 > vis.len(),
    decreases vis.len() - start,
{
    if start + 1 < vis.len() && !vis[start + 1] {
        lemma_next_visible_after(vis, start + 1);
    }
}

proof fn lemma_prev_visible(vis: Seq<bool>, k: int, d: int)
    ensures
        prev_visible_from(vis, k, d) < k || prev_visible_from(vis, k, d) == d,
        prev_visible_from(vis, k, d) >= 0 || prev_visible_from(vis, k, d) == d,
    decreases k,
{
    if k > 0 && !vis[k - 1] {
        lemma_prev_visible(vis, k - 1, d);
    }
}

/// The first match at or after `c`, else the first match.
pub open spec fn next_match(ms: Seq<usize>, c: int) -> usize
    decreases ms.len(),
{
    if ms.len() == 0 {
        0
    } else {
        next_match_from(ms, c, 0)
    }
}

/// The first match at or after `c` from index `k` on, else the first match.
pub open spec fn next_match_from(ms: Seq<usize>, c: int, k: int) -> usize
    decreases ms.len() - k,
{
    if k < 0 || k >= ms.len() {
        ms[0]
    } else if ms[k] >= c {
        ms[k]
    } else {
        next_match_from(ms, c, k + 1)
    }
}

/// The last match before `c` among the first `k` matches, else the last match.
pub open spec fn prev_match_from(ms: Seq<usize>, c: int, k: int) -> usize
    decreases k,
{
    if k <= 0 || k > ms.len() {
        ms[ms.len() - 1]
    } else if ms[k - 1] < c {
        ms[k - 1]
    } else {
        prev_match_from(ms, c, k - 1)
    }
}

proof fn lemma_same_level_sorted(lv: Seq<nat>, from: int, to: int, level: nat)
    ensures
        forall|a: int, b: int|
            0 <= a < b < same_level(lv, from, to, level).len() ==> #[trigger] same_level(lv, from, to, level)[a]
                < #[trigger] same_level(lv, from, to, level)[b],
        forall|a: int|
            0 <= a < same_level(lv, from, to, level).len() ==> from <= #[trigger] same_level(lv, from, to, level)[a]
                < to,
    decreases to - from,
{
    if from < to {
        lemma_same_level_sorted(lv, from, to - 1, level);
        let t = same_level(lv, from, to - 1, level);
        if lv[to - 1] == level {
            let r = t.push(to - 1);
            assert(same_level(lv, from, to, level) == r);
            assert forall|a: int, b: int| 0 <= a < b < r.len() implies #[trigger] r[a] < #[trigger] r[b] by {
                if b < t.len() {
                    assert(t[a] < t[b]);
                } else {
                    assert(from <= t[a] < to - 1);
                }
            }
            assert forall|a: int| 0 <= a < r.len() implies from <= #[trigger] r[a] < to by {
                if a < t.len() {
                    assert(from <= t[a] < to - 1);
                }
            }
        }
    }
}

proof fn lemma_last_below(lv: Seq<nat>, k: int, level: nat)
    ensures
        last_below(lv, k, level) < k || k <= 0,
        last_below(lv, k, level) >= -1,
    decreases k,
{
    if k > 0 && !(lv[k - 1] < level) {
        lemma_last_below(lv, k - 1, level);
    }
}

proof fn lemma_last_below_spec(lv: Seq<nat>, k: int, level: nat)
    requires
        0 <= k <= lv.len(),
    ensures
        -1 <= last_below(lv, k, level) < k,
        last_below(lv, k, level) >= 0 ==> lv[last_below(lv, k, level)] < level,
        forall|j: int| last_below(lv, k, level) < j < k ==> lv[j] >= level,
    decreases k,
{
    if k > 0 && !(lv[k - 1] < level) {
        lemma_last_below_spec(lv, k - 1, level);
    }
}

proof fn lemma_next_leq_spec(lv: Seq<nat>, start: int, max: nat)
    requires
        0 <= start < lv.len(),
    ensures
        start < next_leq(lv, start, max) <= lv.len(),
        next_leq(lv, start, max) < lv.len() ==> lv[next_leq(lv, start, max)] <= max,
        forall|j: int| start < j < next_leq(lv, start, max) ==> lv[j] > max,
    decreases lv.len() - start,
{
    if start + 1 < lv.len() && !(lv[start + 1] <= max) {
        lemma_next_leq_spec(lv, start + 1, max);
    }
}

proof fn lemma_prev_leq_spec(lv: Seq<nat>, k: int, dflt: int, max: nat)
    requires
        0 <= k <= lv.len(),
        k <= dflt,
    ensures
        prev_leq_from(lv, k, dflt, max) == dflt || (0 <= prev_leq_from(lv, k, dflt, max) < k
            && lv[prev_leq_from(lv, k, dflt, max)] <= max),
        prev_leq_from(lv, k, dflt, max) == dflt ==> forall|j: int| 0 <= j < k ==> lv[j] > max,
        prev_leq_from(lv, k, dflt, max) != dflt ==> forall|j: int|
            prev_leq_from(lv, k, dflt, max) < j < k ==> lv[j] > max,
    decreases k,
{
    if k > 0 && !(lv[k - 1] <= max) {
        lemma_prev_leq_spec(lv, k - 1, dflt, max);
    }
}

proof fn lemma_same_level_members(lv: Seq<nat>, from: int, to: int, level: nat)
    requires
        0 <= from,
        to <= lv.len(),
    ensures
        forall|i: int| 0 <= i < same_level(lv, from, to, level).len() ==> lv[#[trigger] same_level(lv, from, to, level)[i]] == level,
        forall|k: int| from <= k < to && lv[k] == level ==> #[trigger] same_level(lv, from, to, level).contains(k),
    decreases to - from,
{
    if from < to {
        lemma_same_level_members(lv, from, to - 1, level);
        let t = same_level(lv, from, to - 1, level);
        if lv[to - 1] == level {
            let r = t.push(to - 1);
            assert(r == same_level(lv, from, to, level));
            assert(r[r.len() - 1] == to - 1);
            assert forall|k: int| from <= k < to && lv[k] == level implies r.contains(k) by {
                if k < to - 1 {
                    assert(t.contains(k));
                    let i = choose|i: int| 0 <= i < t.len() && t[i] == k;
                    assert(r[i] == k);
                }
            }
        } else {
            assert(t == same_level(lv, from, to, level));
            assert forall|k: int| from <= k < to && lv[k] == level implies t.contains(k) by {
                assert(k < to - 1);
            }
        }
    }
}

/// Moving among the siblings of a comment below the top level: the next
/// sibling is the nearest item of the same level after it inside its
/// parent's subtree, or, from the last, the first such item; the previous
/// sibling is the nearest one before it, or, from the first, the last.
pub proof fn sibling_moves_to_the_nearest_sibling(lv: Seq<nat>, s: int)
    requires
        0 <= s < lv.len(),
        lv[s] > 0,
        last_below(lv, s, lv[s]) >= 0,
    ensures
        ({
            let p = last_below(lv, s, lv[s]);
            let end = next_leq(lv, p, lv[p]);
            let nx = sibling_target(lv, s, NavigationDirection::Next);
            let pv = sibling_target(lv, s, NavigationDirection::Previous);
            &&& p < s < end <= lv.len()
            &&& p < nx < end && lv[nx] == lv[s]
            &&& p < pv < end && lv[pv] == lv[s]
            &&& (exists|k: int| s < k < end && lv[k] == lv[s]) ==> (s < nx && forall|k: int|
                s < k < nx ==> lv[k] != lv[s])
            &&& !(exists|k: int| s < k < end && lv[k] == lv[s]) ==> (nx <= s && forall|k: int|
                p < k < nx ==> lv[k] != lv[s])
            &&& (exists|k: int| p < k < s && lv[k] == lv[s]) ==> (pv < s && forall|k: int|
                pv < k < s ==> lv[k] != lv[s])
            &&& !(exists|k: int| p < k < s && lv[k] == lv[s]) ==> (s <= pv && forall|k: int|
                pv < k < end ==> lv[k] != lv[s])
        }),
{
    let level = lv[s];
    let p = last_below(lv, s, level);
    lemma_last_below_spec(lv, s, level);
    let end = next_leq(lv, p, lv[p]);
    lemma_next_leq_spec(lv, p, lv[p]);
    if end <= s {
        assert(lv[end] > lv[p]);
    }
    let sibs = same_level(lv, p + 1, end, level);
    lemma_same_level_members(lv, p + 1, end, level);
    lemma_same_level_sorted(lv, p + 1, end, level);
    assert(sibs.contains(s));
    let pos = sibs.index_of(s);
    assert(0 <= pos < sibs.len() && sibs[pos] == s);
    let nx = sibling_target(lv, s, NavigationDirection::Next);
    let pv = sibling_target(lv, s, NavigationDirection::Previous);
    if sibs.len() <= 1 {
        assert(nx == s && pv == s);
        assert forall|k: int| p < k < end && lv[k] == level implies k == s by {
            assert(sibs.contains(k));
        }
    } else {
        assert(lv[sibs[0]] == level);
        assert(lv[sibs[sibs.len() - 1]] == level);
        assert forall|k: int| p < k < end && lv[k] == level implies exists|i: int|
            0 <= i < sibs.len() && sibs[i] == k by {
            assert(sibs.contains(k));
        }
        if pos + 1 < sibs.len() {
            assert(nx == sibs[pos + 1]);
            assert(lv[sibs[pos + 1]] == level);
            assert forall|k: int| s < k < nx implies lv[k] != level by {
                if lv[k] == level {
                    let i = choose|i: int| 0 <= i < sibs.len() && sibs[i] == k;
                    if i <= pos {
                        if i < pos {
                            assert(sibs[i] < sibs[pos]);
                        }
                    } else if i > pos + 1 {
                        assert(sibs[pos + 1] < sibs[i]);
                    }
                }
            }
        } else {
            assert(nx == sibs[0]);
            assert forall|k: int| s < k < end implies lv[k] != level by {
                if lv[k] == level {
                    let i = choose|i: int| 0 <= i < sibs.len() && sibs[i] == k;
                    if i < pos {
                        assert(sibs[i] < sibs[pos]);
                    }
                }
            }
            assert forall|k: int| p < k < nx implies lv[k] != level by {
                if lv[k] == level {
                    let i = choose|i: int| 0 <= i < sibs.len() && sibs[i] == k;
                    if i > 0 {
                        assert(sibs[0] < sibs[i]);
                    }
                }
            }
            if pos > 0 {
                assert(sibs[0] < sibs[pos]);
            }
        }
        if pos > 0 {
            assert(pv == sibs[pos - 1]);
            assert(lv[sibs[pos - 1]] == level);
            assert(sibs[pos - 1] < sibs[pos]);
            assert forall|k: int| pv < k < s implies lv[k] != level by {
                if lv[k] == level {
                    let i = choose|i: int| 0 <= i < sibs.len() && sibs[i] == k;
                    if i >= pos {
                        if i > pos {
                            assert(sibs[pos] < sibs[i]);
                        }
                    } else if i < pos - 1 {
                        assert(sibs[i] < sibs[pos - 1]);
                    }
                }
            }
        } else {
            assert(pv == sibs[sibs.len() - 1]);
            assert forall|k: int| p < k < s implies lv[k] != level by {
                if lv[k] == level {
                    let i = choose|i: int| 0 <= i < sibs.len() && sibs[i] == k;
                    if i > 0 {
                        assert(sibs[0] < sibs[i]);
                    }
                }
            }
            assert forall|k: int| pv < k < end implies lv[k] != level by {
                if lv[k] == level {
                    let i = choose|i: int| 0 <= i < sibs.len() && sibs[i] == k;
                    if i < sibs.len() - 1 {
                        assert(sibs[i] < sibs[sibs.len() - 1]);
                    }
                }
            }
            if sibs.len() - 1 > 0 {
                assert(sibs[0] < sibs[sibs.len() - 1]);
            }
        }
    }
}

/// Moving among top-level comments: the next one is the nearest top-level
/// item after it (the end of the list when there is none), the previous
/// one the nearest before it (the item itself when there is none).
pub proof fn top_level_sibling_moves(lv: Seq<nat>, s: int)
    requires
        0 <= s < lv.len(),
        lv[s] == 0,
    ensures
        ({
            let nx = sibling_target(lv, s, NavigationDirection::Next);
            let pv = sibling_target(lv, s, NavigationDirection::Previous);
            &&& s < nx <= lv.len()
            &&& nx < lv.len() ==> lv[nx] == 0
            &&& forall|k: int| s < k < nx ==> lv[k] != 0
            &&& pv <= s
            &&& pv < s ==> (0 <= pv && lv[pv] == 0 && forall|k: int| pv < k < s ==> lv[k] != 0)
            &&& pv == s ==> forall|k: int| 0 <= k < s ==> lv[k] != 0
        }),
{
    lemma_next_leq_spec(lv, s, 0);
    lemma_prev_leq_spec(lv, s, s, 0);
}

impl CommentView {
    /// The view's lists agree in length, there is at least one item, the
    /// focus is on an item, and hidden items are invisible while normal
    /// items are visible.
    pub open spec fn wf(&self) -> bool {
        &&& self.items.len() > 0
        &&& self.visible.len() == self.items.len()
        &&& self.rendered.len() == self.items.len()
        &&& self.focus < self.items.len()
        &&& consistent(states(self.items@), self.visible@)
    }

    /// The number of items.
    pub fn len(&self) -> (res: usize)
        ensures
            res == self.items.len(),
    {
        self.items.len()
    }

    /// The first item after `start_id` (going forward) or the last one
    /// before it (going back) whose level is at most `max_level`. Going
    /// forward without such an item gives the length; going back without
    /// one gives `start_id`.
    pub fn find_item_id_by_max_level(
        &self,
        start_id: usize,
        max_level: usize,
        direction: NavigationDirection,
    ) -> (res: usize)
        requires
            direction == NavigationDirection::Previous ==> start_id <= self.items.len(),
        ensures
            res == (match direction {
                NavigationDirection::Next => next_leq(levels(self.items@), start_id as int, max_level as nat),
                NavigationDirection::Previous => prev_leq(levels(self.items@), start_id as int, max_level as nat),
            }),
    {
        let ghost lv = levels(self.items@);
        match direction {
            NavigationDirection::Next => {
                let mut i = start_id;
                while i < self.items.len() && i + 1 < self.items.len() && self.items[i + 1].level > max_level
                    invariant
                        lv == levels(self.items@),
                        start_id <= i,
                        next_leq(lv, start_id as int, max_level as nat) == next_leq(lv, i as int, max_level as nat),
                    decreases self.items.len() - i,
                {
                    i += 1;
                }
                if i < self.items.len() && i + 1 < self.items.len() {
                    i + 1
                } else {
                    self.items.len()
                }
            },
            NavigationDirection::Previous => {
                let mut k = start_id;
                while k > 0 && self.items[k - 1].level > max_level
                    invariant
                        lv == levels(self.items@),
                        k <= start_id <= self.items.len(),
                        prev_leq(lv, start_id as int, max_level as nat) == prev_leq_from(lv, k as int, start_id as int, max_level as nat),
                    decreases k,
                {
                    k -= 1;
                }
                if k > 0 {
                    k - 1
                } else {
                    start_id
                }
            },
        }
    }

    /// The first visible item after `start_id` (or the length), or the
    /// last visible item before it (or `start_id`).
    pub fn find_next_visible_item(&self, start_id: usize, direction: NavigationDirection) -> (res: usize)
        requires
            self.wf(),
            direction == NavigationDirection::Previous ==> start_id <= self.items.len(),
        ensures
            res == (match direction {
                NavigationDirection::Next => next_visible(self.visible@, start_id as int),
                NavigationDirection::Previous => prev_visible_from(self.visible@, start_id as int, start_id as int),
            }),
    {
        match direction {
            NavigationDirection::Next => {
                let mut i = start_id;
                while i < self.visible.len() && i + 1 < self.visible.len() && !self.visible[i + 1]
                    invariant
                        start_id <= i,
                        next_visible(self.visible@, start_id as int) == next_visible(self.visible@, i as int),
                    decreases self.visible.len() - i,
                {
                    i += 1;
                }
                if i < self.visible.len() && i + 1 < self.visible.len() {
                    i + 1
                } else {
                    self.visible.len()
                }
            },
            NavigationDirection::Previous => {
                let mut k = start_id;
                while k > 0 && !self.visible[k - 1]
                    invariant
                        k <= start_id <= self.visible.len(),
                        prev_visible_from(self.visible@, start_id as int, start_id as int) == prev_visible_from(self.visible@, k as int, start_id as int),
                    decreases k,
                {
                    k -= 1;
                }
                if k > 0 {
                    k - 1
                } else {
                    start_id
                }
            },
        }
    }

    /// Collapses or expands the items from `start_id` on that sit deeper
    /// than `min_level` (see `toggle_rec`); nothing else changes.
    pub fn toggle_items_collapse_state(&mut self, start_id: usize, min_level: usize)
        requires
            old(self).visible.len() == old(self).items.len(),
        ensures
            same_but_states(old(self).items@, final(self).items@),
            (states(final(self).items@), final(self).visible@) == toggle_rec(
                levels(old(self).items@),
                states(old(self).items@),
                old(self).visible@,
                start_id as int,
                min_level as nat,
            ),
            final(self).rendered == old(self).rendered,
            final(self).focus == old(self).focus,
            final(self).vote_state == old(self).vote_state,
            final(self).vouch_state == old(self).vouch_state,
            final(self).find_state == old(self).find_state,
            final(self).root_id == old(self).root_id,
            final(self).raw_command == old(self).raw_command,
    {
        let ghost lv = levels(self.items@);
        let ghost target = toggle_rec(lv, states(self.items@), self.visible@, start_id as int, min_level as nat);
        let ghost items0 = self.items@;
        let mut i = start_id;
        while i < self.items.len() && self.items[i].level > min_level
            invariant
                lv == levels(self.items@),
                lv == levels(items0),
                same_but_states(items0, self.items@),
                self.visible.len() == self.items.len(),
                toggle_rec(lv, states(self.items@), self.visible@, i as int, min_level as nat) == target,
                self.rendered == old(self).rendered,
                self.focus == old(self).focus,
                self.vote_state == old(self).vote_state,
                self.vouch_state == old(self).vouch_state,
                self.find_state == old(self).find_state,
                self.root_id == old(self).root_id,
                self.raw_command == old(self).raw_command,
            decreases self.items.len() - i,
        {
            let ghost st0 = states(self.items@);
            let ghost it0 = self.items@;
            match self.items[i].display_state {
                DisplayState::Hidden => {
                    self.items[i].display_state = DisplayState::Normal;
                    self.visible.set(i, true);
                    assert(states(self.items@) =~= st0.update(i as int, DisplayState::Normal));
                    assert(levels(self.items@) =~= levels(it0));
                    i += 1;
                },
                DisplayState::Normal => {
                    self.items[i].display_state = DisplayState::Hidden;
                    self.visible.set(i, false);
                    assert(states(self.items@) =~= st0.update(i as int, DisplayState::Hidden));
                    assert(levels(self.items@) =~= levels(it0));
                    i += 1;
                },
                DisplayState::Minimized => {
                    let v = self.visible[i];
                    self.visible.set(i, !v);
                    let lvl = self.items[i].level;
                    proof {
                        lemma_next_leq_after(lv, i as int, lvl as nat);
                    }
                    i = self.find_item_id_by_max_level(i, lvl, NavigationDirection::Next);
                },
            }
            assert forall|k: int| 0 <= k < items0.len() implies #[trigger] self.items@[k] == (HnItem { display_state: self.items@[k].display_state, ..items0[k] }) by {
                assert(it0[k] == (HnItem { display_state: it0[k].display_state, ..items0[k] }));
            }
        }
    }

    /// Re-renders the item at `id` from its state and vote data.
    pub fn update_item_text_content(&mut self, id: usize, cs: &ComponentStyle)
        requires
            id < old(self).items.len(),
            old(self).rendered.len() == old(self).items.len(),
            old(self).items@[id as int].display_state != DisplayState::Hidden,
        ensures
            final(self).rendered@ == old(self).rendered@.update(
                id as int,
                final(self).rendered@[id as int],
            ),
            final(self).rendered@[id as int]@ == item_text(
                old(self).items@[id as int],
                vote_of(old(self).vote_state@, old(self).items@[id as int].id),
                *cs,
            ),
            final(self).items == old(self).items,
            final(self).visible == old(self).visible,
            final(self).focus == old(self).focus,
            final(self).vote_state == old(self).vote_state,
            final(self).vouch_state == old(self).vouch_state,
            final(self).find_state == old(self).find_state,
            final(self).root_id == old(self).root_id,
            final(self).raw_command == old(self).raw_command,
            final(self).title == old(self).title,
            final(self).url == old(self).url,
            final(self).comment_receiver == old(self).comment_receiver,
    {
        broadcast use vstd::std_specs::hash::group_hash_axioms;
        let item_id = self.items[id].id;
        let t = self.items[id].text(self.vote_state.get(&item_id), cs);
        self.rendered.set(id, t);
        assert(self.rendered@ =~= old(self).rendered@.update(id as int, self.rendered@[id as int]));
    }

    /// Collapses the focused item (its descendants hide and it shows its
    /// minimized text) or expands it back, then re-renders it.
    pub fn toggle_collapse_focused_item(&mut self, cs: &ComponentStyle)
        requires
            old(self).wf(),
            old(self).items@[old(self).focus as int].display_state != DisplayState::Hidden,
        ensures
            same_but_states(old(self).items@, final(self).items@),
            (states(final(self).items@), final(self).visible@) == toggle_focused(
                levels(old(self).items@),
                states(old(self).items@),
                old(self).visible@,
                old(self).focus as int,
            ),
            final(self).focus == old(self).focus,
            final(self).rendered.len() == old(self).rendered.len(),
            final(self).vote_state == old(self).vote_state,
            final(self).find_state == old(self).find_state,
            final(self).raw_command == old(self).raw_command,
            final(self).visible@[final(self).focus as int] == old(self).visible@[old(self).focus as int],
            old(self).visible@[old(self).focus as int] ==> final(self).wf(),
    {
        let id = self.focus;
        let lvl = self.items[id].level;
        let ghost lv = levels(self.items@);
        let ghost st = states(self.items@);
        let ghost vis = self.visible@;
        proof {
            lemma_toggle_frame(lv, st, vis, id + 1, lvl as nat);
        }
        let minimized = match self.items[id].display_state {
            DisplayState::Minimized => true,
            _ => false,
        };
        self.toggle_items_collapse_state(id + 1, lvl);
        let ghost it1 = self.items@;
        if minimized {
            self.items[id].display_state = DisplayState::Normal;
        } else {
            self.items[id].display_state = DisplayState::Minimized;
        }
        proof {
            assert(states(self.items@) =~= states(it1).update(id as int, self.items@[id as int].display_state));
            assert forall|k: int| 0 <= k < old(self).items@.len() implies #[trigger] self.items@[k] == (HnItem { display_state: self.items@[k].display_state, ..old(self).items@[k] }) by {
                assert(it1[k] == (HnItem { display_state: it1[k].display_state, ..old(self).items@[k] }));
            }
        }
        proof {
            toggle_keeps_consistent(lv, st, vis, id + 1, lvl as nat);
        }
        self.update_item_text_content(id, cs);
    }

    /// Moves the focus by about half a page (`half_page` rows), skipping
    /// invisible items, given each item's height; returns the new focus.
    pub fn move_focus_half_page(&mut self, forward: bool, half_page: usize, heights: &Vec<usize>) -> (res: usize)
        requires
            old(self).wf(),
            heights.len() == old(self).items.len(),
            forall|i: int| 0 <= i < heights.len() ==> #[trigger] heights@[i] <= usize::MAX - half_page,
        ensures
            res == (if forward {
                walk_forward(old(self).visible@, heights@, old(self).focus as int, 0, half_page as nat)
            } else {
                walk_backward(old(self).visible@, heights@, old(self).focus as int, 0, half_page as nat)
            }),
            res < old(self).items.len(),
            final(self).focus == res,
            *final(self) == (CommentView { focus: res, ..*old(self) }),
    {
        let n = self.items.len();
        let current = self.focus;
        let mut target = current;
        let mut accum: usize = 0;
        let ghost vis = self.visible@;
        let ghost goal = if forward {
            walk_forward(vis, heights@, current as int, 0, half_page as nat)
        } else {
            walk_backward(vis, heights@, current as int, 0, half_page as nat)
        };
        loop
            invariant_except_break
                self.wf(),
                vis == self.visible@,
                n == self.items.len(),
                heights.len() == n,
                forall|i: int| 0 <= i < heights.len() ==> #[trigger] heights@[i] <= usize::MAX - half_page,
                target < n,
                accum < half_page || target == current,
                (target == current && accum == 0) || (forward && target > current) || (!forward
                    && target < current),
                goal == (if forward {
                    walk_forward(vis, heights@, target as int, accum as nat, half_page as nat)
                } else {
                    walk_backward(vis, heights@, target as int, accum as nat, half_page as nat)
                }),
                *self == *old(self),
            ensures
                target < n,
                goal == target,
                *self == *old(self),
            decreases (if forward { n - target } else { target as int }),
        {
            let dir = if forward {
                NavigationDirection::Next
            } else {
                NavigationDirection::Previous
            };
            let next = self.find_next_visible_item(target, dir);
            proof {
                lemma_next_visible_after(vis, target as int);
                lemma_prev_visible(vis, target as int, target as int);
            }
            if next == target || next == n {
                break;
            }
            target = next;
            accum = accum + heights[target];
            if accum >= half_page {
                break;
            }
        }
        self.focus = target;
        target
    }

    /// Moves the focus to the first match at or after the focus, wrapping
    /// to the first match; nothing happens without a match.
    pub fn jump_to_next_match(&mut self)
        requires
            old(self).wf(),
            forall|k: int| 0 <= k < old(self).find_state.match_ids.len() ==> #[trigger] old(self).find_state.match_ids@[k] < old(self).items.len(),
        ensures
            ({
                let t = next_match(old(self).find_state.match_ids@, old(self).focus as int);
                if old(self).find_state.match_ids.len() > 0 && old(self).visible@[t as int] {
                    *final(self) == (CommentView { focus: t, ..*old(self) })
                } else {
                    *final(self) == *old(self)
                }
            }),
            final(self).wf(),
            old(self).visible@[old(self).focus as int] ==> final(self).visible@[final(self).focus as int],
    {
        let ms = &self.find_state.match_ids;
        if ms.len() == 0 {
            return;
        }
        let current = self.focus;
        let mut k: usize = 0;
        while k < ms.len() && ms[k] < current
            invariant
                k <= ms.len(),
                ms.len() > 0,
                next_match(ms@, current as int) == next_match_from(ms@, current as int, k as int),
            decreases ms.len() - k,
        {
            k += 1;
        }
        let target = if k < ms.len() {
            ms[k]
        } else {
            ms[0]
        };
        if self.visible[target] {
            self.focus = target;
        }
    }

    /// Moves the focus to the last match before the focus, wrapping to
    /// the last match; nothing happens without a match.
    pub fn jump_to_prev_match(&mut self)
        requires
            old(self).wf(),
            forall|k: int| 0 <= k < old(self).find_state.match_ids.len() ==> #[trigger] old(self).find_state.match_ids@[k] < old(self).items.len(),
        ensures
            ({
                let t = prev_match_from(
                    old(self).find_state.match_ids@,
                    old(self).focus as int,
                    old(self).find_state.match_ids.len() as int,
                );
                if old(self).find_state.match_ids.len() > 0 && old(self).visible@[t as int] {
                    *final(self) == (CommentView { focus: t, ..*old(self) })
                } else {
                    *final(self) == *old(self)
                }
            }),
            final(self).wf(),
            old(self).visible@[old(self).focus as int] ==> final(self).visible@[final(self).focus as int],
    {
        let ms = &self.find_state.match_ids;
        if ms.len() == 0 {
            return;
        }
        let current = self.focus;
        let mut k: usize = ms.len();
        while k > 0 && ms[k - 1] >= current
            invariant
                k <= ms.len(),
                ms.len() > 0,
                prev_match_from(ms@, current as int, ms.len() as int) == prev_match_from(ms@, current as int, k as int),
            decreases k,
        {
            k -= 1;
        }
        let target = if k > 0 {
            ms[k - 1]
        } else {
            ms[ms.len() - 1]
        };
        if self.visible[target] {
            self.focus = target;
        }
    }

    /// The vote data recorded for an item id.
    pub fn get_vote_status(&self, item_id: u32) -> (res: Option<&VoteData>)
        ensures
            match res {
                Some(v) => vote_of(self.vote_state@, item_id) == Some(*v),
                None => vote_of(self.vote_state@, item_id) is None,
            },
    {
        broadcast use vstd::std_specs::hash::group_hash_axioms;
        self.vote_state.get(&item_id)
    }

    /// Applies a vote key to the focused item: without vote data, or for a
    /// downvote without the privilege, nothing happens; otherwise the
    /// item's vote becomes `vote_outcome`, the item is re-rendered, and the
    /// request to send to HN is returned.
    pub fn apply_vote(&mut self, direction: VoteDirection, cs: &ComponentStyle) -> (res: Option<VoteRequest>)
        requires
            old(self).wf(),
            old(self).items@[old(self).focus as int].display_state != DisplayState::Hidden,
        ensures
            ({
                let item_id = old(self).items@[old(self).focus as int].id;
                match vote_of(old(self).vote_state@, item_id) {
                    None => res is None && final(self).vote_state@ == old(self).vote_state@,
                    Some(vd) => match vote_outcome(vd, direction) {
                        None => res is None && final(self).vote_state@ == old(self).vote_state@,
                        Some(nv) => {
                            &&& res matches Some(r) && r.item_id == item_id && r.auth@ == vd.auth@ && r.vote == nv
                            &&& final(self).vote_state@.dom() == old(self).vote_state@.dom()
                            &&& final(self).vote_state@[item_id].vote == nv
                            &&& final(self).vote_state@[item_id].auth@ == vd.auth@
                            &&& final(self).vote_state@[item_id].can_downvote == vd.can_downvote
                            &&& forall|k: u32| k != item_id ==> #[trigger] final(self).vote_state@.contains_key(k) ==> final(self).vote_state@[k] == old(self).vote_state@[k]
                        },
                    },
                }
            }),
            final(self).items == old(self).items,
            final(self).visible == old(self).visible,
            final(self).focus == old(self).focus,
            final(self).rendered.len() == old(self).rendered.len(),
            final(self).find_state == old(self).find_state,
            final(self).raw_command == old(self).raw_command,
    {
        broadcast use vstd::std_specs::hash::group_hash_axioms;
        let id = self.focus;
        let item_id = self.items[id].id;
        let (auth, vote, can_down) = match self.vote_state.get(&item_id) {
            None => return None,
            Some(vd) => (vd.auth.clone(), vd.vote, vd.can_downvote),
        };
        let is_down = match direction {
            VoteDirection::Down => true,
            VoteDirection::Up => false,
        };
        let voted_down = match vote {
            Some(VoteDirection::Down) => true,
            _ => false,
        };
        if is_down && !can_down && !voted_down {
            return None;
        }
        let same = match (vote, direction) {
            (Some(VoteDirection::Up), VoteDirection::Up) => true,
            (Some(VoteDirection::Down), VoteDirection::Down) => true,
            _ => false,
        };
        let new_vote = if same {
            None
        } else {
            Some(direction)
        };
        let auth2 = auth.clone();
        self.vote_state.insert(item_id, VoteData { auth, vote: new_vote, can_downvote: can_down });
        self.update_item_text_content(id, cs);
        Some(VoteRequest { item_id, auth: auth2, vote: new_vote })
    }

    /// Toggles the viewer's vouch on the focused item: without vouch data
    /// nothing happens; otherwise the vouch flag flips and the request to
    /// send (rescinding when the item was vouched) is returned.
    pub fn apply_vouch(&mut self) -> (res: Option<VouchRequest>)
        requires
            old(self).wf(),
        ensures
            ({
                let item_id = old(self).items@[old(self).focus as int].id;
                if old(self).vouch_state@.contains_key(item_id) {
                    let vd = old(self).vouch_state@[item_id];
                    &&& res matches Some(r) && r.item_id == item_id && r.auth@ == vd.auth@ && r.rescind == vd.vouched
                    &&& final(self).vouch_state@ == old(self).vouch_state@.insert(item_id, VouchData { vouched: !vd.vouched, ..vd })
                } else {
                    res is None && final(self).vouch_state@ == old(self).vouch_state@
                }
            }),
            *final(self) == (CommentView { vouch_state: final(self).vouch_state, ..*old(self) }),
    {
        broadcast use vstd::std_specs::hash::group_hash_axioms;
        let id = self.focus;
        let item_id = self.items[id].id;
        let (auth, vouched) = match self.vouch_state.get(&item_id) {
            None => return None,
            Some(vd) => (vd.auth.clone(), vd.vouched),
        };
        let auth2 = auth.clone();
        self.vouch_state.insert(item_id, VouchData { auth, vouched: !vouched });
        Some(VouchRequest { item_id, auth: auth2, rescind: vouched })
    }

    /// The next or previous sibling of the item at `start_id`: two items
    /// are siblings when they have the same parent. Deeper items cycle
    /// within their parent's subtree; top-level items move among the
    /// top-level items without wrapping. An item without siblings stays.
    pub fn find_sibling(&self, start_id: usize, direction: NavigationDirection) -> (res: usize)
        requires
            start_id < self.items.len(),
        ensures
            res == sibling_target(levels(self.items@), start_id as int, direction),
    {
        let ghost lv = levels(self.items@);
        let level = self.items[start_id].level;
        if level == 0 {
            return self.find_item_id_by_max_level(start_id, 0, direction);
        }
        let mut k = start_id;
        while k > 0 && self.items[k - 1].level >= level
            invariant
                lv == levels(self.items@),
                k <= start_id < self.items.len(),
                level == lv[start_id as int],
                last_below(lv, start_id as int, level as nat) == last_below(lv, k as int, level as nat),
            decreases k,
        {
            k -= 1;
        }
        if k == 0 {
            return start_id;
        }
        let parent = k - 1;
        assert(last_below(lv, start_id as int, level as nat) == parent);
        let pl = self.items[parent].level;
        let end = self.find_item_id_by_max_level(parent, pl, NavigationDirection::Next);
        proof {
            lemma_next_leq_after(lv, parent as int, pl as nat);
        }
        let mut sibs: Vec<usize> = Vec::new();
        let mut i = parent + 1;
        while i < end
            invariant
                lv == levels(self.items@),
                parent + 1 <= i <= end <= self.items.len() || (i == parent + 1 && end <= parent + 1),
                end <= self.items.len(),
                sibs@.map_values(|x: usize| x as int) == same_level(lv, parent + 1, i as int, level as nat),
            decreases end - i,
        {
            if self.items[i].level == level {
                let ghost s0 = sibs@;
                sibs.push(i);
                assert(sibs@.map_values(|x: usize| x as int) =~= s0.map_values(|x: usize| x as int).push(i as int));
            }
            i += 1;
        }
        let ghost sv = same_level(lv, parent + 1, end as int, level as nat);
        assert(sibs@.map_values(|x: usize| x as int) == sv) by {
            if end <= parent + 1 {
                assert(sibs@.map_values(|x: usize| x as int) =~= Seq::<int>::empty());
            }
        }
        if sibs.len() <= 1 {
            return start_id;
        }
        proof {
            lemma_same_level_sorted(lv, parent + 1, end as int, level as nat);
        }
        let mut j: usize = 0;
        while j < sibs.len() && sibs[j] != start_id
            invariant
                j <= sibs.len(),
                forall|a: int| 0 <= a < j ==> sibs@[a] != start_id,
            decreases sibs.len() - j,
        {
            j += 1;
        }
        let pos: usize = if j < sibs.len() {
            j
        } else {
            0
        };
        proof {
            assert(forall|a: int| 0 <= a < sibs.len() ==> sv[a] == sibs@[a] as int);
            if j < sibs.len() {
                assert(sv[j as int] == start_id);
                assert(sv.contains(start_id as int));
                let c = sv.index_of(start_id as int);
                assert(sv[c] == start_id);
                if c != j {
                    if c < j {
                        assert(sv[c] < sv[j as int]);
                    } else {
                        assert(sv[j as int] < sv[c]);
                    }
                }
            } else {
                assert(!sv.contains(start_id as int)) by {
                    if sv.contains(start_id as int) {
                        let c = choose|c: int| 0 <= c < sv.len() && sv[c] == start_id;
                        assert(sibs@[c] != start_id);
                    }
                }
            }
        }
        let n = sibs.len();
        let new_pos = match direction {
            NavigationDirection::Next => if pos + 1 == n {
                0
            } else {
                pos + 1
            },
            NavigationDirection::Previous => if pos == 0 {
                n - 1
            } else {
                pos - 1
            },
        };
        sibs[new_pos]
    }
}

} // verus!
