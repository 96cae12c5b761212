//! Reading the viewer's vote and vouch state from a rendered Hacker News
//! page.
//!
//! HN renders, per voteable item, `<a ... id='up_ID' ... auth=TOKEN ...>`
//! and `<a ... id='down_ID' ...>` arrows (with `class='nosee'` once the
//! arrow is used up), and `<a ... id='un_ID' ... auth=TOKEN ...>TEXT</a>`
//! while a vote can still be taken back; `TEXT` is `unvote` for an upvote
//! and `undown` for a downvote. Dead items the viewer may vouch for carry
//! `<a ... id='vouch_ID' ... auth=TOKEN ...>vouch</a>` (`unvouch` once
//! vouched).
//!
//! An anchor at `i` is `<a`, then, with no `>` in between, the first
//! `id='MARKER` after which the rest fits: the id up to the next `'`, then
//! before the next `>` an `auth=` followed by the token (lowercase letters
//! and digits), then that `>`; the anchors that carry a text continue with
//! the text up to the next `<`, which must open `</a>`.

use vstd::prelude::*;
use crate::markup::{find_char, find_char_exec, find_from, find_from_exec, occurs_at, occurs_at_exec};
use crate::model::{VoteData, VoteDirection, VouchData};

verus! {

/// A token character: a lowercase ASCII letter or an ASCII digit.
pub open spec fn is_token_char(c: char) -> bool {
    ('0' <= c && c <= '9') || ('a' <= c && c <= 'z')
}

/// The end of the run of token characters that starts at `j`.
pub open spec fn token_end(t: Seq<char>, j: int) -> int
    decreases t.len() - j,
{
    if 0 <= j < t.len() && is_token_char(t[j]) {
        token_end(t, j + 1)
    } else {
        j
    }
}

/// The parts of an anchor whose `id='MARKER` ends at `m`: the id, the auth
/// token, the text and the end of the match, as ranges.
pub open spec fn anchor_rest(t: Seq<char>, m: int, with_text: bool) -> Option<(int, int, int, int, int, int, int)> {
    let q = find_char(t, '\'', m);
    if q < 0 {
        None
    } else {
        let g = find_char(t, '>', q + 1);
        let f = find_from(t, "auth="@, q + 1);
        if g >= 0 && f >= 0 && f < g {
            let ae = token_end(t, f + 5);
            if with_text {
                let h = find_char(t, '<', g + 1);
                if h >= 0 && occurs_at(t, "</a>"@, h) {
                    Some((m, q, f + 5, ae, g + 1, h, h + 4))
                } else {
                    None
                }
            } else {
                Some((m, q, f + 5, ae, g + 1, g + 1, g + 1))
            }
        } else {
            None
        }
    }
}

/// The first `id='MARKER` at or after `k`, before the first `>` after
/// `lo`, for which the rest of the anchor fits.
pub open spec fn anchor_from(t: Seq<char>, lo: int, marker: Seq<char>, with_text: bool, k: int) -> Option<(int, int, int, int, int, int, int)>
    decreases t.len() - k,
{
    let big_g = find_char(t, '>', lo);
    let kk = find_from(t, marker, k);
    if marker.len() == 0 || kk < k || kk + marker.len() > t.len() || (big_g >= 0 && kk > big_g) {
        None
    } else {
        match anchor_rest(t, kk + marker.len(), with_text) {
            Some(r) => Some(r),
            None => anchor_from(t, lo, marker, with_text, kk + 1),
        }
    }
}

/// An anchor at `i`.
pub open spec fn anchor_at(t: Seq<char>, i: int, marker: Seq<char>, with_text: bool) -> Option<(int, int, int, int, int, int, int)> {
    if occurs_at(t, "<a"@, i) {
        anchor_from(t, i + 2, marker, with_text, i + 2)
    } else {
        None
    }
}

/// One anchor found: its id, its auth token, the whole match and its text.
pub struct AnchorV {
    pub id: Seq<char>,
    pub auth: Seq<char>,
    pub whole: Seq<char>,
    pub text: Seq<char>,
}

/// The anchors at or after `from`, from left to right, each search going
/// on after the end of the previous match.
pub open spec fn anchors_from(t: Seq<char>, marker: Seq<char>, with_text: bool, from: int) -> Seq<AnchorV>
    decreases t.len() - from,
{
    if from < 0 || from >= t.len() {
        Seq::empty()
    } else {
        match anchor_at(t, from, marker, with_text) {
            Some(r) => if from < r.6 && r.6 <= t.len() && 0 <= r.0 <= r.1 <= r.2 <= r.3 <= r.4 <= r.5 <= r.6 {
                seq![AnchorV {
                    id: t.subrange(r.0, r.1),
                    auth: t.subrange(r.2, r.3),
                    whole: t.subrange(from, r.6),
                    text: t.subrange(r.4, r.5),
                }] + anchors_from(t, marker, with_text, r.6)
            } else {
                Seq::empty()
            },
            None => anchors_from(t, marker, with_text, from + 1),
        }
    }
}

proof fn lemma_token_end(t: Seq<char>, j: int)
    ensures
        j <= token_end(t, j),
        0 <= j <= t.len() ==> token_end(t, j) <= t.len(),
    decreases t.len() - j,
{
    if 0 <= j < t.len() && is_token_char(t[j]) {
        lemma_token_end(t, j + 1);
    }
}

proof fn lemma_anchor_rest(t: Seq<char>, m: int, with_text: bool)
    requires
        0 <= m,
    ensures
        anchor_rest(t, m, with_text) matches Some(r) ==> (m == r.0 && r.0 <= r.1 < r.2 <= r.3 < r.4 <= r.5 <= r.6 <= t.len()),
{
    reveal_strlit("auth=");
    reveal_strlit("</a>");
    let q = find_char(t, '\'', m);
    crate::markup::lemma_find_char_bounds(t, '\'', m);
    crate::markup::lemma_find_char_bounds(t, '>', q + 1);
    crate::markup::lemma_find_from_bounds(t, "auth="@, q + 1);
    let g = find_char(t, '>', q + 1);
    let f = find_from(t, "auth="@, q + 1);
    lemma_token_end(t, f + 5);
    crate::markup::lemma_find_char_bounds(t, '<', g + 1);
    if f >= 0 && g >= 0 && f < g {
        if g < f + 5 {
            assert(t.subrange(f, f + 5)[g - f] == t[g]);
        }
        lemma_token_stops(t, f + 5, g);
    }
}

proof fn lemma_token_stops(t: Seq<char>, j: int, g: int)
    requires
        0 <= j <= g < t.len(),
        t[g] == '>',
    ensures
        token_end(t, j) <= g,
    decreases g - j,
{
    if j < g && is_token_char(t[j]) {
        lemma_token_stops(t, j + 1, g);
    }
}

proof fn lemma_anchor_from(t: Seq<char>, lo: int, marker: Seq<char>, with_text: bool, k: int)
    requires
        0 <= k,
    ensures
        anchor_from(t, lo, marker, with_text, k) matches Some(r) ==> (k <= r.0 && r.0 <= r.1 < r.2 <= r.3 < r.4 <= r.5 <= r.6 <= t.len()),
    decreases t.len() - k,
{
    let kk = find_from(t, marker, k);
    crate::markup::lemma_find_from_bounds(t, marker, k);
    if marker.len() == 0 || kk < k || kk + marker.len() > t.len() {
    } else {
        lemma_anchor_rest(t, kk + marker.len(), with_text);
        lemma_anchor_from(t, lo, marker, with_text, kk + 1);
    }
}

/// One anchor found on a page.
pub struct Anchor {
    pub id: Vec<char>,
    pub auth: Vec<char>,
    pub whole: Vec<char>,
    pub text: Vec<char>,
}

impl View for Anchor {
    type V = AnchorV;

    open spec fn view(&self) -> AnchorV {
        AnchorV { id: self.id@, auth: self.auth@, whole: self.whole@, text: self.text@ }
    }
}

/// The values of a list of anchors.
pub open spec fn anchors_view(v: Seq<Anchor>) -> Seq<AnchorV> {
    v.map_values(|a: Anchor| a@)
}

fn token_end_exec(t: &Vec<char>, j: usize) -> (res: usize)
    ensures
        res as int == token_end(t@, j as int),
{
    let mut k = j;
    while k < t.len() && (('0' <= t[k] && t[k] <= '9') || ('a' <= t[k] && t[k] <= 'z'))
        invariant
            j <= k,
            token_end(t@, j as int) == token_end(t@, k as int),
        decreases t.len() - k,
    {
        k += 1;
    }
    k
}

fn anchor_rest_exec(t: &Vec<char>, m: usize, with_text: bool) -> (res: Option<(usize, usize, usize, usize, usize, usize, usize)>)
    ensures
        match res {
            Some(r) => anchor_rest(t@, m as int, with_text) == Some(
                (r.0 as int, r.1 as int, r.2 as int, r.3 as int, r.4 as int, r.5 as int, r.6 as int),
            ),
            None => anchor_rest(t@, m as int, with_text) is None,
        },
{
    let auth_kw = crate::text::chars_of("auth=");
    let close = crate::text::chars_of("</a>");
    proof {
        reveal_strlit("auth=");
        reveal_strlit("</a>");
        lemma_anchor_rest(t@, m as int, with_text);
    }
    let q = match find_char_exec(t, '\'', m) {
        Some(q) => q,
        None => return None,
    };
    proof {
        crate::markup::lemma_find_char_bounds(t@, '\'', m as int);
    }
    let g = find_char_exec(t, '>', q + 1);
    let f = find_from_exec(t, &auth_kw, q + 1);
    match (g, f) {
        (Some(g), Some(f)) => {
            if f < g {
                proof {
                    crate::markup::lemma_find_char_bounds(t@, '>', q + 1);
                    crate::markup::lemma_find_from_bounds(t@, "auth="@, q + 1);
                }
                let ae = token_end_exec(t, f + 5);
                if with_text {
                    match find_char_exec(t, '<', g + 1) {
                        Some(h) => {
                            if occurs_at_exec(t, &close, h) {
                                Some((m, q, f + 5, ae, g + 1, h, h + 4))
                            } else {
                                None
                            }
                        },
                        None => None,
                    }
                } else {
                    Some((m, q, f + 5, ae, g + 1, g + 1, g + 1))
                }
            } else {
                None
            }
        },
        _ => None,
    }
}

fn anchor_at_exec(t: &Vec<char>, i: usize, marker: &Vec<char>, with_text: bool) -> (res: Option<(usize, usize, usize, usize, usize, usize, usize)>)
    ensures
        match res {
            Some(r) => anchor_at(t@, i as int, marker@, with_text) == Some(
                (r.0 as int, r.1 as int, r.2 as int, r.3 as int, r.4 as int, r.5 as int, r.6 as int),
            ),
            None => anchor_at(t@, i as int, marker@, with_text) is None,
        },
{
    let a_open = crate::text::chars_of("<a");
    if !occurs_at_exec(t, &a_open, i) {
        return None;
    }
    proof {
        reveal_strlit("<a");
    }
    let lo = i + 2;
    let big_g = find_char_exec(t, '>', lo);
    let mut k = lo;
    if marker.len() == 0 {
        return None;
    }
    loop
        invariant
            lo <= k,
            marker@.len() > 0,
            big_g is Some ==> big_g.unwrap() as int == find_char(t@, '>', lo as int),
            big_g is None ==> find_char(t@, '>', lo as int) == -1,
            anchor_at(t@, i as int, marker@, with_text) == anchor_from(t@, lo as int, marker@, with_text, k as int),
        decreases t@.len() - k,
    {
        proof {
            crate::markup::lemma_find_from_bounds(t@, marker@, k as int);
        }
        let kk = match find_from_exec(t, marker, k) {
            Some(kk) => kk,
            None => return None,
        };
        if kk + marker.len() > t.len() {
            return None;
        }
        match big_g {
            Some(bg) => if kk > bg {
                return None;
            },
            None => {},
        }
        match anchor_rest_exec(t, kk + marker.len(), with_text) {
            Some(r) => return Some(r),
            None => {
                k = kk + 1;
            },
        }
    }
}

/// The anchors of a page for one marker, from left to right.
pub fn find_anchors(t: &Vec<char>, marker: &Vec<char>, with_text: bool) -> (res: Vec<Anchor>)
    ensures
        anchors_view(res@) == anchors_from(t@, marker@, with_text, 0),
{
    let mut out: Vec<Anchor> = Vec::new();
    let mut i: usize = 0;
    let len = t.len();
    assert(anchors_view(out@) + anchors_from(t@, marker@, with_text, 0) =~= anchors_from(t@, marker@, with_text, 0));
    while i < len
        invariant
            len == t@.len(),
            i <= len,
            anchors_view(out@) + anchors_from(t@, marker@, with_text, i as int) == anchors_from(t@, marker@, with_text, 0),
        decreases len - i,
    {
        let ghost o0 = anchors_view(out@);
        proof {
            reveal_strlit("<a");
            if occurs_at(t@, "<a"@, i as int) {
                lemma_anchor_from(t@, i + 2, marker@, with_text, i + 2);
            }
        }
        match anchor_at_exec(t, i, marker, with_text) {
            Some(r) => {
                let a = Anchor {
                    id: crate::scan::copy_range(t, r.0, r.1),
                    auth: crate::scan::copy_range(t, r.2, r.3),
                    whole: crate::scan::copy_range(t, i, r.6),
                    text: crate::scan::copy_range(t, r.4, r.5),
                };
                out.push(a);
                assert(anchors_view(out@) + anchors_from(t@, marker@, with_text, r.6 as int) =~= o0 + anchors_from(
                    t@,
                    marker@,
                    with_text,
                    i as int,
                ));
                i = r.6;
            },
            None => {
                i += 1;
            },
        }
    }
    assert(anchors_view(out@) + anchors_from(t@, marker@, with_text, i as int) =~= anchors_view(out@));
    out
}

/// Which arrow an anchor is.
#[derive(Debug, Clone, Copy, PartialEq, Eq, Structural)]
pub enum Arrow {
    Up,
    Down,
    Un,
}

/// What the anchors of one item say about the viewer's vote.
pub struct FlagsV {
    /// An up arrow without `nosee` was seen.
    pub up_clickable: bool,
    /// An up arrow was seen.
    pub up_present: bool,
    /// A down arrow without `nosee` was seen.
    pub down_clickable: bool,
    /// A down arrow was seen.
    pub down_present: bool,
    /// An `un` anchor was seen.
    pub has_un: bool,
    /// The direction the last `un` anchor's text names.
    pub un_direction: Option<VoteDirection>,
    /// The last non-empty auth token seen.
    pub auth: Seq<char>,
}

/// Nothing seen yet.
pub open spec fn no_flags() -> FlagsV {
    FlagsV {
        up_clickable: false,
        up_present: false,
        down_clickable: false,
        down_present: false,
        has_un: false,
        un_direction: None,
        auth: Seq::empty(),
    }
}

/// Whether a text holds `nosee`.
pub open spec fn has_nosee(s: Seq<char>) -> bool {
    find_from(s, "nosee"@, 0) >= 0
}

/// The vote direction an `un` anchor's text names: `undown` a downvote,
/// `unvote` an upvote.
pub open spec fn un_direction(text: Seq<char>) -> Option<VoteDirection> {
    let t = crate::theme::trim(text);
    if t == "undown"@ {
        Some(VoteDirection::Down)
    } else if t == "unvote"@ {
        Some(VoteDirection::Up)
    } else {
        None
    }
}

/// The flags after one more anchor of the item.
pub open spec fn flags_step(f: FlagsV, kind: Arrow, a: AnchorV) -> FlagsV {
    let auth = if a.auth.len() > 0 {
        a.auth
    } else {
        f.auth
    };
    match kind {
        Arrow::Up => FlagsV { up_present: true, up_clickable: f.up_clickable || !has_nosee(a.whole), auth, ..f },
        Arrow::Down => FlagsV {
            down_present: true,
            down_clickable: f.down_clickable || !has_nosee(a.whole),
            auth,
            ..f
        },
        Arrow::Un => FlagsV { has_un: true, un_direction: un_direction(a.text), auth, ..f },
    }
}

/// The flags of item `id` after the anchors `ev`, in order.
pub open spec fn flags_of(ev: Seq<(Arrow, AnchorV)>, id: Seq<char>) -> FlagsV
    decreases ev.len(),
{
    if ev.len() == 0 {
        no_flags()
    } else {
        let f = flags_of(ev.drop_last(), id);
        if ev.last().1.id == id {
            flags_step(f, ev.last().0, ev.last().1)
        } else {
            f
        }
    }
}

/// The vote data that flags give: the viewer voted when an `un` anchor was
/// seen or an arrow was seen only used up; the direction is the `un` text's,
/// or up when it names none; a down arrow means the viewer may downvote.
pub open spec fn vote_of_flags(f: FlagsV) -> (Seq<char>, Option<VoteDirection>, bool) {
    let voted = f.has_un || (f.up_present && !f.up_clickable) || (f.down_present && !f.down_clickable);
    (
        f.auth,
        if voted {
            Some(
                match f.un_direction {
                    Some(d) => d,
                    None => VoteDirection::Up,
                },
            )
        } else {
            None
        },
        f.down_present,
    )
}

/// The value of vote data.
pub open spec fn vote_data_view(v: VoteData) -> (Seq<char>, Option<VoteDirection>, bool) {
    (v.auth@, v.vote, v.can_downvote)
}

/// The anchors of a page with their kinds: up arrows, down arrows, then
/// `un` anchors.
pub open spec fn vote_events(t: Seq<char>) -> Seq<(Arrow, AnchorV)> {
    anchors_from(t, "id='up_"@, false, 0).map_values(|a: AnchorV| (Arrow::Up, a))
        + anchors_from(t, "id='down_"@, false, 0).map_values(|a: AnchorV| (Arrow::Down, a))
        + anchors_from(t, "id='un_"@, true, 0).map_values(|a: AnchorV| (Arrow::Un, a))
}

/// Whether some anchor of `ev` is for item `id`.
pub open spec fn has_id(ev: Seq<(Arrow, AnchorV)>, id: Seq<char>) -> bool {
    exists|k: int| 0 <= k < ev.len() && #[trigger] ev[k].1.id == id
}

/// The entries of a table have distinct keys.
pub open spec fn distinct_keys<V>(v: Seq<(String, V)>) -> bool {
    forall|i: int, j: int| 0 <= i < j < v.len() ==> (#[trigger] v[i]).0@ != (#[trigger] v[j]).0@
}

/// Whether a table has an entry for `id`.
pub open spec fn has_key<V>(v: Seq<(String, V)>, id: Seq<char>) -> bool {
    exists|i: int| 0 <= i < v.len() && (#[trigger] v[i]).0@ == id
}

proof fn lemma_flags_absent(ev: Seq<(Arrow, AnchorV)>, id: Seq<char>)
    requires
        !has_id(ev, id),
    ensures
        flags_of(ev, id) == no_flags(),
    decreases ev.len(),
{
    if ev.len() > 0 {
        assert(!has_id(ev.drop_last(), id)) by {
            if has_id(ev.drop_last(), id) {
                let k = choose|k: int| 0 <= k < ev.drop_last().len() && #[trigger] ev.drop_last()[k].1.id == id;
                assert(ev[k].1.id == id);
            }
        }
        lemma_flags_absent(ev.drop_last(), id);
        assert(ev[ev.len() - 1].1.id != id);
    }
}

/// Flags as kept while reading a page.
struct Flags {
    up_clickable: bool,
    up_present: bool,
    down_clickable: bool,
    down_present: bool,
    has_un: bool,
    un_direction: Option<VoteDirection>,
    auth: Vec<char>,
}

impl Flags {
    spec fn v(&self) -> FlagsV {
        FlagsV {
            up_clickable: self.up_clickable,
            up_present: self.up_present,
            down_clickable: self.down_clickable,
            down_present: self.down_present,
            has_un: self.has_un,
            un_direction: self.un_direction,
            auth: self.auth@,
        }
    }
}

/// Whether two character sequences are equal.
pub fn chars_eq(a: &Vec<char>, b: &Vec<char>) -> (res: bool)
    ensures
        res == (a@ == b@),
{
    if a.len() != b.len() {
        return false;
    }
    let mut k: usize = 0;
    while k < a.len()
        invariant
            k <= a@.len(),
            a@.len() == b@.len(),
            forall|i: int| 0 <= i < k ==> a@[i] == b@[i],
        decreases a.len() - k,
    {
        if a[k] != b[k] {
            return false;
        }
        k += 1;
    }
    assert(a@ =~= b@);
    true
}

fn copy_chars(a: &Vec<char>) -> (res: Vec<char>)
    ensures
        res@ == a@,
{
    let mut v: Vec<char> = Vec::new();
    let mut k: usize = 0;
    while k < a.len()
        invariant
            k <= a@.len(),
            v@ == a@.take(k as int),
        decreases a.len() - k,
    {
        v.push(a[k]);
        k += 1;
        assert(v@ =~= a@.take(k as int));
    }
    assert(a@.take(a@.len() as int) =~= a@);
    v
}

fn un_direction_exec(text: &Vec<char>) -> (res: Option<VoteDirection>)
    ensures
        res == un_direction(text@),
{
    let t = crate::theme::trim_chars(text);
    let undown = crate::text::chars_of("undown");
    let unvote = crate::text::chars_of("unvote");
    if chars_eq(&t, &undown) {
        Some(VoteDirection::Down)
    } else if chars_eq(&t, &unvote) {
        Some(VoteDirection::Up)
    } else {
        None
    }
}

fn flags_next(f: &Flags, kind: Arrow, a: &Anchor, nosee: &Vec<char>) -> (res: Flags)
    requires
        nosee@ == "nosee"@,
    ensures
        res.v() == flags_step(f.v(), kind, a@),
{
    proof {
        reveal_strlit("nosee");
    }
    let seen_nosee = match find_from_exec(&a.whole, nosee, 0) {
        Some(_) => true,
        None => false,
    };
    let auth = if a.auth.len() > 0 {
        copy_chars(&a.auth)
    } else {
        copy_chars(&f.auth)
    };
    match kind {
        Arrow::Up => Flags {
            up_clickable: f.up_clickable || !seen_nosee,
            up_present: true,
            down_clickable: f.down_clickable,
            down_present: f.down_present,
            has_un: f.has_un,
            un_direction: f.un_direction,
            auth,
        },
        Arrow::Down => Flags {
            up_clickable: f.up_clickable,
            up_present: f.up_present,
            down_clickable: f.down_clickable || !seen_nosee,
            down_present: true,
            has_un: f.has_un,
            un_direction: f.un_direction,
            auth,
        },
        Arrow::Un => Flags {
            up_clickable: f.up_clickable,
            up_present: f.up_present,
            down_clickable: f.down_clickable,
            down_present: f.down_present,
            has_un: true,
            un_direction: un_direction_exec(&a.text),
            auth,
        },
    }
}

fn no_flags_exec() -> (res: Flags)
    ensures
        res.v() == no_flags(),
{
    let res = Flags {
        up_clickable: false,
        up_present: false,
        down_clickable: false,
        down_present: false,
        has_un: false,
        un_direction: None,
        auth: Vec::new(),
    };
    assert(res.v().auth =~= Seq::<char>::empty());
    res
}

/// The table of flags read so far agrees with the anchors `ev`.
spec fn table_ok(keys: Seq<Vec<char>>, flags: Seq<Flags>, ev: Seq<(Arrow, AnchorV)>) -> bool {
    &&& keys.len() == flags.len()
    &&& forall|i: int, j: int| 0 <= i < j < keys.len() ==> (#[trigger] keys[i])@ != (#[trigger] keys[j])@
    &&& forall|i: int| 0 <= i < keys.len() ==> (#[trigger] flags[i]).v() == flags_of(ev, keys[i]@)
    &&& forall|i: int| 0 <= i < keys.len() ==> has_id(ev, (#[trigger] keys[i])@)
    &&& forall|id: Seq<char>| #[trigger] has_id(ev, id) ==> exists|i: int| 0 <= i < keys.len() && (#[trigger] keys[i])@ == id
}

fn find_key(keys: &Vec<Vec<char>>, id: &Vec<char>) -> (res: Option<usize>)
    ensures
        match res {
            Some(i) => i < keys@.len() && keys@[i as int]@ == id@,
            None => forall|i: int| 0 <= i < keys@.len() ==> (#[trigger] keys@[i])@ != id@,
        },
{
    let mut i: usize = 0;
    while i < keys.len()
        invariant
            i <= keys@.len(),
            forall|k: int| 0 <= k < i ==> (#[trigger] keys@[k])@ != id@,
        decreases keys.len() - i,
    {
        if chars_eq(&keys[i], id) {
            return Some(i);
        }
        i += 1;
    }
    None
}

/// Reads the anchors of one kind into the table.
fn absorb(keys: &mut Vec<Vec<char>>, flags: &mut Vec<Flags>, anchors: &Vec<Anchor>, kind: Arrow, Ghost(ev): Ghost<Seq<(Arrow, AnchorV)>>)
    requires
        table_ok(old(keys)@, old(flags)@, ev),
    ensures
        table_ok(final(keys)@, final(flags)@, ev + anchors_view(anchors@).map_values(|a: AnchorV| (kind, a))),
{
    let nosee = crate::text::chars_of("nosee");
    let ghost added = anchors_view(anchors@).map_values(|a: AnchorV| (kind, a));
    let mut k: usize = 0;
    assert(ev + added.take(0) =~= ev);
    while k < anchors.len()
        invariant
            k <= anchors@.len(),
            added == anchors_view(anchors@).map_values(|a: AnchorV| (kind, a)),
            nosee@ == "nosee"@,
            table_ok(keys@, flags@, ev + added.take(k as int)),
        decreases anchors.len() - k,
    {
        let ghost cur = ev + added.take(k as int);
        let ghost next = ev + added.take(k + 1);
        assert(next =~= cur.push((kind, anchors@[k as int]@)));
        assert(next.drop_last() =~= cur);
        let a = &anchors[k];
        let ghost old_keys = keys@;
        let ghost old_flags = flags@;
        match find_key(keys, &a.id) {
            Some(i) => {
                let nf = flags_next(&flags[i], kind, a, &nosee);
                flags.set(i, nf);
                assert forall|j: int| 0 <= j < keys@.len() implies (#[trigger] flags@[j]).v() == flags_of(next, keys@[j]@) by {
                    if j != i {
                        assert(flags@[j] == old_flags[j]);
                    }
                }
                assert forall|j: int| 0 <= j < keys@.len() implies has_id(next, (#[trigger] keys@[j])@) by {
                    assert(has_id(cur, keys@[j]@));
                    let w = choose|w: int| 0 <= w < cur.len() && #[trigger] cur[w].1.id == keys@[j]@;
                    assert(next[w] == cur[w]);
                }
                assert forall|id: Seq<char>| #[trigger] has_id(next, id) implies exists|j: int| 0 <= j < keys@.len() && (#[trigger] keys@[j])@ == id by {
                    let w = choose|w: int| 0 <= w < next.len() && #[trigger] next[w].1.id == id;
                    if w < cur.len() {
                        assert(cur[w] == next[w]);
                        assert(has_id(cur, id));
                    } else {
                        assert(keys@[i as int]@ == id);
                    }
                }
            },
            None => {
                proof {
                    if has_id(cur, a.id@) {
                        let j = choose|j: int| 0 <= j < keys@.len() && (#[trigger] keys@[j])@ == a.id@;
                        assert(false);
                    }
                    lemma_flags_absent(cur, a.id@);
                }
                let f0 = no_flags_exec();
                let nf = flags_next(&f0, kind, a, &nosee);
                keys.push(copy_chars(&a.id));
                flags.push(nf);
                assert(next[next.len() - 1].1.id == a.id@);
                assert forall|j: int| 0 <= j < keys@.len() implies (#[trigger] flags@[j]).v() == flags_of(next, keys@[j]@) by {
                    if j < old_keys.len() {
                        assert(flags@[j] == old_flags[j]);
                        assert(keys@[j] == old_keys[j]);
                    }
                }
                assert forall|j: int| 0 <= j < keys@.len() implies has_id(next, (#[trigger] keys@[j])@) by {
                    if j < old_keys.len() {
                        assert(keys@[j] == old_keys[j]);
                        assert(has_id(cur, keys@[j]@));
                        let w = choose|w: int| 0 <= w < cur.len() && #[trigger] cur[w].1.id == keys@[j]@;
                        assert(next[w] == cur[w]);
                    } else {
                        assert(next[next.len() - 1].1.id == keys@[j]@);
                    }
                }
                assert forall|id: Seq<char>| #[trigger] has_id(next, id) implies exists|j: int| 0 <= j < keys@.len() && (#[trigger] keys@[j])@ == id by {
                    let w = choose|w: int| 0 <= w < next.len() && #[trigger] next[w].1.id == id;
                    if w < cur.len() {
                        assert(cur[w] == next[w]);
                        assert(has_id(cur, id));
                        let j = choose|j: int| 0 <= j < old_keys.len() && (#[trigger] old_keys[j])@ == id;
                        assert(keys@[j] == old_keys[j]);
                    } else {
                        assert(keys@[old_keys.len() as int]@ == id);
                    }
                }
                assert forall|x: int, y: int| 0 <= x < y < keys@.len() implies (#[trigger] keys@[x])@ != (#[trigger] keys@[y])@ by {
                    if y < old_keys.len() {
                        assert(keys@[x] == old_keys[x]);
                        assert(keys@[y] == old_keys[y]);
                    } else {
                        assert(keys@[x] == old_keys[x]);
                    }
                }
            },
        }
        k += 1;
    }
    assert(added.take(anchors@.len() as int) =~= added);
}

/// Reads the viewer's vote state for every item of a rendered Hacker News
/// page: one entry per item id that has an up, down or `un` anchor.
pub fn parse_vote_data_from_content(page_content: &str) -> (res: Vec<(String, VoteData)>)
    ensures
        distinct_keys(res@),
        forall|id: Seq<char>| has_key(res@, id) <==> has_id(vote_events(page_content@), id),
        forall|i: int| 0 <= i < res@.len() ==> vote_data_view((#[trigger] res@[i]).1) == vote_of_flags(
            flags_of(vote_events(page_content@), res@[i].0@),
        ),
{
    let t = crate::text::chars_of(page_content);
    let up_m = crate::text::chars_of("id='up_");
    let down_m = crate::text::chars_of("id='down_");
    let un_m = crate::text::chars_of("id='un_");
    let ups = find_anchors(&t, &up_m, false);
    let downs = find_anchors(&t, &down_m, false);
    let uns = find_anchors(&t, &un_m, true);
    let mut keys: Vec<Vec<char>> = Vec::new();
    let mut flags: Vec<Flags> = Vec::new();
    let ghost e0 = Seq::<(Arrow, AnchorV)>::empty();
    absorb(&mut keys, &mut flags, &ups, Arrow::Up, Ghost(e0));
    let ghost e1 = e0 + anchors_view(ups@).map_values(|a: AnchorV| (Arrow::Up, a));
    absorb(&mut keys, &mut flags, &downs, Arrow::Down, Ghost(e1));
    let ghost e2 = e1 + anchors_view(downs@).map_values(|a: AnchorV| (Arrow::Down, a));
    absorb(&mut keys, &mut flags, &uns, Arrow::Un, Ghost(e2));
    let ghost e3 = e2 + anchors_view(uns@).map_values(|a: AnchorV| (Arrow::Un, a));
    assert(e3 =~= vote_events(page_content@));
    let mut out: Vec<(String, VoteData)> = Vec::new();
    let mut i: usize = 0;
    while i < keys.len()
        invariant
            table_ok(keys@, flags@, e3),
            e3 == vote_events(page_content@),
            i <= keys@.len(),
            out@.len() == i,
            forall|j: int| 0 <= j < i ==> (#[trigger] out@[j]).0@ == keys@[j]@,
            forall|j: int| 0 <= j < i ==> vote_data_view((#[trigger] out@[j]).1) == vote_of_flags(flags@[j].v()),
        decreases keys.len() - i,
    {
        let f = &flags[i];
        let voted = f.has_un || (f.up_present && !f.up_clickable) || (f.down_present && !f.down_clickable);
        let vote = if voted {
            Some(
                match f.un_direction {
                    Some(d) => d,
                    None => VoteDirection::Up,
                },
            )
        } else {
            None
        };
        let auth = crate::text::string_of(f.auth.as_slice());
        let key = crate::text::string_of(keys[i].as_slice());
        out.push((key, VoteData { auth, vote, can_downvote: f.down_present }));
        i += 1;
    }
    proof {
        assert forall|x: int, y: int| 0 <= x < y < out@.len() implies (#[trigger] out@[x]).0@ != (#[trigger] out@[y]).0@ by {
            assert(keys@[x]@ != keys@[y]@);
        }
        assert forall|id: Seq<char>| has_key(out@, id) <==> has_id(e3, id) by {
            if has_key(out@, id) {
                let j = choose|j: int| 0 <= j < out@.len() && (#[trigger] out@[j]).0@ == id;
                assert(has_id(e3, keys@[j]@));
            }
            if has_id(e3, id) {
                let j = choose|j: int| 0 <= j < keys@.len() && (#[trigger] keys@[j])@ == id;
                assert(out@[j].0@ == id);
            }
        }
    }
    out
}

/// Whether two texts are equal ignoring ASCII case.
pub open spec fn eq_ignore_ascii_case(a: Seq<char>, b: Seq<char>) -> bool {
    a.len() == b.len() && forall|i: int|
        0 <= i < a.len() ==> crate::find::ascii_lower(#[trigger] a[i]) == crate::find::ascii_lower(b[i])
}

/// The last vouch anchor for item `id` that carries an auth token.
pub open spec fn last_vouch(ev: Seq<AnchorV>, id: Seq<char>) -> Option<AnchorV>
    decreases ev.len(),
{
    if ev.len() == 0 {
        None
    } else if ev.last().id == id && ev.last().auth.len() > 0 {
        Some(ev.last())
    } else {
        last_vouch(ev.drop_last(), id)
    }
}

/// The vouch state a vouch anchor gives: its token, and vouched when its
/// text is `unvouch` in any ASCII case.
pub open spec fn vouch_of(a: AnchorV) -> (Seq<char>, bool) {
    (a.auth, eq_ignore_ascii_case(crate::theme::trim(a.text), "unvouch"@))
}

/// The vouch anchors of a page.
pub open spec fn vouch_anchors(t: Seq<char>) -> Seq<AnchorV> {
    anchors_from(t, "id='vouch_"@, true, 0)
}

pub(crate) fn eq_ignore_ascii_case_exec(a: &Vec<char>, b: &Vec<char>) -> (res: bool)
    ensures
        res == eq_ignore_ascii_case(a@, b@),
{
    if a.len() != b.len() {
        return false;
    }
    let mut k: usize = 0;
    while k < a.len()
        invariant
            k <= a@.len(),
            a@.len() == b@.len(),
            forall|i: int| 0 <= i < k ==> crate::find::ascii_lower(#[trigger] a@[i]) == crate::find::ascii_lower(b@[i]),
        decreases a.len() - k,
    {
        if crate::find::lower(a[k]) != crate::find::lower(b[k]) {
            return false;
        }
        k += 1;
    }
    true
}

proof fn lemma_last_vouch_step(ev: Seq<AnchorV>, a: AnchorV, id: Seq<char>)
    ensures
        last_vouch(ev.push(a), id) == (if a.id == id && a.auth.len() > 0 {
            Some(a)
        } else {
            last_vouch(ev, id)
        }),
{
    assert(ev.push(a).drop_last() =~= ev);
}

/// Reads the viewer's vouch state for every item of a rendered Hacker News
/// page: one entry per item id with a vouch anchor that carries an auth
/// token, from the last such anchor.
pub fn parse_vouch_data_from_content(page_content: &str) -> (res: Vec<(String, VouchData)>)
    ensures
        distinct_keys(res@),
        forall|id: Seq<char>| has_key(res@, id) <==> last_vouch(vouch_anchors(page_content@), id) is Some,
        forall|i: int| 0 <= i < res@.len() ==> {
            &&& last_vouch(vouch_anchors(page_content@), (#[trigger] res@[i]).0@) matches Some(a)
            &&& vouch_of(a) == (res@[i].1.auth@, res@[i].1.vouched)
        },
{
    let t = crate::text::chars_of(page_content);
    let marker = crate::text::chars_of("id='vouch_");
    let unvouch = crate::text::chars_of("unvouch");
    let anchors = find_anchors(&t, &marker, true);
    let ghost ev = anchors_view(anchors@);
    let mut keys: Vec<Vec<char>> = Vec::new();
    let mut vals: Vec<(Vec<char>, bool)> = Vec::new();
    let mut k: usize = 0;
    while k < anchors.len()
        invariant
            k <= anchors@.len(),
            ev == anchors_view(anchors@),
            unvouch@ == "unvouch"@,
            keys@.len() == vals@.len(),
            forall|i: int, j: int| 0 <= i < j < keys@.len() ==> (#[trigger] keys@[i])@ != (#[trigger] keys@[j])@,
            forall|i: int| 0 <= i < keys@.len() ==> {
                &&& last_vouch(ev.take(k as int), (#[trigger] keys@[i])@) matches Some(a)
                &&& vouch_of(a) == (vals@[i].0@, vals@[i].1)
            },
            forall|id: Seq<char>| #[trigger] last_vouch(ev.take(k as int), id) is Some ==> exists|i: int|
                0 <= i < keys@.len() && (#[trigger] keys@[i])@ == id,
        decreases anchors.len() - k,
    {
        let a = &anchors[k];
        let ghost cur = ev.take(k as int);
        let ghost next = ev.take(k + 1);
        assert(next =~= cur.push(a@));
        proof {
            assert forall|id: Seq<char>| #[trigger] last_vouch(next, id) == (if a@.id == id && a@.auth.len() > 0 {
                Some(a@)
            } else {
                last_vouch(cur, id)
            }) by {
                lemma_last_vouch_step(cur, a@, id);
            }
        }
        if a.auth.len() > 0 {
            let text = crate::theme::trim_chars(&a.text);
            let vouched = eq_ignore_ascii_case_exec(&text, &unvouch);
            let auth = copy_chars(&a.auth);
            let ghost old_keys = keys@;
            let ghost old_vals = vals@;
            match find_key(&keys, &a.id) {
                Some(i) => {
                    vals.set(i, (auth, vouched));
                    assert forall|j: int| 0 <= j < keys@.len() implies {
                        &&& last_vouch(next, (#[trigger] keys@[j])@) matches Some(b)
                        &&& vouch_of(b) == (vals@[j].0@, vals@[j].1)
                    } by {
                        if j != i {
                            assert(vals@[j] == old_vals[j]);
                        }
                    }
                },
                None => {
                    keys.push(copy_chars(&a.id));
                    vals.push((auth, vouched));
                    assert forall|j: int| 0 <= j < keys@.len() implies {
                        &&& last_vouch(next, (#[trigger] keys@[j])@) matches Some(b)
                        &&& vouch_of(b) == (vals@[j].0@, vals@[j].1)
                    } by {
                        if j < old_keys.len() {
                            assert(vals@[j] == old_vals[j]);
                            assert(keys@[j] == old_keys[j]);
                        }
                    }
                    assert forall|x: int, y: int| 0 <= x < y < keys@.len() implies (#[trigger] keys@[x])@ != (#[trigger] keys@[y])@ by {
                        assert(keys@[x] == old_keys[x]);
                        if y < old_keys.len() {
                            assert(keys@[y] == old_keys[y]);
                        }
                    }
                    assert forall|id: Seq<char>| #[trigger] last_vouch(next, id) is Some implies exists|j: int|
                        0 <= j < keys@.len() && (#[trigger] keys@[j])@ == id by {
                        if a@.id == id {
                            assert(keys@[old_keys.len() as int]@ == id);
                        } else {
                            let j = choose|j: int| 0 <= j < old_keys.len() && (#[trigger] old_keys[j])@ == id;
                            assert(keys@[j] == old_keys[j]);
                        }
                    }
                },
            }
        }
        k += 1;
    }
    assert(ev.take(anchors@.len() as int) =~= ev);
    let mut out: Vec<(String, VouchData)> = Vec::new();
    let mut i: usize = 0;
    while i < keys.len()
        invariant
            i <= keys@.len(),
            keys@.len() == vals@.len(),
            out@.len() == i,
            forall|j: int| 0 <= j < i ==> (#[trigger] out@[j]).0@ == keys@[j]@,
            forall|j: int| 0 <= j < i ==> (#[trigger] out@[j]).1.auth@ == vals@[j].0@ && out@[j].1.vouched == vals@[j].1,
        decreases keys.len() - i,
    {
        let key = crate::text::string_of(keys[i].as_slice());
        let auth = crate::text::string_of(vals[i].0.as_slice());
        out.push((key, VouchData { auth, vouched: vals[i].1 }));
        i += 1;
    }
    proof {
        assert forall|x: int, y: int| 0 <= x < y < out@.len() implies (#[trigger] out@[x]).0@ != (#[trigger] out@[y]).0@ by {
            assert(keys@[x]@ != keys@[y]@);
        }
        assert forall|id: Seq<char>| has_key(out@, id) <==> last_vouch(ev, id) is Some by {
            if has_key(out@, id) {
                let j = choose|j: int| 0 <= j < out@.len() && (#[trigger] out@[j]).0@ == id;
                assert(keys@[j]@ == id);
            }
            if last_vouch(ev, id) is Some {
                let j = choose|j: int| 0 <= j < keys@.len() && (#[trigger] keys@[j])@ == id;
                assert(out@[j].0@ == id);
            }
        }
    }
    out
}

} // verus!
