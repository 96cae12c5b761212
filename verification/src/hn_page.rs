//! Reading the HTML pages of news.ycombinator.com: the comment rows of an
//! item page.
//!
//! Comment rows are `<tr class="athing comtr" id="ID">` anchors; the text
//! from the end of one anchor to the start of the next is that comment's
//! body. In a body, the first `<td class="ind" indent="N">` gives the depth,
//! the first `<a href="user?id=NAME" class="hnuser">` the author, the first
//! `<div class="commtext...">...</div>` the text, the first
//! `<span class="age" title="... UNIX">` the time and the first
//! `<span class="score" id="score_ID">N point(s)</span>` the score; a
//! `<span id="unv_...">` followed, before the next tag, by `[dead]` or
//! `[flagged]` marks the status. Numbers are ASCII digits.

use vstd::prelude::*;
use crate::markup::{find_char, find_from, occurs_at, occurs_at_exec, find_char_exec, find_from_exec};
use crate::scan::{
    ascii_digits, ascii_number_upto, digits_end, digits_end_exec, digits_start, digits_start_exec, digits_value,
    first_from, is_decimal_digit, lemma_digits_start, lemma_runs, run_end_not, run_end_not_exec,
};

verus! {

pub open spec fn anchor_open() -> Seq<char> {
    "<tr class=\"athing comtr\" id=\""@
}

pub open spec fn tag_end() -> Seq<char> {
    "\">"@
}

pub open spec fn indent_open() -> Seq<char> {
    "<td class=\"ind\" indent=\""@
}

pub open spec fn author_open() -> Seq<char> {
    "<a href=\"user?id="@
}

pub open spec fn author_close() -> Seq<char> {
    "\" class=\"hnuser\">"@
}

pub open spec fn text_open() -> Seq<char> {
    "<div class=\"commtext"@
}

pub open spec fn div_close() -> Seq<char> {
    "</div>"@
}

pub open spec fn age_open() -> Seq<char> {
    "<span class=\"age\" title=\""@
}

pub open spec fn score_open() -> Seq<char> {
    "<span class=\"score\" id=\"score_"@
}

pub open spec fn point_word() -> Seq<char> {
    " point"@
}

pub open spec fn span_close() -> Seq<char> {
    "</span>"@
}

pub open spec fn unv_open() -> Seq<char> {
    "<span id=\"unv_"@
}

pub open spec fn unv_close() -> Seq<char> {
    "\"></span>"@
}

/// Digits from `p` to `d`, non-empty, followed by `">`: the digits' range.
pub open spec fn digits_then_tag_end(t: Seq<char>, p: int) -> Option<(int, int)> {
    let d = digits_end(t, p);
    if d > p && occurs_at(t, tag_end(), d) {
        Some((p, d))
    } else {
        None
    }
}

/// A comment anchor at `i`: the range of its id digits.
pub open spec fn anchor_at(t: Seq<char>, i: int) -> Option<(int, int)> {
    if occurs_at(t, anchor_open(), i) {
        digits_then_tag_end(t, i + anchor_open().len())
    } else {
        None
    }
}

/// The comment anchors at or after `from`, scanning from left to right:
/// id, start and end of each; anchors whose id exceeds `u32` are passed
/// over.
pub open spec fn anchors_from(t: Seq<char>, from: int) -> Seq<(u32, int, int)>
    decreases t.len() - from,
{
    if from < 0 || from >= t.len() {
        Seq::empty()
    } else {
        match anchor_at(t, from) {
            Some((a, b)) => if from < b + 2 && b + 2 <= t.len() {
                let v = digits_value(t.subrange(a, b));
                (if ascii_digits(t.subrange(a, b)) && v <= u32::MAX {
                    seq![(v as u32, from, b + 2)]
                } else {
                    Seq::empty()
                }) + anchors_from(t, b + 2)
            } else {
                Seq::empty()
            },
            None => anchors_from(t, from + 1),
        }
    }
}

/// An indent cell at `j`: the range of its digits.
pub open spec fn indent_at(t: Seq<char>, j: int) -> Option<(int, int)> {
    if occurs_at(t, indent_open(), j) {
        digits_then_tag_end(t, j + indent_open().len())
    } else {
        None
    }
}

/// An author link at `j`: the range of the user name.
pub open spec fn author_at(t: Seq<char>, j: int) -> Option<(int, int)> {
    if occurs_at(t, author_open(), j) {
        let p = j + author_open().len();
        let q = run_end_not(t, '"', p);
        if q > p && occurs_at(t, author_close(), q) {
            Some((p, q))
        } else {
            None
        }
    } else {
        None
    }
}

/// A comment text at `j`: the range of the text inside the `<div>`.
pub open spec fn text_at(t: Seq<char>, j: int) -> Option<(int, int)> {
    if occurs_at(t, text_open(), j) {
        let q = run_end_not(t, '"', j + text_open().len());
        if occurs_at(t, tag_end(), q) {
            let k = find_from(t, div_close(), q + 2);
            if k >= 0 {
                Some((q + 2, k))
            } else {
                None
            }
        } else {
            None
        }
    } else {
        None
    }
}

/// An age span at `j`: the range of the unix time that ends its title,
/// after a space.
pub open spec fn age_at(t: Seq<char>, j: int) -> Option<(int, int)> {
    if occurs_at(t, age_open(), j) {
        let p = j + age_open().len();
        let r = find_char(t, '"', p);
        let ds = digits_start(t, p, r);
        if r >= 0 && ds < r && ds - 1 >= p && t[ds - 1] == ' ' && occurs_at(t, tag_end(), r) {
            Some((ds, r))
        } else {
            None
        }
    } else {
        None
    }
}

/// A score span at `j`: the ranges of the item id and of the points.
pub open spec fn score_at(t: Seq<char>, j: int) -> Option<(int, int, int, int)> {
    if occurs_at(t, score_open(), j) {
        let p = j + score_open().len();
        match digits_then_tag_end(t, p) {
            Some((_, d1)) => {
                let p2 = d1 + 2;
                let d2 = digits_end(t, p2);
                if d2 > p2 && occurs_at(t, point_word(), d2) && (
                    (0 <= d2 + 6 < t.len() && t[d2 + 6] == 's' && occurs_at(t, span_close(), d2 + 7))
                    || occurs_at(t, span_close(), d2 + 6)) {
                    Some((p, d1, p2, d2))
                } else {
                    None
                }
            },
            None => None,
        }
    } else {
        None
    }
}

/// A status marker at `j`: an empty `unv_` span followed, before the next
/// tag, by `word`.
pub open spec fn status_at(t: Seq<char>, j: int, word: Seq<char>) -> bool {
    occurs_at(t, unv_open(), j) && {
        let q = run_end_not(t, '"', j + unv_open().len());
        let u = q + unv_close().len();
        let v = find_char(t, '<', u);
        let f = find_from(t, word, u);
        occurs_at(t, unv_close(), q) && f >= 0 && (v < 0 || f < v)
    }
}

/// A range of digits followed by `">`, from `p`.
fn digits_then_tag_end_exec(t: &Vec<char>, p: usize) -> (res: Option<(usize, usize)>)
    ensures
        match res {
            Some((a, b)) => digits_then_tag_end(t@, p as int) == Some((a as int, b as int)),
            None => digits_then_tag_end(t@, p as int) is None,
        },
{
    let close = crate::text::chars_of("\">");
    let d = digits_end_exec(t, p);
    if d > p && occurs_at_exec(t, &close, d) {
        Some((p, d))
    } else {
        None
    }
}

fn anchor_at_exec(t: &Vec<char>, open: &Vec<char>, i: usize) -> (res: Option<(usize, usize)>)
    requires
        open@ == anchor_open(),
    ensures
        match res {
            Some((a, b)) => anchor_at(t@, i as int) == Some((a as int, b as int)),
            None => anchor_at(t@, i as int) is None,
        },
{
    if occurs_at_exec(t, open, i) {
        digits_then_tag_end_exec(t, i + open.len())
    } else {
        None
    }
}

fn indent_at_exec(t: &Vec<char>, open: &Vec<char>, j: usize) -> (res: Option<(usize, usize)>)
    requires
        open@ == indent_open(),
    ensures
        match res {
            Some((a, b)) => indent_at(t@, j as int) == Some((a as int, b as int)),
            None => indent_at(t@, j as int) is None,
        },
{
    if occurs_at_exec(t, open, j) {
        digits_then_tag_end_exec(t, j + open.len())
    } else {
        None
    }
}

fn author_at_exec(t: &Vec<char>, open: &Vec<char>, close: &Vec<char>, j: usize) -> (res: Option<(usize, usize)>)
    requires
        open@ == author_open(),
        close@ == author_close(),
    ensures
        match res {
            Some((a, b)) => author_at(t@, j as int) == Some((a as int, b as int)),
            None => author_at(t@, j as int) is None,
        },
{
    if occurs_at_exec(t, open, j) {
        let p = j + open.len();
        let q = run_end_not_exec(t, '"', p);
        if q > p && occurs_at_exec(t, close, q) {
            Some((p, q))
        } else {
            None
        }
    } else {
        None
    }
}

fn text_at_exec(t: &Vec<char>, open: &Vec<char>, close: &Vec<char>, j: usize) -> (res: Option<(usize, usize)>)
    requires
        open@ == text_open(),
        close@ == div_close(),
    ensures
        match res {
            Some((a, b)) => text_at(t@, j as int) == Some((a as int, b as int)),
            None => text_at(t@, j as int) is None,
        },
{
    let te = crate::text::chars_of("\">");
    proof {
        reveal_strlit("\">");
        reveal_strlit("</div>");
    }
    if occurs_at_exec(t, open, j) {
        proof {
            lemma_runs(t@, '"', j + open@.len());
        }
        let q = run_end_not_exec(t, '"', j + open.len());
        if occurs_at_exec(t, &te, q) {
            match find_from_exec(t, close, q + 2) {
                Some(k) => Some((q + 2, k)),
                None => None,
            }
        } else {
            None
        }
    } else {
        None
    }
}

fn age_at_exec(t: &Vec<char>, open: &Vec<char>, j: usize) -> (res: Option<(usize, usize)>)
    requires
        open@ == age_open(),
    ensures
        match res {
            Some((a, b)) => age_at(t@, j as int) == Some((a as int, b as int)),
            None => age_at(t@, j as int) is None,
        },
{
    let te = crate::text::chars_of("\">");
    if occurs_at_exec(t, open, j) {
        let p = j + open.len();
        match find_char_exec(t, '"', p) {
            Some(r) => {
                proof {
                    crate::markup::lemma_find_char_bounds(t@, '"', p as int);
                    lemma_digits_start(t@, p as int, r as int);
                }
                let ds = digits_start_exec(t, p, r);
                if ds < r && ds > p && t[ds - 1] == ' ' && occurs_at_exec(t, &te, r) {
                    Some((ds, r))
                } else {
                    None
                }
            },
            None => None,
        }
    } else {
        None
    }
}

fn score_at_exec(t: &Vec<char>, open: &Vec<char>, j: usize) -> (res: Option<(usize, usize, usize, usize)>)
    requires
        open@ == score_open(),
    ensures
        match res {
            Some((a, b, c, d)) => score_at(t@, j as int) == Some((a as int, b as int, c as int, d as int)),
            None => score_at(t@, j as int) is None,
        },
{
    let pw = crate::text::chars_of(" point");
    let sc = crate::text::chars_of("</span>");
    proof {
        reveal_strlit("\">");
        reveal_strlit(" point");
    }
    if occurs_at_exec(t, open, j) {
        let p = j + open.len();
        match digits_then_tag_end_exec(t, p) {
            Some((_, d1)) => {
                let p2 = d1 + 2;
                let d2 = digits_end_exec(t, p2);
                if d2 > p2 && occurs_at_exec(t, &pw, d2) {
                    let plural = d2 + 6 < t.len() && t[d2 + 6] == 's' && occurs_at_exec(t, &sc, d2 + 7);
                    if plural || occurs_at_exec(t, &sc, d2 + 6) {
                        Some((p, d1, p2, d2))
                    } else {
                        None
                    }
                } else {
                    None
                }
            },
            None => None,
        }
    } else {
        None
    }
}

fn status_at_exec(t: &Vec<char>, open: &Vec<char>, close: &Vec<char>, word: &Vec<char>, j: usize) -> (res: bool)
    requires
        open@ == unv_open(),
        close@ == unv_close(),
        word@.len() > 0,
    ensures
        res == status_at(t@, j as int, word@),
{
    if !occurs_at_exec(t, open, j) {
        return false;
    }
    proof {
        lemma_runs(t@, '"', j + open@.len());
        reveal_strlit("\"></span>");
    }
    let q = run_end_not_exec(t, '"', j + open.len());
    if !occurs_at_exec(t, close, q) {
        return false;
    }
    let u = q + close.len();
    let v = find_char_exec(t, '<', u);
    let f = find_from_exec(t, word, u);
    match f {
        Some(f) => match v {
            Some(v) => f < v,
            None => true,
        },
        None => false,
    }
}

pub open spec fn indent_finder(t: Seq<char>) -> spec_fn(int) -> Option<(int, int)> {
    |j: int| indent_at(t, j)
}

pub open spec fn author_finder(t: Seq<char>) -> spec_fn(int) -> Option<(int, int)> {
    |j: int| author_at(t, j)
}

pub open spec fn text_finder(t: Seq<char>) -> spec_fn(int) -> Option<(int, int)> {
    |j: int| text_at(t, j)
}

pub open spec fn age_finder(t: Seq<char>) -> spec_fn(int) -> Option<(int, int)> {
    |j: int| age_at(t, j)
}

pub open spec fn score_finder(t: Seq<char>) -> spec_fn(int) -> Option<(int, int, int, int)> {
    |j: int| score_at(t, j)
}

pub open spec fn status_finder(t: Seq<char>, word: Seq<char>) -> spec_fn(int) -> Option<()> {
    |j: int| if status_at(t, j, word) {
        Some(())
    } else {
        None
    }
}

/// Whether a body carries the status marker `word`.
pub open spec fn has_status(t: Seq<char>, word: Seq<char>) -> bool {
    first_from(t.len() as int, status_finder(t, word), 0) is Some
}

/// The time of a comment body: its first age span's number, or 0 when it
/// has none or the number exceeds `u64`.
pub open spec fn time_of(b: Seq<char>) -> u64 {
    match first_from(b.len() as int, age_finder(b), 0) {
        Some((_, (xa, xb))) => {
            let v = digits_value(b.subrange(xa, xb));
            if ascii_digits(b.subrange(xa, xb)) && v <= u64::MAX {
                v as u64
            } else {
                0
            }
        },
        None => 0,
    }
}

/// The score of a comment body, when its first score span has one that
/// fits `u32`.
pub open spec fn points_of(b: Seq<char>) -> Option<u32> {
    match first_from(b.len() as int, score_finder(b), 0) {
        Some((_, (_, _, pa, pb))) => {
            let v = digits_value(b.subrange(pa, pb));
            if ascii_digits(b.subrange(pa, pb)) && v <= u32::MAX {
                Some(v as u32)
            } else {
                None
            }
        },
        None => None,
    }
}

/// The depth of a row body: the number of its first indent cell, when
/// it fits `usize`.
pub open spec fn level_of(b: Seq<char>) -> Option<nat> {
    match first_from(b.len() as int, indent_finder(b), 0) {
        Some((_, (la, lb))) => {
            let v = digits_value(b.subrange(la, lb));
            if ascii_digits(b.subrange(la, lb)) && v <= usize::MAX {
                Some(v)
            } else {
                None
            }
        },
        None => None,
    }
}

/// The author of a row body: its first user link's name, HTML-decoded.
pub open spec fn author_of(b: Seq<char>) -> Option<Seq<char>> {
    match first_from(b.len() as int, author_finder(b), 0) {
        Some((_, (aa, ab))) => Some(crate::utils::html_entities_decoded(b.subrange(aa, ab))),
        None => None,
    }
}

/// The text of a row body: its first comment text, HTML-decoded.
pub open spec fn text_of(b: Seq<char>) -> Option<Seq<char>> {
    match first_from(b.len() as int, text_finder(b), 0) {
        Some((_, (ta, tb))) => Some(crate::utils::html_entities_decoded(b.subrange(ta, tb))),
        None => None,
    }
}

/// The comment of a row body with the given id, when the body has a depth,
/// an author and a text; its descendants are not counted yet.
pub open spec fn row_of(b: Seq<char>, id: u32) -> Option<crate::model::CommentV> {
    match (level_of(b), author_of(b), text_of(b)) {
        (Some(level), Some(author), Some(content)) => Some(
            crate::model::CommentV {
                id,
                level,
                n_children: 0,
                author,
                time: time_of(b),
                content,
                dead: has_status(b, "[dead]"@),
                flagged: has_status(b, "[flagged]"@),
                points: points_of(b),
                parent_story_id: None,
            },
        ),
        _ => None,
    }
}

/// The body of the `k`-th anchor: from its end to the next anchor's start
/// or the end of the page.
pub open spec fn anchor_body(t: Seq<char>, anchors: Seq<(u32, int, int)>, k: int) -> Seq<char> {
    let end = if k + 1 < anchors.len() {
        anchors[k + 1].1
    } else {
        t.len() as int
    };
    t.subrange(anchors[k].2, end)
}

/// The comments of the rows from the `k`-th anchor on, in page order.
pub open spec fn rows_from(t: Seq<char>, anchors: Seq<(u32, int, int)>, k: int) -> Seq<crate::model::CommentV>
    decreases anchors.len() - k,
{
    if k < 0 || k >= anchors.len() {
        Seq::empty()
    } else {
        (match row_of(anchor_body(t, anchors, k), anchors[k].0) {
            Some(c) => seq![c],
            None => Seq::empty(),
        }) + rows_from(t, anchors, k + 1)
    }
}

/// The number of rows from `j` on, in a run, deeper than `level`.
pub open spec fn deeper_run(rows: Seq<crate::model::CommentV>, j: int, level: nat) -> nat
    decreases rows.len() - j,
{
    if 0 <= j < rows.len() && rows[j].level > level {
        1 + deeper_run(rows, j + 1, level)
    } else {
        0
    }
}

/// The rows with their descendants counted: the run of following rows
/// deeper than each.
pub open spec fn with_descendants(rows: Seq<crate::model::CommentV>) -> Seq<crate::model::CommentV> {
    Seq::new(
        rows.len(),
        |i: int| crate::model::CommentV { n_children: deeper_run(rows, i + 1, rows[i].level), ..rows[i] },
    )
}

/// The comments of an item page, in page order.
pub open spec fn page_comments(t: Seq<char>) -> Seq<crate::model::CommentV> {
    with_descendants(rows_from(t, anchors_from(t, 0), 0))
}

proof fn lemma_deeper_run(rows: Seq<crate::model::CommentV>, j: int, level: nat)
    requires
        0 <= j <= rows.len(),
    ensures
        j + deeper_run(rows, j, level) <= rows.len(),
        forall|k: int| j <= k < j + deeper_run(rows, j, level) ==> rows[k].level > level,
        j + deeper_run(rows, j, level) < rows.len() ==> rows[j + deeper_run(rows, j, level)].level <= level,
    decreases rows.len() - j,
{
    if j < rows.len() && rows[j].level > level {
        lemma_deeper_run(rows, j + 1, level);
    }
}

/// A parsed comment's descendants are the rows that follow it while they
/// sit deeper than it: each of the `n_children` rows after it is deeper,
/// and the row after those, if any, is at its depth or shallower. Parsing
/// keeps every other field of the rows.
pub proof fn descendants_are_the_deeper_rows_after(t: Seq<char>, i: int)
    requires
        0 <= i < page_comments(t).len(),
    ensures
        ({
            let c = page_comments(t);
            let n = c[i].n_children as int;
            &&& i + n < c.len()
            &&& forall|k: int| i < k <= i + n ==> c[k].level > c[i].level
            &&& i + n + 1 < c.len() ==> c[i + n + 1].level <= c[i].level
        }),
{
    let rows = rows_from(t, anchors_from(t, 0), 0);
    let c = page_comments(t);
    lemma_deeper_run(rows, i + 1, rows[i].level);
    assert(forall|k: int| 0 <= k < c.len() ==> c[k].level == rows[k].level);
}

/// Anchors lie in order inside the page.
pub open spec fn anchors_ordered(t: Seq<char>, a: Seq<(u32, int, int)>, from: int) -> bool {
    &&& forall|k: int| 0 <= k < a.len() ==> from <= #[trigger] a[k].1 && a[k].1 < a[k].2 && a[k].2 <= t.len()
    &&& forall|k: int| 0 <= k < a.len() - 1 ==> #[trigger] a[k].2 <= a[k + 1].1
}

pub proof fn lemma_anchors_ordered(t: Seq<char>, from: int)
    requires
        0 <= from,
    ensures
        anchors_ordered(t, anchors_from(t, from), from),
    decreases t.len() - from,
{
    if from >= t.len() {
    } else {
        match anchor_at(t, from) {
            Some((a, b)) => {
                if from < b + 2 && b + 2 <= t.len() {
                    lemma_anchors_ordered(t, b + 2);
                    let rest = anchors_from(t, b + 2);
                    let v = digits_value(t.subrange(a, b));
                    if ascii_digits(t.subrange(a, b)) && v <= u32::MAX {
                        let all = seq![(v as u32, from, b + 2)] + rest;
                        assert forall|k: int| 0 <= k < all.len() - 1 implies #[trigger] all[k].2 <= all[k + 1].1 by {
                            if k > 0 {
                                assert(all[k] == rest[k - 1]);
                                assert(all[k + 1] == rest[k]);
                            } else if rest.len() > 0 {
                                assert(all[1] == rest[0]);
                            }
                        }
                        assert forall|k: int| 0 <= k < all.len() implies from <= #[trigger] all[k].1 && all[k].1 < all[k].2 && all[k].2 <= t.len() by {
                            if k > 0 {
                                assert(all[k] == rest[k - 1]);
                            }
                        }
                    } else {
                        assert(anchors_from(t, from) =~= rest);
                    }
                }
            },
            None => {
                lemma_anchors_ordered(t, from + 1);
            },
        }
    }
}

fn first_indent(t: &Vec<char>, open: &Vec<char>) -> (res: Option<(usize, usize)>)
    requires
        open@ == indent_open(),
    ensures
        match res {
            Some(x) => exists|j: int| first_from(t@.len() as int, indent_finder(t@), 0) == Some((j, (x.0 as int, x.1 as int))),
            None => first_from(t@.len() as int, indent_finder(t@), 0) is None,
        },
{
    let mut j: usize = 0;
    while j < t.len()
        invariant
        open@ == indent_open(),
            first_from(t@.len() as int, indent_finder(t@), 0) == first_from(t@.len() as int, indent_finder(t@), j as int),
        decreases t.len() - j,
    {
        if let Some(x) = indent_at_exec(t, open, j) {
            assert(first_from(t@.len() as int, indent_finder(t@), j as int) == Some((j as int, (x.0 as int, x.1 as int))));
            return Some(x);
        }
        j += 1;
    }
    None
}

fn first_author(t: &Vec<char>, open: &Vec<char>, close: &Vec<char>) -> (res: Option<(usize, usize)>)
    requires
        open@ == author_open(),
        close@ == author_close(),
    ensures
        match res {
            Some(x) => exists|j: int| first_from(t@.len() as int, author_finder(t@), 0) == Some((j, (x.0 as int, x.1 as int))),
            None => first_from(t@.len() as int, author_finder(t@), 0) is None,
        },
{
    let mut j: usize = 0;
    while j < t.len()
        invariant
        open@ == author_open(),
        close@ == author_close(),
            first_from(t@.len() as int, author_finder(t@), 0) == first_from(t@.len() as int, author_finder(t@), j as int),
        decreases t.len() - j,
    {
        if let Some(x) = author_at_exec(t, open, close, j) {
            assert(first_from(t@.len() as int, author_finder(t@), j as int) == Some((j as int, (x.0 as int, x.1 as int))));
            return Some(x);
        }
        j += 1;
    }
    None
}

fn first_text(t: &Vec<char>, open: &Vec<char>, close: &Vec<char>) -> (res: Option<(usize, usize)>)
    requires
        open@ == text_open(),
        close@ == div_close(),
    ensures
        match res {
            Some(x) => exists|j: int| first_from(t@.len() as int, text_finder(t@), 0) == Some((j, (x.0 as int, x.1 as int))),
            None => first_from(t@.len() as int, text_finder(t@), 0) is None,
        },
{
    let mut j: usize = 0;
    while j < t.len()
        invariant
        open@ == text_open(),
        close@ == div_close(),
            first_from(t@.len() as int, text_finder(t@), 0) == first_from(t@.len() as int, text_finder(t@), j as int),
        decreases t.len() - j,
    {
        if let Some(x) = text_at_exec(t, open, close, j) {
            assert(first_from(t@.len() as int, text_finder(t@), j as int) == Some((j as int, (x.0 as int, x.1 as int))));
            return Some(x);
        }
        j += 1;
    }
    None
}

fn first_age(t: &Vec<char>, open: &Vec<char>) -> (res: Option<(usize, usize)>)
    requires
        open@ == age_open(),
    ensures
        match res {
            Some(x) => exists|j: int| first_from(t@.len() as int, age_finder(t@), 0) == Some((j, (x.0 as int, x.1 as int))),
            None => first_from(t@.len() as int, age_finder(t@), 0) is None,
        },
{
    let mut j: usize = 0;
    while j < t.len()
        invariant
        open@ == age_open(),
            first_from(t@.len() as int, age_finder(t@), 0) == first_from(t@.len() as int, age_finder(t@), j as int),
        decreases t.len() - j,
    {
        if let Some(x) = age_at_exec(t, open, j) {
            assert(first_from(t@.len() as int, age_finder(t@), j as int) == Some((j as int, (x.0 as int, x.1 as int))));
            return Some(x);
        }
        j += 1;
    }
    None
}

fn first_score(t: &Vec<char>, open: &Vec<char>) -> (res: Option<(usize, usize, usize, usize)>)
    requires
        open@ == score_open(),
    ensures
        match res {
            Some(x) => exists|j: int| first_from(t@.len() as int, score_finder(t@), 0) == Some((j, (x.0 as int, x.1 as int, x.2 as int, x.3 as int))),
            None => first_from(t@.len() as int, score_finder(t@), 0) is None,
        },
{
    let mut j: usize = 0;
    while j < t.len()
        invariant
        open@ == score_open(),
            first_from(t@.len() as int, score_finder(t@), 0) == first_from(t@.len() as int, score_finder(t@), j as int),
        decreases t.len() - j,
    {
        if let Some(x) = score_at_exec(t, open, j) {
            assert(first_from(t@.len() as int, score_finder(t@), j as int) == Some((j as int, (x.0 as int, x.1 as int, x.2 as int, x.3 as int))));
            return Some(x);
        }
        j += 1;
    }
    None
}

fn has_status_exec(t: &Vec<char>, open: &Vec<char>, close: &Vec<char>, word: &Vec<char>) -> (res: bool)
    requires
        open@ == unv_open(),
        close@ == unv_close(),
        word@.len() > 0,
    ensures
        res == has_status(t@, word@),
{
    let mut j: usize = 0;
    while j < t.len()
        invariant
            open@ == unv_open(),
            close@ == unv_close(),
            word@.len() > 0,
            first_from(t@.len() as int, status_finder(t@, word@), 0) == first_from(
                t@.len() as int,
                status_finder(t@, word@),
                j as int,
            ),
        decreases t.len() - j,
    {
        if status_at_exec(t, open, close, word, j) {
            assert(first_from(t@.len() as int, status_finder(t@, word@), j as int) == Some((j as int, ())));
            return true;
        }
        j += 1;
    }
    false
}

/// The literal patterns of a comment row.
struct RowPatterns {
    indent: Vec<char>,
    author_open: Vec<char>,
    author_close: Vec<char>,
    text_open: Vec<char>,
    div_close: Vec<char>,
    age: Vec<char>,
    score: Vec<char>,
    unv_open: Vec<char>,
    unv_close: Vec<char>,
    dead: Vec<char>,
    flagged: Vec<char>,
}

impl RowPatterns {
    spec fn wf(&self) -> bool {
        &&& self.indent@ == indent_open()
        &&& self.author_open@ == author_open()
        &&& self.author_close@ == author_close()
        &&& self.text_open@ == text_open()
        &&& self.div_close@ == div_close()
        &&& self.age@ == age_open()
        &&& self.score@ == score_open()
        &&& self.unv_open@ == unv_open()
        &&& self.unv_close@ == unv_close()
        &&& self.dead@ == "[dead]"@
        &&& self.flagged@ == "[flagged]"@
        &&& self.dead@.len() > 0
        &&& self.flagged@.len() > 0
    }

    fn new() -> (res: RowPatterns)
        ensures
            res.wf(),
    {
        let res = RowPatterns {
            indent: crate::text::chars_of("<td class=\"ind\" indent=\""),
            author_open: crate::text::chars_of("<a href=\"user?id="),
            author_close: crate::text::chars_of("\" class=\"hnuser\">"),
            text_open: crate::text::chars_of("<div class=\"commtext"),
            div_close: crate::text::chars_of("</div>"),
            age: crate::text::chars_of("<span class=\"age\" title=\""),
            score: crate::text::chars_of("<span class=\"score\" id=\"score_"),
            unv_open: crate::text::chars_of("<span id=\"unv_"),
            unv_close: crate::text::chars_of("\"></span>"),
            dead: crate::text::chars_of("[dead]"),
            flagged: crate::text::chars_of("[flagged]"),
        };
        proof {
            reveal_strlit("[dead]");
            reveal_strlit("[flagged]");
        }
        res
    }
}

proof fn lemma_digit_ranges(t: Seq<char>, j: int)
    ensures
        indent_at(t, j) matches Some((a, b)) ==> (0 <= a < b <= t.len() && forall|k: int| a <= k < b ==> is_decimal_digit(#[trigger] t[k])),
        age_at(t, j) matches Some((a, b)) ==> (0 <= a < b <= t.len() && forall|k: int| a <= k < b ==> is_decimal_digit(#[trigger] t[k])),
        score_at(t, j) matches Some((_, _, a, b)) ==> (0 <= a < b <= t.len() && forall|k: int| a <= k < b ==> is_decimal_digit(#[trigger] t[k])),
        author_at(t, j) matches Some((a, b)) ==> 0 <= a < b <= t.len(),
        text_at(t, j) matches Some((a, b)) ==> 0 <= a <= b <= t.len(),
{
    reveal_strlit("<td class=\"ind\" indent=\"");
    reveal_strlit("\">");
    reveal_strlit("<span class=\"age\" title=\"");
    reveal_strlit("<span class=\"score\" id=\"score_");
    reveal_strlit("<a href=\"user?id=");
    reveal_strlit("\" class=\"hnuser\">");
    reveal_strlit("<div class=\"commtext");
    reveal_strlit("</div>");
    lemma_runs(t, '"', j + indent_open().len());
    lemma_runs(t, '"', j + author_open().len());
    lemma_runs(t, '"', j + text_open().len());
    let p = j + age_open().len();
    let r = find_char(t, '"', p);
    crate::markup::lemma_find_char_bounds(t, '"', p);
    lemma_digits_start(t, p, r);
    lemma_digits_start_digits(t, p, r);
    let q = run_end_not(t, '"', j + text_open().len());
    crate::markup::lemma_find_from_bounds(t, div_close(), q + 2);
    if let Some((_, d1)) = digits_then_tag_end(t, j + score_open().len()) {
        lemma_runs(t, '"', d1 + 2);
    }
}

proof fn lemma_digits_start_digits(t: Seq<char>, lo: int, k: int)
    ensures
        forall|i: int| digits_start(t, lo, k) <= i < k ==> is_decimal_digit(#[trigger] t[i]),
    decreases k - lo,
{
    if lo < k && 0 < k <= t.len() && is_decimal_digit(t[k - 1]) {
        lemma_digits_start_digits(t, lo, k - 1);
    }
}

fn level_of_exec(b: &Vec<char>, pats: &RowPatterns) -> (res: Option<usize>)
    requires
        pats.wf(),
    ensures
        match res {
            Some(v) => level_of(b@) == Some(v as nat),
            None => level_of(b@) is None,
        },
{
    proof {
        crate::scan::lemma_first_from(b@.len() as int, indent_finder(b@), 0);
    }
    match first_indent(b, &pats.indent) {
        Some((la, lb)) => {
            proof {
                let j = choose|j: int| first_from(b@.len() as int, indent_finder(b@), 0) == Some((j, (la as int, lb as int)));
                lemma_digit_ranges(b@, j);
            }
            match ascii_number_upto(b, la, lb, usize::MAX as u64) {
                Some(v) => Some(v as usize),
                None => None,
            }
        },
        None => None,
    }
}

fn author_of_exec(b: &Vec<char>, pats: &RowPatterns) -> (res: Option<String>)
    requires
        pats.wf(),
    ensures
        match res {
            Some(v) => author_of(b@) == Some(v@),
            None => author_of(b@) is None,
        },
{
    proof {
        crate::scan::lemma_first_from(b@.len() as int, author_finder(b@), 0);
    }
    match first_author(b, &pats.author_open, &pats.author_close) {
        Some((aa, ab)) => {
            proof {
                let j = choose|j: int| first_from(b@.len() as int, author_finder(b@), 0) == Some((j, (aa as int, ab as int)));
                lemma_digit_ranges(b@, j);
            }
            let raw = crate::scan::range_string(b, aa, ab);
            Some(crate::utils::decode_html(raw.as_str()))
        },
        None => None,
    }
}

fn text_of_exec(b: &Vec<char>, pats: &RowPatterns) -> (res: Option<String>)
    requires
        pats.wf(),
    ensures
        match res {
            Some(v) => text_of(b@) == Some(v@),
            None => text_of(b@) is None,
        },
{
    proof {
        crate::scan::lemma_first_from(b@.len() as int, text_finder(b@), 0);
    }
    match first_text(b, &pats.text_open, &pats.div_close) {
        Some((ta, tb)) => {
            proof {
                let j = choose|j: int| first_from(b@.len() as int, text_finder(b@), 0) == Some((j, (ta as int, tb as int)));
                lemma_digit_ranges(b@, j);
            }
            let raw = crate::scan::range_string(b, ta, tb);
            Some(crate::utils::decode_html(raw.as_str()))
        },
        None => None,
    }
}

fn time_of_exec(b: &Vec<char>, pats: &RowPatterns) -> (res: u64)
    requires
        pats.wf(),
    ensures
        res == time_of(b@),
{
    proof {
        crate::scan::lemma_first_from(b@.len() as int, age_finder(b@), 0);
    }
    match first_age(b, &pats.age) {
        Some((xa, xb)) => {
            proof {
                let j = choose|j: int| first_from(b@.len() as int, age_finder(b@), 0) == Some((j, (xa as int, xb as int)));
                lemma_digit_ranges(b@, j);
            }
            match ascii_number_upto(b, xa, xb, u64::MAX) {
                Some(v) => v,
                None => 0,
            }
        },
        None => 0,
    }
}

fn points_of_exec(b: &Vec<char>, pats: &RowPatterns) -> (res: Option<u32>)
    requires
        pats.wf(),
    ensures
        res == points_of(b@),
{
    proof {
        crate::scan::lemma_first_from(b@.len() as int, score_finder(b@), 0);
    }
    match first_score(b, &pats.score) {
        Some(x4) => {
            proof {
                let j = choose|j: int|
                    first_from(b@.len() as int, score_finder(b@), 0) == Some(
                        (j, (x4.0 as int, x4.1 as int, x4.2 as int, x4.3 as int)),
                    );
                lemma_digit_ranges(b@, j);
            }
            match ascii_number_upto(b, x4.2, x4.3, u32::MAX as u64) {
                Some(v) => Some(v as u32),
                None => None,
            }
        },
        None => None,
    }
}

/// The comment of a row body, without its descendants counted.
fn row_exec(b: &Vec<char>, id: u32, pats: &RowPatterns) -> (res: Option<crate::model::Comment>)
    requires
        pats.wf(),
    ensures
        match res {
            Some(c) => row_of(b@, id) == Some(c@),
            None => row_of(b@, id) is None,
        },
{
    let level = match level_of_exec(b, pats) {
        Some(v) => v,
        None => return None,
    };
    let author = match author_of_exec(b, pats) {
        Some(v) => v,
        None => return None,
    };
    let content = match text_of_exec(b, pats) {
        Some(v) => v,
        None => return None,
    };
    let time = time_of_exec(b, pats);
    let points = points_of_exec(b, pats);
    let dead = has_status_exec(b, &pats.unv_open, &pats.unv_close, &pats.dead);
    let flagged = has_status_exec(b, &pats.unv_open, &pats.unv_close, &pats.flagged);
    Some(
        crate::model::Comment {
            id,
            level,
            n_children: 0,
            author,
            time,
            content,
            dead,
            flagged,
            points,
            parent_story_id: None,
        },
    )
}

/// Anchors as integers.
pub open spec fn anchors_view(v: Seq<(u32, usize, usize)>) -> Seq<(u32, int, int)> {
    v.map_values(|x: (u32, usize, usize)| (x.0, x.1 as int, x.2 as int))
}

fn anchors_exec(t: &Vec<char>) -> (res: Vec<(u32, usize, usize)>)
    ensures
        anchors_view(res@) == anchors_from(t@, 0),
{
    let open = crate::text::chars_of("<tr class=\"athing comtr\" id=\"");
    let mut out: Vec<(u32, usize, usize)> = Vec::new();
    let mut i: usize = 0;
    let len = t.len();
    proof {
        reveal_strlit("\">");
        assert(anchors_view(out@) + anchors_from(t@, 0) =~= anchors_from(t@, 0));
    }
    while i < len
        invariant
            len == t@.len(),
            i <= len,
            open@ == anchor_open(),
            anchors_view(out@) + anchors_from(t@, i as int) == anchors_from(t@, 0),
        decreases len - i,
    {
        let ghost o0 = anchors_view(out@);
        match anchor_at_exec(t, &open, i) {
            Some((a, b)) => {
                proof {
                    lemma_runs(t@, '"', a as int);
                    reveal_strlit("\">");
                }
                assert(b + 2 <= len);
                match ascii_number_upto(t, a, b, u32::MAX as u64) {
                    Some(v) => {
                        out.push((v as u32, i, b + 2));
                        assert(anchors_view(out@) =~= o0 + seq![(v as u32, i as int, b + 2)]);
                    },
                    None => {},
                }
                assert(anchors_view(out@) + anchors_from(t@, b + 2) =~= o0 + anchors_from(t@, i as int));
                i = b + 2;
            },
            None => {
                i += 1;
            },
        }
    }
    assert(anchors_view(out@) + anchors_from(t@, i as int) =~= anchors_view(out@));
    out
}

fn rows_exec(t: &Vec<char>, anchors: &Vec<(u32, usize, usize)>) -> (res: Vec<crate::model::Comment>)
    requires
        anchors_ordered(t@, anchors_view(anchors@), 0),
    ensures
        crate::model::comments_view(res@) == rows_from(t@, anchors_view(anchors@), 0),
{
    let pats = RowPatterns::new();
    let ghost av = anchors_view(anchors@);
    let mut out: Vec<crate::model::Comment> = Vec::new();
    let mut k: usize = 0;
    let n = anchors.len();
    assert(crate::model::comments_view(out@) + rows_from(t@, av, 0) =~= rows_from(t@, av, 0));
    while k < n
        invariant
            n == anchors@.len(),
            k <= n,
            pats.wf(),
            av == anchors_view(anchors@),
            anchors_ordered(t@, av, 0),
            crate::model::comments_view(out@) + rows_from(t@, av, k as int) == rows_from(t@, av, 0),
        decreases n - k,
    {
        let ghost o0 = crate::model::comments_view(out@);
        let start = anchors[k].2;
        let end = if k + 1 < n {
            anchors[k + 1].1
        } else {
            t.len()
        };
        assert(av[k as int] == (anchors@[k as int].0, anchors@[k as int].1 as int, anchors@[k as int].2 as int));
        if k + 1 < n {
            assert(av[k + 1] == (anchors@[k + 1].0, anchors@[k + 1].1 as int, anchors@[k + 1].2 as int));
        }
        let body = crate::scan::copy_range(t, start, end);
        assert(body@ == anchor_body(t@, av, k as int));
        match row_exec(&body, anchors[k].0, &pats) {
            Some(c) => {
                out.push(c);
                assert(crate::model::comments_view(out@) =~= o0 + seq![c@]);
            },
            None => {},
        }
        assert(crate::model::comments_view(out@) + rows_from(t@, av, k + 1) =~= o0 + rows_from(t@, av, k as int));
        k += 1;
    }
    assert(crate::model::comments_view(out@) + rows_from(t@, av, k as int) =~= crate::model::comments_view(out@));
    out
}

fn count_descendants(rows: &mut Vec<crate::model::Comment>)
    ensures
        crate::model::comments_view(final(rows)@) == with_descendants(crate::model::comments_view(old(rows)@)),
{
    let ghost orig = crate::model::comments_view(rows@);
    let n = rows.len();
    let mut i: usize = 0;
    while i < n
        invariant
            n == rows@.len(),
            orig.len() == n,
            i <= n,
            forall|k: int| 0 <= k < i ==> #[trigger] rows@[k]@ == with_descendants(orig)[k],
            forall|k: int| i <= k < n ==> #[trigger] rows@[k]@ == orig[k],
        decreases n - i,
    {
        assert(rows@[i as int]@ == orig[i as int]);
        let lv = rows[i].level;
        let mut cnt: usize = 0;
        let mut j = i + 1;
        while j < n && rows[j].level > lv
            invariant
                n == rows@.len(),
                orig.len() == n,
                i < n,
                i + 1 <= j <= n,
                cnt == j - i - 1,
                lv as nat == orig[i as int].level,
                forall|k: int| i <= k < n ==> #[trigger] rows@[k]@ == orig[k],
                cnt + deeper_run(orig, j as int, lv as nat) == deeper_run(orig, i + 1, lv as nat),
            decreases n - j,
        {
            assert(rows@[j as int]@ == orig[j as int]);
            cnt += 1;
            j += 1;
        }
        if j < n {
            assert(rows@[j as int]@ == orig[j as int]);
        }
        assert(deeper_run(orig, j as int, lv as nat) == 0);
        assert(cnt == deeper_run(orig, i + 1, lv as nat));
        let ghost before = rows@;
        rows[i].n_children = cnt;
        assert(rows@[i as int]@ == with_descendants(orig)[i as int]);
        assert(forall|k: int| 0 <= k < n && k != i ==> rows@[k] == before[k]);
        i += 1;
    }
    assert(crate::model::comments_view(rows@) =~= with_descendants(orig));
}

/// Extracts every comment of a rendered Hacker News item page, in page
/// order, with its depth and the number of its descendants (the run of
/// following rows that are deeper). Rows without a depth, an author or a
/// text are left out.
pub fn parse_comments_from_content(page_content: &str) -> (res: Vec<crate::model::Comment>)
    ensures
        crate::model::comments_view(res@) == page_comments(page_content@),
{
    let t = crate::text::chars_of(page_content);
    let anchors = anchors_exec(&t);
    proof {
        lemma_anchors_ordered(t@, 0);
    }
    let mut rows = rows_exec(&t, &anchors);
    count_descendants(&mut rows);
    rows
}

/// The end of a score span whose points end at `d2`.
pub open spec fn score_end(t: Seq<char>, d2: int) -> int {
    if 0 <= d2 + 6 < t.len() && t[d2 + 6] == 's' && occurs_at(t, span_close(), d2 + 7) {
        d2 + 14
    } else {
        d2 + 13
    }
}

/// The (item id, points) pairs of the score spans from `from` on, from left
/// to right; spans whose numbers exceed `u32` are passed over.
pub open spec fn score_pairs_from(t: Seq<char>, from: int) -> Seq<(u32, u32)>
    decreases t.len() - from,
{
    if from < 0 || from >= t.len() {
        Seq::empty()
    } else {
        match score_at(t, from) {
            Some((p, d1, p2, d2)) => {
                let e = score_end(t, d2);
                if from < e && e <= t.len() {
                    let id = digits_value(t.subrange(p, d1));
                    let pts = digits_value(t.subrange(p2, d2));
                    (if ascii_digits(t.subrange(p, d1)) && ascii_digits(t.subrange(p2, d2)) && id <= u32::MAX
                        && pts <= u32::MAX {
                        seq![(id as u32, pts as u32)]
                    } else {
                        Seq::empty()
                    }) + score_pairs_from(t, e)
                } else {
                    Seq::empty()
                }
            },
            None => score_pairs_from(t, from + 1),
        }
    }
}

/// `m` with the pairs inserted in order, later pairs winning.
pub open spec fn insert_all(m: Map<u32, u32>, s: Seq<(u32, u32)>) -> Map<u32, u32>
    decreases s.len(),
{
    if s.len() == 0 {
        m
    } else {
        insert_all(m, s.drop_last()).insert(s.last().0, s.last().1)
    }
}

proof fn lemma_score_bounds(t: Seq<char>, j: int)
    ensures
        score_at(t, j) matches Some((p, d1, p2, d2)) ==> (
            0 <= j < p < d1 < p2 < d2 && d2 + 13 <= score_end(t, d2) <= t.len()
            && (forall|k: int| p <= k < d1 ==> is_decimal_digit(#[trigger] t[k]))
            && (forall|k: int| p2 <= k < d2 ==> is_decimal_digit(#[trigger] t[k]))
        ),
{
    reveal_strlit("<span class=\"score\" id=\"score_");
    reveal_strlit("\">");
    reveal_strlit(" point");
    reveal_strlit("</span>");
    let p = j + score_open().len();
    lemma_runs(t, '"', p);
    if let Some((_, d1)) = digits_then_tag_end(t, p) {
        lemma_runs(t, '"', d1 + 2);
    }
}

proof fn lemma_insert_all_push(m: Map<u32, u32>, s: Seq<(u32, u32)>, x: (u32, u32))
    ensures
        insert_all(m, s.push(x)) == insert_all(m, s).insert(x.0, x.1),
{
    assert(s.push(x).drop_last() =~= s);
}

/// Merges the `(id, points)` of every score span of a rendered Hacker News
/// page into `map`, later spans winning.
pub fn parse_threads_score_map_into(content: &str, map: &mut std::collections::HashMap<u32, u32>)
    ensures
        final(map)@ == insert_all(old(map)@, score_pairs_from(content@, 0)),
{
    broadcast use vstd::std_specs::hash::group_hash_axioms;
    let t = crate::text::chars_of(content);
    let open = crate::text::chars_of("<span class=\"score\" id=\"score_");
    let mut i: usize = 0;
    let len = t.len();
    let ghost m0 = map@;
    let ghost all = score_pairs_from(t@, 0);
    let ghost mut done: Seq<(u32, u32)> = Seq::empty();
    assert(done + score_pairs_from(t@, 0) =~= all);
    while i < len
        invariant
            len == t@.len(),
            i <= len,
            open@ == score_open(),
            all == score_pairs_from(t@, 0),
            done + score_pairs_from(t@, i as int) == all,
            map@ == insert_all(m0, done),
        decreases len - i,
    {
        proof {
            lemma_score_bounds(t@, i as int);
        }
        match score_at_exec(&t, &open, i) {
            Some((p, d1, p2, d2)) => {
                let sc = crate::text::chars_of("</span>");
                let e = if d2 + 6 < len && t[d2 + 6] == 's' && occurs_at_exec(&t, &sc, d2 + 7) {
                    d2 + 14
                } else {
                    d2 + 13
                };
                assert(e as int == score_end(t@, d2 as int));
                let id = ascii_number_upto(&t, p, d1, u32::MAX as u64);
                let pts = ascii_number_upto(&t, p2, d2, u32::MAX as u64);
                let ghost d0 = done;
                match (id, pts) {
                    (Some(id), Some(pts)) => {
                        map.insert(id as u32, pts as u32);
                        proof {
                            lemma_insert_all_push(m0, d0, (id as u32, pts as u32));
                            done = d0.push((id as u32, pts as u32));
                        }
                    },
                    _ => {},
                }
                assert(done + score_pairs_from(t@, e as int) =~= all);
                i = e;
            },
            None => {
                i += 1;
            },
        }
    }
    assert(done =~= all);
}

} // verus!
