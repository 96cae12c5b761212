//! The markup of Hacker News item texts: paragraphs, quoted paragraphs,
//! italics, code blocks, inline code and links, and a scanner that finds
//! them from left to right.
//!
//! At each position the constructs are tried in this order, and the first
//! that fits wins; the scanner reports the leftmost position where one fits.
//! - paragraph: `<p>`, then either nothing or a character other than `>`
//!   and anything up to the first following `</p>`;
//! - quote: `<p>`, a run of `>` and spaces starting with `>`, the text up to
//!   the first following `</p>`;
//! - italic: `<i>` ... first following `</i>`;
//! - code block: `<pre><code>` ... first following `</code></pre>`, the
//!   line feeds just before the closing tags left out;
//! - inline code: a backtick, one or more other characters, a backtick;
//! - link: `<a`, white space, `href="`, the address up to the next `"`
//!   (on one line), then at least one character and the first following
//!   `</a>`.

use vstd::prelude::*;
use crate::theme::is_white_space;

verus! {

/// The kind of a markup construct.
#[derive(Debug, Clone, Copy, PartialEq, Eq, Structural)]
pub enum MarkKind {
    Paragraph,
    Quote,
    Italic,
    CodeBlock,
    Code,
    Link,
}

pub open spec fn p_open() -> Seq<char> {
    seq!['<', 'p', '>']
}

pub open spec fn p_close() -> Seq<char> {
    seq!['<', '/', 'p', '>']
}

pub open spec fn i_open() -> Seq<char> {
    seq!['<', 'i', '>']
}

pub open spec fn i_close() -> Seq<char> {
    seq!['<', '/', 'i', '>']
}

pub open spec fn pre_open() -> Seq<char> {
    seq!['<', 'p', 'r', 'e', '>', '<', 'c', 'o', 'd', 'e', '>']
}

pub open spec fn pre_close() -> Seq<char> {
    seq!['<', '/', 'c', 'o', 'd', 'e', '>', '<', '/', 'p', 'r', 'e', '>']
}

pub open spec fn a_open() -> Seq<char> {
    seq!['<', 'a']
}

pub open spec fn href_attr() -> Seq<char> {
    seq!['h', 'r', 'e', 'f', '=', '"']
}

pub open spec fn a_close() -> Seq<char> {
    seq!['<', '/', 'a', '>']
}

/// Whether `p` occurs in `t` at index `i`.
pub open spec fn occurs_at(t: Seq<char>, p: Seq<char>, i: int) -> bool {
    0 <= i && i + p.len() <= t.len() && t.subrange(i, i + p.len()) == p
}

/// The first index at or after `from` where `p` occurs in `t`, or -1.
pub open spec fn find_from(t: Seq<char>, p: Seq<char>, from: int) -> int
    decreases t.len() - from,
{
    if from + p.len() > t.len() || from >= t.len() {
        -1
    } else if occurs_at(t, p, from) {
        from
    } else {
        find_from(t, p, from + 1)
    }
}

/// The first index at or after `from` holding `c`, or -1.
pub open spec fn find_char(t: Seq<char>, c: char, from: int) -> int
    decreases t.len() - from,
{
    if from >= t.len() {
        -1
    } else if 0 <= from && t[from] == c {
        from
    } else {
        find_char(t, c, from + 1)
    }
}

/// The end of the run of `>` and spaces that starts at `j`.
pub open spec fn quote_run_end(t: Seq<char>, j: int) -> int
    decreases t.len() - j,
{
    if 0 <= j < t.len() && (t[j] == '>' || t[j] == ' ') {
        quote_run_end(t, j + 1)
    } else {
        j
    }
}

/// The end of the run of white space that starts at `j`.
pub open spec fn space_run_end(t: Seq<char>, j: int) -> int
    decreases t.len() - j,
{
    if 0 <= j < t.len() && is_white_space(t[j]) {
        space_run_end(t, j + 1)
    } else {
        j
    }
}

/// The start of the run of line feeds that ends at `k`, not going below `lo`.
pub open spec fn line_feeds_start(t: Seq<char>, lo: int, k: int) -> int
    decreases k - lo,
{
    if lo < k && 0 < k <= t.len() && t[k - 1] == '\n' {
        line_feeds_start(t, lo, k - 1)
    } else {
        k
    }
}

/// A paragraph at `i`: the inner text `a..b` and the end of the match.
pub open spec fn match_paragraph(t: Seq<char>, i: int) -> Option<(int, int, int)> {
    if !occurs_at(t, p_open(), i) {
        None
    } else if occurs_at(t, p_close(), i + 3) {
        Some((i + 3, i + 3, i + 7))
    } else if i + 3 < t.len() && t[i + 3] != '>' {
        let k = find_from(t, p_close(), i + 4);
        if k >= 0 {
            Some((i + 3, k, k + 4))
        } else {
            None
        }
    } else {
        None
    }
}

/// A quoted paragraph at `i`: the text after the quote marks and the end.
pub open spec fn match_quote(t: Seq<char>, i: int) -> Option<(int, int, int)> {
    if occurs_at(t, p_open(), i) && i + 3 < t.len() && t[i + 3] == '>' {
        let q = quote_run_end(t, i + 3);
        let k = find_from(t, p_close(), q);
        if k >= 0 {
            Some((q, k, k + 4))
        } else {
            None
        }
    } else {
        None
    }
}

/// An italic text at `i`.
pub open spec fn match_italic(t: Seq<char>, i: int) -> Option<(int, int, int)> {
    if occurs_at(t, i_open(), i) {
        let k = find_from(t, i_close(), i + 3);
        if k >= 0 {
            Some((i + 3, k, k + 4))
        } else {
            None
        }
    } else {
        None
    }
}

/// A code block at `i`; its text leaves out the line feeds before the end.
pub open spec fn match_code_block(t: Seq<char>, i: int) -> Option<(int, int, int)> {
    if occurs_at(t, pre_open(), i) {
        let k = find_from(t, pre_close(), i + 11);
        if k >= 0 {
            Some((i + 11, line_feeds_start(t, i + 11, k), k + 13))
        } else {
            None
        }
    } else {
        None
    }
}

/// Inline code at `i`.
pub open spec fn match_code(t: Seq<char>, i: int) -> Option<(int, int, int)> {
    if 0 <= i && i + 1 < t.len() && t[i] == '`' && t[i + 1] != '`' {
        let k = find_char(t, '`', i + 2);
        if k >= 0 {
            Some((i + 1, k, k + 1))
        } else {
            None
        }
    } else {
        None
    }
}

/// A link at `i`: the address and the end of the match.
pub open spec fn match_link(t: Seq<char>, i: int) -> Option<(int, int, int)> {
    if occurs_at(t, a_open(), i) && i + 2 < t.len() && is_white_space(t[i + 2]) {
        let w = space_run_end(t, i + 2);
        if occurs_at(t, href_attr(), w) {
            let p = w + 6;
            let e = find_char(t, '"', p);
            let nl = find_char(t, '\n', p);
            if e >= 0 && (nl < 0 || e < nl) {
                let k = find_from(t, a_close(), e + 2);
                if k >= 0 {
                    Some((p, e, k + 4))
                } else {
                    None
                }
            } else {
                None
            }
        } else {
            None
        }
    } else {
        None
    }
}

/// The construct that fits at `i`, the first in the order of the list.
pub open spec fn match_at(t: Seq<char>, i: int) -> Option<(MarkKind, int, int, int)> {
    if let Some((a, b, e)) = match_paragraph(t, i) {
        Some((MarkKind::Paragraph, a, b, e))
    } else if let Some((a, b, e)) = match_quote(t, i) {
        Some((MarkKind::Quote, a, b, e))
    } else if let Some((a, b, e)) = match_italic(t, i) {
        Some((MarkKind::Italic, a, b, e))
    } else if let Some((a, b, e)) = match_code_block(t, i) {
        Some((MarkKind::CodeBlock, a, b, e))
    } else if let Some((a, b, e)) = match_code(t, i) {
        Some((MarkKind::Code, a, b, e))
    } else if let Some((a, b, e)) = match_link(t, i) {
        Some((MarkKind::Link, a, b, e))
    } else {
        None
    }
}

/// The leftmost construct at or after `from`: its start, kind, inner text
/// `a..b` and end.
pub open spec fn leftmost(t: Seq<char>, from: int) -> Option<(int, MarkKind, int, int, int)>
    decreases t.len() - from,
{
    if from >= t.len() {
        None
    } else if let Some((k, a, b, e)) = match_at(t, from) {
        Some((from, k, a, b, e))
    } else {
        leftmost(t, from + 1)
    }
}

/// A construct found by the scanner.
#[derive(Debug, Clone, Copy)]
pub struct Found {
    pub kind: MarkKind,
    pub start: usize,
    pub a: usize,
    pub b: usize,
    pub end: usize,
}

/// The bounds that every found construct keeps: it starts at or after
/// `from`, its inner text lies strictly inside it, and it ends in `t`.
pub open spec fn well_placed(t: Seq<char>, from: int, m: (int, MarkKind, int, int, int)) -> bool {
    from <= m.0 && m.0 < m.2 && m.2 <= m.3 && m.3 < m.4 && m.4 <= t.len()
}

pub proof fn lemma_find_from_bounds(t: Seq<char>, p: Seq<char>, from: int)
    ensures
        find_from(t, p, from) >= 0 ==> from <= find_from(t, p, from) && occurs_at(t, p, find_from(t, p, from)),
    decreases t.len() - from,
{
    if from + p.len() > t.len() || from >= t.len() {
    } else if occurs_at(t, p, from) {
    } else {
        lemma_find_from_bounds(t, p, from + 1);
    }
}

pub proof fn lemma_find_char_bounds(t: Seq<char>, c: char, from: int)
    ensures
        find_char(t, c, from) >= 0 ==> from <= find_char(t, c, from) < t.len() && t[find_char(t, c, from)] == c,
    decreases t.len() - from,
{
    if from >= t.len() {
    } else if 0 <= from && t[from] == c {
    } else {
        lemma_find_char_bounds(t, c, from + 1);
    }
}

proof fn lemma_run_bounds(t: Seq<char>, j: int, lo: int, k: int)
    ensures
        quote_run_end(t, j) >= j,
        space_run_end(t, j) >= j,
        lo <= k ==> lo <= line_feeds_start(t, lo, k) <= k,
    decreases t.len() - j,
{
    if 0 <= j < t.len() {
        lemma_run_bounds(t, j + 1, lo, k);
    }
    lemma_line_feeds_bounds(t, lo, k);
}

proof fn lemma_line_feeds_bounds(t: Seq<char>, lo: int, k: int)
    ensures
        lo <= k ==> lo <= line_feeds_start(t, lo, k) <= k,
    decreases k - lo,
{
    if lo < k && 0 < k <= t.len() && t[k - 1] == '\n' {
        lemma_line_feeds_bounds(t, lo, k - 1);
    }
}

/// A construct that fits at `i` lies inside `t`, after `i`.
pub proof fn lemma_match_at_bounds(t: Seq<char>, i: int)
    ensures
        match_at(t, i) matches Some(m) ==> (0 <= i && well_placed(t, i, (i, m.0, m.1, m.2, m.3))),
        match_at(t, i) matches Some(m) ==> (m.0 == MarkKind::Quote ==> i + 3 <= m.1),
{
    lemma_find_from_bounds(t, p_close(), i + 4);
    lemma_find_from_bounds(t, i_close(), i + 3);
    lemma_find_from_bounds(t, pre_close(), i + 11);
    lemma_find_char_bounds(t, '`', i + 2);
    lemma_run_bounds(t, i + 3, i + 11, find_from(t, pre_close(), i + 11));
    lemma_find_from_bounds(t, p_close(), quote_run_end(t, i + 3));
    lemma_run_bounds(t, i + 2, 0, 0);
    let w = space_run_end(t, i + 2);
    lemma_find_char_bounds(t, '"', w + 6);
    lemma_find_from_bounds(t, a_close(), find_char(t, '"', w + 6) + 2);
}

/// The leftmost construct lies inside `t`, at or after `from`.
pub proof fn lemma_leftmost_bounds(t: Seq<char>, from: int)
    requires
        0 <= from,
    ensures
        leftmost(t, from) matches Some(m) ==> well_placed(t, from, m),
        leftmost(t, from) matches Some(m) ==> (m.1 == MarkKind::Quote ==> m.0 + 3 <= m.2),
    decreases t.len() - from,
{
    if from >= t.len() {
    } else {
        lemma_match_at_bounds(t, from);
        if match_at(t, from) is None {
            lemma_leftmost_bounds(t, from + 1);
        }
    }
}

/// An optional inner range and end, as integers.
pub open spec fn range_view(o: Option<(usize, usize, usize)>) -> Option<(int, int, int)> {
    match o {
        Some((a, b, e)) => Some((a as int, b as int, e as int)),
        None => None,
    }
}

/// A found construct as integers.
pub open spec fn found_view(f: Found) -> (int, MarkKind, int, int, int) {
    (f.start as int, f.kind, f.a as int, f.b as int, f.end as int)
}

/// Whether `p` occurs in `t` at `i`.
pub(crate) fn occurs_at_exec(t: &Vec<char>, p: &Vec<char>, i: usize) -> (res: bool)
    ensures
        res == occurs_at(t@, p@, i as int),
        t@.len() <= usize::MAX,
{
    if i > t.len() || p.len() > t.len() - i {
        return false;
    }
    let mut j: usize = 0;
    while j < p.len()
        invariant
            j <= p.len(),
            i + p.len() <= t.len(),
            forall|k: int| 0 <= k < j ==> t@[i + k] == p@[k],
        decreases p.len() - j,
    {
        if t[i + j] != p[j] {
            assert(t@.subrange(i as int, i + p.len())[j as int] != p@[j as int]);
            return false;
        }
        j += 1;
    }
    assert(t@.subrange(i as int, i + p.len()) =~= p@);
    true
}

pub(crate) fn find_from_exec(t: &Vec<char>, p: &Vec<char>, from: usize) -> (res: Option<usize>)
    requires
        p@.len() > 0,
    ensures
        match res {
            Some(k) => k as int == find_from(t@, p@, from as int),
            None => find_from(t@, p@, from as int) == -1,
        },
        t@.len() <= usize::MAX,
{
    let mut k = from;
    while k < t.len() && p.len() <= t.len() - k
        invariant
            from <= k,
            p@.len() > 0,
            find_from(t@, p@, from as int) == find_from(t@, p@, k as int),
        decreases t.len() - k,
    {
        if occurs_at_exec(t, p, k) {
            return Some(k);
        }
        k += 1;
    }
    None
}

pub(crate) fn find_char_exec(t: &Vec<char>, c: char, from: usize) -> (res: Option<usize>)
    ensures
        match res {
            Some(k) => k as int == find_char(t@, c, from as int),
            None => find_char(t@, c, from as int) == -1,
        },
        t@.len() <= usize::MAX,
{
    let mut k = from;
    while k < t.len()
        invariant
            from <= k,
            find_char(t@, c, from as int) == find_char(t@, c, k as int),
        decreases t.len() - k,
    {
        if t[k] == c {
            return Some(k);
        }
        k += 1;
    }
    None
}

fn quote_run_end_exec(t: &Vec<char>, j: usize) -> (res: usize)
    ensures
        res as int == quote_run_end(t@, j as int),
{
    let mut k = j;
    while k < t.len() && (t[k] == '>' || t[k] == ' ')
        invariant
            j <= k,
            quote_run_end(t@, j as int) == quote_run_end(t@, k as int),
        decreases t.len() - k,
    {
        k += 1;
    }
    k
}

fn space_run_end_exec(t: &Vec<char>, j: usize) -> (res: usize)
    ensures
        res as int == space_run_end(t@, j as int),
{
    let mut k = j;
    while k < t.len() && crate::theme::char_is_whitespace(t[k])
        invariant
            j <= k,
            space_run_end(t@, j as int) == space_run_end(t@, k as int),
        decreases t.len() - k,
    {
        k += 1;
    }
    k
}

fn line_feeds_start_exec(t: &Vec<char>, lo: usize, k: usize) -> (res: usize)
    requires
        k <= t.len(),
    ensures
        res as int == line_feeds_start(t@, lo as int, k as int),
{
    let mut m = k;
    while lo < m && t[m - 1] == '\n'
        invariant
            m <= k <= t.len(),
            line_feeds_start(t@, lo as int, k as int) == line_feeds_start(t@, lo as int, m as int),
        decreases m,
    {
        m -= 1;
    }
    m
}

fn match_paragraph_exec(t: &Vec<char>, i: usize) -> (res: Option<(usize, usize, usize)>)
    ensures
        range_view(res) == match_paragraph(t@, i as int),
{
    let len = t.len();
    let open = vec!['<', 'p', '>'];
    let close = vec!['<', '/', 'p', '>'];
    assert(open@ =~= p_open());
    assert(close@ =~= p_close());
    if !occurs_at_exec(t, &open, i) {
        return None;
    }
    if occurs_at_exec(t, &close, i + 3) {
        Some((i + 3, i + 3, i + 7))
    } else if i + 3 < len && t[i + 3] != '>' {
        match find_from_exec(t, &close, i + 4) {
            Some(k) => {
                proof { lemma_find_from_bounds(t@, p_close(), i + 4); }
                Some((i + 3, k, k + 4))
            },
            None => None,
        }
    } else {
        None
    }
}

fn match_quote_exec(t: &Vec<char>, i: usize) -> (res: Option<(usize, usize, usize)>)
    ensures
        range_view(res) == match_quote(t@, i as int),
{
    let len = t.len();
    let open = vec!['<', 'p', '>'];
    let close = vec!['<', '/', 'p', '>'];
    assert(open@ =~= p_open());
    assert(close@ =~= p_close());
    if occurs_at_exec(t, &open, i) && i + 3 < len && t[i + 3] == '>' {
        let q = quote_run_end_exec(t, i + 3);
        match find_from_exec(t, &close, q) {
            Some(k) => {
                proof { lemma_find_from_bounds(t@, p_close(), q as int); }
                Some((q, k, k + 4))
            },
            None => None,
        }
    } else {
        None
    }
}

fn match_italic_exec(t: &Vec<char>, i: usize) -> (res: Option<(usize, usize, usize)>)
    ensures
        range_view(res) == match_italic(t@, i as int),
{
    let len = t.len();
    let open = vec!['<', 'i', '>'];
    let close = vec!['<', '/', 'i', '>'];
    assert(open@ =~= i_open());
    assert(close@ =~= i_close());
    if occurs_at_exec(t, &open, i) {
        match find_from_exec(t, &close, i + 3) {
            Some(k) => {
                proof { lemma_find_from_bounds(t@, i_close(), i + 3); }
                Some((i + 3, k, k + 4))
            },
            None => None,
        }
    } else {
        None
    }
}

fn match_code_block_exec(t: &Vec<char>, i: usize) -> (res: Option<(usize, usize, usize)>)
    ensures
        range_view(res) == match_code_block(t@, i as int),
{
    let len = t.len();
    let open = vec!['<', 'p', 'r', 'e', '>', '<', 'c', 'o', 'd', 'e', '>'];
    let close = vec!['<', '/', 'c', 'o', 'd', 'e', '>', '<', '/', 'p', 'r', 'e', '>'];
    assert(open@ =~= pre_open());
    assert(close@ =~= pre_close());
    if occurs_at_exec(t, &open, i) {
        match find_from_exec(t, &close, i + 11) {
            Some(k) => {
                proof { lemma_find_from_bounds(t@, pre_close(), i + 11); }
                let b = line_feeds_start_exec(t, i + 11, k);
                Some((i + 11, b, k + 13))
            },
            None => None,
        }
    } else {
        None
    }
}

fn match_code_exec(t: &Vec<char>, i: usize) -> (res: Option<(usize, usize, usize)>)
    ensures
        range_view(res) == match_code(t@, i as int),
{
    if i < t.len() && t.len() - i > 1 && t[i] == '`' && t[i + 1] != '`' {
        match find_char_exec(t, '`', i + 2) {
            Some(k) => {
                proof { lemma_find_char_bounds(t@, '`', i + 2); }
                Some((i + 1, k, k + 1))
            },
            None => None,
        }
    } else {
        None
    }
}

fn match_link_exec(t: &Vec<char>, i: usize) -> (res: Option<(usize, usize, usize)>)
    ensures
        range_view(res) == match_link(t@, i as int),
{
    let len = t.len();
    let open = vec!['<', 'a'];
    let href = vec!['h', 'r', 'e', 'f', '=', '"'];
    let close = vec!['<', '/', 'a', '>'];
    assert(open@ =~= a_open());
    assert(href@ =~= href_attr());
    assert(close@ =~= a_close());
    if occurs_at_exec(t, &open, i) && i + 2 < len && crate::theme::char_is_whitespace(t[i + 2]) {
        let w = space_run_end_exec(t, i + 2);
        if occurs_at_exec(t, &href, w) {
            let p = w + 6;
            let e = find_char_exec(t, '"', p);
            let nl = find_char_exec(t, '\n', p);
            proof {
                lemma_find_char_bounds(t@, '"', p as int);
                lemma_find_char_bounds(t@, '\n', p as int);
            }
            match e {
                Some(e) => {
                    let before_line_end = match nl {
                        Some(nl) => e < nl,
                        None => true,
                    };
                    if before_line_end {
                        if t.len() - e < 2 {
                            assert(find_from(t@, a_close(), e + 2) == -1);
                            None
                        } else {
                            match find_from_exec(t, &close, e + 2) {
                                Some(k) => {
                                    proof { lemma_find_from_bounds(t@, a_close(), e + 2); }
                                    Some((p, e, k + 4))
                                },
                                None => None,
                            }
                        }
                    } else {
                        None
                    }
                },
                None => None,
            }
        } else {
            None
        }
    } else {
        None
    }
}

fn match_at_exec(t: &Vec<char>, i: usize) -> (res: Option<(MarkKind, usize, usize, usize)>)
    ensures
        match res {
            Some((k, a, b, e)) => match_at(t@, i as int) == Some((k, a as int, b as int, e as int)),
            None => match_at(t@, i as int) is None,
        },
{
    if let Some((a, b, e)) = match_paragraph_exec(t, i) {
        return Some((MarkKind::Paragraph, a, b, e));
    }
    if let Some((a, b, e)) = match_quote_exec(t, i) {
        return Some((MarkKind::Quote, a, b, e));
    }
    if let Some((a, b, e)) = match_italic_exec(t, i) {
        return Some((MarkKind::Italic, a, b, e));
    }
    if let Some((a, b, e)) = match_code_block_exec(t, i) {
        return Some((MarkKind::CodeBlock, a, b, e));
    }
    if let Some((a, b, e)) = match_code_exec(t, i) {
        return Some((MarkKind::Code, a, b, e));
    }
    if let Some((a, b, e)) = match_link_exec(t, i) {
        return Some((MarkKind::Link, a, b, e));
    }
    None
}

/// The leftmost markup construct at or after `from`.
pub fn next_markup(t: &Vec<char>, from: usize) -> (res: Option<Found>)
    ensures
        match res {
            Some(f) => leftmost(t@, from as int) == Some(found_view(f)),
            None => leftmost(t@, from as int) is None,
        },
{
    let mut i = from;
    while i < t.len()
        invariant
            from <= i,
            leftmost(t@, from as int) == leftmost(t@, i as int),
        decreases t.len() - i,
    {
        if let Some((kind, a, b, e)) = match_at_exec(t, i) {
            return Some(Found { kind, start: i, a, b, end: e });
        }
        i += 1;
    }
    None
}

/// `t` from `pos` on with each occurrence of `pat` replaced by `rep`,
/// scanning from left to right.
pub open spec fn replace_from(t: Seq<char>, pat: Seq<char>, rep: Seq<char>, pos: int) -> Seq<char>
    decreases t.len() - pos,
{
    if pos < 0 || pos >= t.len() || pat.len() == 0 {
        if 0 <= pos < t.len() {
            t.subrange(pos, t.len() as int)
        } else {
            Seq::empty()
        }
    } else if occurs_at(t, pat, pos) {
        rep + replace_from(t, pat, rep, pos + pat.len())
    } else {
        seq![t[pos]] + replace_from(t, pat, rep, pos + 1)
    }
}

/// `t` with each occurrence of `pat` replaced by `rep`, from left to right.
pub fn replace_chars(t: &Vec<char>, pat: &Vec<char>, rep: &Vec<char>) -> (res: Vec<char>)
    requires
        pat@.len() > 0,
    ensures
        res@ == replace_from(t@, pat@, rep@, 0),
{
    let mut out: Vec<char> = Vec::new();
    let mut k: usize = 0;
    let len = t.len();
    assert(out@ + replace_from(t@, pat@, rep@, 0) =~= replace_from(t@, pat@, rep@, 0));
    while k < len
        invariant
            len == t@.len(),
            k <= len,
            pat@.len() > 0,
            out@ + replace_from(t@, pat@, rep@, k as int) == replace_from(t@, pat@, rep@, 0),
        decreases len - k,
    {
        let ghost o0 = out@;
        if occurs_at_exec(t, pat, k) {
            let mut j: usize = 0;
            while j < rep.len()
                invariant
                    j <= rep@.len(),
                    out@ == o0 + rep@.take(j as int),
                decreases rep.len() - j,
            {
                out.push(rep[j]);
                j += 1;
                assert(out@ =~= o0 + rep@.take(j as int));
            }
            assert(rep@.take(rep@.len() as int) =~= rep@);
            assert(o0 + (rep@ + replace_from(t@, pat@, rep@, k + pat@.len())) =~= out@ + replace_from(t@, pat@, rep@, k + pat@.len()));
            k += pat.len();
        } else {
            out.push(t[k]);
            assert(o0 + (seq![t@[k as int]] + replace_from(t@, pat@, rep@, k + 1)) =~= out@ + replace_from(t@, pat@, rep@, k + 1));
            k += 1;
        }
    }
    assert(out@ + replace_from(t@, pat@, rep@, k as int) =~= out@);
    out
}

} // verus!
