//! How stories and comments are shown: decorated titles, bylines and the
//! texts of the items of a comment list.

use vstd::prelude::*;
use crate::markup::{
    find_char, find_char_exec, find_from, find_from_exec, lemma_find_char_bounds, lemma_find_from_bounds, occurs_at,
    occurs_at_exec, replace_chars, replace_from,
};
use crate::model::{Comment, DisplayState, HnItem, Story};
use crate::styled::{source_of, source_of_concat, StyledText};
use crate::theme::{ComponentStyle, Style};

verus! {

/// `<em>`, which opens a search match in a title.
pub open spec fn em_open() -> Seq<char> {
    seq!['<', 'e', 'm', '>']
}

/// `</em>`, which closes a search match in a title.
pub open spec fn em_close() -> Seq<char> {
    seq!['<', '/', 'e', 'm', '>']
}

/// The title categories that get their own style, in the order they are
/// stripped from the front of a title.
pub open spec fn category_names() -> Seq<Seq<char>> {
    seq!["Ask HN"@, "Tell HN"@, "Show HN"@, "Launch HN"@]
}

/// The styles of the title categories.
pub open spec fn category_styles(cs: ComponentStyle) -> Seq<Style> {
    seq![cs.ask_hn, cs.tell_hn, cs.show_hn, cs.launch_hn]
}

/// The category spans stripped from the front of `title`, trying the
/// categories from the `k`-th on, each once and in order, and the rest of
/// the title.
pub open spec fn strip_categories(title: Seq<char>, k: nat, cs: ComponentStyle) -> (Seq<(Seq<char>, Style)>, Seq<char>)
    decreases 4 - k,
{
    if k >= 4 {
        (Seq::empty(), title)
    } else {
        let c = category_names()[k as int];
        if c.is_prefix_of(title) {
            let r = strip_categories(title.skip(c.len() as int), k + 1, cs);
            (seq![(c, category_styles(cs)[k as int])] + r.0, r.1)
        } else {
            strip_categories(title, k + 1, cs)
        }
    }
}

/// A search match at `i`: `<em>`, text on one line, and the first `</em>`
/// after it. Gives the inner text `a..b` and the end.
pub open spec fn match_em(t: Seq<char>, i: int) -> Option<(int, int, int)> {
    if occurs_at(t, em_open(), i) {
        let k = find_from(t, em_close(), i + 4);
        let nl = find_char(t, '\n', i + 4);
        if k >= 0 && (nl < 0 || nl > k) {
            Some((i + 4, k, k + 5))
        } else {
            None
        }
    } else {
        None
    }
}

/// The leftmost search match at or after `from`: start, inner text, end.
pub open spec fn leftmost_em(t: Seq<char>, from: int) -> Option<(int, int, int, int)>
    decreases t.len() - from,
{
    if from >= t.len() {
        None
    } else if let Some((a, b, e)) = match_em(t, from) {
        Some((from, a, b, e))
    } else {
        leftmost_em(t, from + 1)
    }
}

/// A title from `pos` on: search matches in the highlight style, the text
/// between them unstyled.
pub open spec fn em_spans(t: Seq<char>, pos: int, cs: ComponentStyle) -> Seq<(Seq<char>, Style)>
    decreases t.len() - pos,
{
    if pos < 0 || pos > t.len() {
        Seq::empty()
    } else {
        match leftmost_em(t, pos) {
            None => if pos < t.len() {
                seq![(t.subrange(pos, t.len() as int), Style::plain_spec())]
            } else {
                Seq::empty()
            },
            Some((i, a, b, e)) => if pos <= i && i < a && a <= b && b < e && e <= t.len() {
                (if pos < i {
                    seq![(t.subrange(pos, i), Style::plain_spec())]
                } else {
                    Seq::empty()
                }) + seq![(t.subrange(a, b), cs.matched_highlight)] + em_spans(t, e, cs)
            } else {
                Seq::empty()
            },
        }
    }
}

/// A decorated title: its category prefixes in their styles, then the
/// rest with its search matches highlighted.
pub open spec fn decorated_title(title: Seq<char>, cs: ComponentStyle) -> Seq<(Seq<char>, Style)> {
    let s = strip_categories(title, 0, cs);
    s.0 + em_spans(s.1, 0, cs)
}

/// The URL of a story's discussion page.
pub open spec fn story_page_url(id: u32) -> Seq<char> {
    "https://news.ycombinator.com"@ + "/item?id="@ + crate::text::decimal(id as nat)
}

/// A title without its `<em>` and `</em>` tags.
pub open spec fn title_without_em(title: Seq<char>) -> Seq<char> {
    replace_from(replace_from(title, em_open(), Seq::empty(), 0), em_close(), Seq::empty(), 0)
}

proof fn lemma_leftmost_em_bounds(t: Seq<char>, from: int)
    requires
        0 <= from,
    ensures
        leftmost_em(t, from) matches Some(m) ==> (from <= m.0 && m.0 < m.1 && m.1 <= m.2 && m.2 < m.3 && m.3 <= t.len()),
    decreases t.len() - from,
{
    if from < t.len() {
        lemma_find_from_bounds(t, em_close(), from + 4);
        if match_em(t, from) is None {
            lemma_leftmost_em_bounds(t, from + 1);
        }
    }
}

/// `s` holds no `<`.
pub open spec fn no_lt(s: Seq<char>) -> bool {
    forall|j: int| 0 <= j < s.len() ==> s[j] != '<'
}

/// `s` holds neither `<em>` nor `</em>`.
pub open spec fn tag_free(s: Seq<char>) -> bool {
    forall|j: int| !occurs_at(s, em_open(), j) && !occurs_at(s, em_close(), j)
}

/// `t` from `pos` on holds no `<em>` or `</em>` besides the tags of its
/// search matches: neither the text after the last match, nor the text
/// before a match joined with the text inside it, holds either tag.
pub open spec fn em_tags_matched(t: Seq<char>, pos: int) -> bool
    decreases t.len() - pos,
{
    if pos < 0 || pos > t.len() {
        false
    } else {
        match leftmost_em(t, pos) {
            None => tag_free(t.subrange(pos, t.len() as int)),
            Some((i, a, b, e)) => {
                &&& pos <= i && a <= b && b <= t.len()
                &&& tag_free(t.subrange(pos, i) + t.subrange(a, b))
                &&& pos < e <= t.len()
                &&& em_tags_matched(t, e)
            },
        }
    }
}

proof fn lemma_leftmost_em_match(t: Seq<char>, from: int)
    requires
        0 <= from,
    ensures
        leftmost_em(t, from) matches Some(m) ==> match_em(t, m.0) == Some((m.1, m.2, m.3)),
    decreases t.len() - from,
{
    if from < t.len() && match_em(t, from) is None {
        lemma_leftmost_em_match(t, from + 1);
    }
}

proof fn lemma_replace_shift(u: Seq<char>, v: Seq<char>, p: Seq<char>, r: Seq<char>, k: int)
    requires
        p.len() > 0,
        0 <= k,
    ensures
        replace_from(u + v, p, r, u.len() + k) == replace_from(v, p, r, k),
    decreases v.len() - k,
{
    let w = u + v;
    let n = u.len() as int;
    if k < v.len() {
        if k + p.len() <= v.len() {
            assert(w.subrange(n + k, n + k + p.len()) =~= v.subrange(k, k + p.len()));
        }
        assert(occurs_at(w, p, n + k) == occurs_at(v, p, k));
        if occurs_at(v, p, k) {
            lemma_replace_shift(u, v, p, r, k + p.len());
        } else {
            lemma_replace_shift(u, v, p, r, k + 1);
            assert(w[n + k] == v[k]);
        }
    }
}

proof fn lemma_replace_prefix(x: Seq<char>, y: Seq<char>, p: Seq<char>, r: Seq<char>, i: int)
    requires
        p.len() > 0,
        0 <= i <= x.len(),
        forall|j: int| i <= j < x.len() ==> !occurs_at(x + y, p, j),
    ensures
        replace_from(x + y, p, r, i) == x.subrange(i, x.len() as int) + replace_from(x + y, p, r, x.len() as int),
    decreases x.len() - i,
{
    let w = x + y;
    if i == x.len() {
        assert(x.subrange(i, x.len() as int) + replace_from(w, p, r, i) =~= replace_from(w, p, r, i));
    } else {
        lemma_replace_prefix(x, y, p, r, i + 1);
        assert(w[i] == x[i]);
        assert(seq![x[i]] + (x.subrange(i + 1, x.len() as int) + replace_from(w, p, r, x.len() as int))
            =~= x.subrange(i, x.len() as int) + replace_from(w, p, r, x.len() as int));
    }
}

/// Replacing a tag that starts with `<` passes over text without `<`.
proof fn lemma_replace_concat_clean(x: Seq<char>, y: Seq<char>, p: Seq<char>, r: Seq<char>)
    requires
        p.len() > 0,
        p[0] == '<',
        no_lt(x),
    ensures
        replace_from(x + y, p, r, 0) == x + replace_from(y, p, r, 0),
{
    let w = x + y;
    assert forall|j: int| 0 <= j < x.len() implies !occurs_at(w, p, j) by {
        if occurs_at(w, p, j) {
            assert(w.subrange(j, j + p.len())[0] == w[j]);
        }
    }
    lemma_replace_prefix(x, y, p, r, 0);
    lemma_replace_shift(x, y, p, r, 0);
    assert(x.subrange(0, x.len() as int) =~= x);
}

proof fn lemma_plain_concat(x: Seq<char>, y: Seq<char>)
    requires
        no_lt(x),
    ensures
        title_without_em(x + y) == x + title_without_em(y),
{
    lemma_replace_concat_clean(x, y, em_open(), Seq::empty());
    let q = replace_from(y, em_open(), Seq::empty(), 0);
    lemma_replace_concat_clean(x, q, em_close(), Seq::empty());
}

proof fn lemma_occurs_concat(x: Seq<char>, y: Seq<char>, p: Seq<char>, j: int)
    ensures
        occurs_at(x, p, j) ==> occurs_at(x + y, p, j),
        occurs_at(y, p, j) ==> occurs_at(x + y, p, x.len() + j),
{
    if occurs_at(x, p, j) {
        assert((x + y).subrange(j, j + p.len()) =~= x.subrange(j, j + p.len()));
    }
    if occurs_at(y, p, j) {
        assert((x + y).subrange(x.len() + j, x.len() + j + p.len()) =~= y.subrange(j, j + p.len()));
    }
}

/// Replacing a tag that has `<` only at its start passes over text without
/// the tag when a `<` follows that text.
proof fn lemma_replace_concat_tag(x: Seq<char>, y: Seq<char>, p: Seq<char>, r: Seq<char>)
    requires
        p.len() > 0,
        p[0] == '<',
        forall|k: int| 1 <= k < p.len() ==> p[k] != '<',
        forall|j: int| !occurs_at(x, p, j),
        y.len() == 0 || y[0] == '<',
    ensures
        replace_from(x + y, p, r, 0) == x + replace_from(y, p, r, 0),
{
    let w = x + y;
    assert forall|j: int| 0 <= j < x.len() implies !occurs_at(w, p, j) by {
        if occurs_at(w, p, j) {
            if j + p.len() <= x.len() {
                assert(w.subrange(j, j + p.len()) =~= x.subrange(j, j + p.len()));
                assert(occurs_at(x, p, j));
            } else {
                let k = x.len() - j;
                assert(w.subrange(j, j + p.len())[k] == w[x.len() as int]);
                assert(w[x.len() as int] == y[0]);
            }
        }
    }
    lemma_replace_prefix(x, y, p, r, 0);
    lemma_replace_shift(x, y, p, r, 0);
    assert(x.subrange(0, x.len() as int) =~= x);
}

/// Replacing a tag at the start of a text drops it.
proof fn lemma_replace_tag_first(p: Seq<char>, z: Seq<char>)
    requires
        p.len() > 0,
    ensures
        replace_from(p + z, p, Seq::empty(), 0) == replace_from(z, p, Seq::empty(), 0),
{
    let w = p + z;
    assert(w.subrange(0, p.len() as int) =~= p);
    lemma_replace_shift(p, z, p, Seq::empty(), 0);
    assert(Seq::<char>::empty() + replace_from(w, p, Seq::empty(), p.len() as int) =~= replace_from(
        z,
        p,
        Seq::empty(),
        0,
    ));
}

proof fn lemma_em_tags_shape()
    ensures
        em_open().len() == 4,
        em_close().len() == 5,
        em_open()[0] == '<',
        em_close()[0] == '<',
        forall|k: int| 1 <= k < 4 ==> em_open()[k] != '<',
        forall|k: int| 1 <= k < 5 ==> em_close()[k] != '<',
{
}

/// The plain form of a text without tags is the text itself.
proof fn lemma_plain_tag_free(x: Seq<char>)
    requires
        tag_free(x),
    ensures
        title_without_em(x) == x,
{
    lemma_em_tags_shape();
    let e = Seq::<char>::empty();
    assert(x + e =~= x);
    lemma_replace_concat_tag(x, e, em_open(), e);
    lemma_replace_concat_tag(x, e, em_close(), e);
    assert(x + replace_from(e, em_open(), e, 0) =~= x);
    assert(x + replace_from(e, em_close(), e, 0) =~= x);
}

/// The plain form of a search match and the text before it: the text
/// before, the inner text, then the plain form of what follows.
proof fn lemma_plain_match(x: Seq<char>, y: Seq<char>, z: Seq<char>)
    requires
        tag_free(x + y),
    ensures
        title_without_em(x + em_open() + y + em_close() + z) == x + y + title_without_em(z),
{
    lemma_em_tags_shape();
    let o = em_open();
    let c = em_close();
    let e = Seq::<char>::empty();
    assert forall|j: int| !occurs_at(x, o, j) && !occurs_at(y, o, j) by {
        lemma_occurs_concat(x, y, o, j);
    }
    let w = y + c + z;
    assert(x + o + y + c + z =~= x + (o + w));
    lemma_replace_concat_tag(x, o + w, o, e);
    lemma_replace_tag_first(o, w);
    assert(w =~= y + (c + z));
    lemma_replace_concat_tag(y, c + z, o, e);
    let cz = c + z;
    assert forall|j: int| 0 <= j < c.len() implies !occurs_at(cz, o, j) by {
        if occurs_at(cz, o, j) {
            assert(cz.subrange(j, j + 4)[0] == cz[j]);
            assert(cz.subrange(j, j + 4)[1] == cz[j + 1]);
        }
    }
    lemma_replace_prefix(c, z, o, e, 0);
    lemma_replace_shift(c, z, o, e, 0);
    assert(c.subrange(0, c.len() as int) =~= c);
    let q = replace_from(z, o, e, 0);
    assert(x + (y + (c + q)) =~= (x + y) + (c + q));
    lemma_replace_concat_tag(x + y, c + q, c, e);
    lemma_replace_tag_first(c, q);
}

proof fn lemma_source_single(x: Seq<char>, st: Style)
    ensures
        source_of(seq![(x, st)]) == x,
{
    let e = Seq::<(Seq<char>, Style)>::empty();
    assert(source_of(e) == Seq::<char>::empty());
    assert(seq![(x, st)].drop_last() =~= e);
    assert(Seq::<char>::empty() + x =~= x);
}

proof fn lemma_em_spans_source(t: Seq<char>, pos: int, cs: ComponentStyle)
    requires
        0 <= pos <= t.len(),
        em_tags_matched(t, pos),
    ensures
        source_of(em_spans(t, pos, cs)) == title_without_em(t.subrange(pos, t.len() as int)),
    decreases t.len() - pos,
{
    let rest = t.subrange(pos, t.len() as int);
    lemma_leftmost_em_bounds(t, pos);
    lemma_leftmost_em_match(t, pos);
    match leftmost_em(t, pos) {
        None => {
            lemma_plain_tag_free(rest);
            if pos < t.len() {
                lemma_source_single(rest, Style::plain_spec());
            } else {
                assert(rest =~= Seq::<char>::empty());
            }
        },
        Some((i, a, b, e)) => {
            lemma_find_from_bounds(t, em_close(), i + 4);
            let x = t.subrange(pos, i);
            let y = t.subrange(a, b);
            let z = t.subrange(e, t.len() as int);
            assert(t.subrange(i, i + 4) == em_open());
            assert(t.subrange(b, b + 5) == em_close());
            assert(rest =~= x + em_open() + y + em_close() + z);
            lemma_plain_match(x, y, z);
            lemma_em_spans_source(t, e, cs);
            let first: Seq<(Seq<char>, Style)> = if pos < i {
                seq![(x, Style::plain_spec())]
            } else {
                Seq::empty()
            };
            let mid = seq![(y, cs.matched_highlight)];
            let tail = em_spans(t, e, cs);
            assert(em_spans(t, pos, cs) == first + mid + tail);
            source_of_concat(first + mid, tail);
            source_of_concat(first, mid);
            lemma_source_single(y, cs.matched_highlight);
            if pos < i {
                lemma_source_single(x, Style::plain_spec());
            } else {
                assert(x =~= Seq::<char>::empty());
            }
            assert(source_of(first) == x);
        },
    }
}

proof fn lemma_category_names_no_lt()
    ensures
        forall|k: int| 0 <= k < 4 ==> no_lt(#[trigger] category_names()[k]),
{
    reveal_strlit("Ask HN");
    reveal_strlit("Tell HN");
    reveal_strlit("Show HN");
    reveal_strlit("Launch HN");
}

proof fn lemma_strip_categories_source(title: Seq<char>, k: nat, cs: ComponentStyle)
    ensures
        source_of(strip_categories(title, k, cs).0) + strip_categories(title, k, cs).1 == title,
        no_lt(source_of(strip_categories(title, k, cs).0)),
    decreases 4 - k,
{
    if k < 4 {
        let c = category_names()[k as int];
        if c.is_prefix_of(title) {
            let r = strip_categories(title.skip(c.len() as int), k + 1, cs);
            lemma_strip_categories_source(title.skip(c.len() as int), k + 1, cs);
            lemma_category_names_no_lt();
            let head = seq![(c, category_styles(cs)[k as int])];
            source_of_concat(head, r.0);
            lemma_source_single(c, category_styles(cs)[k as int]);
            assert(c + source_of(r.0) + r.1 =~= c + (source_of(r.0) + r.1));
            assert(c + title.skip(c.len() as int) =~= title);
            assert(no_lt(c + source_of(r.0))) by {
                assert forall|j: int| 0 <= j < c.len() + source_of(r.0).len() implies (c + source_of(r.0))[j]
                    != '<' by {
                    if j >= c.len() {
                        assert((c + source_of(r.0))[j] == source_of(r.0)[j - c.len()]);
                    }
                }
            }
        } else {
            lemma_strip_categories_source(title, k + 1, cs);
        }
    } else {
        assert(Seq::<char>::empty() + title =~= title);
    }
}

/// A styled title reads as the plain title: the characters of its spans
/// are the title without its `<em>` and `</em>` tags. This holds of a title
/// whose `<em>` and `</em>` tags, after its category prefixes, all pair up
/// in search matches, and where taking them out makes no new tag.
pub proof fn styled_title_reads_as_plain_title(title: Seq<char>, cs: ComponentStyle)
    requires
        em_tags_matched(strip_categories(title, 0, cs).1, 0),
    ensures
        source_of(decorated_title(title, cs)) == title_without_em(title),
{
    let s = strip_categories(title, 0, cs);
    lemma_strip_categories_source(title, 0, cs);
    source_of_concat(s.0, em_spans(s.1, 0, cs));
    lemma_em_spans_source(s.1, 0, cs);
    assert(s.1.subrange(0, s.1.len() as int) =~= s.1);
    lemma_plain_concat(source_of(s.0), s.1);
}

/// The characters `a..b` of `t` as a string.
fn slice_string(t: &Vec<char>, a: usize, b: usize) -> (res: String)
    requires
        a <= b <= t@.len(),
    ensures
        res@ == t@.subrange(a as int, b as int),
{
    let mut v: Vec<char> = Vec::new();
    let mut k = a;
    while k < b
        invariant
            a <= k <= b <= t@.len(),
            v@ == t@.subrange(a as int, k as int),
        decreases b - k,
    {
        v.push(t[k]);
        k += 1;
        assert(v@ =~= t@.subrange(a as int, k as int));
    }
    crate::text::string_of(v.as_slice())
}

fn match_em_exec(t: &Vec<char>, i: usize) -> (res: Option<(usize, usize, usize)>)
    ensures
        crate::markup::range_view(res) == match_em(t@, i as int),
{
    let len = t.len();
    let open = vec!['<', 'e', 'm', '>'];
    let close = vec!['<', '/', 'e', 'm', '>'];
    assert(open@ =~= em_open());
    assert(close@ =~= em_close());
    if occurs_at_exec(t, &open, i) {
        proof {
            lemma_find_from_bounds(t@, em_close(), i + 4);
            lemma_find_char_bounds(t@, '\n', i + 4);
        }
        let k = find_from_exec(t, &close, i + 4);
        let nl = find_char_exec(t, '\n', i + 4);
        match k {
            Some(k) => {
                let ok = match nl {
                    Some(nl) => nl > k,
                    None => true,
                };
                if ok {
                    Some((i + 4, k, k + 5))
                } else {
                    None
                }
            },
            None => None,
        }
    } else {
        None
    }
}

/// Appends the spans of a title from `pos` on: search matches highlighted.
fn append_em_spans(out: &mut StyledText, t: &Vec<char>, cs: &ComponentStyle)
    ensures
        final(out)@ == old(out)@ + em_spans(t@, 0, *cs),
{
    let len = t.len();
    let mut pos: usize = 0;
    let ghost o0 = out@;
    assert(out@ + em_spans(t@, 0, *cs) =~= o0 + em_spans(t@, 0, *cs));
    while pos < len
        invariant
            len == t@.len(),
            pos <= len,
            out@ + em_spans(t@, pos as int, *cs) == o0 + em_spans(t@, 0, *cs),
        decreases len - pos,
    {
        let ghost out0 = out@;
        let ghost cur = em_spans(t@, pos as int, *cs);
        let mut i = pos;
        let mut found: Option<(usize, usize, usize, usize)> = None;
        while i < len
            invariant_except_break
                pos <= i <= len,
                leftmost_em(t@, pos as int) == leftmost_em(t@, i as int),
                found is None,
            invariant
                len == t@.len(),
            ensures
                found matches Some(m) ==> leftmost_em(t@, pos as int) == Some((m.0 as int, m.1 as int, m.2 as int, m.3 as int)),
                found is None ==> leftmost_em(t@, pos as int) is None,
            decreases len - i,
        {
            if let Some((a, b, e)) = match_em_exec(t, i) {
                found = Some((i, a, b, e));
                break;
            }
            i += 1;
        }
        proof {
            lemma_leftmost_em_bounds(t@, pos as int);
        }
        match found {
            None => {
                let tail = slice_string(t, pos, len);
                out.append_plain(tail.as_str());
                assert(out@ =~= out0 + cur);
                pos = len;
                assert(out@ + em_spans(t@, pos as int, *cs) =~= out@);
            },
            Some((i, a, b, e)) => {
                if pos < i {
                    let gap = slice_string(t, pos, i);
                    out.append_plain(gap.as_str());
                }
                let m = slice_string(t, a, b);
                out.append_styled(m.as_str(), cs.matched_highlight);
                assert(cur =~= (if pos < i {
                    seq![(t@.subrange(pos as int, i as int), Style::plain_spec())]
                } else {
                    Seq::empty()
                }) + seq![(t@.subrange(a as int, b as int), cs.matched_highlight)] + em_spans(t@, e as int, *cs));
                assert(out@ + em_spans(t@, e as int, *cs) =~= out0 + cur);
                pos = e;
            },
        }
    }
}

/// Appends `s` to `out`, character by character.
fn push_chars(out: &mut Vec<char>, s: &str)
    ensures
        final(out)@ == old(out)@ + s@,
{
    let v = crate::text::chars_of(s);
    let mut k: usize = 0;
    let ghost o0 = out@;
    while k < v.len()
        invariant
            k <= v@.len(),
            v@ == s@,
            out@ == o0 + v@.take(k as int),
        decreases v.len() - k,
    {
        out.push(v[k]);
        k += 1;
        assert(out@ =~= o0 + v@.take(k as int));
    }
    assert(v@.take(v@.len() as int) =~= v@);
}

impl Story {
    /// The URL of the story's discussion page on Hacker News.
    pub fn story_url(&self) -> (res: String)
        ensures
            res@ == story_page_url(self.id),
    {
        let mut s = String::from_str(crate::responses::HN_HOST_URL);
        s.append("/item?id=");
        let id = crate::text::decimal_string(self.id as u64);
        s.append(id.as_str());
        proof {
            reveal_strlit("https://news.ycombinator.com");
        }
        s
    }

    /// The story's article URL, or its discussion page when it has none
    /// (as for "Ask HN" stories).
    pub fn get_url(&self) -> (res: String)
        ensures
            res@ == (if self.url@.len() == 0 {
                story_page_url(self.id)
            } else {
                self.url@
            }),
    {
        if self.url.as_str().is_empty() {
            self.story_url()
        } else {
            String::from_str(self.url.as_str())
        }
    }

    /// The decorated title: category prefixes ("Ask HN", "Tell HN",
    /// "Show HN", "Launch HN") in their styles, and search matches (inside
    /// `<em>` tags) highlighted.
    pub fn styled_title(&self, cs: &ComponentStyle) -> (res: StyledText)
        ensures
            res@ == decorated_title(self.title@, *cs),
    {
        let names: Vec<&str> = vec!["Ask HN", "Tell HN", "Show HN", "Launch HN"];
        let styles: Vec<Style> = vec![cs.ask_hn, cs.tell_hn, cs.show_hn, cs.launch_hn];
        assert(names@.map_values(|s: &str| s@) =~= category_names());
        assert(styles@ =~= category_styles(*cs));
        let mut parsed = StyledText::new();
        let mut title = crate::text::chars_of(self.title.as_str());
        let mut k: usize = 0;
        assert(parsed@ + strip_categories(title@, 0, *cs).0 =~= strip_categories(self.title@, 0, *cs).0);
        while k < 4
            invariant
                k <= 4,
                names@.len() == 4,
                styles@.len() == 4,
                names@.map_values(|s: &str| s@) == category_names(),
                styles@ == category_styles(*cs),
                parsed@ + strip_categories(title@, k as nat, *cs).0 == strip_categories(self.title@, 0, *cs).0,
                strip_categories(title@, k as nat, *cs).1 == strip_categories(self.title@, 0, *cs).1,
            decreases 4 - k,
        {
            let name = crate::text::chars_of(names[k]);
            assert(name@ == category_names()[k as int]);
            if occurs_at_exec(&title, &name, 0) {
                assert(title@.subrange(0, name@.len() as int) =~= name@);
                assert(name@.is_prefix_of(title@));
                let ghost p0 = parsed@;
                let rest_start = name.len();
                let rest = {
                    let mut v: Vec<char> = Vec::new();
                    let mut j = rest_start;
                    while j < title.len()
                        invariant
                            rest_start <= j <= title@.len(),
                            v@ == title@.subrange(rest_start as int, j as int),
                        decreases title.len() - j,
                    {
                        v.push(title[j]);
                        j += 1;
                        assert(v@ =~= title@.subrange(rest_start as int, j as int));
                    }
                    v
                };
                assert(rest@ =~= title@.skip(name@.len() as int));
                parsed.append_styled(names[k], styles[k]);
                assert(parsed@ + strip_categories(rest@, (k + 1) as nat, *cs).0 =~= p0 + strip_categories(title@, k as nat, *cs).0);
                title = rest;
            } else {
                assert(!name@.is_prefix_of(title@)) by {
                    if name@.is_prefix_of(title@) {
                        assert(title@.subrange(0, name@.len() as int) =~= name@);
                    }
                }
            }
            k += 1;
        }
        append_em_spans(&mut parsed, &title, cs);
        assert(parsed@ =~= decorated_title(self.title@, *cs));
        parsed
    }

    /// The title without the `<em>` tags that search results put in it.
    pub fn plain_title(&self) -> (res: String)
        ensures
            res@ == title_without_em(self.title@),
    {
        let t = crate::text::chars_of(self.title.as_str());
        let open = vec!['<', 'e', 'm', '>'];
        let close = vec!['<', '/', 'e', 'm', '>'];
        let none: Vec<char> = Vec::new();
        assert(open@ =~= em_open());
        assert(close@ =~= em_close());
        assert(none@ =~= Seq::<char>::empty());
        let once = replace_chars(&t, &open, &none);
        let twice = replace_chars(&once, &close, &none);
        crate::text::string_of(twice.as_slice())
    }
}

/// The orange `* ` marking the viewer's own items; nothing for others'.
pub open spec fn own_prefix(author: Seq<char>, me: Option<Seq<char>>, style: Style) -> Seq<(Seq<char>, Style)> {
    if me == Some(author) {
        seq![("* "@, style)]
    } else {
        Seq::empty()
    }
}

/// `N points by ` (`1 point by `) for a comment whose score is known.
pub open spec fn points_prefix(points: Option<u32>, style: Style) -> Seq<(Seq<char>, Style)> {
    match points {
        Some(n) => seq![(
            crate::text::decimal(n as nat) + " "@ + (if n == 1 {
                "point"@
            } else {
                "points"@
            }) + " by "@,
            style,
        )],
        None => Seq::empty(),
    }
}

/// The `[flagged] ` and `[dead] ` badges, in that order, as they apply.
pub open spec fn status_spans(flagged: bool, dead: bool, style: Style) -> Seq<(Seq<char>, Style)> {
    (if flagged {
        seq![("[flagged] "@, style)]
    } else {
        Seq::empty()
    }) + (if dead {
        seq![("[dead] "@, style)]
    } else {
        Seq::empty()
    })
}

/// The style of an item's body: faded when HN flagged it or marked it dead.
pub open spec fn body_style(flagged: bool, dead: bool, cs: ComponentStyle) -> Style {
    if flagged || dead {
        cs.faded
    } else {
        Style::plain_spec()
    }
}

/// The viewer's name as characters.
pub open spec fn me_view(me: Option<&str>) -> Option<Seq<char>> {
    match me {
        Some(m) => Some(m@),
        None => None,
    }
}

/// The byline of a story: points, author, age and number of comments.
pub open spec fn story_byline(story: Story, now: u64) -> Seq<char> {
    crate::text::decimal(story.points as nat) + " points | by "@ + story.author@ + " | "@
        + crate::utils::elapsed_text(story.time, now) + " ago | "@ + crate::text::decimal(story.num_comments as nat)
        + " comments\n"@
}

/// The header of a story: badges, decorated title, a line break, the
/// own-item mark and the byline.
pub open spec fn story_metadata(story: Story, me: Option<Seq<char>>, now: u64, cs: ComponentStyle) -> Seq<(Seq<char>, Style)> {
    status_spans(story.flagged, story.dead, cs.metadata) + decorated_title(story.title@, cs) + seq![("\n"@, Style::plain_spec())]
        + own_prefix(story.author@, me, cs.own_item_indicator) + seq![(story_byline(story, now), cs.metadata)]
}

/// The rendering of an item's HTML body.
pub open spec fn body_of(content: Seq<char>, flagged: bool, dead: bool, cs: ComponentStyle) -> crate::html::Rendered {
    crate::html::render_from(crate::html::hn_paragraphs(content), 0, body_style(flagged, dead, cs), 0, cs)
}

/// The item of a comment list that shows a story: its header, a line break
/// and its body; collapsed, the header alone, followed by `... (more)`
/// when the body has text.
pub open spec fn story_item(item: HnItem, story: Story, me: Option<Seq<char>>, now: u64, cs: ComponentStyle) -> bool {
    let meta = story_metadata(story, me, now, cs);
    let body = body_of(story.content@, story.flagged, story.dead, cs);
    &&& item.id == story.id
    &&& item.level == 0
    &&& item.display_state == DisplayState::Normal
    &&& crate::html::strings_view(item.links@) == body.1
    &&& item.author == Some(story.author)
    &&& item.text@ == meta + seq![("\n"@, Style::plain_spec())] + body.0
    &&& item.minimized_text@ == (if crate::styled::source_of(body.0).len() == 0 {
        meta
    } else {
        meta + seq![("... (more)"@, Style::plain_spec())]
    })
    &&& item.parent_story_id is None
}

/// The header of a comment: badges, own-item mark, score, author and age.
pub open spec fn comment_metadata(c: Comment, me: Option<Seq<char>>, now: u64, cs: ComponentStyle) -> Seq<(Seq<char>, Style)> {
    status_spans(c.flagged, c.dead, cs.metadata) + own_prefix(c.author@, me, cs.own_item_indicator) + points_prefix(
        c.points,
        cs.metadata,
    ) + seq![(c.author@, if c.flagged || c.dead {
        cs.faded
    } else {
        cs.username
    })] + seq![(" "@ + crate::utils::elapsed_text(c.time, now) + " ago "@, cs.metadata)]
}

/// The item of a comment list that shows a comment: its header, a line
/// break and its body; collapsed, the header and `(N more)`, where N counts
/// the comment and its descendants.
pub open spec fn comment_item(item: HnItem, c: Comment, me: Option<Seq<char>>, now: u64, cs: ComponentStyle) -> bool {
    let meta = comment_metadata(c, me, now, cs);
    let body = body_of(c.content@, c.flagged, c.dead, cs);
    &&& item.id == c.id
    &&& item.level == c.level
    &&& item.display_state == DisplayState::Normal
    &&& crate::html::strings_view(item.links@) == body.1
    &&& item.author == Some(c.author)
    &&& item.text@ == meta + seq![("\n"@, Style::plain_spec())] + body.0
    &&& item.minimized_text@ == meta + seq![(
        "("@ + crate::text::decimal(c.n_children as nat + 1) + " more)"@,
        cs.metadata,
    )]
    &&& item.parent_story_id == c.parent_story_id
}

/// The own-item mark for `author`, if the viewer `me` wrote the item.
pub fn own_item_prefix(author: &str, me: Option<&str>, style: Style) -> (res: StyledText)
    ensures
        res@ == own_prefix(author@, me_view(me), style),
{
    let mine = match me {
        Some(m) => crate::query::str_eq(m, author),
        None => false,
    };
    if mine {
        StyledText::styled("* ", style)
    } else {
        StyledText::new()
    }
}

/// The score fragment of a comment's byline, when the score is known.
pub fn comment_points_prefix(points: Option<u32>, style: Style) -> (res: StyledText)
    ensures
        res@ == points_prefix(points, style),
{
    match points {
        Some(n) => {
            let mut s = crate::text::decimal_string(n as u64);
            s.append(" ");
            if n == 1 {
                s.append("point");
            } else {
                s.append("points");
            }
            s.append(" by ");
            StyledText::styled(s.as_str(), style)
        },
        None => StyledText::new(),
    }
}

/// The `[flagged] ` and `[dead] ` badges of an item.
pub fn status_prefix(flagged: bool, dead: bool, style: Style) -> (res: StyledText)
    ensures
        res@ == status_spans(flagged, dead, style),
{
    let mut s = StyledText::new();
    if flagged {
        s.append_styled("[flagged] ", style);
    }
    if dead {
        s.append_styled("[dead] ", style);
    }
    assert(s@ =~= status_spans(flagged, dead, style));
    s
}

impl HnItem {
    /// The item that shows `story`, for the viewer `me`, with ages measured
    /// at `now`.
    pub fn from_story_at(story: Story, cs: &ComponentStyle, me: Option<&str>, now: u64) -> (res: HnItem)
        requires
            3 * story.content@.len() + 7 <= usize::MAX,
        ensures
            story_item(res, story, me_view(me), now, *cs),
    {
        let mut meta = status_prefix(story.flagged, story.dead, cs.metadata);
        let title = story.styled_title(cs);
        meta.append(title);
        meta.append_plain("\n");
        let own = own_item_prefix(story.author.as_str(), me, cs.own_item_indicator);
        meta.append(own);
        let mut line = crate::text::decimal_string(story.points as u64);
        line.append(" points | by ");
        line.append(story.author.as_str());
        line.append(" | ");
        let elapsed = crate::utils::get_elapsed_time_as_text_at(story.time, now);
        line.append(elapsed.as_str());
        line.append(" ago | ");
        let nc = crate::text::decimal_string(story.num_comments as u64);
        line.append(nc.as_str());
        line.append(" comments\n");
        meta.append_styled(line.as_str(), cs.metadata);
        assert(meta@ =~= story_metadata(story, me_view(me), now, *cs));
        let style = if story.flagged || story.dead {
            cs.faded
        } else {
            Style::plain()
        };
        let content = String::from_str(story.content.as_str());
        let result = crate::html::parse_hn_html_text(content, style, 0, cs);
        let has_body = !result.content.is_empty_text();
        let mut minimized = crate::find::copy_text(&meta);
        if has_body {
            minimized.append_plain("... (more)");
        }
        let mut text = meta;
        text.append_plain("\n");
        let ghost body = result.content@;
        text.append(result.content);
        proof {
            reveal_strlit("\n");
            reveal_strlit("... (more)");
            let m = story_metadata(story, me_view(me), now, *cs);
            assert(text@ =~~= m + seq![("\n"@, Style::plain_spec())] + body);
            if has_body {
                assert(minimized@ =~~= m + seq![("... (more)"@, Style::plain_spec())]);
            } else {
                assert(minimized@ =~~= m);
            }
        }
        HnItem {
            id: story.id,
            level: 0,
            display_state: DisplayState::Normal,
            links: result.links,
            author: Some(story.author),
            text,
            minimized_text: minimized,
            parent_story_id: None,
        }
    }

    /// The item that shows `story`, for the viewer `me`, with ages measured
    /// by the clock.
    pub fn from_story(story: Story, cs: &ComponentStyle, me: Option<&str>) -> (res: HnItem)
        requires
            3 * story.content@.len() + 7 <= usize::MAX,
        ensures
            exists|now: u64| story_item(res, story, me_view(me), now, *cs),
    {
        let now = crate::utils::unix_now_secs();
        HnItem::from_story_at(story, cs, me, now)
    }

    /// The item that shows `comment`, for the viewer `me`, with ages
    /// measured at `now`.
    pub fn from_comment_at(comment: Comment, cs: &ComponentStyle, me: Option<&str>, now: u64) -> (res: HnItem)
        requires
            3 * comment.content@.len() + 7 <= usize::MAX,
            comment.n_children < usize::MAX,
        ensures
            comment_item(res, comment, me_view(me), now, *cs),
    {
        let faded = comment.flagged || comment.dead;
        let mut meta = status_prefix(comment.flagged, comment.dead, cs.metadata);
        let own = own_item_prefix(comment.author.as_str(), me, cs.own_item_indicator);
        meta.append(own);
        let pts = comment_points_prefix(comment.points, cs.metadata);
        meta.append(pts);
        meta.append_styled(comment.author.as_str(), if faded {
            cs.faded
        } else {
            cs.username
        });
        let mut age = String::from_str(" ");
        let elapsed = crate::utils::get_elapsed_time_as_text_at(comment.time, now);
        age.append(elapsed.as_str());
        age.append(" ago ");
        meta.append_styled(age.as_str(), cs.metadata);
        proof {
            reveal_strlit(" ");
        }
        assert(meta@ =~= comment_metadata(comment, me_view(me), now, *cs));
        let mut more = String::from_str("(");
        let n = crate::text::decimal_string((comment.n_children + 1) as u64);
        more.append(n.as_str());
        more.append(" more)");
        let mut minimized = crate::find::copy_text(&meta);
        minimized.append_styled(more.as_str(), cs.metadata);
        proof {
            reveal_strlit("(");
        }
        let style = if faded {
            cs.faded
        } else {
            Style::plain()
        };
        let content = String::from_str(comment.content.as_str());
        let result = crate::html::parse_hn_html_text(content, style, 0, cs);
        let mut text = meta;
        text.append_plain("\n");
        let ghost body = result.content@;
        text.append(result.content);
        proof {
            reveal_strlit("\n");
            reveal_strlit(" more)");
            let m = comment_metadata(comment, me_view(me), now, *cs);
            assert(text@ =~~= m + seq![("\n"@, Style::plain_spec())] + body);
            assert(minimized@ =~~= m + seq![(
                "("@ + crate::text::decimal(comment.n_children as nat + 1) + " more)"@,
                cs.metadata,
            )]);
        }
        HnItem {
            id: comment.id,
            level: comment.level,
            display_state: DisplayState::Normal,
            links: result.links,
            author: Some(comment.author),
            text,
            minimized_text: minimized,
            parent_story_id: comment.parent_story_id,
        }
    }

    /// The item that shows `comment`, for the viewer `me`, with ages
    /// measured by the clock.
    pub fn from_comment(comment: Comment, cs: &ComponentStyle, me: Option<&str>) -> (res: HnItem)
        requires
            3 * comment.content@.len() + 7 <= usize::MAX,
            comment.n_children < usize::MAX,
        ensures
            exists|now: u64| comment_item(res, comment, me_view(me), now, *cs),
    {
        let now = crate::utils::unix_now_secs();
        HnItem::from_comment_at(comment, cs, me, now)
    }
}

} // verus!
