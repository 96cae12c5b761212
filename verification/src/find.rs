//! Find-on-page: locating a query in a styled text and highlighting the
//! matches.

use vstd::prelude::*;
use crate::styled::{Span, StyledText, source_of, source_of_concat, span_view};
use crate::text::chars_of;
use crate::theme::Style;

verus! {

/// The ASCII lower-case of a character; other characters are unchanged.
pub open spec fn ascii_lower(c: char) -> char {
    if 'A' <= c && c <= 'Z' {
        ((c as u8) + 32) as u8 as char
    } else {
        c
    }
}

pub(crate) fn lower(c: char) -> (res: char)
    ensures
        res == ascii_lower(c),
{
    if 'A' <= c && c <= 'Z' {
        ((c as u8) + 32) as char
    } else {
        c
    }
}

/// `q` occurs at position `i` of `src`, ignoring ASCII case.
pub open spec fn matches_at(src: Seq<char>, q: Seq<char>, i: int) -> bool {
    &&& 0 <= i
    &&& i + q.len() <= src.len()
    &&& forall|k: int| 0 <= k < q.len() ==> ascii_lower(#[trigger] src[i + k]) == ascii_lower(q[k])
}

/// The matches of a non-empty `q` in `src` at or after `pos`, found left
/// to right without overlap, as half-open ranges.
pub open spec fn find_ranges_from(src: Seq<char>, q: Seq<char>, pos: int) -> Seq<(int, int)>
    decreases src.len() - pos,
{
    if q.len() == 0 || pos < 0 || pos + q.len() > src.len() {
        Seq::empty()
    } else if matches_at(src, q, pos) {
        seq![(pos, pos + q.len())] + find_ranges_from(src, q, pos + q.len())
    } else {
        find_ranges_from(src, q, pos + 1)
    }
}

/// The matches of `q` in `src`: none for an empty query.
pub open spec fn find_ranges(src: Seq<char>, q: Seq<char>) -> Seq<(int, int)> {
    find_ranges_from(src, q, 0)
}

/// Ranges that are non-empty, inside `[lo, hi]`, in order and disjoint.
pub open spec fn ordered_ranges(rs: Seq<(int, int)>, lo: int, hi: int) -> bool {
    &&& forall|k: int| 0 <= k < rs.len() ==> lo <= (#[trigger] rs[k]).0 < rs[k].1 <= hi
    &&& forall|k: int, l: int| 0 <= k < l < rs.len() ==> (#[trigger] rs[k]).1 <= (#[trigger] rs[l]).0
}

/// The found ranges are ordered, disjoint, of the query's length and
/// each one is a match.
pub proof fn find_ranges_ordered(src: Seq<char>, q: Seq<char>, pos: int)
    requires
        0 <= pos,
    ensures
        ordered_ranges(find_ranges_from(src, q, pos), pos, src.len() as int),
        forall|k: int|
            0 <= k < find_ranges_from(src, q, pos).len() ==> {
                let r = #[trigger] find_ranges_from(src, q, pos)[k];
                &&& r.1 == r.0 + q.len()
                &&& matches_at(src, q, r.0)
            },
    decreases src.len() - pos,
{
    if q.len() == 0 || pos + q.len() > src.len() {
    } else if matches_at(src, q, pos) {
        find_ranges_ordered(src, q, pos + q.len());
        let rest = find_ranges_from(src, q, pos + q.len());
        let all = seq![(pos, pos + q.len())] + rest;
        assert forall|k: int, l: int| 0 <= k < l < all.len() implies (#[trigger] all[k]).1 <= (
        #[trigger] all[l]).0 by {
            if k > 0 {
                assert(all[k] == rest[k - 1]);
                assert(all[l] == rest[l - 1]);
            } else {
                assert(all[l] == rest[l - 1]);
            }
        }
        assert forall|k: int| 0 <= k < all.len() implies {
            let r = #[trigger] all[k];
            &&& r.1 == r.0 + q.len()
            &&& matches_at(src, q, r.0)
        } by {
            if k > 0 {
                assert(all[k] == rest[k - 1]);
            }
        }
    } else {
        find_ranges_ordered(src, q, pos + 1);
    }
}

/// Position `p` lies inside one of the ranges.
pub open spec fn in_ranges(rs: Seq<(int, int)>, p: int) -> bool {
    exists|k: int| 0 <= k < rs.len() && (#[trigger] rs[k]).0 <= p < rs[k].1
}

/// The style of the character at position `p` of a styled text.
pub open spec fn style_at(spans: Seq<(Seq<char>, Style)>, p: int) -> Style
    decreases spans.len(),
{
    if spans.len() == 0 {
        Style::plain_spec()
    } else if p < source_of(spans.drop_last()).len() {
        style_at(spans.drop_last(), p)
    } else {
        spans.last().1
    }
}

/// Styles of a concatenation come from the part the position falls in.
pub proof fn style_at_concat(a: Seq<(Seq<char>, Style)>, b: Seq<(Seq<char>, Style)>, p: int)
    requires
        0 <= p < source_of(a + b).len(),
    ensures
        p < source_of(a).len() ==> style_at(a + b, p) == style_at(a, p),
        p >= source_of(a).len() ==> style_at(a + b, p) == style_at(b, p - source_of(a).len()),
    decreases b.len(),
{
    source_of_concat(a, b);
    if b.len() == 0 {
        assert(a + b =~= a);
    } else {
        assert((a + b).drop_last() =~= a + b.drop_last());
        source_of_concat(a, b.drop_last());
        if p < source_of(a + b.drop_last()).len() {
            style_at_concat(a, b.drop_last(), p);
        }
    }
}

/// The style of any character of a single span is the span's style.
pub proof fn style_at_single(x: (Seq<char>, Style), p: int)
    requires
        0 <= p,
    ensures
        style_at(seq![x], p) == x.1,
{
    assert(seq![x].drop_last() =~= Seq::<(Seq<char>, Style)>::empty());
}

/// Every span has at least one character.
pub open spec fn no_empty_spans(spans: Seq<(Seq<char>, Style)>) -> bool {
    forall|k: int| 0 <= k < spans.len() ==> (#[trigger] spans[k]).0.len() > 0
}


/// Ranges with integer bounds.
pub open spec fn ranges_view(v: Seq<(usize, usize)>) -> Seq<(int, int)> {
    v.map_values(|r: (usize, usize)| (r.0 as int, r.1 as int))
}

fn matches_at_exec(src: &Vec<char>, q: &Vec<char>, i: usize) -> (res: bool)
    requires
        i + q.len() <= src.len(),
    ensures
        res == matches_at(src@, q@, i as int),
{
    let mut k: usize = 0;
    while k < q.len()
        invariant
            k <= q.len(),
            i + q.len() <= src.len(),
            forall|j: int| 0 <= j < k ==> ascii_lower(#[trigger] src@[i + j]) == ascii_lower(q@[j]),
        decreases q.len() - k,
    {
        if lower(src[i + k]) != lower(q[k]) {
            return false;
        }
        k += 1;
    }
    true
}

/// The matches of `q` in `src`, left to right and without overlap,
/// ignoring ASCII case.
pub fn find_match_ranges(src: &Vec<char>, q: &Vec<char>) -> (res: Vec<(usize, usize)>)
    ensures
        ranges_view(res@) == find_ranges(src@, q@),
{
    let mut res: Vec<(usize, usize)> = Vec::new();
    if q.len() == 0 {
        assert(ranges_view(res@) =~= find_ranges(src@, q@));
        return res;
    }
    let mut pos: usize = 0;
    while pos <= src.len() && q.len() <= src.len() - pos
        invariant
            q.len() > 0,
            pos <= src.len() + 1,
            ranges_view(res@) + find_ranges_from(src@, q@, pos as int) == find_ranges(src@, q@),
        decreases src.len() + 1 - pos,
    {
        if matches_at_exec(src, q, pos) {
            let ghost old_res = res@;
            res.push((pos, pos + q.len()));
            assert(ranges_view(res@) =~= ranges_view(old_res).push((pos as int, pos + q.len())));
            assert(ranges_view(res@) + find_ranges_from(src@, q@, pos + q.len()) =~= ranges_view(
                old_res,
            ) + find_ranges_from(src@, q@, pos as int));
            pos = pos + q.len();
        } else {
            pos = pos + 1;
        }
    }
    assert(find_ranges_from(src@, q@, pos as int) =~= Seq::<(int, int)>::empty());
    assert(ranges_view(res@) + Seq::<(int, int)>::empty() =~= ranges_view(res@));
    res
}

/// A copy of a styled text.
pub fn copy_text(t: &StyledText) -> (res: StyledText)
    ensures
        res@ == t@,
{
    let mut spans: Vec<Span> = Vec::new();
    let mut i: usize = 0;
    while i < t.spans.len()
        invariant
            i <= t.spans.len(),
            spans@.map_values(|s: Span| span_view(s)) == t@.take(i as int),
        decreases t.spans.len() - i,
    {
        let sp = Span { text: t.spans[i].text.clone(), style: t.spans[i].style };
        let ghost s0 = spans@;
        spans.push(sp);
        assert(spans@.map_values(|s: Span| span_view(s)) =~= s0.map_values(|s: Span| span_view(s)).push(span_view(sp)));
        assert(span_view(sp) == t@[i as int]);
        assert(spans@.map_values(|s: Span| span_view(s)) =~= t@.take(i + 1));
        i += 1;
    }
    assert(t@.take(t.spans.len() as int) =~= t@);
    StyledText { spans }
}

/// The style that highlighting gives the character at `p`.
pub open spec fn highlighted_style(
    content: Seq<(Seq<char>, Style)>,
    rs: Seq<(int, int)>,
    match_style: Style,
    p: int,
) -> Style {
    if in_ranges(rs, p) {
        match_style
    } else {
        style_at(content, p)
    }
}

proof fn lemma_source_prefix(c: Seq<(Seq<char>, Style)>, i: int)
    requires
        0 <= i < c.len(),
    ensures
        source_of(c.take(i + 1)) == source_of(c.take(i)) + c[i].0,
        source_of(c) == source_of(c.take(i + 1)) + source_of(c.skip(i + 1)),
        source_of(c.take(i + 1)).len() <= source_of(c).len(),
{
    assert(c.take(i + 1).drop_last() =~= c.take(i));
    assert(c =~= c.take(i + 1) + c.skip(i + 1));
    source_of_concat(c.take(i + 1), c.skip(i + 1));
}

proof fn lemma_style_in_span(c: Seq<(Seq<char>, Style)>, i: int, p: int)
    requires
        0 <= i < c.len(),
        source_of(c.take(i)).len() <= p < source_of(c.take(i)).len() + c[i].0.len(),
    ensures
        style_at(c, p) == c[i].1,
{
    lemma_source_prefix(c, i);
    assert(c =~= c.take(i + 1) + c.skip(i + 1));
    style_at_concat(c.take(i + 1), c.skip(i + 1), p);
    assert(c.take(i + 1) =~= c.take(i) + seq![c[i]]);
    source_of_concat(c.take(i), seq![c[i]]);
    style_at_concat(c.take(i), seq![c[i]], p);
    style_at_single(c[i], p - source_of(c.take(i)).len());
}

proof fn lemma_append_piece(
    out: Seq<(Seq<char>, Style)>,
    piece: (Seq<char>, Style),
    p: int,
)
    requires
        0 <= p,
        source_of(out).len() <= p < source_of(out).len() + piece.0.len(),
    ensures
        style_at(out.push(piece), p) == piece.1,
{
    assert(out.push(piece) =~= out + seq![piece]);
    source_of_concat(out, seq![piece]);
    style_at_concat(out, seq![piece], p);
    style_at_single(piece, p - source_of(out).len());
}

proof fn lemma_append_keeps(out: Seq<(Seq<char>, Style)>, piece: (Seq<char>, Style), p: int)
    requires
        0 <= p < source_of(out).len(),
    ensures
        style_at(out.push(piece), p) == style_at(out, p),
{
    assert(out.push(piece) =~= out + seq![piece]);
    source_of_concat(out, seq![piece]);
    style_at_concat(out, seq![piece], p);
}

/// Highlights every occurrence of `query` in `content`, ignoring ASCII
/// case, and gives the character ranges of the matches.
fn highlight_char_ranges(content: &StyledText, query: &str, match_style: Style) -> (res: (
    StyledText,
    Vec<(usize, usize)>,
))
    ensures
        ranges_view(res.1@) == find_ranges(source_of(content@), query@),
        source_of(res.0@) == source_of(content@),
        forall|p: int|
            0 <= p < source_of(content@).len() ==> #[trigger] style_at(res.0@, p)
                == highlighted_style(content@, ranges_view(res.1@), match_style, p),
        res.1.len() == 0 ==> res.0@ == content@,
        res.1.len() > 0 ==> no_empty_spans(res.0@),
{
    let source = content.source();
    let src = chars_of(source.as_str());
    let q = chars_of(query);
    let ranges = find_match_ranges(&src, &q);
    if ranges.len() == 0 {
        let copy = copy_text(content);
        assert forall|p: int| 0 <= p < source_of(content@).len() implies #[trigger] style_at(
            copy@,
            p,
        ) == highlighted_style(content@, ranges_view(ranges@), match_style, p) by {
            assert(!in_ranges(ranges_view(ranges@), p));
        }
        return (copy, ranges);
    }
    let ghost rs = ranges_view(ranges@);
    proof {
        find_ranges_ordered(src@, q@, 0);
    }
    let ghost c = content@;
    let total = src.len();
    let mut out = StyledText::new();
    let mut offset: usize = 0;
    let mut ri: usize = 0;
    let mut i: usize = 0;
    while i < content.spans.len()
        invariant
            c == content@,
            rs == ranges_view(ranges@),
            ordered_ranges(rs, 0, src@.len() as int),
            src@ == source_of(c),
            total == src@.len(),
            i <= content.spans.len(),
            offset == source_of(c.take(i as int)).len(),
            source_of(out@) == source_of(c.take(i as int)),
            no_empty_spans(out@),
            ri <= ranges.len(),
            forall|k: int| 0 <= k < ri ==> (#[trigger] rs[k]).1 <= offset,
            forall|p: int|
                0 <= p < offset ==> #[trigger] style_at(out@, p) == highlighted_style(
                    c,
                    rs,
                    match_style,
                    p,
                ),
        decreases content.spans.len() - i,
    {
        proof {
            lemma_source_prefix(c, i as int);
        }
        let text = content.spans[i].text.as_str();
        let st = content.spans[i].style;
        let t = chars_of(text);
        let span_len = t.len();
        assert(c[i as int] == (t@, st));
        let mut cur: usize = 0;
        while cur < span_len
            invariant
                c == content@,
                rs == ranges_view(ranges@),
                ordered_ranges(rs, 0, src@.len() as int),
                0 <= i < c.len(),
                c[i as int] == (t@, st),
                text@ == t@,
                span_len == t@.len(),
                offset == source_of(c.take(i as int)).len(),
                offset + span_len <= total,
                total == src@.len(),
                source_of(c.take(i + 1)) == source_of(c.take(i as int)) + t@,
                cur <= span_len,
                source_of(out@) == source_of(c.take(i as int)) + t@.take(cur as int),
                no_empty_spans(out@),
                ri <= ranges.len(),
                forall|k: int| 0 <= k < ri ==> (#[trigger] rs[k]).1 <= offset + cur,
                forall|p: int|
                    0 <= p < offset + cur ==> #[trigger] style_at(out@, p) == highlighted_style(
                        c,
                        rs,
                        match_style,
                        p,
                    ),
            decreases span_len - cur,
        {
            let p = offset + cur;
            while ri < ranges.len() && ranges[ri].1 <= p
                invariant
                    rs == ranges_view(ranges@),
                    ri <= ranges.len(),
                    forall|k: int| 0 <= k < ri ==> (#[trigger] rs[k]).1 <= p,
                decreases ranges.len() - ri,
            {
                assert(rs[ri as int].1 == ranges@[ri as int].1);
                ri += 1;
            }
            let in_match = ri < ranges.len() && ranges[ri].0 <= p;
            let end: usize = if in_match {
                if ranges[ri].1 - offset < span_len {
                    ranges[ri].1 - offset
                } else {
                    span_len
                }
            } else if ri < ranges.len() {
                if ranges[ri].0 - offset < span_len {
                    ranges[ri].0 - offset
                } else {
                    span_len
                }
            } else {
                span_len
            };
            let sty = if in_match {
                match_style
            } else {
                st
            };
            assert(cur < end);
            let piece = text.substring_char(cur, end);
            let ghost out0 = out@;
            out.append_styled(piece, sty);
            proof {
                assert(out@.drop_last() =~= out0);
                assert(t@.take(end as int) =~= t@.take(cur as int) + t@.subrange(
                    cur as int,
                    end as int,
                ));
                assert(source_of(out@) =~= source_of(c.take(i as int)) + t@.take(end as int));
                assert forall|p2: int| 0 <= p2 < offset + end implies #[trigger] style_at(out@, p2)
                    == highlighted_style(c, rs, match_style, p2) by {
                    if p2 < offset + cur {
                        lemma_append_keeps(out0, (piece@, sty), p2);
                    } else {
                        lemma_append_piece(out0, (piece@, sty), p2);
                        lemma_style_in_span(c, i as int, p2);
                        if in_match {
                            assert(rs[ri as int].0 <= p2 < rs[ri as int].1);
                            assert(in_ranges(rs, p2));
                        } else {
                            assert forall|k: int| 0 <= k < rs.len() implies !(
                            #[trigger] rs[k].0 <= p2 && p2 < rs[k].1) by {
                                if k < ri {
                                } else if k == ri {
                                } else {
                                    assert(rs[ri as int].1 <= rs[k].0);
                                }
                            }
                            assert(!in_ranges(rs, p2));
                        }
                    }
                }
                assert forall|k: int| 0 <= k < out@.len() implies (#[trigger] out@[k]).0.len() > 0 by {
                    if k < out0.len() {
                        assert(out@[k] == out0[k]);
                    }
                }
            }
            cur = end;
        }
        assert(t@.take(span_len as int) =~= t@);
        offset = offset + span_len;
        i += 1;
    }
    assert(c.take(c.len() as int) =~= c);
    (out, ranges)
}


/// The byte offset of the character at `p` in the UTF-8 encoding of `s`.
pub open spec fn byte_pos(s: Seq<char>, p: int) -> int {
    vstd::utf8::encode_utf8(s.take(p)).len() as int
}

/// Character ranges of `s` as ranges of bytes of its UTF-8 encoding.
pub open spec fn byte_ranges(s: Seq<char>, rs: Seq<(int, int)>) -> Seq<(int, int)> {
    Seq::new(rs.len(), |k: int| (byte_pos(s, rs[k].0), byte_pos(s, rs[k].1)))
}

proof fn lemma_encode_concat(a: Seq<char>, b: Seq<char>)
    ensures
        vstd::utf8::encode_utf8(a + b) == vstd::utf8::encode_utf8(a) + vstd::utf8::encode_utf8(b),
    decreases a.len(),
{
    if a.len() == 0 {
        assert(a + b =~= b);
        assert(vstd::utf8::encode_utf8(a) =~= Seq::<u8>::empty());
        assert(Seq::<u8>::empty() + vstd::utf8::encode_utf8(b) =~= vstd::utf8::encode_utf8(b));
    } else {
        lemma_encode_concat(a.drop_first(), b);
        assert((a + b).drop_first() =~= a.drop_first() + b);
        assert((a + b)[0] == a[0]);
        let e = vstd::utf8::encode_scalar(a[0] as u32);
        assert(e + (vstd::utf8::encode_utf8(a.drop_first()) + vstd::utf8::encode_utf8(b)) =~= (e
            + vstd::utf8::encode_utf8(a.drop_first())) + vstd::utf8::encode_utf8(b));
    }
}

proof fn lemma_byte_pos_step(s: Seq<char>, k: int)
    requires
        0 <= k < s.len(),
    ensures
        byte_pos(s, k + 1) == byte_pos(s, k) + vstd::utf8::encode_scalar(s[k] as u32).len(),
        byte_pos(s, k + 1) <= vstd::utf8::encode_utf8(s).len(),
{
    lemma_encode_concat(s.take(k), seq![s[k]]);
    assert(s.take(k + 1) =~= s.take(k) + seq![s[k]]);
    let one = seq![s[k]];
    assert(one.len() == 1 && one[0] == s[k]);
    assert(one.drop_first() =~= Seq::<char>::empty());
    assert(vstd::utf8::encode_utf8(one.drop_first()) == Seq::<u8>::empty());
    assert(vstd::utf8::encode_utf8(one) == vstd::utf8::encode_scalar(one[0] as u32) + vstd::utf8::encode_utf8(
        one.drop_first(),
    ));
    assert(vstd::utf8::encode_utf8(one) =~= vstd::utf8::encode_scalar(s[k] as u32));
    lemma_encode_concat(s.take(k + 1), s.skip(k + 1));
    assert(s.take(k + 1) + s.skip(k + 1) =~= s);
}

/// The number of bytes of a character's UTF-8 encoding.
fn utf8_width(c: char) -> (w: usize)
    ensures
        w == vstd::utf8::encode_scalar(c as u32).len(),
{
    broadcast use vstd::utf8::char_is_scalar;
    let v = c as u32;
    if v <= 0x7F {
        1
    } else if v <= 0x7FF {
        2
    } else if v <= 0xFFFF {
        3
    } else {
        4
    }
}

/// The byte ranges of ordered character ranges of `src`, whose encoding
/// is `total` bytes long.
fn to_byte_ranges(src: &Vec<char>, total: usize, rs: &Vec<(usize, usize)>) -> (res: Vec<(usize, usize)>)
    requires
        total == vstd::utf8::encode_utf8(src@).len(),
        forall|k: int| 0 <= k < rs@.len() ==> (#[trigger] rs@[k]).0 <= rs@[k].1 <= src@.len(),
    ensures
        ranges_view(res@) == byte_ranges(src@, ranges_view(rs@)),
{
    let mut offs: Vec<usize> = Vec::new();
    offs.push(0);
    assert(src@.take(0) =~= Seq::<char>::empty());
    assert(byte_pos(src@, 0) == 0);
    let mut k: usize = 0;
    while k < src.len()
        invariant
            k <= src@.len(),
            total == vstd::utf8::encode_utf8(src@).len(),
            offs@.len() == k + 1,
            forall|j: int| 0 <= j <= k ==> #[trigger] offs@[j] == byte_pos(src@, j),
        decreases src.len() - k,
    {
        proof {
            lemma_byte_pos_step(src@, k as int);
        }
        let w = utf8_width(src[k]);
        let next = offs[k] + w;
        offs.push(next);
        k += 1;
    }
    let mut out: Vec<(usize, usize)> = Vec::new();
    let mut i: usize = 0;
    while i < rs.len()
        invariant
            i <= rs@.len(),
            offs@.len() == src@.len() + 1,
            forall|j: int| 0 <= j <= src@.len() ==> #[trigger] offs@[j] == byte_pos(src@, j),
            forall|k: int| 0 <= k < rs@.len() ==> (#[trigger] rs@[k]).0 <= rs@[k].1 <= src@.len(),
            ranges_view(out@) == byte_ranges(src@, ranges_view(rs@)).take(i as int),
        decreases rs.len() - i,
    {
        let (a, b) = rs[i];
        assert(ranges_view(rs@)[i as int] == (a as int, b as int));
        let ghost before = ranges_view(out@);
        out.push((offs[a], offs[b]));
        assert(ranges_view(out@) =~= before.push((byte_pos(src@, a as int), byte_pos(src@, b as int))));
        i += 1;
        assert(ranges_view(out@) =~= byte_ranges(src@, ranges_view(rs@)).take(i as int));
    }
    assert(byte_ranges(src@, ranges_view(rs@)).take(rs@.len() as int) =~= byte_ranges(src@, ranges_view(rs@)));
    out
}

/// Highlights every occurrence of `query` in `content`, ignoring ASCII
/// case. Returns the rebuilt text and the ranges of the matches as byte
/// offsets into the text's source. The text's characters are unchanged;
/// matched characters take `match_style` and the others keep their
/// style. Without a match the text comes back as it was.
pub fn highlight_matches(content: &StyledText, query: &str, match_style: Style) -> (res: (
    StyledText,
    Vec<(usize, usize)>,
))
    ensures
        highlight_result(content@, query@, match_style, res.0@, res.1@),
        res.1.len() > 0 ==> no_empty_spans(res.0@),
{
    let (out, ranges) = highlight_char_ranges(content, query, match_style);
    let source = content.source();
    let src = chars_of(source.as_str());
    let total = source.as_str().as_bytes().len();
    proof {
        broadcast use vstd::slice::axiom_spec_len;
        find_ranges_ordered(src@, query@, 0);
        assert forall|k: int| 0 <= k < ranges@.len() implies (#[trigger] ranges@[k]).0 <= ranges@[k].1 <= src@.len() by {
            assert(ranges_view(ranges@)[k] == (ranges@[k].0 as int, ranges@[k].1 as int));
        }
    }
    let bytes = to_byte_ranges(&src, total, &ranges);
    assert(ranges_view(bytes@).len() == bytes@.len());
    assert(ranges_view(ranges@).len() == ranges@.len());
    assert(bytes@.len() == ranges@.len());
    (out, bytes)
}

/// `out` and `ranges` are what highlighting `query` in `base` with
/// `match_style` gives: the byte ranges of the matches, the same characters,
/// matched characters in `match_style` and the others in their style, and
/// the text unchanged without a match.
pub open spec fn highlight_result(
    base: Seq<(Seq<char>, Style)>,
    query: Seq<char>,
    match_style: Style,
    out: Seq<(Seq<char>, Style)>,
    ranges: Seq<(usize, usize)>,
) -> bool {
    &&& ranges_view(ranges) == byte_ranges(source_of(base), find_ranges(source_of(base), query))
    &&& source_of(out) == source_of(base)
    &&& forall|p: int|
        0 <= p < source_of(base).len() ==> #[trigger] style_at(out, p) == highlighted_style(
            base,
            find_ranges(source_of(base), query),
            match_style,
            p,
        )
    &&& ranges.len() == 0 ==> out == base
}

/// A request a find dialog leaves for the view it searches.
#[derive(Debug, Clone, Copy, PartialEq, Eq, Structural)]
pub enum FindSignal {
    /// Re-apply highlights using the current query.
    Update,
    /// Drop tracked matches and restore the original text.
    Clear,
    /// Move to the next match.
    JumpNext,
    /// Move to the previous match.
    JumpPrev,
}

/// Find-on-page state shared by a view and its find dialog: the query,
/// the pending request and the indexes of the matches.
pub struct FindState {
    pub query: String,
    pub pending: Option<FindSignal>,
    pub match_ids: Vec<usize>,
}

impl FindState {
    /// A fresh find state: empty query, nothing pending, no match.
    pub fn new_ref() -> (res: FindState)
        ensures
            res.query@.len() == 0,
            res.pending is None,
            res.match_ids@.len() == 0,
    {
        FindState { query: String::new(), pending: None, match_ids: Vec::new() }
    }
}

} // verus!
