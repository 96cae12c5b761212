//! Rendering of Hacker News item texts (HTML markup) into styled text and
//! the list of links they hold.

use vstd::prelude::*;
use crate::markup::{
    leftmost, lemma_leftmost_bounds, next_markup, occurs_at, p_close, p_open, replace_chars, replace_from, Found,
    MarkKind,
};
use crate::styled::StyledText;
use crate::text::decimal;
use crate::theme::{combine_spec, ComponentStyle, Style};
use crate::utils::short_url;

verus! {

/// Parsed result of an HTML text.
#[derive(Debug)]
pub struct HTMLTextParsedResult {
    /// The rendered content.
    pub content: StyledText,
    /// The links of the text, in order.
    pub links: Vec<String>,
}

/// Parsed result of an HTML table.
#[derive(Debug)]
pub struct HTMLTableParsedResult {
    /// The links of the table, in order.
    pub links: Vec<String>,
    /// The table headers.
    pub headers: Vec<StyledText>,
    /// The table rows.
    pub rows: Vec<Vec<StyledText>>,
}

/// The characters of each string.
pub open spec fn strings_view(v: Seq<String>) -> Seq<Seq<char>> {
    v.map_values(|s: String| s@)
}

/// A rendering: its spans and its links.
pub type Rendered = (Seq<(Seq<char>, Style)>, Seq<Seq<char>>);

/// `n` quote bars.
pub open spec fn bars(n: nat) -> Seq<char>
    decreases n,
{
    if n == 0 {
        Seq::empty()
    } else {
        bars((n - 1) as nat).push('▎')
    }
}

/// How often `c` occurs in `s`.
pub open spec fn count_char(s: Seq<char>, c: char) -> nat
    decreases s.len(),
{
    if s.len() == 0 {
        0
    } else {
        count_char(s.drop_last(), c) + (if s.last() == c {
            1nat
        } else {
            0nat
        })
    }
}

/// The marker of the `n`-th link, `[n]`.
pub open spec fn link_marker(n: nat) -> Seq<char> {
    seq!['['] + decimal(n) + seq![']']
}

/// A line break in the plain style.
pub open spec fn line_break() -> (Seq<char>, Style) {
    (seq!['\n'], Style::plain_spec())
}

/// The rendering of `t` from `pos` on, in `style`, numbering links after
/// `base`: the text before each construct keeps `style`, and each construct
/// is rendered by [`render_mid`].
pub open spec fn render_from(t: Seq<char>, pos: int, style: Style, base: nat, cs: ComponentStyle) -> Rendered
    decreases t.len(), t.len() - pos, 1int,
{
    if pos < 0 || pos > t.len() {
        (Seq::empty(), Seq::empty())
    } else {
        match leftmost(t, pos) {
            None => (
                if pos < t.len() {
                    seq![(t.subrange(pos, t.len() as int), style)]
                } else {
                    Seq::empty()
                },
                Seq::empty(),
            ),
            Some((i, kind, a, b, e)) => {
                if pos <= i && i < a && a <= b && b < e && e <= t.len() {
                    let gap = if pos < i {
                        seq![(t.subrange(pos, i), style)]
                    } else {
                        Seq::<(Seq<char>, Style)>::empty()
                    };
                    let mid = render_mid(t, i, kind, a, b, style, base, cs);
                    let rest = render_from(t, e, style, base + mid.1.len(), cs);
                    (gap + mid.0 + rest.0, mid.1 + rest.1)
                } else {
                    (Seq::empty(), Seq::empty())
                }
            },
        }
    }
}

/// The rendering of one construct of `t` that starts at `i` and whose
/// inner text is `a..b`: a paragraph is its rendered text and a line
/// break; a quote is one bar per `>`, its text rendered in the quote style,
/// and a line break; a link is its shortened address, a space and its
/// number `base + 1`; code blocks, inline code and italics keep their text
/// in the matching style, a code block followed by a line break.
pub open spec fn render_mid(
    t: Seq<char>,
    i: int,
    kind: MarkKind,
    a: int,
    b: int,
    style: Style,
    base: nat,
    cs: ComponentStyle,
) -> Rendered
    decreases t.len(), t.len() - i, 0int,
{
    if 0 <= i && i < a && a <= b && b <= t.len() && b - a < t.len() {
        let inner = t.subrange(a, b);
        match kind {
            MarkKind::Quote => {
                let sub = render_from(inner, 0, cs.quote, base, cs);
                (
                    seq![(bars(count_char(t.subrange(i + 3, a), '>')), style)] + sub.0 + seq![line_break()],
                    sub.1,
                )
            },
            MarkKind::Paragraph => {
                let sub = render_from(inner, 0, style, base, cs);
                (sub.0 + seq![line_break()], sub.1)
            },
            MarkKind::Link => (
                seq![
                    (short_url(inner), combine_spec(style, cs.link)),
                    (seq![' '], style),
                    (link_marker(base + 1), combine_spec(style, cs.link_id)),
                ],
                seq![inner],
            ),
            MarkKind::CodeBlock => (
                seq![(inner, combine_spec(style, cs.multiline_code_block)), line_break()],
                Seq::empty(),
            ),
            MarkKind::Code => (seq![(inner, combine_spec(style, cs.single_code_block))], Seq::empty()),
            MarkKind::Italic => (seq![(inner, combine_spec(style, cs.italic))], Seq::empty()),
        }
    } else {
        (Seq::empty(), Seq::empty())
    }
}

/// A rendering numbers at most one link per character of the text.
pub proof fn lemma_render_links_bound(t: Seq<char>, pos: int, style: Style, base: nat, cs: ComponentStyle)
    requires
        0 <= pos <= t.len(),
    ensures
        render_from(t, pos, style, base, cs).1.len() <= t.len() - pos,
    decreases t.len(), t.len() - pos, 1int,
{
    lemma_leftmost_bounds(t, pos);
    match leftmost(t, pos) {
        None => {},
        Some((i, kind, a, b, e)) => {
            lemma_mid_links_bound(t, i, kind, a, b, style, base, cs);
            let n = render_mid(t, i, kind, a, b, style, base, cs).1.len();
            lemma_render_links_bound(t, e, style, base + n, cs);
        },
    }
}

/// A construct numbers at most one link more than its inner text has
/// characters.
pub proof fn lemma_mid_links_bound(
    t: Seq<char>,
    i: int,
    kind: MarkKind,
    a: int,
    b: int,
    style: Style,
    base: nat,
    cs: ComponentStyle,
)
    ensures
        render_mid(t, i, kind, a, b, style, base, cs).1.len() <= (if a <= b { b - a } else { 0 }) + 1,
    decreases t.len(), t.len() - i, 0int,
{
    if 0 <= i && i < a && a <= b && b <= t.len() && b - a < t.len() {
        let inner = t.subrange(a, b);
        match kind {
            MarkKind::Quote => {
                lemma_render_links_bound(inner, 0, cs.quote, base, cs);
            },
            MarkKind::Paragraph => {
                lemma_render_links_bound(inner, 0, style, base, cs);
            },
            _ => {},
        }
    }
}

impl HTMLTextParsedResult {
    /// The rendering this result holds.
    pub open spec fn rendered(&self) -> Rendered {
        (self.content@, strings_view(self.links@))
    }

    /// An empty result.
    pub fn new() -> (res: HTMLTextParsedResult)
        ensures
            res.content@ == Seq::<(Seq<char>, Style)>::empty(),
            res.links@ == Seq::<String>::empty(),
    {
        HTMLTextParsedResult { content: StyledText::new(), links: Vec::new() }
    }

    /// Appends the content and the links of `other`.
    pub fn merge(&mut self, other: HTMLTextParsedResult)
        ensures
            final(self).content@ == old(self).content@ + other.content@,
            final(self).links@ == old(self).links@ + other.links@,
    {
        let mut o = other;
        let ghost ol = o.links@;
        self.content.append(o.content);
        self.links.append(&mut o.links);
        assert(self.links@ =~= old(self).links@ + ol);
    }
}

/// The characters `a..b` of `t`.
fn sub_chars(t: &Vec<char>, a: usize, b: usize) -> (res: Vec<char>)
    requires
        a <= b <= t@.len(),
    ensures
        res@ == t@.subrange(a as int, b as int),
{
    let mut v: Vec<char> = Vec::new();
    let mut k = a;
    while k < b
        invariant
            a <= k <= b <= t@.len(),
            v@ == t@.subrange(a as int, k as int),
        decreases b - k,
    {
        v.push(t[k]);
        k += 1;
        assert(v@ =~= t@.subrange(a as int, k as int));
    }
    v
}

/// The characters `a..b` of `t` as a string.
fn sub_string(t: &Vec<char>, a: usize, b: usize) -> (res: String)
    requires
        a <= b <= t@.len(),
    ensures
        res@ == t@.subrange(a as int, b as int),
{
    let v = sub_chars(t, a, b);
    crate::text::string_of(v.as_slice())
}

/// How often `c` occurs in `t[a..b]`.
fn count_char_in(t: &Vec<char>, a: usize, b: usize, c: char) -> (res: usize)
    requires
        a <= b <= t@.len(),
    ensures
        res == count_char(t@.subrange(a as int, b as int), c),
{
    let mut n: usize = 0;
    let mut k = a;
    while k < b
        invariant
            a <= k <= b <= t@.len(),
            n <= k - a,
            n == count_char(t@.subrange(a as int, k as int), c),
        decreases b - k,
    {
        assert(t@.subrange(a as int, k + 1).drop_last() =~= t@.subrange(a as int, k as int));
        if t[k] == c {
            n += 1;
        }
        k += 1;
    }
    n
}

/// `n` quote bars.
fn bar_string(n: usize) -> (res: String)
    ensures
        res@ == bars(n as nat),
{
    let mut v: Vec<char> = Vec::new();
    let mut k: usize = 0;
    while k < n
        invariant
            k <= n,
            v@ == bars(k as nat),
        decreases n - k,
    {
        v.push('▎');
        k += 1;
    }
    crate::text::string_of(v.as_slice())
}

/// The marker of the `n`-th link.
pub(crate) fn link_marker_string(n: usize) -> (res: String)
    ensures
        res@ == link_marker(n as nat),
{
    let v = crate::text::decimal_chars(n as u64);
    let mut w: Vec<char> = Vec::new();
    w.push('[');
    let mut k: usize = 0;
    while k < v.len()
        invariant
            k <= v@.len(),
            w@ == seq!['['] + v@.take(k as int),
        decreases v.len() - k,
    {
        w.push(v[k]);
        k += 1;
        assert(w@ =~= seq!['['] + v@.take(k as int));
    }
    w.push(']');
    assert(v@.take(v@.len() as int) =~= v@);
    assert(w@ =~= link_marker(n as nat));
    crate::text::string_of(w.as_slice())
}

/// Renders one construct found in `t`.
fn render_construct(t: &Vec<char>, f: Found, style: Style, base: usize, cs: &ComponentStyle) -> (res: HTMLTextParsedResult)
    requires
        f.start < f.a <= f.b < f.end <= t@.len(),
        f.kind == MarkKind::Quote ==> f.start + 3 <= f.a,
        base + (f.b - f.a) + 1 <= usize::MAX,
    ensures
        res.rendered() == render_mid(t@, f.start as int, f.kind, f.a as int, f.b as int, style, base as nat, *cs),
        res.links@.len() <= f.b - f.a + 1,
    decreases t@.len(), 0int,
{
    let ghost inner = t@.subrange(f.a as int, f.b as int);
    proof {
        lemma_mid_links_bound(t@, f.start as int, f.kind, f.a as int, f.b as int, style, base as nat, *cs);
        reveal_strlit("\n");
        reveal_strlit(" ");
    }
    let mut result = HTMLTextParsedResult::new();
    match f.kind {
        MarkKind::Quote => {
            let n = count_char_in(t, f.start + 3, f.a, '>');
            let bar = bar_string(n);
            result.content.append_styled(bar.as_str(), style);
            let inner_v = sub_chars(t, f.a, f.b);
            let sub = parse(&inner_v, cs.quote, base, cs);
            result.merge(sub);
            result.content.append_plain("\n");
            assert(result.content@ =~~= render_mid(t@, f.start as int, f.kind, f.a as int, f.b as int, style, base as nat, *cs).0);
        },
        MarkKind::Paragraph => {
            let inner_v = sub_chars(t, f.a, f.b);
            let sub = parse(&inner_v, style, base, cs);
            result.merge(sub);
            result.content.append_plain("\n");
            assert(result.content@ =~~= render_mid(t@, f.start as int, f.kind, f.a as int, f.b as int, style, base as nat, *cs).0);
        },
        MarkKind::Link => {
            let link = sub_string(t, f.a, f.b);
            let short = crate::utils::shorten_url(link.as_str());
            result.links.push(link);
            result.content.append_styled(short.as_str(), style.combine(cs.link));
            result.content.append_styled(" ", style);
            let marker = link_marker_string(base + 1);
            result.content.append_styled(marker.as_str(), style.combine(cs.link_id));
            assert(result.content@ =~~= render_mid(t@, f.start as int, f.kind, f.a as int, f.b as int, style, base as nat, *cs).0);
        },
        MarkKind::CodeBlock => {
            let code = sub_string(t, f.a, f.b);
            result.content.append_styled(code.as_str(), style.combine(cs.multiline_code_block));
            result.content.append_plain("\n");
            assert(result.content@ =~~= render_mid(t@, f.start as int, f.kind, f.a as int, f.b as int, style, base as nat, *cs).0);
        },
        MarkKind::Code => {
            let code = sub_string(t, f.a, f.b);
            result.content.append_styled(code.as_str(), style.combine(cs.single_code_block));
            assert(result.content@ =~~= render_mid(t@, f.start as int, f.kind, f.a as int, f.b as int, style, base as nat, *cs).0);
        },
        MarkKind::Italic => {
            let text = sub_string(t, f.a, f.b);
            result.content.append_styled(text.as_str(), style.combine(cs.italic));
            assert(result.content@ =~~= render_mid(t@, f.start as int, f.kind, f.a as int, f.b as int, style, base as nat, *cs).0);
        },
    }
    assert(strings_view(result.links@) =~= render_mid(t@, f.start as int, f.kind, f.a as int, f.b as int, style, base as nat, *cs).1);
    result
}

/// Renders the HTML markup of `t` in `style`, numbering its links after
/// `base_link_id`.
pub fn parse(t: &Vec<char>, style: Style, base_link_id: usize, cs: &ComponentStyle) -> (res: HTMLTextParsedResult)
    requires
        base_link_id + t@.len() <= usize::MAX,
    ensures
        res.rendered() == render_from(t@, 0, style, base_link_id as nat, *cs),
    decreases t@.len(), 1int,
{
    let ghost full = render_from(t@, 0, style, base_link_id as nat, *cs);
    let mut result = HTMLTextParsedResult::new();
    let mut pos: usize = 0;
    let len = t.len();
    proof {
        assert(result.content@ + full.0 =~= full.0);
        assert(strings_view(result.links@) + full.1 =~= full.1);
    }
    loop
        invariant
            len == t@.len(),
            pos <= len,
            base_link_id + len <= usize::MAX,
            result.links@.len() <= pos,
            full == render_from(t@, 0, style, base_link_id as nat, *cs),
            result.content@ + render_from(t@, pos as int, style, (base_link_id + result.links@.len()) as nat, *cs).0 == full.0,
            strings_view(result.links@) + render_from(t@, pos as int, style, (base_link_id + result.links@.len()) as nat, *cs).1 == full.1,
        ensures
            pos == len,
        decreases len - pos,
    {
        let ghost base_now: nat = (base_link_id + result.links@.len()) as nat;
        let ghost cur = render_from(t@, pos as int, style, base_now, *cs);
        let ghost c0 = result.content@;
        let ghost l0 = strings_view(result.links@);
        proof {
            lemma_leftmost_bounds(t@, pos as int);
        }
        match next_markup(t, pos) {
            None => {
                if pos < len {
                    let tail = sub_string(t, pos, len);
                    result.content.append_styled(tail.as_str(), style);
                }
                proof {
                    assert(result.content@ =~= c0 + cur.0);
                }
                pos = len;
                proof {
                    assert(result.content@ + render_from(t@, pos as int, style, base_now, *cs).0 =~= result.content@);
                    assert(strings_view(result.links@) + render_from(t@, pos as int, style, base_now, *cs).1 =~= strings_view(result.links@));
                    assert(cur.1 =~= Seq::<Seq<char>>::empty());
                    assert(l0 + cur.1 =~= l0);
                }
                break;
            },
            Some(f) => {
                let ghost i = f.start as int;
                let ghost a = f.a as int;
                let ghost b = f.b as int;
                let ghost e = f.end as int;
                if pos < f.start {
                    let gap = sub_string(t, pos, f.start);
                    result.content.append_styled(gap.as_str(), style);
                }
                let ghost gap_spans = if pos < f.start {
                    seq![(t@.subrange(pos as int, i), style)]
                } else {
                    Seq::<(Seq<char>, Style)>::empty()
                };
                assert(result.content@ =~= c0 + gap_spans);
                let ghost c1 = result.content@;
                let ghost links_before = result.links@;
                let mid = render_construct(t, f, style, base_link_id + result.links.len(), cs);
                let ghost mv = mid.rendered();
                result.merge(mid);
                proof {
                    assert(result.content@ =~= c1 + mv.0);
                    assert(strings_view(result.links@) =~= strings_view(links_before) + mv.1);
                    assert(cur.0 =~= gap_spans + mv.0 + render_from(t@, e, style, base_now + mv.1.len(), *cs).0);
                }
                pos = f.end;
                proof {
                    assert(result.content@ + render_from(t@, pos as int, style, (base_link_id + result.links@.len()) as nat, *cs).0 =~= full.0);
                    assert(strings_view(result.links@) + render_from(t@, pos as int, style, (base_link_id + result.links@.len()) as nat, *cs).1 =~= full.1);
                }
            },
        }
    }
    proof {
        assert(render_from(t@, len as int, style, (base_link_id + result.links@.len()) as nat, *cs).0 =~= Seq::<(Seq<char>, Style)>::empty());
        assert(result.content@ =~= full.0);
        assert(strings_view(result.links@) =~= full.1);
    }
    result
}

/// `</p>`, a line feed and `<p>`: what each `<p>` of an item text becomes.
pub open spec fn paragraph_break() -> Seq<char> {
    seq!['<', '/', 'p', '>', '\n', '<', 'p', '>']
}

/// An item text as HTML paragraphs: every `<p>` closes the paragraph
/// before it, and the whole text is wrapped in `<p>`..`</p>`; an empty
/// text stays empty.
pub open spec fn hn_paragraphs(t: Seq<char>) -> Seq<char> {
    if t.len() == 0 {
        Seq::empty()
    } else {
        p_open() + replace_from(t, p_open(), paragraph_break(), 0) + p_close()
    }
}

proof fn lemma_replace_len(t: Seq<char>, pos: int)
    requires
        0 <= pos <= t.len(),
    ensures
        replace_from(t, p_open(), paragraph_break(), pos).len() <= 3 * (t.len() - pos),
    decreases t.len() - pos,
{
    if pos >= t.len() {
    } else if occurs_at(t, p_open(), pos) {
        lemma_replace_len(t, pos + 3);
    } else {
        lemma_replace_len(t, pos + 1);
    }
}

/// Renders a Hacker News item text (HTML) in `style`, numbering its links
/// after `base_link_id`; `<p>` tags mark paragraph breaks.
pub fn parse_hn_html_text(text: String, style: Style, base_link_id: usize, cs: &ComponentStyle) -> (res: HTMLTextParsedResult)
    requires
        base_link_id + 3 * text@.len() + 7 <= usize::MAX,
    ensures
        res.rendered() == render_from(hn_paragraphs(text@), 0, style, base_link_id as nat, *cs),
{
    let t = crate::text::chars_of(text.as_str());
    if t.len() == 0 {
        let empty: Vec<char> = Vec::new();
        assert(empty@ =~= hn_paragraphs(text@));
        return parse(&empty, style, base_link_id, cs);
    }
    let open = vec!['<', 'p', '>'];
    let rep = vec!['<', '/', 'p', '>', '\n', '<', 'p', '>'];
    assert(open@ =~= p_open());
    assert(rep@ =~= paragraph_break());
    let body = replace_chars(&t, &open, &rep);
    proof {
        lemma_replace_len(t@, 0);
    }
    let mut w: Vec<char> = vec!['<', 'p', '>'];
    let mut k: usize = 0;
    while k < body.len()
        invariant
            k <= body@.len(),
            w@ == p_open() + body@.take(k as int),
        decreases body.len() - k,
    {
        w.push(body[k]);
        k += 1;
        assert(w@ =~= p_open() + body@.take(k as int));
    }
    w.push('<');
    w.push('/');
    w.push('p');
    w.push('>');
    assert(body@.take(body@.len() as int) =~= body@);
    assert(w@ =~= hn_paragraphs(text@));
    parse(&w, style, base_link_id, cs)
}


proof fn lemma_replace_skips_text_without_first(s: Seq<char>, p: Seq<char>, r: Seq<char>, i: int)
    requires
        p.len() > 0,
        0 <= i <= s.len(),
        forall|j: int| 0 <= j < s.len() ==> s[j] != p[0],
    ensures
        replace_from(s, p, r, i) == s.subrange(i, s.len() as int),
    decreases s.len() - i,
{
    if i < s.len() {
        if occurs_at(s, p, i) {
            assert(s.subrange(i, i + p.len())[0] == s[i]);
        }
        lemma_replace_skips_text_without_first(s, p, r, i + 1);
        assert(seq![s[i]] + s.subrange(i + 1, s.len() as int) =~= s.subrange(i, s.len() as int));
    } else {
        assert(s.subrange(i, s.len() as int) =~= Seq::<char>::empty());
    }
}

/// Text without `<` and backticks holds no markup.
proof fn lemma_no_markup(x: Seq<char>, from: int)
    requires
        0 <= from,
        forall|j: int| 0 <= j < x.len() ==> x[j] != '<' && x[j] != '`',
    ensures
        leftmost(x, from) is None,
    decreases x.len() - from,
{
    if from < x.len() {
        assert forall|p: Seq<char>| p.len() > 0 && p[0] == '<' implies !occurs_at(x, p, from) by {
            if occurs_at(x, p, from) {
                assert(x.subrange(from, from + p.len())[0] == x[from]);
            }
        }
        assert(!occurs_at(x, p_open(), from));
        assert(!occurs_at(x, crate::markup::i_open(), from));
        assert(!occurs_at(x, crate::markup::pre_open(), from));
        assert(!occurs_at(x, crate::markup::a_open(), from));
        assert(crate::markup::match_at(x, from) is None);
        lemma_no_markup(x, from + 1);
    }
}

proof fn lemma_quote_run_end(t: Seq<char>, j: int, end: int)
    requires
        0 <= j <= end <= t.len(),
        forall|k: int| j <= k < end ==> t[k] == '>' || t[k] == ' ',
        end < t.len() ==> t[end] != '>' && t[end] != ' ',
    ensures
        crate::markup::quote_run_end(t, j) == end,
    decreases end - j,
{
    if j < end {
        lemma_quote_run_end(t, j + 1, end);
    }
}

proof fn lemma_find_from_at(t: Seq<char>, p: Seq<char>, j: int, k: int)
    requires
        0 <= j <= k,
        p.len() > 0,
        occurs_at(t, p, k),
        forall|m: int| j <= m < k ==> !occurs_at(t, p, m),
    ensures
        crate::markup::find_from(t, p, j) == k,
    decreases k - j,
{
    if j < k {
        lemma_find_from_at(t, p, j + 1, k);
    }
}

proof fn lemma_source_one(x: Seq<char>, st: Style)
    ensures
        crate::styled::source_of(seq![(x, st)]) == x,
{
    let e = Seq::<(Seq<char>, Style)>::empty();
    assert(crate::styled::source_of(e) == Seq::<char>::empty());
    assert(seq![(x, st)].drop_last() =~= e);
    assert(Seq::<char>::empty() + x =~= x);
}

/// The item text of quote marks and plain text, as paragraphs, is one
/// quoted paragraph.
proof fn lemma_quote_paragraph(q: Seq<char>, x: Seq<char>)
    requires
        q.len() > 0,
        q[0] == '>',
        forall|j: int| 0 <= j < q.len() ==> q[j] == '>' || q[j] == ' ',
        forall|j: int| 0 <= j < x.len() ==> x[j] != '<' && x[j] != '`',
        x.len() > 0 ==> x[0] != '>' && x[0] != ' ',
    ensures
        ({
            let t = hn_paragraphs(q + x);
            let a: int = 3 + q.len() as int;
            let b: int = a + x.len();
            &&& t == p_open() + (q + x) + p_close()
            &&& t.len() == b + 4
            &&& leftmost(t, 0) == Some((0int, MarkKind::Quote, a, b, b + 4))
            &&& t.subrange(a, b) == x
            &&& t.subrange(3, a) == q
        }),
{
    let qx = q + x;
    assert forall|j: int| 0 <= j < qx.len() implies qx[j] != p_open()[0] by {
        if j >= q.len() {
            assert(qx[j] == x[j - q.len()]);
        }
    }
    lemma_replace_skips_text_without_first(qx, p_open(), paragraph_break(), 0);
    assert(qx.subrange(0, qx.len() as int) =~= qx);
    let t = p_open() + qx + p_close();
    assert(hn_paragraphs(qx) == t);
    let a: int = 3 + q.len() as int;
    let b: int = a + x.len();
    let e: int = b + 4;
    assert(t.subrange(0, 3) =~= p_open());
    assert(t[3] == '>');
    assert(!occurs_at(t, p_close(), 3)) by {
        if occurs_at(t, p_close(), 3) {
            assert(t.subrange(3, 7)[0] == t[3]);
        }
    }
    assert(crate::markup::match_paragraph(t, 0) is None);
    assert forall|k: int| 3 <= k < a implies t[k] == '>' || t[k] == ' ' by {
        assert(t[k] == q[k - 3]);
    }
    if x.len() > 0 {
        assert(t[a] == x[0]);
    } else {
        assert(t[a] == '<');
    }
    lemma_quote_run_end(t, 3, a);
    assert(t.subrange(b, e) =~= p_close());
    assert forall|m: int| a <= m < b implies !occurs_at(t, p_close(), m) by {
        assert(t[m] == x[m - a]);
        if occurs_at(t, p_close(), m) {
            assert(t.subrange(m, m + 4)[0] == t[m]);
        }
    }
    lemma_find_from_at(t, p_close(), a, b);
    assert(crate::markup::match_quote(t, 0) == Some((a, b, e)));
    assert(crate::markup::match_at(t, 0) == Some((MarkKind::Quote, a, b, e)));
    assert(t.subrange(a, b) =~= x);
    assert(t.subrange(3, a) =~= q);
}

/// A quoting text keeps its words: an item text made of quote marks (`>`
/// and spaces, starting with `>`) and then text without `<` or backticks
/// renders as one bar per `>`, the text itself, and a line break, with no
/// links.
#[verifier::rlimit(40)]
pub proof fn quoted_text_keeps_its_words(q: Seq<char>, x: Seq<char>, style: Style, base: nat, cs: ComponentStyle)
    requires
        q.len() > 0,
        q[0] == '>',
        forall|j: int| 0 <= j < q.len() ==> q[j] == '>' || q[j] == ' ',
        forall|j: int| 0 <= j < x.len() ==> x[j] != '<' && x[j] != '`',
        x.len() > 0 ==> x[0] != '>' && x[0] != ' ',
    ensures
        crate::styled::source_of(render_from(hn_paragraphs(q + x), 0, style, base, cs).0) == bars(
            count_char(q, '>'),
        ) + x + seq!['\n'],
        render_from(hn_paragraphs(q + x), 0, style, base, cs).1 == Seq::<Seq<char>>::empty(),
{
    lemma_quote_paragraph(q, x);
    let t = hn_paragraphs(q + x);
    let a: int = 3 + q.len() as int;
    let b: int = a + x.len();
    let e: int = b + 4;
    lemma_no_markup(x, 0);
    let sub = render_from(x, 0, cs.quote, base, cs);
    let sx: Seq<(Seq<char>, Style)> = if x.len() > 0 {
        seq![(x, cs.quote)]
    } else {
        Seq::empty()
    };
    assert(x.subrange(0, x.len() as int) =~= x);
    assert(sub.0 =~= sx);
    assert(sub.1 =~= Seq::<Seq<char>>::empty());
    let mid = render_mid(t, 0, MarkKind::Quote, a, b, style, base, cs);
    let head = seq![(bars(count_char(q, '>')), style)];
    assert(mid == (head + sx + seq![line_break()], Seq::<Seq<char>>::empty()));
    let rest = render_from(t, e, style, base, cs);
    assert(leftmost(t, e) is None);
    assert(rest == (Seq::<(Seq<char>, Style)>::empty(), Seq::<Seq<char>>::empty()));
    let r = render_from(t, 0, style, base, cs);
    assert(r == (Seq::<(Seq<char>, Style)>::empty() + mid.0 + rest.0, mid.1 + rest.1));
    assert(r.0 =~= head + sx + seq![line_break()]);
    assert(r.1 =~= Seq::<Seq<char>>::empty());
    crate::styled::source_of_concat(head + sx, seq![line_break()]);
    crate::styled::source_of_concat(head, sx);
    lemma_source_one(bars(count_char(q, '>')), style);
    lemma_source_one(seq!['\n'], Style::plain_spec());
    let sxs: Seq<char> = crate::styled::source_of(sx);
    if x.len() > 0 {
        lemma_source_one(x, cs.quote);
    } else {
        assert(sxs == Seq::<char>::empty());
        assert(x =~= Seq::<char>::empty());
    }
    assert(sxs == x);
}

/// A plain item text keeps its words: a text without `<` or backticks,
/// not starting with `>`, renders as itself and a line break, with no
/// links.
#[verifier::rlimit(40)]
pub proof fn plain_text_keeps_its_words(x: Seq<char>, style: Style, base: nat, cs: ComponentStyle)
    requires
        x.len() > 0,
        x[0] != '>',
        forall|j: int| 0 <= j < x.len() ==> x[j] != '<' && x[j] != '`',
    ensures
        crate::styled::source_of(render_from(hn_paragraphs(x), 0, style, base, cs).0) == x + seq!['\n'],
        render_from(hn_paragraphs(x), 0, style, base, cs).1 == Seq::<Seq<char>>::empty(),
{
    lemma_replace_skips_text_without_first(x, p_open(), paragraph_break(), 0);
    assert(x.subrange(0, x.len() as int) =~= x);
    let t = p_open() + x + p_close();
    assert(hn_paragraphs(x) == t);
    let b: int = 3 + x.len() as int;
    let e: int = b + 4;
    assert(t.subrange(0, 3) =~= p_open());
    assert(t[3] == x[0]);
    assert(!occurs_at(t, p_close(), 3)) by {
        if occurs_at(t, p_close(), 3) {
            assert(t.subrange(3, 7)[0] == t[3]);
        }
    }
    assert(t.subrange(b, e) =~= p_close());
    assert forall|m: int| 4 <= m < b implies !occurs_at(t, p_close(), m) by {
        assert(t[m] == x[m - 3]);
        if occurs_at(t, p_close(), m) {
            assert(t.subrange(m, m + 4)[0] == t[m]);
        }
    }
    lemma_find_from_at(t, p_close(), 4, b);
    assert(crate::markup::match_paragraph(t, 0) == Some((3int, b, e)));
    assert(crate::markup::match_at(t, 0) == Some((MarkKind::Paragraph, 3int, b, e)));
    assert(leftmost(t, 0) == Some((0int, MarkKind::Paragraph, 3int, b, e)));
    assert(t.subrange(3, b) =~= x);
    lemma_no_markup(x, 0);
    let sub = render_from(x, 0, style, base, cs);
    assert(sub.0 =~= seq![(x, style)]);
    assert(sub.1 =~= Seq::<Seq<char>>::empty());
    let mid = render_mid(t, 0, MarkKind::Paragraph, 3, b, style, base, cs);
    assert(mid == (seq![(x, style)] + seq![line_break()], Seq::<Seq<char>>::empty()));
    let rest = render_from(t, e, style, base, cs);
    assert(leftmost(t, e) is None);
    assert(rest == (Seq::<(Seq<char>, Style)>::empty(), Seq::<Seq<char>>::empty()));
    let r = render_from(t, 0, style, base, cs);
    assert(r == (Seq::<(Seq<char>, Style)>::empty() + mid.0 + rest.0, mid.1 + rest.1));
    assert(r.0 =~= seq![(x, style)] + seq![line_break()]);
    assert(r.1 =~= Seq::<Seq<char>>::empty());
    crate::styled::source_of_concat(seq![(x, style)], seq![line_break()]);
    lemma_source_one(x, style);
    lemma_source_one(seq!['\n'], Style::plain_spec());
}

} // verus!
