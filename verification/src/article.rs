//! Reader-mode rendering of a web page: the HTML tree of an article is
//! turned into styled text and the list of the links it holds.

use vstd::prelude::*;
use crate::html::{link_marker, link_marker_string, strings_view, HTMLTableParsedResult, HTMLTextParsedResult, Rendered};
use crate::model::Article;
use crate::styled::{source_of, StyledText};
use crate::text::{chars_of, string_of};
use crate::theme::{char_is_whitespace, combine_spec, is_white_space, ComponentStyle, Style};
use crate::utils::{decode_html, html_entities_decoded};
use html5ever::tendril::TendrilSink;

verus! {

/// An attribute of an HTML element: namespace, local name and value.
#[derive(Debug, Clone)]
pub struct DomAttr {
    pub ns: String,
    pub name: String,
    pub value: String,
}

/// What a node of an HTML tree holds.
#[derive(Debug, Clone)]
pub enum DomData {
    /// A run of text.
    Text { text: String },
    /// An element: namespace, local name and attributes.
    Element { ns: String, name: String, attrs: Vec<DomAttr> },
    /// The document itself, a comment, a doctype or a processing
    /// instruction.
    Other,
}

/// A node of an HTML tree with its children in document order.
#[derive(Debug)]
pub struct DomNode {
    pub data: DomData,
    pub children: Vec<DomNode>,
}

/// How the text below a node is laid out: inside `<pre>` or not, whether
/// the next block element is the first of its block, and the prefix of
/// each line.
#[derive(Debug, Clone)]
pub struct ArticleParseArgs {
    pub in_pre_node: bool,
    pub is_first_element_in_block: bool,
    pub prefix: String,
}

/// The layout arguments as values: in `<pre>`, first in block, prefix.
pub type ParseArgsV = (bool, bool, Seq<char>);

impl ArticleParseArgs {
    pub open spec fn view_args(&self) -> ParseArgsV {
        (self.in_pre_node, self.is_first_element_in_block, self.prefix@)
    }

    /// The arguments at the top of a document: not in `<pre>`, first in
    /// block, no prefix.
    pub fn new_default() -> (res: ArticleParseArgs)
        ensures
            res.view_args() == default_args(),
    {
        ArticleParseArgs { in_pre_node: false, is_first_element_in_block: true, prefix: String::new() }
    }
}

/// The arguments at the top of a document or of a table cell.
pub open spec fn default_args() -> ParseArgsV {
    (false, true, Seq::empty())
}

/// The namespace of HTML elements.
pub open spec fn html_ns() -> Seq<char> {
    "http://www.w3.org/1999/xhtml"@
}

/// Whether a node is the HTML element `tag`.
pub open spec fn is_tag(d: DomData, tag: Seq<char>) -> bool {
    match d {
        DomData::Element { ns, name, .. } => ns@ == html_ns() && name@ == tag,
        _ => false,
    }
}

/// The value of the first attribute without namespace named `key`.
pub open spec fn attr_of(attrs: Seq<DomAttr>, key: Seq<char>) -> Option<Seq<char>>
    decreases attrs.len(),
{
    if attrs.len() == 0 {
        None
    } else if attrs[0].ns@.len() == 0 && attrs[0].name@ == key {
        Some(attrs[0].value@)
    } else {
        attr_of(attrs.drop_first(), key)
    }
}

/// The attribute `key` of an element.
pub open spec fn node_attr(d: DomData, key: Seq<char>) -> Option<Seq<char>> {
    match d {
        DomData::Element { attrs, .. } => attr_of(attrs@, key),
        _ => None,
    }
}

/// `t` with `prefix` after each line break.
pub open spec fn expand_newlines(t: Seq<char>, prefix: Seq<char>) -> Seq<char>
    decreases t.len(),
{
    if t.len() == 0 {
        Seq::empty()
    } else {
        expand_newlines(t.drop_last(), prefix) + (if t.last() == '\n' {
            seq!['\n'] + prefix
        } else {
            seq![t.last()]
        })
    }
}

/// `t` with each run of white space replaced by one space.
pub open spec fn collapse_ws(t: Seq<char>) -> Seq<char>
    decreases t.len(),
{
    if t.len() == 0 {
        Seq::empty()
    } else if !is_white_space(t.last()) {
        collapse_ws(t.drop_last()).push(t.last())
    } else if t.len() > 1 && is_white_space(t[t.len() - 2]) {
        collapse_ws(t.drop_last())
    } else {
        collapse_ws(t.drop_last()).push(' ')
    }
}

/// The text a text node shows: line breaks carry the prefix inside
/// `<pre>`, white space runs collapse elsewhere, then entities decode.
pub open spec fn text_shown(raw: Seq<char>, args: ParseArgsV) -> Seq<char> {
    html_entities_decoded(if args.0 { expand_newlines(raw, args.2) } else { collapse_ws(raw) })
}

/// Whether a text holds a character that is not white space.
pub open spec fn has_non_ws(t: Seq<char>) -> bool {
    exists|i: int| 0 <= i < t.len() && !is_white_space(#[trigger] t[i])
}

/// The spans of a text in one style.
pub open spec fn one_span(t: Seq<char>, style: Style) -> Seq<(Seq<char>, Style)> {
    seq![(t, style)]
}

/// Entering a block element: after earlier content, a blank line and the
/// prefix; the next element is then first in its block.
pub open spec fn enter_block(spans: Seq<(Seq<char>, Style)>, style: Style, args: ParseArgsV) -> (
    Seq<(Seq<char>, Style)>,
    ParseArgsV,
) {
    let s = if !args.1 {
        spans.push(("\n\n"@, Style::plain_spec())).push((args.2, style))
    } else {
        spans
    };
    (s, (args.0, true, args.2))
}

/// `a + b` on the machine word, wrapping around past its maximum: link
/// numbers are counted this way.
pub open spec fn wrap_add(a: usize, b: nat) -> usize {
    if a + b > usize::MAX {
        (a + b - (usize::MAX + 1)) as usize
    } else {
        (a + b) as usize
    }
}

/// What a node adds before its children: the rendering so far, the style
/// and arguments of its children, the spans added after them, and whether
/// it holds text that is not white space.
pub open spec fn open_node(d: DomData, base: usize, style: Style, args: ParseArgsV, cs: ComponentStyle) -> (
    Rendered,
    Style,
    ParseArgsV,
    Seq<(Seq<char>, Style)>,
    bool,
) {
    let none: Seq<(Seq<char>, Style)> = Seq::empty();
    let no_links: Seq<Seq<char>> = Seq::empty();
    match d {
        DomData::Text { text } => {
            let t = text_shown(text@, args);
            ((one_span(t, style), no_links), style, args, none, has_non_ws(t))
        },
        DomData::Element { .. } => {
            if is_tag(d, "h1"@) || is_tag(d, "h2"@) || is_tag(d, "h3"@) || is_tag(d, "h4"@) || is_tag(
                d,
                "h5"@,
            ) || is_tag(d, "h6"@) {
                let (s, a) = enter_block(none, style, args);
                ((s, no_links), combine_spec(style, cs.header), a, none, false)
            } else if is_tag(d, "br"@) {
                ((one_span("\n"@ + args.2, style), no_links), style, args, none, false)
            } else if is_tag(d, "p"@) {
                let (s, a) = enter_block(none, style, args);
                ((s, no_links), style, a, none, false)
            } else if is_tag(d, "code"@) {
                let st = if !args.0 { combine_spec(style, cs.single_code_block) } else { style };
                ((none, no_links), st, args, none, false)
            } else if is_tag(d, "pre"@) {
                let (s, a) = enter_block(none, style, args);
                let st = combine_spec(style, cs.multiline_code_block);
                ((s.push(("  "@, st)), no_links), st, (true, a.1, a.2 + "  "@), none, false)
            } else if is_tag(d, "blockquote"@) {
                let (s, a) = enter_block(none, style, args);
                let st = combine_spec(style, cs.quote);
                ((s.push(("▎ "@, st)), no_links), st, (a.0, a.1, a.2 + "▎ "@), none, false)
            } else if is_tag(d, "menu"@) || is_tag(d, "ul"@) || is_tag(d, "ol"@) {
                ((none, no_links), style, (args.0, args.1, args.2 + "  "@), none, false)
            } else if is_tag(d, "li"@) {
                (
                    (one_span("\n"@ + args.2 + "• "@, style), no_links),
                    style,
                    (args.0, true, args.2),
                    none,
                    false,
                )
            } else if is_tag(d, "img"@) {
                let alt = match node_attr(d, "alt"@) {
                    Some(v) => v,
                    None => Seq::empty(),
                };
                let s0 = if !args.1 { none.push(("\n\n"@, Style::plain_spec())) } else { none };
                (
                    (s0.push((alt, style)).push((" (image)"@, cs.metadata)), no_links),
                    style,
                    args,
                    none,
                    false,
                )
            } else if is_tag(d, "a"@) {
                let st = combine_spec(style, cs.link);
                match node_attr(d, "href"@) {
                    Some(href) => (
                        (none, seq![href]),
                        st,
                        args,
                        seq![(" "@, style), (link_marker(wrap_add(base, 1) as nat), cs.link_id)],
                        false,
                    ),
                    None => ((none, no_links), st, args, none, false),
                }
            } else if is_tag(d, "strong"@) {
                ((none, no_links), combine_spec(style, cs.bold), args, none, false)
            } else if is_tag(d, "em"@) {
                ((none, no_links), combine_spec(style, cs.italic), args, none, false)
            } else {
                ((none, no_links), style, args, none, false)
            }
        },
        DomData::Other => ((none, no_links), style, args, none, false),
    }
}

/// What a table walk has gathered: links, header cells, rows of cells,
/// and whether a body cell came before any row.
pub struct TableAcc {
    pub links: Seq<Seq<char>>,
    pub headers: Seq<Seq<(Seq<char>, Style)>>,
    pub rows: Seq<Seq<Seq<(Seq<char>, Style)>>>,
    pub stray: bool,
}

/// Nothing gathered yet.
pub open spec fn empty_acc() -> TableAcc {
    TableAcc { links: Seq::empty(), headers: Seq::empty(), rows: Seq::empty(), stray: false }
}

/// The sources of a list of cells.
pub open spec fn cell_sources(cells: Seq<Seq<(Seq<char>, Style)>>) -> Seq<Seq<char>> {
    cells.map_values(|c: Seq<(Seq<char>, Style)>| source_of(c))
}

/// The sources of the cells of each row.
pub open spec fn row_sources(rows: Seq<Seq<Seq<(Seq<char>, Style)>>>) -> Seq<Seq<Seq<char>>> {
    rows.map_values(|r: Seq<Seq<(Seq<char>, Style)>>| cell_sources(r))
}

/// What `comfy_table` draws for a table with these header cells and rows
/// in dynamic arrangement at this width, in the full UTF-8 preset with
/// round corners and solid inner borders.
pub uninterp spec fn comfy_table_text(headers: Seq<Seq<char>>, rows: Seq<Seq<Seq<char>>>, width: u16) -> Seq<char>;

/// The rendering of the node `n`, whether it holds text that is not white
/// space, and whether a table below it has a body cell before any row.
/// `base` is the number of links before the node.
pub open spec fn node_render(n: DomNode, w: usize, base: usize, style: Style, args: ParseArgsV, cs: ComponentStyle) -> (
    Rendered,
    bool,
    bool,
)
    decreases n, 3int, 0int,
{
    if is_tag(n.data, "table"@) {
        let acc = table_walk(n, w, base, style, false, cs, empty_acc());
        let t = "\n\n"@ + comfy_table_text(cell_sources(acc.headers), row_sources(acc.rows), w as u16);
        ((one_span(t, style), acc.links), true, acc.stray)
    } else {
        let (r0, st, a, suffix, h0) = open_node(n.data, base, style, args, cs);
        let (r, h, s) = children_render(n, 0, w, base, st, a, cs, r0, h0, false);
        ((r.0 + suffix, r.1), h, s)
    }
}

/// The rendering of the children of `n` from the `k`-th on, after `acc`.
pub open spec fn children_render(
    n: DomNode,
    k: int,
    w: usize,
    base: usize,
    style: Style,
    args: ParseArgsV,
    cs: ComponentStyle,
    acc: Rendered,
    h: bool,
    s: bool,
) -> (Rendered, bool, bool)
    decreases n, 2int, n.children@.len() - k,
{
    if k < 0 || k >= n.children@.len() {
        (acc, h, s)
    } else {
        let (cr, ch, cst) = node_render(n.children@[k], w, wrap_add(base, acc.1.len()), style, args, cs);
        let h2 = h || ch;
        let a2 = if h2 { (args.0, false, args.2) } else { args };
        children_render(n, k + 1, w, base, style, a2, cs, (acc.0 + cr.0, acc.1 + cr.1), h2, s || cst)
    }
}

/// The walk of a table below `n`: header state, rows and cells.
pub open spec fn table_walk(
    n: DomNode,
    w: usize,
    base: usize,
    style: Style,
    is_header: bool,
    cs: ComponentStyle,
    acc: TableAcc,
) -> TableAcc
    decreases n, 2int, 0int,
{
    if is_tag(n.data, "td"@) || is_tag(n.data, "th"@) {
        let (cell, links, st) = cell_children(n, 0, w, base, style, cs, Seq::empty(), acc.links, false);
        if is_header {
            TableAcc { links, headers: acc.headers.push(cell), stray: acc.stray || st, ..acc }
        } else if acc.rows.len() == 0 {
            TableAcc { links, stray: true, ..acc }
        } else {
            TableAcc {
                links,
                rows: acc.rows.update(acc.rows.len() - 1, acc.rows.last().push(cell)),
                stray: acc.stray || st,
                ..acc
            }
        }
    } else {
        let hdr = if is_tag(n.data, "thead"@) {
            true
        } else if is_tag(n.data, "tbody"@) {
            false
        } else {
            is_header
        };
        let acc1 = if is_tag(n.data, "tr"@) && !hdr {
            TableAcc { rows: acc.rows.push(Seq::empty()), ..acc }
        } else {
            acc
        };
        table_children(n, 0, w, base, style, hdr, cs, acc1)
    }
}

/// The table walk of the children of `n` from the `k`-th on.
pub open spec fn table_children(
    n: DomNode,
    k: int,
    w: usize,
    base: usize,
    style: Style,
    is_header: bool,
    cs: ComponentStyle,
    acc: TableAcc,
) -> TableAcc
    decreases n, 1int, n.children@.len() - k,
{
    if k < 0 || k >= n.children@.len() {
        acc
    } else {
        let a2 = table_walk(n.children@[k], w, wrap_add(base, acc.links.len()), style, is_header, cs, acc);
        table_children(n, k + 1, w, base, style, is_header, cs, a2)
    }
}

/// The content and links of the children of a table cell from the `k`-th
/// on, and whether a table among them has a body cell before any row.
pub open spec fn cell_children(
    n: DomNode,
    k: int,
    w: usize,
    base: usize,
    style: Style,
    cs: ComponentStyle,
    cell: Seq<(Seq<char>, Style)>,
    links: Seq<Seq<char>>,
    s: bool,
) -> (Seq<(Seq<char>, Style)>, Seq<Seq<char>>, bool)
    decreases n, 1int, n.children@.len() - k,
{
    if k < 0 || k >= n.children@.len() {
        (cell, links, s)
    } else {
        let (cr, _, cst) = node_render(n.children@[k], w, wrap_add(base, links.len()), style, default_args(), cs);
        cell_children(n, k + 1, w, base, style, cs, cell + cr.0, links + cr.1, s || cst)
    }
}

/// `t` with `prefix` after each line break.
fn expand_newlines_exec(t: &Vec<char>, prefix: &Vec<char>) -> (res: Vec<char>)
    ensures
        res@ == expand_newlines(t@, prefix@),
{
    let mut out: Vec<char> = Vec::new();
    let mut k: usize = 0;
    while k < t.len()
        invariant
            k <= t@.len(),
            out@ == expand_newlines(t@.take(k as int), prefix@),
        decreases t@.len() - k,
    {
        assert(t@.take(k as int + 1).drop_last() =~= t@.take(k as int));
        let ghost before = out@;
        if t[k] == '\n' {
            out.push('\n');
            let mut j: usize = 0;
            while j < prefix.len()
                invariant
                    j <= prefix@.len(),
                    out@ == before + seq!['\n'] + prefix@.take(j as int),
                decreases prefix@.len() - j,
            {
                out.push(prefix[j]);
                j += 1;
                assert(out@ =~= before + seq!['\n'] + prefix@.take(j as int));
            }
            assert(prefix@.take(prefix@.len() as int) =~= prefix@);
            assert(out@ =~= before + (seq!['\n'] + prefix@));
        } else {
            out.push(t[k]);
            assert(out@ =~= before + seq![t@[k as int]]);
        }
        k += 1;
    }
    assert(t@.take(t@.len() as int) =~= t@);
    out
}

/// `t` with each run of white space replaced by one space.
fn collapse_ws_exec(t: &Vec<char>) -> (res: Vec<char>)
    ensures
        res@ == collapse_ws(t@),
{
    let mut out: Vec<char> = Vec::new();
    let mut k: usize = 0;
    while k < t.len()
        invariant
            k <= t@.len(),
            out@ == collapse_ws(t@.take(k as int)),
        decreases t@.len() - k,
    {
        assert(t@.take(k as int + 1).drop_last() =~= t@.take(k as int));
        let c = t[k];
        if !char_is_whitespace(c) {
            out.push(c);
        } else if k > 0 && char_is_whitespace(t[k - 1]) {
        } else {
            out.push(' ');
        }
        k += 1;
    }
    assert(t@.take(t@.len() as int) =~= t@);
    out
}

/// Whether a text holds a character that is not white space.
fn has_non_ws_exec(t: &Vec<char>) -> (res: bool)
    ensures
        res == has_non_ws(t@),
{
    let mut k: usize = 0;
    while k < t.len()
        invariant
            k <= t@.len(),
            forall|i: int| 0 <= i < k ==> is_white_space(#[trigger] t@[i]),
        decreases t@.len() - k,
    {
        if !char_is_whitespace(t[k]) {
            assert(!is_white_space(t@[k as int]));
            return true;
        }
        k += 1;
    }
    false
}

/// Whether a node is the HTML element `tag`.
fn tag_is(d: &DomData, tag: &str) -> (res: bool)
    ensures
        res == is_tag(*d, tag@),
{
    match d {
        DomData::Element { ns, name, .. } => crate::query::str_eq(ns.as_str(), "http://www.w3.org/1999/xhtml")
            && crate::query::str_eq(name.as_str(), tag),
        _ => false,
    }
}

/// The value of the first attribute without namespace named `key`.
fn find_attr(d: &DomData, key: &str) -> (res: Option<String>)
    ensures
        match res {
            Some(v) => node_attr(*d, key@) == Some(v@),
            None => node_attr(*d, key@) is None,
        },
{
    match d {
        DomData::Element { attrs, .. } => {
            let mut k: usize = 0;
            assert(node_attr(*d, key@) == attr_of(attrs@, key@));
            assert(attrs@.subrange(0, attrs@.len() as int) =~= attrs@);
            while k < attrs.len()
                invariant
                    k <= attrs@.len(),
                    node_attr(*d, key@) == attr_of(attrs@, key@),
                    attr_of(attrs@, key@) == attr_of(attrs@.subrange(k as int, attrs@.len() as int), key@),
                decreases attrs@.len() - k,
            {
                let ghost rest = attrs@.subrange(k as int, attrs@.len() as int);
                assert(rest.drop_first() =~= attrs@.subrange(k as int + 1, attrs@.len() as int));
                assert(rest[0] == attrs@[k as int]);
                if attrs[k].ns.as_str().is_empty() && crate::query::str_eq(attrs[k].name.as_str(), key) {
                    let v = attrs[k].value.clone();
                    assert(rest.len() > 0 && rest[0].ns@.len() == 0 && rest[0].name@ == key@);
                    assert(attr_of(rest, key@) == Some(rest[0].value@));
                    return Some(v);
                }
                k += 1;
            }
            None
        },
        _ => None,
    }
}

/// Entering a block element: after earlier content, a blank line and the
/// prefix; the next element is then first in its block.
fn enter_block_exec(content: &mut StyledText, style: Style, a: &mut ArticleParseArgs)
    ensures
        (final(content)@, final(a).view_args()) == enter_block(old(content)@, style, old(a).view_args()),
{
    if !a.is_first_element_in_block {
        content.append_plain("\n\n");
        content.append_styled(a.prefix.as_str(), style);
    }
    a.is_first_element_in_block = true;
}

/// What a node adds before its children (see `open_node`).
fn open_node_exec(d: &DomData, base: usize, style: Style, args: &ArticleParseArgs, cs: &ComponentStyle) -> (res: (
    HTMLTextParsedResult,
    Style,
    ArticleParseArgs,
    StyledText,
    bool,
))
    ensures
        ({
            let o = open_node(*d, base, style, args.view_args(), *cs);
            &&& res.0.content@ == o.0.0
            &&& strings_view(res.0.links@) == o.0.1
            &&& res.1 == o.1
            &&& res.2.view_args() == o.2
            &&& res.3@ == o.3
            &&& res.4 == o.4
        }),
{
    let mut content = StyledText::new();
    let mut links: Vec<String> = Vec::new();
    let mut suffix = StyledText::new();
    let mut st = style;
    let mut a = ArticleParseArgs {
        in_pre_node: args.in_pre_node,
        is_first_element_in_block: args.is_first_element_in_block,
        prefix: args.prefix.clone(),
    };
    let mut hnw = false;
    let ghost none: Seq<(Seq<char>, Style)> = Seq::empty();
    match d {
        DomData::Text { text } => {
            let raw = chars_of(text.as_str());
            let shaped = if args.in_pre_node {
                let p = chars_of(args.prefix.as_str());
                expand_newlines_exec(&raw, &p)
            } else {
                collapse_ws_exec(&raw)
            };
            let shaped_s = string_of(shaped.as_slice());
            let t = decode_html(shaped_s.as_str());
            let tc = chars_of(t.as_str());
            hnw = has_non_ws_exec(&tc);
            content.append_styled(t.as_str(), style);
            assert(content@ =~= one_span(t@, style));
        },
        DomData::Element { .. } => {
            if tag_is(d, "h1") || tag_is(d, "h2") || tag_is(d, "h3") || tag_is(d, "h4") || tag_is(d, "h5")
                || tag_is(d, "h6") {
                enter_block_exec(&mut content, style, &mut a);
                st = style.combine(cs.header);
            } else if tag_is(d, "br") {
                let mut t = String::from_str("\n");
                t.append(args.prefix.as_str());
                content.append_styled(t.as_str(), style);
                assert(content@ =~= one_span("\n"@ + args.prefix@, style));
            } else if tag_is(d, "p") {
                enter_block_exec(&mut content, style, &mut a);
            } else if tag_is(d, "code") {
                if !args.in_pre_node {
                    st = style.combine(cs.single_code_block);
                }
            } else if tag_is(d, "pre") {
                enter_block_exec(&mut content, style, &mut a);
                a.in_pre_node = true;
                a.prefix.append("  ");
                st = style.combine(cs.multiline_code_block);
                content.append_styled("  ", st);
            } else if tag_is(d, "blockquote") {
                enter_block_exec(&mut content, style, &mut a);
                a.prefix.append("▎ ");
                st = style.combine(cs.quote);
                content.append_styled("▎ ", st);
            } else if tag_is(d, "menu") || tag_is(d, "ul") || tag_is(d, "ol") {
                a.prefix.append("  ");
            } else if tag_is(d, "li") {
                a.is_first_element_in_block = true;
                let mut t = String::from_str("\n");
                t.append(args.prefix.as_str());
                t.append("• ");
                content.append_styled(t.as_str(), style);
                assert(content@ =~= one_span("\n"@ + args.prefix@ + "• "@, style));
            } else if tag_is(d, "img") {
                let alt = match find_attr(d, "alt") {
                    Some(v) => v,
                    None => String::new(),
                };
                if !args.is_first_element_in_block {
                    content.append_plain("\n\n");
                }
                content.append_styled(alt.as_str(), style);
                content.append_styled(" (image)", cs.metadata);
            } else if tag_is(d, "a") {
                match find_attr(d, "href") {
                    Some(href) => {
                        links.push(href);
                        suffix.append_styled(" ", style);
                        let marker = link_marker_string(base.wrapping_add(1));
                        suffix.append_styled(marker.as_str(), cs.link_id);
                        assert(suffix@ =~= seq![(" "@, style), (link_marker(wrap_add(base, 1) as nat), cs.link_id)]);
                    },
                    None => {},
                }
                st = style.combine(cs.link);
            } else if tag_is(d, "strong") {
                st = style.combine(cs.bold);
            } else if tag_is(d, "em") {
                st = style.combine(cs.italic);
            }
        },
        DomData::Other => {},
    }
    proof {
        let o = open_node(*d, base, style, args.view_args(), *cs);
        assert(strings_view(links@) =~= o.0.1);
    }
    (HTMLTextParsedResult { content, links }, st, a, suffix, hnw)
}

/// The cells of a list as spans.
pub open spec fn cells_view(cells: Seq<StyledText>) -> Seq<Seq<(Seq<char>, Style)>> {
    cells.map_values(|c: StyledText| c@)
}

/// The cells of each row as spans.
pub open spec fn rows_view(rows: Seq<Vec<StyledText>>) -> Seq<Seq<Seq<(Seq<char>, Style)>>> {
    rows.map_values(|r: Vec<StyledText>| cells_view(r@))
}

/// What a table result and the misplaced-cell flag hold, as values.
pub open spec fn acc_of(r: HTMLTableParsedResult, stray: bool) -> TableAcc {
    TableAcc { links: strings_view(r.links@), headers: cells_view(r.headers@), rows: rows_view(r.rows@), stray }
}

/// The sources of a list of cells.
fn sources_of(cells: &Vec<StyledText>) -> (res: Vec<String>)
    ensures
        res.deep_view() == cell_sources(cells_view(cells@)),
{
    let mut out: Vec<String> = Vec::new();
    let mut k: usize = 0;
    while k < cells.len()
        invariant
            k <= cells@.len(),
            out@.len() == k,
            forall|i: int| 0 <= i < k ==> #[trigger] out@[i]@ == source_of(cells@[i]@),
        decreases cells@.len() - k,
    {
        let s = cells[k].source();
        out.push(s);
        k += 1;
    }
    assert(out.deep_view() =~= cell_sources(cells_view(cells@)));
    out
}

/// The sources of the cells of each row.
fn row_sources_of(rows: &Vec<Vec<StyledText>>) -> (res: Vec<Vec<String>>)
    ensures
        res.deep_view() == row_sources(rows_view(rows@)),
{
    let mut out: Vec<Vec<String>> = Vec::new();
    let mut k: usize = 0;
    while k < rows.len()
        invariant
            k <= rows@.len(),
            out@.len() == k,
            forall|i: int| 0 <= i < k ==> #[trigger] out@[i].deep_view() == cell_sources(cells_view(rows@[i]@)),
        decreases rows@.len() - k,
    {
        let s = sources_of(&rows[k]);
        out.push(s);
        k += 1;
    }
    assert(out.deep_view() =~= row_sources(rows_view(rows@)));
    out
}

/// Walks a table below `node`, gathering header cells, rows of cells
/// and links into `result` (see `table_walk`). A body cell met before any
/// row is dropped and raises `stray`.
fn parse_html_table(
    node: &DomNode,
    max_width: usize,
    base_link_id: usize,
    style: Style,
    is_header: bool,
    cs: &ComponentStyle,
    result: &mut HTMLTableParsedResult,
    stray: &mut bool,
)
    ensures
        acc_of(*final(result), *final(stray)) == table_walk(
            *node,
            max_width,
            base_link_id,
            style,
            is_header,
            *cs,
            acc_of(*old(result), *old(stray)),
        ),
    decreases *node, 2int, 0int,
{
    if tag_is(&node.data, "td") || tag_is(&node.data, "th") {
        let mut s = StyledText::new();
        let mut cell_stray = false;
        let ghost links0 = strings_view(result.links@);
        let ghost headers0 = result.headers@;
        let ghost rows0 = result.rows@;
        let mut k: usize = 0;
        while k < node.children.len()
            invariant
                k <= node.children@.len(),
                result.headers@ == headers0,
                result.rows@ == rows0,
                cell_children(*node, 0, max_width, base_link_id, style, *cs, Seq::empty(), links0, false)
                    == cell_children(
                    *node,
                    k as int,
                    max_width,
                    base_link_id,
                    style,
                    *cs,
                    s@,
                    strings_view(result.links@),
                    cell_stray,
                ),
            decreases node.children@.len() - k,
        {
            let (cr, _, cst) = parse_dom_node(
                &node.children[k],
                max_width,
                base_link_id.wrapping_add(result.links.len()),
                style,
                ArticleParseArgs::new_default(),
                cs,
            );
            let mut cr = cr;
            let ghost l_old = result.links@;
            let ghost l_new = cr.links@;
            result.links.append(&mut cr.links);
            assert(strings_view(result.links@) =~= strings_view(l_old) + strings_view(l_new));
            s.append(cr.content);
            cell_stray = cell_stray || cst;
            k += 1;
        }
        if is_header {
            let ghost h_old = result.headers@;
            result.headers.push(s);
            assert(cells_view(result.headers@) =~= cells_view(h_old).push(s@));
            *stray = *stray || cell_stray;
        } else if result.rows.len() == 0 {
            *stray = true;
        } else {
            let ghost r_old = result.rows@;
            let mut row = result.rows.pop().unwrap();
            let ghost row_old = row@;
            row.push(s);
            assert(cells_view(row@) =~= cells_view(row_old).push(s@));
            result.rows.push(row);
            assert(rows_view(result.rows@) =~~= rows_view(r_old).update(
                r_old.len() - 1,
                rows_view(r_old).last().push(s@),
            ));
            *stray = *stray || cell_stray;
        }
        return;
    }
    let hdr = if tag_is(&node.data, "thead") {
        true
    } else if tag_is(&node.data, "tbody") {
        false
    } else {
        is_header
    };
    if tag_is(&node.data, "tr") && !hdr {
        let ghost r_old = result.rows@;
        result.rows.push(Vec::new());
        assert(rows_view(result.rows@) =~~= rows_view(r_old).push(Seq::empty()));
    }
    let ghost acc1 = acc_of(*result, *stray);
    let mut k: usize = 0;
    while k < node.children.len()
        invariant
            k <= node.children@.len(),
            table_children(*node, 0, max_width, base_link_id, style, hdr, *cs, acc1) == table_children(
                *node,
                k as int,
                max_width,
                base_link_id,
                style,
                hdr,
                *cs,
                acc_of(*result, *stray),
            ),
        decreases node.children@.len() - k,
    {
        parse_html_table(
            &node.children[k],
            max_width,
            base_link_id.wrapping_add(result.links.len()),
            style,
            hdr,
            cs,
            result,
            stray,
        );
        k += 1;
    }
}

/// Renders a node of an article's HTML tree: its content, its links,
/// whether it holds text that is not white space, and whether a table
/// below it has a body cell before any row (see `node_render`).
pub fn parse_dom_node(
    node: &DomNode,
    max_width: usize,
    base_link_id: usize,
    style: Style,
    args: ArticleParseArgs,
    cs: &ComponentStyle,
) -> (res: (HTMLTextParsedResult, bool, bool))
    ensures
        ({
            let r = node_render(*node, max_width, base_link_id, style, args.view_args(), *cs);
            &&& res.0.content@ == r.0.0
            &&& strings_view(res.0.links@) == r.0.1
            &&& res.1 == r.1
            &&& res.2 == r.2
        }),
    decreases *node, 3int, 0int,
{
    if tag_is(&node.data, "table") {
        let mut tr = HTMLTableParsedResult { links: Vec::new(), headers: Vec::new(), rows: Vec::new() };
        let mut stray = false;
        assert(strings_view(tr.links@) =~= Seq::<Seq<char>>::empty());
        assert(cells_view(tr.headers@) =~= Seq::<Seq<(Seq<char>, Style)>>::empty());
        assert(rows_view(tr.rows@) =~= Seq::<Seq<Seq<(Seq<char>, Style)>>>::empty());
        assert(acc_of(tr, stray) == empty_acc());
        parse_html_table(node, max_width, base_link_id, style, false, cs, &mut tr, &mut stray);
        let headers = sources_of(&tr.headers);
        let rows = row_sources_of(&tr.rows);
        let drawn = draw_table(&headers, &rows, #[verifier::truncate] (max_width as u16));
        let mut t = String::from_str("\n\n");
        t.append(drawn.as_str());
        let mut content = StyledText::new();
        content.append_styled(t.as_str(), style);
        assert(content@ =~= one_span(t@, style));
        return (HTMLTextParsedResult { content, links: tr.links }, true, stray);
    }
    let (result, st, a, suffix, hnw) = open_node_exec(&node.data, base_link_id, style, &args, cs);
    let mut result = result;
    let mut a = a;
    let mut hnw = hnw;
    let mut stray = false;
    let ghost r0 = (result.content@, strings_view(result.links@));
    let ghost a0 = a.view_args();
    let ghost h0 = hnw;
    let mut k: usize = 0;
    while k < node.children.len()
        invariant
            k <= node.children@.len(),
            children_render(*node, 0, max_width, base_link_id, st, a0, *cs, r0, h0, false) == children_render(
                *node,
                k as int,
                max_width,
                base_link_id,
                st,
                a.view_args(),
                *cs,
                (result.content@, strings_view(result.links@)),
                hnw,
                stray,
            ),
        decreases node.children@.len() - k,
    {
        let child_args = ArticleParseArgs {
            in_pre_node: a.in_pre_node,
            is_first_element_in_block: a.is_first_element_in_block,
            prefix: a.prefix.clone(),
        };
        let (cr, ch, cst) = parse_dom_node(
            &node.children[k],
            max_width,
            base_link_id.wrapping_add(result.links.len()),
            st,
            child_args,
            cs,
        );
        let ghost l_old = result.links@;
        let ghost l_new = cr.links@;
        result.merge(cr);
        assert(strings_view(result.links@) =~= strings_view(l_old) + strings_view(l_new));
        hnw = hnw || ch;
        stray = stray || cst;
        if hnw {
            a.is_first_element_in_block = false;
        }
        k += 1;
    }
    result.content.append(suffix);
    (result, hnw, stray)
}

/// Draws a table with `comfy_table`: header cells, rows of cells, the
/// dynamic arrangement at `width`, the full UTF-8 preset with round
/// corners and solid inner borders. Trusted: the result is the drawing
/// that `comfy_table_text` names; nothing more is claimed of it.
#[verifier::external_body]
fn draw_table(headers: &Vec<String>, rows: &Vec<Vec<String>>, width: u16) -> (res: String)
    ensures
        res@ == comfy_table_text(headers.deep_view(), rows.deep_view(), width),
{
    let mut table = comfy_table::Table::new();
    table
        .set_content_arrangement(comfy_table::ContentArrangement::Dynamic)
        .set_width(width)
        .load_style(comfy_table::presets::UTF8_FULL.with_rounded_corners().with_solid_inner_borders())
        .set_header(headers.iter().map(|h| comfy_table::Cell::new(h)).collect::<Vec<_>>());
    for row in rows {
        table.add_row(row.iter().map(|c| c.to_owned()).collect::<Vec<_>>());
    }
    table.to_string()
}

/// The declaration of `markup5ever_rcdom`'s node type, which the tree
/// copy below reads.
#[verifier::external_type_specification]
#[verifier::external_body]
pub struct ExRcDomNode(markup5ever_rcdom::Node);

/// The tree that `html5ever` builds into an `RcDom` when it parses
/// `content` as an HTML document, copied node for node, or `None` when
/// reading the input fails.
pub uninterp spec fn html_document_tree(content: Seq<char>) -> Option<DomNode>;

/// Parses an HTML document with `html5ever::parse_document` into a
/// `markup5ever_rcdom::RcDom` and copies the tree. Trusted: the result is
/// the tree that `html_document_tree` names; nothing more is claimed.
#[verifier::external_body]
fn parse_html_document(content: &str) -> (res: Option<DomNode>)
    ensures
        res == html_document_tree(content@),
{
    html5ever::parse_document(markup5ever_rcdom::RcDom::default(), Default::default())
        .from_utf8()
        .read_from(&mut content.as_bytes())
        .ok()
        .map(|dom| copy_tree(&dom.document))
}

/// Copies an `RcDom` node and its children into this crate's nodes: the
/// text of a text node, the namespace, name and attributes of an
/// element, nothing of any other node.
#[verifier::external_body]
fn copy_tree(h: &markup5ever_rcdom::Node) -> DomNode {
    let children = h.children.borrow().iter().map(|c| copy_tree(c)).collect();
    let data = match &h.data {
        markup5ever_rcdom::NodeData::Text { contents } => DomData::Text { text: contents.borrow().to_string() },
        markup5ever_rcdom::NodeData::Element { name, attrs, .. } => DomData::Element {
            ns: name.ns.to_string(),
            name: name.local.to_string(),
            attrs: attrs.borrow().iter().map(|a| DomAttr {
                ns: a.name.ns.to_string(), name: a.name.local.to_string(), value: a.value.to_string() }).collect(),
        },
        _ => DomData::Other,
    };
    DomNode { data, children }
}

/// Whether `url::Url::parse` accepts a text.
pub uninterp spec fn url_parses(s: Seq<char>) -> bool;

/// The text of the URL that `url::Url::join` makes of `rel` against the
/// parsed `base`, or `None` when `base` does not parse or the join fails.
pub uninterp spec fn url_joined(base: Seq<char>, rel: Seq<char>) -> Option<Seq<char>>;

/// Whether a text parses as a URL (`url::Url::parse(s).is_ok()`).
/// Trusted: the result is the one `url_parses` names.
#[verifier::external_body]
fn parses_as_url(s: &str) -> (res: bool)
    ensures
        res == url_parses(s@),
{
    url::Url::parse(s).is_ok()
}

/// Joins a relative link to a base URL (`url::Url::parse`, then
/// `Url::join`, then `to_string`). Trusted: the result is the one
/// `url_joined` names.
#[verifier::external_body]
fn join_url(base: &str, rel: &str) -> (res: Option<String>)
    ensures
        match res {
            Some(u) => url_joined(base@, rel@) == Some(u@),
            None => url_joined(base@, rel@) is None,
        },
{
    url::Url::parse(base).ok()?.join(rel).ok().map(|u| u.to_string())
}

/// A link as the article shows it: kept when it parses as a URL, else
/// joined to the article's URL when that succeeds, else kept.
pub open spec fn resolved_link(base: Seq<char>, l: Seq<char>) -> Seq<char> {
    if url_parses(l) {
        l
    } else {
        match url_joined(base, l) {
            Some(u) => u,
            None => l,
        }
    }
}

/// The links of an article resolved against its URL.
pub open spec fn resolved_links(base: Seq<char>, links: Seq<Seq<char>>) -> Seq<Seq<char>> {
    links.map_values(|l: Seq<char>| resolved_link(base, l))
}

/// The rendering of an article's HTML tree at a width, from the top of
/// the document.
pub open spec fn document_render(doc: DomNode, max_width: usize, cs: ComponentStyle) -> (Rendered, bool, bool) {
    node_render(doc, max_width, 0, Style::plain_spec(), default_args(), cs)
}

/// Whether an article can be rendered: its tree, if it reads, has no body
/// cell before any row of a table, and each of its links either parses
/// as a URL or the article's own URL does.
pub open spec fn article_renders(a: Article, max_width: usize, cs: ComponentStyle) -> bool {
    match html_document_tree(a.content@) {
        None => true,
        Some(doc) => {
            let r = document_render(doc, max_width, cs);
            &&& !r.2
            &&& forall|i: int| 0 <= i < r.0.1.len() ==> url_parses(#[trigger] r.0.1[i]) || url_parses(a.url@)
        },
    }
}

/// Resolves each link against the article's URL.
fn resolve_links(base: &str, links: Vec<String>) -> (res: Vec<String>)
    requires
        forall|i: int| 0 <= i < links@.len() ==> url_parses(#[trigger] links@[i]@) || url_parses(base@),
    ensures
        strings_view(res@) == resolved_links(base@, strings_view(links@)),
{
    let mut out: Vec<String> = Vec::new();
    let mut k: usize = 0;
    while k < links.len()
        invariant
            k <= links@.len(),
            out@.len() == k,
            forall|i: int| 0 <= i < k ==> #[trigger] out@[i]@ == resolved_link(base@, links@[i]@),
        decreases links@.len() - k,
    {
        let l = links[k].as_str();
        let r = if parses_as_url(l) {
            String::from_str(l)
        } else {
            match join_url(base, l) {
                Some(u) => u,
                None => String::from_str(l),
            }
        };
        out.push(r);
        k += 1;
    }
    assert(strings_view(out@) =~= resolved_links(base@, strings_view(links@)));
    out
}

impl Article {
    /// Parses the article's HTML content at a width: its rendering and its
    /// links resolved against the article's URL; an error when the content
    /// cannot be read.
    pub fn parse(&self, max_width: usize, cs: &ComponentStyle) -> (res: Result<HTMLTextParsedResult, String>)
        requires
            article_renders(*self, max_width, *cs),
        ensures
            match html_document_tree(self.content@) {
                None => res is Err,
                Some(doc) => match res {
                    Ok(r) => {
                        &&& r.content@ == document_render(doc, max_width, *cs).0.0
                        &&& strings_view(r.links@) == resolved_links(self.url@, document_render(doc, max_width, *cs).0.1)
                    },
                    Err(_) => false,
                },
            },
    {
        let doc = match parse_html_document(self.content.as_str()) {
            Some(d) => d,
            None => {
                return Err(String::from_str("failed to read the article's HTML content"));
            },
        };
        let (result, _, _) = parse_dom_node(&doc, max_width, 0, Style::plain(), ArticleParseArgs::new_default(), cs);
        let HTMLTextParsedResult { content, links } = result;
        proof {
            assert forall|i: int| 0 <= i < links@.len() implies url_parses(#[trigger] links@[i]@) || url_parses(
                self.url@,
            ) by {
                assert(strings_view(links@)[i] == links@[i]@);
            }
        }
        let links = resolve_links(self.url.as_str(), links);
        Ok(HTMLTextParsedResult { content, links })
    }

    /// Parses the article's HTML content at a width as `parse` does, where
    /// rendering can go through; `None` where it cannot (a table cell
    /// outside any row, or a link that is no URL while the article's URL
    /// is none either).
    pub fn try_parse(&self, max_width: usize, cs: &ComponentStyle) -> (res: Option<Result<HTMLTextParsedResult, String>>)
        ensures
            res is None <==> !article_renders(*self, max_width, *cs),
            match res {
                Some(r) => match html_document_tree(self.content@) {
                    None => r is Err,
                    Some(doc) => match r {
                        Ok(p) => {
                            &&& p.content@ == document_render(doc, max_width, *cs).0.0
                            &&& strings_view(p.links@) == resolved_links(
                                self.url@,
                                document_render(doc, max_width, *cs).0.1,
                            )
                        },
                        Err(_) => false,
                    },
                },
                None => true,
            },
    {
        let doc = match parse_html_document(self.content.as_str()) {
            Some(d) => d,
            None => {
                return Some(Err(String::from_str("failed to read the article's HTML content")));
            },
        };
        let (result, _, stray) = parse_dom_node(&doc, max_width, 0, Style::plain(), ArticleParseArgs::new_default(), cs);
        if stray {
            return None;
        }
        let base_ok = parses_as_url(self.url.as_str());
        let mut k: usize = 0;
        while k < result.links.len()
            invariant
                k <= result.links@.len(),
                forall|i: int| 0 <= i < k ==> url_parses(#[trigger] result.links@[i]@) || base_ok,
                html_document_tree(self.content@) == Some(doc),
                strings_view(result.links@) == document_render(doc, max_width, *cs).0.1,
                !document_render(doc, max_width, *cs).2,
                base_ok == url_parses(self.url@),
            decreases result.links@.len() - k,
        {
            if !base_ok && !parses_as_url(result.links[k].as_str()) {
                let ghost r = document_render(doc, max_width, *cs);
                assert(r.0.1[k as int] == result.links@[k as int]@);
                assert(!(url_parses(r.0.1[k as int]) || url_parses(self.url@)));
                return None;
            }
            k += 1;
        }
        proof {
            let r = document_render(doc, max_width, *cs);
            assert forall|i: int| 0 <= i < r.0.1.len() implies url_parses(#[trigger] r.0.1[i]) || url_parses(
                self.url@,
            ) by {
                assert(r.0.1[i] == result.links@[i]@);
            }
        }
        let HTMLTextParsedResult { content, links } = result;
        proof {
            assert forall|i: int| 0 <= i < links@.len() implies url_parses(#[trigger] links@[i]@) || url_parses(
                self.url@,
            ) by {
                assert(strings_view(links@)[i] == links@[i]@);
            }
        }
        let links = resolve_links(self.url.as_str(), links);
        Some(Ok(HTMLTextParsedResult { content, links }))
    }
}

/// A text that may be missing, as its characters.
pub open spec fn opt_text(o: Option<String>) -> Option<Seq<char>> {
    match o {
        Some(t) => Some(t@),
        None => None,
    }
}

/// What reader mode (`readable_readability`) extracts from a page's HTML
/// fetched from `url`: the article's HTML, the page title, the article
/// title and the byline; `None` when the URL does not parse or the
/// extracted nodes cannot be written out as text.
pub uninterp spec fn reader_mode(html: Seq<char>, url: Seq<char>) -> Option<
    (Seq<char>, Option<Seq<char>>, Option<Seq<char>>, Option<Seq<char>>),
>;

/// Extracts the article of a page in reader mode
/// (`readable_readability::Readability::parse` with the page's URL as
/// base, then `NodeRef::serialize`). Trusted: the result is the one
/// `reader_mode` names.
#[verifier::external_body]
fn readability_extract(html: &str, url: &str) -> (res: Option<(String, Option<String>, Option<String>, Option<String>)>)
    ensures
        match res {
            Some(r) => reader_mode(html@, url@) == Some((r.0@, opt_text(r.1), opt_text(r.2), opt_text(r.3))),
            None => reader_mode(html@, url@) is None,
        },
{
    let base = url::Url::parse(url).ok()?;
    let (nodes, metadata) = readable_readability::Readability::new().base_url(base).parse(html);
    let mut text = Vec::new();
    nodes.serialize(&mut text).ok()?;
    let content = String::from_utf8(text).ok()?;
    Some((content, metadata.page_title, metadata.article_title, metadata.byline))
}

/// The article that reader mode finds in a page (see `reader_mode`): titled
/// by the page title, else the article title, else `(no title)`; its
/// content with each tab replaced by 4 spaces; by the byline; at `url`.
pub open spec fn page_article(
    url: Seq<char>,
    r: (Seq<char>, Option<Seq<char>>, Option<Seq<char>>, Option<Seq<char>>),
) -> (Seq<char>, Seq<char>, Seq<char>, Option<Seq<char>>) {
    let title = match r.1 {
        Some(t) => t,
        None => match r.2 {
            Some(t) => t,
            None => "(no title)"@,
        },
    };
    (title, url, crate::requests::replace_char(r.0, '\t', "    "@), r.3)
}

/// The article of a page fetched from `url`, read in reader mode: an error
/// exactly when reader mode finds nothing (see `reader_mode`); otherwise
/// titled by the page title, else the article title, else `(no title)`,
/// with its content's tabs replaced by 4 spaces, the byline as author, the
/// given URL and no publication date.
pub fn article_from_page(url: &str, html: &str) -> (res: Result<Article, String>)
    ensures
        match reader_mode(html@, url@) {
            None => res matches Err(e) && e@ == "failed to read the article at "@ + url@,
            Some(r) => res matches Ok(a) && (a.title@, a.url@, a.content@, opt_text(a.author)) == page_article(
                url@,
                r,
            ) && a.date_published is None,
        },
{
    match readability_extract(html, url) {
        None => {
            let mut e = String::from_str("failed to read the article at ");
            e.append(url);
            Err(e)
        },
        Some((content, page_title, article_title, byline)) => {
            let title = match page_title {
                Some(t) => t,
                None => match article_title {
                    Some(t) => t,
                    None => String::from_str("(no title)"),
                },
            };
            let content = crate::requests::expand_tabs(content.as_str());
            Ok(Article { title, url: String::from_str(url), content, author: byline, date_published: None })
        },
    }
}

} // verus!
