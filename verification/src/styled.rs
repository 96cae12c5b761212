//! Styled text: a sequence of spans, each a piece of text with a style.

use vstd::prelude::*;
use crate::theme::Style;

verus! {

/// A piece of text with one style.
#[derive(Debug, Clone)]
pub struct Span {
    pub text: String,
    pub style: Style,
}

/// A text made of styled spans.
#[derive(Debug, Clone)]
pub struct StyledText {
    pub spans: Vec<Span>,
}

/// The value of a span: its characters and style.
pub open spec fn span_view(s: Span) -> (Seq<char>, Style) {
    (s.text@, s.style)
}

impl View for StyledText {
    type V = Seq<(Seq<char>, Style)>;

    open spec fn view(&self) -> Seq<(Seq<char>, Style)> {
        self.spans@.map_values(|s: Span| span_view(s))
    }
}

/// The characters of a list of spans, concatenated.
pub open spec fn source_of(spans: Seq<(Seq<char>, Style)>) -> Seq<char>
    decreases spans.len(),
{
    if spans.len() == 0 {
        Seq::empty()
    } else {
        source_of(spans.drop_last()) + spans.last().0
    }
}

/// The source of concatenated spans is the concatenation of sources.
pub proof fn source_of_concat(a: Seq<(Seq<char>, Style)>, b: Seq<(Seq<char>, Style)>)
    ensures
        source_of(a + b) == source_of(a) + source_of(b),
    decreases b.len(),
{
    if b.len() == 0 {
        assert(a + b =~= a);
    } else {
        source_of_concat(a, b.drop_last());
        assert((a + b).drop_last() =~= a + b.drop_last());
        assert(source_of(a) + source_of(b.drop_last()) + b.last().0 =~= source_of(a) + (
        source_of(b.drop_last()) + b.last().0));
    }
}

impl StyledText {
    /// The empty text.
    pub fn new() -> (res: StyledText)
        ensures
            res@ == Seq::<(Seq<char>, Style)>::empty(),
    {
        StyledText { spans: Vec::new() }
    }

    /// A text of one unstyled span.
    pub fn plain(s: &str) -> (res: StyledText)
        ensures
            res@ == seq![(s@, Style::plain_spec())],
    {
        let mut res = StyledText::new();
        res.append_plain(s);
        res
    }

    /// A text of one span with the given style.
    pub fn styled(s: &str, style: Style) -> (res: StyledText)
        ensures
            res@ == seq![(s@, style)],
    {
        let mut res = StyledText::new();
        res.append_styled(s, style);
        res
    }

    /// Appends a span with the given style.
    pub fn append_styled(&mut self, s: &str, style: Style)
        ensures
            final(self)@ == old(self)@.push((s@, style)),
    {
        let sp = Span { text: String::from_str(s), style };
        self.spans.push(sp);
        assert(self@ =~= old(self)@.push((s@, style)));
    }

    /// Appends an unstyled span.
    pub fn append_plain(&mut self, s: &str)
        ensures
            final(self)@ == old(self)@.push((s@, Style::plain_spec())),
    {
        self.append_styled(s, Style::plain());
    }

    /// Appends the spans of another text.
    pub fn append(&mut self, other: StyledText)
        ensures
            final(self)@ == old(self)@ + other@,
    {
        let mut o = other;
        let ghost ov = o@;
        self.spans.append(&mut o.spans);
        assert(self@ =~= old(self)@ + ov);
    }

    /// The text without its styles.
    pub fn source(&self) -> (res: String)
        ensures
            res@ == source_of(self@),
    {
        let mut res = String::new();
        let mut i: usize = 0;
        while i < self.spans.len()
            invariant
                i <= self.spans.len(),
                res@ == source_of(self@.take(i as int)),
            decreases self.spans.len() - i,
        {
            assert(self@.take(i + 1).drop_last() =~= self@.take(i as int));
            res.append(self.spans[i].text.as_str());
            i += 1;
        }
        assert(self@.take(self.spans.len() as int) =~= self@);
        res
    }

    /// Whether the text has no characters.
    pub fn is_empty_text(&self) -> (res: bool)
        ensures
            res == (source_of(self@).len() == 0),
    {
        let s = self.source();
        s.as_str().is_empty()
    }
}

} // verus!
