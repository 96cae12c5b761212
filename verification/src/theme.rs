//! Colors, styles and the application's theme.

use vstd::prelude::*;

verus! {

/// One of the eight base terminal colors.
#[derive(Debug, Clone, Copy, PartialEq, Eq, Structural)]
pub enum BaseColor {
    Black,
    Red,
    Green,
    Yellow,
    Blue,
    Magenta,
    Cyan,
    White,
}

/// A terminal color.
#[derive(Debug, Clone, Copy, PartialEq, Eq, Structural)]
pub enum Color {
    /// The terminal's default color.
    TerminalDefault,
    /// A base color.
    Dark(BaseColor),
    /// The light version of a base color.
    Light(BaseColor),
    /// A 24-bit color.
    Rgb(u8, u8, u8),
    /// A color of the 6x6x6 cube of the 256-color palette.
    RgbLowRes(u8, u8, u8),
}

/// A text effect.
#[derive(Debug, Clone, Copy, PartialEq, Eq, Structural)]
pub enum Effect {
    Simple,
    Reverse,
    Bold,
    Italic,
    Strikethrough,
    Underline,
    Blink,
}

/// A style: optional foreground and background colors and an optional
/// effect.
#[derive(Debug, Clone, Copy, PartialEq, Eq, Structural)]
pub struct Style {
    pub front: Option<Color>,
    pub back: Option<Color>,
    pub effect: Option<Effect>,
}

impl Style {
    /// The style that sets nothing.
    pub open spec fn plain_spec() -> Style {
        Style { front: None, back: None, effect: None }
    }

    /// The style that sets nothing.
    pub fn plain() -> (res: Style)
        ensures
            res == Style::plain_spec(),
    {
        Style { front: None, back: None, effect: None }
    }

    /// The style with its foreground replaced.
    pub fn front(self, c: Color) -> (res: Style)
        ensures
            res == (Style { front: Some(c), ..self }),
    {
        Style { front: Some(c), ..self }
    }

    /// The style with its background replaced.
    pub fn back(self, c: Color) -> (res: Style)
        ensures
            res == (Style { back: Some(c), ..self }),
    {
        Style { back: Some(c), ..self }
    }

    /// The style with its effect replaced.
    pub fn effect(self, e: Effect) -> (res: Style)
        ensures
            res == (Style { effect: Some(e), ..self }),
    {
        Style { effect: Some(e), ..self }
    }

    /// `other` laid over `self`: each part that `other` sets wins.
    pub fn combine(self, other: Style) -> (res: Style)
        ensures
            res == combine_spec(self, other),
    {
        Style {
            front: if other.front.is_some() { other.front } else { self.front },
            back: if other.back.is_some() { other.back } else { self.back },
            effect: if other.effect.is_some() { other.effect } else { self.effect },
        }
    }
}

/// `over` laid over `base`.
pub open spec fn combine_spec(base: Style, over: Style) -> Style {
    Style {
        front: if over.front is Some { over.front } else { base.front },
        back: if over.back is Some { over.back } else { base.back },
        effect: if over.effect is Some { over.effect } else { base.effect },
    }
}

/// The base color of the low three bits of `n`.
pub open spec fn base_color_of(n: u8) -> BaseColor {
    let m = n % 8;
    if m == 0 { BaseColor::Black } else if m == 1 { BaseColor::Red } else if m == 2 {
        BaseColor::Green
    } else if m == 3 { BaseColor::Yellow } else if m == 4 { BaseColor::Blue } else if m == 5 {
        BaseColor::Magenta
    } else if m == 6 { BaseColor::Cyan } else { BaseColor::White }
}

/// The color of index `n` of the 256-color palette.
pub open spec fn color_256(n: u8) -> Color {
    if n < 8 {
        Color::Dark(base_color_of(n))
    } else if n < 16 {
        Color::Light(base_color_of(n))
    } else if n >= 232 {
        let v = (8 + 10 * (n - 232)) as u8;
        Color::Rgb(v, v, v)
    } else {
        let k = (n - 16) as u8;
        Color::RgbLowRes((k / 36) as u8, ((k % 36) / 6) as u8, (k % 6) as u8)
    }
}

/// The base color numbered `n` (0 to 7).
pub open spec fn base_color_num(n: u8) -> BaseColor {
    base_color_of(n)
}

/// A color encoded as a kind tag and three components: 0 terminal
/// default, 1 dark base, 2 light base, 3 RGB, 4 low-resolution RGB.
pub open spec fn color_of_code(code: (u8, u8, u8, u8)) -> Option<Color> {
    let (k, a, b, c) = code;
    if k == 0 {
        Some(Color::TerminalDefault)
    } else if k == 1 && a < 8 {
        Some(Color::Dark(base_color_of(a)))
    } else if k == 2 && a < 8 {
        Some(Color::Light(base_color_of(a)))
    } else if k == 3 {
        Some(Color::Rgb(a, b, c))
    } else if k == 4 {
        Some(Color::RgbLowRes(a, b, c))
    } else {
        None
    }
}

fn base_of_num(n: u8) -> (res: BaseColor)
    requires
        n < 8,
    ensures
        res == base_color_of(n),
{
    if n == 0 { BaseColor::Black } else if n == 1 { BaseColor::Red } else if n == 2 {
        BaseColor::Green
    } else if n == 3 { BaseColor::Yellow } else if n == 4 { BaseColor::Blue } else if n == 5 {
        BaseColor::Magenta
    } else if n == 6 { BaseColor::Cyan } else { BaseColor::White }
}

fn decode_color(code: (u8, u8, u8, u8)) -> (res: Option<Color>)
    ensures
        res == color_of_code(code),
{
    let (k, a, b, c) = code;
    if k == 0 {
        Some(Color::TerminalDefault)
    } else if k == 1 && a < 8 {
        Some(Color::Dark(base_of_num(a)))
    } else if k == 2 && a < 8 {
        Some(Color::Light(base_of_num(a)))
    } else if k == 3 {
        Some(Color::Rgb(a, b, c))
    } else if k == 4 {
        Some(Color::RgbLowRes(a, b, c))
    } else {
        None
    }
}

/// What `cursive::theme::Color::parse` makes of a text, as a color code.
pub uninterp spec fn cursive_color_parse(s: Seq<char>) -> Option<(u8, u8, u8, u8)>;

/// Parses a color name or hex value (`cursive::theme::Color::parse`),
/// returning the color as a code.
/// Trusted: the result is the crate's parse of `s`; base colors come
/// with their number 0 to 7. Only ASCII text is handed on: on some other
/// text the crate's parse panics (it counts bytes where it means
/// characters).
#[verifier::external_body]
fn cursive_parse_code(s: &str) -> (res: Option<(u8, u8, u8, u8)>)
    requires
        vstd::utf8::is_ascii_chars(s@),
    ensures
        res == cursive_color_parse(s@),
        res matches Some(code) ==> color_of_code(code) is Some,
{
    match cursive::theme::Color::parse(s)? {
        cursive::theme::Color::TerminalDefault => Some((0, 0, 0, 0)),
        cursive::theme::Color::Dark(b) => Some((1, b as u8, 0, 0)),
        cursive::theme::Color::Light(b) => Some((2, b as u8, 0, 0)),
        cursive::theme::Color::Rgb(r, g, b) => Some((3, r, g, b)),
        cursive::theme::Color::RgbLowRes(r, g, b) => Some((4, r, g, b)),
    }
}

/// Picks a color of the 256-color palette (`cursive::theme::Color::from_256colors`).
/// Trusted: indexes 0-7 are the dark base colors, 8-15 the light ones,
/// 232-255 a gray ramp and the rest the 6x6x6 cube.
#[verifier::external_body]
fn cursive_256_code(n: u8) -> (res: (u8, u8, u8, u8))
    ensures
        color_of_code(res) == Some(color_256(n)),
{
    match cursive::theme::Color::from_256colors(n) {
        cursive::theme::Color::TerminalDefault => (0, 0, 0, 0),
        cursive::theme::Color::Dark(b) => (1, b as u8, 0, 0),
        cursive::theme::Color::Light(b) => (2, b as u8, 0, 0),
        cursive::theme::Color::Rgb(r, g, b) => (3, r, g, b),
        cursive::theme::Color::RgbLowRes(r, g, b) => (4, r, g, b),
    }
}

/// The color a configuration text names, if any: only ASCII text names
/// one.
pub open spec fn parsed_color(s: Seq<char>) -> Option<Color> {
    if !vstd::utf8::is_ascii_chars(s) {
        None
    } else {
        match cursive_color_parse(s) {
            Some(code) => color_of_code(code),
            None => None,
        }
    }
}

impl Color {
    /// Parses a color name (`red`, `light blue`, ...) or hex value
    /// (`#ff6600`); a text that is not ASCII names no color.
    pub fn try_parse(c: &str) -> (res: Option<Color>)
        ensures
            res == parsed_color(c@),
    {
        if !c.is_ascii() {
            return None;
        }
        match cursive_parse_code(c) {
            Some(code) => decode_color(code),
            None => None,
        }
    }

    /// The color of index `x` of the 256-color palette (`Color: From<u8>`).
    pub fn from_256(x: u8) -> (res: Color)
        ensures
            res == color_256(x),
    {
        let code = cursive_256_code(x);
        match decode_color(code) {
            Some(c) => c,
            None => Color::TerminalDefault,
        }
    }
}


/// The default HN top-bar color, `ff6600`.
pub const HN_DEFAULT_TOPCOLOR_HEX: &'static str = "ff6600";

/// Styles of the application's components.
#[derive(Debug, Clone, Copy, PartialEq, Eq, Structural)]
pub struct ComponentStyle {
    pub title_bar: Style,
    pub link: Style,
    pub link_id: Style,
    pub matched_highlight: Style,
    pub single_code_block: Style,
    pub multiline_code_block: Style,
    pub header: Style,
    pub quote: Style,
    pub italic: Style,
    pub bold: Style,
    pub metadata: Style,
    pub current_story_tag: Style,
    pub username: Style,
    pub loading_bar: Style,
    pub ask_hn: Style,
    pub tell_hn: Style,
    pub show_hn: Style,
    pub launch_hn: Style,
    pub upvote: Style,
    pub downvote: Style,
    pub own_item_indicator: Style,
    pub faded: Style,
}

/// The terminal color palette.
#[derive(Debug, Clone, Copy, PartialEq, Eq, Structural)]
pub struct Palette {
    pub background: Color,
    pub foreground: Color,
    pub selection_background: Color,
    pub selection_foreground: Color,
    pub black: Color,
    pub blue: Color,
    pub cyan: Color,
    pub green: Color,
    pub magenta: Color,
    pub red: Color,
    pub white: Color,
    pub yellow: Color,
    pub light_black: Color,
    pub light_white: Color,
    pub light_red: Color,
    pub light_magenta: Color,
    pub light_green: Color,
    pub light_cyan: Color,
    pub light_blue: Color,
    pub light_yellow: Color,
}

/// The application's theme: a palette and component styles.
#[derive(Debug, Clone, Copy)]
pub struct Theme {
    pub palette: Palette,
    pub component_style: ComponentStyle,
}

/// White space in the Unicode sense (`char::is_whitespace`): the 25 code
/// points with the `White_Space` property, tab to carriage return, space,
/// next line, no-break space, ogham space mark, the spaces from en quad to
/// hair space, the line and paragraph separators, narrow no-break space,
/// medium mathematical space and ideographic space.
pub open spec fn is_white_space(c: char) -> bool {
    let u = c as u32;
    ||| 0x09 <= u <= 0x0d
    ||| u == 0x20
    ||| u == 0x85
    ||| u == 0xa0
    ||| u == 0x1680
    ||| 0x2000 <= u <= 0x200a
    ||| u == 0x2028
    ||| u == 0x2029
    ||| u == 0x202f
    ||| u == 0x205f
    ||| u == 0x3000
}

/// Whether a character is white space (`char::is_whitespace`).
/// Trusted: the result is std's test of the Unicode `White_Space`
/// property.
#[verifier::external_body]
pub(crate) fn char_is_whitespace(c: char) -> (res: bool)
    ensures
        res == is_white_space(c),
{
    c.is_whitespace()
}

/// The number of leading characters of `s` that satisfy white space.
pub open spec fn leading_ws(s: Seq<char>) -> nat
    decreases s.len(),
{
    if s.len() > 0 && is_white_space(s[0]) {
        1 + leading_ws(s.drop_first())
    } else {
        0
    }
}

/// The number of trailing characters of `s` that satisfy white space.
pub open spec fn trailing_ws(s: Seq<char>) -> nat
    decreases s.len(),
{
    if s.len() > 0 && is_white_space(s.last()) {
        1 + trailing_ws(s.drop_last())
    } else {
        0
    }
}

/// `s` without its leading white space.
pub open spec fn trim_start(s: Seq<char>) -> Seq<char> {
    s.skip(leading_ws(s) as int)
}

/// `s` without its trailing white space.
pub open spec fn trim_end(s: Seq<char>) -> Seq<char> {
    s.take(s.len() - trailing_ws(s))
}

/// `s` without leading and trailing white space (`str::trim`).
pub open spec fn trim(s: Seq<char>) -> Seq<char> {
    trim_end(trim_start(s))
}

proof fn lemma_leading_ws(s: Seq<char>, i: int)
    requires
        0 <= i <= s.len(),
        forall|k: int| 0 <= k < i ==> is_white_space(#[trigger] s[k]),
        i == s.len() || !is_white_space(s[i]),
    ensures
        leading_ws(s) == i,
    decreases i,
{
    if i > 0 {
        lemma_leading_ws(s.drop_first(), i - 1);
    }
}

proof fn lemma_trailing_ws(s: Seq<char>, i: int)
    requires
        0 <= i <= s.len(),
        forall|k: int| s.len() - i <= k < s.len() ==> is_white_space(#[trigger] s[k]),
        i == s.len() || !is_white_space(s[s.len() - i - 1]),
    ensures
        trailing_ws(s) == i,
    decreases i,
{
    if i > 0 {
        lemma_trailing_ws(s.drop_last(), i - 1);
    }
}

/// `s` without leading and trailing white space.
pub fn trim_chars(s: &Vec<char>) -> (res: Vec<char>)
    ensures
        res@ == trim(s@),
{
    let mut a: usize = 0;
    while a < s.len() && char_is_whitespace(s[a])
        invariant
            a <= s.len(),
            forall|k: int| 0 <= k < a ==> is_white_space(#[trigger] s@[k]),
        decreases s.len() - a,
    {
        a += 1;
    }
    proof {
        lemma_leading_ws(s@, a as int);
    }
    let ghost t = s@.skip(a as int);
    let mut n: usize = 0;
    while n < s.len() - a && char_is_whitespace(s[s.len() - 1 - n])
        invariant
            a <= s.len(),
            t == s@.skip(a as int),
            n <= s.len() - a,
            forall|k: int| t.len() - n <= k < t.len() ==> is_white_space(#[trigger] t[k]),
        decreases s.len() - a - n,
    {
        assert(t[t.len() - n - 1] == s@[s.len() - 1 - n]);
        n += 1;
    }
    proof {
        if n < t.len() {
            assert(t[t.len() - n - 1] == s@[s.len() - 1 - n]);
        }
        lemma_trailing_ws(t, n as int);
    }
    let mut res: Vec<char> = Vec::new();
    let mut i: usize = a;
    while i < s.len() - n
        invariant
            a <= i <= s.len() - n,
            n <= s.len() - a,
            res@ == s@.subrange(a as int, i as int),
        decreases s.len() - n - i,
    {
        res.push(s[i]);
        assert(res@ =~= s@.subrange(a as int, i + 1));
        i += 1;
    }
    assert(res@ =~= trim(s@));
    res
}

/// `s` without its trailing white space.
pub fn trim_end_chars(s: &Vec<char>) -> (res: Vec<char>)
    ensures
        res@ == trim_end(s@),
{
    let mut n: usize = 0;
    while n < s.len() && char_is_whitespace(s[s.len() - 1 - n])
        invariant
            n <= s@.len(),
            forall|k: int| s@.len() - n <= k < s@.len() ==> is_white_space(#[trigger] s@[k]),
        decreases s.len() - n,
    {
        n += 1;
    }
    proof {
        lemma_trailing_ws(s@, n as int);
    }
    let mut res: Vec<char> = Vec::new();
    let mut i: usize = 0;
    while i < s.len() - n
        invariant
            n <= s@.len(),
            i <= s@.len() - n,
            res@ == s@.take(i as int),
        decreases s.len() - n - i,
    {
        res.push(s[i]);
        i += 1;
        assert(res@ =~= s@.take(i as int));
    }
    res
}

/// The number of leading `#` characters.
pub open spec fn leading_hashes(s: Seq<char>) -> nat
    decreases s.len(),
{
    if s.len() > 0 && s[0] == '#' {
        1 + leading_hashes(s.drop_first())
    } else {
        0
    }
}

proof fn lemma_leading_hashes(s: Seq<char>, i: int)
    requires
        0 <= i <= s.len(),
        forall|k: int| 0 <= k < i ==> #[trigger] s[k] == '#',
        i == s.len() || s[i] != '#',
    ensures
        leading_hashes(s) == i,
    decreases i,
{
    if i > 0 {
        lemma_leading_hashes(s.drop_first(), i - 1);
    }
}

/// The color text that a profile `topcolor` value stands for: the value
/// trimmed, without leading `#`, behind one `#`.
pub open spec fn topcolor_text(hex: Seq<char>) -> Seq<char> {
    let t = trim(hex);
    seq!['#'] + t.skip(leading_hashes(t) as int)
}

/// The HN default orange as a color.
pub open spec fn default_orange() -> Color {
    Color::Rgb(255, 102, 0)
}

/// `s` with its background set to `c` when it was the default orange.
pub open spec fn recolor_accent(s: Style, c: Color) -> Style {
    if s.back == Some(default_orange()) {
        Style { back: Some(c), ..s }
    } else {
        s
    }
}

/// Some accent style still has the default orange background.
pub open spec fn has_orange_accent(cs: ComponentStyle) -> bool {
    let o = Some(default_orange());
    ||| cs.link_id.back == o
    ||| cs.matched_highlight.back == o
    ||| cs.single_code_block.back == o
    ||| cs.multiline_code_block.back == o
    ||| cs.header.back == o
    ||| cs.current_story_tag.back == o
    ||| cs.loading_bar.back == o
    ||| cs.ask_hn.back == o
    ||| cs.tell_hn.back == o
    ||| cs.show_hn.back == o
    ||| cs.launch_hn.back == o
}

/// The component styles after the top color `c` was applied.
pub open spec fn with_topcolor(cs: ComponentStyle, c: Color) -> ComponentStyle {
    ComponentStyle {
        title_bar: Style { back: Some(c), ..cs.title_bar },
        link_id: recolor_accent(cs.link_id, c),
        matched_highlight: recolor_accent(cs.matched_highlight, c),
        single_code_block: recolor_accent(cs.single_code_block, c),
        multiline_code_block: recolor_accent(cs.multiline_code_block, c),
        header: recolor_accent(cs.header, c),
        current_story_tag: recolor_accent(cs.current_story_tag, c),
        loading_bar: recolor_accent(cs.loading_bar, c),
        ask_hn: recolor_accent(cs.ask_hn, c),
        tell_hn: recolor_accent(cs.tell_hn, c),
        show_hn: recolor_accent(cs.show_hn, c),
        launch_hn: recolor_accent(cs.launch_hn, c),
        ..cs
    }
}

fn recolor(s: &mut Style, c: Color, orange: Color) -> (changed: bool)
    ensures
        orange == default_orange() ==> *final(s) == recolor_accent(*old(s), c),
        changed == (*final(s) != *old(s)),
{
    match s.back {
        Some(b) => {
            if b == orange {
                s.back = Some(c);
                c != orange
            } else {
                false
            }
        },
        None => false,
    }
}

impl Theme {
    /// Applies the user's HN `topcolor` (a hex value such as `ff6600`):
    /// the title bar always takes it as background, and the other accent
    /// styles take it only where their background is still the default
    /// orange. Returns whether the value of any style changed, so a
    /// repeated call returns `false`; a value that is not a color leaves
    /// the theme as it was.
    pub fn apply_hn_topcolor(&mut self, hex: &str) -> (changed: bool)
        ensures
            parsed_color(topcolor_text(hex@)) is None ==> !changed && *final(self) == *old(self),
            parsed_color(topcolor_text(hex@)) matches Some(c) ==> {
                &&& final(self).palette == old(self).palette
                &&& final(self).component_style == with_topcolor(old(self).component_style, c)
                &&& changed == (final(self).component_style != old(self).component_style)
            },
    {
        let chars = crate::text::chars_of(hex);
        let t = trim_chars(&chars);
        let mut a: usize = 0;
        while a < t.len() && t[a] == '#'
            invariant
                a <= t.len(),
                forall|k: int| 0 <= k < a ==> #[trigger] t@[k] == '#',
            decreases t.len() - a,
        {
            a += 1;
        }
        proof {
            lemma_leading_hashes(t@, a as int);
        }
        let mut text: Vec<char> = Vec::new();
        text.push('#');
        let mut i: usize = a;
        while i < t.len()
            invariant
                a <= i <= t.len(),
                text@ == seq!['#'] + t@.subrange(a as int, i as int),
            decreases t.len() - i,
        {
            text.push(t[i]);
            assert(text@ =~= seq!['#'] + t@.subrange(a as int, i + 1));
            i += 1;
        }
        assert(text@ =~= topcolor_text(hex@));
        let color_str = crate::text::string_of(text.as_slice());
        let topcolor = match Color::try_parse(color_str.as_str()) {
            Some(c) => c,
            None => return false,
        };
        let orange = Color::Rgb(255, 102, 0);
        let cs = &mut self.component_style;
        let mut changed = false;
        if cs.title_bar.back != Some(topcolor) {
            cs.title_bar.back = Some(topcolor);
            changed = true;
        }
        changed = recolor(&mut cs.link_id, topcolor, orange) || changed;
        changed = recolor(&mut cs.matched_highlight, topcolor, orange) || changed;
        changed = recolor(&mut cs.single_code_block, topcolor, orange) || changed;
        changed = recolor(&mut cs.multiline_code_block, topcolor, orange) || changed;
        changed = recolor(&mut cs.header, topcolor, orange) || changed;
        changed = recolor(&mut cs.current_story_tag, topcolor, orange) || changed;
        changed = recolor(&mut cs.loading_bar, topcolor, orange) || changed;
        changed = recolor(&mut cs.ask_hn, topcolor, orange) || changed;
        changed = recolor(&mut cs.tell_hn, topcolor, orange) || changed;
        changed = recolor(&mut cs.show_hn, topcolor, orange) || changed;
        changed = recolor(&mut cs.launch_hn, topcolor, orange) || changed;
        changed
    }
}


impl Default for Palette {
    /// The light palette, after the colors of the Hacker News site.
    fn default() -> (res: Palette)
        ensures
            res.background == Color::Rgb(0xf6, 0xf6, 0xef),
            res.foreground == Color::Rgb(0x24, 0x24, 0x24),
            res.selection_background == Color::Rgb(0xd8, 0xda, 0xd6),
            res.selection_foreground == Color::Rgb(0x4a, 0x4c, 0x4c),
            res.black == Color::Rgb(0x00, 0x00, 0x00),
            res.blue == Color::Rgb(0x00, 0x00, 0xaa),
            res.cyan == Color::Rgb(0x00, 0xaa, 0xaa),
            res.green == Color::Rgb(0x00, 0xaa, 0x00),
            res.magenta == Color::Rgb(0xaa, 0x00, 0xaa),
            res.red == Color::Rgb(0xaa, 0x00, 0x00),
            res.white == Color::Rgb(0xaa, 0xaa, 0xaa),
            res.yellow == Color::Rgb(0xaa, 0xaa, 0x00),
            res.light_black == Color::Rgb(0x55, 0x55, 0x55),
            res.light_white == Color::Rgb(0xff, 0xff, 0xff),
            res.light_red == Color::Rgb(0xff, 0x55, 0x55),
            res.light_magenta == Color::Rgb(0x55, 0x55, 0xff),
            res.light_green == Color::Rgb(0x55, 0xff, 0x55),
            res.light_cyan == Color::Rgb(0x55, 0xff, 0xff),
            res.light_blue == Color::Rgb(0x55, 0x55, 0xff),
            res.light_yellow == Color::Rgb(0xff, 0xff, 0x55),
    {
        Palette {
            background: Color::Rgb(0xf6, 0xf6, 0xef),
            foreground: Color::Rgb(0x24, 0x24, 0x24),
            selection_background: Color::Rgb(0xd8, 0xda, 0xd6),
            selection_foreground: Color::Rgb(0x4a, 0x4c, 0x4c),
            black: Color::Rgb(0x00, 0x00, 0x00),
            blue: Color::Rgb(0x00, 0x00, 0xaa),
            cyan: Color::Rgb(0x00, 0xaa, 0xaa),
            green: Color::Rgb(0x00, 0xaa, 0x00),
            magenta: Color::Rgb(0xaa, 0x00, 0xaa),
            red: Color::Rgb(0xaa, 0x00, 0x00),
            white: Color::Rgb(0xaa, 0xaa, 0xaa),
            yellow: Color::Rgb(0xaa, 0xaa, 0x00),
            light_black: Color::Rgb(0x55, 0x55, 0x55),
            light_white: Color::Rgb(0xff, 0xff, 0xff),
            light_red: Color::Rgb(0xff, 0x55, 0x55),
            light_magenta: Color::Rgb(0x55, 0x55, 0xff),
            light_green: Color::Rgb(0x55, 0xff, 0x55),
            light_cyan: Color::Rgb(0x55, 0xff, 0xff),
            light_blue: Color::Rgb(0x55, 0x55, 0xff),
            light_yellow: Color::Rgb(0xff, 0xff, 0x55),
        }
    }
}

impl Default for ComponentStyle {
    /// The default component styles: HN orange title bar, blue links,
    /// yellow highlights, bold headers and a grey byline.
    fn default() -> (res: ComponentStyle)
        ensures
            res.title_bar == (Style { front: None, back: Some(Color::Rgb(0xff, 0x66, 0x00)), effect: Some(Effect::Bold) }),
            res.link == (Style { front: Some(Color::Rgb(0x4f, 0xbb, 0xfd)), back: None, effect: None }),
            res.link_id == (Style { front: Some(Color::Dark(BaseColor::Black)), back: Some(Color::Rgb(0xff, 0xff, 0x55)), effect: None }),
            res.matched_highlight == (Style { front: Some(Color::Dark(BaseColor::Black)), back: Some(Color::Rgb(0xff, 0xff, 0x55)), effect: None }),
            res.single_code_block == (Style { front: Some(Color::Dark(BaseColor::Black)), back: Some(Color::Rgb(0xc8, 0xc8, 0xc8)), effect: None }),
            res.multiline_code_block == (Style { front: Some(Color::Light(BaseColor::Black)), back: None, effect: Some(Effect::Bold) }),
            res.header == (Style { front: Some(Color::Dark(BaseColor::Black)), back: None, effect: Some(Effect::Bold) }),
            res.quote == (Style { front: Some(Color::Rgb(0x67, 0x72, 0x80)), back: None, effect: None }),
            res.italic == (Style { front: None, back: None, effect: Some(Effect::Italic) }),
            res.bold == (Style { front: None, back: None, effect: Some(Effect::Bold) }),
            res.metadata == (Style { front: Some(Color::Rgb(0x82, 0x82, 0x82)), back: None, effect: None }),
            res.current_story_tag == (Style { front: Some(Color::Light(BaseColor::White)), back: None, effect: None }),
            res.username == (Style { front: None, back: None, effect: Some(Effect::Bold) }),
            res.loading_bar == (Style { front: Some(Color::Light(BaseColor::Yellow)), back: Some(Color::Dark(BaseColor::Blue)), effect: None }),
            res.ask_hn == (Style { front: Some(Color::Dark(BaseColor::Red)), back: None, effect: Some(Effect::Bold) }),
            res.tell_hn == (Style { front: Some(Color::Dark(BaseColor::Yellow)), back: None, effect: Some(Effect::Bold) }),
            res.show_hn == (Style { front: Some(Color::Dark(BaseColor::Blue)), back: None, effect: Some(Effect::Bold) }),
            res.launch_hn == (Style { front: Some(Color::Dark(BaseColor::Green)), back: None, effect: Some(Effect::Bold) }),
            res.upvote == (Style { front: Some(Color::Dark(BaseColor::Green)), back: None, effect: None }),
            res.downvote == (Style { front: Some(Color::Dark(BaseColor::Red)), back: None, effect: None }),
            res.own_item_indicator == (Style { front: Some(Color::Rgb(0xff, 0x66, 0x00)), back: None, effect: None }),
            res.faded == (Style { front: Some(Color::Rgb(0x82, 0x82, 0x82)), back: None, effect: None }),
    {
        ComponentStyle {
            title_bar: Style { front: None, back: Some(Color::Rgb(0xff, 0x66, 0x00)), effect: Some(Effect::Bold) },
            link: Style { front: Some(Color::Rgb(0x4f, 0xbb, 0xfd)), back: None, effect: None },
            link_id: Style { front: Some(Color::Dark(BaseColor::Black)), back: Some(Color::Rgb(0xff, 0xff, 0x55)), effect: None },
            matched_highlight: Style { front: Some(Color::Dark(BaseColor::Black)), back: Some(Color::Rgb(0xff, 0xff, 0x55)), effect: None },
            single_code_block: Style { front: Some(Color::Dark(BaseColor::Black)), back: Some(Color::Rgb(0xc8, 0xc8, 0xc8)), effect: None },
            multiline_code_block: Style { front: Some(Color::Light(BaseColor::Black)), back: None, effect: Some(Effect::Bold) },
            header: Style { front: Some(Color::Dark(BaseColor::Black)), back: None, effect: Some(Effect::Bold) },
            quote: Style { front: Some(Color::Rgb(0x67, 0x72, 0x80)), back: None, effect: None },
            italic: Style { front: None, back: None, effect: Some(Effect::Italic) },
            bold: Style { front: None, back: None, effect: Some(Effect::Bold) },
            metadata: Style { front: Some(Color::Rgb(0x82, 0x82, 0x82)), back: None, effect: None },
            current_story_tag: Style { front: Some(Color::Light(BaseColor::White)), back: None, effect: None },
            username: Style { front: None, back: None, effect: Some(Effect::Bold) },
            loading_bar: Style { front: Some(Color::Light(BaseColor::Yellow)), back: Some(Color::Dark(BaseColor::Blue)), effect: None },
            ask_hn: Style { front: Some(Color::Dark(BaseColor::Red)), back: None, effect: Some(Effect::Bold) },
            tell_hn: Style { front: Some(Color::Dark(BaseColor::Yellow)), back: None, effect: Some(Effect::Bold) },
            show_hn: Style { front: Some(Color::Dark(BaseColor::Blue)), back: None, effect: Some(Effect::Bold) },
            launch_hn: Style { front: Some(Color::Dark(BaseColor::Green)), back: None, effect: Some(Effect::Bold) },
            upvote: Style { front: Some(Color::Dark(BaseColor::Green)), back: None, effect: None },
            downvote: Style { front: Some(Color::Dark(BaseColor::Red)), back: None, effect: None },
            own_item_indicator: Style { front: Some(Color::Rgb(0xff, 0x66, 0x00)), back: None, effect: None },
            faded: Style { front: Some(Color::Rgb(0x82, 0x82, 0x82)), back: None, effect: None },
        }
    }
}

impl Default for Theme {
    /// The default palette and component styles.
    fn default() -> (res: Theme)
        ensures
            res.palette == Palette::default_spec(),
            res.component_style == ComponentStyle::default_spec(),
    {
        Theme { palette: Palette::default(), component_style: ComponentStyle::default() }
    }
}

impl Palette {
    /// The default palette.
    pub open spec fn default_spec() -> Palette {
        Palette {
            background: Color::Rgb(0xf6, 0xf6, 0xef),
            foreground: Color::Rgb(0x24, 0x24, 0x24),
            selection_background: Color::Rgb(0xd8, 0xda, 0xd6),
            selection_foreground: Color::Rgb(0x4a, 0x4c, 0x4c),
            black: Color::Rgb(0x00, 0x00, 0x00),
            blue: Color::Rgb(0x00, 0x00, 0xaa),
            cyan: Color::Rgb(0x00, 0xaa, 0xaa),
            green: Color::Rgb(0x00, 0xaa, 0x00),
            magenta: Color::Rgb(0xaa, 0x00, 0xaa),
            red: Color::Rgb(0xaa, 0x00, 0x00),
            white: Color::Rgb(0xaa, 0xaa, 0xaa),
            yellow: Color::Rgb(0xaa, 0xaa, 0x00),
            light_black: Color::Rgb(0x55, 0x55, 0x55),
            light_white: Color::Rgb(0xff, 0xff, 0xff),
            light_red: Color::Rgb(0xff, 0x55, 0x55),
            light_magenta: Color::Rgb(0x55, 0x55, 0xff),
            light_green: Color::Rgb(0x55, 0xff, 0x55),
            light_cyan: Color::Rgb(0x55, 0xff, 0xff),
            light_blue: Color::Rgb(0x55, 0x55, 0xff),
            light_yellow: Color::Rgb(0xff, 0xff, 0x55),
        }
    }
}

impl ComponentStyle {
    /// The default component styles.
    pub open spec fn default_spec() -> ComponentStyle {
        ComponentStyle {
            title_bar: Style { front: None, back: Some(Color::Rgb(0xff, 0x66, 0x00)), effect: Some(Effect::Bold) },
            link: Style { front: Some(Color::Rgb(0x4f, 0xbb, 0xfd)), back: None, effect: None },
            link_id: Style { front: Some(Color::Dark(BaseColor::Black)), back: Some(Color::Rgb(0xff, 0xff, 0x55)), effect: None },
            matched_highlight: Style { front: Some(Color::Dark(BaseColor::Black)), back: Some(Color::Rgb(0xff, 0xff, 0x55)), effect: None },
            single_code_block: Style { front: Some(Color::Dark(BaseColor::Black)), back: Some(Color::Rgb(0xc8, 0xc8, 0xc8)), effect: None },
            multiline_code_block: Style { front: Some(Color::Light(BaseColor::Black)), back: None, effect: Some(Effect::Bold) },
            header: Style { front: Some(Color::Dark(BaseColor::Black)), back: None, effect: Some(Effect::Bold) },
            quote: Style { front: Some(Color::Rgb(0x67, 0x72, 0x80)), back: None, effect: None },
            italic: Style { front: None, back: None, effect: Some(Effect::Italic) },
            bold: Style { front: None, back: None, effect: Some(Effect::Bold) },
            metadata: Style { front: Some(Color::Rgb(0x82, 0x82, 0x82)), back: None, effect: None },
            current_story_tag: Style { front: Some(Color::Light(BaseColor::White)), back: None, effect: None },
            username: Style { front: None, back: None, effect: Some(Effect::Bold) },
            loading_bar: Style { front: Some(Color::Light(BaseColor::Yellow)), back: Some(Color::Dark(BaseColor::Blue)), effect: None },
            ask_hn: Style { front: Some(Color::Dark(BaseColor::Red)), back: None, effect: Some(Effect::Bold) },
            tell_hn: Style { front: Some(Color::Dark(BaseColor::Yellow)), back: None, effect: Some(Effect::Bold) },
            show_hn: Style { front: Some(Color::Dark(BaseColor::Blue)), back: None, effect: Some(Effect::Bold) },
            launch_hn: Style { front: Some(Color::Dark(BaseColor::Green)), back: None, effect: Some(Effect::Bold) },
            upvote: Style { front: Some(Color::Dark(BaseColor::Green)), back: None, effect: None },
            downvote: Style { front: Some(Color::Dark(BaseColor::Red)), back: None, effect: None },
            own_item_indicator: Style { front: Some(Color::Rgb(0xff, 0x66, 0x00)), back: None, effect: None },
            faded: Style { front: Some(Color::Rgb(0x82, 0x82, 0x82)), back: None, effect: None },
        }
    }
}

/// The color a theme color stands for on screen: the eight base colors and
/// their light versions come from the palette, other colors are themselves.
pub open spec fn resolved_color(p: Palette, c: Color) -> Color {
    match c {
        Color::Dark(b) => match b {
            BaseColor::Black => p.black,
            BaseColor::Red => p.red,
            BaseColor::Green => p.green,
            BaseColor::Yellow => p.yellow,
            BaseColor::Blue => p.blue,
            BaseColor::Magenta => p.magenta,
            BaseColor::Cyan => p.cyan,
            BaseColor::White => p.white,
        },
        Color::Light(b) => match b {
            BaseColor::Black => p.light_black,
            BaseColor::Red => p.light_red,
            BaseColor::Green => p.light_green,
            BaseColor::Yellow => p.light_yellow,
            BaseColor::Blue => p.light_blue,
            BaseColor::Magenta => p.light_magenta,
            BaseColor::Cyan => p.light_cyan,
            BaseColor::White => p.light_white,
        },
        _ => c,
    }
}

/// The color a theme color stands for under a palette.
pub fn resolve_color(p: &Palette, c: Color) -> (res: Color)
    ensures
        res == resolved_color(*p, c),
{
    match c {
        Color::Dark(b) => match b {
            BaseColor::Black => p.black,
            BaseColor::Red => p.red,
            BaseColor::Green => p.green,
            BaseColor::Yellow => p.yellow,
            BaseColor::Blue => p.blue,
            BaseColor::Magenta => p.magenta,
            BaseColor::Cyan => p.cyan,
            BaseColor::White => p.white,
        },
        Color::Light(b) => match b {
            BaseColor::Black => p.light_black,
            BaseColor::Red => p.light_red,
            BaseColor::Green => p.light_green,
            BaseColor::Yellow => p.light_yellow,
            BaseColor::Blue => p.light_blue,
            BaseColor::Magenta => p.light_magenta,
            BaseColor::Cyan => p.light_cyan,
            BaseColor::White => p.light_white,
        },
        _ => c,
    }
}

/// Applying a top color twice leaves the styles as applying it once.
pub proof fn topcolor_idempotent(cs: ComponentStyle, c: Color)
    ensures
        with_topcolor(with_topcolor(cs, c), c) == with_topcolor(cs, c),
{
}

/// Once a top color other than the default orange is applied, applying it
/// again reports no change.
pub proof fn topcolor_second_application_unchanged(cs: ComponentStyle, c: Color)
    requires
        c != default_orange(),
    ensures
        with_topcolor(cs, c).title_bar.back == Some(c),
        !has_orange_accent(with_topcolor(cs, c)),
{
}

} // verus!
