//! The bars around the views: the navigation strip with its story tags,
//! threads and search entries, the title bars, the user's name and
//! karma, and the footer.

use vstd::prelude::*;
use crate::keys::{KeyCode, KeyEvent, Keys};
use crate::links::{nav_label, sort_mode_suffix, sort_suffix, story_tag_label, story_tags, NavTarget};
use crate::profile::UserInfo;
use crate::query::{no_filters, StoryNumericFilters, StorySortMode};
use crate::styled::StyledText;
use crate::text::decimal;
use crate::theme::{combine_spec, Color, ComponentStyle, Effect, Style};

verus! {

/// Where an entry of the navigation strip leads.
#[derive(Debug, Clone, Copy, PartialEq, Eq, Structural)]
pub enum NavLink {
    /// The story list of the tag at this place.
    StoryTag(usize),
    /// The user's threads.
    Threads,
    /// The search view.
    Search,
}

/// A cell of the navigation strip: its text and, for an entry, where it
/// leads.
pub struct NavCell {
    pub label: StyledText,
    pub link: Option<NavLink>,
}

/// The separator between cells.
pub open spec fn separator(style: Style) -> (Seq<(Seq<char>, Style)>, Option<NavLink>) {
    (seq![(" | "@, style)], None)
}

/// The cell of the story tag at place `i`.
pub open spec fn tag_cell(i: nat, active: NavTarget, suffix: Seq<char>, style: Style, active_style: Style) -> (
    Seq<(Seq<char>, Style)>,
    Option<NavLink>,
) {
    let on = active == NavTarget::StoryTag(i as usize);
    (seq![(nav_label(i, story_tags()[i as int], on, suffix), if on { active_style } else { style })], Some(NavLink::StoryTag(i as usize)))
}

/// The cells of the navigation strip: the program's name, the five story
/// tags, the threads and the search entries, with separators, the active
/// entry in the "you are here" style and the active tag followed by the
/// sort suffix.
pub open spec fn nav_cells(active: NavTarget, suffix: Seq<char>, style: Style, current: Style, light_white: Color) -> Seq<
    (Seq<(Seq<char>, Style)>, Option<NavLink>),
> {
    let active_style = combine_spec(style, current);
    let white = combine_spec(style, Style { front: Some(light_white), back: None, effect: None });
    seq![
        (seq![("[Y]"@, white), (" Hacker News"@, style)], None),
        separator(style),
        tag_cell(0, active, suffix, style, active_style),
        separator(style),
        tag_cell(1, active, suffix, style, active_style),
        separator(style),
        tag_cell(2, active, suffix, style, active_style),
        separator(style),
        tag_cell(3, active, suffix, style, active_style),
        separator(style),
        tag_cell(4, active, suffix, style, active_style),
        separator(style),
        (seq![("6.threads"@, if active == NavTarget::MyThreads { active_style } else { style })], Some(NavLink::Threads)),
        separator(style),
        (seq![("search (^S)"@, if active == NavTarget::Search { active_style } else { style })], Some(NavLink::Search)),
        separator(style),
    ]
}

/// The cells as values.
pub open spec fn cells_view(cells: Seq<NavCell>) -> Seq<(Seq<(Seq<char>, Style)>, Option<NavLink>)> {
    cells.map_values(|c: NavCell| (c.label@, c.link))
}

fn push_cell(cells: &mut Vec<NavCell>, text: &str, style: Style, link: Option<NavLink>)
    ensures
        cells_view(final(cells)@) == cells_view(old(cells)@).push((seq![(text@, style)], link)),
{
    let ghost before = cells@;
    let mut label = StyledText::new();
    label.append_styled(text, style);
    cells.push(NavCell { label, link });
    assert(cells_view(cells@) =~= cells_view(before).push((seq![(text@, style)], link)));
}

/// The cells of the navigation strip (see `nav_cells`).
pub fn nav_strip(active: NavTarget, suffix: &str, cs: &ComponentStyle, light_white: Color) -> (res: Vec<NavCell>)
    ensures
        cells_view(res@) == nav_cells(active, suffix@, cs.title_bar, cs.current_story_tag, light_white),
{
    let style = cs.title_bar;
    let active_style = style.combine(cs.current_story_tag);
    let white = style.combine(Style { front: Some(light_white), back: None, effect: None });
    let mut cells: Vec<NavCell> = Vec::new();
    let mut prefix = StyledText::new();
    prefix.append_styled("[Y]", white);
    prefix.append_styled(" Hacker News", style);
    cells.push(NavCell { label: prefix, link: None });
    let tags = crate::links::story_tags_list();
    let ghost tv = tags@.map_values(|s: &str| s@);
    assert(tv.len() == tags@.len());
    assert(story_tags().len() == 5);
    assert(cells_view(cells@) =~~= nav_cells(active, suffix@, style, cs.current_story_tag, light_white).take(1));
    let mut i: usize = 0;
    while i < 5
        invariant
            i <= 5,
            tv == story_tags(),
            tv == tags@.map_values(|s: &str| s@),
            tags@.len() == 5,
            style == cs.title_bar,
            active_style == combine_spec(style, cs.current_story_tag),
            white == combine_spec(style, Style { front: Some(light_white), back: None, effect: None }),
            cells_view(cells@) == nav_cells(active, suffix@, style, cs.current_story_tag, light_white).take(1 + 2 * i),
        decreases 5 - i,
    {
        push_cell(&mut cells, " | ", style, None);
        let on = match active {
            NavTarget::StoryTag(t) => t == i,
            _ => false,
        };
        assert(tv[i as int] == tags@[i as int]@);
        let label = story_tag_label(i, tags[i], on, suffix);
        push_cell(&mut cells, label.as_str(), if on { active_style } else { style }, Some(NavLink::StoryTag(i)));
        i += 1;
        assert(cells_view(cells@) =~= nav_cells(active, suffix@, style, cs.current_story_tag, light_white).take(1 + 2 * i));
    }
    push_cell(&mut cells, " | ", style, None);
    let threads_on = match active {
        NavTarget::MyThreads => true,
        _ => false,
    };
    push_cell(&mut cells, "6.threads", if threads_on { active_style } else { style }, Some(NavLink::Threads));
    push_cell(&mut cells, " | ", style, None);
    let search_on = match active {
        NavTarget::Search => true,
        _ => false,
    };
    push_cell(&mut cells, "search (^S)", if search_on { active_style } else { style }, Some(NavLink::Search));
    push_cell(&mut cells, " | ", style, None);
    assert(cells_view(cells@) =~= nav_cells(active, suffix@, style, cs.current_story_tag, light_white));
    cells
}

/// Inside the navigation strip `h` and `l` move like the left and right
/// keys; other keys stay as they are.
pub fn nav_strip_key(e: KeyEvent) -> (res: KeyEvent)
    ensures
        res == (if e == KeyEvent::Char('h') {
            KeyEvent::Key(KeyCode::Left)
        } else if e == KeyEvent::Char('l') {
            KeyEvent::Key(KeyCode::Right)
        } else {
            e
        }),
{
    if e == KeyEvent::Char('h') {
        KeyEvent::Key(KeyCode::Left)
    } else if e == KeyEvent::Char('l') {
        KeyEvent::Key(KeyCode::Right)
    } else {
        e
    }
}

/// What choosing an entry of the navigation strip asks.
pub enum NavChoice {
    /// Load the stories of the tag at this place, from its first page, in
    /// its starting order, without filters.
    LoadTag { tag_index: usize, sort: StorySortMode, filters: StoryNumericFilters },
    /// Open the threads of this user.
    OpenThreads(String),
    /// Tell the user to log in first.
    NotLoggedIn,
    /// Open the search view.
    OpenSearch,
}

/// What choosing an entry asks: a tag loads its stories (by date for all
/// stories and jobs); the threads entry needs a logged-in user.
pub fn nav_choice(link: NavLink, user: Option<&str>) -> (res: NavChoice)
    requires
        link matches NavLink::StoryTag(i) ==> i < 5,
    ensures
        match link {
            NavLink::StoryTag(i) => res matches NavChoice::LoadTag { tag_index, sort, filters } && tag_index == i
                && filters == no_filters() && sort == (if i == 1 || i == 4 {
                StorySortMode::Date
            } else {
                StorySortMode::NoSort
            }),
            NavLink::Threads => match user {
                Some(u) => res matches NavChoice::OpenThreads(name) && name@ == u@,
                None => res is NotLoggedIn,
            },
            NavLink::Search => res is OpenSearch,
        },
{
    match link {
        NavLink::StoryTag(i) => NavChoice::LoadTag {
            tag_index: i,
            sort: if i == 1 || i == 4 {
                StorySortMode::Date
            } else {
                StorySortMode::NoSort
            },
            filters: StoryNumericFilters::default(),
        },
        NavLink::Threads => match user {
            Some(u) => NavChoice::OpenThreads(String::from_str(u)),
            None => NavChoice::NotLoggedIn,
        },
        NavLink::Search => NavChoice::OpenSearch,
    }
}

/// The user's name and karma as the title bar shows them, or nothing
/// without a logged-in user.
pub open spec fn user_info_spans(user: Option<UserInfo>, style: Style) -> Seq<(Seq<char>, Style)> {
    match user {
        None => Seq::empty(),
        Some(info) => seq![
            (match info.karma {
                Some(k) => " "@ + info.username@ + " ("@ + decimal(k as nat) + ") "@,
                None => " "@ + info.username@ + " "@,
            }, style),
        ],
    }
}

/// The user's name and karma as the title bar shows them.
pub fn build_user_info_text(style: Style, user: Option<&UserInfo>) -> (res: StyledText)
    ensures
        res@ == user_info_spans(
            match user {
                Some(u) => Some(*u),
                None => None,
            },
            style,
        ),
{
    match user {
        None => StyledText::new(),
        Some(info) => {
            let mut t = String::from_str(" ");
            t.append(info.username.as_str());
            match info.karma {
                Some(k) => {
                    t.append(" (");
                    let d = crate::text::decimal_string(k as u64);
                    t.append(d.as_str());
                    t.append(") ");
                },
                None => {
                    t.append(" ");
                },
            }
            let mut r = StyledText::new();
            r.append_styled(t.as_str(), style);
            assert(r@ =~= user_info_spans(Some(*info), style));
            r
        },
    }
}

/// The parts of a title bar: the navigation strip, the user's name and
/// karma, and, below them, the view's description.
pub struct TitleBar {
    pub nav: Vec<NavCell>,
    pub user_info: StyledText,
    pub description: Option<StyledText>,
}

/// The title bar of a view: the strip with `nav` highlighted and no sort
/// suffix, the user, and the description in the title bar style.
pub fn construct_view_title_bar_with_nav(
    desc: &str,
    nav: NavTarget,
    user: Option<&UserInfo>,
    cs: &ComponentStyle,
    light_white: Color,
) -> (res: TitleBar)
    ensures
        cells_view(res.nav@) == nav_cells(nav, Seq::empty(), cs.title_bar, cs.current_story_tag, light_white),
        res.user_info@ == user_info_spans(
            match user {
                Some(u) => Some(*u),
                None => None,
            },
            cs.title_bar,
        ),
        res.description matches Some(d) && d@ == seq![(desc@, cs.title_bar)],
{
    proof {
        reveal_strlit("");
    }
    let nav_cells = nav_strip(nav, "", cs, light_white);
    let user_info = build_user_info_text(cs.title_bar, user);
    let d = StyledText::styled(desc, cs.title_bar);
    TitleBar { nav: nav_cells, user_info, description: Some(d) }
}

/// The title bar of a view that is no entry of the strip.
pub fn construct_view_title_bar(desc: &str, user: Option<&UserInfo>, cs: &ComponentStyle, light_white: Color) -> (res: TitleBar)
    ensures
        cells_view(res.nav@) == nav_cells(NavTarget::NoTarget, Seq::empty(), cs.title_bar, cs.current_story_tag, light_white),
        res.user_info@ == user_info_spans(
            match user {
                Some(u) => Some(*u),
                None => None,
            },
            cs.title_bar,
        ),
        res.description matches Some(d) && d@ == seq![(desc@, cs.title_bar)],
{
    construct_view_title_bar_with_nav(desc, NavTarget::NoTarget, user, cs, light_white)
}

/// The top bar of a story list: the strip with the list's tag active and
/// followed by the sort suffix, and the user; no description.
pub fn construct_story_view_top_bar(
    tag_index: usize,
    sort_mode: StorySortMode,
    user: Option<&UserInfo>,
    cs: &ComponentStyle,
    light_white: Color,
) -> (res: TitleBar)
    ensures
        cells_view(res.nav@) == nav_cells(
            NavTarget::StoryTag(tag_index),
            sort_suffix(sort_mode),
            cs.title_bar,
            cs.current_story_tag,
            light_white,
        ),
        res.user_info@ == user_info_spans(
            match user {
                Some(u) => Some(*u),
                None => None,
            },
            cs.title_bar,
        ),
        res.description is None,
{
    let suffix = sort_mode_suffix(sort_mode);
    let nav_cells = nav_strip(NavTarget::StoryTag(tag_index), suffix, cs, light_white);
    let user_info = build_user_info_text(cs.title_bar, user);
    TitleBar { nav: nav_cells, user_info, description: None }
}

/// The footer: the program's signature in bold, then the help button
/// showing the help keys, the back button and the quit button.
pub fn construct_footer_view(help_keys: &Keys, cs: &ComponentStyle) -> (res: (StyledText, Vec<String>))
    ensures
        res.0@ == seq![("Hacker News Terminal UI - made by AOME ©"@, cs.bold)],
        res.1@.len() == 3,
        res.1@[0]@ == "["@ + crate::keys::keys_text(help_keys.events@) + ": help] "@,
        res.1@[1]@ == "[back] "@,
        res.1@[2]@ == "[quit] "@,
{
    let sig = StyledText::styled("Hacker News Terminal UI - made by AOME ©", cs.bold);
    let mut help = String::from_str("[");
    let k = help_keys.to_text();
    help.append(k.as_str());
    help.append(": help] ");
    let buttons = vec![help, String::from_str("[back] "), String::from_str("[quit] ")];
    (sig, buttons)
}

} // verus!
