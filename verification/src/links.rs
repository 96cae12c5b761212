//! Link selection and the labels of the navigation strip.

use vstd::prelude::*;
use crate::query::StorySortMode;

verus! {

/// The story tags of the navigation strip, in F1..F5 order.
pub open spec fn story_tags() -> Seq<Seq<char>> {
    seq!["front_page"@, "story"@, "ask_hn"@, "show_hn"@, "job"@]
}

/// The story tags of the navigation strip, in F1..F5 order.
pub fn story_tags_list() -> (res: Vec<&'static str>)
    ensures
        res@.map_values(|s: &str| s@) == story_tags(),
{
    let v = vec!["front_page", "story", "ask_hn", "show_hn", "job"];
    assert(v@.map_values(|s: &str| s@) =~= story_tags());
    v
}

/// Which entry of the navigation strip a view highlights.
#[derive(Debug, Clone, Copy, PartialEq, Eq, Structural)]
pub enum NavTarget {
    NoTarget,
    StoryTag(usize),
    MyThreads,
    Search,
}

/// The `i`-th link, counting from 1; `None` when `i` is 0 or past the
/// last link.
pub fn nth_link(links: &[String], i: usize) -> (res: Option<&str>)
    ensures
        0 < i <= links@.len() ==> (res matches Some(s) && s@ == links@[i - 1]@),
        !(0 < i <= links@.len()) ==> res is None,
{
    if i > 0 && i <= links.len() {
        Some(links[i - 1].as_str())
    } else {
        None
    }
}

/// The link to open in the browser for a typed number `i`, if any: none
/// when `i` is 0 or past the last link, or when that link is empty (the
/// browser opens nothing for an empty URL).
pub fn open_ith_link_in_browser(links: &[String], i: usize) -> (res: Option<String>)
    ensures
        0 < i <= links@.len() && links@[i - 1]@.len() > 0 ==> (res matches Some(s) && s@ == links@[i - 1]@),
        !(0 < i <= links@.len() && links@[i - 1]@.len() > 0) ==> res is None,
{
    match nth_link(links, i) {
        Some(s) => {
            if s.is_empty() {
                None
            } else {
                Some(String::from_str(s))
            }
        },
        None => None,
    }
}

/// The link to open in an article view for a typed number `i`, if any.
pub fn open_ith_link_in_article_view(links: &[String], i: usize) -> (res: Option<String>)
    ensures
        0 < i <= links@.len() ==> (res matches Some(s) && s@ == links@[i - 1]@),
        !(0 < i <= links@.len()) ==> res is None,
{
    match nth_link(links, i) {
        Some(s) => Some(String::from_str(s)),
        None => None,
    }
}

/// The suffix shown after the active story tag for a sort mode.
pub open spec fn sort_suffix(m: StorySortMode) -> Seq<char> {
    match m {
        StorySortMode::NoSort => Seq::empty(),
        StorySortMode::Date => " (by_date)"@,
        StorySortMode::Points => " (by_point)"@,
    }
}

/// The suffix shown after the active story tag for a sort mode.
pub fn sort_mode_suffix(m: StorySortMode) -> (res: &'static str)
    ensures
        res@ == sort_suffix(m),
{
    proof {
        reveal_strlit("");
    }
    match m {
        StorySortMode::NoSort => "",
        StorySortMode::Date => " (by_date)",
        StorySortMode::Points => " (by_point)",
    }
}

/// The label of the `i`-th story tag of the strip (0-based): its F-key
/// number, a dot and the tag, followed by the sort suffix when active.
pub open spec fn nav_label(i: nat, tag: Seq<char>, active: bool, suffix: Seq<char>) -> Seq<char> {
    crate::text::decimal(i + 1) + "."@ + tag + (if active {
        suffix
    } else {
        Seq::empty()
    })
}

/// The label of the `i`-th story tag of the strip.
pub fn story_tag_label(i: usize, tag: &str, active: bool, suffix: &str) -> (res: String)
    requires
        i < 5,
    ensures
        res@ == nav_label(i as nat, tag@, active, suffix@),
{
    let mut s = crate::text::decimal_string((i + 1) as u64);
    s.append(".");
    s.append(tag);
    if active {
        s.append(suffix);
    }
    proof {
        reveal_strlit("");
    }
    assert(s@ =~= nav_label(i as nat, tag@, active, suffix@));
    s
}

} // verus!
