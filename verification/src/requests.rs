//! What the client sends to and takes from Hacker News around its requests:
//! request URLs, the root item of a page, the order of fetched stories, the
//! link to a page's next part, and numeric item ids.

use vstd::prelude::*;
use crate::markup::{find_char, find_char_exec, find_from, find_from_exec, occurs_at, occurs_at_exec};
use crate::model::{Comment, Story, VoteDirection};
use crate::responses::ItemResponse;
use crate::text::decimal;

verus! {

/// The root item of a page: a story or a comment.
#[derive(Debug, Clone)]
pub enum PageRoot {
    Story(Story),
    Comment(Comment),
}

/// `s` with every `from` character replaced by `to`.
pub open spec fn replace_char(s: Seq<char>, from: char, to: Seq<char>) -> Seq<char>
    decreases s.len(),
{
    if s.len() == 0 {
        Seq::empty()
    } else {
        replace_char(s.drop_last(), from, to) + (if s.last() == from {
            to
        } else {
            seq![s.last()]
        })
    }
}

/// `s` with every `from` character replaced by `to`.
pub fn replace_char_exec(s: &Vec<char>, from: char, to: &str) -> (res: Vec<char>)
    ensures
        res@ == replace_char(s@, from, to@),
{
    let to_v = crate::text::chars_of(to);
    let mut out: Vec<char> = Vec::new();
    let mut k: usize = 0;
    while k < s.len()
        invariant
            k <= s@.len(),
            to_v@ == to@,
            out@ == replace_char(s@.take(k as int), from, to@),
        decreases s.len() - k,
    {
        assert(s@.take(k + 1).drop_last() =~= s@.take(k as int));
        if s[k] == from {
            let mut j: usize = 0;
            let ghost o0 = out@;
            while j < to_v.len()
                invariant
                    j <= to_v@.len(),
                    out@ == o0 + to_v@.take(j as int),
                decreases to_v.len() - j,
            {
                out.push(to_v[j]);
                j += 1;
                assert(out@ =~= o0 + to_v@.take(j as int));
            }
            assert(to_v@.take(to_v@.len() as int) =~= to_v@);
        } else {
            out.push(s[k]);
        }
        k += 1;
    }
    assert(s@.take(s@.len() as int) =~= s@);
    out
}

/// The title shown for a page without one: its text with line feeds made
/// spaces, cut to 64 characters and `...` when longer; a text of at most 64
/// characters is kept as it is.
pub open spec fn shortened_title(text: Seq<char>) -> Seq<char> {
    let flat = replace_char(text, '\n', " "@);
    if flat.len() > 64 {
        flat.take(64) + "..."@
    } else {
        text
    }
}

proof fn lemma_replace_char_len(s: Seq<char>)
    ensures
        replace_char(s, '\n', " "@).len() == s.len(),
    decreases s.len(),
{
    reveal_strlit(" ");
    if s.len() > 0 {
        lemma_replace_char_len(s.drop_last());
    }
}

/// The URL of an item's discussion page.
pub open spec fn item_page_url(id: u32) -> Seq<char> {
    "https://news.ycombinator.com"@ + "/item?id="@ + decimal(id as nat)
}

/// The value of a page root: its kind, and the story or comment.
pub open spec fn page_root_ok(r: PageRoot, item: ItemResponse, item_id: u32, title: Seq<char>, url: Seq<char>) -> bool {
    let text = crate::utils::html_entities_decoded(crate::responses::opt_chars(item.text));
    match r {
        PageRoot::Story(s) => {
            &&& item.typ@ == "story"@
            &&& s.id == item_id
            &&& s.url@ == url
            &&& s.author@ == crate::responses::opt_chars(item.by)
            &&& s.points == (match item.score {
                Some(p) => p,
                None => 0,
            })
            &&& s.num_comments == (match item.descendants {
                Some(n) => n,
                None => 0,
            })
            &&& s.time == item.time
            &&& s.title@ == title
            &&& s.content@ == text
            &&& s.dead == item.dead
            &&& s.flagged == item.flagged
        },
        PageRoot::Comment(c) => {
            &&& item.typ@ == "comment"@
            &&& c@ == crate::model::CommentV {
                id: item_id,
                level: 0,
                n_children: 0,
                author: crate::responses::opt_chars(item.by),
                time: item.time,
                content: text,
                dead: item.dead,
                flagged: item.flagged,
                points: None,
                parent_story_id: None,
            }
        },
    }
}

/// The title, URL and root item of the page of item `item_id`: the item's
/// title, or its shortened text; its URL, or its discussion page; a story
/// or a comment after its type, any other type being an error.
pub fn page_root_from_item(item: &ItemResponse, item_id: u32) -> (res: Result<(String, String, PageRoot), String>)
    ensures
        ({
            let text = crate::utils::html_entities_decoded(crate::responses::opt_chars(item.text));
            let title = match item.title {
                Some(t) => t@,
                None => shortened_title(text),
            };
            let url = match item.url {
                Some(u) => u@,
                None => item_page_url(item_id),
            };
            match res {
                Ok((t, u, r)) => t@ == title && u@ == url && page_root_ok(r, *item, item_id, title, url),
                Err(msg) => item.typ@ != "story"@ && item.typ@ != "comment"@ && msg@ == "unknown item type: "@ + item.typ@,
            }
        }),
{
    let raw = match &item.text {
        Some(t) => String::from_str(t.as_str()),
        None => String::new(),
    };
    let text = crate::utils::decode_html(raw.as_str());
    let chars = crate::text::chars_of(text.as_str());
    let flat = replace_char_exec(&chars, '\n', " ");
    proof {
        lemma_replace_char_len(chars@);
        reveal_strlit("...");
    }
    let shortened = if flat.len() > 64 {
        let mut v = crate::scan::copy_range(&flat, 0, 64);
        v.push('.');
        v.push('.');
        v.push('.');
        assert(v@ =~= flat@.take(64) + "..."@);
        crate::text::string_of(v.as_slice())
    } else {
        String::from_str(text.as_str())
    };
    let url = match &item.url {
        Some(u) => String::from_str(u.as_str()),
        None => {
            let mut s = String::from_str(crate::responses::HN_HOST_URL);
            s.append("/item?id=");
            let id = crate::text::decimal_string(item_id as u64);
            s.append(id.as_str());
            proof {
                reveal_strlit("https://news.ycombinator.com");
            }
            s
        },
    };
    let title = match &item.title {
        Some(t) => String::from_str(t.as_str()),
        None => shortened,
    };
    let author = match &item.by {
        Some(b) => String::from_str(b.as_str()),
        None => String::new(),
    };
    if crate::query::str_eq(item.typ.as_str(), "story") {
        let story = Story {
            id: item_id,
            url: String::from_str(url.as_str()),
            author,
            points: match item.score {
                Some(p) => p,
                None => 0,
            },
            num_comments: match item.descendants {
                Some(n) => n,
                None => 0,
            },
            time: item.time,
            title: String::from_str(title.as_str()),
            content: text,
            dead: item.dead,
            flagged: item.flagged,
        };
        Ok((title, url, PageRoot::Story(story)))
    } else if crate::query::str_eq(item.typ.as_str(), "comment") {
        let comment = Comment {
            id: item_id,
            level: 0,
            n_children: 0,
            author,
            time: item.time,
            content: text,
            dead: item.dead,
            flagged: item.flagged,
            points: None,
            parent_story_id: None,
        };
        Ok((title, url, PageRoot::Comment(comment)))
    } else {
        let mut msg = String::from_str("unknown item type: ");
        msg.append(item.typ.as_str());
        Err(msg)
    }
}

/// What `str::parse::<u32>` gives for a text: an optional `+`, then one
/// or more ASCII digits whose value fits `u32`.
pub open spec fn parsed_u32(s: Seq<char>) -> Option<u32> {
    let d = unsigned_digits(s);
    if d.len() > 0 && all_digits(d) && crate::scan::digits_value(d) <= u32::MAX {
        Some(crate::scan::digits_value(d) as u32)
    } else {
        None
    }
}

/// A text without its leading `+`, if it has one.
pub open spec fn unsigned_digits(s: Seq<char>) -> Seq<char> {
    if s.len() > 0 && s[0] == '+' {
        s.skip(1)
    } else {
        s
    }
}

/// Every character is an ASCII digit.
pub open spec fn all_digits(d: Seq<char>) -> bool {
    forall|i: int| 0 <= i < d.len() ==> crate::scan::is_digit(#[trigger] d[i])
}

/// Parses a decimal `u32` as `str::parse::<u32>` does.
pub fn parse_u32(s: &str) -> (res: Option<u32>)
    ensures
        res == parsed_u32(s@),
{
    let t = crate::text::chars_of(s);
    let start: usize = if t.len() > 0 && t[0] == '+' {
        1
    } else {
        0
    };
    let ghost d = unsigned_digits(s@);
    assert(t@.subrange(start as int, t@.len() as int) =~= d);
    if start >= t.len() {
        return None;
    }
    let mut k = start;
    while k < t.len()
        invariant
            start <= k <= t@.len(),
            t@ == s@,
            t@.subrange(start as int, t@.len() as int) == d,
            d == unsigned_digits(s@),
            forall|i: int| start <= i < k ==> crate::scan::is_digit(#[trigger] t@[i]),
        decreases t.len() - k,
    {
        if !('0' <= t[k] && t[k] <= '9') {
            assert(d[k - start] == t@[k as int]);
            assert(!crate::scan::is_digit(d[k - start]));
            return None;
        }
        k += 1;
    }
    assert forall|i: int| 0 <= i < d.len() implies crate::scan::is_digit(#[trigger] d[i]) by {
        assert(d[i] == t@[i + start]);
    }
    match crate::scan::digits_value_upto(&t, start, t.len(), u32::MAX as u64) {
        Some(v) => Some(v as u32),
        None => None,
    }
}

/// What `str::parse::<usize>` gives for a text: an optional `+`, then one
/// or more ASCII digits whose value fits `usize`.
pub open spec fn parsed_usize(s: Seq<char>) -> Option<usize> {
    let d = unsigned_digits(s);
    if d.len() > 0 && all_digits(d) && crate::scan::digits_value(d) <= usize::MAX {
        Some(crate::scan::digits_value(d) as usize)
    } else {
        None
    }
}

/// Parses a decimal `usize` as `str::parse::<usize>` does.
pub fn parse_usize(s: &str) -> (res: Option<usize>)
    ensures
        res == parsed_usize(s@),
{
    let t = crate::text::chars_of(s);
    let start: usize = if t.len() > 0 && t[0] == '+' {
        1
    } else {
        0
    };
    let ghost d = unsigned_digits(s@);
    assert(t@.subrange(start as int, t@.len() as int) =~= d);
    if start >= t.len() {
        return None;
    }
    let mut k = start;
    while k < t.len()
        invariant
            start <= k <= t@.len(),
            t@ == s@,
            t@.subrange(start as int, t@.len() as int) == d,
            d == unsigned_digits(s@),
            forall|i: int| start <= i < k ==> crate::scan::is_digit(#[trigger] t@[i]),
        decreases t.len() - k,
    {
        if !('0' <= t[k] && t[k] <= '9') {
            assert(d[k - start] == t@[k as int]);
            assert(!crate::scan::is_digit(d[k - start]));
            return None;
        }
        k += 1;
    }
    assert forall|i: int| 0 <= i < d.len() implies crate::scan::is_digit(#[trigger] d[i]) by {
        assert(d[i] == t@[i + start]);
    }
    match crate::scan::digits_value_upto(&t, start, t.len(), usize::MAX as u64) {
        Some(v) => Some(v as usize),
        None => None,
    }
}

/// The entries whose key parses as a `u32`, keyed by that number, in order.
pub open spec fn numeric_keys<V>(entries: Seq<(Seq<char>, V)>) -> Seq<(u32, V)>
    decreases entries.len(),
{
    if entries.len() == 0 {
        Seq::empty()
    } else {
        numeric_keys(entries.drop_last()) + (match parsed_u32(entries.last().0) {
            Some(id) => seq![(id, entries.last().1)],
            None => Seq::empty(),
        })
    }
}

/// The keys of a table as characters.
pub open spec fn keyed_view<V>(v: Seq<(String, V)>) -> Seq<(Seq<char>, V)> {
    v.map_values(|e: (String, V)| (e.0@, e.1))
}

/// Keeps the entries whose key is a number, keyed by that number.
pub fn with_numeric_keys<V>(entries: Vec<(String, V)>) -> (res: Vec<(u32, V)>)
    ensures
        res@ == numeric_keys(keyed_view(entries@)),
{
    let ghost all = keyed_view(entries@);
    let mut rest = entries;
    let mut out: Vec<(u32, V)> = Vec::new();
    let n = rest.len();
    let mut i: usize = 0;
    while i < n
        invariant
            n == all.len(),
            i <= n,
            rest@.len() == n - i,
            forall|k: int| 0 <= k < rest@.len() ==> (#[trigger] rest@[k]).0@ == all[i + k].0 && rest@[k].1 == all[i + k].1,
            out@ == numeric_keys(all.take(i as int)),
        decreases n - i,
    {
        let ghost r0 = rest@;
        let (key, value) = rest.remove(0);
        assert(all.take(i + 1).drop_last() =~= all.take(i as int));
        assert forall|k: int| 0 <= k < rest@.len() implies (#[trigger] rest@[k]).0@ == all[i + 1 + k].0 && rest@[k].1 == all[i + 1 + k].1 by {
            assert(rest@[k] == r0[k + 1]);
        }
        match parse_u32(key.as_str()) {
            Some(id) => {
                out.push((id, value));
            },
            None => {},
        }
        assert(out@ =~= numeric_keys(all.take(i + 1)));
        i += 1;
    }
    assert(all.take(n as int) =~= all);
    out
}

/// The entry of a table keyed by the decimal form of `id`, if any.
pub fn entry_for_item<V>(entries: Vec<(String, V)>, id: u32) -> (res: Option<V>)
    ensures
        match res {
            Some(v) => exists|i: int| 0 <= i < entries@.len() && (#[trigger] entries@[i]).0@ == decimal(id as nat) && entries@[i].1 == v,
            None => forall|i: int| 0 <= i < entries@.len() ==> (#[trigger] entries@[i]).0@ != decimal(id as nat),
        },
{
    let key = crate::text::decimal_string(id as u64);
    let ghost all = entries@;
    let mut rest = entries;
    let n = rest.len();
    let mut i: usize = 0;
    while i < n
        invariant
            n == all.len(),
            i <= n,
            key@ == decimal(id as nat),
            all == entries@,
            rest@.len() == n - i,
            forall|k: int| 0 <= k < rest@.len() ==> #[trigger] rest@[k] == all[i + k],
            forall|k: int| 0 <= k < i ==> (#[trigger] all[k]).0@ != decimal(id as nat),
        decreases n - i,
    {
        let ghost r0 = rest@;
        let (k, v) = rest.remove(0);
        assert(all[i as int] == (k, v));
        assert forall|j: int| 0 <= j < rest@.len() implies #[trigger] rest@[j] == all[i + 1 + j] by {
            assert(rest@[j] == r0[j + 1]);
        }
        if crate::query::str_eq(k.as_str(), key.as_str()) {
            assert(entries@[i as int].0@ == decimal(id as nat) && entries@[i as int].1 == v);
            return Some(v);
        }
        i += 1;
    }
    None
}

/// The URL that applies or takes back a vote: `how` is `up`, `down`, or
/// `un` to take the vote back.
pub open spec fn vote_url_spec(id: u32, auth: Seq<char>, new_vote: Option<VoteDirection>) -> Seq<char> {
    "https://news.ycombinator.com"@ + "/vote?id="@ + decimal(id as nat) + "&how="@ + (match new_vote {
        Some(VoteDirection::Up) => "up"@,
        Some(VoteDirection::Down) => "down"@,
        None => "un"@,
    }) + "&auth="@ + auth
}

/// The URL of a vote request.
pub fn vote_url(id: u32, auth: &str, new_vote: Option<VoteDirection>) -> (res: String)
    ensures
        res@ == vote_url_spec(id, auth@, new_vote),
{
    let how = match new_vote {
        Some(dir) => dir.as_how_param(),
        None => "un",
    };
    let mut s = String::from_str(crate::responses::HN_HOST_URL);
    s.append("/vote?id=");
    let n = crate::text::decimal_string(id as u64);
    s.append(n.as_str());
    s.append("&how=");
    s.append(how);
    s.append("&auth=");
    s.append(auth);
    proof {
        reveal_strlit("https://news.ycombinator.com");
    }
    s
}

/// The URL that vouches for a dead item (`how=up`) or takes a vouch back
/// (`how=un`).
pub open spec fn vouch_url_spec(id: u32, auth: Seq<char>, rescind: bool) -> Seq<char> {
    "https://news.ycombinator.com"@ + "/vouch?id="@ + decimal(id as nat) + "&how="@ + (if rescind {
        "un"@
    } else {
        "up"@
    }) + "&auth="@ + auth
}

/// The URL of a vouch request.
pub fn vouch_url(id: u32, auth: &str, rescind: bool) -> (res: String)
    ensures
        res@ == vouch_url_spec(id, auth@, rescind),
{
    let mut s = String::from_str(crate::responses::HN_HOST_URL);
    s.append("/vouch?id=");
    let n = crate::text::decimal_string(id as u64);
    s.append(n.as_str());
    s.append("&how=");
    s.append(if rescind {
        "un"
    } else {
        "up"
    });
    s.append("&auth=");
    s.append(auth);
    proof {
        reveal_strlit("https://news.ycombinator.com");
    }
    s
}

/// The URL of page `hn_page` of an HN listing, with the dead-items query
/// when `showdead`.
pub open spec fn listing_url_spec(path: Seq<char>, hn_page: u64, showdead: bool) -> Seq<char> {
    "https://news.ycombinator.com"@ + "/"@ + path + "?p="@ + decimal(hn_page as nat) + (if showdead {
        "&showdead=yes"@
    } else {
        Seq::empty()
    })
}

/// The URL of a page of an HN listing.
pub fn listing_url(path: &str, hn_page: u64, showdead: bool) -> (res: String)
    ensures
        res@ == listing_url_spec(path@, hn_page, showdead),
{
    let mut s = String::from_str(crate::responses::HN_HOST_URL);
    s.append("/");
    s.append(path);
    s.append("?p=");
    let n = crate::text::decimal_string(hn_page);
    s.append(n.as_str());
    let suffix = crate::hn_forms::showdead_query_suffix("&", showdead);
    s.append(suffix.as_str());
    proof {
        reveal_strlit("https://news.ycombinator.com");
        reveal_strlit("&");
        reveal_strlit("showdead=yes");
        reveal_strlit("&showdead=yes");
    }
    assert(s@ =~= listing_url_spec(path@, hn_page, showdead));
    s
}

/// The URL of an item's HN page, with the dead-items query when `showdead`.
pub fn item_html_url(item_id: u32, showdead: bool) -> (res: String)
    ensures
        res@ == item_page_url(item_id) + (if showdead {
            "&showdead=yes"@
        } else {
            Seq::empty()
        }),
{
    let mut s = String::from_str(crate::responses::HN_HOST_URL);
    s.append("/item?id=");
    let n = crate::text::decimal_string(item_id as u64);
    s.append(n.as_str());
    let suffix = crate::hn_forms::showdead_query_suffix("&", showdead);
    s.append(suffix.as_str());
    proof {
        reveal_strlit("https://news.ycombinator.com");
        reveal_strlit("&");
        reveal_strlit("showdead=yes");
        reveal_strlit("&showdead=yes");
    }
    assert(s@ =~= item_page_url(item_id) + (if showdead {
        "&showdead=yes"@
    } else {
        Seq::empty()
    }));
    s
}

/// The prefix of the HN Algolia API.
pub const HN_ALGOLIA_PREFIX: &'static str = "https://hn.algolia.com/api/v1";

/// The prefix of the official HN API.
pub const HN_OFFICIAL_PREFIX: &'static str = "https://hacker-news.firebaseio.com/v0";

/// The fixed part of a story search query.
pub const HN_SEARCH_QUERY_STRING: &'static str = "tags=story&restrictSearchableAttributes=title,url&typoTolerance=false";

/// A link to a further part of the page at `i`: `<a`, then on the same
/// line `href='LINK'`, later `class='morelink'` and a `>`; the range of
/// `LINK`.
pub open spec fn morelink_at(t: Seq<char>, i: int) -> Option<(int, int)> {
    let nl = find_char(t, '\n', i);
    let line_end = if nl < 0 {
        t.len() as int
    } else {
        nl
    };
    let h = find_from(t, "href='"@, i + 2);
    let q = find_char(t, '\'', h + 6);
    let c = find_from(t, "class='morelink'"@, q + 1);
    let g = find_char(t, '>', c + 16);
    if occurs_at(t, "<a"@, i) && h >= 0 && h + 6 <= line_end && q >= 0 && q < line_end && c >= 0 && c + 16 <= line_end
        && g >= 0 && g < line_end {
        Some((h + 6, q))
    } else {
        None
    }
}

pub open spec fn morelink_finder(t: Seq<char>) -> spec_fn(int) -> Option<(int, int)> {
    |i: int| morelink_at(t, i)
}

/// The URL of the next part of a page, when it links one: the first
/// `morelink` link, `&amp;` read as `&`, under the HN host.
pub open spec fn next_page_url(t: Seq<char>) -> Option<Seq<char>> {
    match crate::scan::first_from(t.len() as int, morelink_finder(t), 0) {
        Some((_, (a, b))) => Some(
            "https://news.ycombinator.com"@ + "/"@ + crate::markup::replace_from(t.subrange(a, b), "&amp;"@, "&"@, 0),
        ),
        None => None,
    }
}

fn morelink_at_exec(t: &Vec<char>, i: usize, a_open: &Vec<char>, href: &Vec<char>, class: &Vec<char>) -> (res: Option<(usize, usize)>)
    requires
        a_open@ == "<a"@,
        href@ == "href='"@,
        class@ == "class='morelink'"@,
    ensures
        match res {
            Some((a, b)) => morelink_at(t@, i as int) == Some((a as int, b as int)),
            None => morelink_at(t@, i as int) is None,
        },
{
    proof {
        reveal_strlit("<a");
        reveal_strlit("href='");
        reveal_strlit("class='morelink'");
    }
    if !occurs_at_exec(t, a_open, i) {
        return None;
    }
    let line_end = match find_char_exec(t, '\n', i) {
        Some(nl) => nl,
        None => t.len(),
    };
    proof {
        crate::markup::lemma_find_char_bounds(t@, '\n', i as int);
        crate::markup::lemma_find_from_bounds(t@, "href='"@, i + 2);
    }
    let h = match find_from_exec(t, href, i + 2) {
        Some(h) => h,
        None => return None,
    };
    if h + 6 > line_end {
        return None;
    }
    let q = match find_char_exec(t, '\'', h + 6) {
        Some(q) => q,
        None => return None,
    };
    proof {
        crate::markup::lemma_find_char_bounds(t@, '\'', h + 6);
    }
    if q >= line_end {
        return None;
    }
    proof {
        crate::markup::lemma_find_from_bounds(t@, "class='morelink'"@, q + 1);
    }
    let c = match find_from_exec(t, class, q + 1) {
        Some(c) => c,
        None => return None,
    };
    if c + 16 > line_end {
        return None;
    }
    proof {
        crate::markup::lemma_find_char_bounds(t@, '>', c + 16);
    }
    match find_char_exec(t, '>', c + 16) {
        Some(g) => if g < line_end {
            Some((h + 6, q))
        } else {
            None
        },
        None => None,
    }
}

/// The URL of the next part of a page (HN splits long threads), if the page
/// links one.
pub fn next_page_link(body: &str) -> (res: Option<String>)
    ensures
        match res {
            Some(u) => next_page_url(body@) == Some(u@),
            None => next_page_url(body@) is None,
        },
{
    let t = crate::text::chars_of(body);
    let a_open = crate::text::chars_of("<a");
    let href = crate::text::chars_of("href='");
    let class = crate::text::chars_of("class='morelink'");
    let mut i: usize = 0;
    while i < t.len()
        invariant
            t@ == body@,
            a_open@ == "<a"@,
            href@ == "href='"@,
            class@ == "class='morelink'"@,
            crate::scan::first_from(t@.len() as int, morelink_finder(t@), 0) == crate::scan::first_from(
                t@.len() as int,
                morelink_finder(t@),
                i as int,
            ),
        decreases t.len() - i,
    {
        if let Some((a, b)) = morelink_at_exec(&t, i, &a_open, &href, &class) {
            assert(crate::scan::first_from(t@.len() as int, morelink_finder(t@), i as int) == Some(
                (i as int, (a as int, b as int)),
            ));
            proof {
                reveal_strlit("href='");
                crate::markup::lemma_find_from_bounds(t@, "href='"@, i + 2);
                let h = find_from(t@, "href='"@, i + 2);
                crate::markup::lemma_find_char_bounds(t@, '\'', h + 6);
            }
            let link = crate::scan::copy_range(&t, a, b);
            let amp = crate::text::chars_of("&amp;");
            let plain = crate::text::chars_of("&");
            proof {
                reveal_strlit("&amp;");
            }
            let fixed = crate::markup::replace_chars(&link, &amp, &plain);
            let mut url = String::from_str(crate::responses::HN_HOST_URL);
            url.append("/");
            let tail = crate::text::string_of(fixed.as_slice());
            url.append(tail.as_str());
            proof {
                reveal_strlit("https://news.ycombinator.com");
            }
            return Some(url);
        }
        i += 1;
    }
    None
}

/// The endpoint of the official API that lists a tag's story ids, for the
/// tags HN ranks itself.
pub open spec fn story_ids_endpoint_spec(tag: Seq<char>) -> Option<Seq<char>> {
    if tag == "front_page"@ {
        Some("/topstories.json"@)
    } else if tag == "ask_hn"@ {
        Some("/askstories.json"@)
    } else if tag == "show_hn"@ {
        Some("/showstories.json"@)
    } else {
        None
    }
}

/// The official endpoint listing a tag's story ids, or an error naming an
/// unsupported tag.
pub fn story_ids_endpoint(tag: &str) -> (res: Result<&'static str, String>)
    ensures
        match res {
            Ok(e) => story_ids_endpoint_spec(tag@) == Some(e@),
            Err(m) => story_ids_endpoint_spec(tag@) is None && m@ == "unsupported story tag "@ + tag@,
        },
{
    if crate::query::str_eq(tag, "front_page") {
        Ok("/topstories.json")
    } else if crate::query::str_eq(tag, "ask_hn") {
        Ok("/askstories.json")
    } else if crate::query::str_eq(tag, "show_hn") {
        Ok("/showstories.json")
    } else {
        let mut m = String::from_str("unsupported story tag ");
        m.append(tag);
        Err(m)
    }
}

/// The ids of a TUI page: `page_size` ids from `page_size * page`, fewer at
/// the end, none past it.
pub fn page_id_range(len: usize, page: usize, page_size: usize) -> (res: Option<(usize, usize)>)
    requires
        page_size * (page + 1) <= usize::MAX,
    ensures
        match res {
            Some((a, b)) => a == page_size * page && a < len && b == (if a + page_size < len {
                a + page_size
            } else {
                len as int
            }),
            None => page_size * page >= len,
        },
{
    assert(page_size * page + page_size == page_size * (page + 1)) by (nonlinear_arith);
    assert(page_size * page <= page_size * (page + 1)) by (nonlinear_arith);
    let start = page_size * page;
    if start >= len {
        return None;
    }
    let end = if start + page_size < len {
        start + page_size
    } else {
        len
    };
    Some((start, end))
}

/// `story_ID,` for each id, in order.
pub open spec fn story_tags_of(ids: Seq<u32>) -> Seq<char>
    decreases ids.len(),
{
    if ids.len() == 0 {
        Seq::empty()
    } else {
        story_tags_of(ids.drop_last()) + "story_"@ + decimal(ids.last() as nat) + ","@
    }
}

/// The Algolia query for the stories with the given ids.
pub open spec fn stories_by_ids_url_spec(ids: Seq<u32>, filters: Seq<char>, page_size: u64) -> Seq<char> {
    "https://hn.algolia.com/api/v1"@ + "/search?tags=story,("@ + story_tags_of(ids) + ")"@ + filters + "&hitsPerPage="@
        + decimal(page_size as nat)
}

/// The Algolia query for the stories with the given ids.
pub fn stories_by_ids_url(ids: &[u32], filters: &str, page_size: u64) -> (res: String)
    ensures
        res@ == stories_by_ids_url_spec(ids@, filters@, page_size),
{
    let mut s = String::from_str(HN_ALGOLIA_PREFIX);
    s.append("/search?tags=story,(");
    let ghost s0 = s@;
    let mut k: usize = 0;
    while k < ids.len()
        invariant
            k <= ids@.len(),
            s@ == s0 + story_tags_of(ids@.take(k as int)),
        decreases ids.len() - k,
    {
        assert(ids@.take(k + 1).drop_last() =~= ids@.take(k as int));
        s.append("story_");
        let n = crate::text::decimal_string(ids[k] as u64);
        s.append(n.as_str());
        s.append(",");
        k += 1;
        assert(s@ =~= s0 + story_tags_of(ids@.take(k as int)));
    }
    assert(ids@.take(ids@.len() as int) =~= ids@);
    s.append(")");
    s.append(filters);
    s.append("&hitsPerPage=");
    let n = crate::text::decimal_string(page_size);
    s.append(n.as_str());
    proof {
        reveal_strlit("https://hn.algolia.com/api/v1");
    }
    assert(s@ =~= stories_by_ids_url_spec(ids@, filters@, page_size));
    s
}

/// The Algolia query for a tag's stories sorted by date or points, or
/// `None` for the HN ranking (no sort), which goes through the ids.
pub open spec fn stories_by_tag_url_spec(
    tag: Seq<char>,
    sort_mode: crate::query::StorySortMode,
    page_size: u64,
    page: u64,
    filters: Seq<char>,
) -> Option<Seq<char>> {
    match sort_mode {
        crate::query::StorySortMode::NoSort => None,
        _ => Some(
            "https://hn.algolia.com/api/v1"@ + "/"@ + (if sort_mode == crate::query::StorySortMode::Date {
                "search_by_date"@
            } else {
                "search"@
            }) + "?tags="@ + tag + "&hitsPerPage="@ + decimal(page_size as nat) + "&page="@ + decimal(page as nat)
                + filters,
        ),
    }
}

/// A listing sorted by date asks Algolia's date-ordered endpoint
/// (`search_by_date`), one sorted by points its relevance endpoint
/// (`search`), and the HN ranking is no Algolia query.
pub proof fn listing_endpoint_follows_the_sort(tag: Seq<char>, page_size: u64, page: u64, filters: Seq<char>)
    ensures
        stories_by_tag_url_spec(tag, crate::query::StorySortMode::Date, page_size, page, filters) matches Some(u)
            && "https://hn.algolia.com/api/v1/search_by_date?tags="@.is_prefix_of(u),
        stories_by_tag_url_spec(tag, crate::query::StorySortMode::Points, page_size, page, filters) matches Some(u)
            && "https://hn.algolia.com/api/v1/search?tags="@.is_prefix_of(u),
        stories_by_tag_url_spec(tag, crate::query::StorySortMode::NoSort, page_size, page, filters) is None,
{
    reveal_strlit("https://hn.algolia.com/api/v1");
    reveal_strlit("/");
    reveal_strlit("search_by_date");
    reveal_strlit("search");
    reveal_strlit("?tags=");
    reveal_strlit("https://hn.algolia.com/api/v1/search_by_date?tags=");
    reveal_strlit("https://hn.algolia.com/api/v1/search?tags=");
    let d = stories_by_tag_url_spec(tag, crate::query::StorySortMode::Date, page_size, page, filters).unwrap();
    let pl = "https://hn.algolia.com/api/v1/search_by_date?tags="@;
    assert(d.subrange(0, pl.len() as int) =~= pl);
    let r = stories_by_tag_url_spec(tag, crate::query::StorySortMode::Points, page_size, page, filters).unwrap();
    let pr = "https://hn.algolia.com/api/v1/search?tags="@;
    assert(r.subrange(0, pr.len() as int) =~= pr);
}

/// The Algolia query for a tag's stories in a sort mode other than none.
pub fn stories_by_tag_url(
    tag: &str,
    sort_mode: crate::query::StorySortMode,
    page_size: u64,
    page: u64,
    filters: &str,
) -> (res: Option<String>)
    ensures
        match res {
            Some(u) => stories_by_tag_url_spec(tag@, sort_mode, page_size, page, filters@) == Some(u@),
            None => stories_by_tag_url_spec(tag@, sort_mode, page_size, page, filters@) is None,
        },
        sort_mode == crate::query::StorySortMode::Date ==> (res matches Some(u)
            && "https://hn.algolia.com/api/v1/search_by_date?tags="@.is_prefix_of(u@)),
        sort_mode == crate::query::StorySortMode::Points ==> (res matches Some(u)
            && "https://hn.algolia.com/api/v1/search?tags="@.is_prefix_of(u@)),
{
    proof {
        listing_endpoint_follows_the_sort(tag@, page_size, page, filters@);
    }
    let op = match sort_mode {
        crate::query::StorySortMode::NoSort => return None,
        crate::query::StorySortMode::Date => "search_by_date",
        crate::query::StorySortMode::Points => "search",
    };
    let mut s = String::from_str(HN_ALGOLIA_PREFIX);
    s.append("/");
    s.append(op);
    s.append("?tags=");
    s.append(tag);
    s.append("&hitsPerPage=");
    let n = crate::text::decimal_string(page_size);
    s.append(n.as_str());
    s.append("&page=");
    let p = crate::text::decimal_string(page);
    s.append(p.as_str());
    s.append(filters);
    proof {
        reveal_strlit("https://hn.algolia.com/api/v1");
    }
    Some(s)
}

/// The Algolia search for stories, by relevance or by date (the query text
/// itself goes as a separate parameter).
pub open spec fn search_url_spec(by_date: bool, page_size: u64, page: u64) -> Seq<char> {
    "https://hn.algolia.com/api/v1"@ + "/"@ + (if by_date {
        "search_by_date"@
    } else {
        "search"@
    }) + "?"@ + "tags=story&restrictSearchableAttributes=title,url&typoTolerance=false"@ + "&hitsPerPage="@
        + decimal(page_size as nat) + "&page="@ + decimal(page as nat)
}

/// A search by date asks Algolia's date-ordered endpoint
/// (`search_by_date`), a search by relevance its relevance endpoint
/// (`search`).
pub proof fn search_endpoint_follows_the_mode(page_size: u64, page: u64)
    ensures
        "https://hn.algolia.com/api/v1/search_by_date?tags=story"@.is_prefix_of(search_url_spec(true, page_size, page)),
        "https://hn.algolia.com/api/v1/search?tags=story"@.is_prefix_of(search_url_spec(false, page_size, page)),
{
    reveal_strlit("https://hn.algolia.com/api/v1");
    reveal_strlit("/");
    reveal_strlit("search_by_date");
    reveal_strlit("search");
    reveal_strlit("?");
    reveal_strlit("tags=story&restrictSearchableAttributes=title,url&typoTolerance=false");
    reveal_strlit("https://hn.algolia.com/api/v1/search_by_date?tags=story");
    reveal_strlit("https://hn.algolia.com/api/v1/search?tags=story");
    let d = search_url_spec(true, page_size, page);
    let pl = "https://hn.algolia.com/api/v1/search_by_date?tags=story"@;
    assert(d.subrange(0, pl.len() as int) =~= pl);
    let r = search_url_spec(false, page_size, page);
    let pr = "https://hn.algolia.com/api/v1/search?tags=story"@;
    assert(r.subrange(0, pr.len() as int) =~= pr);
}

/// The Algolia search URL for stories.
pub fn search_url(by_date: bool, page_size: u64, page: u64) -> (res: String)
    ensures
        res@ == search_url_spec(by_date, page_size, page),
        by_date ==> "https://hn.algolia.com/api/v1/search_by_date?tags=story"@.is_prefix_of(res@),
        !by_date ==> "https://hn.algolia.com/api/v1/search?tags=story"@.is_prefix_of(res@),
{
    proof {
        search_endpoint_follows_the_mode(page_size, page);
    }
    let mut s = String::from_str(HN_ALGOLIA_PREFIX);
    s.append("/");
    s.append(if by_date {
        "search_by_date"
    } else {
        "search"
    });
    s.append("?");
    s.append(HN_SEARCH_QUERY_STRING);
    s.append("&hitsPerPage=");
    let n = crate::text::decimal_string(page_size);
    s.append(n.as_str());
    s.append("&page=");
    let p = crate::text::decimal_string(page);
    s.append(p.as_str());
    proof {
        reveal_strlit("https://hn.algolia.com/api/v1");
        reveal_strlit("tags=story&restrictSearchableAttributes=title,url&typoTolerance=false");
    }
    s
}

/// The Algolia query for a user's comments, newest first.
pub open spec fn user_comments_url_spec(username: Seq<char>, page_size: u64, page: u64) -> Seq<char> {
    "https://hn.algolia.com/api/v1"@ + "/search_by_date?tags=comment,author_"@ + username + "&hitsPerPage="@
        + decimal(page_size as nat) + "&page="@ + decimal(page as nat)
}

/// The Algolia query for a user's comments.
pub fn user_comments_url(username: &str, page_size: u64, page: u64) -> (res: String)
    ensures
        res@ == user_comments_url_spec(username@, page_size, page),
{
    let mut s = String::from_str(HN_ALGOLIA_PREFIX);
    s.append("/search_by_date?tags=comment,author_");
    s.append(username);
    s.append("&hitsPerPage=");
    let n = crate::text::decimal_string(page_size);
    s.append(n.as_str());
    s.append("&page=");
    let p = crate::text::decimal_string(page);
    s.append(p.as_str());
    proof {
        reveal_strlit("https://hn.algolia.com/api/v1");
    }
    s
}

/// The URL of an item on the Algolia API (with its comment tree).
pub fn algolia_item_url(id: u32) -> (res: String)
    ensures
        res@ == "https://hn.algolia.com/api/v1"@ + "/items/"@ + decimal(id as nat),
{
    let mut s = String::from_str(HN_ALGOLIA_PREFIX);
    s.append("/items/");
    let n = crate::text::decimal_string(id as u64);
    s.append(n.as_str());
    proof {
        reveal_strlit("https://hn.algolia.com/api/v1");
    }
    s
}

/// The URL of an item on the official API.
pub fn official_item_url(id: u32) -> (res: String)
    ensures
        res@ == "https://hacker-news.firebaseio.com/v0"@ + "/item/"@ + decimal(id as nat) + ".json"@,
{
    let mut s = String::from_str(HN_OFFICIAL_PREFIX);
    s.append("/item/");
    let n = crate::text::decimal_string(id as u64);
    s.append(n.as_str());
    s.append(".json");
    proof {
        reveal_strlit("https://hacker-news.firebaseio.com/v0");
    }
    s
}

/// The Algolia query for one story by id.
pub fn story_by_id_url(id: u32) -> (res: String)
    ensures
        res@ == "https://hn.algolia.com/api/v1"@ + "/search?tags=story,story_"@ + decimal(id as nat),
{
    let mut s = String::from_str(HN_ALGOLIA_PREFIX);
    s.append("/search?tags=story,story_");
    let n = crate::text::decimal_string(id as u64);
    s.append(n.as_str());
    proof {
        reveal_strlit("https://hn.algolia.com/api/v1");
    }
    s
}

/// The comments of one of the user's comment subtrees, as the threads view
/// shows them: the root's text after the `re:` header, and every comment
/// stamped with the parent story's id.
pub open spec fn stamped(cs: Seq<crate::model::CommentV>, header: Seq<char>, parent: Option<u32>) -> Seq<crate::model::CommentV> {
    Seq::new(
        cs.len(),
        |i: int| crate::model::CommentV {
            content: if i == 0 {
                header + cs[i].content
            } else {
                cs[i].content
            },
            parent_story_id: parent,
            ..cs[i]
        },
    )
}

/// Puts the header in front of the subtree root's text and stamps every
/// comment with the parent story's id.
pub fn stamp_subtree(comments: Vec<Comment>, header: &str, parent_story_id: Option<u32>) -> (res: Vec<Comment>)
    ensures
        crate::model::comments_view(res@) == stamped(crate::model::comments_view(comments@), header@, parent_story_id),
{
    let ghost orig = crate::model::comments_view(comments@);
    let mut cs = comments;
    let n = cs.len();
    if n > 0 {
        let mut text = String::from_str(header);
        text.append(cs[0].content.as_str());
        cs[0].content = text;
    }
    let mut i: usize = 0;
    while i < n
        invariant
            n == cs@.len(),
            orig.len() == n,
            i <= n,
            forall|k: int| 0 <= k < n ==> (#[trigger] cs@[k])@ == (crate::model::CommentV {
                content: if k == 0 {
                    header@ + orig[k].content
                } else {
                    orig[k].content
                },
                parent_story_id: if k < i {
                    parent_story_id
                } else {
                    orig[k].parent_story_id
                },
                ..orig[k]
            }),
        decreases n - i,
    {
        let ghost before = cs@;
        cs[i].parent_story_id = parent_story_id;
        assert forall|k: int| 0 <= k < n && k != i implies cs@[k] == before[k] by {}
        i += 1;
    }
    assert(crate::model::comments_view(cs@) =~= stamped(orig, header@, parent_story_id));
    cs
}

/// Each comment with the score the map has for its id, if any.
pub open spec fn with_scores(cs: Seq<crate::model::CommentV>, scores: Map<u32, u32>) -> Seq<crate::model::CommentV> {
    Seq::new(
        cs.len(),
        |i: int| crate::model::CommentV {
            points: if scores.dom().contains(cs[i].id) {
                Some(scores[cs[i].id])
            } else {
                cs[i].points
            },
            ..cs[i]
        },
    )
}

/// Gives each comment the score scraped for its id, when there is one.
pub fn apply_scores(comments: &mut Vec<Comment>, scores: &std::collections::HashMap<u32, u32>)
    ensures
        crate::model::comments_view(final(comments)@) == with_scores(crate::model::comments_view(old(comments)@), scores@),
{
    broadcast use vstd::std_specs::hash::group_hash_axioms;
    let ghost orig = crate::model::comments_view(comments@);
    let n = comments.len();
    let mut i: usize = 0;
    while i < n
        invariant
            n == comments@.len(),
            orig.len() == n,
            i <= n,
            forall|k: int| 0 <= k < i ==> (#[trigger] comments@[k])@ == with_scores(orig, scores@)[k],
            forall|k: int| i <= k < n ==> (#[trigger] comments@[k])@ == orig[k],
        decreases n - i,
    {
        assert(comments@[i as int]@ == orig[i as int]);
        let id = comments[i].id;
        let ghost before = comments@;
        match scores.get(&id) {
            Some(pts) => {
                comments[i].points = Some(*pts);
            },
            None => {},
        }
        assert forall|k: int| 0 <= k < n && k != i implies comments@[k] == before[k] by {}
        i += 1;
    }
    assert(crate::model::comments_view(comments@) =~= with_scores(orig, scores@));
}

/// The title of a user's threads page.
pub fn threads_title(username: &str) -> (res: String)
    ensures
        res@ == "Threads — "@ + username@,
{
    let mut s = String::from_str("Threads — ");
    s.append(username);
    s
}

/// The URL of a user's threads page on HN.
pub fn threads_url(username: &str, showdead: bool) -> (res: String)
    ensures
        res@ == "https://news.ycombinator.com"@ + "/threads?id="@ + username@ + (if showdead {
            "&showdead=yes"@
        } else {
            Seq::empty()
        }),
{
    let mut s = String::from_str(crate::responses::HN_HOST_URL);
    s.append("/threads?id=");
    s.append(username);
    let suffix = crate::hn_forms::showdead_query_suffix("&", showdead);
    s.append(suffix.as_str());
    proof {
        reveal_strlit("https://news.ycombinator.com");
        reveal_strlit("&");
        reveal_strlit("showdead=yes");
        reveal_strlit("&showdead=yes");
    }
    assert(s@ =~= "https://news.ycombinator.com"@ + "/threads?id="@ + username@ + (if showdead {
        "&showdead=yes"@
    } else {
        Seq::empty()
    }));
    s
}

/// The header of the threads view: its title in `style`, then a line on
/// whose comments and which page it shows.
pub fn threads_header(username: &str, page: u64, style: crate::theme::Style) -> (res: crate::styled::StyledText)
    ensures
        res@ == seq![
            ("Threads — "@ + username@, style),
            (
                "\nRecent comments (with replies) by "@ + username@ + ", page "@ + decimal(page as nat)
                    + ". Press `o` on a comment's `re:` link to jump to the parent thread on Hacker News."@,
                crate::theme::Style::plain_spec(),
            ),
        ],
{
    let title = threads_title(username);
    let mut res = crate::styled::StyledText::styled(title.as_str(), style);
    let mut line = String::from_str("\nRecent comments (with replies) by ");
    line.append(username);
    line.append(", page ");
    let p = crate::text::decimal_string(page);
    line.append(p.as_str());
    line.append(". Press `o` on a comment's `re:` link to jump to the parent thread on Hacker News.");
    res.append_plain(line.as_str());
    assert(res@ =~~= seq![
        ("Threads — "@ + username@, style),
        (
            "\nRecent comments (with replies) by "@ + username@ + ", page "@ + decimal(page as nat)
                + ". Press `o` on a comment's `re:` link to jump to the parent thread on Hacker News."@,
            crate::theme::Style::plain_spec(),
        ),
    ]);
    res
}

/// An article's text with each tab made four spaces, which every terminal
/// can show.
pub fn expand_tabs(content: &str) -> (res: String)
    ensures
        res@ == replace_char(content@, '\t', "    "@),
{
    let v = crate::text::chars_of(content);
    let out = replace_char_exec(&v, '\t', "    ");
    crate::text::string_of(out.as_slice())
}

/// The stories of `s` with id `id`, in order.
pub open spec fn with_id(s: Seq<Story>, id: u32) -> Seq<Story>
    decreases s.len(),
{
    if s.len() == 0 {
        Seq::empty()
    } else {
        with_id(s.drop_last(), id) + (if s.last().id == id {
            seq![s.last()]
        } else {
            Seq::empty()
        })
    }
}

/// The stories of `s` with another id than `id`, in order.
pub open spec fn without_id(s: Seq<Story>, id: u32) -> Seq<Story>
    decreases s.len(),
{
    if s.len() == 0 {
        Seq::empty()
    } else {
        without_id(s.drop_last(), id) + (if s.last().id != id {
            seq![s.last()]
        } else {
            Seq::empty()
        })
    }
}

/// `ids[p]` occurs in `ids` for the first time at `p`.
pub open spec fn first_at(ids: Seq<u32>, p: int) -> bool {
    forall|q: int| 0 <= q < p ==> ids[q] != ids[p]
}

/// The stories of `s` ordered as their ids first occur among the first
/// `k` of `ids`, stories of one id keeping their order (a stable sort by
/// the place of the id).
pub open spec fn ordered_by_ids(s: Seq<Story>, ids: Seq<u32>, k: int) -> Seq<Story>
    decreases k,
{
    if k <= 0 {
        Seq::empty()
    } else {
        ordered_by_ids(s, ids, k - 1) + (if first_at(ids, k - 1) {
            with_id(s, ids[k - 1])
        } else {
            Seq::empty()
        })
    }
}

/// The stories of `s` whose id is none of the first `k` of `ids`.
pub open spec fn left_after(s: Seq<Story>, ids: Seq<u32>, k: int) -> Seq<Story>
    decreases k,
{
    if k <= 0 {
        s
    } else {
        without_id(left_after(s, ids, k - 1), ids[k - 1])
    }
}

proof fn lemma_with_without(t: Seq<Story>, a: u32, b: u32)
    requires
        a != b,
    ensures
        with_id(without_id(t, a), b) == with_id(t, b),
    decreases t.len(),
{
    if t.len() > 0 {
        lemma_with_without(t.drop_last(), a, b);
        let w = without_id(t.drop_last(), a);
        if t.last().id != a {
            assert((w + seq![t.last()]).drop_last() =~= w);
        } else {
            assert(w + Seq::<Story>::empty() =~= w);
        }
    }
}

proof fn lemma_left_after(s: Seq<Story>, ids: Seq<u32>, p: int)
    requires
        0 <= p < ids.len(),
        first_at(ids, p),
    ensures
        forall|k: int| 0 <= k <= p ==> with_id(#[trigger] left_after(s, ids, k), ids[p]) == with_id(s, ids[p]),
{
    assert forall|k: int| 0 <= k <= p implies with_id(#[trigger] left_after(s, ids, k), ids[p]) == with_id(s, ids[p]) by {
        lemma_left_after_at(s, ids, p, k);
    }
}

proof fn lemma_left_after_at(s: Seq<Story>, ids: Seq<u32>, p: int, k: int)
    requires
        0 <= k <= p < ids.len(),
        first_at(ids, p),
    ensures
        with_id(left_after(s, ids, k), ids[p]) == with_id(s, ids[p]),
    decreases k,
{
    if k > 0 {
        lemma_left_after_at(s, ids, p, k - 1);
        assert(ids[k - 1] != ids[p]);
        lemma_with_without(left_after(s, ids, k - 1), ids[k - 1], ids[p]);
    }
}

/// Moves the stories of `remaining` with id `id` to the end of `out`,
/// keeping the others in `remaining`, each group in its order.
fn split_off_id(remaining: &mut Vec<Story>, out: &mut Vec<Story>, id: u32)
    ensures
        final(out)@ == old(out)@ + with_id(old(remaining)@, id),
        final(remaining)@ == without_id(old(remaining)@, id),
{
    let ghost orig = remaining@;
    let ghost out0 = out@;
    let mut keep: Vec<Story> = Vec::new();
    let mut k: usize = 0;
    let n = remaining.len();
    while remaining.len() > 0
        invariant
            n == orig.len(),
            k + remaining@.len() == n,
            remaining@ == orig.skip(k as int),
            out@ == out0 + with_id(orig.take(k as int), id),
            keep@ == without_id(orig.take(k as int), id),
        decreases remaining@.len(),
    {
        assert(orig.take(k + 1).drop_last() =~= orig.take(k as int));
        assert(orig.take(k + 1).last() == orig[k as int]);
        let st = remaining.remove(0);
        assert(remaining@ =~= orig.skip(k + 1));
        if st.id == id {
            out.push(st);
            assert(out@ =~= out0 + with_id(orig.take(k + 1), id));
            assert(keep@ =~= without_id(orig.take(k + 1), id));
        } else {
            keep.push(st);
            assert(out@ =~= out0 + with_id(orig.take(k + 1), id));
            assert(keep@ =~= without_id(orig.take(k + 1), id));
        }
        k += 1;
    }
    assert(orig.take(n as int) =~= orig);
    *remaining = keep;
}

/// Orders stories as their ids come in `ids` (the order of an HN listing),
/// stories of one id keeping their order. Every story's id is expected
/// among `ids`.
pub fn reorder_stories_based_on_ids(stories: Vec<Story>, ids: &[u32]) -> (res: Vec<Story>)
    requires
        forall|i: int| 0 <= i < stories@.len() ==> ids@.contains(#[trigger] stories@[i].id),
    ensures
        res@ == ordered_by_ids(stories@, ids@, ids@.len() as int),
{
    let ghost s0 = stories@;
    let mut remaining = stories;
    let mut out: Vec<Story> = Vec::new();
    let mut p: usize = 0;
    while p < ids.len()
        invariant
            p <= ids@.len(),
            out@ == ordered_by_ids(s0, ids@, p as int),
            remaining@ == left_after(s0, ids@, p as int),
        decreases ids@.len() - p,
    {
        let id = ids[p];
        let mut first = true;
        let mut q: usize = 0;
        while q < p
            invariant
                q <= p < ids@.len(),
                id == ids@[p as int],
                first == (forall|r: int| 0 <= r < q ==> ids@[r] != ids@[p as int]),
            decreases p - q,
        {
            if ids[q] == id {
                first = false;
            }
            q += 1;
        }
        let ghost before = remaining@;
        if first {
            proof {
                lemma_left_after(s0, ids@, p as int);
                assert(with_id(left_after(s0, ids@, p as int), id) == with_id(s0, id));
            }
            split_off_id(&mut remaining, &mut out, id);
        } else {
            let mut dropped: Vec<Story> = Vec::new();
            split_off_id(&mut remaining, &mut dropped, id);
            assert(out@ =~= ordered_by_ids(s0, ids@, p + 1));
        }
        assert(remaining@ == without_id(before, ids@[p as int]));
        p += 1;
    }
    out
}

} // verus!
