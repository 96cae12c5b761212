//! Reading a Hacker News user profile page: karma, the `topcolor`
//! preference and the `showdead` preference.
//!
//! Tag and label names match in any ASCII case; white space is Unicode
//! white space; word characters (for tag-name boundaries) are ASCII letters,
//! digits and `_`; numbers are ASCII digits.

use vstd::prelude::*;
use crate::markup::{find_char, find_char_exec};
use crate::scan::{
    ascii_digits, ascii_number_upto, digits_end, digits_end_exec, digits_value, first_from, is_decimal_digit, lemma_runs,
};
use crate::theme::is_white_space;
use crate::find::ascii_lower;

verus! {

/// A character as a case-insensitive regular expression compares it with
/// an ASCII one: ASCII letters in lower case, and the Kelvin sign and the
/// long s, whose case folding gives `k` and `s`.
pub open spec fn ci_fold(c: char) -> char {
    if c == '\u{212a}' {
        'k'
    } else if c == '\u{17f}' {
        's'
    } else {
        ascii_lower(c)
    }
}

/// Whether the ASCII text `p` occurs in `t` at `i`, ignoring case as a
/// regular expression with the `i` flag does.
pub open spec fn ci_occurs_at(t: Seq<char>, p: Seq<char>, i: int) -> bool {
    0 <= i && i + p.len() <= t.len() && forall|k: int| 0 <= k < p.len() ==> ci_fold(#[trigger] t[i + k]) == ascii_lower(p[k])
}

fn ci_fold_exec(c: char) -> (res: char)
    ensures
        res == ci_fold(c),
{
    if c == '\u{212a}' {
        'k'
    } else if c == '\u{17f}' {
        's'
    } else {
        crate::find::lower(c)
    }
}

/// Whether a character outside ASCII is a word character in Unicode's
/// sense, as the regex crate's `\w` decides it.
pub uninterp spec fn unicode_word_char(c: char) -> bool;

/// Whether the regex crate's `\w` matches a character outside ASCII
/// (`Regex::is_match` on the pattern `\A\w\z`).
/// Trusted: the result is the crate's Unicode word-character test.
#[verifier::external_body]
fn regex_matches_word(c: char) -> (res: bool)
    requires
        (c as u32) >= 128,
    ensures
        res == unicode_word_char(c),
{
    match regex::Regex::new(r"\A\w\z") {
        Ok(rg) => rg.is_match(&c.to_string()),
        Err(_) => false,
    }
}

/// The end of the run of white space that starts at `j`.
pub open spec fn ws_end(t: Seq<char>, j: int) -> int
    decreases t.len() - j,
{
    if 0 <= j < t.len() && is_white_space(t[j]) {
        ws_end(t, j + 1)
    } else {
        j
    }
}

/// A word character, as `\w` and `\b` of a regular expression see it: in
/// ASCII a letter, a digit or `_`; elsewhere a Unicode word character.
pub open spec fn is_word(c: char) -> bool {
    if (c as u32) < 128 {
        ('a' <= c && c <= 'z') || ('A' <= c && c <= 'Z') || ('0' <= c && c <= '9') || c == '_'
    } else {
        unicode_word_char(c)
    }
}

/// A character of `[A-Za-z]` matched without regard to case: an ASCII
/// letter, the Kelvin sign or the long s.
pub open spec fn is_letter(c: char) -> bool {
    ('a' <= c && c <= 'z') || ('A' <= c && c <= 'Z') || c == '\u{212a}' || c == '\u{17f}'
}

/// An ASCII hexadecimal digit, in either case.
pub open spec fn is_hex(c: char) -> bool {
    ('0' <= c && c <= '9') || ('a' <= c && c <= 'f') || ('A' <= c && c <= 'F')
}

/// The end of the run of letters that starts at `j`.
pub open spec fn letters_end(t: Seq<char>, j: int) -> int
    decreases t.len() - j,
{
    if 0 <= j < t.len() && is_letter(t[j]) {
        letters_end(t, j + 1)
    } else {
        j
    }
}

/// A word boundary just before index `x`, where `t[x]` is a word
/// character: the character before is not one.
pub open spec fn boundary_before(t: Seq<char>, x: int) -> bool {
    x == 0 || (0 < x <= t.len() && !is_word(t[x - 1]))
}

/// A word boundary just after a word that ends at `x`.
pub open spec fn boundary_after(t: Seq<char>, x: int) -> bool {
    x == t.len() || (0 <= x < t.len() && !is_word(t[x]))
}

/// `<td ...>`, white space, `karma:`, white space, `</td>`, white space,
/// `<td ...>`, white space, digits, white space and `</td>` at `i`: the
/// digits' range.
pub open spec fn karma_at(t: Seq<char>, i: int) -> Option<(int, int)> {
    if ci_occurs_at(t, "<td"@, i) {
        let g1 = find_char(t, '>', i + 3);
        let w1 = ws_end(t, g1 + 1);
        let w2 = ws_end(t, w1 + 6);
        let w3 = ws_end(t, w2 + 5);
        let g2 = find_char(t, '>', w3 + 3);
        let w4 = ws_end(t, g2 + 1);
        let d = digits_end(t, w4);
        let w5 = ws_end(t, d);
        if g1 >= 0 && ci_occurs_at(t, "karma:"@, w1) && ci_occurs_at(t, "</td>"@, w2) && ci_occurs_at(t, "<td"@, w3)
            && g2 >= 0 && d > w4 && ci_occurs_at(t, "</td>"@, w5) {
            Some((w4, d))
        } else {
            None
        }
    } else {
        None
    }
}

pub open spec fn karma_finder(t: Seq<char>) -> spec_fn(int) -> Option<(int, int)> {
    |i: int| karma_at(t, i)
}

/// The karma of a profile page: the number of the first karma row, when it
/// fits `u32`.
pub open spec fn profile_karma(t: Seq<char>) -> Option<u32> {
    match first_from(t.len() as int, karma_finder(t), 0) {
        Some((_, (a, b))) => {
            let v = digits_value(t.subrange(a, b));
            if ascii_digits(t.subrange(a, b)) && v <= u32::MAX {
                Some(v as u32)
            } else {
                None
            }
        },
        None => None,
    }
}

/// Whether `p` occurs at `i` ignoring ASCII case.
fn ci_occurs_at_exec(t: &Vec<char>, p: &Vec<char>, i: usize) -> (res: bool)
    ensures
        res == ci_occurs_at(t@, p@, i as int),
        t@.len() <= usize::MAX,
{
    if i > t.len() || p.len() > t.len() - i {
        return false;
    }
    let mut j: usize = 0;
    while j < p.len()
        invariant
            j <= p.len(),
            i + p.len() <= t.len(),
            forall|k: int| 0 <= k < j ==> ci_fold(#[trigger] t@[i + k]) == ascii_lower(p@[k]),
        decreases p.len() - j,
    {
        if ci_fold_exec(t[i + j]) != crate::find::lower(p[j]) {
            return false;
        }
        j += 1;
    }
    true
}

fn ws_end_exec(t: &Vec<char>, j: usize) -> (res: usize)
    ensures
        res as int == ws_end(t@, j as int),
        j <= res,
{
    let mut k = j;
    while k < t.len() && crate::theme::char_is_whitespace(t[k])
        invariant
            j <= k,
            ws_end(t@, j as int) == ws_end(t@, k as int),
        decreases t.len() - k,
    {
        k += 1;
    }
    k
}

proof fn lemma_ws_end(t: Seq<char>, j: int)
    ensures
        j <= ws_end(t, j),
        0 <= j <= t.len() ==> ws_end(t, j) <= t.len(),
    decreases t.len() - j,
{
    if 0 <= j < t.len() && is_white_space(t[j]) {
        lemma_ws_end(t, j + 1);
    }
}

fn karma_at_exec(t: &Vec<char>, i: usize) -> (res: Option<(usize, usize)>)
    ensures
        match res {
            Some((a, b)) => karma_at(t@, i as int) == Some((a as int, b as int)),
            None => karma_at(t@, i as int) is None,
        },
{
    let td = crate::text::chars_of("<td");
    let karma = crate::text::chars_of("karma:");
    let ctd = crate::text::chars_of("</td>");
    proof {
        reveal_strlit("<td");
        reveal_strlit("karma:");
        reveal_strlit("</td>");
    }
    if !ci_occurs_at_exec(t, &td, i) {
        return None;
    }
    proof {
        crate::markup::lemma_find_char_bounds(t@, '>', i + 3);
    }
    let g1 = match find_char_exec(t, '>', i + 3) {
        Some(g) => g,
        None => return None,
    };
    let w1 = ws_end_exec(t, g1 + 1);
    if !ci_occurs_at_exec(t, &karma, w1) {
        return None;
    }
    let w2 = ws_end_exec(t, w1 + 6);
    if !ci_occurs_at_exec(t, &ctd, w2) {
        return None;
    }
    let w3 = ws_end_exec(t, w2 + 5);
    if !ci_occurs_at_exec(t, &td, w3) {
        return None;
    }
    proof {
        crate::markup::lemma_find_char_bounds(t@, '>', w3 + 3);
    }
    let g2 = match find_char_exec(t, '>', w3 + 3) {
        Some(g) => g,
        None => return None,
    };
    let w4 = ws_end_exec(t, g2 + 1);
    let d = digits_end_exec(t, w4);
    proof {
        lemma_runs(t@, ' ', w4 as int);
        lemma_ws_end(t@, g2 + 1);
    }
    let w5 = ws_end_exec(t, d);
    if d > w4 && ci_occurs_at_exec(t, &ctd, w5) {
        Some((w4, d))
    } else {
        None
    }
}

proof fn lemma_karma_range(t: Seq<char>, i: int)
    ensures
        karma_at(t, i) matches Some((a, b)) ==> (0 <= a < b <= t.len() && forall|k: int| a <= k < b ==> is_decimal_digit(#[trigger] t[k])),
{
    reveal_strlit("<td");
    reveal_strlit("</td>");
    let g1 = find_char(t, '>', i + 3);
    crate::markup::lemma_find_char_bounds(t, '>', i + 3);
    let w1 = ws_end(t, g1 + 1);
    let w2 = ws_end(t, w1 + 6);
    let w3 = ws_end(t, w2 + 5);
    let g2 = find_char(t, '>', w3 + 3);
    crate::markup::lemma_find_char_bounds(t, '>', w3 + 3);
    lemma_ws_end(t, g2 + 1);
    let w4 = ws_end(t, g2 + 1);
    lemma_runs(t, ' ', w4);
}

/// The karma shown on a profile page, if it has a karma row whose number
/// fits `u32`.
pub fn parse_karma_from_profile(html: &str) -> (res: Option<u32>)
    ensures
        res == profile_karma(html@),
{
    let t = crate::text::chars_of(html);
    let mut i: usize = 0;
    while i < t.len()
        invariant
            t@ == html@,
            first_from(t@.len() as int, karma_finder(t@), 0) == first_from(t@.len() as int, karma_finder(t@), i as int),
        decreases t.len() - i,
    {
        if let Some((a, b)) = karma_at_exec(&t, i) {
            assert(first_from(t@.len() as int, karma_finder(t@), i as int) == Some((i as int, (a as int, b as int))));
            proof {
                lemma_karma_range(t@, i as int);
            }
            return match ascii_number_upto(&t, a, b, u32::MAX as u64) {
                Some(v) => Some(v as u32),
                None => None,
            };
        }
        i += 1;
    }
    None
}

/// Six hexadecimal digits at `j`.
pub open spec fn hex6_at(t: Seq<char>, j: int) -> bool {
    0 <= j && j + 6 <= t.len() && forall|k: int| j <= k < j + 6 ==> is_hex(#[trigger] t[k])
}

/// `value=` at `v` (after a word boundary), an optional quote and six
/// hexadecimal digits: the digits' start.
pub open spec fn color_value_at(t: Seq<char>, v: int) -> Option<int> {
    if boundary_before(t, v) && ci_occurs_at(t, "value="@, v) {
        let q = v + 6;
        if q < t.len() && crate::hn_forms::is_quote(t[q]) && hex6_at(t, q + 1) {
            Some(q + 1)
        } else if hex6_at(t, q) {
            Some(q)
        } else {
            None
        }
    } else {
        None
    }
}

/// The first `value=` at or after `v`, before index `hi`, that fits.
pub open spec fn color_value_from(t: Seq<char>, v: int, hi: int) -> Option<int>
    decreases hi - v,
{
    if v >= hi {
        None
    } else if let Some(r) = color_value_at(t, v) {
        Some(r)
    } else {
        color_value_from(t, v + 1, hi)
    }
}

/// `topcolor:`, white space, `</td>`, white space, `<td ...>`, white space,
/// `<input` and, inside that tag, the first `value=` with six hexadecimal
/// digits, at `i`: the digits' start.
pub open spec fn topcolor_at(t: Seq<char>, i: int) -> Option<int> {
    if ci_occurs_at(t, "topcolor:"@, i) {
        let w1 = ws_end(t, i + 9);
        let w2 = ws_end(t, w1 + 5);
        let g = find_char(t, '>', w2 + 3);
        let w3 = ws_end(t, g + 1);
        let x = w3 + 6;
        let big_g = find_char(t, '>', x);
        if ci_occurs_at(t, "</td>"@, w1) && ci_occurs_at(t, "<td"@, w2) && g >= 0 && ci_occurs_at(t, "<input"@, w3)
            && boundary_after(t, x) {
            color_value_from(t, x, if big_g >= 0 { big_g } else { t.len() as int })
        } else {
            None
        }
    } else {
        None
    }
}

pub open spec fn topcolor_finder(t: Seq<char>) -> spec_fn(int) -> Option<int> {
    |i: int| topcolor_at(t, i)
}

/// The `topcolor` of a profile page, in lowercase.
pub open spec fn profile_topcolor(t: Seq<char>) -> Option<Seq<char>> {
    match first_from(t.len() as int, topcolor_finder(t), 0) {
        Some((_, a)) => Some(t.subrange(a, a + 6).map_values(|c: char| ascii_lower(c))),
        None => None,
    }
}

fn is_word_exec(c: char) -> (res: bool)
    ensures
        res == is_word(c),
{
    if (c as u32) < 128 {
        ('a' <= c && c <= 'z') || ('A' <= c && c <= 'Z') || ('0' <= c && c <= '9') || c == '_'
    } else {
        regex_matches_word(c)
    }
}

fn hex6_at_exec(t: &Vec<char>, j: usize) -> (res: bool)
    ensures
        res == hex6_at(t@, j as int),
{
    if j > t.len() || t.len() - j < 6 {
        return false;
    }
    let mut k = j;
    while k < j + 6
        invariant
            j <= k <= j + 6 <= t@.len(),
            t@.len() <= usize::MAX,
            forall|m: int| j <= m < k ==> is_hex(#[trigger] t@[m]),
        decreases j + 6 - k,
    {
        let c = t[k];
        if !(('0' <= c && c <= '9') || ('a' <= c && c <= 'f') || ('A' <= c && c <= 'F')) {
            return false;
        }
        k += 1;
    }
    true
}

fn color_value_at_exec(t: &Vec<char>, v: usize, kw: &Vec<char>) -> (res: Option<usize>)
    requires
        kw@ == "value="@,
    ensures
        match res {
            Some(a) => color_value_at(t@, v as int) == Some(a as int),
            None => color_value_at(t@, v as int) is None,
        },
{
    proof {
        reveal_strlit("value=");
    }
    let before = v == 0 || (v <= t.len() && !is_word_exec(t[v - 1]));
    if before && ci_occurs_at_exec(t, kw, v) {
        let q = v + 6;
        if q < t.len() && (t[q] == '\'' || t[q] == '"') && hex6_at_exec(t, q + 1) {
            Some(q + 1)
        } else if hex6_at_exec(t, q) {
            Some(q)
        } else {
            None
        }
    } else {
        None
    }
}

fn topcolor_at_exec(t: &Vec<char>, i: usize) -> (res: Option<usize>)
    ensures
        match res {
            Some(a) => topcolor_at(t@, i as int) == Some(a as int),
            None => topcolor_at(t@, i as int) is None,
        },
{
    let label = crate::text::chars_of("topcolor:");
    let ctd = crate::text::chars_of("</td>");
    let td = crate::text::chars_of("<td");
    let input = crate::text::chars_of("<input");
    let kw = crate::text::chars_of("value=");
    proof {
        reveal_strlit("topcolor:");
        reveal_strlit("</td>");
        reveal_strlit("<td");
        reveal_strlit("<input");
    }
    if !ci_occurs_at_exec(t, &label, i) {
        return None;
    }
    let w1 = ws_end_exec(t, i + 9);
    if !ci_occurs_at_exec(t, &ctd, w1) {
        return None;
    }
    let w2 = ws_end_exec(t, w1 + 5);
    if !ci_occurs_at_exec(t, &td, w2) {
        return None;
    }
    proof {
        crate::markup::lemma_find_char_bounds(t@, '>', w2 + 3);
    }
    let g = match find_char_exec(t, '>', w2 + 3) {
        Some(g) => g,
        None => return None,
    };
    let w3 = ws_end_exec(t, g + 1);
    if !ci_occurs_at_exec(t, &input, w3) {
        return None;
    }
    let x = w3 + 6;
    if !(x == t.len() || (x < t.len() && !is_word_exec(t[x]))) {
        return None;
    }
    proof {
        crate::markup::lemma_find_char_bounds(t@, '>', x as int);
    }
    let hi = match find_char_exec(t, '>', x) {
        Some(bg) => bg,
        None => t.len(),
    };
    let mut v = x;
    while v < hi
        invariant
            x <= v,
            hi <= t@.len(),
            kw@ == "value="@,
            topcolor_at(t@, i as int) == color_value_from(t@, x as int, hi as int),
            color_value_from(t@, x as int, hi as int) == color_value_from(t@, v as int, hi as int),
        decreases hi - v,
    {
        if let Some(a) = color_value_at_exec(t, v, &kw) {
            return Some(a);
        }
        v += 1;
    }
    None
}

proof fn lemma_color_value(t: Seq<char>, v: int, hi: int)
    ensures
        color_value_from(t, v, hi) matches Some(a) ==> hex6_at(t, a),
    decreases hi - v,
{
    if v < hi && color_value_at(t, v) is None {
        lemma_color_value(t, v + 1, hi);
    }
}

/// The `topcolor` preference of a profile page (six hexadecimal digits),
/// in lowercase.
pub fn parse_topcolor_from_profile(html: &str) -> (res: Option<String>)
    ensures
        match res {
            Some(c) => profile_topcolor(html@) == Some(c@),
            None => profile_topcolor(html@) is None,
        },
{
    let t = crate::text::chars_of(html);
    let mut i: usize = 0;
    while i < t.len()
        invariant
            t@ == html@,
            first_from(t@.len() as int, topcolor_finder(t@), 0) == first_from(t@.len() as int, topcolor_finder(t@), i as int),
        decreases t.len() - i,
    {
        if let Some(a) = topcolor_at_exec(&t, i) {
            assert(first_from(t@.len() as int, topcolor_finder(t@), i as int) == Some((i as int, a as int)));
            proof {
                if ci_occurs_at(t@, "topcolor:"@, i as int) {
                    let w1 = ws_end(t@, i + 9);
                    let w2 = ws_end(t@, w1 + 5);
                    let g = find_char(t@, '>', w2 + 3);
                    let w3 = ws_end(t@, g + 1);
                    let x = w3 + 6;
                    let big_g = find_char(t@, '>', x);
                    lemma_color_value(t@, x, if big_g >= 0 { big_g } else { t@.len() as int });
                }
            }
            let _n = t.len();
            let mut out: Vec<char> = Vec::new();
            let mut k: usize = 0;
            while k < 6
                invariant
                    k <= 6,
                    a + 6 <= t@.len(),
                    t@.len() <= usize::MAX,
                    out@ == t@.subrange(a as int, a + k).map_values(|c: char| ascii_lower(c)),
                decreases 6 - k,
            {
                out.push(crate::find::lower(t[a + k]));
                k += 1;
                assert(out@ =~= t@.subrange(a as int, a + k).map_values(|c: char| ascii_lower(c)));
            }
            return Some(crate::text::string_of(out.as_slice()));
        }
        i += 1;
    }
    None
}

/// `name=` (after a word boundary), an optional quote and `showd` at `n`:
/// the index after `showd`.
pub open spec fn showd_attr_at(t: Seq<char>, n: int) -> Option<int> {
    if boundary_before(t, n) && ci_occurs_at(t, "name="@, n) {
        let o = n + 5;
        if o < t.len() && crate::hn_forms::is_quote(t[o]) && ci_occurs_at(t, "showd"@, o + 1) {
            Some(o + 6)
        } else if ci_occurs_at(t, "showd"@, o) {
            Some(o + 5)
        } else {
            None
        }
    } else {
        None
    }
}

/// The last `name=showd` attribute at or below `v`, down to `lo`.
pub open spec fn showd_attr_back(t: Seq<char>, lo: int, v: int) -> Option<int>
    decreases v - lo + 1,
{
    if v < lo {
        None
    } else if let Some(e) = showd_attr_at(t, v) {
        Some(e)
    } else {
        showd_attr_back(t, lo, v - 1)
    }
}

/// A `<select ... name="showd" ...>...</select>` at `i`: the range of its
/// inner text.
pub open spec fn select_at(t: Seq<char>, i: int) -> Option<(int, int)> {
    let x = i + 7;
    if ci_occurs_at(t, "<select"@, i) && boundary_after(t, x) {
        match showd_attr_back(t, x, crate::hn_forms::before_tag_end(t, x)) {
            Some(e) => {
                let g = find_char(t, '>', e);
                let k = ci_find_from(t, "</select>"@, g + 1);
                if g >= 0 && k >= 0 {
                    Some((g + 1, k))
                } else {
                    None
                }
            },
            None => None,
        }
    } else {
        None
    }
}

/// The first index at or after `from` where `p` occurs ignoring ASCII case,
/// or -1.
pub open spec fn ci_find_from(t: Seq<char>, p: Seq<char>, from: int) -> int
    decreases t.len() - from,
{
    if from + p.len() > t.len() || from >= t.len() {
        -1
    } else if ci_occurs_at(t, p, from) {
        from
    } else {
        ci_find_from(t, p, from + 1)
    }
}

/// Whether a `selected` attribute (between word boundaries) starts at some
/// index of `v..hi`.
pub open spec fn selected_in(t: Seq<char>, v: int, hi: int) -> bool
    decreases hi - v,
{
    if v >= hi {
        false
    } else if boundary_before(t, v) && ci_occurs_at(t, "selected"@, v) && boundary_after(t, v + 8) {
        true
    } else {
        selected_in(t, v + 1, hi)
    }
}

/// A selected `<option ...>` at `i`: white space, letters, white space and
/// `</option>` after its tag; the letters' range.
pub open spec fn option_at(t: Seq<char>, i: int) -> Option<(int, int)> {
    let x = i + 7;
    let g = find_char(t, '>', x);
    let w = ws_end(t, g + 1);
    let l = letters_end(t, w);
    let w2 = ws_end(t, l);
    if ci_occurs_at(t, "<option"@, i) && boundary_after(t, x) && g >= 0 && selected_in(t, x, g) && l > w
        && ci_occurs_at(t, "</option>"@, w2) {
        Some((w, l))
    } else {
        None
    }
}

pub open spec fn select_finder(t: Seq<char>) -> spec_fn(int) -> Option<(int, int)> {
    |i: int| select_at(t, i)
}

pub open spec fn option_finder(t: Seq<char>) -> spec_fn(int) -> Option<(int, int)> {
    |i: int| option_at(t, i)
}

/// The `showdead` preference of a profile page: the first selected option
/// of the first `showd` select reads `yes` (in any case); false when any of
/// that is missing.
pub open spec fn profile_showdead(t: Seq<char>) -> bool {
    match first_from(t.len() as int, select_finder(t), 0) {
        Some((_, (a, b))) => {
            let body = t.subrange(a, b);
            match first_from(body.len() as int, option_finder(body), 0) {
                Some((_, (x, y))) => crate::vote_page::eq_ignore_ascii_case(body.subrange(x, y), "yes"@),
                None => false,
            }
        },
        None => false,
    }
}

fn ci_find_from_exec(t: &Vec<char>, p: &Vec<char>, from: usize) -> (res: Option<usize>)
    requires
        p@.len() > 0,
    ensures
        match res {
            Some(k) => k as int == ci_find_from(t@, p@, from as int) && k + p@.len() <= t@.len(),
            None => ci_find_from(t@, p@, from as int) == -1,
        },
{
    let mut k = from;
    while k < t.len() && p.len() <= t.len() - k
        invariant
            from <= k,
            p@.len() > 0,
            ci_find_from(t@, p@, from as int) == ci_find_from(t@, p@, k as int),
        decreases t.len() - k,
    {
        if ci_occurs_at_exec(t, p, k) {
            return Some(k);
        }
        k += 1;
    }
    None
}

fn letters_end_exec(t: &Vec<char>, j: usize) -> (res: usize)
    ensures
        res as int == letters_end(t@, j as int),
{
    let mut k = j;
    while k < t.len() && (('a' <= t[k] && t[k] <= 'z') || ('A' <= t[k] && t[k] <= 'Z') || t[k] == '\u{212a}' || t[k] == '\u{17f}')
        invariant
            j <= k,
            letters_end(t@, j as int) == letters_end(t@, k as int),
        decreases t.len() - k,
    {
        k += 1;
    }
    k
}

proof fn lemma_letters_end(t: Seq<char>, j: int)
    ensures
        j <= letters_end(t, j),
        0 <= j <= t.len() ==> letters_end(t, j) <= t.len(),
    decreases t.len() - j,
{
    if 0 <= j < t.len() && is_letter(t[j]) {
        lemma_letters_end(t, j + 1);
    }
}

fn showd_attr_at_exec(t: &Vec<char>, n: usize, kw: &Vec<char>, sd: &Vec<char>) -> (res: Option<usize>)
    requires
        kw@ == "name="@,
        sd@ == "showd"@,
    ensures
        match res {
            Some(e) => showd_attr_at(t@, n as int) == Some(e as int),
            None => showd_attr_at(t@, n as int) is None,
        },
{
    proof {
        reveal_strlit("name=");
        reveal_strlit("showd");
    }
    let before = n == 0 || (n <= t.len() && !is_word_exec(t[n - 1]));
    if before && ci_occurs_at_exec(t, kw, n) {
        let o = n + 5;
        if o < t.len() && (t[o] == '\'' || t[o] == '"') && ci_occurs_at_exec(t, sd, o + 1) {
            Some(o + 6)
        } else if ci_occurs_at_exec(t, sd, o) {
            Some(o + 5)
        } else {
            None
        }
    } else {
        None
    }
}

fn select_at_exec(t: &Vec<char>, i: usize) -> (res: Option<(usize, usize)>)
    ensures
        match res {
            Some((a, b)) => select_at(t@, i as int) == Some((a as int, b as int)),
            None => select_at(t@, i as int) is None,
        },
{
    let open = crate::text::chars_of("<select");
    let close = crate::text::chars_of("</select>");
    let kw = crate::text::chars_of("name=");
    let sd = crate::text::chars_of("showd");
    proof {
        reveal_strlit("<select");
        reveal_strlit("</select>");
    }
    if !ci_occurs_at_exec(t, &open, i) {
        return None;
    }
    let x = i + 7;
    if !(x == t.len() || (x < t.len() && !is_word_exec(t[x]))) {
        return None;
    }
    proof {
        crate::markup::lemma_find_char_bounds(t@, '>', x as int);
    }
    let hi: usize = match find_char_exec(t, '>', x) {
        Some(g) => g,
        None => t.len(),
    };
    let mut v = hi;
    let mut found: Option<usize> = None;
    while v > x
        invariant_except_break
            x <= v <= t@.len(),
            found is None,
            showd_attr_back(t@, x as int, crate::hn_forms::before_tag_end(t@, x as int)) == showd_attr_back(t@, x as int, v - 1),
        invariant
            kw@ == "name="@,
            sd@ == "showd"@,
        ensures
            match found {
                Some(e) => showd_attr_back(t@, x as int, crate::hn_forms::before_tag_end(t@, x as int)) == Some(e as int),
                None => showd_attr_back(t@, x as int, crate::hn_forms::before_tag_end(t@, x as int)) is None,
            },
        decreases v,
    {
        if let Some(e) = showd_attr_at_exec(t, v - 1, &kw, &sd) {
            found = Some(e);
            break;
        }
        v -= 1;
    }
    let e = match found {
        Some(e) => e,
        None => return None,
    };
    proof {
        crate::markup::lemma_find_char_bounds(t@, '>', e as int);
    }
    let g = match find_char_exec(t, '>', e) {
        Some(g) => g,
        None => return None,
    };
    match ci_find_from_exec(t, &close, g + 1) {
        Some(k) => Some((g + 1, k)),
        None => None,
    }
}

fn option_at_exec(t: &Vec<char>, i: usize) -> (res: Option<(usize, usize)>)
    ensures
        match res {
            Some((a, b)) => option_at(t@, i as int) == Some((a as int, b as int)),
            None => option_at(t@, i as int) is None,
        },
{
    let open = crate::text::chars_of("<option");
    let close = crate::text::chars_of("</option>");
    let sel = crate::text::chars_of("selected");
    proof {
        reveal_strlit("<option");
        reveal_strlit("</option>");
        reveal_strlit("selected");
    }
    if !ci_occurs_at_exec(t, &open, i) {
        return None;
    }
    let x = i + 7;
    if !(x == t.len() || (x < t.len() && !is_word_exec(t[x]))) {
        return None;
    }
    proof {
        crate::markup::lemma_find_char_bounds(t@, '>', x as int);
    }
    let g = match find_char_exec(t, '>', x) {
        Some(g) => g,
        None => return None,
    };
    let mut v = x;
    let mut seen = false;
    while v < g
        invariant_except_break
            x <= v <= g,
            !seen,
            selected_in(t@, x as int, g as int) == selected_in(t@, v as int, g as int),
        invariant
            g < t@.len(),
            sel@ == "selected"@,
            sel@.len() == 8,
        ensures
            seen == selected_in(t@, x as int, g as int),
        decreases g - v,
    {
        let before = v == 0 || !is_word_exec(t[v - 1]);
        if before && ci_occurs_at_exec(t, &sel, v) {
            let after = v + 8 == t.len() || (v + 8 < t.len() && !is_word_exec(t[v + 8]));
            if after {
                seen = true;
                break;
            }
        }
        v += 1;
    }
    if !seen {
        return None;
    }
    let w = ws_end_exec(t, g + 1);
    proof {
        lemma_ws_end(t@, g + 1);
        lemma_letters_end(t@, w as int);
    }
    let l = letters_end_exec(t, w);
    let w2 = ws_end_exec(t, l);
    if l > w && ci_occurs_at_exec(t, &close, w2) {
        Some((w, l))
    } else {
        None
    }
}

proof fn lemma_select_range(t: Seq<char>, i: int)
    ensures
        select_at(t, i) matches Some((a, b)) ==> 0 <= a <= b <= t.len(),
{
    reveal_strlit("</select>");
    if let Some(e) = showd_attr_back(t, i + 7, crate::hn_forms::before_tag_end(t, i + 7)) {
        crate::markup::lemma_find_char_bounds(t, '>', e);
        lemma_ci_find(t, "</select>"@, find_char(t, '>', e) + 1);
    }
}

proof fn lemma_ci_find(t: Seq<char>, p: Seq<char>, from: int)
    ensures
        ci_find_from(t, p, from) >= 0 ==> from <= ci_find_from(t, p, from) && ci_find_from(t, p, from) + p.len() <= t.len(),
    decreases t.len() - from,
{
    if !(from + p.len() > t.len() || from >= t.len()) && !ci_occurs_at(t, p, from) {
        lemma_ci_find(t, p, from + 1);
    }
}

proof fn lemma_option_range(t: Seq<char>, i: int)
    ensures
        option_at(t, i) matches Some((a, b)) ==> 0 <= a <= b <= t.len(),
{
    let g = find_char(t, '>', i + 7);
    crate::markup::lemma_find_char_bounds(t, '>', i + 7);
    lemma_ws_end(t, g + 1);
    lemma_letters_end(t, ws_end(t, g + 1));
}

/// The `showdead` preference of a profile page; false when the page does
/// not show it.
pub fn parse_showdead_from_profile(html: &str) -> (res: bool)
    ensures
        res == profile_showdead(html@),
{
    let t = crate::text::chars_of(html);
    let mut i: usize = 0;
    let mut sel: Option<(usize, usize)> = None;
    while i < t.len()
        invariant_except_break
            sel is None,
            first_from(t@.len() as int, select_finder(t@), 0) == first_from(t@.len() as int, select_finder(t@), i as int),
        invariant
            t@ == html@,
        ensures
            match sel {
                Some((a, b)) => exists|j: int| first_from(t@.len() as int, select_finder(t@), 0) == Some((j, (a as int, b as int))),
                None => first_from(t@.len() as int, select_finder(t@), 0) is None,
            },
        decreases t.len() - i,
    {
        if let Some(r) = select_at_exec(&t, i) {
            assert(first_from(t@.len() as int, select_finder(t@), i as int) == Some((i as int, (r.0 as int, r.1 as int))));
            proof {
                lemma_select_range(t@, i as int);
            }
            sel = Some(r);
            break;
        }
        i += 1;
    }
    let (a, b) = match sel {
        Some(r) => r,
        None => return false,
    };
    proof {
        let j = choose|j: int| first_from(t@.len() as int, select_finder(t@), 0) == Some((j, (a as int, b as int)));
        crate::scan::lemma_first_from(t@.len() as int, select_finder(t@), 0);
        lemma_select_range(t@, j);
    }
    let body = crate::scan::copy_range(&t, a, b);
    let yes = crate::text::chars_of("yes");
    let mut k: usize = 0;
    while k < body.len()
        invariant
            yes@ == "yes"@,
            t@ == html@,
            body@ == t@.subrange(a as int, b as int),
            exists|j: int| first_from(t@.len() as int, select_finder(t@), 0) == Some((j, (a as int, b as int))),
            first_from(body@.len() as int, option_finder(body@), 0) == first_from(body@.len() as int, option_finder(body@), k as int),
        decreases body.len() - k,
    {
        if let Some((x, y)) = option_at_exec(&body, k) {
            assert(first_from(body@.len() as int, option_finder(body@), k as int) == Some((k as int, (x as int, y as int))));
            proof {
                lemma_option_range(body@, k as int);
            }
            let word = crate::scan::copy_range(&body, x, y);
            return crate::vote_page::eq_ignore_ascii_case_exec(&word, &yes);
        }
        k += 1;
    }
    false
}

/// What a HN user profile page tells: the `topcolor`, the karma and the
/// `showdead` preference.
#[derive(Debug, Clone)]
pub struct ProfileInfo {
    pub topcolor: Option<String>,
    pub karma: Option<u32>,
    pub showdead: bool,
}

impl Default for ProfileInfo {
    /// Nothing known: no colour, no karma, dead items hidden.
    fn default() -> (res: ProfileInfo)
        ensures
            res.topcolor is None,
            res.karma is None,
            !res.showdead,
    {
        ProfileInfo { topcolor: None, karma: None, showdead: false }
    }
}

impl ProfileInfo {
    /// What a profile page tells (see the three parsers).
    pub fn from_page(body: &str) -> (res: ProfileInfo)
        ensures
            match res.topcolor {
                Some(c) => profile_topcolor(body@) == Some(c@),
                None => profile_topcolor(body@) is None,
            },
            res.karma == profile_karma(body@),
            res.showdead == profile_showdead(body@),
    {
        ProfileInfo {
            topcolor: parse_topcolor_from_profile(body),
            karma: parse_karma_from_profile(body),
            showdead: parse_showdead_from_profile(body),
        }
    }
}

/// The logged-in user: name, karma when known, and whether dead items
/// are shown.
#[derive(Debug, Clone)]
pub struct UserInfo {
    pub username: String,
    pub karma: Option<u32>,
    pub showdead: bool,
}

} // verus!

