//! Formatting helpers: elapsed-time phrases, URL shortening and HTML
//! entity handling.

use vstd::prelude::*;
use crate::styled::StyledText;
use crate::text::{decimal, decimal_string};


verus! {

/// What `html_escape::decode_html_entities` makes of a text.
pub uninterp spec fn html_entities_decoded(s: Seq<char>) -> Seq<char>;

/// Decodes HTML entities (`html_escape::decode_html_entities`).
/// Trusted: the result is the crate's decoding of `s`, which leaves a
/// text without any `&` unchanged.
#[verifier::external_body]
pub fn decode_html(s: &str) -> (res: String)
    ensures
        res@ == html_entities_decoded(s@),
        !s@.contains('&') ==> res@ == s@,
{
    html_escape::decode_html_entities(s).into()
}

/// The HTML text escaping of one character: `&`, `<` and `>` become
/// entities, every other character stays.
pub open spec fn escape_text_char(c: char) -> Seq<char> {
    if c == '&' {
        "&amp;"@
    } else if c == '<' {
        "&lt;"@
    } else if c == '>' {
        "&gt;"@
    } else {
        seq![c]
    }
}

/// The HTML text escaping of a text, character by character.
pub open spec fn escape_text(s: Seq<char>) -> Seq<char>
    decreases s.len(),
{
    if s.len() == 0 {
        Seq::empty()
    } else {
        escape_text(s.drop_last()) + escape_text_char(s.last())
    }
}

/// Escapes a text for HTML (`html_escape::encode_text`).
/// Trusted: `&`, `<` and `>` are replaced by `&amp;`, `&lt;` and `&gt;`,
/// and every other character is kept.
#[verifier::external_body]
pub(crate) fn encode_text(s: &str) -> (res: String)
    ensures
        res@ == escape_text(s@),
{
    html_escape::encode_text(s).into_owned()
}


/// The current unix time in seconds (`SystemTime::now`).
/// Trusted: nothing is promised of the value; it depends on the clock.
#[verifier::external_body]
pub(crate) fn unix_now_secs() -> (res: u64) {
    std::time::SystemTime::now().duration_since(std::time::SystemTime::UNIX_EPOCH).map(|d| d.as_secs()).unwrap_or(0)
}

/// Seconds in `d` days.
pub open spec fn day_secs(d: nat) -> nat {
    d * 86400
}

/// The unix time `d` days before `now`, or 0 when that is before 1970.
pub open spec fn days_ago(now: u64, d: u64) -> u64 {
    if day_secs(d as nat) <= now {
        (now - day_secs(d as nat)) as u64
    } else {
        0
    }
}

/// The number of seconds in `day_offset` days.
pub fn from_day_offset_to_time_offset_in_secs(day_offset: u32) -> (res: u64)
    ensures
        res == day_secs(day_offset as nat),
{
    let d = day_offset as u64;
    assert(d * 86400 <= 0xffff_ffff * 86400) by (nonlinear_arith)
        requires
            d <= 0xffff_ffff,
    ;
    86400 * d
}

/// The unix time `d` days before `now`, or 0 when that is before 1970.
pub fn time_days_ago(now: u64, d: u64) -> (res: u64)
    ensures
        res == days_ago(now, d),
{
    if d <= now / 86400 {
        assert(d * 86400 <= now) by (nonlinear_arith)
            requires
                d <= now / 86400,
        ;
        now - d * 86400
    } else {
        assert(d * 86400 > now) by (nonlinear_arith)
            requires
                d > now / 86400,
        ;
        0
    }
}

/// `amount time`, with an `s` unless the amount is 1.
pub open spec fn plural_text(amount: u64, time: Seq<char>) -> Seq<char> {
    decimal(amount as nat) + " "@ + time + (if amount == 1 {
        Seq::empty()
    } else {
        "s"@
    })
}

/// `amount time`, with an `s` unless the amount is 1.
pub fn format_plural(amount: u64, time: &str) -> (res: String)
    ensures
        res@ == plural_text(amount, time@),
{
    let mut s = decimal_string(amount);
    s.append(" ");
    s.append(time);
    if amount != 1 {
        s.append("s");
    }
    proof {
        reveal_strlit("s");
    }
    assert(s@ =~= plural_text(amount, time@));
    s
}

/// An elapsed time in the largest unit that fits: seconds, minutes,
/// hours, days, months of 30 days or years of 365 days, rounded down.
pub open spec fn offset_text(offset: u64) -> Seq<char> {
    if offset < 60 {
        plural_text(offset, "second"@)
    } else if offset < 3600 {
        plural_text(offset / 60, "minute"@)
    } else if offset < 86400 {
        plural_text(offset / 3600, "hour"@)
    } else if offset < 2592000 {
        plural_text(offset / 86400, "day"@)
    } else if offset < 31536000 {
        plural_text(offset / 2592000, "month"@)
    } else {
        plural_text(offset / 31536000, "year"@)
    }
}

/// An elapsed time as text, e.g. `3 hours`.
pub fn get_time_offset_in_text(offset: u64) -> (res: String)
    ensures
        res@ == offset_text(offset),
{
    if offset < 60 {
        format_plural(offset, "second")
    } else if offset < 60 * 60 {
        format_plural(offset / 60, "minute")
    } else if offset < 60 * 60 * 24 {
        format_plural(offset / (60 * 60), "hour")
    } else if offset < 60 * 60 * 24 * 30 {
        format_plural(offset / (60 * 60 * 24), "day")
    } else if offset < 60 * 60 * 24 * 365 {
        format_plural(offset / (60 * 60 * 24 * 30), "month")
    } else {
        format_plural(offset / (60 * 60 * 24 * 365), "year")
    }
}

/// The text of the time elapsed from `time` to `now`; a time after `now`
/// counts as no time elapsed.
pub open spec fn elapsed_text(time: u64, now: u64) -> Seq<char> {
    offset_text(if time <= now { (now - time) as u64 } else { 0 })
}

/// The time elapsed from `time` to `now` as text; a time after `now`
/// counts as no time elapsed.
pub fn get_elapsed_time_as_text_at(time: u64, now: u64) -> (res: String)
    ensures
        res@ == elapsed_text(time, now),
{
    let offset = if time <= now {
        now - time
    } else {
        0
    };
    get_time_offset_in_text(offset)
}

/// The time elapsed since `time` as text, measured with the clock.
pub fn get_elapsed_time_as_text(time: u64) -> (res: String)
    ensures
        exists|now: u64| res@ == #[trigger] elapsed_text(time, now),
{
    let now = unix_now_secs();
    get_elapsed_time_as_text_at(time, now)
}

/// A URL of more than 50 characters is cut to its first 40 characters,
/// `...` and its last 10 characters; shorter URLs are kept.
pub open spec fn short_url(url: Seq<char>) -> Seq<char> {
    if url.len() > 50 {
        url.take(40) + "..."@ + url.skip(url.len() - 10)
    } else {
        url
    }
}

/// Shortens a long URL for display.
pub fn shorten_url(url: &str) -> (res: String)
    ensures
        res@ == short_url(url@),
{
    let chars = crate::text::chars_of(url);
    let len = chars.len();
    if len > 50 {
        let mut s = String::from_str(url.substring_char(0, 40));
        s.append("...");
        s.append(url.substring_char(len - 10, len));
        assert(s@ =~= short_url(url@));
        s
    } else {
        String::from_str(url)
    }
}

/// The spans of several styled texts, one after the other.
pub open spec fn concat_texts(ts: Seq<Seq<(Seq<char>, crate::theme::Style)>>) -> Seq<(Seq<char>, crate::theme::Style)>
    decreases ts.len(),
{
    if ts.len() == 0 {
        Seq::empty()
    } else {
        concat_texts(ts.drop_last()) + ts.last()
    }
}

/// Joins styled texts into one, in order.
pub fn combine_styled_strings(strings: Vec<StyledText>) -> (res: StyledText)
    ensures
        res@ == concat_texts(strings@.map_values(|t: StyledText| t@)),
{
    let mut acc = StyledText::new();
    let mut rest = strings;
    let ghost all = rest@.map_values(|t: StyledText| t@);
    let mut i: usize = 0;
    let n = rest.len();
    while i < n
        invariant
            n == all.len(),
            i <= n,
            rest.len() == n - i,
            forall|k: int| 0 <= k < rest.len() ==> #[trigger] rest@[k]@ == all[i + k],
            acc@ == concat_texts(all.take(i as int)),
        decreases n - i,
    {
        let ghost r0 = rest@;
        let t = rest.remove(0);
        assert(t@ == all[i as int]);
        assert forall|k: int| 0 <= k < rest.len() implies #[trigger] rest@[k]@ == all[i + 1 + k] by {
            assert(rest@[k] == r0[k + 1]);
        }
        assert(all.take(i + 1).drop_last() =~= all.take(i as int));
        acc.append(t);
        i += 1;
    }
    assert(all.take(n as int) =~= all);
    acc
}

} // verus!
