use hackernews_tim::styled::StyledText;
use hackernews_tim::utils::{
    combine_styled_strings, decode_html, from_day_offset_to_time_offset_in_secs, get_elapsed_time_as_text,
    get_elapsed_time_as_text_at, get_time_offset_in_text, shorten_url,
};
use std::time::SystemTime;

#[test]
fn time_offset_seconds_branch() {
    assert_eq!(get_time_offset_in_text(0), "0 seconds");
    assert_eq!(get_time_offset_in_text(1), "1 second");
    assert_eq!(get_time_offset_in_text(59), "59 seconds");
}

#[test]
fn time_offset_minutes_branch() {
    assert_eq!(get_time_offset_in_text(60), "1 minute");
    assert_eq!(get_time_offset_in_text(120), "2 minutes");
    assert_eq!(get_time_offset_in_text(60 * 60 - 1), "59 minutes");
}

#[test]
fn time_offset_hours_branch() {
    assert_eq!(get_time_offset_in_text(60 * 60), "1 hour");
    assert_eq!(get_time_offset_in_text(2 * 60 * 60), "2 hours");
}

#[test]
fn time_offset_days_branch() {
    let day = 60 * 60 * 24;
    assert_eq!(get_time_offset_in_text(day), "1 day");
    assert_eq!(get_time_offset_in_text(2 * day), "2 days");
}

#[test]
fn time_offset_months_branch() {
    let month = 60 * 60 * 24 * 30;
    assert_eq!(get_time_offset_in_text(month), "1 month");
    assert_eq!(get_time_offset_in_text(2 * month), "2 months");
}

#[test]
fn time_offset_years_branch() {
    let year = 60 * 60 * 24 * 365;
    assert_eq!(get_time_offset_in_text(year), "1 year");
    assert_eq!(get_time_offset_in_text(3 * year), "3 years");
}

#[test]
fn elapsed_time_against_now_yields_seconds() {
    let now = SystemTime::now().duration_since(SystemTime::UNIX_EPOCH).unwrap().as_secs();
    let text = get_elapsed_time_as_text(now);
    assert!(
        text.ends_with("second") || text.ends_with("seconds"),
        "expected a 'seconds' bucket for now-relative input; got {text:?}"
    );
}

#[test]
fn elapsed_time_at_fixed_now_is_exact() {
    assert_eq!(get_elapsed_time_as_text_at(1000, 1000 + 3 * 3600), "3 hours");
    assert_eq!(get_elapsed_time_as_text_at(5000, 1000), "0 seconds");
}

#[test]
fn day_offset_zero_is_zero_seconds() {
    assert_eq!(from_day_offset_to_time_offset_in_secs(0), 0);
}

#[test]
fn day_offset_one_is_a_day_in_seconds() {
    assert_eq!(from_day_offset_to_time_offset_in_secs(1), 86_400);
}

#[test]
fn day_offset_seven_is_a_week_in_seconds() {
    assert_eq!(from_day_offset_to_time_offset_in_secs(7), 604_800);
}

#[test]
fn short_url_returned_unchanged() {
    let url = "https://example.com/short";
    assert_eq!(shorten_url(url), url);
}

#[test]
fn fifty_char_url_returned_unchanged() {
    let url = "a".repeat(50);
    assert_eq!(shorten_url(&url), url);
}

#[test]
fn long_url_keeps_prefix_ellipsis_suffix() {
    let url = "a".repeat(40) + &"b".repeat(20);
    let shortened = shorten_url(&url);
    assert_eq!(shortened.len(), 40 + 3 + 10);
    assert!(shortened.starts_with(&"a".repeat(40)));
    assert!(shortened.contains("..."));
    assert!(shortened.ends_with(&"b".repeat(10)));
}

#[test]
fn decode_html_named_entities() {
    assert_eq!(decode_html("&amp;&lt;&gt;"), "&<>");
}

#[test]
fn decode_html_numeric_entity() {
    assert_eq!(decode_html("&#x27;"), "'");
}

#[test]
fn decode_html_passes_plain_text_through() {
    assert_eq!(decode_html("hello world"), "hello world");
}

#[test]
fn combine_styled_strings_concatenates_in_order() {
    let a = StyledText::plain("hello ");
    let b = StyledText::plain("world");
    let combined = combine_styled_strings(vec![a, b]);
    assert_eq!(combined.source(), "hello world");
}

#[test]
fn combine_styled_strings_handles_empty_input() {
    let combined: StyledText = combine_styled_strings(Vec::<StyledText>::new());
    assert_eq!(combined.source(), "");
}
