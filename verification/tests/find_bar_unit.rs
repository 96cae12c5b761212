use hackernews_tim::find::highlight_matches;
use hackernews_tim::styled::StyledText;
use hackernews_tim::theme::Style;

fn make_style() -> Style {
    Style::plain()
}

#[test]
fn empty_query_returns_input_unchanged() {
    let input = StyledText::plain("hello world");
    let (out, ranges) = highlight_matches(&input, "", make_style());
    assert!(ranges.is_empty());
    assert_eq!(out.source(), "hello world");
}

#[test]
fn counts_all_occurrences_case_insensitively() {
    let input = StyledText::plain("Foo foo FOO");
    let (_, ranges) = highlight_matches(&input, "foo", make_style());
    assert_eq!(ranges.len(), 3);
}

#[test]
fn preserves_source_text_byte_for_byte() {
    let input = StyledText::plain("search within a longer sentence");
    let (out, _) = highlight_matches(&input, "within", make_style());
    assert_eq!(out.source(), input.source());
}

#[test]
fn zero_matches_when_query_absent() {
    let input = StyledText::plain("hello");
    let (_, ranges) = highlight_matches(&input, "zzz", make_style());
    assert!(ranges.is_empty());
}

#[test]
fn handles_multibyte_text_without_panicking() {
    let input = StyledText::plain("café matcha café");
    let (_, ranges) = highlight_matches(&input, "café", make_style());
    assert_eq!(ranges.len(), 2);
}

#[test]
fn returns_source_byte_ranges_for_each_match() {
    let input = StyledText::plain("foo bar foo");
    let (_, ranges) = highlight_matches(&input, "foo", make_style());
    assert_eq!(ranges, vec![(0, 3), (8, 11)]);
}

#[test]
fn ranges_are_byte_offsets_after_multibyte_text() {
    let input = StyledText::plain("é foo");
    let (_, ranges) = highlight_matches(&input, "foo", make_style());
    assert_eq!(ranges, vec![(3, 6)]);
    assert_eq!(&"é foo"[3..6], "foo");
}
