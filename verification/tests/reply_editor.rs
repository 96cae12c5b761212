use hackernews_tim::reply::{body_or_abort, edit_scaffold, read_and_strip, reply_scaffold, SCISSORS};

#[test]
fn write_scaffold_quotes_parent_with_hash_arrow_prefix() {
    let body = reply_scaffold("first line\nsecond line");
    assert!(body.contains(SCISSORS), "scissors missing: {body:?}");
    assert!(body.contains("# > first line"), "expected '# > first line' in {body:?}");
    assert!(body.contains("# > second line"), "expected '# > second line' in {body:?}");
    assert!(body.contains("Write your reply above the scissors line"));
}

#[test]
fn write_scaffold_handles_empty_parent() {
    let body = reply_scaffold("");
    assert!(body.contains("# > (empty)"), "expected empty placeholder; got {body:?}");
}

#[test]
fn write_edit_scaffold_includes_current_text_and_scissors() {
    let body = edit_scaffold("current comment text");
    assert!(body.contains("current comment text"), "got {body:?}");
    assert!(body.contains(SCISSORS), "scissors missing: {body:?}");
    assert!(body.contains("Edit your comment above the scissors line"));
}

#[test]
fn read_and_strip_returns_body_above_scissors() {
    let text = format!("hello world\nsecond line\n{SCISSORS}\n# instructions\n# > parent\n");
    assert_eq!(read_and_strip(&text), "hello world\nsecond line");
}

#[test]
fn read_and_strip_trims_surrounding_whitespace() {
    let text = format!("\n  body  \n\n{SCISSORS}\n# rest\n");
    assert_eq!(read_and_strip(&text), "body");
}

#[test]
fn read_and_strip_returns_empty_when_only_scaffold_remains() {
    let text = reply_scaffold("some parent text");
    assert_eq!(read_and_strip(&text), "");
}

#[test]
fn edit_scaffold_reads_back_the_current_text() {
    let text = edit_scaffold("keep this comment");
    assert_eq!(read_and_strip(&text), "keep this comment");
}

#[test]
fn body_or_abort_is_none_for_an_untouched_scaffold() {
    assert_eq!(body_or_abort(&reply_scaffold("parent")), None);
    assert_eq!(body_or_abort(&format!("my reply\n{SCISSORS}\n")), Some("my reply".to_string()));
}
