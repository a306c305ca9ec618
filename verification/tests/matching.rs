use rustless::matching::{filter_lines, get_match_line_numbers};
use rustless::text_state::TextState;

fn document_lines() -> Vec<String> {
    vec![
        "foo".to_string(),
        "bar".to_string(),
        "foo baz".to_string(),
        "qux".to_string(),
        "foo".to_string(),
    ]
}

#[test]
fn filter_keeps_matching_lines_in_order() {
    let kept = filter_lines("foo", &document_lines());
    assert_eq!(kept, vec!["foo".to_string(), "foo baz".to_string(), "foo".to_string()]);
}

#[test]
fn filter_length_never_grows() {
    let lines = document_lines();
    assert!(filter_lines("foo", &lines).len() <= lines.len());
    assert!(filter_lines("zzz", &lines).is_empty());
}

#[test]
fn filter_with_regex_pattern() {
    let kept = filter_lines("^ba", &document_lines());
    assert_eq!(kept, vec!["bar".to_string()]);
}

#[test]
fn match_line_numbers_are_ordered_document_indices() {
    let numbers = get_match_line_numbers("foo", &document_lines());
    assert_eq!(numbers, vec![0, 2, 4]);
}

#[test]
fn empty_pattern_matches_every_line() {
    let numbers = get_match_line_numbers("", &document_lines());
    assert_eq!(numbers, vec![0, 1, 2, 3, 4]);
}

#[test]
fn invalid_pattern_leaves_model_unchanged() {
    let mut model = TextState::new("foo\nbar".to_string());
    let lines_before = model.text.lines.len();
    let result = model.match_lines("(");
    assert!(result.is_err());
    assert_eq!(model.content, "foo\nbar".to_string());
    assert_eq!(model.text.lines.len(), lines_before);
    assert!(model.next_pattern.is_empty());
}

#[test]
fn filter_transforms_display_text() {
    let mut model = TextState::new("foo\nbar\nfoo baz\nqux\nfoo".to_string());
    assert!(model.match_lines("foo").is_ok());
    assert_eq!(model.text.lines.len(), 3);
    assert_eq!(model.next_pattern, vec![0, 2, 4]);
    assert_eq!(model.content, "foo\nbar\nfoo baz\nqux\nfoo".to_string());
}

#[test]
fn crlf_document_splits_like_plain_newlines() {
    let numbers = get_match_line_numbers(
        "b",
        &rustless::text_state::TextState::new("a\r\nb\r\nc".to_string())
            .text
            .lines
            .iter()
            .map(|line| line.runs.iter().map(|run| run.text.clone()).collect::<String>())
            .collect::<Vec<String>>(),
    );
    assert_eq!(numbers, vec![1]);
}
