use rustless::styling::{get_bolded_match_text, style_line, StyledLine};

fn concatenated(line: &StyledLine) -> String {
    line.runs.iter().map(|run| run.text.clone()).collect::<String>()
}

#[test]
fn styled_runs_concatenate_back_to_the_line() {
    let line = "a foo b foo";
    let styled = style_line("foo", line);
    assert_eq!(concatenated(&styled), line);
}

#[test]
fn styled_runs_mark_exactly_the_matches() {
    let styled = style_line("foo", "a foo b");
    let marked: Vec<String> = styled
        .runs
        .iter()
        .filter(|run| run.matched)
        .map(|run| run.text.clone())
        .collect();
    assert_eq!(marked, vec!["foo".to_string()]);
}

#[test]
fn single_character_pieces_are_split_apart() {
    let styled = style_line("o", "foo");
    let texts: Vec<String> = styled.runs.iter().map(|run| run.text.clone()).collect();
    let flags: Vec<bool> = styled.runs.iter().map(|run| run.matched).collect();
    assert_eq!(texts, vec!["f".to_string(), "o".to_string(), "o".to_string()]);
    assert_eq!(flags, vec![false, true, true]);
}

#[test]
fn empty_pattern_marks_no_run() {
    let styled = style_line("", "anything at all");
    assert!(styled.runs.iter().all(|run| !run.matched));
    assert_eq!(concatenated(&styled), "anything at all");
}

#[test]
fn empty_pattern_round_trips_empty_line() {
    let styled = style_line("", "");
    assert_eq!(concatenated(&styled), "");
}

#[test]
fn regex_pattern_styles_variable_length_matches() {
    let styled = style_line("fo+", "f foo fo");
    assert_eq!(concatenated(&styled), "f foo fo");
    let marked: Vec<String> = styled
        .runs
        .iter()
        .filter(|run| run.matched)
        .map(|run| run.text.clone())
        .collect();
    assert_eq!(marked, vec!["foo".to_string(), "fo".to_string()]);
}

#[test]
fn search_styling_keeps_every_line() {
    let lines = vec!["foo".to_string(), "bar".to_string(), "foo baz".to_string()];
    let display = get_bolded_match_text("foo", &lines);
    assert_eq!(display.lines.len(), 3);
    for (styled, original) in display.lines.iter().zip(lines.iter()) {
        assert_eq!(&concatenated(styled), original);
    }
}

#[test]
fn pattern_matching_empty_string_falls_back_to_one_run() {
    let styled = style_line("a*", "bb");
    assert_eq!(concatenated(&styled), "bb");
}
