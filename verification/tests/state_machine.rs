use rustless::terminal_state::{parse_input, Key, TerminalState};

const PAGE: usize = 10;

fn press(ts: TerminalState, key: Key) -> TerminalState {
    let (next, request) = parse_input(key, ts, PAGE);
    assert!(request.is_none());
    next
}

fn type_text(mut ts: TerminalState, text: &str) -> TerminalState {
    for c in text.chars() {
        ts = press(ts, Key::Char(c));
    }
    ts
}

fn line_texts(ts: &TerminalState) -> Vec<String> {
    ts.text_state
        .text
        .lines
        .iter()
        .map(|line| line.runs.iter().map(|run| run.text.clone()).collect::<String>())
        .collect()
}

fn five_line_document() -> TerminalState {
    TerminalState::new("foo\nbar\nfoo baz\nqux\nfoo".to_string())
}

#[test]
fn quit_key_stops_running() {
    let ts = five_line_document();
    assert!(ts.running);
    let ts = press(ts, Key::Char('q'));
    assert!(!ts.running);
}

#[test]
fn unknown_keys_are_noops() {
    let ts = five_line_document();
    let ts = press(ts, Key::Other);
    let ts = press(ts, Key::Char('x'));
    assert!(ts.running);
    assert!(ts.normal_mode());
    assert_eq!(ts.scroll_offset, 0);
}

#[test]
fn sigil_enters_command_mode_and_prompt_renders() {
    let ts = five_line_document();
    assert_eq!(ts.command.get_prompt(), ":");
    let ts = press(ts, Key::Char('/'));
    assert!(!ts.normal_mode());
    let ts = type_text(ts, "ab");
    assert_eq!(ts.command.get_prompt(), "/ab");
}

#[test]
fn filter_then_jump_between_matches() {
    let ts = five_line_document();
    let ts = press(ts, Key::Char('&'));
    let ts = type_text(ts, "foo");
    let ts = press(ts, Key::Enter);
    assert!(ts.normal_mode());
    assert_eq!(
        line_texts(&ts),
        vec!["foo".to_string(), "foo baz".to_string(), "foo".to_string()]
    );
    assert_eq!(ts.text_state.next_pattern, vec![0, 2, 4]);
    assert_eq!(ts.scroll_offset, 0);
    let ts = press(ts, Key::Char('n'));
    assert_eq!(ts.scroll_offset, 2);
    let ts = press(ts, Key::Char('n'));
    assert_eq!(ts.scroll_offset, 4);
    let ts = press(ts, Key::Char('n'));
    assert_eq!(ts.scroll_offset, 4);
    let ts = press(ts, Key::Char('N'));
    assert_eq!(ts.scroll_offset, 2);
}

#[test]
fn empty_search_highlights_nothing_and_indexes_every_line() {
    let ts = five_line_document();
    let ts = press(ts, Key::Char('/'));
    let ts = press(ts, Key::Enter);
    assert_eq!(ts.text_state.next_pattern, vec![0, 1, 2, 3, 4]);
    assert!(ts
        .text_state
        .text
        .lines
        .iter()
        .all(|line| line.runs.iter().all(|run| !run.matched)));
    assert_eq!(
        line_texts(&ts),
        vec![
            "foo".to_string(),
            "bar".to_string(),
            "foo baz".to_string(),
            "qux".to_string(),
            "foo".to_string()
        ]
    );
}

#[test]
fn search_highlights_matches_in_place() {
    let ts = five_line_document();
    let ts = press(ts, Key::Char('/'));
    let ts = type_text(ts, "foo");
    let ts = press(ts, Key::Enter);
    assert_eq!(ts.text_state.text.lines.len(), 5);
    let marked: Vec<String> = ts
        .text_state
        .text
        .lines
        .iter()
        .flat_map(|line| line.runs.iter())
        .filter(|run| run.matched)
        .map(|run| run.text.clone())
        .collect();
    assert_eq!(marked, vec!["foo".to_string(), "foo".to_string(), "foo".to_string()]);
}

#[test]
fn backspace_on_empty_buffer_exits_to_normal_and_resets_cursor() {
    // Two searches fill the history; navigating moves the cursor.
    let ts = five_line_document();
    let ts = press(ts, Key::Char('/'));
    let ts = type_text(ts, "aa");
    let ts = press(ts, Key::Enter);
    let ts = press(ts, Key::Char('/'));
    let ts = type_text(ts, "bb");
    let ts = press(ts, Key::Enter);

    let ts = press(ts, Key::Char('/'));
    let ts = type_text(ts, "x");
    let ts = press(ts, Key::Up);
    assert_eq!(ts.command.get_prompt(), "/bb");
    let ts = press(ts, Key::Up);
    assert_eq!(ts.command.get_prompt(), "/aa");

    let ts = press(ts, Key::Backspace);
    let ts = press(ts, Key::Backspace);
    assert!(!ts.normal_mode());
    assert_eq!(ts.command.get_prompt(), "/");
    let ts = press(ts, Key::Backspace);
    assert!(ts.normal_mode());

    // The cursor was reset: navigating starts at the most recent pattern.
    let ts = press(ts, Key::Char('/'));
    let ts = press(ts, Key::Up);
    assert_eq!(ts.command.get_prompt(), "/bb");
}

#[test]
fn search_preserves_scroll_filter_resets_it() {
    let many_lines = vec!["foo"; 30].join("\n");
    let ts = TerminalState::new(many_lines);
    let ts = press(ts, Key::Down);
    let ts = press(ts, Key::Down);
    assert_eq!(ts.scroll_offset, 2);

    let ts = press(ts, Key::Char('/'));
    let ts = type_text(ts, "foo");
    let ts = press(ts, Key::Enter);
    assert_eq!(ts.scroll_offset, 2);

    let ts = press(ts, Key::Char('&'));
    let ts = type_text(ts, "foo");
    let ts = press(ts, Key::Enter);
    assert_eq!(ts.scroll_offset, 0);
}

#[test]
fn scrolling_clamps_to_document() {
    let many_lines = vec!["line"; 25].join("\n");
    let mut ts = TerminalState::new(many_lines);
    for _ in 0..100 {
        ts = press(ts, Key::Down);
    }
    assert_eq!(ts.scroll_offset, 15);
    let ts = press(ts, Key::Char('g'));
    assert_eq!(ts.scroll_offset, 0);
    let ts = press(ts, Key::Char('G'));
    assert_eq!(ts.scroll_offset, 15);
    let ts = press(ts, Key::Char('b'));
    assert_eq!(ts.scroll_offset, 5);
    let ts = press(ts, Key::Char('f'));
    assert_eq!(ts.scroll_offset, 15);
    let mut ts = press(ts, Key::Char('g'));
    for _ in 0..10 {
        ts = press(ts, Key::Up);
    }
    assert_eq!(ts.scroll_offset, 0);
}

#[test]
fn change_file_hands_back_the_path_and_takes_the_content() {
    let ts = five_line_document();
    let ts = press(ts, Key::Char(';'));
    let ts = type_text(ts, "other.txt");
    let (ts, request) = parse_input(Key::Enter, ts, PAGE);
    assert_eq!(request, Some("other.txt".to_string()));
    assert!(ts.normal_mode());
    assert_eq!(ts.scroll_offset, 0);

    let mut ts = ts;
    ts.apply_file_read(Some("new one\nnew two".to_string()));
    assert_eq!(line_texts(&ts), vec!["new one".to_string(), "new two".to_string()]);
    assert_eq!(ts.text_state.content, "new one\nnew two".to_string());
}

#[test]
fn failed_file_read_keeps_the_old_document() {
    let ts = five_line_document();
    let ts = press(ts, Key::Char(';'));
    let ts = type_text(ts, "missing.txt");
    let (mut ts, request) = parse_input(Key::Enter, ts, PAGE);
    assert_eq!(request, Some("missing.txt".to_string()));
    ts.apply_file_read(None);
    assert_eq!(ts.text_state.content, "foo\nbar\nfoo baz\nqux\nfoo".to_string());
    assert_eq!(ts.text_state.text.lines.len(), 5);
}

#[test]
fn invalid_pattern_submission_keeps_display_and_clears_prompt() {
    let ts = five_line_document();
    let ts = press(ts, Key::Char('/'));
    let ts = type_text(ts, "(");
    let ts = press(ts, Key::Enter);
    assert!(ts.normal_mode());
    assert_eq!(ts.command.get_prompt(), ":");
    assert_eq!(ts.text_state.text.lines.len(), 5);
    assert!(ts.text_state.next_pattern.is_empty());
}

#[test]
fn visible_window_clamps_to_line_count() {
    let ts = five_line_document();
    assert_eq!(ts.visible_window(3), (0, 3));
    assert_eq!(ts.visible_window(10), (0, 5));
    let mut ts = ts;
    ts.scroll_offset = 4;
    assert_eq!(ts.visible_window(3), (4, 5));
    ts.scroll_offset = 99;
    assert_eq!(ts.visible_window(3), (5, 5));
}

#[test]
fn colon_resets_prompt_but_stays_normal() {
    let ts = five_line_document();
    let ts = press(ts, Key::Char(':'));
    assert!(ts.normal_mode());
    assert_eq!(ts.command.get_prompt(), ":");
}

#[test]
fn empty_document_is_navigable() {
    let ts = TerminalState::new(String::new());
    assert_eq!(ts.text_state.text.lines.len(), 0);
    assert_eq!(ts.visible_window(10), (0, 0));
    let ts = press(ts, Key::Down);
    assert_eq!(ts.scroll_offset, 0);
    let ts = press(ts, Key::Char('G'));
    assert_eq!(ts.scroll_offset, 0);
    let ts = press(ts, Key::Char('n'));
    assert_eq!(ts.scroll_offset, 0);
}

#[test]
fn filter_on_empty_document_stays_empty() {
    let ts = TerminalState::new(String::new());
    let ts = press(ts, Key::Char('&'));
    let ts = type_text(ts, "foo");
    let ts = press(ts, Key::Enter);
    assert_eq!(ts.text_state.text.lines.len(), 0);
    assert!(ts.text_state.next_pattern.is_empty());
}

#[test]
fn trailing_newline_adds_no_final_line() {
    let ts = TerminalState::new("one\ntwo\n".to_string());
    assert_eq!(line_texts(&ts), vec!["one".to_string(), "two".to_string()]);
}

#[test]
fn change_file_clears_the_match_index() {
    let ts = five_line_document();
    let ts = press(ts, Key::Char('&'));
    let ts = type_text(ts, "foo");
    let ts = press(ts, Key::Enter);
    assert_eq!(ts.text_state.next_pattern, vec![0, 2, 4]);

    let ts = press(ts, Key::Char(';'));
    let ts = type_text(ts, "other.txt");
    let (mut ts, request) = parse_input(Key::Enter, ts, PAGE);
    assert_eq!(request, Some("other.txt".to_string()));
    ts.apply_file_read(Some("a\nb".to_string()));
    assert!(ts.text_state.next_pattern.is_empty());

    // With no pattern active, jump-to-match is a no-op on the new document.
    let ts = press(ts, Key::Char('n'));
    assert_eq!(ts.scroll_offset, 0);
    let ts = press(ts, Key::Char('N'));
    assert_eq!(ts.scroll_offset, 0);
}
