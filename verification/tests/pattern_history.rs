use rustless::pattern_history::PatternHistory;

fn recorded_history(patterns: &[&str]) -> PatternHistory {
    let mut history = PatternHistory::new();
    for pattern in patterns {
        history = history.add_pattern(pattern.to_string());
    }
    history
}

#[test]
fn history_traversal_back_then_forward() {
    let mut history = recorded_history(&["a", "b", "c"]);
    assert_eq!(history.get_prior_pattern(), Some("c".to_string()));
    assert_eq!(history.get_prior_pattern(), Some("b".to_string()));
    assert_eq!(history.get_prior_pattern(), Some("a".to_string()));
    assert_eq!(history.get_prior_pattern(), None);
    assert_eq!(history.get_next_pattern(), Some("b".to_string()));
}

#[test]
fn next_before_previous_yields_none() {
    let mut history = recorded_history(&["a", "b"]);
    assert_eq!(history.get_next_pattern(), None);
    assert_eq!(history.get_next_pattern(), None);
}

#[test]
fn sentinel_only_history_yields_none_forever() {
    let mut history = PatternHistory::new();
    assert_eq!(history.get_prior_pattern(), None);
    assert_eq!(history.get_next_pattern(), None);
    assert_eq!(history.get_prior_pattern(), None);
    assert_eq!(history.get_next_pattern(), None);
}

#[test]
fn reset_index_restarts_traversal() {
    let mut history = recorded_history(&["a", "b"]);
    assert_eq!(history.get_prior_pattern(), Some("b".to_string()));
    assert_eq!(history.get_prior_pattern(), Some("a".to_string()));
    history.reset_index();
    assert_eq!(history.get_prior_pattern(), Some("b".to_string()));
}

#[test]
fn next_stops_at_most_recent_entry() {
    let mut history = recorded_history(&["a", "b"]);
    assert_eq!(history.get_prior_pattern(), Some("b".to_string()));
    assert_eq!(history.get_next_pattern(), None);
}
