use rustless::terminal_state::{
    end_of_file_offset, move_back_page, move_forward_page, scroll_down, scroll_to_next_match,
    scroll_to_prior_match, scroll_up,
};

#[test]
fn end_of_file_offset_floors_at_zero() {
    assert_eq!(end_of_file_offset(100, 10), 90);
    assert_eq!(end_of_file_offset(5, 10), 0);
    assert_eq!(end_of_file_offset(10, 10), 0);
}

#[test]
fn scroll_down_stops_at_end_of_file() {
    let mut scroll: usize = 0;
    for _ in 0..20 {
        scroll = scroll_down(scroll, 13, 10);
    }
    assert_eq!(scroll, 3);
}

#[test]
fn scroll_up_floors_at_zero() {
    assert_eq!(scroll_up(1), 0);
    assert_eq!(scroll_up(0), 0);
}

#[test]
fn page_forward_clamps_to_end_of_file() {
    assert_eq!(move_forward_page(100, 0, 10), 10);
    assert_eq!(move_forward_page(100, 85, 10), 90);
    assert_eq!(move_forward_page(5, 0, 10), 0);
}

#[test]
fn page_back_floors_at_zero() {
    assert_eq!(move_back_page(25, 10), 15);
    assert_eq!(move_back_page(7, 10), 0);
}

#[test]
fn jump_is_noop_on_empty_index() {
    let empty: Vec<usize> = Vec::new();
    assert_eq!(scroll_to_next_match(5, &empty), None);
    assert_eq!(scroll_to_prior_match(5, &empty), None);
}

#[test]
fn jump_lands_on_index_entries() {
    let index: Vec<usize> = vec![0, 2, 4];
    assert_eq!(scroll_to_next_match(0, &index), Some(2));
    assert_eq!(scroll_to_next_match(2, &index), Some(4));
    assert_eq!(scroll_to_next_match(4, &index), None);
    assert_eq!(scroll_to_prior_match(4, &index), Some(2));
    assert_eq!(scroll_to_prior_match(1, &index), Some(0));
    assert_eq!(scroll_to_prior_match(0, &index), None);
}
