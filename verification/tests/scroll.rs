use scroll_layout::scroll::{calc_scroll_top, VerticalScroll};

#[test]
fn test_scroll_no_scroll_to_top() {
    assert_eq!(calc_scroll_top(1, 10, 4, 4), 0);
}

#[test]
fn test_scroll_zero_height() {
    assert_eq!(calc_scroll_top(4, 0, 4, 3), 0);
}

#[test]
fn fitting_content_never_scrolls() {
    assert_eq!(calc_scroll_top(7, 5, 3, 5), 0);
    assert_eq!(calc_scroll_top(usize::MAX, 5, usize::MAX, 5), 0);
}

#[test]
fn selection_below_window_becomes_last_row() {
    assert_eq!(calc_scroll_top(0, 3, 5, 10), 3);
    assert_eq!(calc_scroll_top(0, 3, 3, 10), 1);
    assert_eq!(calc_scroll_top(0, 3, 2, 10), 0);
}

#[test]
fn selection_above_window_becomes_first_row() {
    assert_eq!(calc_scroll_top(6, 3, 2, 10), 2);
    assert_eq!(calc_scroll_top(6, 3, 0, 10), 0);
}

#[test]
fn visible_selection_keeps_the_offset() {
    assert_eq!(calc_scroll_top(4, 3, 4, 10), 4);
    assert_eq!(calc_scroll_top(4, 3, 6, 10), 4);
}

#[test]
fn huge_offsets_do_not_overflow() {
    assert_eq!(calc_scroll_top(usize::MAX, 3, usize::MAX, usize::MAX), usize::MAX);
    assert_eq!(calc_scroll_top(usize::MAX, 3, 5, usize::MAX), 5);
    assert_eq!(calc_scroll_top(usize::MAX - 1, usize::MAX - 1, 5, usize::MAX), 5);
}

#[test]
fn update_stores_top_and_max_top() {
    let mut scroll = VerticalScroll::new(true, false);
    assert_eq!(scroll.get_top(), 0);
    assert_eq!(scroll.get_max_top(), 0);
    assert!(scroll.border());
    assert!(!scroll.inside());
    assert_eq!(scroll.update(5, 10, 3), 3);
    assert_eq!(scroll.get_top(), 3);
    assert_eq!(scroll.get_max_top(), 7);
    assert_eq!(scroll.update(1, 10, 3), 1);
    assert_eq!(scroll.get_top(), 1);
}

#[test]
fn update_twice_gives_the_same_top() {
    let mut scroll = VerticalScroll::new(false, false);
    let first = scroll.update(8, 20, 4);
    let second = scroll.update(8, 20, 4);
    assert_eq!(first, 5);
    assert_eq!(second, 5);
}

#[test]
fn max_top_is_zero_without_rows_or_when_content_fits() {
    let mut scroll = VerticalScroll::new(false, true);
    scroll.update(2, 10, 0);
    assert_eq!(scroll.get_max_top(), 0);
    scroll.update(2, 3, 5);
    assert_eq!(scroll.get_max_top(), 0);
    scroll.update(2, 9, 5);
    assert_eq!(scroll.get_max_top(), 4);
}

#[test]
fn reset_returns_to_the_first_row() {
    let mut scroll = VerticalScroll::new(false, false);
    scroll.update(9, 12, 3);
    assert_eq!(scroll.get_top(), 7);
    scroll.reset();
    assert_eq!(scroll.get_top(), 0);
    assert_eq!(scroll.get_max_top(), 9);
}
