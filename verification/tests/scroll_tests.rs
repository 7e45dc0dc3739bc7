use logdash::scroll::{max_cursor, navigate, visible_slice, NavCommand};

#[test]
fn visible_slice_returns_the_window_at_the_cursor() {
    let logs: Vec<String> = (0..15).map(|i| format!("line {}", i)).collect();
    let window = visible_slice(&logs, 5, 10);
    assert_eq!(window.len(), 10);
    assert_eq!(window[0], "line 5");
    assert_eq!(window[9], "line 14");
}

#[test]
fn visible_slice_is_short_near_the_end() {
    let logs: Vec<String> = (0..7).map(|i| format!("line {}", i)).collect();
    assert_eq!(visible_slice(&logs, 3, 10), vec!["line 3", "line 4", "line 5", "line 6"]);
    assert_eq!(visible_slice(&logs, 7, 10), Vec::<String>::new());
}

#[test]
fn max_cursor_is_zero_until_log_overflows_viewport() {
    assert_eq!(max_cursor(0, 10), 0);
    assert_eq!(max_cursor(10, 10), 0);
    assert_eq!(max_cursor(11, 10), 1);
    assert_eq!(max_cursor(25, 10), 15);
}

#[test]
fn line_moves_step_by_one_and_clamp() {
    assert_eq!(navigate(25, 10, 10, 5, NavCommand::LineUp), 4);
    assert_eq!(navigate(25, 10, 10, 0, NavCommand::LineUp), 0);
    assert_eq!(navigate(25, 10, 10, 5, NavCommand::LineDown), 6);
    assert_eq!(navigate(25, 10, 10, 15, NavCommand::LineDown), 15);
}

#[test]
fn page_moves_by_page_size_and_clamp() {
    assert_eq!(navigate(25, 10, 10, 15, NavCommand::PageUp), 5);
    assert_eq!(navigate(25, 10, 10, 5, NavCommand::PageUp), 0);
    assert_eq!(navigate(25, 10, 10, 0, NavCommand::PageDown), 10);
    assert_eq!(navigate(25, 10, 10, 10, NavCommand::PageDown), 15);
    assert_eq!(navigate(5, 10, 10, 0, NavCommand::PageDown), 0);
}

#[test]
fn home_and_end_jump_to_boundaries() {
    assert_eq!(navigate(25, 10, 10, 7, NavCommand::Home), 0);
    assert_eq!(navigate(25, 10, 10, 7, NavCommand::End), 15);
    assert_eq!(navigate(3, 10, 10, 0, NavCommand::End), 0);
}

#[test]
fn idle_keeps_the_cursor() {
    assert_eq!(navigate(25, 10, 10, 7, NavCommand::Idle), 7);
}

#[test]
fn page_up_from_half_page_clamps_to_top() {
    // Fifteen lines seen through a ten-line viewport put the cursor at five;
    // one page up clamps to zero because the page equals the viewport.
    assert_eq!(navigate(15, 10, 10, 5, NavCommand::PageUp), 0);
}
