use arklog::RedrawState;

#[test]
fn redraw_state_coalesces_changes_and_stays_clean_while_idle() {
    let mut redraw = RedrawState::new();

    assert!(redraw.take());
    assert!(!redraw.take());
    redraw.mark();
    redraw.mark();
    assert!(redraw.take());
    assert!(!redraw.take());
}

#[test]
fn conditional_marks_only_count_changes() {
    let mut redraw = RedrawState::new();
    assert!(redraw.take());
    redraw.mark_if(false);
    assert!(!redraw.take());
    redraw.mark_if(true);
    assert!(redraw.take());
}
