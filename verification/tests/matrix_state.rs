use kb_host::matrix::KeyMatrix;

#[test]
fn press_sets_both_timestamps() {
    let mut m = KeyMatrix::new(2, 3);
    m.apply_press(1, 2, true, 100);
    let snap = m.snapshot();
    assert_eq!(snap[1][2].last_down, Some(100));
    assert_eq!(snap[1][2].last_pressed, Some(100));
    assert!(snap[1][2].is_pressed);
}

#[test]
fn repeated_press_never_retriggers_last_down() {
    let mut m = KeyMatrix::new(2, 3);
    m.apply_press(0, 0, true, 100);
    m.apply_press(0, 0, true, 200);
    m.apply_press(0, 0, true, 300);
    let snap = m.snapshot();
    // Only the first released-to-pressed transition set last_down.
    assert_eq!(snap[0][0].last_down, Some(100));
    // Every pressed observation moved last_pressed.
    assert_eq!(snap[0][0].last_pressed, Some(300));
    assert!(snap[0][0].is_pressed);
}

#[test]
fn release_and_press_again_retriggers_last_down() {
    let mut m = KeyMatrix::new(1, 1);
    m.apply_press(0, 0, true, 100);
    m.apply_press(0, 0, false, 200);
    let snap = m.snapshot();
    assert_eq!(snap[0][0].last_down, Some(100));
    assert_eq!(snap[0][0].last_pressed, Some(100));
    assert!(!snap[0][0].is_pressed);

    m.apply_press(0, 0, true, 300);
    let snap = m.snapshot();
    assert_eq!(snap[0][0].last_down, Some(300));
    assert_eq!(snap[0][0].last_pressed, Some(300));
    assert!(snap[0][0].is_pressed);
}

#[test]
fn is_pressed_tracks_most_recent_event() {
    let mut m = KeyMatrix::new(1, 1);
    for (pressed, t) in [(true, 1u64), (true, 2), (false, 3), (true, 4), (false, 5)] {
        m.apply_press(0, 0, pressed, t);
        assert_eq!(m.snapshot()[0][0].is_pressed, pressed);
    }
}

#[test]
fn press_leaves_other_positions_alone() {
    let mut m = KeyMatrix::new(2, 2);
    m.apply_press(0, 1, true, 50);
    let snap = m.snapshot();
    for (r, c) in [(0usize, 0usize), (1, 0), (1, 1)] {
        assert_eq!(snap[r][c].last_down, None);
        assert_eq!(snap[r][c].last_pressed, None);
        assert!(!snap[r][c].is_pressed);
    }
}

#[test]
fn snapshot_is_an_independent_copy() {
    let mut m = KeyMatrix::new(1, 1);
    let before = m.snapshot();
    m.apply_press(0, 0, true, 10);
    assert!(!before[0][0].is_pressed);
    assert!(m.snapshot()[0][0].is_pressed);
}
