use render_core::camera::{motion, CursorStep, CursorTracker, MoveAxis, MoveDirection};

#[test]
fn first_cursor_sample_only_sets_baseline() {
    let mut tracker = CursorTracker::new();
    assert_eq!(tracker.on_sample(), CursorStep::Baseline);
    assert_eq!(tracker.on_sample(), CursorStep::Rotate);
    assert_eq!(tracker.on_sample(), CursorStep::Rotate);
}

#[test]
fn opposite_keys_move_in_opposite_senses() {
    let forward = motion(MoveDirection::Forward);
    let backward = motion(MoveDirection::Backward);
    assert_eq!(forward.axis, MoveAxis::Front);
    assert_eq!(backward.axis, MoveAxis::Front);
    assert_eq!(forward.sign + backward.sign, 0);
    let left = motion(MoveDirection::Left);
    let right = motion(MoveDirection::Right);
    assert_eq!(left.axis, MoveAxis::Strafe);
    assert_eq!(right.axis, MoveAxis::Strafe);
    assert_eq!((left.sign, right.sign), (-1, 1));
    assert_eq!(forward.sign, 1);
}
