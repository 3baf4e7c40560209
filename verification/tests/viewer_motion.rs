use raycaster::fixed::{FP_ONE, TWO_PI_FP};
use raycaster::viewer::Viewer;

const SPEED: i64 = 3 * FP_ONE;

#[test]
fn new_viewer_folds_heading() {
    let v = Viewer::new(200 * FP_ONE, 200 * FP_ONE, -1);
    assert_eq!(v.x, 200 * FP_ONE);
    assert_eq!(v.y, 200 * FP_ONE);
    assert_eq!(v.angle, TWO_PI_FP - 1);
}

#[test]
fn forward_moves_along_heading() {
    let mut v = Viewer::new(200 * FP_ONE, 200 * FP_ONE, 0);
    v.update(true, false, false, false, 0, SPEED, 200);
    assert_eq!(v.x, 200 * FP_ONE);
    assert_eq!(v.y, 200 * FP_ONE + SPEED);
}

#[test]
fn back_wins_over_forward() {
    let mut v = Viewer::new(200 * FP_ONE, 200 * FP_ONE, 0);
    v.update(true, true, false, false, 0, SPEED, 200);
    assert_eq!(v.x, 200 * FP_ONE);
    assert_eq!(v.y, 200 * FP_ONE - SPEED);
}

#[test]
fn strafing_is_perpendicular() {
    let mut v = Viewer::new(200 * FP_ONE, 200 * FP_ONE, 0);
    v.update(false, false, false, true, 0, SPEED, 200);
    assert_eq!(v.x, 200 * FP_ONE + SPEED);
    assert_eq!(v.y, 200 * FP_ONE);
    let mut w = Viewer::new(200 * FP_ONE, 200 * FP_ONE, 0);
    w.update(false, false, true, false, 0, SPEED, 200);
    assert_eq!(w.x, 200 * FP_ONE - SPEED);
    assert_eq!(w.y, 200 * FP_ONE);
}

#[test]
fn pointer_delta_turns_heading() {
    let mut v = Viewer::new(200 * FP_ONE, 200 * FP_ONE, 0);
    v.update(false, false, false, false, 200, 0, 200);
    assert_eq!(v.angle, FP_ONE);
    v.update(false, false, false, false, -200, 0, 200);
    assert_eq!(v.angle, 0);
}

#[test]
fn idle_frame_changes_nothing() {
    let mut v = Viewer::new(123456, -654321, 7);
    v.update(false, false, false, false, 0, SPEED, 200);
    assert_eq!(v.x, 123456);
    assert_eq!(v.y, -654321);
    assert_eq!(v.angle, 7);
}

#[test]
fn movement_ignores_walls() {
    // The update is a pure transform: nothing stops the viewer from
    // crossing cell boundaries, walls included.
    let mut v = Viewer::new(0, 0, 0);
    for _ in 0..100 {
        v.update(true, false, false, false, 0, SPEED, 200);
    }
    assert_eq!(v.y, 300 * FP_ONE);
}
