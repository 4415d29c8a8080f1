use collide_slide::controller::{clamp_speed, MotionState, MAX_SPEED};
use collide_slide::fixed::Vec3;

fn v(x: i64, y: i64, z: i64) -> Vec3 {
    Vec3 { x, y, z }
}

fn state(velocity: Vec3, grounded: bool) -> MotionState {
    MotionState { velocity, grounded, acceleration: 8000, jump_impulse: 5000, max_speed: 10000 }
}

#[test]
fn gravity_pulls_airborne_body_down() {
    let mut s = state(v(100, 200, 300), false);
    s.apply_gravity(9800, 16);
    // 9.8 * 0.016 = 0.1568 is taken off as 0.156.
    assert_eq!(s.velocity, v(100, 44, 300));
}

#[test]
fn gravity_zeroes_vertical_speed_on_ground() {
    let mut s = state(v(100, -2000, 300), true);
    s.apply_gravity(9800, 16);
    assert_eq!(s.velocity, v(100, 0, 300));
}

#[test]
fn falling_speed_saturates() {
    let mut s = state(v(0, -MAX_SPEED + 10, 0), false);
    s.apply_gravity(9800, 1000);
    assert_eq!(s.velocity.y, -MAX_SPEED);
    assert_eq!(clamp_speed(MAX_SPEED + 5), MAX_SPEED);
    assert_eq!(clamp_speed(-3), -3);
}

#[test]
fn input_accelerates_along_direction() {
    let mut s = state(v(0, 0, 0), true);
    s.apply_input(v(600, 0, -800), 100);
    // 8 units/s^2 over 0.1 s is 0.8 units/s, split 0.6 : -0.8.
    assert_eq!(s.velocity, v(480, 0, -640));
}

#[test]
fn jump_only_from_ground() {
    let mut s = state(v(1, -5, 1), true);
    s.jump(true);
    assert_eq!(s.velocity, v(1, 5000, 1));
    let mut s = state(v(1, -5, 1), false);
    s.jump(true);
    assert_eq!(s.velocity, v(1, -5, 1));
    let mut s = state(v(1, -5, 1), true);
    s.jump(false);
    assert_eq!(s.velocity, v(1, -5, 1));
}

#[test]
fn damping_keeps_nine_tenths_horizontally() {
    let mut s = state(v(1000, 700, -1000), false);
    s.apply_damping();
    assert_eq!(s.velocity, v(900, 700, -900));
    let mut s = state(v(15, 0, -15), false);
    s.apply_damping();
    assert_eq!(s.velocity, v(13, 0, -14));
}

#[test]
fn motions_split_into_two_passes() {
    let s = state(v(5000, -2000, 3000), false);
    assert_eq!(s.horizontal_motion(16), v(80, 0, 48));
    assert_eq!(s.vertical_motion(16), v(0, -32, 0));
}

#[test]
fn snapping_needs_ground_and_no_rise() {
    assert!(state(v(0, 0, 0), true).should_snap(400));
    assert!(!state(v(0, 10, 0), true).should_snap(400));
    assert!(!state(v(0, 0, 0), false).should_snap(400));
    assert!(!state(v(0, 0, 0), true).should_snap(0));
    let mut s = state(v(0, 0, 0), false);
    s.update_grounded(true);
    assert!(s.grounded);
}
