use rat_engine::camera::Camera;
use rat_engine::camera::MoveKeys;
use rat_engine::camera::PITCH_LIMIT_MDEG;

fn no_keys() -> MoveKeys {
    MoveKeys { forward: false, back: false, left: false, right: false }
}

#[test]
fn pitch_is_clamped_strictly_inside_the_open_interval() {
    let mut c = Camera::new();
    // a huge upward swing: pitch rises only to the clamp bound
    c.process_input(0, -1_000_000, no_keys());
    assert_eq!(c.pitch_mdeg, PITCH_LIMIT_MDEG);
    assert!(c.pitch_mdeg < 89_000);
    // a huge downward swing
    c.process_input(0, 2_000_000, no_keys());
    assert_eq!(c.pitch_mdeg, -PITCH_LIMIT_MDEG);
    assert!(c.pitch_mdeg > -89_000);
    // hammering in one direction never crosses the bound
    for _ in 0..100 {
        c.process_input(0, -50_000, no_keys());
        assert!(-89_000 < c.pitch_mdeg && c.pitch_mdeg < 89_000);
    }
    assert_eq!(c.pitch_mdeg, PITCH_LIMIT_MDEG);
}

#[test]
fn small_deltas_move_the_angles_by_sensitivity() {
    let mut c = Camera::new();
    // default sensitivity is 100 milli-degrees per count
    c.process_input(30, 10, no_keys());
    assert_eq!(c.yaw_mdeg, 3_000);
    assert_eq!(c.pitch_mdeg, -1_000);
}

#[test]
fn yaw_wraps_into_one_turn() {
    let mut c = Camera::new();
    c.process_input(3700, 0, no_keys());
    assert_eq!(c.yaw_mdeg, 10_000);
    c.process_input(-200, 0, no_keys());
    assert_eq!(c.yaw_mdeg, 350_000);
}

#[test]
fn movement_keys_fold_into_an_intent() {
    let mut c = Camera::new();
    let i = c.process_input(0, 0, MoveKeys { forward: true, back: false, left: false, right: true });
    assert_eq!((i.forward, i.strafe), (1, 1));
    let i = c.process_input(0, 0, MoveKeys { forward: true, back: true, left: true, right: false });
    assert_eq!((i.forward, i.strafe), (0, -1));
    let i = c.process_input(0, 0, no_keys());
    assert_eq!((i.forward, i.strafe), (0, 0));
}

#[test]
fn pointing_then_a_zero_delta_frame_is_stable() {
    let mut c = Camera::new();
    c.set_orientation(123_450, -5_000);
    let pointed = c;
    c.process_input(0, 0, no_keys());
    assert_eq!(c.yaw_mdeg, pointed.yaw_mdeg);
    assert_eq!(c.pitch_mdeg, pointed.pitch_mdeg);
}

#[test]
fn set_orientation_wraps_and_clamps() {
    let mut c = Camera::new();
    c.set_orientation(725_000, 90_000);
    assert_eq!(c.yaw_mdeg, 5_000);
    assert_eq!(c.pitch_mdeg, PITCH_LIMIT_MDEG);
    c.set_orientation(-10_000, -200_000);
    assert_eq!(c.yaw_mdeg, 350_000);
    assert_eq!(c.pitch_mdeg, -PITCH_LIMIT_MDEG);
}
