use wilds::camera::{
    Direction, FollowingCameraControls, FreeCameraControls, Key, BACKWARD, DOWN, FORWARD, LEFT,
    RIGHT, UP,
};

#[test]
fn camera_direction_flags() {
    let mut d = Direction::empty();
    d.insert(FORWARD);
    d.insert(LEFT);
    assert!(d.contains(FORWARD) && d.contains(LEFT));
    assert!(!d.contains(RIGHT));
    assert!(d.contains(FORWARD | LEFT));
    d.remove(FORWARD);
    assert_eq!(d.bits, LEFT);
}

#[test]
fn camera_free_controls_track_held_keys() {
    let mut c = FreeCameraControls::new();
    assert_eq!(c.movement(), (0, 0, 0));
    c.key(Key::W, true);
    c.key(Key::D, true);
    c.key(Key::Space, true);
    assert_eq!(c.movement(), (1, 1, -1));
    c.key(Key::S, true);
    assert_eq!(c.movement(), (1, 1, 0));
    c.key(Key::W, false);
    c.key(Key::LControl, true);
    assert_eq!(c.movement(), (1, 0, 1));
    c.key(Key::Other, true);
    assert_eq!(c.direction.bits, RIGHT | UP | BACKWARD | DOWN);
}

#[test]
fn camera_free_controls_z_release_toggles() {
    let mut c = FreeCameraControls::new();
    c.key(Key::Z, true);
    assert!(c.enabled);
    c.key(Key::Z, false);
    assert!(!c.enabled);
    c.key(Key::W, true);
    assert_eq!(c.direction.bits, 0);
    c.key(Key::Z, false);
    assert!(c.enabled);
    c.key(Key::A, true);
    assert_eq!(c.movement(), (-1, 0, 0));
}

#[test]
fn camera_following_controls_ignore_vertical_keys() {
    let mut c = FollowingCameraControls::new();
    c.key(Key::Space, true);
    c.key(Key::LControl, true);
    assert_eq!(c.direction.bits, 0);
    c.key(Key::W, true);
    c.key(Key::D, true);
    assert_eq!(c.steps(), (-1, 1));
    c.key(Key::W, false);
    c.key(Key::S, true);
    assert_eq!(c.steps(), (1, 1));
    assert!(!c.direction.contains(DOWN));
    assert!(c.direction.contains(BACKWARD));
}
