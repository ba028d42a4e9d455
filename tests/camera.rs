use engine3d::camera::{movement_steps, sight_probes, track, Camera};
use engine3d::geom::{BBox, Vec3};
use engine3d::player::{KeyState, Player};

fn camera(eye: Vec3, target: Vec3) -> Camera {
    Camera { eye, target, up: Vec3::new(0, 1_000, 0) }
}

#[test]
fn steps_follow_the_horizontal_view() {
    let c = camera(Vec3::new(0, 0, 0), Vec3::new(5_000, 3_000, 0));
    let (f, r) = movement_steps(&c, 1_000);
    assert_eq!(f, Vec3::new(1_000, 0, 0));
    assert_eq!(r, Vec3::new(0, 0, 1_000));
    let diag = camera(Vec3::new(0, 0, 0), Vec3::new(3_000, -7_000, 4_000));
    assert_eq!(movement_steps(&diag, 1_000).0, Vec3::new(600, 0, 800));
}

#[test]
fn looking_straight_up_gives_no_steps() {
    let c = camera(Vec3::new(100, 0, 100), Vec3::new(100, 5_000, 100));
    let (f, r) = movement_steps(&c, 1_000);
    assert_eq!(f, Vec3::new(0, 0, 0));
    assert_eq!(r, Vec3::new(0, 0, 0));

    let mut p = Player::new(BBox { center: Vec3::new(100, 5_000, 100), halfwidth: 900 });
    p.process_events(&KeyState {
        forward: true,
        backward: false,
        left: true,
        right: false,
        up: false,
        down: false,
        gravity_toggle: false,
        jump: false,
    });
    let mut cam = c;
    p.update(&mut cam);
    assert_eq!(p.hitbox.center.x, 100);
    assert_eq!(p.hitbox.center.z, 100);
}

#[test]
fn camera_moves_rigidly_with_the_player() {
    let mut c = camera(Vec3::new(0, 0, 0), Vec3::new(1_000, 0, 0));
    track(&mut c, Vec3::new(5, 6, 7));
    assert_eq!(c.eye, Vec3::new(5, 6, 7));
    assert_eq!(c.target, Vec3::new(1_005, 6, 7));
    assert_eq!(c.up, Vec3::new(0, 1_000, 0));
}

#[test]
fn walking_forward_through_the_camera() {
    let start = Vec3::new(0, 50_000, 0);
    let mut p = Player::new(BBox { center: start, halfwidth: 900 });
    p.process_events(&KeyState {
        forward: true,
        backward: false,
        left: false,
        right: false,
        up: false,
        down: false,
        gravity_toggle: false,
        jump: false,
    });
    let mut cam = camera(start, Vec3::new(10_000, 50_000, 0));
    p.update(&mut cam);
    assert_eq!(p.hitbox.center, Vec3::new(1_000, 49_995, 0));
    assert_eq!(cam.eye, p.hitbox.center);
    assert_eq!(cam.target, Vec3::new(11_000, 49_995, 0));
}

#[test]
fn probes_along_the_line_of_sight() {
    let c = camera(Vec3::new(1_000, 1_000, 1_000), Vec3::new(2_000, 1_000, 1_000));
    let ps = sight_probes(&c, 0, 3);
    assert_eq!(ps, vec![Vec3::new(1_100, 1_000, 1_000), Vec3::new(3_100, 1_000, 1_000), Vec3::new(5_100, 1_000, 1_000)]);
    let ps = sight_probes(&c, 1, 2);
    assert_eq!(ps, vec![Vec3::new(3_100, 1_000, 1_000), Vec3::new(5_100, 1_000, 1_000)]);
    let blind = camera(Vec3::new(7, 8, 9), Vec3::new(7, 8, 9));
    assert_eq!(sight_probes(&blind, 0, 2), vec![Vec3::new(7, 8, 9), Vec3::new(7, 8, 9)]);
}
