use engine3d::collision::Contact;
use engine3d::geom::{BBox, Vec3};
use engine3d::player::{KeyState, Player, JUMP_VELOCITY, TERMINAL_VELOCITY};

fn player_at(x: i64, y: i64, z: i64) -> Player {
    Player::new(BBox { center: Vec3::new(x, y, z), halfwidth: 900 })
}

fn keys() -> KeyState {
    KeyState {
        forward: false,
        backward: false,
        left: false,
        right: false,
        up: false,
        down: false,
        gravity_toggle: false,
        jump: false,
    }
}

#[test]
fn free_fall_reaches_terminal_velocity() {
    let mut p = player_at(0, 100_000_000, 0);
    let zero = Vec3::zero();
    let mut last = p.vy;
    for tick in 0..60 {
        p.step(zero, zero);
        assert!(p.vy >= -TERMINAL_VELOCITY);
        assert!(p.vy <= last);
        if tick == 0 {
            assert_eq!(p.vy, -5);
        }
        last = p.vy;
    }
    assert_eq!(p.vy, -TERMINAL_VELOCITY);
}

#[test]
fn floor_contact_blocks_falling() {
    let mut p = player_at(0, 5_000, 0);
    let contacts = vec![Contact { a: 0usize, b: 0, mtv: Vec3::new(0, 1, 0) }];
    p.process_contacts(&contacts);
    assert!(p.y_neg_blocked);
    assert!(p.can_jump);
    assert!(!p.y_pos_blocked && !p.x_pos_blocked && !p.x_neg_blocked);
    p.change_pos(0, -5, 0);
    assert_eq!(p.hitbox.center.y, 5_000);
    p.change_pos(0, 5, 0);
    assert_eq!(p.hitbox.center.y, 5_005);
}

#[test]
fn each_contact_direction_sets_its_flag() {
    let mut p = player_at(0, 0, 0);
    let contacts = vec![
        Contact { a: 0usize, b: 0, mtv: Vec3::new(-3, 0, 0) },
        Contact { a: 1usize, b: 0, mtv: Vec3::new(0, -2, 0) },
        Contact { a: 2usize, b: 0, mtv: Vec3::new(0, 0, 4) },
    ];
    p.process_contacts(&contacts);
    assert!(p.x_pos_blocked && !p.x_neg_blocked);
    assert!(p.y_pos_blocked && !p.y_neg_blocked);
    assert!(p.z_neg_blocked && !p.z_pos_blocked);
    assert!(!p.can_jump);
    p.change_pos(5, 5, -5);
    assert_eq!(p.hitbox.center, Vec3::new(0, 0, 0));
    p.change_pos(-5, -5, 5);
    assert_eq!(p.hitbox.center, Vec3::new(-5, -5, 5));
    p.process_contacts(&vec![]);
    assert!(!p.x_pos_blocked && !p.y_pos_blocked && !p.z_neg_blocked);
    p.reset_blocked();
    assert!(!p.y_neg_blocked);
}

#[test]
fn jump_from_ground() {
    let mut p = player_at(0, 5_000, 0);
    p.process_contacts(&vec![Contact { a: 0usize, b: 0, mtv: Vec3::new(0, 10, 0) }]);
    let mut k = keys();
    k.jump = true;
    assert!(p.process_events(&k));
    p.step(Vec3::zero(), Vec3::zero());
    assert_eq!(p.vy, JUMP_VELOCITY);
    assert!(!p.can_jump);
    // Upward motion is not blocked, so the jump lifts the player.
    assert_eq!(p.hitbox.center.y, 5_150);
}

#[test]
fn resting_on_ground_keeps_height() {
    let mut p = player_at(0, 5_000, 0);
    p.process_contacts(&vec![Contact { a: 0usize, b: 0, mtv: Vec3::new(0, 10, 0) }]);
    p.step(Vec3::zero(), Vec3::zero());
    assert_eq!(p.vy, 0);
    assert_eq!(p.hitbox.center.y, 5_000);
}

#[test]
fn walking_uses_the_given_steps() {
    let mut p = player_at(0, 5_000, 0);
    let mut k = keys();
    k.forward = true;
    k.left = true;
    k.gravity_toggle = true;
    p.process_events(&k);
    p.step(Vec3::new(1_000, 0, 0), Vec3::new(0, 0, 1_000));
    // Gravity applied this tick, then toggled off.
    assert_eq!(p.hitbox.center, Vec3::new(1_000, 4_995, -1_000));
    assert!(!p.do_gravity);
    assert_eq!(p.get_pos(), p.hitbox.center);
}

#[test]
fn new_player_is_at_rest() {
    let p = player_at(1, 2, 3);
    assert_eq!(p.vy, 0);
    assert_eq!(p.speed, 1_000);
    assert!(p.do_gravity);
    assert!(!p.can_jump);
}
