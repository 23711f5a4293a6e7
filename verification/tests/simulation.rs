use platform_sim::fixedpoint::SCALE;
use platform_sim::player::{Ground, Player, GRAVITY, JUMP_IMPULSE, WALK_IMPULSE};
use platform_sim::vec2::{create_normal, Vec2};

fn flat_ground() -> Ground {
    Ground {
        vertices: vec![Vec2 { x: 0, y: 0 }, Vec2 { x: 10, y: 0 }],
        normals: vec![Vec2 { x: 0, y: -1000 }],
    }
}

#[test]
fn from_pos_starts_at_rest_in_the_air() {
    let p = Player::from_pos(Vec2 { x: 80000, y: 0 }, 100000);
    assert_eq!(p.pos, Vec2 { x: 80000, y: 0 });
    assert_eq!(p.rotation, 0);
    assert_eq!(p.size, 100000);
    assert_eq!(p.velocity, Vec2 { x: 0, y: 0 });
    assert_eq!(p.ang_velocity, 0);
    assert!(!p.grounded);
}

#[test]
fn jump_from_the_ground_gains_upward_speed() {
    let mut p = Player::from_pos(Vec2 { x: 0, y: 0 }, 1000);
    p.grounded = true;
    p.velocity = Vec2 { x: 5, y: 7 };
    p.jump();
    assert_eq!(p.velocity, Vec2 { x: 5, y: 7 - JUMP_IMPULSE });
    assert!(!p.grounded);
}

#[test]
fn jump_in_the_air_does_nothing() {
    let mut p = Player::from_pos(Vec2 { x: 0, y: 0 }, 1000);
    p.velocity = Vec2 { x: 5, y: 7 };
    p.jump();
    assert_eq!(p.velocity, Vec2 { x: 5, y: 7 });
    assert!(!p.grounded);
}

#[test]
fn input_up_jumps_only_while_grounded() {
    let mut p = Player::from_pos(Vec2 { x: 0, y: 0 }, 1000);
    p.grounded = true;
    p.handle_input(true, false, false);
    assert_eq!(p.velocity.y, -JUMP_IMPULSE);
    assert!(!p.grounded);
    // A second press in the air changes nothing.
    p.handle_input(true, false, false);
    assert_eq!(p.velocity.y, -JUMP_IMPULSE);
}

#[test]
fn input_right_and_left_nudge_sideways_speed() {
    let mut p = Player::from_pos(Vec2 { x: 0, y: 0 }, 1000);
    p.handle_input(false, true, false);
    assert_eq!(p.velocity.x, WALK_IMPULSE);
    p.handle_input(false, false, true);
    assert_eq!(p.velocity.x, 0);
    p.handle_input(false, true, true);
    assert_eq!(p.velocity.x, 0);
}

#[test]
fn airborne_player_falls() {
    let mut p = Player::from_pos(Vec2 { x: 0, y: -5000 }, 2000);
    let g = flat_ground();
    p.update(&g, SCALE, 0, SCALE);
    assert!(!p.grounded);
    assert_eq!(p.pos, Vec2 { x: 0, y: -5000 });
    assert_eq!(p.velocity, Vec2 { x: 0, y: 10 * SCALE });
    assert_eq!(p.rotation, 0);
    assert_eq!(p.ang_velocity, 0);
}

#[test]
fn gravity_accumulates_each_frame() {
    let mut p = Player::from_pos(Vec2 { x: 0, y: -200000 }, 2000);
    let g = flat_ground();
    p.update(&g, SCALE, 0, SCALE);
    p.update(&g, SCALE, 0, SCALE);
    assert_eq!(p.velocity.y, 2 * GRAVITY * SCALE);
    // The first step moved nothing; the second moved one frame of speed.
    assert_eq!(p.pos.y, -200000 + 10000);
}

#[test]
fn landing_snaps_to_the_line_and_stops_falling() {
    let mut p = Player::from_pos(Vec2 { x: 0, y: 5 }, 2);
    let g = Ground {
        vertices: vec![Vec2 { x: 0, y: 0 }, Vec2 { x: 3, y: 4 }],
        normals: vec![Vec2 { x: 0, y: -1000 }],
    };
    p.update(&g, 0, 0, SCALE);
    assert!(p.grounded);
    assert_eq!(p.pos, Vec2 { x: 0, y: 1 });
    assert_eq!(p.velocity.y, 0);
    assert_eq!(p.ang_velocity, 0);
}

#[test]
fn landing_with_speed_injects_spin() {
    let mut p = Player::from_pos(Vec2 { x: 0, y: 0 }, 2000);
    p.velocity = Vec2 { x: 3000, y: 4000 };
    let g = flat_ground();
    p.update(&g, SCALE, 0, SCALE);
    assert!(p.grounded);
    assert_eq!(p.pos, Vec2 { x: 3000, y: -1000 });
    assert_eq!(p.velocity, Vec2 { x: 3000, y: 0 });
    // speed 5000 over diagonal 2828, a tenth of it: 176.
    assert_eq!(p.ang_velocity, 176);
}

#[test]
fn grounded_contact_at_first_corner_is_skipped() {
    // While grounded, the left corner's contact is not re-tested; with the
    // right corner clear, the player comes loose and falls again.
    let mut p = Player::from_pos(Vec2 { x: 0, y: 5 }, 2000);
    p.grounded = true;
    let g = flat_ground();
    // Rotated a quarter turn the other way: left corner low, right high.
    p.update(&g, 0, -SCALE, 0);
    assert!(!p.grounded);
    assert_eq!(p.velocity.y, 0);
    assert_eq!(p.pos.y, 5);
}

#[test]
fn demo_scene_drop_lands_on_the_slope() {
    // The demo scene: a square of side 100 pixels dropped from (80, 0)
    // onto the slope from (0, 240) to (200, 300), one-second frames.
    let v0 = Vec2 { x: 0, y: 240000 };
    let v1 = Vec2 { x: 200000, y: 300000 };
    let n = create_normal(v0, v1);
    let g = Ground {
        vertices: vec![v0, v1],
        normals: vec![n],
    };
    let mut p = Player::from_pos(Vec2 { x: 80000, y: 0 }, 100000);
    let mut steps = 0;
    while !p.grounded && steps < 100 {
        p.update(&g, SCALE, 0, SCALE);
        steps += 1;
    }
    assert_eq!(steps, 7);
    assert_eq!(p.pos, Vec2 { x: 80000, y: 198991 });
    assert_eq!(p.velocity, Vec2 { x: 0, y: 0 });
    assert_eq!(p.ang_velocity, 42);
    assert!(p.grounded);
}
