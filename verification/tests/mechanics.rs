use asteroids::collision::circle_test;
use asteroids::entity::{
    rotation_after_turn, score_value, split_size, Data, Extent, MeteorSize, Player, PlayerInput,
    Shoot, ShootType,
};
use asteroids::geometry::{wrap_coord, Screen, Vec2i};

fn screen() -> Screen {
    Screen { w: 800_000, h: 600_000 }
}

fn data_at(x: i64, y: i64, w: i64, h: i64) -> Data {
    Data {
        alive: true,
        position: Vec2i { x, y },
        impulse: Vec2i { x: 0, y: 0 },
        extent: Extent { w, h },
    }
}

fn fresh_player() -> Player {
    Player::new(Extent { w: 40_000, h: 40_000 }, screen())
}

fn input(fire: bool, thrust: bool, hyperspace: bool) -> PlayerInput {
    PlayerInput {
        turn_left: false,
        turn_right: false,
        thrust,
        hyperspace,
        fire,
        facing: Vec2i { x: 0, y: -1000 },
    }
}

#[test]
fn circle_test_exact_threshold() {
    // Radii are (w + h) / 4 = 20_000 each: centres 40_000 apart touch,
    // one milli-pixel more do not.
    let a = data_at(0, 0, 40_000, 40_000);
    let touching = data_at(40_000, 0, 40_000, 40_000);
    let apart = data_at(40_001, 0, 40_000, 40_000);
    assert!(circle_test(&a, &touching));
    assert!(!circle_test(&a, &apart));
    // Symmetric, and diagonal distances count too: 3-4-5 triangle.
    let diagonal = data_at(24_000, 32_000, 40_000, 40_000);
    assert!(circle_test(&diagonal, &a));
    let beyond = data_at(24_001, 32_000, 40_000, 40_000);
    assert!(!circle_test(&a, &beyond));
}

#[test]
fn wrap_coord_formula() {
    // Below the low edge by more than the extent: to the high edge,
    // minus the entity's own extent.
    assert_eq!(wrap_coord(-1, 0, 800_000), 800_000);
    assert_eq!(wrap_coord(-40_001, 40_000, 800_000), 760_000);
    // Past the high edge: one extent before the low edge.
    assert_eq!(wrap_coord(800_001, 40_000, 800_000), -40_000);
    // In between: untouched.
    assert_eq!(wrap_coord(-40_000, 40_000, 800_000), -40_000);
    assert_eq!(wrap_coord(0, 40_000, 800_000), 0);
    assert_eq!(wrap_coord(800_000, 40_000, 800_000), 800_000);
}

#[test]
fn meteor_values_and_split_chain() {
    assert_eq!(score_value(MeteorSize::Big), 10);
    assert_eq!(score_value(MeteorSize::Medium), 5);
    assert_eq!(score_value(MeteorSize::Small), 1);
    assert!(matches!(split_size(MeteorSize::Big), Some(MeteorSize::Medium)));
    assert!(matches!(split_size(MeteorSize::Medium), Some(MeteorSize::Small)));
    assert!(split_size(MeteorSize::Small).is_none());
}

#[test]
fn turning_accumulates_and_wraps() {
    // 250 degrees per second, in millidegrees.
    assert_eq!(rotation_after_turn(0, true, false, 1000), 250_000);
    assert_eq!(rotation_after_turn(250_000, true, false, 1000), 140_000);
    assert_eq!(rotation_after_turn(0, false, true, 1000), 110_000);
    assert_eq!(rotation_after_turn(123, false, false, 60_000), 123);
}

#[test]
fn thrust_adds_impulse_along_facing_and_persists() {
    let mut p = fresh_player();
    p.update(1000, &input(false, true, false), screen());
    // 300 px/s^2 for one second, straight up.
    assert_eq!(p.data.impulse.x, 0);
    assert_eq!(p.data.impulse.y, -300_000);
    assert!(p.is_moving);
    // No deceleration: coasting keeps the impulse, and it moves the ship.
    let y_before = p.data.position.y;
    p.update(1000, &input(false, false, false), screen());
    assert_eq!(p.data.impulse.y, -300_000);
    assert!(!p.is_moving);
    assert_eq!(p.data.position.y, y_before - 300_000);
}

#[test]
fn shot_cooldown_fires_every_half_second_held() {
    let mut p = fresh_player();
    let mut fired = 0;
    for _ in 0..12 {
        if p.update(100, &input(true, false, false), screen()).is_some() {
            fired += 1;
        }
    }
    // The timer passes 500 ms after the 6th frame, fires, resets, and
    // fires once more 6 frames later.
    assert_eq!(fired, 2);
}

#[test]
fn firing_returns_a_shot_spawn_at_the_ship() {
    let mut p = fresh_player();
    let action = p.update(1000, &input(true, false, false), screen());
    match action {
        Some(asteroids::entity::DeferredAction::SpawnShoot {
            position,
            rotation,
            velocity,
            origin,
        }) => {
            assert_eq!(position.x, p.data.position.x);
            assert_eq!(position.y, p.data.position.y);
            assert_eq!(rotation, 0);
            assert_eq!(velocity.x, 0);
            assert_eq!(velocity.y, -500_000);
            assert!(matches!(origin, ShootType::Player));
        }
        _ => panic!("holding fire past the cooldown must spawn a shot"),
    }
}

#[test]
fn hyperspace_teleports_on_screen_and_kills_impulse() {
    quad_rand::srand(7);
    let mut p = fresh_player();
    p.data.impulse = Vec2i { x: 123_000, y: -45_000 };
    let first = {
        p.update(0, &input(false, false, true), screen());
        (p.data.position.x, p.data.position.y)
    };
    assert_eq!(p.data.impulse.x, 0);
    assert_eq!(p.data.impulse.y, 0);
    assert!(0 <= first.0 && first.0 < 800_000 - 40_000);
    assert!(0 <= first.1 && first.1 < 600_000 - 40_000);
    // A second jump lands elsewhere: the generator really is consulted.
    p.update(0, &input(false, false, true), screen());
    let second = (p.data.position.x, p.data.position.y);
    assert!(0 <= second.0 && second.0 < 800_000 - 40_000);
    assert!(0 <= second.1 && second.1 < 600_000 - 40_000);
    assert!(first != second);
}

#[test]
fn grace_period_blocks_repeat_hits() {
    let mut p = fresh_player();
    let mut lives: u8 = 3;
    // Too soon after the last hit: nothing happens.
    p.last_touch = 1000;
    p.on_destroy(&mut lives);
    assert_eq!(lives, 3);
    assert_eq!(p.last_touch, 1000);
    // Past the grace period: one life, and the timer resets.
    p.last_touch = 1001;
    p.on_destroy(&mut lives);
    assert_eq!(lives, 2);
    assert_eq!(p.last_touch, 0);
    // With no lives left nothing is decremented.
    let mut none: u8 = 0;
    p.last_touch = 5000;
    p.on_destroy(&mut none);
    assert_eq!(none, 0);
}

#[test]
fn shot_expires_after_its_duration() {
    let mut s = Shoot::new(
        Extent { w: 10_000, h: 10_000 },
        0,
        Vec2i { x: 0, y: 0 },
        Vec2i { x: 500_000, y: 0 },
        ShootType::Player,
    );
    assert_eq!(s.duration, 500);
    s.update(400);
    assert!(s.data.alive);
    assert_eq!(s.duration, 100);
    // It also moved: 500 px/s for 0.4 s.
    assert_eq!(s.data.position.x, 200_000);
    s.update(400);
    assert!(!s.data.alive);
    assert_eq!(s.duration, 0);
}
