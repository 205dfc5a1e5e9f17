use asteroids::entity::{Data, Entity, Extent, Meteor, MeteorSize, PlayerInput, Shoot, ShootType};
use asteroids::geometry::{Screen, Vec2i};
use asteroids::world::{SpawnConfig, World};

fn screen() -> Screen {
    // 800 x 600 pixels, in milli-pixels.
    Screen { w: 800_000, h: 600_000 }
}

fn extent() -> Extent {
    Extent { w: 40_000, h: 40_000 }
}

fn config() -> SpawnConfig {
    SpawnConfig {
        shoot_extent: Extent { w: 10_000, h: 10_000 },
        meteor_big: Extent { w: 100_000, h: 100_000 },
        meteor_medium: Extent { w: 50_000, h: 50_000 },
        meteor_small: Extent { w: 25_000, h: 25_000 },
    }
}

fn idle_input() -> PlayerInput {
    PlayerInput {
        turn_left: false,
        turn_right: false,
        thrust: false,
        hyperspace: false,
        fire: false,
        facing: Vec2i { x: 0, y: -1000 },
    }
}

fn meteor_at(x: i64, y: i64, size: MeteorSize, alive: bool) -> Entity {
    Entity::Meteor(Meteor {
        data: Data {
            alive,
            position: Vec2i { x, y },
            impulse: Vec2i { x: 0, y: 0 },
            extent: extent(),
        },
        size,
    })
}

fn player_shot_at(x: i64, y: i64) -> Entity {
    Entity::Shoot(Shoot::new(
        extent(),
        0,
        Vec2i { x, y },
        Vec2i { x: 0, y: 0 },
        ShootType::Player,
    ))
}

#[test]
fn dead_entity_is_removed_and_never_returns() {
    let mut w = World::new(config());
    let mut lives: u8 = 3;
    w.add(meteor_at(100_000, 100_000, MeteorSize::Big, false));
    w.add(meteor_at(300_000, 300_000, MeteorSize::Small, true));
    assert_eq!(w.size(), 2);
    let pts = w.update(0, &idle_input(), screen(), &mut lives);
    // The dead big meteor is swept out (scoring its value); the live one stays.
    assert_eq!(pts, 10);
    assert_eq!(w.entities.len(), 1);
    assert!(w.entities[0].is_alive());
    for _ in 0..3 {
        let pts = w.update(0, &idle_input(), screen(), &mut lives);
        assert_eq!(pts, 0);
        assert_eq!(w.size(), 1);
    }
}

#[test]
fn wrap_left_edge_lands_on_right() {
    let mut w = World::new(config());
    let mut lives: u8 = 3;
    // extent w = 40_000: any x below -40_000 wraps to the right edge,
    // minus the entity's own extent.
    w.add(meteor_at(-40_001, 100_000, MeteorSize::Small, true));
    w.update(0, &idle_input(), screen(), &mut lives);
    let d = *w.entities[0].get_data();
    assert_eq!(d.position.x, 760_000);
    assert_eq!(d.position.y, 100_000);
}

#[test]
fn wrap_right_edge_lands_before_left() {
    let mut w = World::new(config());
    let mut lives: u8 = 3;
    w.add(meteor_at(800_001, -40_001, MeteorSize::Small, true));
    w.update(0, &idle_input(), screen(), &mut lives);
    let d = *w.entities[0].get_data();
    assert_eq!(d.position.x, -40_000);
    // The y axis exited the low edge: bottom edge minus the extent.
    assert_eq!(d.position.y, 560_000);
}

#[test]
fn wrap_never_leaves_draw_range() {
    let mut w = World::new(config());
    let mut lives: u8 = 3;
    let positions = [
        (-1i64, 0i64),
        (-40_000, 599_999),
        (-1_000_000_000, 2_000_000_000),
        (800_000, -600_000),
    ];
    for &(x, y) in positions.iter() {
        w.add(meteor_at(x, y, MeteorSize::Small, true));
    }
    w.update(0, &idle_input(), screen(), &mut lives);
    assert_eq!(w.entities.len(), positions.len());
    for e in w.entities.iter() {
        let d = *e.get_data();
        assert!(-d.extent.w <= d.position.x && d.position.x <= 800_000);
        assert!(-d.extent.h <= d.position.y && d.position.y <= 600_000);
    }
}

#[test]
fn player_shot_pair_never_destroys_either() {
    let mut w = World::new(config());
    let mut lives: u8 = 3;
    // Two player shots stacked on the same spot: perfect overlap, no collision.
    w.add(player_shot_at(200_000, 200_000));
    w.add(player_shot_at(200_000, 200_000));
    let pts = w.update(0, &idle_input(), screen(), &mut lives);
    assert_eq!(pts, 0);
    assert_eq!(w.entities.len(), 2);
    assert!(w.entities[0].is_alive());
    assert!(w.entities[1].is_alive());
    // And they stay through further frames.
    w.update(0, &idle_input(), screen(), &mut lives);
    assert_eq!(w.entities.len(), 2);
}

#[test]
fn big_meteor_splits_into_mediums_at_same_position() {
    let mut w = World::new(config());
    let mut lives: u8 = 3;
    w.add(meteor_at(100_000, 150_000, MeteorSize::Big, true));
    w.add(player_shot_at(100_000, 150_000));
    // The frame merges them in and its collision pass destroys both.
    let pts = w.update(0, &idle_input(), screen(), &mut lives);
    assert_eq!(pts, 10);
    // Shot and meteor both died; the fragments wait in the pending buffer.
    assert_eq!(w.entities.len(), 0);
    let n = w.entities_tmp.len();
    assert!(n == 2 || n == 3);
    for e in w.entities_tmp.iter() {
        match e {
            Entity::Meteor(m) => {
                assert!(matches!(m.size, MeteorSize::Medium));
                assert!(m.data.alive);
                assert_eq!(m.data.position.x, 100_000);
                assert_eq!(m.data.position.y, 150_000);
                // Fragments drift within five percent of the base speed.
                let (vx, vy) = (m.data.impulse.x, m.data.impulse.y);
                assert!(vx * vx + vy * vy <= 30_000 * 30_000);
                assert!(vx * vx + vy * vy >= 28_500 * 28_500);
            }
            _ => panic!("fragment is not a meteor"),
        }
    }
}

#[test]
fn small_meteor_leaves_no_fragments() {
    let mut w = World::new(config());
    let mut lives: u8 = 3;
    w.add(meteor_at(100_000, 150_000, MeteorSize::Small, true));
    w.add(player_shot_at(100_000, 150_000));
    let pts = w.update(0, &idle_input(), screen(), &mut lives);
    assert_eq!(pts, 1);
    assert_eq!(w.entities.len(), 0);
    assert_eq!(w.entities_tmp.len(), 0);
    assert_eq!(w.size(), 0);
}

#[test]
fn score_accumulates_over_the_whole_split_chain() {
    let mut w = World::new(config());
    let mut lives: u8 = 3;
    let p = (400_000i64, 300_000i64);
    w.add(meteor_at(p.0, p.1, MeteorSize::Big, true));
    w.add(player_shot_at(p.0, p.1));
    // Kill the big meteor.
    let mut score = w.update(0, &idle_input(), screen(), &mut lives);
    assert_eq!(score, 10);
    let mediums = w.entities_tmp.len() as u32;
    assert!(mediums == 2 || mediums == 3);
    // One shot at the shared position kills every medium.
    w.add(player_shot_at(p.0, p.1));
    score += w.update(0, &idle_input(), screen(), &mut lives);
    assert_eq!(score, 10 + 5 * mediums);
    let smalls = w.entities_tmp.len() as u32;
    assert!(smalls >= 2 * mediums && smalls <= 3 * mediums);
    // And once more for the smalls, which leave nothing behind.
    w.add(player_shot_at(p.0, p.1));
    score += w.update(0, &idle_input(), screen(), &mut lives);
    assert_eq!(score, 10 + 5 * mediums + smalls);
    assert_eq!(w.size(), 0);
}

#[test]
fn pending_add_invisible_until_next_frame() {
    let mut w = World::new(config());
    let mut lives: u8 = 3;
    // A ship with a meteor parked on it; the ship fires this frame.
    w.add(Entity::Player(asteroids::entity::Player {
        data: Data {
            alive: true,
            position: Vec2i { x: 400_000, y: 300_000 },
            impulse: Vec2i { x: 0, y: 0 },
            extent: extent(),
        },
        rotation: 0,
        is_moving: false,
        time_since_last_shoot: 0,
        last_touch: 0,
    }));
    w.add(meteor_at(400_000, 300_000, MeteorSize::Big, true));
    let fire = PlayerInput { fire: true, ..idle_input() };
    // Frame N: the ship fires. The shot spawned during this frame's
    // update pass is deferred into the pending buffer: it takes no part
    // in this frame's collision pass, so the meteor survives.
    let pts = w.update(1000, &fire, screen(), &mut lives);
    assert_eq!(pts, 0);
    assert_eq!(w.entities.len(), 2);
    assert_eq!(w.entities_tmp.len(), 1);
    assert!(matches!(w.entities_tmp[0], Entity::Shoot(_)));
    assert_eq!(w.size(), 3);
    // Frame N+1: the shot is merged in, and now it kills the meteor.
    let pts = w.update(0, &idle_input(), screen(), &mut lives);
    assert_eq!(pts, 10);
}

#[test]
fn clear_empties_active_set_only() {
    let mut w = World::new(config());
    let mut lives: u8 = 3;
    w.add(meteor_at(1_000, 1_000, MeteorSize::Small, true));
    w.update(0, &idle_input(), screen(), &mut lives);
    w.add(meteor_at(2_000, 2_000, MeteorSize::Small, true));
    assert_eq!(w.entities.len(), 1);
    assert_eq!(w.entities_tmp.len(), 1);
    w.clear();
    assert_eq!(w.entities.len(), 0);
    assert_eq!(w.entities_tmp.len(), 1);
    assert_eq!(w.size(), 1);
}
