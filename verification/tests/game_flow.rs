use asteroids::entity::{Data, Entity, Extent, Meteor, MeteorSize, Player, PlayerInput, Shoot, ShootType};
use asteroids::geometry::{Screen, Vec2i};
use asteroids::state_manager::{GameState, Level, LoseState, MainState, StateManager, Transition, Type};
use asteroids::world::{SpawnConfig, World};

fn screen() -> Screen {
    Screen { w: 800_000, h: 600_000 }
}

fn player_extent() -> Extent {
    Extent { w: 40_000, h: 40_000 }
}

fn config() -> SpawnConfig {
    SpawnConfig {
        shoot_extent: Extent { w: 10_000, h: 10_000 },
        meteor_big: Extent { w: 100_000, h: 100_000 },
        meteor_medium: Extent { w: 50_000, h: 50_000 },
        meteor_small: Extent { w: 25_000, h: 25_000 },
    }
}

fn idle_input() -> PlayerInput {
    PlayerInput {
        turn_left: false,
        turn_right: false,
        thrust: false,
        hyperspace: false,
        fire: false,
        facing: Vec2i { x: 0, y: -1000 },
    }
}

fn player_shot_at(x: i64, y: i64) -> Entity {
    Entity::Shoot(Shoot::new(
        Extent { w: 10_000, h: 10_000 },
        0,
        Vec2i { x, y },
        Vec2i { x: 0, y: 0 },
        ShootType::Player,
    ))
}

#[test]
fn level_values() {
    assert_eq!(Level::One.ordinal(), 1);
    assert_eq!(Level::Five.ordinal(), 5);
    assert!(Level::from_u32(1) == Level::One);
    assert!(Level::from_u32(2) == Level::Two);
    assert!(Level::from_u32(5) == Level::Five);
    // Saturates at the last level.
    assert!(Level::from_u32(6) == Level::Five);
    assert!(Level::from_u32(0) == Level::Five);
    assert_eq!(Level::One.meteor_count(), 4);
    assert_eq!(Level::Two.meteor_count(), 5);
    assert_eq!(Level::Three.meteor_count(), 7);
    assert_eq!(Level::Four.meteor_count(), 9);
    assert_eq!(Level::Five.meteor_count(), 11);
}

#[test]
fn fresh_game_holds_player_and_four_bigs() {
    let gs = GameState::new(config(), player_extent(), screen());
    assert!(gs.level == Level::One);
    assert_eq!(gs.score, 0);
    assert_eq!(gs.lives, 3);
    assert_eq!(gs.world.entities.len(), 0);
    assert_eq!(gs.world.size(), 5);
    match &gs.world.entities_tmp[0] {
        Entity::Player(p) => {
            assert_eq!(p.data.position.x, 400_000);
            assert_eq!(p.data.position.y, 300_000);
        }
        _ => panic!("first pending entity is not the player"),
    }
    for e in gs.world.entities_tmp.iter().skip(1) {
        match e {
            Entity::Meteor(m) => {
                assert!(matches!(m.size, MeteorSize::Big));
                assert!(m.data.alive);
                assert!(0 <= m.data.position.x && m.data.position.x < 800_000);
                assert!(0 <= m.data.position.y && m.data.position.y < 600_000);
            }
            _ => panic!("level spawn is not a meteor"),
        }
    }
}

#[test]
fn clearing_the_field_advances_the_level() {
    let mut gs = GameState::new(config(), player_extent(), screen());
    let mut expected_score: u32 = 0;
    let mut rounds = 0;
    while gs.level == Level::One {
        rounds += 1;
        assert!(rounds < 60, "cascade did not finish");
        // Shoot every live meteor where it stands (dt stays 0, so nothing
        // drifts between frames).
        let mut targets = Vec::new();
        for e in gs.world.entities.iter() {
            if let Entity::Meteor(m) = e {
                let value = match m.size {
                    MeteorSize::Big => 10,
                    MeteorSize::Medium => 5,
                    MeteorSize::Small => 1,
                };
                expected_score += value;
                targets.push((m.data.position.x, m.data.position.y));
            }
        }
        for (x, y) in targets {
            gs.world.add(player_shot_at(x, y));
        }
        let before = gs.score;
        let t = gs.update(0, &idle_input(), screen());
        assert!(t == Transition::KeepRunning);
        assert!(gs.score >= before);
    }
    // The level advanced by one and spawned its meteor count, with the
    // score covering exactly the meteors destroyed on the way.
    assert!(gs.level == Level::Two);
    assert_eq!(gs.score, expected_score);
    assert_eq!(gs.lives, 3);
    assert_eq!(gs.world.entities_tmp.len(), 5);
    for e in gs.world.entities_tmp.iter() {
        match e {
            Entity::Meteor(m) => assert!(matches!(m.size, MeteorSize::Big)),
            _ => panic!("level spawn is not a meteor"),
        }
    }
}

fn doomed_game() -> GameState {
    // A player with its grace period already spent, and a big meteor
    // parked on it; neither moves.
    let mut world = World::new(config());
    world.add(Entity::Player(Player {
        data: Data {
            alive: true,
            position: Vec2i { x: 400_000, y: 300_000 },
            impulse: Vec2i { x: 0, y: 0 },
            extent: player_extent(),
        },
        rotation: 0,
        is_moving: false,
        time_since_last_shoot: 0,
        last_touch: 2000,
    }));
    world.add(Entity::Meteor(Meteor {
        data: Data {
            alive: true,
            position: Vec2i { x: 400_000, y: 300_000 },
            impulse: Vec2i { x: 0, y: 0 },
            extent: Extent { w: 100_000, h: 100_000 },
        },
        size: MeteorSize::Big,
    }));
    GameState { world, level: Level::Two, lives: 3, score: 77, player_extent: player_extent() }
}

#[test]
fn losing_all_lives_resets_everything() {
    let mut gs = doomed_game();
    // Each 2-second frame costs one life: the grace period has passed again.
    let t1 = gs.update(2000, &idle_input(), screen());
    assert!(t1 == Transition::KeepRunning);
    assert_eq!(gs.lives, 2);
    let t2 = gs.update(2000, &idle_input(), screen());
    assert!(t2 == Transition::KeepRunning);
    assert_eq!(gs.lives, 1);
    let t3 = gs.update(2000, &idle_input(), screen());
    assert!(t3 == Transition::SwitchTo(Type::Lose));
    // Full reset: score, level, lives, and a fresh world.
    assert_eq!(gs.score, 0);
    assert!(gs.level == Level::One);
    assert_eq!(gs.lives, 3);
    assert_eq!(gs.world.entities.len(), 0);
    assert_eq!(gs.world.size(), 5);
}

#[test]
fn manager_switches_to_lose_and_back() {
    let mut sm = StateManager {
        game: doomed_game(),
        main_menu: MainState::new(),
        lose: LoseState::new(),
        type_: Type::Game,
    };
    for _ in 0..3 {
        let running = sm.update(2000, &idle_input(), screen(), false, false);
        assert!(running);
    }
    assert!(sm.type_ == Type::Lose);
    assert_eq!(sm.game.score, 0);
    assert!(sm.game.level == Level::One);
    // Retry on the lose screen goes back to the game.
    let running = sm.update(0, &idle_input(), screen(), true, false);
    assert!(running);
    assert!(sm.type_ == Type::Game);
}

#[test]
fn menu_transitions() {
    let mut sm = StateManager::new(config(), player_extent(), screen());
    assert!(sm.type_ == Type::MainMenu);
    // Nothing pressed: stay on the menu, keep running.
    assert!(sm.update(0, &idle_input(), screen(), false, false));
    assert!(sm.type_ == Type::MainMenu);
    // Quit stops the application.
    assert!(!sm.update(0, &idle_input(), screen(), false, true));
    // Play starts the game, and wins over Quit.
    assert!(sm.update(0, &idle_input(), screen(), true, true));
    assert!(sm.type_ == Type::Game);
}

#[test]
fn switch_to_sets_active_state() {
    let mut sm = StateManager::new(config(), player_extent(), screen());
    sm.switch_to(Type::Win);
    assert!(sm.type_ == Type::Win);
    // Win has no screen behind it: updating is a no-op that keeps running.
    assert!(sm.update(0, &idle_input(), screen(), false, true));
    assert!(sm.type_ == Type::Win);
    sm.switch_to(Type::Game);
    assert!(sm.type_ == Type::Game);
}
