//! The game screens and the manager that dispatches to whichever one is
//! active: the main menu, the running game, and the lose screen.

use vstd::prelude::*;

use crate::entity::{
    spec_sat_add, sat_add, Data, Entity, Extent, Meteor, MeteorSize, Player, PlayerInput,
    METEOR_SPEED,
};
use crate::geometry::{Screen, Vec2i, DT_LIMIT, MILLI};
use crate::rng::{gen_below, random_dir, DIR_TOLERANCE};
use crate::world::{spec_world_frame, SpawnConfig, World};

verus! {

/// The screens the manager can hold active. `Win` is a reachable tag, but
/// no transition ever produces it.
#[derive(Clone, Copy, PartialEq, Eq, Structural, Debug, Hash)]
pub enum Type {
    MainMenu,
    Game,
    Lose,
    Win,
}

/// What a screen's update asks the manager to do once the pass is over:
/// keep running, quit the application, or switch the active screen.
#[derive(Clone, Copy, PartialEq, Eq, Structural, Debug)]
pub enum Transition {
    KeepRunning,
    Quit,
    SwitchTo(Type),
}

/// The difficulty levels, saturating at the last.
#[derive(Clone, Copy, PartialEq, Eq, Structural, Debug)]
pub enum Level {
    One,
    Two,
    Three,
    Four,
    Five,
}

impl Level {
    /// The level's ordinal, 1 to 5.
    pub open spec fn spec_ordinal(self) -> u32 {
        match self {
            Level::One => 1,
            Level::Two => 2,
            Level::Three => 3,
            Level::Four => 4,
            Level::Five => 5,
        }
    }

    /// The level's ordinal, 1 to 5.
    pub fn ordinal(&self) -> (r: u32)
        ensures
            r == self.spec_ordinal(),
    {
        match self {
            Level::One => 1,
            Level::Two => 2,
            Level::Three => 3,
            Level::Four => 4,
            Level::Five => 5,
        }
    }

    /// The level with the given ordinal, saturating at the last.
    pub open spec fn spec_from_u32(value: u32) -> Level {
        match value {
            1u32 => Level::One,
            2u32 => Level::Two,
            3u32 => Level::Three,
            4u32 => Level::Four,
            _ => Level::Five,
        }
    }

    /// The level with the given ordinal, saturating at the last.
    pub fn from_u32(value: u32) -> (r: Level)
        ensures
            r == Level::spec_from_u32(value),
    {
        match value {
            1u32 => Level::One,
            2u32 => Level::Two,
            3u32 => Level::Three,
            4u32 => Level::Four,
            _ => Level::Five,
        }
    }

    /// How many big meteors the level starts with.
    pub open spec fn spec_meteor_count(self) -> u32 {
        match self {
            Level::One => 4,
            Level::Two => 5,
            Level::Three => 7,
            Level::Four => 9,
            Level::Five => 11,
        }
    }

    /// How many big meteors the level starts with.
    pub fn meteor_count(&self) -> (r: u32)
        ensures
            r == self.spec_meteor_count(),
    {
        match self {
            Level::One => 4,
            Level::Two => 5,
            Level::Three => 7,
            Level::Four => 9,
            Level::Five => 11,
        }
    }
}

/// A big meteor as a level's start spawns it: alive, somewhere on screen,
/// drifting at the meteor speed, pending until the next frame.
pub open spec fn spec_is_level_meteor(e: Entity, config: SpawnConfig, screen: Screen) -> bool {
    match e {
        Entity::Meteor(m) => {
            &&& m.size == MeteorSize::Big
            &&& m.data.alive
            &&& m.data.extent == config.meteor_big
            &&& 0 <= m.data.position.x < screen.w
            &&& 0 <= m.data.position.y < screen.h
            &&& -METEOR_SPEED * MILLI <= m.data.impulse.x <= METEOR_SPEED * MILLI
            &&& -METEOR_SPEED * MILLI <= m.data.impulse.y <= METEOR_SPEED * MILLI
            &&& METEOR_SPEED * (MILLI - DIR_TOLERANCE) * (METEOR_SPEED * (MILLI - DIR_TOLERANCE))
                <= m.data.impulse.x * m.data.impulse.x + m.data.impulse.y * m.data.impulse.y
                <= METEOR_SPEED * MILLI * (METEOR_SPEED * MILLI)
        },
        _ => false,
    }
}

/// The running game: a world, the level, the shared lives counter and the
/// accumulated score.
pub struct GameState {
    pub world: World,
    pub level: Level,
    pub lives: u8,
    pub score: u32,
    pub player_extent: Extent,
}

impl GameState {
    pub open spec fn wf(self) -> bool {
        self.world.wf() && self.player_extent.wf()
    }

    /// A freshly started (or fully reset) game: level one, no score,
    /// three lives, and a world whose pending buffer holds exactly one
    /// player at the screen centre followed by level one's big meteors.
    pub open spec fn spec_fresh(self, config: SpawnConfig, player_extent: Extent, screen: Screen)
        -> bool {
        &&& self.level == Level::One
        &&& self.score == 0
        &&& self.lives == 3
        &&& self.player_extent == player_extent
        &&& self.world.config == config
        &&& self.world.entities@.len() == 0
        &&& self.world.entities_tmp@.len() == 1 + Level::One.spec_meteor_count()
        &&& self.world.entities_tmp@[0] == Entity::Player(
            Player {
                data: Data {
                    alive: true,
                    position: Vec2i { x: (screen.w / 2) as i64, y: (screen.h / 2) as i64 },
                    impulse: Vec2i { x: 0, y: 0 },
                    extent: player_extent,
                },
                rotation: 0,
                is_moving: false,
                time_since_last_shoot: 0,
                last_touch: 0,
            },
        )
        &&& forall|i: int|
            1 <= i < self.world.entities_tmp@.len() ==> spec_is_level_meteor(
                #[trigger] self.world.entities_tmp@[i],
                config,
                screen,
            )
    }

    /// Starts a game: a fresh world holding one player and level one's
    /// meteors, all pending until the first frame.
    pub fn new(config: SpawnConfig, player_extent: Extent, screen: Screen) -> (s: GameState)
        requires
            config.wf(),
            player_extent.wf(),
            screen.wf(),
        ensures
            s.wf(),
            s.spec_fresh(config, player_extent, screen),
    {
        let mut world = World::new(config);
        world.add(Entity::Player(Player::new(player_extent, screen)));
        let mut state = GameState { world, level: Level::One, lives: 3, score: 0, player_extent };
        state.init_level(screen);
        state
    }

    /// Spawns the current level's count of big meteors at random spots on
    /// screen, into the pending buffer.
    fn init_level(&mut self, screen: Screen)
        requires
            old(self).wf(),
            screen.wf(),
        ensures
            final(self).wf(),
            final(self).world.entities@ == old(self).world.entities@,
            final(self).world.config == old(self).world.config,
            final(self).level == old(self).level,
            final(self).lives == old(self).lives,
            final(self).score == old(self).score,
            final(self).player_extent == old(self).player_extent,
            final(self).world.entities_tmp@.len() == old(self).world.entities_tmp@.len() + old(self).level.spec_meteor_count(),
            forall|i: int|
                0 <= i < old(self).world.entities_tmp@.len() ==> final(self).world.entities_tmp@[i]
                    == old(self).world.entities_tmp@[i],
            forall|i: int|
                old(self).world.entities_tmp@.len() <= i < final(self).world.entities_tmp@.len()
                    ==> spec_is_level_meteor(
                    #[trigger] final(self).world.entities_tmp@[i],
                    old(self).world.config,
                    screen,
                ),
    {
        let nb_meteors: u32 = self.level.meteor_count();
        let ghost tmp0 = self.world.entities_tmp@;
        let ghost ents0 = self.world.entities@;
        let ghost config0 = self.world.config;
        let ghost level0 = self.level;
        let mut i: u32 = 0;
        while i < nb_meteors
            invariant
                i <= nb_meteors,
                screen.wf(),
                self.wf(),
                self.world.entities@ == ents0,
                self.world.config == config0,
                self.level == level0,
                self.lives == old(self).lives,
                self.score == old(self).score,
                self.player_extent == old(self).player_extent,
                self.world.entities_tmp@.len() == tmp0.len() + i,
                forall|k: int| 0 <= k < tmp0.len() ==> self.world.entities_tmp@[k] == tmp0[k],
                forall|k: int|
                    tmp0.len() <= k < self.world.entities_tmp@.len() ==> spec_is_level_meteor(
                        #[trigger] self.world.entities_tmp@[k],
                        config0,
                        screen,
                    ),
            decreases nb_meteors - i,
        {
            let ext = self.world.config.meteor_extent(MeteorSize::Big);
            let dir = random_dir();
            let mut meteor = Meteor::new(ext, MeteorSize::Big, dir);
            let px: i64 = gen_below(0, screen.w);
            let py: i64 = gen_below(0, screen.h);
            meteor.data.position = Vec2i { x: px, y: py };
            proof {
                assert(METEOR_SPEED * (MILLI - DIR_TOLERANCE) * (METEOR_SPEED * (MILLI
                    - DIR_TOLERANCE)) <= (dir.x * METEOR_SPEED) * (dir.x * METEOR_SPEED) + (dir.y
                    * METEOR_SPEED) * (dir.y * METEOR_SPEED) <= METEOR_SPEED * MILLI
                    * (METEOR_SPEED * MILLI)) by (nonlinear_arith)
                    requires
                        (MILLI - DIR_TOLERANCE) * (MILLI - DIR_TOLERANCE) <= dir.x * dir.x + dir.y
                            * dir.y <= MILLI * MILLI,
                        METEOR_SPEED == 30,
                ;
            }
            self.world.add(Entity::Meteor(meteor));
            i = i + 1;
        }
    }

    /// Throws the whole game away and starts over: level one, no score,
    /// three lives, a fresh world with one player and level one's
    /// meteors.
    fn reset(&mut self, screen: Screen)
        requires
            old(self).wf(),
            screen.wf(),
        ensures
            final(self).wf(),
            final(self).spec_fresh(
                old(self).world.config,
                old(self).player_extent,
                screen,
            ),
    {
        let config = self.world.config;
        self.level = Level::One;
        self.score = 0;
        self.lives = 3;
        self.world = World::new(config);
        self.world.add(Entity::Player(Player::new(self.player_extent, screen)));
        self.init_level(screen);
    }

    /// How one frame of the game relates its state before and after: the
    /// world took one frame (`spec_world_frame`), leaving `lives_mid`
    /// lives and scoring `pts`. The frame returns the lose transition
    /// **iff** it exhausted the lives, and then the whole state is fresh;
    /// otherwise it keeps running, banks exactly the frame's points, and
    /// advances the level — spawning the new level's meteors, touching
    /// nothing else — **iff** the frame left exactly one entity, active
    /// and pending together.
    pub open spec fn spec_game_frame(
        pre: GameState,
        post: GameState,
        t: Transition,
        dt: u32,
        input: PlayerInput,
        screen: Screen,
    ) -> bool {
        &&& post.wf()
        &&& post.player_extent == pre.player_extent
        &&& post.world.config == pre.world.config
        &&& exists|wmid: World, lives_mid: u8, pts: u32|
            #![trigger spec_world_frame(
                pre.world,
                wmid,
                pre.lives,
                lives_mid,
                pts,
                dt,
                input,
                screen,
            )]
            {
                &&& spec_world_frame(pre.world, wmid, pre.lives, lives_mid, pts, dt, input, screen)
                &&& if lives_mid == 0 {
                    &&& t == Transition::SwitchTo(Type::Lose)
                    &&& post.spec_fresh(pre.world.config, pre.player_extent, screen)
                } else {
                    &&& t == Transition::KeepRunning
                    &&& post.lives == lives_mid
                    &&& post.score == spec_sat_add(pre.score, pts)
                    &&& if wmid.entities@.len() + wmid.entities_tmp@.len() == 1 {
                        &&& post.level == Level::spec_from_u32(
                            (pre.level.spec_ordinal() + 1) as u32,
                        )
                        &&& post.world.entities@ == wmid.entities@
                        &&& post.world.entities_tmp@.len() == wmid.entities_tmp@.len()
                            + post.level.spec_meteor_count()
                        &&& (forall|i: int|
                            0 <= i < wmid.entities_tmp@.len() ==> post.world.entities_tmp@[i]
                                == wmid.entities_tmp@[i])
                        &&& (forall|i: int|
                            wmid.entities_tmp@.len() <= i < post.world.entities_tmp@.len()
                                ==> spec_is_level_meteor(
                                #[trigger] post.world.entities_tmp@[i],
                                pre.world.config,
                                screen,
                            ))
                    } else {
                        &&& post.level == pre.level
                        &&& post.world == wmid
                    }
                }
            }
    }

    /// One frame of the game: the world advances and its points are
    /// banked. Running out of lives resets everything and asks for the
    /// lose screen; clearing the field (only the player left) advances
    /// the level — which by itself adds nothing to the score — and
    /// spawns the new level's meteors.
    pub fn update(&mut self, dt: u32, input: &PlayerInput, screen: Screen) -> (t: Transition)
        requires
            old(self).wf(),
            dt <= DT_LIMIT,
            input.wf(),
            screen.wf(),
        ensures
            GameState::spec_game_frame(*old(self), *final(self), t, dt, *input, screen),
            t == Transition::KeepRunning || t == Transition::SwitchTo(Type::Lose),
    {
        let mut lives: u8 = self.lives;
        let pts: u32 = self.world.update(dt, input, screen, &mut lives);
        self.lives = lives;
        let ghost wmid = self.world;
        let ghost lives_mid = lives;
        self.score = sat_add(self.score, pts);

        if self.lives == 0 {
            self.reset(screen);
            proof {
                assert(spec_world_frame(
                    old(self).world,
                    wmid,
                    old(self).lives,
                    lives_mid,
                    pts,
                    dt,
                    *input,
                    screen,
                ));
            }
            return Transition::SwitchTo(Type::Lose);
        }
        if self.world.size() == 1 {
            self.level = Level::from_u32(self.level.ordinal() + 1);
            self.init_level(screen);
        }
        proof {
            assert(spec_world_frame(
                old(self).world,
                wmid,
                old(self).lives,
                lives_mid,
                pts,
                dt,
                *input,
                screen,
            ));
            assert(spec_sat_add(old(self).score, pts) == self.score);
        }
        Transition::KeepRunning
    }
}

/// The main menu: two buttons, Play and Quit; the host's widget layer
/// reports their clicks.
pub struct MainState {}

impl MainState {
    pub fn new() -> (s: MainState) {
        MainState {  }
    }

    /// Play switches to the game (and wins over Quit); Quit stops the
    /// application; otherwise nothing changes.
    pub fn update(&mut self, play: bool, quit: bool) -> (t: Transition)
        ensures
            t == if play {
                Transition::SwitchTo(Type::Game)
            } else if quit {
                Transition::Quit
            } else {
                Transition::KeepRunning
            },
    {
        if play {
            Transition::SwitchTo(Type::Game)
        } else if quit {
            Transition::Quit
        } else {
            Transition::KeepRunning
        }
    }
}

/// The lose screen: a Retry button that starts a new game, and Quit.
pub struct LoseState {}

impl LoseState {
    pub fn new() -> (s: LoseState) {
        LoseState {  }
    }

    /// Retry switches to the game (and wins over Quit); Quit stops the
    /// application; otherwise nothing changes.
    pub fn update(&mut self, play: bool, quit: bool) -> (t: Transition)
        ensures
            t == if play {
                Transition::SwitchTo(Type::Game)
            } else if quit {
                Transition::Quit
            } else {
                Transition::KeepRunning
            },
    {
        if play {
            Transition::SwitchTo(Type::Game)
        } else if quit {
            Transition::Quit
        } else {
            Transition::KeepRunning
        }
    }
}

/// Owns every screen, tracks which is active, and executes the
/// transition the active screen's update asks for.
pub struct StateManager {
    pub game: GameState,
    pub main_menu: MainState,
    pub lose: LoseState,
    pub type_: Type,
}

impl StateManager {
    pub open spec fn wf(self) -> bool {
        self.game.wf()
    }

    /// A manager opening on the main menu, with a game ready behind it.
    pub fn new(config: SpawnConfig, player_extent: Extent, screen: Screen) -> (s: StateManager)
        requires
            config.wf(),
            player_extent.wf(),
            screen.wf(),
        ensures
            s.wf(),
            s.type_ == Type::MainMenu,
            s.game.spec_fresh(config, player_extent, screen),
    {
        StateManager {
            game: GameState::new(config, player_extent, screen),
            main_menu: MainState::new(),
            lose: LoseState::new(),
            type_: Type::MainMenu,
        }
    }

    /// Makes the given screen the active one.
    pub fn switch_to(&mut self, type_: Type)
        ensures
            *final(self) == (StateManager { type_, ..*old(self) }),
    {
        self.type_ = type_;
    }

    /// One frame of the active screen, then its transition is executed.
    /// Returns whether the application keeps running.
    pub fn update(&mut self, dt: u32, input: &PlayerInput, screen: Screen, play: bool, quit: bool)
        -> (running: bool)
        requires
            old(self).wf(),
            dt <= DT_LIMIT,
            input.wf(),
            screen.wf(),
        ensures
            final(self).wf(),
            match old(self).type_ {
                Type::MainMenu => {
                    &&& final(self).game == old(self).game
                    &&& final(self).type_ == if play {
                        Type::Game
                    } else {
                        old(self).type_
                    }
                    &&& running == (play || !quit)
                },
                Type::Lose => {
                    &&& final(self).game == old(self).game
                    &&& final(self).type_ == if play {
                        Type::Game
                    } else {
                        old(self).type_
                    }
                    &&& running == (play || !quit)
                },
                Type::Game => {
                    &&& running == true
                    &&& exists|t: Transition|
                        #![trigger GameState::spec_game_frame(
                            old(self).game,
                            final(self).game,
                            t,
                            dt,
                            *input,
                            screen,
                        )]
                        {
                            &&& GameState::spec_game_frame(
                                old(self).game,
                                final(self).game,
                                t,
                                dt,
                                *input,
                                screen,
                            )
                            &&& (t == Transition::KeepRunning || t == Transition::SwitchTo(
                                Type::Lose,
                            ))
                            &&& final(self).type_ == (if t == Transition::SwitchTo(Type::Lose) {
                                Type::Lose
                            } else {
                                Type::Game
                            })
                        }
                },
                Type::Win => {
                    &&& *final(self) == *old(self)
                    &&& running == true
                },
            },
    {
        match self.type_ {
            Type::Game => {
                let t = self.game.update(dt, input, screen);
                let r: bool = match t {
                    Transition::SwitchTo(next) => {
                        self.switch_to(next);
                        true
                    },
                    Transition::Quit => false,
                    Transition::KeepRunning => true,
                };
                proof {
                    assert(GameState::spec_game_frame(
                        old(self).game,
                        self.game,
                        t,
                        dt,
                        *input,
                        screen,
                    ));
                }
                r
            },
            Type::MainMenu => {
                let t = self.main_menu.update(play, quit);
                match t {
                    Transition::SwitchTo(next) => {
                        self.switch_to(next);
                        true
                    },
                    Transition::Quit => false,
                    Transition::KeepRunning => true,
                }
            },
            Type::Lose => {
                let t = self.lose.update(play, quit);
                match t {
                    Transition::SwitchTo(next) => {
                        self.switch_to(next);
                        true
                    },
                    Transition::Quit => false,
                    Transition::KeepRunning => true,
                }
            },
            Type::Win => true,
        }
    }
}

} // verus!
