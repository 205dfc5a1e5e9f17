//! The entities of the simulation: the player ship, shots, and meteors,
//! with the per-kind motion, collision filtering and destruction rules.

use vstd::prelude::*;

use crate::collision::{circle_test, spec_circle_hit};
use crate::geometry::{
    clamped, div_milli, spec_step_coord, step_coord, Screen, Vec2i, DT_LIMIT, EXTENT_LIMIT, MILLI,
    POS_LIMIT, SCREEN_LIMIT, SPEED_LIMIT,
};
use crate::rng::gen_below;
use vstd::arithmetic::div_mod::lemma_mod_multiples_vanish;

verus! {

/// How long a shot lives, in milliseconds.
pub const SHOOT_DURATION: u32 = 500;

/// The cooldown between two shots, in milliseconds.
pub const SHOOT_COOLDOWN: u32 = 500;

/// The grace period between two life losses, in milliseconds.
pub const GRACE_PERIOD: u32 = 1000;

/// Shot speed, in pixels per second.
pub const SHOOT_SPEED: i64 = 500;

/// Meteor drift speed scale, in pixels per second per milli-unit of direction.
pub const METEOR_SPEED: i64 = 30;

/// Turn rate while a turn key is held: 250 degrees per second, which is
/// 250 millidegrees per millisecond.
pub const TURN_RATE: i64 = 250;

/// Forward acceleration while thrusting, in pixels per second squared.
pub const THRUST_ACCEL: i64 = 300;

/// A full turn, in millidegrees.
pub const FULL_TURN: i64 = 360_000;

/// Who fired a shot; filters which collisions the shot takes part in.
#[derive(Clone, Copy, PartialEq, Eq, Structural, Debug)]
pub enum ShootType {
    Player,
    Enemy,
}

/// The kind tag an entity exposes to collision filtering and scoring.
/// A meteor carries its score value in the tag.
#[derive(Clone, Copy, PartialEq, Eq, Structural, Debug)]
pub enum Type {
    Meteor(u32),
    Player,
    Enemy,
    Shoot(ShootType),
}

/// The three meteor tiers; destroying one spawns the next smaller tier.
#[derive(Clone, Copy, PartialEq, Eq, Structural, Debug)]
pub enum MeteorSize {
    Big,
    Medium,
    Small,
}

/// The visual extent of an entity, in milli-pixels; it stands in for the
/// cached texture the renderer owns, and fixes the collision radius.
#[derive(Clone, Copy, PartialEq, Eq, Structural, Debug)]
pub struct Extent {
    pub w: i64,
    pub h: i64,
}

impl Extent {
    pub open spec fn wf(self) -> bool {
        0 <= self.w <= EXTENT_LIMIT && 0 <= self.h <= EXTENT_LIMIT
    }
}

/// The state every entity kind shares.
#[derive(Clone, Copy, PartialEq, Eq, Structural, Debug)]
pub struct Data {
    pub alive: bool,
    pub position: Vec2i,
    pub impulse: Vec2i,
    pub extent: Extent,
}

impl Data {
    /// Coordinates, velocity and extent are within the representable bands.
    pub open spec fn wf(self) -> bool {
        &&& -POS_LIMIT <= self.position.x <= POS_LIMIT
        &&& -POS_LIMIT <= self.position.y <= POS_LIMIT
        &&& -SPEED_LIMIT <= self.impulse.x <= SPEED_LIMIT
        &&& -SPEED_LIMIT <= self.impulse.y <= SPEED_LIMIT
        &&& self.extent.wf()
    }

    /// The position lies in the band the wrap pass produces.
    pub open spec fn in_band(self) -> bool {
        &&& -EXTENT_LIMIT <= self.position.x <= SCREEN_LIMIT
        &&& -EXTENT_LIMIT <= self.position.y <= SCREEN_LIMIT
    }

    /// The shared part of every kind's motion: the position advances by
    /// the impulse over `dt` milliseconds; everything else is untouched.
    pub open spec fn spec_integrated(self, dt: int) -> Data {
        Data {
            position: Vec2i {
                x: spec_step_coord(self.position.x as int, self.impulse.x as int, dt) as i64,
                y: spec_step_coord(self.position.y as int, self.impulse.y as int, dt) as i64,
            },
            ..self
        }
    }

    /// Advances the position by the impulse over `dt` milliseconds.
    pub fn integrate(&mut self, dt: u32)
        requires
            old(self).wf(),
            dt <= DT_LIMIT,
        ensures
            *final(self) == old(self).spec_integrated(dt as int),
            final(self).wf(),
    {
        let x: i64 = step_coord(self.position.x, self.impulse.x, dt);
        let y: i64 = step_coord(self.position.y, self.impulse.y, dt);
        self.position = Vec2i { x, y };
    }
}

/// `a + b` on frame timers, stuck at the top of the range instead of
/// overflowing: the comparisons against the cooldown and grace thresholds
/// are unaffected.
pub open spec fn spec_sat_add(a: u32, b: u32) -> u32 {
    if a + b > u32::MAX {
        u32::MAX
    } else {
        (a + b) as u32
    }
}

/// Saturating addition of two frame timers.
pub fn sat_add(a: u32, b: u32) -> (r: u32)
    ensures
        r == spec_sat_add(a, b),
{
    if a > u32::MAX - b {
        u32::MAX
    } else {
        a + b
    }
}

/// The score a destroyed meteor of the given tier is worth.
pub open spec fn spec_score_value(size: MeteorSize) -> u32 {
    match size {
        MeteorSize::Big => 10,
        MeteorSize::Medium => 5,
        MeteorSize::Small => 1,
    }
}

/// The score a destroyed meteor of the given tier is worth.
pub fn score_value(size: MeteorSize) -> (r: u32)
    ensures
        r == spec_score_value(size),
{
    match size {
        MeteorSize::Big => 10,
        MeteorSize::Medium => 5,
        MeteorSize::Small => 1,
    }
}

/// The tier the fragments of a destroyed meteor have: `None` for a Small
/// meteor, which leaves no fragments.
pub open spec fn spec_split_size(size: MeteorSize) -> Option<MeteorSize> {
    match size {
        MeteorSize::Big => Some(MeteorSize::Medium),
        MeteorSize::Medium => Some(MeteorSize::Small),
        MeteorSize::Small => None,
    }
}

/// The tier the fragments of a destroyed meteor have.
pub fn split_size(size: MeteorSize) -> (r: Option<MeteorSize>)
    ensures
        r == spec_split_size(size),
{
    match size {
        MeteorSize::Big => Some(MeteorSize::Medium),
        MeteorSize::Medium => Some(MeteorSize::Small),
        MeteorSize::Small => None,
    }
}

/// The angle an entity faces after one frame of turn input, wrapped into
/// `[0, FULL_TURN)` millidegrees: holding the right key turns by
/// `TURN_RATE * dt`, else the left key by the negative of that.
pub open spec fn spec_rotation_after_turn(rot: int, right: bool, left: bool, dt: int) -> int {
    let turned = if right {
        rot + TURN_RATE * dt
    } else if left {
        rot - TURN_RATE * dt
    } else {
        rot
    };
    turned % (FULL_TURN as int)
}

/// Applies one frame of turn input to an angle in millidegrees.
pub fn rotation_after_turn(rot: i64, right: bool, left: bool, dt: u32) -> (r: i64)
    requires
        0 <= rot < FULL_TURN,
        dt <= DT_LIMIT,
    ensures
        r == spec_rotation_after_turn(rot as int, right, left, dt as int),
        0 <= r < FULL_TURN,
{
    let delta: i64 = TURN_RATE * (dt as i64);
    let turned: i64 = if right {
        rot + delta
    } else if left {
        rot - delta
    } else {
        rot
    };
    // 42 full turns exceed the largest possible negative swing, so the
    // shifted value is nonnegative and `%` agrees with the spec's
    // Euclidean remainder.
    let shifted: i64 = turned + 42 * FULL_TURN;
    let r: i64 = shifted % FULL_TURN;
    proof {
        lemma_mod_multiples_vanish(42, turned as int, FULL_TURN as int);
    }
    r
}

/// One frame of polled player input: key flags plus the unit vector the
/// ship faces after this frame's turn, in milli-units (the host computes
/// it from the rotation `rotation_after_turn` yields, since the library
/// does no trigonometry).
#[derive(Clone, Copy, PartialEq, Eq, Structural, Debug)]
pub struct PlayerInput {
    pub turn_left: bool,
    pub turn_right: bool,
    pub thrust: bool,
    pub hyperspace: bool,
    pub fire: bool,
    pub facing: Vec2i,
}

impl PlayerInput {
    pub open spec fn wf(self) -> bool {
        &&& -MILLI <= self.facing.x <= MILLI
        &&& -MILLI <= self.facing.y <= MILLI
    }
}

/// A deferred effect an entity hands back instead of mutating the world
/// mid-iteration; the world executes it after the update pass.
#[derive(Clone, Copy, PartialEq, Eq, Structural, Debug)]
pub enum DeferredAction {
    SpawnShoot { position: Vec2i, rotation: i64, velocity: Vec2i, origin: ShootType },
    SpawnMeteors { size: MeteorSize, count: u32, position: Vec2i },
}

/// The player ship: a rotation in millidegrees, a shot cooldown and the
/// grace timer between life losses.
#[derive(Clone, Copy, PartialEq, Eq, Structural, Debug)]
pub struct Player {
    pub data: Data,
    pub rotation: i64,
    pub is_moving: bool,
    pub time_since_last_shoot: u32,
    pub last_touch: u32,
}

/// A shot: lives for a fixed duration, then expires.
#[derive(Clone, Copy, PartialEq, Eq, Structural, Debug)]
pub struct Shoot {
    pub duration: u32,
    pub data: Data,
    pub rotation: i64,
    pub type_: ShootType,
}

/// A meteor of one of the three tiers.
#[derive(Clone, Copy, PartialEq, Eq, Structural, Debug)]
pub struct Meteor {
    pub data: Data,
    pub size: MeteorSize,
}

/// Any entity the world simulates.
#[derive(Clone, Copy, PartialEq, Eq, Structural, Debug)]
pub enum Entity {
    Player(Player),
    Shoot(Shoot),
    Meteor(Meteor),
}

impl Player {
    pub open spec fn wf(self) -> bool {
        self.data.wf() && 0 <= self.rotation < FULL_TURN
    }

    /// A fresh ship at the screen centre, at rest, facing up.
    pub fn new(extent: Extent, screen: Screen) -> (p: Player)
        requires
            extent.wf(),
            screen.wf(),
        ensures
            p == (Player {
                data: Data {
                    alive: true,
                    position: Vec2i { x: (screen.w / 2) as i64, y: (screen.h / 2) as i64 },
                    impulse: Vec2i { x: 0, y: 0 },
                    extent: extent,
                },
                rotation: 0,
                is_moving: false,
                time_since_last_shoot: 0,
                last_touch: 0,
            }),
            p.wf(),
    {
        Player {
            data: Data {
                alive: true,
                position: Vec2i { x: screen.w / 2, y: screen.h / 2 },
                impulse: Vec2i { x: 0, y: 0 },
                extent: extent,
            },
            rotation: 0,
            is_moving: false,
            time_since_last_shoot: 0,
            last_touch: 0,
        }
    }
}

impl Shoot {
    pub open spec fn wf(self) -> bool {
        self.data.wf() && 0 <= self.rotation < FULL_TURN
    }

    /// A fresh shot at the given position, moving with the given velocity.
    pub fn new(extent: Extent, rotation: i64, position: Vec2i, velocity: Vec2i, type_: ShootType)
        -> (s: Shoot)
        requires
            extent.wf(),
            0 <= rotation < FULL_TURN,
            -POS_LIMIT <= position.x <= POS_LIMIT,
            -POS_LIMIT <= position.y <= POS_LIMIT,
            -SPEED_LIMIT <= velocity.x <= SPEED_LIMIT,
            -SPEED_LIMIT <= velocity.y <= SPEED_LIMIT,
        ensures
            s == (Shoot {
                duration: SHOOT_DURATION,
                data: Data { alive: true, position: position, impulse: velocity, extent: extent },
                rotation: rotation,
                type_: type_,
            }),
            s.wf(),
    {
        Shoot {
            duration: SHOOT_DURATION,
            data: Data { alive: true, position: position, impulse: velocity, extent: extent },
            rotation: rotation,
            type_: type_,
        }
    }
}

impl Meteor {
    pub open spec fn wf(self) -> bool {
        self.data.wf()
    }

    /// A fresh meteor drifting in the given direction (a vector in
    /// milli-units) at the tier's drift speed, at the origin until the
    /// spawner places it.
    pub fn new(extent: Extent, size: MeteorSize, dir: Vec2i) -> (m: Meteor)
        requires
            extent.wf(),
            -MILLI <= dir.x <= MILLI,
            -MILLI <= dir.y <= MILLI,
        ensures
            m == (Meteor {
                data: Data {
                    alive: true,
                    position: Vec2i { x: 0, y: 0 },
                    impulse: Vec2i {
                        x: (dir.x * METEOR_SPEED) as i64,
                        y: (dir.y * METEOR_SPEED) as i64,
                    },
                    extent: extent,
                },
                size: size,
            }),
            m.wf(),
    {
        Meteor {
            data: Data {
                alive: true,
                position: Vec2i { x: 0, y: 0 },
                impulse: Vec2i { x: dir.x * METEOR_SPEED, y: dir.y * METEOR_SPEED },
                extent: extent,
            },
            size: size,
        }
    }
}


/// A velocity component clamped to the representable band.
pub open spec fn spec_clamp_speed(x: int) -> int {
    clamped(x, SPEED_LIMIT as int)
}

/// Clamps a velocity component to the representable band.
pub fn clamp_speed(x: i64) -> (r: i64)
    ensures
        r == spec_clamp_speed(x as int),
{
    if x < -SPEED_LIMIT {
        -SPEED_LIMIT
    } else if x > SPEED_LIMIT {
        SPEED_LIMIT
    } else {
        x
    }
}

/// The velocity gained in one frame of thrust along one axis: the facing
/// component (milli-units) times the acceleration, over `dt` milliseconds.
pub open spec fn spec_thrust_delta(f: int, dt: int) -> int {
    div_milli(f * THRUST_ACCEL * dt)
}

/// The ship's impulse after one frame: unchanged unless thrusting, in
/// which case the thrust delta is added (impulse is persistent — there is
/// no deceleration), clamped to the representable band.
pub open spec fn spec_player_impulse(mid_imp: Vec2i, input: PlayerInput, dt: u32) -> Vec2i {
    if input.thrust {
        Vec2i {
            x: spec_clamp_speed(mid_imp.x + spec_thrust_delta(input.facing.x as int, dt as int)) as i64,
            y: spec_clamp_speed(mid_imp.y + spec_thrust_delta(input.facing.y as int, dt as int)) as i64,
        }
    } else {
        mid_imp
    }
}

/// Whether this frame fires a shot: the fire key is held and the cooldown
/// (already advanced by this frame) has run out. Holding the key fires
/// once per cooldown period; there is no key-edge condition.
pub open spec fn spec_player_fired(pre: Player, dt: u32, input: PlayerInput) -> bool {
    input.fire && spec_sat_add(pre.time_since_last_shoot, dt) > SHOOT_COOLDOWN
}

/// The ship after one frame, starting from `mid_pos` / `mid_imp` (its
/// position and impulse after a hyperspace jump, if any): the rotation
/// turns, thrust adds impulse, the position advances by the new impulse,
/// and the timers advance — except that on the frame a shot is fired the
/// grace timer is not advanced and the cooldown resets.
pub open spec fn spec_player_updated(
    pre: Player,
    dt: u32,
    input: PlayerInput,
    mid_pos: Vec2i,
    mid_imp: Vec2i,
) -> Player {
    let rot = spec_rotation_after_turn(
        pre.rotation as int,
        input.turn_right,
        input.turn_left,
        dt as int,
    ) as i64;
    let imp = spec_player_impulse(mid_imp, input, dt);
    let pos = Vec2i {
        x: spec_step_coord(mid_pos.x as int, imp.x as int, dt as int) as i64,
        y: spec_step_coord(mid_pos.y as int, imp.y as int, dt as int) as i64,
    };
    let fired = spec_player_fired(pre, dt, input);
    Player {
        data: Data { alive: pre.data.alive, position: pos, impulse: imp, extent: pre.data.extent },
        rotation: rot,
        is_moving: input.thrust,
        time_since_last_shoot: if fired {
            0
        } else {
            spec_sat_add(pre.time_since_last_shoot, dt)
        },
        last_touch: if fired {
            pre.last_touch
        } else {
            spec_sat_add(pre.last_touch, dt)
        },
    }
}

/// The deferred action one frame of the ship produces: a shot spawned at
/// the ship's new position, moving at shot speed along the facing, if the
/// frame fired; nothing otherwise.
pub open spec fn spec_player_action(
    pre: Player,
    dt: u32,
    input: PlayerInput,
    mid_pos: Vec2i,
    mid_imp: Vec2i,
) -> Option<DeferredAction> {
    if spec_player_fired(pre, dt, input) {
        let post = spec_player_updated(pre, dt, input, mid_pos, mid_imp);
        Some(
            DeferredAction::SpawnShoot {
                position: post.data.position,
                rotation: post.rotation,
                velocity: Vec2i {
                    x: (input.facing.x * SHOOT_SPEED) as i64,
                    y: (input.facing.y * SHOOT_SPEED) as i64,
                },
                origin: ShootType::Player,
            },
        )
    } else {
        None
    }
}

/// Where a hyperspace jump may land: on screen, keeping the ship's extent
/// inside the far edge — or at the origin when the extent does not fit.
pub open spec fn spec_hyper_ok(t: Vec2i, screen: Screen, extent: Extent) -> bool {
    &&& 0 <= t.x && (t.x < screen.w - extent.w || t.x == 0)
    &&& 0 <= t.y && (t.y < screen.h - extent.h || t.y == 0)
}

/// How one frame relates the ship before and after: deterministic except
/// for the hyperspace jump, whose landing point is only known to be on
/// screen.
pub open spec fn spec_player_update_rel(
    pre: Player,
    post: Player,
    action: Option<DeferredAction>,
    dt: u32,
    input: PlayerInput,
    screen: Screen,
) -> bool {
    if input.hyperspace {
        exists |mid: Vec2i|
            {
                &&& #[trigger] spec_hyper_ok(mid, screen, pre.data.extent)
                &&& post == spec_player_updated(pre, dt, input, mid, Vec2i { x: 0, y: 0 })
                &&& action == spec_player_action(pre, dt, input, mid, Vec2i { x: 0, y: 0 })
            }
    } else {
        &&& post == spec_player_updated(pre, dt, input, pre.data.position, pre.data.impulse)
        &&& action == spec_player_action(pre, dt, input, pre.data.position, pre.data.impulse)
    }
}

impl Player {
    /// Teleports the ship to a random point on screen and kills its
    /// impulse; the host plays the hyperspace sound.
    pub fn go_to_hyperspace(&mut self, screen: Screen)
        requires
            old(self).wf(),
            screen.wf(),
        ensures
            final(self).wf(),
            exists |t: Vec2i|
                {
                    &&& #[trigger] spec_hyper_ok(t, screen, old(self).data.extent)
                    &&& *final(self) == (Player {
                        data: Data {
                            position: t,
                            impulse: Vec2i { x: 0, y: 0 },
                            ..old(self).data
                        },
                        ..*old(self)
                    })
                },
    {
        let tx: i64 = if screen.w - self.data.extent.w > 0 {
            gen_below(0, screen.w - self.data.extent.w)
        } else {
            0
        };
        let ty: i64 = if screen.h - self.data.extent.h > 0 {
            gen_below(0, screen.h - self.data.extent.h)
        } else {
            0
        };
        self.data.impulse = Vec2i { x: 0, y: 0 };
        self.data.position = Vec2i { x: tx, y: ty };
        proof {
            assert(spec_hyper_ok(self.data.position, screen, old(self).data.extent));
        }
    }

    /// Consumes the cooldown: reports whether it has run out, and resets
    /// it when it has.
    fn shoot(&mut self) -> (fired: bool)
        ensures
            fired == (old(self).time_since_last_shoot > SHOOT_COOLDOWN),
            *final(self) == (Player {
                time_since_last_shoot: if fired {
                    0
                } else {
                    old(self).time_since_last_shoot
                },
                ..*old(self)
            }),
    {
        if self.time_since_last_shoot > SHOOT_COOLDOWN {
            self.time_since_last_shoot = 0;
            return true;
        }
        false
    }

    /// One frame of the ship: advances the cooldown, jumps on hyperspace
    /// input, turns, thrusts, moves, and fires when the cooldown allows.
    pub fn update(&mut self, dt: u32, input: &PlayerInput, screen: Screen) -> (action: Option<
        DeferredAction,
    >)
        requires
            old(self).wf(),
            dt <= DT_LIMIT,
            input.wf(),
            screen.wf(),
        ensures
            final(self).wf(),
            spec_player_update_rel(*old(self), *final(self), action, dt, *input, screen),
    {
        let t1: u32 = sat_add(self.time_since_last_shoot, dt);
        self.time_since_last_shoot = t1;
        self.is_moving = input.thrust;
        if input.hyperspace {
            self.go_to_hyperspace(screen);
        }
        let ghost mid_pos = self.data.position;
        let ghost mid_imp = self.data.impulse;
        self.rotation = rotation_after_turn(self.rotation, input.turn_right, input.turn_left, dt);
        if input.thrust {
            assert(-18_000_000_000 <= input.facing.x * THRUST_ACCEL * (dt as i64)
                <= 18_000_000_000 && -18_000_000_000 <= input.facing.y * THRUST_ACCEL * (dt as i64)
                <= 18_000_000_000) by (nonlinear_arith)
                requires
                    -1000 <= input.facing.x <= 1000,
                    -1000 <= input.facing.y <= 1000,
                    0 <= dt <= 60_000,
                    THRUST_ACCEL == 300,
            ;
            let dx: i64 = (input.facing.x * THRUST_ACCEL * (dt as i64)) / MILLI;
            let dy: i64 = (input.facing.y * THRUST_ACCEL * (dt as i64)) / MILLI;
            self.data.impulse = Vec2i {
                x: clamp_speed(self.data.impulse.x + dx),
                y: clamp_speed(self.data.impulse.y + dy),
            };
        }
        self.data.integrate(dt);
        let fired: bool = if input.fire {
            self.shoot()
        } else {
            false
        };
        if fired {
            // The grace timer does not advance on a firing frame.
            Some(
                DeferredAction::SpawnShoot {
                    position: self.data.position,
                    rotation: self.rotation,
                    velocity: Vec2i {
                        x: input.facing.x * SHOOT_SPEED,
                        y: input.facing.y * SHOOT_SPEED,
                    },
                    origin: ShootType::Player,
                },
            )
        } else {
            self.last_touch = sat_add(self.last_touch, dt);
            None
        }
    }

    /// A hit on the ship: costs a life and resets the grace timer, but
    /// only once the grace period has passed and lives remain; the ship
    /// itself is never marked dead (running out of lives is the game
    /// state's business).
    pub fn on_destroy(&mut self, lives: &mut u8) -> (action: Option<DeferredAction>)
        ensures
            action is None,
            ({
                let hit = old(self).last_touch > GRACE_PERIOD && *old(lives) > 0;
                &&& *final(lives) == if hit {
                    (*old(lives) - 1) as u8
                } else {
                    *old(lives)
                }
                &&& *final(self) == (Player {
                    last_touch: if hit {
                        0
                    } else {
                        old(self).last_touch
                    },
                    ..*old(self)
                })
            }),
    {
        if self.last_touch > GRACE_PERIOD && *lives > 0 {
            *lives = *lives - 1;
            self.last_touch = 0;
        }
        None
    }
}

/// The shot after one frame: it moves by its impulse and its remaining
/// duration runs down; when the duration runs out it dies.
pub open spec fn spec_shoot_updated(pre: Shoot, dt: u32) -> Shoot {
    let moved = pre.data.spec_integrated(dt as int);
    if dt <= pre.duration {
        Shoot { data: moved, duration: (pre.duration - dt) as u32, ..pre }
    } else {
        Shoot { data: Data { alive: false, ..moved }, duration: 0, ..pre }
    }
}

impl Shoot {
    /// One frame of a shot: motion and duration countdown.
    pub fn update(&mut self, dt: u32)
        requires
            old(self).wf(),
            dt <= DT_LIMIT,
        ensures
            *final(self) == spec_shoot_updated(*old(self), dt),
            final(self).wf(),
    {
        self.data.integrate(dt);
        if dt <= self.duration {
            self.duration = self.duration - dt;
        } else {
            self.duration = 0;
            self.data.alive = false;
        }
    }

    /// A hit on a shot: it dies, unconditionally.
    pub fn on_destroy(&mut self) -> (action: Option<DeferredAction>)
        ensures
            action is None,
            *final(self) == (Shoot { data: Data { alive: false, ..old(self).data }, ..*old(self) }),
    {
        self.data.alive = false;
        None
    }
}

/// Whether a destruction result is a split of the given meteor: fragments
/// of its own tier tag, 2 or 3 of them, at its own position.
pub open spec fn spec_is_split_action(
    a: Option<DeferredAction>,
    size: MeteorSize,
    pos: Vec2i,
) -> bool {
    match a {
        Some(DeferredAction::SpawnMeteors { size: s, count: c, position: p }) => {
            &&& s == size
            &&& p == pos
            &&& 2 <= c <= 3
        },
        _ => false,
    }
}

impl Meteor {
    /// One frame of a meteor: drift.
    pub fn update(&mut self, dt: u32)
        requires
            old(self).wf(),
            dt <= DT_LIMIT,
        ensures
            *final(self) == (Meteor { data: old(self).data.spec_integrated(dt as int), ..*old(self) }),
            final(self).wf(),
    {
        self.data.integrate(dt);
    }

    /// A hit on a meteor: it dies and defers a split into 2 or 3
    /// fragments at its own position; the world spawns them at the next
    /// smaller tier (none for a Small meteor). The host plays the
    /// tier's explosion sound.
    pub fn on_destroy(&mut self) -> (action: Option<DeferredAction>)
        ensures
            *final(self) == (Meteor { data: Data { alive: false, ..old(self).data }, ..*old(self) }),
            spec_is_split_action(action, old(self).size, old(self).data.position),
    {
        self.data.alive = false;
        let count: i64 = gen_below(2, 4);
        Some(
            DeferredAction::SpawnMeteors {
                size: self.size,
                count: count as u32,
                position: self.data.position,
            },
        )
    }
}

/// The kind-directed collision predicate, not symmetric: the ship ignores
/// its own shots but collides with anything else that overlaps; a shot
/// collides with enemies and meteors it overlaps; a meteor collides only
/// with player shots that overlap it.
pub open spec fn spec_collides(a: Entity, b: Entity) -> bool {
    match a {
        Entity::Player(_) => b.spec_type() != Type::Shoot(ShootType::Player) && spec_circle_hit(
            a.spec_data(),
            b.spec_data(),
        ),
        Entity::Shoot(_) => (match b.spec_type() {
            Type::Enemy => true,
            Type::Meteor(_) => true,
            _ => false,
        }) && spec_circle_hit(a.spec_data(), b.spec_data()),
        Entity::Meteor(_) => b.spec_type() == Type::Shoot(ShootType::Player) && spec_circle_hit(
            a.spec_data(),
            b.spec_data(),
        ),
    }
}

impl Entity {
    pub open spec fn wf(self) -> bool {
        match self {
            Entity::Player(p) => p.wf(),
            Entity::Shoot(s) => s.wf(),
            Entity::Meteor(m) => m.wf(),
        }
    }

    /// The shared data of whichever kind this is.
    pub open spec fn spec_data(self) -> Data {
        match self {
            Entity::Player(p) => p.data,
            Entity::Shoot(s) => s.data,
            Entity::Meteor(m) => m.data,
        }
    }

    pub open spec fn spec_alive(self) -> bool {
        self.spec_data().alive
    }

    /// The kind tag, with a meteor's score value filled in from its tier.
    pub open spec fn spec_type(self) -> Type {
        match self {
            Entity::Player(_) => Type::Player,
            Entity::Shoot(s) => Type::Shoot(s.type_),
            Entity::Meteor(m) => Type::Meteor(spec_score_value(m.size)),
        }
    }

    /// This entity with its position replaced.
    pub open spec fn spec_with_position(self, position: Vec2i) -> Entity {
        match self {
            Entity::Player(p) => Entity::Player(Player { data: Data { position, ..p.data }, ..p }),
            Entity::Shoot(s) => Entity::Shoot(Shoot { data: Data { position, ..s.data }, ..s }),
            Entity::Meteor(m) => Entity::Meteor(Meteor { data: Data { position, ..m.data }, ..m }),
        }
    }

    pub fn get_type(&self) -> (t: Type)
        ensures
            t == self.spec_type(),
    {
        match self {
            Entity::Player(_) => Type::Player,
            Entity::Shoot(s) => Type::Shoot(s.type_),
            Entity::Meteor(m) => Type::Meteor(score_value(m.size)),
        }
    }

    pub fn get_data(&self) -> (d: &Data)
        ensures
            *d == self.spec_data(),
    {
        match self {
            Entity::Player(p) => &p.data,
            Entity::Shoot(s) => &s.data,
            Entity::Meteor(m) => &m.data,
        }
    }

    pub fn is_alive(&self) -> (r: bool)
        ensures
            r == self.spec_alive(),
    {
        match self {
            Entity::Player(p) => p.data.alive,
            Entity::Shoot(s) => s.data.alive,
            Entity::Meteor(m) => m.data.alive,
        }
    }

    pub fn set_position(&mut self, position: Vec2i)
        requires
            old(self).wf(),
            -POS_LIMIT <= position.x <= POS_LIMIT,
            -POS_LIMIT <= position.y <= POS_LIMIT,
        ensures
            *final(self) == old(self).spec_with_position(position),
            final(self).wf(),
    {
        match self {
            Entity::Player(p) => p.data.position = position,
            Entity::Shoot(s) => s.data.position = position,
            Entity::Meteor(m) => m.data.position = position,
        }
    }

    /// The kind-directed collision test; see `spec_collides`.
    pub fn is_collide(&self, other: &Entity) -> (r: bool)
        requires
            self.spec_data().wf(),
            other.spec_data().wf(),
            self.spec_data().in_band(),
            other.spec_data().in_band(),
        ensures
            r == spec_collides(*self, *other),
    {
        match self {
            Entity::Player(_) => {
                if other.get_type() == Type::Shoot(ShootType::Player) {
                    false
                } else {
                    circle_test(self.get_data(), other.get_data())
                }
            },
            Entity::Shoot(_) => {
                match other.get_type() {
                    Type::Enemy => circle_test(self.get_data(), other.get_data()),
                    Type::Meteor(_) => circle_test(self.get_data(), other.get_data()),
                    _ => false,
                }
            },
            Entity::Meteor(_) => {
                if other.get_type() == Type::Shoot(ShootType::Player) {
                    circle_test(self.get_data(), other.get_data())
                } else {
                    false
                }
            },
        }
    }

    /// How one frame relates any entity before and after.
    pub open spec fn spec_update_rel(
        pre: Entity,
        post: Entity,
        action: Option<DeferredAction>,
        dt: u32,
        input: PlayerInput,
        screen: Screen,
    ) -> bool {
        match (pre, post) {
            (Entity::Player(p0), Entity::Player(p1)) => spec_player_update_rel(
                p0,
                p1,
                action,
                dt,
                input,
                screen,
            ),
            (Entity::Shoot(s0), Entity::Shoot(s1)) => s1 == spec_shoot_updated(s0, dt) && action
                is None,
            (Entity::Meteor(m0), Entity::Meteor(m1)) => m1 == (Meteor {
                data: m0.data.spec_integrated(dt as int),
                ..m0
            }) && action is None,
            _ => false,
        }
    }

    /// One frame of any entity; the input and screen only matter to the
    /// ship.
    pub fn update(&mut self, dt: u32, input: &PlayerInput, screen: Screen) -> (action: Option<
        DeferredAction,
    >)
        requires
            old(self).wf(),
            dt <= DT_LIMIT,
            input.wf(),
            screen.wf(),
        ensures
            final(self).wf(),
            Entity::spec_update_rel(*old(self), *final(self), action, dt, *input, screen),
    {
        match self {
            Entity::Player(p) => p.update(dt, input, screen),
            Entity::Shoot(s) => {
                s.update(dt);
                None
            },
            Entity::Meteor(m) => {
                m.update(dt);
                None
            },
        }
    }

    /// How a destruction call relates any entity (and the lives counter)
    /// before and after.
    pub open spec fn spec_destroy_rel(
        pre: Entity,
        post: Entity,
        action: Option<DeferredAction>,
        lives_pre: u8,
        lives_post: u8,
    ) -> bool {
        match (pre, post) {
            (Entity::Player(p0), Entity::Player(p1)) => {
                let hit = p0.last_touch > GRACE_PERIOD && lives_pre > 0;
                &&& p1 == (Player {
                    last_touch: if hit {
                        0u32
                    } else {
                        p0.last_touch
                    },
                    ..p0
                })
                &&& lives_post == if hit {
                    (lives_pre - 1) as u8
                } else {
                    lives_pre
                }
                &&& action is None
            },
            (Entity::Shoot(s0), Entity::Shoot(s1)) => {
                &&& s1 == (Shoot { data: Data { alive: false, ..s0.data }, ..s0 })
                &&& lives_post == lives_pre
                &&& action is None
            },
            (Entity::Meteor(m0), Entity::Meteor(m1)) => {
                &&& m1 == (Meteor { data: Data { alive: false, ..m0.data }, ..m0 })
                &&& lives_post == lives_pre
                &&& spec_is_split_action(action, m0.size, m0.data.position)
            },
            _ => false,
        }
    }

    /// Reacts to this entity being involved in at least one collision
    /// this frame; only the ship touches the lives counter.
    pub fn on_destroy(&mut self, lives: &mut u8) -> (action: Option<DeferredAction>)
        ensures
            Entity::spec_destroy_rel(
                *old(self),
                *final(self),
                action,
                *old(lives),
                *final(lives),
            ),
    {
        match self {
            Entity::Player(p) => p.on_destroy(lives),
            Entity::Shoot(s) => s.on_destroy(),
            Entity::Meteor(m) => m.on_destroy(),
        }
    }
}


/// Bounds a deferred action must satisfy for the world to execute it;
/// every action a well-formed entity produces satisfies them.
pub open spec fn spec_action_wf(a: DeferredAction) -> bool {
    match a {
        DeferredAction::SpawnShoot { position, rotation, velocity, origin } => {
            &&& -POS_LIMIT <= position.x <= POS_LIMIT
            &&& -POS_LIMIT <= position.y <= POS_LIMIT
            &&& 0 <= rotation < FULL_TURN
            &&& -SPEED_LIMIT <= velocity.x <= SPEED_LIMIT
            &&& -SPEED_LIMIT <= velocity.y <= SPEED_LIMIT
        },
        DeferredAction::SpawnMeteors { size, count, position } => {
            &&& -POS_LIMIT <= position.x <= POS_LIMIT
            &&& -POS_LIMIT <= position.y <= POS_LIMIT
            &&& count <= 3
        },
    }
}

/// Whatever action one frame of a well-formed entity produces is within
/// the bounds the world needs to execute it.
pub proof fn lemma_update_action_wf(
    pre: Entity,
    post: Entity,
    a: Option<DeferredAction>,
    dt: u32,
    input: PlayerInput,
    screen: Screen,
)
    requires
        Entity::spec_update_rel(pre, post, a, dt, input, screen),
        post.wf(),
        input.wf(),
    ensures
        match a {
            Some(act) => spec_action_wf(act),
            None => true,
        },
{
    if a is Some {
        match (pre, post) {
            (Entity::Player(p0), Entity::Player(p1)) => {
                if input.hyperspace {
                    let mid = choose|mid: Vec2i|
                        {
                            &&& #[trigger] spec_hyper_ok(mid, screen, p0.data.extent)
                            &&& p1 == spec_player_updated(p0, dt, input, mid, Vec2i { x: 0, y: 0 })
                            &&& a == spec_player_action(p0, dt, input, mid, Vec2i { x: 0, y: 0 })
                        };
                    assert(a == spec_player_action(p0, dt, input, mid, Vec2i { x: 0, y: 0 }));
                } else {
                    assert(a == spec_player_action(p0, dt, input, p0.data.position, p0.data.impulse));
                }
            },
            _ => {},
        }
    }
}


/// Law: liveness never returns. One frame of any entity leaves a dead
/// entity dead; together with the world's own guarantee that no dead
/// entity survives its removal pass, an entity whose `alive` flag has
/// fallen is swept out and never reappears.
pub proof fn lemma_update_never_revives(
    pre: Entity,
    post: Entity,
    action: Option<DeferredAction>,
    dt: u32,
    input: PlayerInput,
    screen: Screen,
)
    requires
        Entity::spec_update_rel(pre, post, action, dt, input, screen),
        !pre.spec_alive(),
    ensures
        !post.spec_alive(),
{
    match (pre, post) {
        (Entity::Player(p0), Entity::Player(p1)) => {
            if input.hyperspace {
                let mid = choose|mid: Vec2i|
                    {
                        &&& #[trigger] spec_hyper_ok(mid, screen, p0.data.extent)
                        &&& p1 == spec_player_updated(p0, dt, input, mid, Vec2i { x: 0, y: 0 })
                        &&& action == spec_player_action(p0, dt, input, mid, Vec2i { x: 0, y: 0 })
                    };
                assert(p1 == spec_player_updated(p0, dt, input, mid, Vec2i { x: 0, y: 0 }));
            }
        },
        _ => {},
    }
}

/// Law: a destruction call never revives an entity either.
pub proof fn lemma_destroy_never_revives(
    pre: Entity,
    post: Entity,
    action: Option<DeferredAction>,
    lives_pre: u8,
    lives_post: u8,
)
    requires
        Entity::spec_destroy_rel(pre, post, action, lives_pre, lives_post),
    ensures
        post.spec_alive() ==> pre.spec_alive(),
{
}

/// Law: two player shots never collide with each other, in either
/// direction — a shot only collides with enemies and meteors, and the
/// ship filters its own shots out — so a pair of player shots never
/// triggers destruction on either side.
pub proof fn lemma_player_shots_ignore_each_other(a: Shoot, b: Shoot)
    requires
        a.type_ == ShootType::Player,
        b.type_ == ShootType::Player,
    ensures
        !spec_collides(Entity::Shoot(a), Entity::Shoot(b)),
        !spec_collides(Entity::Shoot(b), Entity::Shoot(a)),
{
}

/// Law: a destroyed meteor defers a split into 2 or 3 fragments at its
/// own position, and the fragments' tier is the next smaller one — except
/// for a Small meteor, whose split spawns nothing. So the meteor
/// population strictly decreases only at the Small tier.
pub proof fn lemma_meteor_split_counts(
    action: Option<DeferredAction>,
    size: MeteorSize,
    pos: Vec2i,
)
    requires
        spec_is_split_action(action, size, pos),
    ensures
        match action {
            Some(DeferredAction::SpawnMeteors { size: s, count, position }) => {
                &&& s == size
                &&& position == pos
                &&& 2 <= count <= 3
                &&& (size == MeteorSize::Small ==> spec_split_size(size) is None)
                &&& (size == MeteorSize::Big ==> spec_split_size(size) == Some(
                    MeteorSize::Medium,
                ))
                &&& (size == MeteorSize::Medium ==> spec_split_size(size) == Some(
                    MeteorSize::Small,
                ))
            },
            _ => false,
        },
{
}

} // verus!
