//! The world: the live entity collection and the per-frame pipeline of
//! update, deferred effects, screen wrap, collision, destruction and
//! removal.

use vstd::prelude::*;

use crate::entity::{
    lemma_update_action_wf, spec_action_wf, spec_collides, spec_score_value, spec_split_size,
    split_size, Data, DeferredAction, Entity, Extent, Meteor, MeteorSize, Player, PlayerInput, Shoot,
    ShootType, Type, GRACE_PERIOD, METEOR_SPEED, SHOOT_DURATION,
};
use crate::geometry::{spec_wrap_coord, wrap_coord, Screen, Vec2i, DT_LIMIT, MILLI, POS_LIMIT};
use crate::rng::{random_dir, DIR_TOLERANCE};

verus! {

/// The visual extents the world gives entities it spawns itself; they
/// stand in for the textures the renderer caches by name.
#[derive(Clone, Copy, PartialEq, Eq, Structural, Debug)]
pub struct SpawnConfig {
    pub shoot_extent: Extent,
    pub meteor_big: Extent,
    pub meteor_medium: Extent,
    pub meteor_small: Extent,
}

impl SpawnConfig {
    pub open spec fn wf(self) -> bool {
        &&& self.shoot_extent.wf()
        &&& self.meteor_big.wf()
        &&& self.meteor_medium.wf()
        &&& self.meteor_small.wf()
    }

    pub open spec fn spec_meteor_extent(self, size: MeteorSize) -> Extent {
        match size {
            MeteorSize::Big => self.meteor_big,
            MeteorSize::Medium => self.meteor_medium,
            MeteorSize::Small => self.meteor_small,
        }
    }

    /// The extent a meteor of the given tier is spawned with.
    pub fn meteor_extent(&self, size: MeteorSize) -> (e: Extent)
        ensures
            e == self.spec_meteor_extent(size),
    {
        match size {
            MeteorSize::Big => self.meteor_big,
            MeteorSize::Medium => self.meteor_medium,
            MeteorSize::Small => self.meteor_small,
        }
    }
}

/// Every entity of the sequence is well formed.
pub open spec fn all_wf(s: Seq<Entity>) -> bool {
    forall|i: int| 0 <= i < s.len() ==> (#[trigger] s[i]).wf()
}

/// Every entity of the sequence sits in the wrapped position band.
pub open spec fn all_in_band(s: Seq<Entity>) -> bool {
    forall|i: int| 0 <= i < s.len() ==> (#[trigger] s[i]).spec_data().in_band()
}

/// What a dead entity scores when the removal pass sweeps it: a meteor's
/// value; anything else is worthless.
pub open spec fn spec_point_value(e: Entity) -> int {
    match e {
        Entity::Meteor(m) => if !m.data.alive {
            spec_score_value(m.size) as int
        } else {
            0
        },
        _ => 0,
    }
}

/// The points the removal pass scores over a whole sequence.
pub open spec fn spec_removed_points(s: Seq<Entity>) -> int
    decreases s.len(),
{
    if s.len() == 0 {
        0
    } else {
        spec_removed_points(s.drop_last()) + spec_point_value(s.last())
    }
}

pub proof fn lemma_removed_points_nonneg(s: Seq<Entity>)
    ensures
        0 <= spec_removed_points(s),
    decreases s.len(),
{
    if s.len() > 0 {
        lemma_removed_points_nonneg(s.drop_last());
    }
}

/// The entities the removal pass keeps: the live ones, in order.
pub open spec fn spec_survivors(s: Seq<Entity>) -> Seq<Entity>
    decreases s.len(),
{
    if s.len() == 0 {
        Seq::empty()
    } else {
        let rest = spec_survivors(s.drop_last());
        if s.last().spec_alive() {
            rest.push(s.last())
        } else {
            rest
        }
    }
}

/// A point count held to `u32`, stuck at the top instead of overflowing.
pub open spec fn spec_sat_points(x: int) -> u32 {
    if x > u32::MAX {
        u32::MAX
    } else if x < 0 {
        0
    } else {
        x as u32
    }
}

/// The world: the active entity set this frame iterates over, and the
/// pending buffer entities spawned this frame wait in until the next
/// frame begins.
pub struct World {
    pub entities: Vec<Entity>,
    pub entities_tmp: Vec<Entity>,
    pub config: SpawnConfig,
}

impl World {
    pub open spec fn wf(self) -> bool {
        &&& all_wf(self.entities@)
        &&& all_wf(self.entities_tmp@)
        &&& self.config.wf()
    }

    /// An empty world that will spawn entities with the given extents.
    pub fn new(config: SpawnConfig) -> (w: World)
        requires
            config.wf(),
        ensures
            w.entities@.len() == 0,
            w.entities_tmp@.len() == 0,
            w.config == config,
            w.wf(),
    {
        World { entities: Vec::new(), entities_tmp: Vec::new(), config }
    }

    /// How many entities the world holds, active and pending together
    /// (stuck at the top of `usize` instead of overflowing).
    pub fn size(&self) -> (n: usize)
        ensures
            self.entities@.len() + self.entities_tmp@.len() <= usize::MAX ==> n == self.entities@.len()
                + self.entities_tmp@.len(),
            self.entities@.len() + self.entities_tmp@.len() > usize::MAX ==> n == usize::MAX,
    {
        let a: usize = self.entities.len();
        let b: usize = self.entities_tmp.len();
        if a > usize::MAX - b {
            usize::MAX
        } else {
            a + b
        }
    }

    /// Queues an entity for the next frame: it joins the pending buffer,
    /// and is invisible to this frame's update, collision and draw
    /// passes.
    pub fn add(&mut self, entity: Entity)
        requires
            old(self).wf(),
            entity.wf(),
        ensures
            final(self).entities@ == old(self).entities@,
            final(self).entities_tmp@ == old(self).entities_tmp@.push(entity),
            final(self).config == old(self).config,
            final(self).wf(),
    {
        self.entities_tmp.push(entity);
    }

    /// Empties the active set; the pending buffer is untouched.
    pub fn clear(&mut self)
        ensures
            final(self).entities@.len() == 0,
            final(self).entities_tmp@ == old(self).entities_tmp@,
            final(self).config == old(self).config,
            old(self).wf() ==> final(self).wf(),
    {
        self.entities.clear();
    }

    /// Merges the pending buffer into the active set, in order, at the
    /// start of a frame.
    fn flush_pending(&mut self)
        requires
            old(self).wf(),
        ensures
            final(self).entities@ == old(self).entities@ + old(self).entities_tmp@,
            final(self).entities_tmp@.len() == 0,
            final(self).config == old(self).config,
            final(self).wf(),
    {
        self.entities.append(&mut self.entities_tmp);
        proof {
            assert forall|i: int| 0 <= i < self.entities@.len() implies (
            #[trigger] self.entities@[i]).wf() by {
                if i < old(self).entities@.len() {
                    assert(self.entities@[i] == old(self).entities@[i]);
                } else {
                    assert(self.entities@[i] == old(self).entities_tmp@[i - old(self).entities@.len()]);
                }
            }
        }
    }
}


/// The shot an executed spawn action adds to the pending buffer.
pub open spec fn spec_spawned_shoot(
    config: SpawnConfig,
    position: Vec2i,
    rotation: i64,
    velocity: Vec2i,
    origin: ShootType,
) -> Entity {
    Entity::Shoot(
        Shoot {
            duration: SHOOT_DURATION,
            data: Data { alive: true, position, impulse: velocity, extent: config.shoot_extent },
            rotation,
            type_: origin,
        },
    )
}

/// A fragment of a split meteor: a live meteor of the given tier at the
/// parent's position, with the tier's extent, drifting in some direction
/// no faster than the base meteor speed.
pub open spec fn spec_is_fragment(
    e: Entity,
    config: SpawnConfig,
    size: MeteorSize,
    position: Vec2i,
) -> bool {
    match e {
        Entity::Meteor(m) => {
            &&& m.size == size
            &&& m.data.alive
            &&& m.data.position == position
            &&& m.data.extent == config.spec_meteor_extent(size)
            &&& -METEOR_SPEED * MILLI <= m.data.impulse.x <= METEOR_SPEED * MILLI
            &&& -METEOR_SPEED * MILLI <= m.data.impulse.y <= METEOR_SPEED * MILLI
            &&& METEOR_SPEED * (MILLI - DIR_TOLERANCE) * (METEOR_SPEED * (MILLI - DIR_TOLERANCE))
                <= m.data.impulse.x * m.data.impulse.x + m.data.impulse.y * m.data.impulse.y
                <= METEOR_SPEED * MILLI * (METEOR_SPEED * MILLI)
        },
        _ => false,
    }
}

/// The deferred actions among `acts` that were produced, in order.
pub open spec fn spec_somes(acts: Seq<Option<DeferredAction>>) -> Seq<DeferredAction>
    decreases acts.len(),
{
    if acts.len() == 0 {
        Seq::empty()
    } else {
        let rest = spec_somes(acts.drop_last());
        match acts.last() {
            Some(a) => rest.push(a),
            None => rest,
        }
    }
}

/// How many entities executing one action appends to the pending buffer.
pub open spec fn spec_spawn_count(a: DeferredAction) -> int {
    match a {
        DeferredAction::SpawnShoot { .. } => 1,
        DeferredAction::SpawnMeteors { size, count, position } => match spec_split_size(size) {
            None => 0,
            Some(_) => count as int,
        },
    }
}

/// What executing one action appends to the pending buffer: the one shot
/// a spawn-shot action names, or a split's fragments.
pub open spec fn spec_action_spawns(a: DeferredAction, s: Seq<Entity>, config: SpawnConfig) -> bool {
    match a {
        DeferredAction::SpawnShoot { position, rotation, velocity, origin } => s.len() == 1 && s[0]
            == spec_spawned_shoot(config, position, rotation, velocity, origin),
        DeferredAction::SpawnMeteors { size, count, position } => match spec_split_size(size) {
            None => s.len() == 0,
            Some(next) => s.len() == count && forall|i: int|
                0 <= i < s.len() ==> spec_is_fragment(#[trigger] s[i], config, next, position),
        },
    }
}

/// `spawned` is exactly what executing `actions` in order appends to the
/// pending buffer: each action's spawns in turn, nothing else.
pub open spec fn spec_spawns_match(
    actions: Seq<DeferredAction>,
    spawned: Seq<Entity>,
    config: SpawnConfig,
) -> bool
    decreases actions.len(),
{
    if actions.len() == 0 {
        spawned.len() == 0
    } else {
        let n = spec_spawn_count(actions[0]);
        &&& n <= spawned.len()
        &&& spec_action_spawns(actions[0], spawned.take(n), config)
        &&& spec_spawns_match(actions.drop_first(), spawned.skip(n), config)
    }
}

/// Executing one more action extends a matching spawn record.
proof fn lemma_spawns_match_push(
    actions: Seq<DeferredAction>,
    spawned: Seq<Entity>,
    a: DeferredAction,
    s: Seq<Entity>,
    config: SpawnConfig,
)
    requires
        spec_spawns_match(actions, spawned, config),
        spec_action_spawns(a, s, config),
        s.len() == spec_spawn_count(a),
    ensures
        spec_spawns_match(actions.push(a), spawned + s, config),
    decreases actions.len(),
{
    if actions.len() == 0 {
        assert(actions.push(a)[0] == a);
        assert(spawned + s =~= s);
        assert((spawned + s).take(spec_spawn_count(a)) =~= s);
        assert((spawned + s).skip(spec_spawn_count(a)) =~= Seq::<Entity>::empty());
        assert(actions.push(a).drop_first() =~= Seq::<DeferredAction>::empty());
        assert(spec_spawns_match(actions.push(a).drop_first(), (spawned + s).skip(spec_spawn_count(a)), config));
    } else {
        let n = spec_spawn_count(actions[0]);
        assert(actions.push(a)[0] == actions[0]);
        assert((spawned + s).take(n) =~= spawned.take(n));
        assert(actions.push(a).drop_first() =~= actions.drop_first().push(a));
        assert((spawned + s).skip(n) =~= spawned.skip(n) + s);
        lemma_spawns_match_push(actions.drop_first(), spawned.skip(n), a, s, config);
        assert(spec_spawns_match(actions.push(a).drop_first(), (spawned + s).skip(n), config));
    }
}

/// Matching spawn records concatenate.
proof fn lemma_spawns_match_concat(
    x: Seq<DeferredAction>,
    sx: Seq<Entity>,
    y: Seq<DeferredAction>,
    sy: Seq<Entity>,
    config: SpawnConfig,
)
    requires
        spec_spawns_match(x, sx, config),
        spec_spawns_match(y, sy, config),
    ensures
        spec_spawns_match(x + y, sx + sy, config),
    decreases x.len(),
{
    if x.len() == 0 {
        assert(x + y =~= y);
        assert(sx + sy =~= sy);
    } else {
        let n = spec_spawn_count(x[0]);
        assert((x + y)[0] == x[0]);
        assert((sx + sy).take(n) =~= sx.take(n));
        assert((x + y).drop_first() =~= x.drop_first() + y);
        assert((sx + sy).skip(n) =~= sx.skip(n) + sy);
        lemma_spawns_match_concat(x.drop_first(), sx.skip(n), y, sy, config);
    }
}

impl World {
    /// Executes one deferred action: the spawned entities join the
    /// pending buffer, never this frame's active set.
    fn execute_action(&mut self, action: DeferredAction)
        requires
            old(self).wf(),
            spec_action_wf(action),
        ensures
            final(self).wf(),
            final(self).entities@ == old(self).entities@,
            final(self).config == old(self).config,
            match action {
                DeferredAction::SpawnShoot { position, rotation, velocity, origin } => final(self).entities_tmp@ == old(self).entities_tmp@.push(
                    spec_spawned_shoot(old(self).config, position, rotation, velocity, origin),
                ),
                DeferredAction::SpawnMeteors { size, count, position } => match spec_split_size(
                    size,
                ) {
                    None => final(self).entities_tmp@ == old(self).entities_tmp@,
                    Some(next) => {
                        &&& final(self).entities_tmp@.len() == old(self).entities_tmp@.len()
                            + count
                        &&& forall|i: int|
                            0 <= i < old(self).entities_tmp@.len() ==> final(self).entities_tmp@[i]
                                == old(self).entities_tmp@[i]
                        &&& forall|i: int|
                            old(self).entities_tmp@.len() <= i < final(self).entities_tmp@.len()
                                ==> spec_is_fragment(
                                #[trigger] final(self).entities_tmp@[i],
                                old(self).config,
                                next,
                                position,
                            )
                    },
                },
            },
    {
        match action {
            DeferredAction::SpawnShoot { position, rotation, velocity, origin } => {
                let s = Shoot::new(self.config.shoot_extent, rotation, position, velocity, origin);
                self.add(Entity::Shoot(s));
            },
            DeferredAction::SpawnMeteors { size, count, position } => {
                if let Some(next) = split_size(size) {
                    let ext = self.config.meteor_extent(next);
                    let ghost tmp0 = self.entities_tmp@;
                    let ghost ents0 = self.entities@;
                    let ghost config0 = self.config;
                    let mut i: u32 = 0;
                    while i < count
                        invariant
                            i <= count,
                            count <= 3,
                            self.wf(),
                            ext == config0.spec_meteor_extent(next),
                            -POS_LIMIT <= position.x <= POS_LIMIT,
                            -POS_LIMIT <= position.y <= POS_LIMIT,
                            self.entities@ == ents0,
                            self.config == config0,
                            self.entities_tmp@.len() == tmp0.len() + i,
                            forall|k: int| 0 <= k < tmp0.len() ==> self.entities_tmp@[k] == tmp0[k],
                            forall|k: int|
                                tmp0.len() <= k < self.entities_tmp@.len() ==> spec_is_fragment(
                                    #[trigger] self.entities_tmp@[k],
                                    config0,
                                    next,
                                    position,
                                ),
                        decreases count - i,
                    {
                        let dir = random_dir();
                        let mut m = Meteor::new(ext, next, dir);
                        m.data.position = position;
                        proof {
                            assert(METEOR_SPEED * (MILLI - DIR_TOLERANCE) * (METEOR_SPEED * (MILLI
                                - DIR_TOLERANCE)) <= (dir.x * METEOR_SPEED) * (dir.x * METEOR_SPEED)
                                + (dir.y * METEOR_SPEED) * (dir.y * METEOR_SPEED) <= METEOR_SPEED
                                * MILLI * (METEOR_SPEED * MILLI)) by (nonlinear_arith)
                                requires
                                    (MILLI - DIR_TOLERANCE) * (MILLI - DIR_TOLERANCE) <= dir.x
                                        * dir.x + dir.y * dir.y <= MILLI * MILLI,
                                    METEOR_SPEED == 30,
                            ;
                        }
                        self.add(Entity::Meteor(m));
                        i = i + 1;
                    }
                }
            },
        }
    }

    /// What one executed action appended to the pending buffer is exactly
    /// that action's spawns.
    proof fn lemma_segment_spawns(
        a: DeferredAction,
        pre: Seq<Entity>,
        post: Seq<Entity>,
        config: SpawnConfig,
    )
        requires
            match a {
                DeferredAction::SpawnShoot { position, rotation, velocity, origin } => post
                    == pre.push(spec_spawned_shoot(config, position, rotation, velocity, origin)),
                DeferredAction::SpawnMeteors { size, count, position } => match spec_split_size(
                    size,
                ) {
                    None => post == pre,
                    Some(next) => {
                        &&& post.len() == pre.len() + count
                        &&& forall|i: int| 0 <= i < pre.len() ==> post[i] == pre[i]
                        &&& forall|i: int|
                            pre.len() <= i < post.len() ==> spec_is_fragment(
                                #[trigger] post[i],
                                config,
                                next,
                                position,
                            )
                    },
                },
            },
        ensures
            pre.len() <= post.len(),
            forall|i: int| 0 <= i < pre.len() ==> post[i] == pre[i],
            post.skip(pre.len() as int).len() == spec_spawn_count(a),
            spec_action_spawns(a, post.skip(pre.len() as int), config),
    {
        let s = post.skip(pre.len() as int);
        match a {
            DeferredAction::SpawnShoot { position, rotation, velocity, origin } => {
                assert(s.len() == 1);
                assert(s[0] == post[pre.len() as int]);
            },
            DeferredAction::SpawnMeteors { size, count, position } => {
                if let Some(next) = spec_split_size(size) {
                    assert forall|i: int| 0 <= i < s.len() implies spec_is_fragment(
                        #[trigger] s[i],
                        config,
                        next,
                        position,
                    ) by {
                        assert(s[i] == post[pre.len() + i]);
                    }
                }
            },
        }
    }

    /// Executes the deferred actions the update pass collected, in the
    /// order they were collected.
    fn execute_actions(&mut self, actions: &Vec<DeferredAction>)
        requires
            old(self).wf(),
            forall|k: int| 0 <= k < actions@.len() ==> spec_action_wf(#[trigger] actions@[k]),
        ensures
            final(self).wf(),
            final(self).entities@ == old(self).entities@,
            final(self).config == old(self).config,
            final(self).entities_tmp@.len() >= old(self).entities_tmp@.len(),
            forall|i: int|
                0 <= i < old(self).entities_tmp@.len() ==> final(self).entities_tmp@[i] == old(self).entities_tmp@[i],
            spec_spawns_match(
                actions@,
                final(self).entities_tmp@.skip(old(self).entities_tmp@.len() as int),
                old(self).config,
            ),
    {
        let ghost tmp0 = self.entities_tmp@;
        let ghost ents0 = self.entities@;
        let ghost config0 = self.config;
        proof {
            assert(self.entities_tmp@.skip(tmp0.len() as int) =~= Seq::<Entity>::empty());
        }
        let mut k: usize = 0;
        while k < actions.len()
            invariant
                k <= actions@.len(),
                forall|j: int| 0 <= j < actions@.len() ==> spec_action_wf(#[trigger] actions@[j]),
                self.wf(),
                self.entities@ == ents0,
                self.config == config0,
                self.entities_tmp@.len() >= tmp0.len(),
                forall|i: int| 0 <= i < tmp0.len() ==> self.entities_tmp@[i] == tmp0[i],
                spec_spawns_match(
                    actions@.take(k as int),
                    self.entities_tmp@.skip(tmp0.len() as int),
                    config0,
                ),
            decreases actions@.len() - k,
        {
            let ghost tprev = self.entities_tmp@;
            self.execute_action(actions[k]);
            proof {
                Self::lemma_segment_spawns(
                    actions@[k as int],
                    tprev,
                    self.entities_tmp@,
                    config0,
                );
                let seg = self.entities_tmp@.skip(tprev.len() as int);
                let spawned_prev = tprev.skip(tmp0.len() as int);
                assert(self.entities_tmp@.skip(tmp0.len() as int) =~= spawned_prev + seg);
                lemma_spawns_match_push(
                    actions@.take(k as int),
                    spawned_prev,
                    actions@[k as int],
                    seg,
                    config0,
                );
                assert(actions@.take(k as int + 1) =~= actions@.take(k as int).push(
                    actions@[k as int],
                ));
            }
            k = k + 1;
        }
        proof {
            assert(actions@.take(actions@.len() as int) =~= actions@);
        }
    }
}


/// An entity after the wrap pass: its position pulled back into the
/// screen band in each axis independently, everything else untouched.
pub open spec fn spec_wrapped_entity(e: Entity, screen: Screen) -> Entity {
    e.spec_with_position(
        Vec2i {
            x: spec_wrap_coord(
                e.spec_data().position.x as int,
                e.spec_data().extent.w as int,
                screen.w as int,
            ) as i64,
            y: spec_wrap_coord(
                e.spec_data().position.y as int,
                e.spec_data().extent.h as int,
                screen.h as int,
            ) as i64,
        },
    )
}

/// Every entity of `post` is `pre`'s entity at the same index taken one
/// frame further, with `acts` the per-index deferred actions produced.
pub open spec fn spec_updated_all(
    pre: Seq<Entity>,
    post: Seq<Entity>,
    acts: Seq<Option<DeferredAction>>,
    dt: u32,
    input: PlayerInput,
    screen: Screen,
) -> bool {
    &&& post.len() == pre.len()
    &&& acts.len() == pre.len()
    &&& forall|j: int|
        0 <= j < pre.len() ==> Entity::spec_update_rel(
            pre[j],
            post[j],
            #[trigger] acts[j],
            dt,
            input,
            screen,
        )
}

impl World {
    /// The update pass: every active entity takes one frame, in index
    /// order; the deferred actions they return are collected in order.
    fn update_pass(&mut self, dt: u32, input: &PlayerInput, screen: Screen) -> (actions: Vec<
        DeferredAction,
    >)
        requires
            old(self).wf(),
            dt <= DT_LIMIT,
            input.wf(),
            screen.wf(),
        ensures
            final(self).wf(),
            final(self).entities@.len() == old(self).entities@.len(),
            final(self).entities_tmp@ == old(self).entities_tmp@,
            final(self).config == old(self).config,
            exists|acts: Seq<Option<DeferredAction>>|
                #![trigger spec_updated_all(
                    old(self).entities@,
                    final(self).entities@,
                    acts,
                    dt,
                    *input,
                    screen,
                )]
                {
                    &&& spec_updated_all(
                        old(self).entities@,
                        final(self).entities@,
                        acts,
                        dt,
                        *input,
                        screen,
                    )
                    &&& actions@ == spec_somes(acts)
                },
            forall|k: int| 0 <= k < actions@.len() ==> spec_action_wf(#[trigger] actions@[k]),
    {
        let ghost ents0 = self.entities@;
        let ghost tmp0 = self.entities_tmp@;
        let ghost config0 = self.config;
        let ghost mut acts: Seq<Option<DeferredAction>> = Seq::empty();
        let mut actions: Vec<DeferredAction> = Vec::new();
        let mut i: usize = 0;
        while i < self.entities.len()
            invariant
                i <= self.entities@.len(),
                self.entities@.len() == ents0.len(),
                acts.len() == i,
                dt <= DT_LIMIT,
                input.wf(),
                screen.wf(),
                self.wf(),
                self.entities_tmp@ == tmp0,
                self.config == config0,
                forall|j: int| i <= j < ents0.len() ==> self.entities@[j] == ents0[j],
                forall|j: int|
                    0 <= j < i ==> Entity::spec_update_rel(
                        ents0[j],
                        self.entities@[j],
                        #[trigger] acts[j],
                        dt,
                        *input,
                        screen,
                    ),
                actions@ == spec_somes(acts),
                forall|k: int| 0 <= k < actions@.len() ==> spec_action_wf(#[trigger] actions@[k]),
            decreases self.entities@.len() - i,
        {
            let mut e = self.entities[i];
            let a = e.update(dt, input, screen);
            let ghost prev = self.entities@;
            self.entities[i] = e;
            proof {
                lemma_update_action_wf(ents0[i as int], e, a, dt, *input, screen);
                let acts_prev = acts;
                acts = acts.push(a);
                assert(acts.drop_last() =~= acts_prev);
                assert(acts.last() == a);
                assert forall|j: int| 0 <= j < i + 1 implies Entity::spec_update_rel(
                    ents0[j],
                    self.entities@[j],
                    #[trigger] acts[j],
                    dt,
                    *input,
                    screen,
                ) by {
                    if j < i as int {
                        assert(self.entities@[j] == prev[j]);
                    }
                }
            }
            if let Some(action) = a {
                actions.push(action);
            }
            i = i + 1;
        }
        proof {
            assert(spec_updated_all(ents0, self.entities@, acts, dt, *input, screen));
        }
        actions
    }

    /// The wrap pass: every active entity's position is pulled back into
    /// the screen band, the one place boundary wrapping happens for all
    /// kinds uniformly.
    fn wrap_pass(&mut self, screen: Screen)
        requires
            old(self).wf(),
            screen.wf(),
        ensures
            final(self).wf(),
            final(self).entities@.len() == old(self).entities@.len(),
            final(self).entities_tmp@ == old(self).entities_tmp@,
            final(self).config == old(self).config,
            forall|j: int|
                0 <= j < old(self).entities@.len() ==> final(self).entities@[j]
                    == spec_wrapped_entity(#[trigger] old(self).entities@[j], screen),
            all_in_band(final(self).entities@),
    {
        let ghost ents0 = self.entities@;
        let ghost tmp0 = self.entities_tmp@;
        let ghost config0 = self.config;
        let mut i: usize = 0;
        while i < self.entities.len()
            invariant
                i <= self.entities@.len(),
                self.entities@.len() == ents0.len(),
                screen.wf(),
                self.wf(),
                self.entities_tmp@ == tmp0,
                self.config == config0,
                forall|j: int| i <= j < ents0.len() ==> self.entities@[j] == ents0[j],
                forall|j: int|
                    0 <= j < i ==> self.entities@[j] == spec_wrapped_entity(
                        #[trigger] ents0[j],
                        screen,
                    ),
                forall|j: int|
                    0 <= j < i ==> (#[trigger] self.entities@[j]).spec_data().in_band(),
            decreases self.entities@.len() - i,
        {
            let mut e = self.entities[i];
            let d: Data = *e.get_data();
            let nx: i64 = wrap_coord(d.position.x, d.extent.w, screen.w);
            let ny: i64 = wrap_coord(d.position.y, d.extent.h, screen.h);
            e.set_position(Vec2i { x: nx, y: ny });
            self.entities[i] = e;
            i = i + 1;
        }
    }
}


/// Index `m` was recorded for a reason: its entity is alive and its
/// collision predicate holds against some other entity.
pub open spec fn spec_mark_reason(s: Seq<Entity>, m: int) -> bool {
    &&& 0 <= m < s.len()
    &&& s[m].spec_alive()
    &&& exists|j: int| 0 <= j < s.len() && j != m && spec_collides(s[m], #[trigger] s[j])
}

/// Index `i` occurs among the recorded marks.
pub open spec fn spec_marked(marks: Seq<usize>, i: int) -> bool {
    exists|k: int| 0 <= k < marks.len() && (#[trigger] marks[k]) as int == i
}

/// Both directions of one unordered pair have been tested and recorded.
pub open spec fn spec_pair_done(s: Seq<Entity>, marks: Seq<usize>, a: int, b: int) -> bool {
    &&& (s[a].spec_alive() && spec_collides(s[a], s[b]) ==> spec_marked(marks, a))
    &&& (s[b].spec_alive() && spec_collides(s[b], s[a]) ==> spec_marked(marks, b))
}

/// A recorded mark stays recorded when more marks are appended.
proof fn lemma_marked_mono(marks1: Seq<usize>, marks2: Seq<usize>, i: int)
    requires
        spec_marked(marks1, i),
        marks1.len() <= marks2.len(),
        forall|k: int| 0 <= k < marks1.len() ==> marks1[k] == marks2[k],
    ensures
        spec_marked(marks2, i),
{
    let k = choose|k: int| 0 <= k < marks1.len() && (#[trigger] marks1[k]) as int == i;
    assert(0 <= k < marks2.len() && marks2[k] as int == i);
}

/// A finished pair stays finished when more marks are appended.
proof fn lemma_pair_done_mono(
    s: Seq<Entity>,
    marks1: Seq<usize>,
    marks2: Seq<usize>,
    a: int,
    b: int,
)
    requires
        spec_pair_done(s, marks1, a, b),
        marks1.len() <= marks2.len(),
        forall|k: int| 0 <= k < marks1.len() ==> marks1[k] == marks2[k],
    ensures
        spec_pair_done(s, marks2, a, b),
{
    if s[a].spec_alive() && spec_collides(s[a], s[b]) {
        lemma_marked_mono(marks1, marks2, a);
    }
    if s[b].spec_alive() && spec_collides(s[b], s[a]) {
        lemma_marked_mono(marks1, marks2, b);
    }
}

impl World {
    /// The collision pass: tests both directions of every unordered pair
    /// of active entities and records the index of each entity whose own
    /// collision predicate held — possibly several times, once per pair
    /// it took part in. Read-only.
    fn collision_pass(&self) -> (marks: Vec<usize>)
        requires
            self.wf(),
            all_in_band(self.entities@),
        ensures
            forall|k: int|
                0 <= k < marks@.len() ==> spec_mark_reason(
                    self.entities@,
                    (#[trigger] marks@[k]) as int,
                ),
            forall|i: int, j: int|
                0 <= i < self.entities@.len() && 0 <= j < self.entities@.len() && i != j
                    && self.entities@[i].spec_alive() && spec_collides(
                    #[trigger] self.entities@[i],
                    #[trigger] self.entities@[j],
                ) ==> spec_marked(marks@, i),
    {
        let ghost s = self.entities@;
        let n: usize = self.entities.len();
        let mut marks: Vec<usize> = Vec::new();
        let mut i: usize = 0;
        while i < n
            invariant
                n == s.len(),
                i <= n,
                self.wf(),
                all_in_band(self.entities@),
                self.entities@ == s,
                forall|k: int|
                    0 <= k < marks@.len() ==> spec_mark_reason(s, (#[trigger] marks@[k]) as int),
                forall|a: int, b: int|
                    0 <= a < b < s.len() && a < i ==> #[trigger] spec_pair_done(s, marks@, a, b),
            decreases n - i,
        {
            let mut j: usize = i + 1;
            while j < n
                invariant
                    n == s.len(),
                    i < n,
                    i + 1 <= j <= n,
                    self.wf(),
                    all_in_band(self.entities@),
                    self.entities@ == s,
                    forall|k: int|
                        0 <= k < marks@.len() ==> spec_mark_reason(
                            s,
                            (#[trigger] marks@[k]) as int,
                        ),
                    forall|a: int, b: int|
                        0 <= a < b < s.len() && a < i ==> #[trigger] spec_pair_done(
                            s,
                            marks@,
                            a,
                            b,
                        ),
                    forall|b: int|
                        i < b < j ==> #[trigger] spec_pair_done(s, marks@, i as int, b),
                decreases n - j,
            {
                let ghost marks0 = marks@;
                let hit_i: bool = self.entities[i].is_alive() && self.entities[i].is_collide(
                    &self.entities[j],
                );
                if hit_i {
                    marks.push(i);
                }
                let hit_j: bool = self.entities[j].is_alive() && self.entities[j].is_collide(
                    &self.entities[i],
                );
                if hit_j {
                    marks.push(j);
                }
                proof {
                    if hit_i {
                        assert(spec_mark_reason(s, i as int)) by {
                            assert(spec_collides(s[i as int], s[j as int]));
                        }
                        assert(spec_marked(marks@, i as int)) by {
                            let k = marks0.len() as int;
                            assert(marks@[k] as int == i as int);
                        }
                    }
                    if hit_j {
                        assert(spec_mark_reason(s, j as int)) by {
                            assert(spec_collides(s[j as int], s[i as int]));
                        }
                        assert(spec_marked(marks@, j as int)) by {
                            let k = marks@.len() - 1;
                            assert(marks@[k] as int == j as int);
                        }
                    }
                    assert forall|a: int, b: int|
                        0 <= a < b < s.len() && a < i implies #[trigger] spec_pair_done(
                        s,
                        marks@,
                        a,
                        b,
                    ) by {
                        lemma_pair_done_mono(s, marks0, marks@, a, b);
                    }
                    assert forall|b: int| i < b < j + 1 implies #[trigger] spec_pair_done(
                        s,
                        marks@,
                        i as int,
                        b,
                    ) by {
                        if b < j as int {
                            lemma_pair_done_mono(s, marks0, marks@, i as int, b);
                        } else {
                            assert(spec_pair_done(s, marks@, i as int, j as int));
                        }
                    }
                }
                j = j + 1;
            }
            proof {
                assert forall|a: int, b: int|
                    0 <= a < b < s.len() && a < i + 1 implies #[trigger] spec_pair_done(
                    s,
                    marks@,
                    a,
                    b,
                ) by {
                    if a == i as int {
                        assert(spec_pair_done(s, marks@, i as int, b));
                    }
                }
            }
            i = i + 1;
        }
        proof {
            assert forall|a: int, b: int|
                0 <= a < s.len() && 0 <= b < s.len() && a != b && s[a].spec_alive()
                    && spec_collides(#[trigger] s[a], #[trigger] s[b]) implies spec_marked(
                marks@,
                a,
            ) by {
                if a < b {
                    assert(spec_pair_done(s, marks@, a, b));
                } else {
                    assert(spec_pair_done(s, marks@, b, a));
                }
            }
        }
        marks
    }
}


/// A ship whose grace period is spent: the next recorded hit costs a
/// life.
pub open spec fn spec_player_grace_expired(e: Entity) -> bool {
    match e {
        Entity::Player(p) => p.last_touch > GRACE_PERIOD,
        _ => false,
    }
}

/// How many ships a sequence holds.
pub open spec fn spec_count_players(s: Seq<Entity>) -> int
    decreases s.len(),
{
    if s.len() == 0 {
        0
    } else {
        spec_count_players(s.drop_last()) + (if s.last() is Player {
            1int
        } else {
            0int
        })
    }
}

pub proof fn lemma_count_players_nonneg(s: Seq<Entity>)
    ensures
        spec_count_players(s) >= 0,
    decreases s.len(),
{
    if s.len() > 0 {
        lemma_count_players_nonneg(s.drop_last());
    }
}

/// A sequence holding a ship counts at least one.
proof fn lemma_count_players_pos(s: Seq<Entity>, i: int)
    requires
        0 <= i < s.len(),
        s[i] is Player,
    ensures
        spec_count_players(s) >= 1,
    decreases s.len(),
{
    lemma_count_players_nonneg(s.drop_last());
    if i < s.len() - 1 {
        lemma_count_players_pos(s.drop_last(), i);
    }
}

/// A sequence holding two ships counts at least two.
proof fn lemma_two_players_counted(s: Seq<Entity>, i: int, j: int)
    requires
        0 <= i < j < s.len(),
        s[i] is Player,
        s[j] is Player,
    ensures
        spec_count_players(s) >= 2,
    decreases s.len(),
{
    if j == s.len() - 1 {
        lemma_count_players_pos(s.drop_last(), i);
    } else {
        lemma_two_players_counted(s.drop_last(), i, j);
    }
}

/// How many meteors a sequence holds.
pub open spec fn spec_count_meteors(s: Seq<Entity>) -> int
    decreases s.len(),
{
    if s.len() == 0 {
        0
    } else {
        spec_count_meteors(s.drop_last()) + (if s.last() is Meteor {
            1int
        } else {
            0int
        })
    }
}

/// How many live meteors a sequence holds.
pub open spec fn spec_count_live_meteors(s: Seq<Entity>) -> int
    decreases s.len(),
{
    if s.len() == 0 {
        0
    } else {
        spec_count_live_meteors(s.drop_last()) + (if s.last() is Meteor
            && s.last().spec_alive() {
            1int
        } else {
            0int
        })
    }
}

/// The removal pass keeps exactly the live meteors.
pub proof fn lemma_survivor_meteors(s: Seq<Entity>)
    ensures
        spec_count_meteors(spec_survivors(s)) == spec_count_live_meteors(s),
    decreases s.len(),
{
    if s.len() > 0 {
        lemma_survivor_meteors(s.drop_last());
        if s.last().spec_alive() {
            let rest = spec_survivors(s.drop_last());
            assert(rest.push(s.last()).drop_last() =~= rest);
            assert(rest.push(s.last()).last() == s.last());
        }
    }
}

/// Changing one entity of a sequence moves the live-meteor count by
/// exactly that entity's contribution.
proof fn lemma_live_meteors_one_change(a: Seq<Entity>, b: Seq<Entity>, i: int)
    requires
        a.len() == b.len(),
        0 <= i < a.len(),
        forall|j: int| 0 <= j < a.len() && j != i ==> a[j] == b[j],
    ensures
        spec_count_live_meteors(b) == spec_count_live_meteors(a) - (if a[i] is Meteor
            && a[i].spec_alive() {
            1int
        } else {
            0int
        }) + (if b[i] is Meteor && b[i].spec_alive() {
            1int
        } else {
            0int
        }),
    decreases a.len(),
{
    if i == a.len() - 1 {
        assert(a.drop_last() =~= b.drop_last());
    } else {
        lemma_live_meteors_one_change(a.drop_last(), b.drop_last(), i);
        assert(a.last() == b.last());
    }
}

/// A sequence of meteors counts its own length.
proof fn lemma_count_meteors_all(s: Seq<Entity>)
    requires
        forall|j: int| 0 <= j < s.len() ==> (#[trigger] s[j]) is Meteor,
    ensures
        spec_count_meteors(s) == s.len(),
    decreases s.len(),
{
    if s.len() > 0 {
        lemma_count_meteors_all(s.drop_last());
    }
}

/// Law: a frame that destroys exactly one meteor — the wrapped entity at
/// index `i`, with everything else left as it stood — ends with one live
/// meteor fewer in the swept active set, and that meteor's fragments in
/// the pending spawns: 2 or 3 of the next tier for a Big or Medium
/// meteor, none for a Small one. So the meteor population, active and
/// pending together, grows at the Big and Medium tiers and strictly
/// decreases only at the Small tier.
pub proof fn lemma_meteor_population_change(
    wrapped: Seq<Entity>,
    mid: Seq<Entity>,
    i: int,
    m: Meteor,
    count: u32,
    spawned: Seq<Entity>,
    config: SpawnConfig,
)
    requires
        mid.len() == wrapped.len(),
        0 <= i < wrapped.len(),
        wrapped[i] == Entity::Meteor(m),
        m.data.alive,
        mid[i] == Entity::Meteor(Meteor { data: Data { alive: false, ..m.data }, ..m }),
        forall|j: int| 0 <= j < wrapped.len() && j != i ==> wrapped[j] == mid[j],
        2 <= count <= 3,
        spec_spawns_match(
            seq![
                DeferredAction::SpawnMeteors {
                    size: m.size,
                    count: count,
                    position: m.data.position,
                },
            ],
            spawned,
            config,
        ),
    ensures
        spec_count_meteors(spec_survivors(mid)) == spec_count_live_meteors(wrapped) - 1,
        spec_count_meteors(spawned) == (match spec_split_size(m.size) {
            None => 0int,
            Some(_) => count as int,
        }),
        m.size == MeteorSize::Small ==> spec_count_meteors(spec_survivors(mid))
            + spec_count_meteors(spawned) == spec_count_live_meteors(wrapped) - 1,
        m.size != MeteorSize::Small ==> spec_count_meteors(spec_survivors(mid))
            + spec_count_meteors(spawned) >= spec_count_live_meteors(wrapped) + 1,
{
    lemma_survivor_meteors(mid);
    lemma_live_meteors_one_change(wrapped, mid, i);
    let a = DeferredAction::SpawnMeteors { size: m.size, count: count, position: m.data.position };
    let actions = seq![a];
    let n = spec_spawn_count(a);
    assert(actions[0] == a);
    assert(actions.len() == 1);
    assert(spec_spawns_match(actions.drop_first(), spawned.skip(n), config));
    assert(actions.drop_first() =~= Seq::<DeferredAction>::empty());
    assert(actions.drop_first().len() == 0);
    assert(spawned.skip(n).len() == 0);
    assert(spawned.len() == n);
    assert(spawned.take(n) =~= spawned);
    match spec_split_size(m.size) {
        None => {
            assert(spec_count_meteors(spawned) == 0);
        },
        Some(next) => {
            assert forall|j: int| 0 <= j < spawned.len() implies (#[trigger] spawned[j])
                is Meteor by {
                assert(spec_is_fragment(spawned[j], config, next, m.data.position));
            }
            lemma_count_meteors_all(spawned);
        },
    }
}

/// How an entity may stand after the destruction pass relative to before:
/// untouched, or acted on by `on_destroy` once or more — which can only
/// reset the ship's grace timer, or mark a shot or meteor dead. Position,
/// impulse and extent never change.
pub open spec fn spec_destroy_evolved(a: Entity, b: Entity) -> bool {
    match (a, b) {
        (Entity::Player(p0), Entity::Player(p1)) => p1 == p0 || p1 == (Player {
            last_touch: 0u32,
            ..p0
        }),
        (Entity::Shoot(s0), Entity::Shoot(s1)) => s1 == s0 || s1 == (Shoot {
            data: Data { alive: false, ..s0.data },
            ..s0
        }),
        (Entity::Meteor(m0), Entity::Meteor(m1)) => m1 == m0 || m1 == (Meteor {
            data: Data { alive: false, ..m0.data },
            ..m0
        }),
        _ => false,
    }
}

/// One more `on_destroy` keeps an entity within `spec_destroy_evolved` of
/// where it started.
proof fn lemma_destroy_evolved_step(
    e0: Entity,
    e1: Entity,
    e2: Entity,
    action: Option<DeferredAction>,
    l0: u8,
    l1: u8,
)
    requires
        spec_destroy_evolved(e0, e1),
        Entity::spec_destroy_rel(e1, e2, action, l0, l1),
    ensures
        spec_destroy_evolved(e0, e2),
{
}

/// The destruction pass moves no entity and keeps it well formed.
proof fn lemma_destroy_evolved_keeps(a: Entity, b: Entity)
    requires
        spec_destroy_evolved(a, b),
    ensures
        b.spec_data().position == a.spec_data().position,
        b.spec_data().extent == a.spec_data().extent,
        a.wf() ==> b.wf(),
        b.spec_alive() ==> a.spec_alive(),
{
}

/// Whatever action `on_destroy` of a well-formed entity produces is
/// within the bounds the world needs to execute it.
proof fn lemma_destroy_action_wf(
    pre: Entity,
    post: Entity,
    a: Option<DeferredAction>,
    l0: u8,
    l1: u8,
)
    requires
        Entity::spec_destroy_rel(pre, post, a, l0, l1),
        pre.wf(),
    ensures
        match a {
            Some(act) => spec_action_wf(act),
            None => true,
        },
{
}

/// How one frame of the world relates its state, the lives counter and
/// the returned points before and after: there are intermediate sequences
/// `upd` (every merged entity taken one frame further, with `acts` the
/// deferred actions produced), the wrapped form of `upd`, and `mid` (the
/// state after destruction), such that destruction touched an entity only
/// when a collision was recorded for it, destroyed every marked shot and
/// meteor, and cost a life exactly when a recorded hit caught a ship with
/// its grace period spent and lives remaining — by exactly one when the
/// world holds a single ship. The sweep kept exactly `mid`'s live
/// entities, the points are the dead meteors' summed values, and the
/// pending buffer afterwards holds exactly this frame's spawns.
pub open spec fn spec_world_frame(
    pre: World,
    post: World,
    lives_pre: u8,
    lives_post: u8,
    pts: u32,
    dt: u32,
    input: PlayerInput,
    screen: Screen,
) -> bool {
    &&& post.wf()
    &&& post.config == pre.config
    &&& lives_post <= lives_pre
    &&& (forall|j: int|
        0 <= j < post.entities@.len() ==> (#[trigger] post.entities@[j]).spec_alive())
    &&& all_in_band(post.entities@)
    &&& exists|upd: Seq<Entity>, acts: Seq<Option<DeferredAction>>, mid: Seq<Entity>|
        #![trigger spec_updated_all(
            pre.entities@ + pre.entities_tmp@,
            upd,
            acts,
            dt,
            input,
            screen,
        ), spec_survivors(mid)]
        {
            // every merged entity took one frame,
            &&& spec_updated_all(pre.entities@ + pre.entities_tmp@, upd, acts, dt, input, screen)
            &&& mid.len() == upd.len()
            // was wrapped, and was then at most destroyed —
            &&& forall|i: int|
                0 <= i < mid.len() ==> spec_destroy_evolved(
                    spec_wrapped_entity(upd[i], screen),
                    #[trigger] mid[i],
                )
            // only ever for a recorded collision —
            &&& forall|i: int|
                0 <= i < mid.len() && #[trigger] mid[i] != spec_wrapped_entity(upd[i], screen)
                    ==> spec_mark_reason(
                    upd.map(|k: int, e: Entity| spec_wrapped_entity(e, screen)),
                    i,
                )
            // while a recorded collision in fact destroys its shot or meteor —
            &&& forall|i: int|
                0 <= i < mid.len() && !(upd[i] is Player) && spec_mark_reason(
                    upd.map(|k: int, e: Entity| spec_wrapped_entity(e, screen)),
                    i,
                ) ==> !(#[trigger] mid[i]).spec_alive()
            // and costs a life exactly when it catches the ship with its
            // grace period spent and lives remaining —
            &&& ({
                let wrapped = upd.map(|k: int, e: Entity| spec_wrapped_entity(e, screen));
                let hit = exists|i: int|
                    0 <= i < wrapped.len() && #[trigger] spec_mark_reason(wrapped, i)
                        && spec_player_grace_expired(wrapped[i]);
                &&& (!(hit && lives_pre > 0) ==> lives_post == lives_pre)
                &&& ((hit && lives_pre > 0) ==> lives_post < lives_pre)
                &&& ((hit && lives_pre > 0 && spec_count_players(wrapped) <= 1) ==> lives_post
                    == (lives_pre - 1) as u8)
            })
            // the pending buffer holds exactly this frame's spawns: the
            // update pass's deferred actions' in order, then the
            // destruction pass's splits' fragments —
            &&& exists|acts_d: Seq<DeferredAction>|
                {
                    &&& #[trigger] spec_spawns_match(
                        spec_somes(acts) + acts_d,
                        post.entities_tmp@,
                        pre.config,
                    )
                    &&& forall|k2: int| 0 <= k2 < acts_d.len() ==> acts_d[k2] is SpawnMeteors
                }
            // and the sweep kept the live ones and scored the dead.
            &&& post.entities@ == spec_survivors(mid)
            &&& pts == spec_sat_points(spec_removed_points(mid))
        }
}

impl World {
    /// The destruction pass: every recorded index — duplicates included —
    /// has its entity's `on_destroy` called, and any deferred action it
    /// returns executed at once. Indices stay valid throughout because
    /// nothing is removed before the removal pass.
    fn destruction_pass(&mut self, marks: &Vec<usize>, lives: &mut u8)
        requires
            old(self).wf(),
            forall|k: int|
                0 <= k < marks@.len() ==> ((#[trigger] marks@[k]) as int) < old(self).entities@.len(),
        ensures
            final(self).wf(),
            final(self).entities@.len() == old(self).entities@.len(),
            final(self).config == old(self).config,
            *final(lives) <= *old(lives),
            ({
                let hit = exists|k2: int|
                    0 <= k2 < marks@.len() && spec_player_grace_expired(
                        old(self).entities@[(#[trigger] marks@[k2]) as int],
                    );
                &&& (!(hit && *old(lives) > 0) ==> *final(lives) == *old(lives))
                &&& ((hit && *old(lives) > 0) ==> *final(lives) < *old(lives))
                &&& ((hit && *old(lives) > 0 && spec_count_players(old(self).entities@) <= 1)
                    ==> *final(lives) == (*old(lives) - 1) as u8)
            }),
            forall|i: int|
                0 <= i < old(self).entities@.len() ==> spec_destroy_evolved(
                    old(self).entities@[i],
                    #[trigger] final(self).entities@[i],
                ),
            forall|i: int|
                0 <= i < old(self).entities@.len() && !spec_marked(marks@, i) ==> final(self).entities@[i] == old(self).entities@[i],
            forall|i: int|
                0 <= i < old(self).entities@.len() && spec_marked(marks@, i) && !(old(self).entities@[i] is Player) ==> !(#[trigger] final(self).entities@[i]).spec_alive(),
            forall|i: int|
                0 <= i < old(self).entities_tmp@.len() ==> final(self).entities_tmp@[i] == old(self).entities_tmp@[i],
            final(self).entities_tmp@.len() >= old(self).entities_tmp@.len(),
            exists|acts_d: Seq<DeferredAction>|
                {
                    &&& #[trigger] spec_spawns_match(
                        acts_d,
                        final(self).entities_tmp@.skip(old(self).entities_tmp@.len() as int),
                        old(self).config,
                    )
                    &&& forall|k2: int| 0 <= k2 < acts_d.len() ==> acts_d[k2] is SpawnMeteors
                },
    {
        let ghost ents0 = self.entities@;
        let ghost tmp0 = self.entities_tmp@;
        let ghost config0 = self.config;
        let ghost lives0 = *lives;
        let ghost mut acts_d: Seq<DeferredAction> = Seq::empty();
        proof {
            assert(self.entities_tmp@.skip(tmp0.len() as int) =~= Seq::<Entity>::empty());
        }
        let mut k: usize = 0;
        while k < marks.len()
            invariant
                k <= marks@.len(),
                self.wf(),
                self.entities@.len() == ents0.len(),
                self.config == config0,
                *lives <= lives0,
                forall|k2: int|
                    0 <= k2 < marks@.len() ==> ((#[trigger] marks@[k2]) as int) < ents0.len(),
                forall|i: int|
                    0 <= i < ents0.len() ==> spec_destroy_evolved(
                        ents0[i],
                        #[trigger] self.entities@[i],
                    ),
                forall|i: int|
                    0 <= i < ents0.len() && !spec_marked(marks@, i) ==> self.entities@[i]
                        == ents0[i],
                forall|k2: int|
                    #![trigger marks@[k2]]
                    0 <= k2 < k && !(ents0[marks@[k2] as int] is Player)
                        ==> !self.entities@[marks@[k2] as int].spec_alive(),
                (!(exists|k2: int|
                    0 <= k2 < k && spec_player_grace_expired(
                        ents0[(#[trigger] marks@[k2]) as int],
                    )) || lives0 == 0) ==> (*lives == lives0 && forall|i: int|
                    #![trigger ents0[i]]
                    0 <= i < ents0.len() && ents0[i] is Player ==> self.entities@[i] == ents0[i]),
                ((exists|k2: int|
                    0 <= k2 < k && spec_player_grace_expired(
                        ents0[(#[trigger] marks@[k2]) as int],
                    )) && lives0 > 0) ==> *lives < lives0,
                spec_count_players(ents0) <= 1 ==> (*lives == lives0 || *lives == (lives0
                    - 1) as u8),
                (spec_count_players(ents0) <= 1 && *lives < lives0) ==> forall|i: int|
                    #![trigger ents0[i]]
                    0 <= i < ents0.len() && ents0[i] is Player ==> !spec_player_grace_expired(
                        self.entities@[i],
                    ),
                forall|i: int| 0 <= i < tmp0.len() ==> self.entities_tmp@[i] == tmp0[i],
                self.entities_tmp@.len() >= tmp0.len(),
                spec_spawns_match(
                    acts_d,
                    self.entities_tmp@.skip(tmp0.len() as int),
                    config0,
                ),
                forall|k2: int| 0 <= k2 < acts_d.len() ==> acts_d[k2] is SpawnMeteors,
            decreases marks@.len() - k,
        {
            let idx: usize = marks[k];
            let ghost prev = self.entities@;
            let ghost lives_prev = *lives;
            let mut e = self.entities[idx];
            let a = e.on_destroy(lives);
            self.entities[idx] = e;
            proof {
                lemma_destroy_evolved_step(
                    ents0[idx as int],
                    prev[idx as int],
                    e,
                    a,
                    lives_prev,
                    *lives,
                );
                lemma_destroy_action_wf(prev[idx as int], e, a, lives_prev, *lives);
                assert(spec_marked(marks@, idx as int)) by {
                    assert(0 <= k < marks@.len() && marks@[k as int] == idx);
                }
                assert forall|k2: int|
                    #![trigger marks@[k2]]
                    0 <= k2 < k + 1 && !(ents0[marks@[k2] as int] is Player) implies !self.entities@[marks@[k2] as int].spec_alive() by {
                    let i2 = marks@[k2] as int;
                    if i2 == idx as int {
                        assert(spec_destroy_evolved(ents0[i2], prev[i2]));
                        assert(Entity::spec_destroy_rel(prev[i2], e, a, lives_prev, *lives));
                    } else {
                        assert(self.entities@[i2] == prev[i2]);
                    }
                }
                // lives accounting across this mark
                let hit_pre = exists|k2: int|
                    0 <= k2 < k && spec_player_grace_expired(ents0[(#[trigger] marks@[k2]) as int]);
                let hit_now = exists|k2: int|
                    0 <= k2 < k + 1 && spec_player_grace_expired(
                        ents0[(#[trigger] marks@[k2]) as int],
                    );
                if hit_pre {
                    assert(hit_now) by {
                        let kw = choose|k2: int|
                            0 <= k2 < k && spec_player_grace_expired(
                                ents0[(#[trigger] marks@[k2]) as int],
                            );
                        assert(0 <= kw < k + 1 && spec_player_grace_expired(
                            ents0[marks@[kw] as int],
                        ));
                    }
                }
                if !hit_pre || lives0 == 0 {
                    // so far the counter and every ship are untouched
                    assert(lives_prev == lives0);
                    if !hit_now || lives0 == 0 {
                        // and this mark costs nothing either
                        if ents0[idx as int] is Player {
                            assert(prev[idx as int] == ents0[idx as int]);
                            if lives0 > 0 {
                                assert(!spec_player_grace_expired(ents0[idx as int])) by {
                                    if spec_player_grace_expired(ents0[idx as int]) {
                                        assert(0 <= k < k + 1 && spec_player_grace_expired(
                                            ents0[marks@[k as int] as int],
                                        ));
                                    }
                                }
                            }
                            assert(e == prev[idx as int]);
                        }
                        assert(*lives == lives0);
                        assert forall|i: int|
                            #![trigger ents0[i]]
                            0 <= i < ents0.len() && ents0[i] is Player implies self.entities@[i]
                            == ents0[i] by {
                            if i == idx as int {
                                assert(self.entities@[i] == e);
                            } else {
                                assert(self.entities@[i] == prev[i]);
                            }
                        }
                    } else {
                        // the first costly hit: exactly one life falls
                        assert(spec_player_grace_expired(ents0[idx as int]) && lives0 > 0) by {
                            let kw = choose|k2: int|
                                0 <= k2 < k + 1 && spec_player_grace_expired(
                                    ents0[(#[trigger] marks@[k2]) as int],
                                );
                            assert(kw == k as int);
                        }
                        assert(prev[idx as int] == ents0[idx as int]);
                        assert(*lives == (lives0 - 1) as u8);
                    }
                }
                if hit_now && lives0 > 0 {
                    if hit_pre {
                        assert(lives_prev < lives0);
                        assert(*lives <= lives_prev);
                    }
                    assert(*lives < lives0);
                }
                if spec_count_players(ents0) <= 1 {
                    if *lives < lives_prev {
                        // a decrement fired, so the mark held the one ship,
                        // its grace spent, and it had not fired before
                        assert(prev[idx as int] is Player);
                        assert(ents0[idx as int] is Player);
                        if lives_prev < lives0 {
                            assert(!spec_player_grace_expired(prev[idx as int]));
                            assert(false);
                        }
                        assert(*lives == (lives0 - 1) as u8);
                        assert forall|i: int|
                            #![trigger ents0[i]]
                            0 <= i < ents0.len() && ents0[i] is Player
                            implies !spec_player_grace_expired(self.entities@[i]) by {
                            if i == idx as int {
                                assert(self.entities@[i] == e);
                            } else {
                                if i < idx as int {
                                    lemma_two_players_counted(ents0, i, idx as int);
                                } else {
                                    lemma_two_players_counted(ents0, idx as int, i);
                                }
                            }
                        }
                    } else {
                        assert(*lives == lives_prev);
                        if *lives < lives0 {
                            assert forall|i: int|
                                #![trigger ents0[i]]
                                0 <= i < ents0.len() && ents0[i] is Player
                                implies !spec_player_grace_expired(self.entities@[i]) by {
                                assert(!spec_player_grace_expired(prev[i]));
                                if i == idx as int {
                                    assert(self.entities@[i] == e);
                                } else {
                                    assert(self.entities@[i] == prev[i]);
                                }
                            }
                        }
                    }
                }
            }
            if let Some(action) = a {
                let ghost tprev = self.entities_tmp@;
                self.execute_action(action);
                proof {
                    assert(action is SpawnMeteors);
                    Self::lemma_segment_spawns(action, tprev, self.entities_tmp@, config0);
                    let seg = self.entities_tmp@.skip(tprev.len() as int);
                    let spawned_prev = tprev.skip(tmp0.len() as int);
                    assert(self.entities_tmp@.skip(tmp0.len() as int) =~= spawned_prev + seg);
                    lemma_spawns_match_push(acts_d, spawned_prev, action, seg, config0);
                    acts_d = acts_d.push(action);
                }
            }
            k = k + 1;
        }
        proof {
            assert forall|i: int|
                0 <= i < ents0.len() && spec_marked(marks@, i) && !(ents0[i] is Player) implies !self.entities@[i].spec_alive() by {
                let k2 = choose|k2: int|
                    0 <= k2 < marks@.len() && ((#[trigger] marks@[k2]) as int) == i;
            }
            assert(spec_spawns_match(
                acts_d,
                self.entities_tmp@.skip(tmp0.len() as int),
                config0,
            ));
        }
    }

    /// The removal pass: sweeps out every entity whose liveness flag has
    /// fallen, scoring each swept meteor's value, and reports the points.
    fn removal_pass(&mut self) -> (pts: u32)
        requires
            old(self).wf(),
        ensures
            final(self).wf(),
            final(self).entities@ == spec_survivors(old(self).entities@),
            final(self).entities_tmp@ == old(self).entities_tmp@,
            final(self).config == old(self).config,
            pts == spec_sat_points(spec_removed_points(old(self).entities@)),
            forall|j: int|
                0 <= j < final(self).entities@.len() ==> (
                #[trigger] final(self).entities@[j]).spec_alive(),
            all_in_band(old(self).entities@) ==> all_in_band(final(self).entities@),
    {
        let ghost s = self.entities@;
        let mut kept: Vec<Entity> = Vec::new();
        let mut pts: u32 = 0;
        let mut i: usize = 0;
        while i < self.entities.len()
            invariant
                self.entities@ == s,
                i <= s.len(),
                self.wf(),
                kept@ == spec_survivors(s.take(i as int)),
                pts == spec_sat_points(spec_removed_points(s.take(i as int))),
                all_wf(kept@),
                forall|j: int| 0 <= j < kept@.len() ==> (#[trigger] kept@[j]).spec_alive(),
                all_in_band(s) ==> all_in_band(kept@),
            decreases s.len() - i,
        {
            let e = self.entities[i];
            proof {
                assert(s.take(i as int + 1).drop_last() =~= s.take(i as int));
                assert(s.take(i as int + 1).last() == s[i as int]);
                lemma_removed_points_nonneg(s.take(i as int));
            }
            if e.is_alive() {
                kept.push(e);
            } else {
                match e.get_type() {
                    Type::Meteor(p) => {
                        if pts > u32::MAX - p {
                            pts = u32::MAX;
                        } else {
                            pts = pts + p;
                        }
                    },
                    _ => {},
                }
            }
            i = i + 1;
        }
        proof {
            assert(s.take(s.len() as int) =~= s);
        }
        self.entities = kept;
        pts
    }

    /// One frame of the world: merge the pending buffer, run every
    /// entity's update, execute the deferred actions they returned, wrap
    /// positions across the screen edges, test every pair for collision,
    /// destroy what collided (executing the splits that spawns), and
    /// sweep out the dead — returning the points their removal scored.
    /// Entities spawned during the frame wait in the pending buffer and
    /// take no part in any of this frame's passes.
    pub fn update(&mut self, dt: u32, input: &PlayerInput, screen: Screen, lives: &mut u8) -> (pts:
        u32)
        requires
            old(self).wf(),
            dt <= DT_LIMIT,
            input.wf(),
            screen.wf(),
        ensures
            spec_world_frame(
                *old(self),
                *final(self),
                *old(lives),
                *final(lives),
                pts,
                dt,
                *input,
                screen,
            ),
    {
        self.flush_pending();
        let actions = self.update_pass(dt, input, screen);
        let ghost upd = self.entities@;
        let ghost acts = choose|acts: Seq<Option<DeferredAction>>|
            spec_updated_all(
                old(self).entities@ + old(self).entities_tmp@,
                upd,
                acts,
                dt,
                *input,
                screen,
            ) && actions@ == spec_somes(acts);
        self.execute_actions(&actions);
        let ghost spawned_u = self.entities_tmp@;
        proof {
            assert(spawned_u =~= spawned_u.skip(0));
            assert(spec_spawns_match(spec_somes(acts), spawned_u, old(self).config));
        }
        self.wrap_pass(screen);
        let ghost wrapped = self.entities@;
        let marks = self.collision_pass();
        proof {
            assert forall|k: int| 0 <= k < marks@.len() implies ((#[trigger] marks@[k]) as int)
                < self.entities@.len() by {
                assert(spec_mark_reason(self.entities@, marks@[k] as int));
            }
        }
        self.destruction_pass(&marks, lives);
        let ghost mid = self.entities@;
        let ghost mid_tmp = self.entities_tmp@;
        proof {
            assert forall|i: int| 0 <= i < mid.len() implies (
            #[trigger] mid[i]).spec_data().in_band() by {
                lemma_destroy_evolved_keeps(wrapped[i], mid[i]);
                assert(wrapped[i].spec_data().in_band());
            }
        }
        let pts = self.removal_pass();
        proof {
            assert(wrapped =~= upd.map(|k: int, e: Entity| spec_wrapped_entity(e, screen)));
            assert forall|i: int|
                0 <= i < mid.len() && #[trigger] mid[i] != spec_wrapped_entity(upd[i], screen)
                implies spec_mark_reason(
                upd.map(|k: int, e: Entity| spec_wrapped_entity(e, screen)),
                i,
            ) by {
                assert(mid[i] != wrapped[i]);
                assert(spec_marked(marks@, i));
                let k = choose|k: int| 0 <= k < marks@.len() && (#[trigger] marks@[k]) as int == i;
                assert(spec_mark_reason(wrapped, i));
            }
            assert(final(self).entities@ == spec_survivors(mid));
            assert forall|i: int|
                0 <= i < mid.len() && !(upd[i] is Player) && spec_mark_reason(
                    upd.map(|k: int, e: Entity| spec_wrapped_entity(e, screen)),
                    i,
                ) implies !mid[i].spec_alive() by {
                assert(spec_mark_reason(wrapped, i));
                let j = choose|j: int|
                    0 <= j < wrapped.len() && j != i && spec_collides(
                        wrapped[i],
                        #[trigger] wrapped[j],
                    );
                assert(spec_marked(marks@, i));
                assert(!(wrapped[i] is Player));
            }
            let wmap = upd.map(|k: int, e: Entity| spec_wrapped_entity(e, screen));
            assert(wrapped == wmap);
            let hd = exists|k2: int|
                0 <= k2 < marks@.len() && spec_player_grace_expired(
                    wrapped[(#[trigger] marks@[k2]) as int],
                );
            let hf = exists|i: int|
                0 <= i < wmap.len() && #[trigger] spec_mark_reason(wmap, i)
                    && spec_player_grace_expired(wmap[i]);
            if hd {
                let kw = choose|k2: int|
                    0 <= k2 < marks@.len() && spec_player_grace_expired(
                        wrapped[(#[trigger] marks@[k2]) as int],
                    );
                assert(spec_mark_reason(wrapped, marks@[kw] as int));
                assert(hf);
            }
            if hf {
                let iw = choose|i: int|
                    0 <= i < wmap.len() && #[trigger] spec_mark_reason(wmap, i)
                        && spec_player_grace_expired(wmap[i]);
                let jw = choose|j: int|
                    0 <= j < wrapped.len() && j != iw && spec_collides(
                        wrapped[iw],
                        #[trigger] wrapped[j],
                    );
                assert(spec_marked(marks@, iw));
                let kw = choose|k2: int|
                    0 <= k2 < marks@.len() && ((#[trigger] marks@[k2]) as int) == iw;
                assert(spec_player_grace_expired(wrapped[marks@[kw] as int]));
                assert(hd);
            }
            assert(hd == hf);
            let acts_d = choose|acts_d: Seq<DeferredAction>|
                {
                    &&& #[trigger] spec_spawns_match(
                        acts_d,
                        mid_tmp.skip(spawned_u.len() as int),
                        old(self).config,
                    )
                    &&& forall|k2: int| 0 <= k2 < acts_d.len() ==> acts_d[k2] is SpawnMeteors
                };
            assert(final(self).entities_tmp@ =~= spawned_u + mid_tmp.skip(
                spawned_u.len() as int,
            ));
            lemma_spawns_match_concat(
                spec_somes(acts),
                spawned_u,
                acts_d,
                mid_tmp.skip(spawned_u.len() as int),
                old(self).config,
            );
            assert(spec_world_frame(
                *old(self),
                *final(self),
                *old(lives),
                *final(lives),
                pts,
                dt,
                *input,
                screen,
            ));
        }
        pts
    }
}

} // verus!
