//! Health, damage, knockback, stagger and death.

use vstd::prelude::*;
use crate::animation::{
    plain_frame, AnimationController, AnimationFrame, AnimationState, HitboxAnimation, Playback,
};
use crate::collision::{CollisionEvent, HitboxCollisionSystem};
use crate::geometry::{HitboxCollision, Rotation};
use crate::hitstate::{
    ENEMY_ATTACK_BOX, ENEMY_HITTABLE_BOX, PLAYER_ATTACK_BOX, PLAYER_HITTABLE_BOX,
};
use crate::storage::{component, get, has, World, WorldModel};
use crate::units::{abs, clamp32, clamp64, saturate, saturate64, TICKS_PER_SECOND, UNIT};

verus! {

/// Hit points of an entity and the time left of its damage immunity.
///
/// `invuln` counts down with every tick and keeps counting below zero; it
/// stands for immunity while it is positive. The damage rules of this module
/// set it and do not consult it: what shields an entity from a second hit is
/// its stagger.
#[derive(Clone, Copy, Debug, PartialEq, Eq)]
pub struct Health {
    pub max: i32,
    pub left: i32,
    pub invuln: i64,
}

impl Health {
    /// This health after a hit of `amount` that grants `invuln` ticks of
    /// immunity.
    pub open spec fn hit(self, amount: i32, invuln: i64) -> Health {
        Health { max: self.max, left: clamp32(self.left - amount), invuln }
    }

    /// This health after giving up `amount` points for good.
    pub open spec fn paid(self, amount: i32) -> Health {
        Health {
            max: clamp32(self.max - amount),
            left: clamp32(self.left - amount),
            invuln: self.invuln,
        }
    }

    /// This health with both counts doubled.
    pub open spec fn doubled(self) -> Health {
        Health { max: clamp32(2 * self.max), left: clamp32(2 * self.left), invuln: self.invuln }
    }

    /// This health after `delta` ticks have passed.
    pub open spec fn cooled(self, delta: u32) -> Health {
        Health { max: self.max, left: self.left, invuln: clamp64(self.invuln - delta) }
    }

    /// Whether nothing is left.
    pub open spec fn spent(self) -> bool {
        self.left <= 0
    }

    /// Full health of `max` points, not immune.
    pub fn new(max: i32) -> (r: Health)
        ensures
            r == (Health { max, left: max, invuln: 0 }),
    {
        Health { max, left: max, invuln: 0 }
    }

    /// Takes `amount` points away and restarts the immunity timer at `invuln`
    /// ticks.
    pub fn hit_for(&mut self, amount: i32, invuln: i64)
        ensures
            *final(self) == old(self).hit(amount, invuln),
    {
        self.left = saturate(self.left as i64 - amount as i64);
        self.invuln = invuln;
    }

    /// Takes `amount` points away from both the current and the largest
    /// health.
    pub fn pay(&mut self, amount: i32)
        ensures
            *final(self) == old(self).paid(amount),
    {
        self.left = saturate(self.left as i64 - amount as i64);
        self.max = saturate(self.max as i64 - amount as i64);
    }

    /// Doubles both the current and the largest health.
    pub fn embiggen(&mut self)
        ensures
            *final(self) == old(self).doubled(),
    {
        self.left = saturate(self.left as i64 * 2);
        self.max = saturate(self.max as i64 * 2);
    }

    /// Lets `delta` ticks pass on the immunity timer.
    pub fn cool_down(&mut self, delta: u32)
        ensures
            *final(self) == old(self).cooled(delta),
    {
        self.invuln = saturate64(self.invuln as i128 - delta as i128);
    }
}

/// The animation an entity plays when hit, in place of the knockback.
#[derive(Debug)]
pub struct StaggerAnimation {
    pub stagger: HitboxAnimation,
}

impl View for StaggerAnimation {
    type V = Seq<AnimationFrame>;

    open spec fn view(&self) -> Seq<AnimationFrame> {
        self.stagger@
    }
}

impl DeepView for StaggerAnimation {
    type V = Seq<AnimationFrame>;

    open spec fn deep_view(&self) -> Seq<AnimationFrame> {
        self@
    }
}

impl StaggerAnimation {
    pub fn new(stagger: HitboxAnimation) -> (r: StaggerAnimation)
        ensures
            r@ == stagger@,
    {
        StaggerAnimation { stagger }
    }
}

/// Speed of a knocked-back entity, in sub-units per second.
pub const KNOCKBACK_SPEED: i32 = 100 * UNIT;

/// How far a hit throws an entity back, in sub-units.
pub const KNOCKBACK_DISTANCE: u32 = 15000;

/// How long a knocked-back entity stands still after its flight, in ticks.
pub const KNOCKBACK_REST: u32 = 200;

/// Immunity granted by an enemy's hit, in ticks.
pub const ENEMY_HIT_INVULN: i64 = 1000;

/// Ticks needed to cover `distance` at [`KNOCKBACK_SPEED`], rounded down.
pub open spec fn knockback_ticks(distance: u32) -> u32 {
    (distance * TICKS_PER_SECOND / (KNOCKBACK_SPEED as int)) as u32
}

/// The frames of a knockback over `distance`: a flight backwards at
/// [`KNOCKBACK_SPEED`], then a short rest.
pub open spec fn knockback_frames(distance: u32) -> Seq<AnimationFrame> {
    seq![
        plain_frame(Some(((-KNOCKBACK_SPEED) as i32, 0)), knockback_ticks(distance)),
        plain_frame(Some((0, 0)), KNOCKBACK_REST),
    ]
}

/// The knockback animation over `distance`.
pub fn knockback(distance: u32) -> (r: HitboxAnimation)
    ensures
        r@ == knockback_frames(distance),
{
    let ticks: u64 = distance as u64 * TICKS_PER_SECOND as u64 / KNOCKBACK_SPEED as u64;
    let mut animation = HitboxAnimation::new();
    animation.add_frame_with_velocity((-KNOCKBACK_SPEED, 0), ticks as u32);
    animation.add_frame_with_velocity((0, 0), KNOCKBACK_REST);
    assert(animation@ =~= knockback_frames(distance));
    animation
}

/// A controller that has just begun `frames` in the stagger state.
pub open spec fn stagger_playback(frames: Seq<AnimationFrame>) -> Playback {
    Playback {
        progress: 0,
        animation: Some(frames),
        state: AnimationState::Staggered,
        looping: false,
    }
}

/// The controllers after `entity` has been made to stagger through `frames`.
/// An entity without a controller is left alone.
pub open spec fn staggered_table(
    animations: Seq<Option<Playback>>,
    entity: int,
    frames: Seq<AnimationFrame>,
) -> Seq<Option<Playback>> {
    if component(animations, entity) is Some {
        animations.update(entity, Some(stagger_playback(frames)))
    } else {
        animations
    }
}

/// The facing of an entity hit with separation `collision`: along the axis
/// of the larger separation (the vertical one on a tie), towards the
/// attacker.
pub open spec fn facing_attacker(collision: HitboxCollision) -> Rotation {
    if abs(collision.0 as int) > abs(collision.1 as int) {
        if collision.0 < 0 {
            Rotation::East
        } else {
            Rotation::West
        }
    } else {
        if collision.1 < 0 {
            Rotation::North
        } else {
            Rotation::South
        }
    }
}

/// The facings after `entity` has been turned by a hit. An entity without a
/// facing is left alone.
pub open spec fn turned_table(
    rotations: Seq<Option<Rotation>>,
    entity: int,
    collision: HitboxCollision,
) -> Seq<Option<Rotation>> {
    if component(rotations, entity) is Some {
        rotations.update(entity, Some(facing_attacker(collision)))
    } else {
        rotations
    }
}

/// Makes `entity` play `stagger_animation` in the stagger state, if it has a
/// controller.
pub fn stagger_entity(
    entity: usize,
    animations: &mut Vec<Option<AnimationController>>,
    stagger_animation: HitboxAnimation,
)
    ensures
        final(animations).deep_view() == staggered_table(
            old(animations).deep_view(),
            entity as int,
            stagger_animation@,
        ),
{
    if entity < animations.len() {
        match &mut animations[entity] {
            Some(controller) => {
                controller.start(stagger_animation, AnimationState::Staggered);
            },
            None => {},
        }
    }
    assert(animations.deep_view() =~= staggered_table(
        old(animations).deep_view(),
        entity as int,
        stagger_animation@,
    ));
}

/// Whether `entity` is in the stagger state. An entity without a controller
/// is not.
pub fn is_staggered(entity: usize, animations: &Vec<Option<AnimationController>>) -> (r: bool)
    ensures
        r == match component(animations.deep_view(), entity as int) {
            Some(playback) => playback.state == AnimationState::Staggered,
            None => false,
        },
{
    match get(animations, entity) {
        Some(controller) => controller.state() == AnimationState::Staggered,
        None => false,
    }
}

/// Throws `entity` back from a hit: it staggers through the knockback
/// animation and, if it has a facing, turns towards the attacker.
pub fn knockback_entity(
    collision: HitboxCollision,
    entity: usize,
    animations: &mut Vec<Option<AnimationController>>,
    rotation: &mut Vec<Option<Rotation>>,
)
    ensures
        final(animations).deep_view() == staggered_table(
            old(animations).deep_view(),
            entity as int,
            knockback_frames(KNOCKBACK_DISTANCE),
        ),
        final(rotation)@ == turned_table(old(rotation)@, entity as int, collision),
{
    stagger_entity(entity, animations, knockback(KNOCKBACK_DISTANCE));
    if has(rotation, entity) {
        let (dx, dy, _depthx, _depthy) = collision;
        let ax: i128 = if dx < 0 { -(dx as i128) } else { dx as i128 };
        let ay: i128 = if dy < 0 { -(dy as i128) } else { dy as i128 };
        let facing = if ax > ay {
            if dx < 0 {
                Rotation::East
            } else {
                Rotation::West
            }
        } else {
            if dy < 0 {
                Rotation::North
            } else {
                Rotation::South
            }
        };
        rotation[entity] = Some(facing);
    }
}

/// The world after the target of `event` has reacted to the hit: it plays
/// its own stagger animation if it has one, else it is knocked back if it
/// has a velocity, else nothing happens to it.
pub open spec fn reaction(world: WorldModel, event: CollisionEvent) -> WorldModel {
    let target = event.entity_b as int;
    match component(world.staggers, target) {
        Some(frames) => WorldModel {
            animations: staggered_table(world.animations, target, frames),
            ..world
        },
        None => if component(world.velocities, target) is Some {
            WorldModel {
                animations: staggered_table(
                    world.animations,
                    target,
                    knockback_frames(KNOCKBACK_DISTANCE),
                ),
                rotations: turned_table(world.rotations, target, event.collision),
                ..world
            }
        } else {
            world
        },
    }
}

/// The health table after `entity` has taken a hit of `amount` that grants
/// `invuln` ticks of immunity (`None`: the timer is left alone). An entity
/// without health is left alone.
pub open spec fn damaged_table(
    healths: Seq<Option<Health>>,
    entity: int,
    amount: i32,
    invuln: Option<i64>,
) -> Seq<Option<Health>> {
    match component(healths, entity) {
        Some(health) => healths.update(
            entity,
            Some(
                health.hit(
                    amount,
                    match invuln {
                        Some(ticks) => ticks,
                        None => health.invuln,
                    },
                ),
            ),
        ),
        None => healths,
    }
}

/// Lets the target of a hit react as [`reaction`] says.
fn react(collision: HitboxCollision, entity_a: usize, entity_b: usize, world: &mut World)
    ensures
        final(world)@ == reaction(old(world)@, CollisionEvent { collision, entity_a, entity_b }),
{
    let own = match get(&world.staggers, entity_b) {
        Some(stagger) => Some(stagger.stagger.clone()),
        None => None,
    };
    proof {
        crate::storage::lemma_deep_component(world.staggers, entity_b as int);
    }
    match own {
        Some(animation) => {
            stagger_entity(entity_b, &mut world.animations, animation);
        },
        None => {
            if has(&world.velocities, entity_b) {
                knockback_entity(collision, entity_b, &mut world.animations, &mut world.rotations);
            }
        },
    }
}

/// Hits dealt by the player: the player's attack channel against the channel
/// on which things can be hit by the player.
pub struct PlayerDamageSystem;

impl HitboxCollisionSystem for PlayerDamageSystem {
    open spec fn source_channel() -> usize {
        PLAYER_ATTACK_BOX
    }

    open spec fn target_channel() -> usize {
        PLAYER_HITTABLE_BOX
    }

    /// A target that staggers already ignores the hit. Any other reacts, and
    /// loses one point of health if the attacker is a player.
    open spec fn response(world: WorldModel, event: CollisionEvent) -> WorldModel {
        if world.staggered(event.entity_b as int) {
            world
        } else {
            let after = reaction(world, event);
            if component(world.players, event.entity_a as int) is Some {
                WorldModel {
                    healths: damaged_table(world.healths, event.entity_b as int, 1, None),
                    ..after
                }
            } else {
                after
            }
        }
    }

    fn source() -> (r: usize) {
        PLAYER_ATTACK_BOX
    }

    fn target() -> (r: usize) {
        PLAYER_HITTABLE_BOX
    }

    fn collide(
        &self,
        collision: HitboxCollision,
        entity_a: usize,
        entity_b: usize,
        world: &mut World,
    ) {
        if !is_staggered(entity_b, &world.animations) {
            react(collision, entity_a, entity_b, world);
            if has(&world.players, entity_a) && entity_b < world.healths.len() {
                match &mut world.healths[entity_b] {
                    Some(health) => {
                        health.left = saturate(health.left as i64 - 1);
                    },
                    None => {},
                }
            }
        }
        assert(world@.healths =~= Self::response(
            old(world)@,
            CollisionEvent { collision, entity_a, entity_b },
        ).healths);
    }
}

impl PlayerDamageSystem {
    /// One tick of the rule.
    pub fn run(&mut self, world: &mut World)
        ensures
            final(world)@ == crate::collision::checked::<PlayerDamageSystem>(old(world)@),
    {
        crate::collision::check_collisions(&*self, world);
    }
}

/// Hits dealt by enemies: the enemies' attack channel against the channel on
/// which things can be hit by enemies.
pub struct EnemyDamageSystem;

impl HitboxCollisionSystem for EnemyDamageSystem {
    open spec fn source_channel() -> usize {
        ENEMY_ATTACK_BOX
    }

    open spec fn target_channel() -> usize {
        ENEMY_HITTABLE_BOX
    }

    /// A target that staggers already ignores the hit. Any other reacts and,
    /// if the attacker is a melee enemy, loses as many points as the attacker
    /// deals and is immune for [`ENEMY_HIT_INVULN`] ticks.
    open spec fn response(world: WorldModel, event: CollisionEvent) -> WorldModel {
        if world.staggered(event.entity_b as int) {
            world
        } else {
            let after = reaction(world, event);
            match component(world.melee_enemies, event.entity_a as int) {
                Some(enemy) => WorldModel {
                    healths: damaged_table(
                        world.healths,
                        event.entity_b as int,
                        enemy.damage,
                        Some(ENEMY_HIT_INVULN),
                    ),
                    ..after
                },
                None => after,
            }
        }
    }

    fn source() -> (r: usize) {
        ENEMY_ATTACK_BOX
    }

    fn target() -> (r: usize) {
        ENEMY_HITTABLE_BOX
    }

    fn collide(
        &self,
        collision: HitboxCollision,
        entity_a: usize,
        entity_b: usize,
        world: &mut World,
    ) {
        if !is_staggered(entity_b, &world.animations) {
            react(collision, entity_a, entity_b, world);
            let damage = match get(&world.melee_enemies, entity_a) {
                Some(enemy) => Some(enemy.damage),
                None => None,
            };
            proof {
                crate::storage::lemma_deep_component(world.melee_enemies, entity_a as int);
            }
            if let Some(amount) = damage {
                if entity_b < world.healths.len() {
                    match &mut world.healths[entity_b] {
                        Some(health) => {
                            health.hit_for(amount, ENEMY_HIT_INVULN);
                        },
                        None => {},
                    }
                }
            }
        }
        assert(world@.healths =~= Self::response(
            old(world)@,
            CollisionEvent { collision, entity_a, entity_b },
        ).healths);
    }
}

impl EnemyDamageSystem {
    /// One tick of the rule.
    pub fn run(&mut self, world: &mut World)
        ensures
            final(world)@ == crate::collision::checked::<EnemyDamageSystem>(old(world)@),
    {
        crate::collision::check_collisions(&*self, world);
    }
}

/// Whether the death rule destroys `entity` in `world`: it has health,
/// nothing of it is left, and it is not in the stagger state.
pub open spec fn doomed(world: WorldModel, entity: int) -> bool {
    &&& component(world.healths, entity) matches Some(health)
    &&& health.spent()
    &&& !world.staggered(entity)
}

/// `table` once the death rule has gone through the first `count` entities
/// of `world`.
pub open spec fn reaped_table<T>(table: Seq<Option<T>>, world: WorldModel, count: int) -> Seq<
    Option<T>,
> {
    Seq::new(
        table.len(),
        |e: int|
            if e < count && doomed(world, e) {
                None
            } else {
                table[e]
            },
    )
}

/// The health table once the death rule has gone through the first `count`
/// entities of `world`: the doomed are gone, the timers of the others have
/// moved on by `delta` ticks.
pub open spec fn reaped_healths(world: WorldModel, delta: u32, count: int) -> Seq<Option<Health>> {
    Seq::new(
        world.healths.len(),
        |e: int|
            if e < count {
                match world.healths[e] {
                    Some(health) => if doomed(world, e) {
                        None
                    } else {
                        Some(health.cooled(delta))
                    },
                    None => None,
                }
            } else {
                world.healths[e]
            },
    )
}

/// The world once the death rule has gone through the first `count`
/// entities.
pub open spec fn reaped_upto(world: WorldModel, delta: u32, count: int) -> WorldModel {
    WorldModel {
        transforms: reaped_table(world.transforms, world, count),
        velocities: reaped_table(world.velocities, world, count),
        rotations: reaped_table(world.rotations, world, count),
        physicals: reaped_table(world.physicals, world, count),
        hit_states: reaped_table(world.hit_states, world, count),
        animations: reaped_table(world.animations, world, count),
        sprites: reaped_table(world.sprites, world, count),
        healths: reaped_healths(world, delta, count),
        staggers: reaped_table(world.staggers, world, count),
        players: reaped_table(world.players, world, count),
        enemies: reaped_table(world.enemies, world, count),
        melee_enemies: reaped_table(world.melee_enemies, world, count),
        chasers: reaped_table(world.chasers, world, count),
        chests: reaped_table(world.chests, world, count),
        portals: reaped_table(world.portals, world, count),
        state: world.state,
    }
}

/// The world after one tick of the death rule: every doomed entity has lost
/// all its components, and every other health has its timer moved on by
/// `delta` ticks.
pub open spec fn reaped(world: WorldModel, delta: u32) -> WorldModel {
    reaped_upto(world, delta, world.healths.len() as int)
}

/// The doomed among the first `count` entities, in rising order.
pub open spec fn doomed_list(world: WorldModel, count: int) -> Seq<usize>
    decreases count,
{
    if count <= 0 {
        Seq::empty()
    } else if doomed(world, count - 1) {
        doomed_list(world, count - 1).push((count - 1) as usize)
    } else {
        doomed_list(world, count - 1)
    }
}

/// The death rule.
pub struct DeathSystem;

impl DeathSystem {
    /// One tick of the rule. Returns the entities it destroyed.
    pub fn run(&mut self, world: &mut World, delta: u32) -> (destroyed: Vec<usize>)
        ensures
            final(world)@ == reaped(old(world)@, delta),
            destroyed@ == doomed_list(old(world)@, old(world)@.healths.len() as int),
    {
        let mut destroyed: Vec<usize> = Vec::new();
        let count = world.healths.len();
        let mut entity: usize = 0;
        assert(world@.transforms =~= reaped_upto(old(world)@, delta, 0).transforms);
        assert(world@.velocities =~= reaped_upto(old(world)@, delta, 0).velocities);
        assert(world@.rotations =~= reaped_upto(old(world)@, delta, 0).rotations);
        assert(world@.physicals =~= reaped_upto(old(world)@, delta, 0).physicals);
        assert(world@.hit_states =~= reaped_upto(old(world)@, delta, 0).hit_states);
        assert(world@.animations =~= reaped_upto(old(world)@, delta, 0).animations);
        assert(world@.sprites =~= reaped_upto(old(world)@, delta, 0).sprites);
        assert(world@.healths =~= reaped_upto(old(world)@, delta, 0).healths);
        assert(world@.staggers =~= reaped_upto(old(world)@, delta, 0).staggers);
        assert(world@.players =~= reaped_upto(old(world)@, delta, 0).players);
        assert(world@.enemies =~= reaped_upto(old(world)@, delta, 0).enemies);
        assert(world@.melee_enemies =~= reaped_upto(old(world)@, delta, 0).melee_enemies);
        assert(world@.chasers =~= reaped_upto(old(world)@, delta, 0).chasers);
        assert(world@.chests =~= reaped_upto(old(world)@, delta, 0).chests);
        assert(world@.portals =~= reaped_upto(old(world)@, delta, 0).portals);
        while entity < count
            invariant
                entity <= count,
                count == old(world)@.healths.len(),
                world@ == reaped_upto(old(world)@, delta, entity as int),
                destroyed@ == doomed_list(old(world)@, entity as int),
            decreases count - entity,
        {
            let ghost before = world@;
            let ghost next = reaped_upto(old(world)@, delta, entity + 1);
            let spent = match world.healths[entity] {
                Some(health) => health.left <= 0,
                None => false,
            };
            if spent && !is_staggered(entity, &world.animations) {
                world.delete(entity);
                destroyed.push(entity);
            } else {
                match &mut world.healths[entity] {
                    Some(health) => {
                        health.cool_down(delta);
                    },
                    None => {},
                }
            }
            assert(world@.transforms =~= next.transforms);
            assert(world@.velocities =~= next.velocities);
            assert(world@.rotations =~= next.rotations);
            assert(world@.physicals =~= next.physicals);
            assert(world@.hit_states =~= next.hit_states);
            assert(world@.animations =~= next.animations);
            assert(world@.sprites =~= next.sprites);
            assert(world@.healths =~= next.healths);
            assert(world@.staggers =~= next.staggers);
            assert(world@.players =~= next.players);
            assert(world@.enemies =~= next.enemies);
            assert(world@.melee_enemies =~= next.melee_enemies);
            assert(world@.chasers =~= next.chasers);
            assert(world@.chests =~= next.chests);
            assert(world@.portals =~= next.portals);
            entity += 1;
        }
        destroyed
    }
}

/// A dead entity that staggers outlives the tick with every component in
/// place; a dead entity that does not stagger is gone after the tick.
pub proof fn lemma_death_deferral(world: WorldModel, delta: u32, entity: int)
    requires
        component(world.healths, entity) matches Some(health) && health.spent(),
    ensures
        world.staggered(entity) ==> {
            &&& component(reaped(world, delta).healths, entity) == Some(
                world.healths[entity].unwrap().cooled(delta),
            )
            &&& component(reaped(world, delta).animations, entity) == component(
                world.animations,
                entity,
            )
            &&& component(reaped(world, delta).transforms, entity) == component(
                world.transforms,
                entity,
            )
            &&& component(reaped(world, delta).hit_states, entity) == component(
                world.hit_states,
                entity,
            )
        },
        !world.staggered(entity) ==> reaped(world, delta) == reaped(world, delta).without(entity),
        !world.staggered(entity) ==> component(reaped(world, delta).healths, entity) is None,
{
    let after = reaped(world, delta);
    if !world.staggered(entity) {
        let gone = after.without(entity);
        assert(after.transforms =~= gone.transforms);
        assert(after.velocities =~= gone.velocities);
        assert(after.rotations =~= gone.rotations);
        assert(after.physicals =~= gone.physicals);
        assert(after.hit_states =~= gone.hit_states);
        assert(after.animations =~= gone.animations);
        assert(after.sprites =~= gone.sprites);
        assert(after.healths =~= gone.healths);
        assert(after.staggers =~= gone.staggers);
        assert(after.players =~= gone.players);
        assert(after.enemies =~= gone.enemies);
        assert(after.melee_enemies =~= gone.melee_enemies);
        assert(after.chasers =~= gone.chasers);
        assert(after.chests =~= gone.chests);
        assert(after.portals =~= gone.portals);
    }
}

/// A hit by the player leaves an entity that staggers as it is: in the
/// stagger state, with the health it had.
pub proof fn lemma_player_hit_spares_staggered(
    world: WorldModel,
    event: CollisionEvent,
    entity: int,
)
    requires
        world.staggered(entity),
    ensures
        PlayerDamageSystem::response(world, event).staggered(entity),
        component(PlayerDamageSystem::response(world, event).healths, entity) == component(
            world.healths,
            entity,
        ),
{
}

/// A hit by an enemy leaves an entity that staggers as it is: in the stagger
/// state, with the health it had.
pub proof fn lemma_enemy_hit_spares_staggered(
    world: WorldModel,
    event: CollisionEvent,
    entity: int,
)
    requires
        world.staggered(entity),
    ensures
        EnemyDamageSystem::response(world, event).staggered(entity),
        component(EnemyDamageSystem::response(world, event).healths, entity) == component(
            world.healths,
            entity,
        ),
{
}

/// While an entity staggers, no number of hits by the player takes health
/// from it, nor ends its stagger.
pub proof fn lemma_stagger_blocks_player_damage(
    world: WorldModel,
    events: Seq<CollisionEvent>,
    entity: int,
)
    requires
        world.staggered(entity),
    ensures
        crate::collision::responses::<PlayerDamageSystem>(world, events).staggered(entity),
        component(
            crate::collision::responses::<PlayerDamageSystem>(world, events).healths,
            entity,
        ) == component(world.healths, entity),
    decreases events.len(),
{
    if events.len() > 0 {
        lemma_stagger_blocks_player_damage(world, events.drop_last(), entity);
        lemma_player_hit_spares_staggered(
            crate::collision::responses::<PlayerDamageSystem>(world, events.drop_last()),
            events.last(),
            entity,
        );
    }
}

/// While an entity staggers, no number of hits by enemies takes health from
/// it, nor ends its stagger.
pub proof fn lemma_stagger_blocks_enemy_damage(
    world: WorldModel,
    events: Seq<CollisionEvent>,
    entity: int,
)
    requires
        world.staggered(entity),
    ensures
        crate::collision::responses::<EnemyDamageSystem>(world, events).staggered(entity),
        component(
            crate::collision::responses::<EnemyDamageSystem>(world, events).healths,
            entity,
        ) == component(world.healths, entity),
    decreases events.len(),
{
    if events.len() > 0 {
        lemma_stagger_blocks_enemy_damage(world, events.drop_last(), entity);
        lemma_enemy_hit_spares_staggered(
            crate::collision::responses::<EnemyDamageSystem>(world, events.drop_last()),
            events.last(),
            entity,
        );
    }
}

/// A hit on an entity that has a controller and can be thrown back, or has
/// a stagger animation of its own, puts it in the stagger state, so that the
/// hits that follow are ignored.
pub proof fn lemma_hit_staggers(world: WorldModel, event: CollisionEvent)
    requires
        component(world.animations, event.entity_b as int) is Some,
        component(world.staggers, event.entity_b as int) is Some || component(
            world.velocities,
            event.entity_b as int,
        ) is Some,
    ensures
        PlayerDamageSystem::response(world, event).staggered(event.entity_b as int),
        EnemyDamageSystem::response(world, event).staggered(event.entity_b as int),
{
}

} // verus!
