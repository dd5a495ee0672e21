//! Enemies: what they know of the player, and how they wander, chase and
//! attack.

use vstd::prelude::*;
use crate::animation::{
    at_rest, begun, free_to_move, plain_frame, with_hitbox, with_sprite, AnimationController,
    AnimationFrame, AnimationState, HitboxAnimation,
};
use crate::combat::Health;
use crate::geometry::{Hitbox, Physical};
use crate::hitstate::{HitModel, HitState, ENEMY_ATTACK_BOX, PLAYER_HITTABLE_BOX};
use crate::sprites::{
    GOBLIN_ATTACK_0, GOBLIN_ATTACK_1, GOBLIN_ATTACK_2, GOBLIN_ATTACK_3, GOBLIN_ATTACK_4, GOBLIN_IDLE,
    GOBLIN_WALK_0, GOBLIN_WALK_1,
};
use crate::utils::{idle_animation, idle_frames, walking_animation, walking_frames};
use crate::collision::{check_collisions, checked, CollisionEvent, HitboxCollisionSystem};
use crate::geometry::{HitboxCollision, Position, Rotation, Velocity};
use crate::hitstate::{ENEMY_AIMING_BOX, ENEMY_HITTABLE_BOX, ENEMY_SIGHT_BOX};
use crate::storage::{component, fetch, has, insert, inserted, World, WorldModel};
use crate::units::{abs, clamp32, clamp64, div_toward_zero, divide, magnitude, saturate64, UNIT};
use crate::utils::{length, length_of, normalize, normalized, spread, spread_of};

verus! {

/// Marks an entity as an enemy that must fall before the exit opens.
#[derive(Clone, Copy, Debug, PartialEq, Eq)]
pub struct Enemy {
    pub invisible: bool,
}

impl Enemy {
    pub fn new() -> (r: Enemy)
        ensures
            !r.invisible,
    {
        Enemy { invisible: false }
    }

    pub fn new_invisible() -> (r: Enemy)
        ensures
            r.invisible,
    {
        Enemy { invisible: true }
    }
}

/// The state of a [`MeleeEnemy`].
pub struct MeleeModel {
    pub in_melee: bool,
    pub attack_animation: Seq<AnimationFrame>,
    pub damage: i32,
}

/// An enemy that strikes when its target is in range.
#[derive(Debug)]
pub struct MeleeEnemy {
    pub in_melee: bool,
    pub attack_animation: HitboxAnimation,
    pub damage: i32,
}

impl View for MeleeEnemy {
    type V = MeleeModel;

    open spec fn view(&self) -> MeleeModel {
        MeleeModel {
            in_melee: self.in_melee,
            attack_animation: self.attack_animation@,
            damage: self.damage,
        }
    }
}

impl DeepView for MeleeEnemy {
    type V = MeleeModel;

    open spec fn deep_view(&self) -> MeleeModel {
        self@
    }
}

impl MeleeEnemy {
    /// A melee enemy that is out of range.
    pub fn new(attack_animation: HitboxAnimation, damage: i32) -> (r: MeleeEnemy)
        ensures
            r@ == (MeleeModel { in_melee: false, attack_animation: attack_animation@, damage }),
    {
        MeleeEnemy { in_melee: false, attack_animation, damage }
    }
}

/// The countdown a new enemy starts with, in ticks. It has run out already,
/// so the enemy picks its first leg at once.
pub const FIRST_PAUSE: i64 = -1000;

/// The state of a [`ChaseAndWanderEnemy`].
pub struct ChaserModel {
    pub aware_of_player: Option<Position>,
    pub idle_animation: Seq<AnimationFrame>,
    pub walking_animation: Seq<AnimationFrame>,
    pub wander_speed: i32,
    pub chase_speed: i32,
    pub wander_direction: Option<Position>,
    pub wander_progress: i64,
}

/// An enemy that wanders until it sees the player and chases from then on.
///
/// `wander_progress` is a countdown in ticks: of the current leg while
/// `wander_direction` is set, of the pause before the next leg while it is
/// not.
#[derive(Debug)]
pub struct ChaseAndWanderEnemy {
    pub aware_of_player: Option<Position>,
    pub idle_animation: HitboxAnimation,
    pub walking_animation: HitboxAnimation,
    pub wander_speed: i32,
    pub chase_speed: i32,
    pub wander_direction: Option<Position>,
    pub wander_progress: i64,
}

impl View for ChaseAndWanderEnemy {
    type V = ChaserModel;

    open spec fn view(&self) -> ChaserModel {
        ChaserModel {
            aware_of_player: self.aware_of_player,
            idle_animation: self.idle_animation@,
            walking_animation: self.walking_animation@,
            wander_speed: self.wander_speed,
            chase_speed: self.chase_speed,
            wander_direction: self.wander_direction,
            wander_progress: self.wander_progress,
        }
    }
}

impl DeepView for ChaseAndWanderEnemy {
    type V = ChaserModel;

    open spec fn deep_view(&self) -> ChaserModel {
        self@
    }
}

impl ChaseAndWanderEnemy {
    /// An enemy that has seen nobody, stands still and is about to pick its
    /// first leg.
    pub fn new(
        idle_animation: HitboxAnimation,
        walking_animation: HitboxAnimation,
        wander_speed: i32,
        chase_speed: i32,
    ) -> (r: ChaseAndWanderEnemy)
        ensures
            r@ == (ChaserModel {
                aware_of_player: None,
                idle_animation: idle_animation@,
                walking_animation: walking_animation@,
                wander_speed,
                chase_speed,
                wander_direction: None,
                wander_progress: FIRST_PAUSE,
            }),
    {
        ChaseAndWanderEnemy {
            aware_of_player: None,
            idle_animation,
            walking_animation,
            wander_speed,
            chase_speed,
            wander_direction: None,
            wander_progress: FIRST_PAUSE,
        }
    }
}

/// How near a chasing enemy comes to its target before it stops, in
/// sub-units.
pub const MIN_CHASE_DISTANCE: u64 = 12000;

/// Shortest and longest pause after a leg of wandering, in ticks.
pub const REST_PAUSE: (i64, i64) = (2000, 5000);

/// Shortest and longest length of a leg of wandering, in ticks.
pub const WANDER_LEG: (i64, i64) = (1000, 3000);

/// The four directions an enemy may wander in.
pub open spec fn wander_directions() -> Seq<Position> {
    seq![(1i32, 0i32), (-1i32, 0i32), (0i32, 1i32), (0i32, -1i32)]
}

/// The four directions an enemy may wander in.
pub fn wanders() -> (r: Vec<Position>)
    ensures
        r@ == wander_directions(),
{
    let mut r: Vec<Position> = Vec::new();
    r.push((1, 0));
    r.push((-1, 0));
    r.push((0, 1));
    r.push((0, -1));
    assert(r@ =~= wander_directions());
    r
}

/// The facing of an entity that moves with `velocity`: along the axis of
/// the larger speed (the vertical one on a tie), in the direction of travel.
pub open spec fn facing_along(velocity: Position) -> Rotation {
    if abs(velocity.0 as int) > abs(velocity.1 as int) {
        if velocity.0 > 0 {
            Rotation::East
        } else {
            Rotation::West
        }
    } else {
        if velocity.1 > 0 {
            Rotation::North
        } else {
            Rotation::South
        }
    }
}

/// The velocity of a chase over the separation `(dx, dy)` at `speed`: the
/// direction of the separation, scaled to `speed`.
pub open spec fn chase_velocity(dx: int, dy: int, speed: i32) -> Position {
    let direction = normalized(dx, dy);
    (
        clamp32(div_toward_zero(direction.0 * speed, UNIT as int)),
        clamp32(div_toward_zero(direction.1 * speed, UNIT as int)),
    )
}

/// The velocity of a leg of wandering in `direction` at `speed`.
pub open spec fn wander_velocity(direction: Position, speed: i32) -> Position {
    (clamp32(direction.0 * speed), clamp32(direction.1 * speed))
}

/// Whether the movement rule looks at `entity`: it has a controller, the
/// wits of a chaser, a position and a velocity.
pub open spec fn roams(world: WorldModel, entity: int) -> bool {
    &&& component(world.animations, entity) is Some
    &&& component(world.chasers, entity) is Some
    &&& component(world.transforms, entity) is Some
    &&& component(world.velocities, entity) is Some
}

/// The world after `entity` has set off with `velocity`, playing `frames`.
pub open spec fn walking(
    world: WorldModel,
    entity: int,
    frames: Seq<AnimationFrame>,
    velocity: Position,
) -> WorldModel {
    WorldModel {
        animations: world.animations.update(
            entity,
            Some(begun(frames, AnimationState::Walking)),
        ),
        velocities: world.velocities.update(
            entity,
            Some(Velocity { vx: velocity.0, vy: velocity.1 }),
        ),
        rotations: inserted(world.rotations, entity, facing_along(velocity)),
        ..world
    }
}

/// The world after `entity` has come to a halt, playing `frames`.
pub open spec fn halted(world: WorldModel, entity: int, frames: Seq<AnimationFrame>) -> WorldModel {
    WorldModel {
        animations: world.animations.update(entity, Some(begun(frames, AnimationState::Idle))),
        velocities: world.velocities.update(entity, Some(Velocity { vx: 0, vy: 0 })),
        ..world
    }
}

/// The world after `entity`, which knows where its target is, has chosen
/// what to do: strike if it is a melee enemy in range, else walk towards the
/// target if that is farther than [`MIN_CHASE_DISTANCE`], else halt.
pub open spec fn pursued(world: WorldModel, entity: int, target: Position) -> WorldModel {
    let enemy = world.chasers[entity].unwrap();
    let position = world.transforms[entity].unwrap();
    let striking = match component(world.melee_enemies, entity) {
        Some(melee) => melee.in_melee,
        None => false,
    };
    if striking {
        WorldModel {
            animations: world.animations.update(
                entity,
                Some(
                    begun(
                        world.melee_enemies[entity].unwrap().attack_animation,
                        AnimationState::Attacking,
                    ),
                ),
            ),
            ..world
        }
    } else {
        let dx = target.0 - position.0;
        let dy = target.1 - position.1;
        if length_of(dx, dy) > MIN_CHASE_DISTANCE {
            walking(
                world,
                entity,
                enemy.walking_animation,
                chase_velocity(dx, dy, enemy.chase_speed),
            )
        } else {
            halted(world, entity, enemy.idle_animation)
        }
    }
}

/// The world after `entity`, which knows of no target, has wandered for
/// `delta` ticks. `sample` and `pick` are the random draws it may use.
///
/// The countdown moves on. On a leg: when the countdown has run out, the
/// entity halts and pauses for the time that `sample` selects from
/// [`REST_PAUSE`]; else it sets off in the leg's direction unless it walks
/// already. Between legs: when the countdown has run out, the next leg goes
/// in the direction `pick` and lasts the time that `sample` selects from
/// [`WANDER_LEG`].
pub open spec fn wandered(
    world: WorldModel,
    entity: int,
    delta: u32,
    sample: u32,
    pick: Position,
) -> WorldModel {
    let enemy = world.chasers[entity].unwrap();
    let state = world.animations[entity].unwrap().state;
    let remaining = clamp64(enemy.wander_progress - delta);
    match enemy.wander_direction {
        Some(direction) => if remaining <= 0 {
            WorldModel {
                chasers: world.chasers.update(
                    entity,
                    Some(
                        ChaserModel {
                            wander_progress: spread_of(REST_PAUSE.0, REST_PAUSE.1, sample),
                            wander_direction: None,
                            ..enemy
                        },
                    ),
                ),
                ..halted(world, entity, enemy.idle_animation)
            }
        } else if state != AnimationState::Walking {
            WorldModel {
                chasers: world.chasers.update(
                    entity,
                    Some(ChaserModel { wander_progress: remaining, ..enemy }),
                ),
                ..walking(
                    world,
                    entity,
                    enemy.walking_animation,
                    wander_velocity(direction, enemy.wander_speed),
                )
            }
        } else {
            WorldModel {
                chasers: world.chasers.update(
                    entity,
                    Some(ChaserModel { wander_progress: remaining, ..enemy }),
                ),
                ..world
            }
        },
        None => if remaining <= 0 {
            WorldModel {
                chasers: world.chasers.update(
                    entity,
                    Some(
                        ChaserModel {
                            wander_progress: spread_of(WANDER_LEG.0, WANDER_LEG.1, sample),
                            wander_direction: Some(pick),
                            ..enemy
                        },
                    ),
                ),
                ..world
            }
        } else {
            WorldModel {
                chasers: world.chasers.update(
                    entity,
                    Some(ChaserModel { wander_progress: remaining, ..enemy }),
                ),
                ..world
            }
        },
    }
}

/// The world after the movement rule has dealt with `entity`. An entity the
/// rule does not look at, or one that is busy attacking or staggering, is
/// left alone; one that knows its target pursues it; any other wanders.
pub open spec fn advanced(
    world: WorldModel,
    entity: int,
    delta: u32,
    sample: u32,
    pick: Position,
) -> WorldModel {
    if !roams(world, entity) || !free_to_move(world.animations[entity].unwrap().state) {
        world
    } else {
        match world.chasers[entity].unwrap().aware_of_player {
            Some(target) => pursued(world, entity, target),
            None => wandered(world, entity, delta, sample, pick),
        }
    }
}

/// Whether the movement rule needs random draws for `entity`: the entity
/// wanders and its countdown runs out in this tick.
pub open spec fn draws(world: WorldModel, entity: int, delta: u32) -> bool {
    &&& roams(world, entity)
    &&& free_to_move(world.animations[entity].unwrap().state)
    &&& world.chasers[entity].unwrap().aware_of_player is None
    &&& clamp64(world.chasers[entity].unwrap().wander_progress - delta) <= 0
}

/// The world after the movement rule has dealt with the first `count`
/// entities, entity `e` with the draws `samples[e]` and `picks[e]`.
pub open spec fn advanced_all(
    world: WorldModel,
    delta: u32,
    samples: Seq<u32>,
    picks: Seq<Position>,
    count: int,
) -> WorldModel
    decreases count,
{
    if count <= 0 {
        world
    } else {
        advanced(
            advanced_all(world, delta, samples, picks, count - 1),
            count - 1,
            delta,
            samples[count - 1],
            picks[count - 1],
        )
    }
}

/// Wandering, chasing and striking.
pub struct ChaseAndWanderSystem;

impl ChaseAndWanderSystem {
    /// Sends an entity on its way: it plays `animation` in the walking
    /// state, takes the velocity `direction` and faces where it goes.
    pub fn walk(
        rotations: &mut Vec<Option<Rotation>>,
        animation_controller: &mut AnimationController,
        animation: HitboxAnimation,
        velocity: &mut Velocity,
        entity: usize,
        direction: Position,
    )
        ensures
            final(animation_controller)@ == begun(animation@, AnimationState::Walking),
            *final(velocity) == (Velocity { vx: direction.0, vy: direction.1 }),
            final(rotations)@ == inserted(old(rotations)@, entity as int, facing_along(direction)),
    {
        animation_controller.start(animation, AnimationState::Walking);
        velocity.vx = direction.0;
        velocity.vy = direction.1;
        let rotation = if magnitude(direction.0) > magnitude(direction.1) {
            if direction.0 > 0 {
                Rotation::East
            } else {
                Rotation::West
            }
        } else {
            if direction.1 > 0 {
                Rotation::North
            } else {
                Rotation::South
            }
        };
        insert(rotations, entity, rotation);
    }

    /// Sends an entity on a leg of wandering in `direction`, at the enemy's
    /// wander speed.
    pub fn wander(
        rotations: &mut Vec<Option<Rotation>>,
        animation_controller: &mut AnimationController,
        velocity: &mut Velocity,
        enemy: &ChaseAndWanderEnemy,
        entity: usize,
        direction: Position,
    )
        ensures
            final(animation_controller)@ == begun(
                enemy@.walking_animation,
                AnimationState::Walking,
            ),
            *final(velocity) == (Velocity {
                vx: wander_velocity(direction, enemy.wander_speed).0,
                vy: wander_velocity(direction, enemy.wander_speed).1,
            }),
            final(rotations)@ == inserted(
                old(rotations)@,
                entity as int,
                facing_along(wander_velocity(direction, enemy.wander_speed)),
            ),
    {
        let wx = crate::units::saturate(crate::units::product(direction.0, enemy.wander_speed));
        let wy = crate::units::saturate(crate::units::product(direction.1, enemy.wander_speed));
        ChaseAndWanderSystem::walk(
            rotations,
            animation_controller,
            enemy.walking_animation.clone(),
            velocity,
            entity,
            (wx, wy),
        );
    }

    /// The velocity of a chase from `position` towards `target` at `speed`.
    pub fn chase(position: Position, target: Position, speed: i32) -> (r: Position)
        ensures
            r == chase_velocity(target.0 - position.0, target.1 - position.1, speed),
    {
        let dx: i64 = target.0 as i64 - position.0 as i64;
        let dy: i64 = target.1 as i64 - position.1 as i64;
        let direction = normalize(dx, dy);
        assert(-1000 * 0x8000_0000 <= direction.0 * speed <= 1000 * 0x8000_0000) by (nonlinear_arith)
            requires
                -1000 <= direction.0 <= 1000,
                -0x8000_0000 <= speed <= 0x8000_0000,
        ;
        assert(-1000 * 0x8000_0000 <= direction.1 * speed <= 1000 * 0x8000_0000) by (nonlinear_arith)
            requires
                -1000 <= direction.1 <= 1000,
                -0x8000_0000 <= speed <= 0x8000_0000,
        ;
        let wx = divide(direction.0 as i128 * speed as i128, UNIT as u64);
        let wy = divide(direction.1 as i128 * speed as i128, UNIT as u64);
        (crate::units::saturate_wide(wx), crate::units::saturate_wide(wy))
    }

    /// Whether [`ChaseAndWanderSystem::advance`] will use its random draws
    /// for `entity`.
    pub fn needs_draws(world: &World, entity: usize, delta: u32) -> (r: bool)
        ensures
            r == draws(world@, entity as int, delta),
    {
        proof {
            crate::storage::lemma_deep_component(world.animations, entity as int);
            crate::storage::lemma_deep_component(world.chasers, entity as int);
        }
        if !(has(&world.animations, entity) && has(&world.chasers, entity) && has(
            &world.transforms,
            entity,
        ) && has(&world.velocities, entity)) {
            return false;
        }
        let state = match &world.animations[entity] {
            Some(controller) => controller.state(),
            None => AnimationState::Idle,
        };
        if state != AnimationState::Idle && state != AnimationState::Walking {
            return false;
        }
        match &world.chasers[entity] {
            Some(enemy) => enemy.aware_of_player.is_none() && saturate64(
                enemy.wander_progress as i128 - delta as i128,
            ) <= 0,
            None => false,
        }
    }

    /// Lets `entity` decide and act for one tick of `delta` ticks, with the
    /// random draws `sample` and `pick` at hand.
    pub fn advance(world: &mut World, entity: usize, delta: u32, sample: u32, pick: Position)
        ensures
            final(world)@ == advanced(old(world)@, entity as int, delta, sample, pick),
    {
        proof {
            crate::storage::lemma_deep_component(world.animations, entity as int);
            crate::storage::lemma_deep_component(world.chasers, entity as int);
            crate::storage::lemma_deep_component(world.melee_enemies, entity as int);
        }
        if !(has(&world.animations, entity) && has(&world.chasers, entity) && has(
            &world.transforms,
            entity,
        ) && has(&world.velocities, entity)) {
            return ;
        }
        let state = match &world.animations[entity] {
            Some(controller) => controller.state(),
            None => AnimationState::Idle,
        };
        if state != AnimationState::Idle && state != AnimationState::Walking {
            return ;
        }
        let ghost start = world@;
        let position = world.transforms[entity].unwrap();
        let mut enemy = world.chasers[entity].take().unwrap();
        let mut controller = world.animations[entity].take().unwrap();
        let mut velocity = world.velocities[entity].unwrap();
        let ghost was = enemy@;
        assert(was == start.chasers[entity as int].unwrap());
        assert(controller@ == start.animations[entity as int].unwrap());
        match enemy.aware_of_player {
            Some(target) => {
                let attack = match crate::storage::get(&world.melee_enemies, entity) {
                    Some(melee) => if melee.in_melee {
                        Some(melee.attack_animation.clone())
                    } else {
                        None
                    },
                    None => None,
                };
                match attack {
                    Some(animation) => {
                        controller.start(animation, AnimationState::Attacking);
                    },
                    None => {
                        let dx: i64 = target.0 as i64 - position.0 as i64;
                        let dy: i64 = target.1 as i64 - position.1 as i64;
                        if length(dx, dy) > MIN_CHASE_DISTANCE {
                            let towards = ChaseAndWanderSystem::chase(
                                position,
                                target,
                                enemy.chase_speed,
                            );
                            ChaseAndWanderSystem::walk(
                                &mut world.rotations,
                                &mut controller,
                                enemy.walking_animation.clone(),
                                &mut velocity,
                                entity,
                                towards,
                            );
                        } else {
                            controller.start(enemy.idle_animation.clone(), AnimationState::Idle);
                            velocity.vx = 0;
                            velocity.vy = 0;
                        }
                    },
                }
            },
            None => {
                let remaining = saturate64(enemy.wander_progress as i128 - delta as i128);
                enemy.wander_progress = remaining;
                match enemy.wander_direction {
                    Some(direction) => {
                        if remaining <= 0 {
                            controller.start(enemy.idle_animation.clone(), AnimationState::Idle);
                            velocity.vx = 0;
                            velocity.vy = 0;
                            enemy.wander_progress = spread(REST_PAUSE.0, REST_PAUSE.1, sample);
                            enemy.wander_direction = None;
                        } else if state != AnimationState::Walking {
                            ChaseAndWanderSystem::wander(
                                &mut world.rotations,
                                &mut controller,
                                &mut velocity,
                                &enemy,
                                entity,
                                direction,
                            );
                        }
                    },
                    None => {
                        if remaining <= 0 {
                            enemy.wander_progress = spread(WANDER_LEG.0, WANDER_LEG.1, sample);
                            enemy.wander_direction = Some(pick);
                        }
                    },
                }
            },
        }
        world.chasers[entity] = Some(enemy);
        world.animations[entity] = Some(controller);
        world.velocities[entity] = Some(velocity);
        proof {
            let goal = advanced(start, entity as int, delta, sample, pick);
            assert(world@.animations =~= goal.animations);
            assert(world@.chasers =~= goal.chasers);
            assert(world@.velocities =~= goal.velocities);
            assert(world@.rotations =~= goal.rotations);
            assert(world@.melee_enemies =~= goal.melee_enemies);
        }
    }

    /// One tick of `delta` ticks of the rule: every entity decides and acts
    /// in turn, each with random draws of its own. The draws are a 32-bit
    /// sample and one of the four directions of [`wander_directions`].
    pub fn run(&mut self, world: &mut World, delta: u32)
        ensures
            exists|samples: Seq<u32>, picks: Seq<Position>|
                {
                    &&& samples.len() == old(world)@.animations.len()
                    &&& picks.len() == old(world)@.animations.len()
                    &&& forall|e: int|
                        0 <= e < picks.len() ==> wander_directions().contains(#[trigger] picks[e])
                    &&& final(world)@ == advanced_all(
                        old(world)@,
                        delta,
                        samples,
                        picks,
                        old(world)@.animations.len() as int,
                    )
                },
    {
        let count = world.animations.len();
        let options = wanders();
        let ghost mut samples: Seq<u32> = Seq::empty();
        let ghost mut picks: Seq<Position> = Seq::empty();
        let mut entity: usize = 0;
        while entity < count
            invariant
                entity <= count,
                count == old(world)@.animations.len(),
                options@ == wander_directions(),
                samples.len() == entity,
                picks.len() == entity,
                forall|e: int|
                    0 <= e < picks.len() ==> wander_directions().contains(#[trigger] picks[e]),
                world@ == advanced_all(old(world)@, delta, samples, picks, entity as int),
            decreases count - entity,
        {
            let mut sample: u32 = 0;
            let mut pick: Position = (1, 0);
            assert(wander_directions()[0] == (1i32, 0i32));
            if ChaseAndWanderSystem::needs_draws(world, entity, delta) {
                sample = crate::utils::random_sample();
                if let Some(direction) = crate::utils::random_choice(&options) {
                    pick = direction;
                }
            }
            let ghost before = world@;
            ChaseAndWanderSystem::advance(world, entity, delta, sample, pick);
            proof {
                let old_samples = samples;
                let old_picks = picks;
                samples = samples.push(sample);
                picks = picks.push(pick);
                lemma_advanced_all_prefix(
                    old(world)@,
                    delta,
                    old_samples,
                    old_picks,
                    samples,
                    picks,
                    entity as int,
                );
            }
            entity += 1;
        }
    }
}

/// The outcome for the first `count` entities depends on the first `count`
/// draws alone.
pub proof fn lemma_advanced_all_prefix(
    world: WorldModel,
    delta: u32,
    samples: Seq<u32>,
    picks: Seq<Position>,
    more_samples: Seq<u32>,
    more_picks: Seq<Position>,
    count: int,
)
    requires
        count <= samples.len() <= more_samples.len(),
        count <= picks.len() <= more_picks.len(),
        forall|e: int| 0 <= e < count ==> samples[e] == more_samples[e],
        forall|e: int| 0 <= e < count ==> picks[e] == more_picks[e],
    ensures
        advanced_all(world, delta, samples, picks, count) == advanced_all(
            world,
            delta,
            more_samples,
            more_picks,
            count,
        ),
    decreases count,
{
    if count > 0 {
        lemma_advanced_all_prefix(
            world,
            delta,
            samples,
            picks,
            more_samples,
            more_picks,
            count - 1,
        );
    }
}

/// Sight: the enemies' sight channel against the channel on which things can
/// be hit by enemies.
pub struct SightSystem;

impl HitboxCollisionSystem for SightSystem {
    open spec fn source_channel() -> usize {
        ENEMY_SIGHT_BOX
    }

    open spec fn target_channel() -> usize {
        ENEMY_HITTABLE_BOX
    }

    /// A chaser with a controller that sees a target remembers where the
    /// target stands.
    open spec fn response(world: WorldModel, event: CollisionEvent) -> WorldModel {
        let watcher = event.entity_a as int;
        match (
            component(world.animations, watcher),
            component(world.chasers, watcher),
            component(world.transforms, event.entity_b as int),
        ) {
            (Some(_), Some(enemy), Some(seen_at)) => WorldModel {
                chasers: world.chasers.update(
                    watcher,
                    Some(ChaserModel { aware_of_player: Some(seen_at), ..enemy }),
                ),
                ..world
            },
            _ => world,
        }
    }

    fn source() -> (r: usize) {
        ENEMY_SIGHT_BOX
    }

    fn target() -> (r: usize) {
        ENEMY_HITTABLE_BOX
    }

    fn collide(
        &self,
        collision: HitboxCollision,
        entity_a: usize,
        entity_b: usize,
        world: &mut World,
    ) {
        proof {
            crate::storage::lemma_deep_component(world.animations, entity_a as int);
            crate::storage::lemma_deep_component(world.chasers, entity_a as int);
        }
        if has(&world.animations, entity_a) && has(&world.chasers, entity_a) {
            if let Some(seen_at) = fetch(&world.transforms, entity_b) {
                match &mut world.chasers[entity_a] {
                    Some(enemy) => {
                        enemy.aware_of_player = Some(seen_at);
                    },
                    None => {},
                }
            }
        }
        assert(world@.chasers =~= Self::response(
            old(world)@,
            CollisionEvent { collision, entity_a, entity_b },
        ).chasers);
    }
}

impl SightSystem {
    /// One tick of the rule.
    pub fn run(&mut self, world: &mut World)
        ensures
            final(world)@ == checked::<SightSystem>(old(world)@),
    {
        check_collisions(&*self, world);
    }
}

/// The melee enemies with every one of them out of range.
pub open spec fn out_of_range(melee_enemies: Seq<Option<MeleeModel>>) -> Seq<Option<MeleeModel>> {
    Seq::new(
        melee_enemies.len(),
        |e: int|
            match melee_enemies[e] {
                Some(enemy) => Some(MeleeModel { in_melee: false, ..enemy }),
                None => None,
            },
    )
}

/// Aim: the enemies' aiming channel against the channel on which things can
/// be hit by enemies.
pub struct AimingSystem;

impl HitboxCollisionSystem for AimingSystem {
    open spec fn source_channel() -> usize {
        ENEMY_AIMING_BOX
    }

    open spec fn target_channel() -> usize {
        ENEMY_HITTABLE_BOX
    }

    /// A melee enemy with a controller whose aim reaches a target that has a
    /// position is in range.
    open spec fn response(world: WorldModel, event: CollisionEvent) -> WorldModel {
        let aimer = event.entity_a as int;
        match (
            component(world.animations, aimer),
            component(world.melee_enemies, aimer),
            component(world.transforms, event.entity_b as int),
        ) {
            (Some(_), Some(enemy), Some(_)) => WorldModel {
                melee_enemies: world.melee_enemies.update(
                    aimer,
                    Some(MeleeModel { in_melee: true, ..enemy }),
                ),
                ..world
            },
            _ => world,
        }
    }

    fn source() -> (r: usize) {
        ENEMY_AIMING_BOX
    }

    fn target() -> (r: usize) {
        ENEMY_HITTABLE_BOX
    }

    fn collide(
        &self,
        collision: HitboxCollision,
        entity_a: usize,
        entity_b: usize,
        world: &mut World,
    ) {
        proof {
            crate::storage::lemma_deep_component(world.animations, entity_a as int);
            crate::storage::lemma_deep_component(world.melee_enemies, entity_a as int);
        }
        if has(&world.animations, entity_a) && has(&world.melee_enemies, entity_a) && has(
            &world.transforms,
            entity_b,
        ) {
            match &mut world.melee_enemies[entity_a] {
                Some(enemy) => {
                    enemy.in_melee = true;
                },
                None => {},
            }
        }
        assert(world@.melee_enemies =~= Self::response(
            old(world)@,
            CollisionEvent { collision, entity_a, entity_b },
        ).melee_enemies);
    }
}

impl AimingSystem {
    /// One tick of the rule: every melee enemy is out of range until the
    /// scan finds a target in its aim.
    pub fn run(&mut self, world: &mut World)
        ensures
            final(world)@ == checked::<AimingSystem>(
                WorldModel {
                    melee_enemies: out_of_range(old(world)@.melee_enemies),
                    ..old(world)@
                },
            ),
    {
        let count = world.melee_enemies.len();
        let mut entity: usize = 0;
        let ghost start = old(world)@;
        while entity < count
            invariant
                entity <= count,
                count == start.melee_enemies.len(),
                start == old(world)@,
                world@.melee_enemies.len() == count,
                forall|e: int|
                    0 <= e < count ==> world@.melee_enemies[e] == (if e < entity {
                        out_of_range(start.melee_enemies)[e]
                    } else {
                        start.melee_enemies[e]
                    }),
                world@ == (WorldModel { melee_enemies: world@.melee_enemies, ..start }),
            decreases count - entity,
        {
            let ghost before = world@;
            match &mut world.melee_enemies[entity] {
                Some(enemy) => {
                    enemy.in_melee = false;
                },
                None => {},
            }
            proof {
                assert(before.melee_enemies[entity as int] == start.melee_enemies[entity as int]);
                assert(world@.melee_enemies[entity as int] == out_of_range(
                    start.melee_enemies,
                )[entity as int]);
                assert(forall|e: int|
                    #![trigger world@.melee_enemies[e]]
                    0 <= e < count && e != entity ==> world@.melee_enemies[e]
                        == before.melee_enemies[e]);
            }
            entity += 1;
        }
        assert(world@.melee_enemies =~= out_of_range(start.melee_enemies));
        check_collisions(&*self, world);
    }
}

/// The frames of a goblin's attack: a wind-up, a lunge that strikes high, a
/// pause, a lunge that strikes low, a pause, and a rest.
pub open spec fn goblin_attack_frames() -> Seq<AnimationFrame> {
    seq![
        with_sprite(plain_frame(Some((0, 0)), 125), GOBLIN_ATTACK_0),
        with_sprite(
            with_hitbox(
                plain_frame(Some((50000, 0)), 125),
                ENEMY_ATTACK_BOX as int,
                Hitbox { width: 8000, height: 8000, offset: (8000, 2000) },
            ),
            GOBLIN_ATTACK_1,
        ),
        with_sprite(plain_frame(Some((50000, 0)), 375), GOBLIN_ATTACK_2),
        with_sprite(
            with_hitbox(
                plain_frame(Some((50000, 0)), 125),
                ENEMY_ATTACK_BOX as int,
                Hitbox { width: 8000, height: 8000, offset: (8000, -2000i32) },
            ),
            GOBLIN_ATTACK_3,
        ),
        with_sprite(plain_frame(Some((50000, 0)), 375), GOBLIN_ATTACK_4),
        with_sprite(plain_frame(Some((0, 0)), 500), GOBLIN_IDLE),
    ]
}

/// The animation of a goblin's attack.
pub fn goblin_attack() -> (r: HitboxAnimation)
    ensures
        r@ == goblin_attack_frames(),
{
    let mut animation = HitboxAnimation::new();
    let frame = animation.add_frame_with_velocity((0, 0), 125);
    animation.set_sprite(frame, GOBLIN_ATTACK_0);
    let frame = animation.add_frame_with_velocity((50000, 0), 125);
    animation.set_hitbox(frame, ENEMY_ATTACK_BOX, Hitbox::new_at(4000, (8000, 2000)));
    animation.set_sprite(frame, GOBLIN_ATTACK_1);
    let frame = animation.add_frame_with_velocity((50000, 0), 375);
    animation.set_sprite(frame, GOBLIN_ATTACK_2);
    let frame = animation.add_frame_with_velocity((50000, 0), 125);
    animation.set_hitbox(frame, ENEMY_ATTACK_BOX, Hitbox::new_at(4000, (8000, -2000)));
    animation.set_sprite(frame, GOBLIN_ATTACK_3);
    let frame = animation.add_frame_with_velocity((50000, 0), 375);
    animation.set_sprite(frame, GOBLIN_ATTACK_4);
    let frame = animation.add_frame_with_velocity((0, 0), 500);
    animation.set_sprite(frame, GOBLIN_IDLE);
    assert(animation@ =~= goblin_attack_frames());
    animation
}

/// The channels of a goblin: where it aims, what it sees, and where the
/// player can hit it.
pub open spec fn goblin_channels() -> HitModel {
    HitModel::empty().with_slot(
        ENEMY_AIMING_BOX as int,
        Some(Hitbox { width: 20000, height: 10000, offset: (16000, 0) }),
    ).with_slot(
        ENEMY_SIGHT_BOX as int,
        Some(Hitbox { width: 64000, height: 64000, offset: (20000, 0) }),
    ).with_slot(
        PLAYER_HITTABLE_BOX as int,
        Some(Hitbox { width: 12000, height: 12000, offset: (0, 0) }),
    )
}

/// The world with a goblin at `(x, y)` as its newest entity.
pub open spec fn with_goblin(world: WorldModel, x: i32, y: i32) -> WorldModel {
    let entity = world.extent() as int;
    WorldModel {
        transforms: inserted(world.transforms, entity, (x, y)),
        velocities: inserted(world.velocities, entity, Velocity { vx: 0, vy: 0 }),
        physicals: inserted(
            world.physicals,
            entity,
            Physical {
                hitbox: Hitbox { width: 12000, height: 12000, offset: (0, 0) },
                is_static: false,
            },
        ),
        rotations: inserted(world.rotations, entity, Rotation::East),
        animations: inserted(world.animations, entity, at_rest()),
        hit_states: inserted(world.hit_states, entity, goblin_channels()),
        healths: inserted(world.healths, entity, Health { max: 2, left: 2, invuln: 0 }),
        enemies: inserted(world.enemies, entity, Enemy { invisible: false }),
        sprites: inserted(world.sprites, entity, GOBLIN_IDLE),
        melee_enemies: inserted(
            world.melee_enemies,
            entity,
            MeleeModel { in_melee: false, attack_animation: goblin_attack_frames(), damage: 1 },
        ),
        chasers: inserted(
            world.chasers,
            entity,
            ChaserModel {
                aware_of_player: None,
                idle_animation: idle_frames(GOBLIN_IDLE),
                walking_animation: walking_frames(GOBLIN_IDLE, GOBLIN_WALK_0, GOBLIN_WALK_1, 100),
                wander_speed: 50000,
                chase_speed: 75000,
                wander_direction: None,
                wander_progress: FIRST_PAUSE,
            },
        ),
        ..world
    }
}

/// Creates a goblin at `(x, y)` and returns it.
pub fn spawn_goblin(world: &mut World, x: i32, y: i32) -> (entity: usize)
    ensures
        entity == old(world)@.extent(),
        final(world)@ == with_goblin(old(world)@, x, y),
{
    let idle = idle_animation(GOBLIN_IDLE);
    let walking = walking_animation(GOBLIN_IDLE, GOBLIN_WALK_0, GOBLIN_WALK_1, 100);
    let attack_animation = goblin_attack();
    let mut hitstate = HitState::new();
    hitstate.set(ENEMY_AIMING_BOX, 20000, 10000, (16000, 0));
    hitstate.set(ENEMY_SIGHT_BOX, 64000, 64000, (20000, 0));
    hitstate.set(PLAYER_HITTABLE_BOX, 12000, 12000, (0, 0));
    let entity = world.spawn_at(x, y);
    world.with_physics(entity, 6000);
    insert(&mut world.animations, entity, AnimationController::new());
    insert(&mut world.hit_states, entity, hitstate);
    insert(&mut world.healths, entity, Health::new(2));
    insert(&mut world.enemies, entity, Enemy::new());
    world.with_sprite(entity, GOBLIN_IDLE);
    insert(&mut world.melee_enemies, entity, MeleeEnemy::new(attack_animation, 1));
    insert(
        &mut world.chasers,
        entity,
        ChaseAndWanderEnemy::new(idle, walking, 50000, 75000),
    );
    proof {
        let goal = with_goblin(old(world)@, x, y);
        assert(world@.animations =~= goal.animations);
        assert(world@.hit_states =~= goal.hit_states);
        assert(world@.melee_enemies =~= goal.melee_enemies);
        assert(world@.chasers =~= goal.chasers);
    }
    entity
}

} // verus!
