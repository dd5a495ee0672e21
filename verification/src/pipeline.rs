//! The first phases of a tick: animations advance and write their frames
//! into the world, and channel tables take up the facing of their entities.

use vstd::prelude::*;
use crate::animation::{AnimationFrame, Playback};
use crate::collision::checked;
use crate::combat::{doomed_list, reaped, DeathSystem, EnemyDamageSystem, PlayerDamageSystem};
use crate::drops::PurchaseSystem;
use crate::enemies::{
    advanced_all, out_of_range, wander_directions, AimingSystem, ChaseAndWanderSystem, SightSystem,
};
use crate::geometry::{Position, Velocity};
use crate::hitstate::{HitModel, ENEMY_ATTACK_BOX, PLAYER_ATTACK_BOX};
use crate::physics::{moved_table, settled_table, RestitutionSystem, VelocitySystem};
use crate::player::{
    attacked, hearts_shown, steered_all, PlayerAttackSystem, PlayerHeartSystem, PlayerMovementSystem,
};
use crate::storage::{component, fetch, has, World, WorldModel};
use crate::world::{ported, ExitSystem, PortalSystem, WorldState};

verus! {

/// Whether the animation rule looks at `entity`: it has a controller and a
/// sprite.
pub open spec fn animated_entity(world: WorldModel, entity: int) -> bool {
    component(world.animations, entity) is Some && component(world.sprites, entity) is Some
}

/// The frame that the animation of `entity` shows after `delta` more ticks,
/// if the rule looks at the entity and its animation is still playing then.
pub open spec fn current_frame(world: WorldModel, entity: int, delta: u32) -> Option<
    AnimationFrame,
> {
    if animated_entity(world, entity) && world.animations[entity].unwrap().animation is Some {
        world.animations[entity].unwrap().stepped(delta).1
    } else {
        None
    }
}

/// The controller of `entity` after the rule: one that plays has advanced by
/// `delta` ticks.
pub open spec fn animated_playback(world: WorldModel, entity: int, delta: u32) -> Option<
    Playback,
> {
    match world.animations[entity] {
        Some(playback) => if animated_entity(world, entity) && playback.animation is Some {
            Some(playback.stepped(delta).0)
        } else {
            Some(playback)
        },
        None => None,
    }
}

/// The channel table of `entity` after the rule: the two attack channels are
/// emptied, then the channels that the current frame sets are overwritten.
pub open spec fn animated_hit_state(world: WorldModel, entity: int, delta: u32) -> Option<
    HitModel,
> {
    match world.hit_states[entity] {
        Some(state) => if animated_entity(world, entity) {
            let cleared = state.with_slot(ENEMY_ATTACK_BOX as int, None).with_slot(
                PLAYER_ATTACK_BOX as int,
                None,
            );
            match current_frame(world, entity, delta) {
                Some(frame) => Some(cleared.overlaid(frame.hitboxes@)),
                None => Some(cleared),
            }
        } else {
            Some(state)
        },
        None => None,
    }
}

/// The velocity of `entity` after the rule: that of the current frame, turned
/// to the entity's facing if it has one.
pub open spec fn animated_velocity(world: WorldModel, entity: int, delta: u32) -> Option<
    Velocity,
> {
    match (world.velocities[entity], current_frame(world, entity, delta)) {
        (Some(velocity), Some(frame)) => match frame.velocity {
            Some(authored) => {
                let turned = match component(world.rotations, entity) {
                    Some(rotation) => rotation.rotated(authored),
                    None => authored,
                };
                Some(Velocity { vx: turned.0, vy: turned.1 })
            },
            None => Some(velocity),
        },
        (own, _) => own,
    }
}

/// The sprite of `entity` after the rule: that of the current frame, if it
/// names one.
pub open spec fn animated_sprite(world: WorldModel, entity: int, delta: u32) -> Option<usize> {
    match (world.sprites[entity], current_frame(world, entity, delta)) {
        (Some(sprite), Some(frame)) => match frame.sprite {
            Some(id) => Some(id),
            None => Some(sprite),
        },
        (own, _) => own,
    }
}

/// The world after the animation rule has run for `delta` ticks.
pub open spec fn animated(world: WorldModel, delta: u32) -> WorldModel {
    WorldModel {
        animations: Seq::new(
            world.animations.len(),
            |e: int| animated_playback(world, e, delta),
        ),
        hit_states: Seq::new(
            world.hit_states.len(),
            |e: int| animated_hit_state(world, e, delta),
        ),
        velocities: Seq::new(
            world.velocities.len(),
            |e: int| animated_velocity(world, e, delta),
        ),
        sprites: Seq::new(world.sprites.len(), |e: int| animated_sprite(world, e, delta)),
        ..world
    }
}

/// The animation rule.
pub struct AnimationSystem;

impl AnimationSystem {
    /// One tick of `delta` ticks: every entity with a controller and a sprite
    /// has its attack channels emptied; if its animation plays, it advances,
    /// and the frame then current sets channels, velocity and sprite.
    pub fn run(&mut self, world: &mut World, delta: u32)
        ensures
            final(world)@ == animated(old(world)@, delta),
    {
        let count = world.animations.len();
        let mut entity: usize = 0;
        let ghost start = old(world)@;
        while entity < count
            invariant
                entity <= count,
                count == start.animations.len(),
                start == old(world)@,
                world@.animations.len() == start.animations.len(),
                world@.hit_states.len() == start.hit_states.len(),
                world@.velocities.len() == start.velocities.len(),
                world@.sprites.len() == start.sprites.len(),
                forall|e: int|
                    0 <= e < world@.animations.len() ==> world@.animations[e] == (if e < entity {
                        animated_playback(start, e, delta)
                    } else {
                        start.animations[e]
                    }),
                forall|e: int|
                    0 <= e < world@.hit_states.len() ==> world@.hit_states[e] == (if e < entity {
                        animated_hit_state(start, e, delta)
                    } else {
                        start.hit_states[e]
                    }),
                forall|e: int|
                    0 <= e < world@.velocities.len() ==> world@.velocities[e] == (if e < entity {
                        animated_velocity(start, e, delta)
                    } else {
                        start.velocities[e]
                    }),
                forall|e: int|
                    0 <= e < world@.sprites.len() ==> world@.sprites[e] == (if e < entity {
                        animated_sprite(start, e, delta)
                    } else {
                        start.sprites[e]
                    }),
                world@ == (WorldModel {
                    animations: world@.animations,
                    hit_states: world@.hit_states,
                    velocities: world@.velocities,
                    sprites: world@.sprites,
                    ..start
                }),
            decreases count - entity,
        {
            let ghost before = world@;
            assert(before.animations[entity as int] == start.animations[entity as int]);
            assert(component(before.hit_states, entity as int) == component(
                start.hit_states,
                entity as int,
            ));
            assert(component(before.velocities, entity as int) == component(
                start.velocities,
                entity as int,
            ));
            assert(component(before.sprites, entity as int) == component(
                start.sprites,
                entity as int,
            ));
            if has(&world.sprites, entity) && world.animations[entity].is_some() {
                assert(animated_entity(start, entity as int));
                if entity < world.hit_states.len() {
                    match &mut world.hit_states[entity] {
                        Some(state) => {
                            state.clear(ENEMY_ATTACK_BOX);
                            state.clear(PLAYER_ATTACK_BOX);
                        },
                        None => {},
                    }
                }
                let frame = match &mut world.animations[entity] {
                    Some(controller) => {
                        if controller.active() {
                            controller.step(delta)
                        } else {
                            None
                        }
                    },
                    None => None,
                };
                assert(frame == current_frame(start, entity as int, delta));
                assert(world@.animations[entity as int] == animated_playback(
                    start,
                    entity as int,
                    delta,
                ));
                if let Some(frame) = frame {
                    if entity < world.hit_states.len() {
                        match &mut world.hit_states[entity] {
                            Some(state) => {
                                state.overlay(&frame.hitboxes);
                            },
                            None => {},
                        }
                    }
                    if let Some(authored) = frame.velocity {
                        let turned = match fetch(&world.rotations, entity) {
                            Some(rotation) => rotation.rotate(authored),
                            None => authored,
                        };
                        if entity < world.velocities.len() {
                            match &mut world.velocities[entity] {
                                Some(velocity) => {
                                    velocity.vx = turned.0;
                                    velocity.vy = turned.1;
                                },
                                None => {},
                            }
                        }
                    }
                    if let Some(id) = frame.sprite {
                        world.sprites[entity] = Some(id);
                    }
                }
            } else {
                assert(!animated_entity(start, entity as int));
            }
            proof {
                assert(world@.animations[entity as int] == animated_playback(
                    start,
                    entity as int,
                    delta,
                ));
                if entity < start.hit_states.len() {
                    assert(world@.hit_states[entity as int] == animated_hit_state(
                        start,
                        entity as int,
                        delta,
                    ));
                }
                if entity < start.velocities.len() {
                    assert(world@.velocities[entity as int] == animated_velocity(
                        start,
                        entity as int,
                        delta,
                    ));
                }
                if entity < start.sprites.len() {
                    assert(world@.sprites[entity as int] == animated_sprite(
                        start,
                        entity as int,
                        delta,
                    ));
                }
                assert(forall|e: int|
                    #![trigger world@.animations[e]]
                    0 <= e < start.animations.len() && e != entity ==> world@.animations[e]
                        == before.animations[e]);
                assert(forall|e: int|
                    #![trigger world@.hit_states[e]]
                    0 <= e < start.hit_states.len() && e != entity ==> world@.hit_states[e]
                        == before.hit_states[e]);
                assert(forall|e: int|
                    #![trigger world@.velocities[e]]
                    0 <= e < start.velocities.len() && e != entity ==> world@.velocities[e]
                        == before.velocities[e]);
                assert(forall|e: int|
                    #![trigger world@.sprites[e]]
                    0 <= e < start.sprites.len() && e != entity ==> world@.sprites[e]
                        == before.sprites[e]);
            }
            entity += 1;
        }
        assert(world@.animations =~= animated(start, delta).animations);
        assert(world@.hit_states =~= animated(start, delta).hit_states);
        assert(world@.velocities =~= animated(start, delta).velocities);
        assert(world@.sprites =~= animated(start, delta).sprites);
    }
}

/// The channel tables after each has taken up the facing of its entity. A
/// table whose entity has no facing keeps the one it reads with.
pub open spec fn faced_table(
    hit_states: Seq<Option<HitModel>>,
    rotations: Seq<Option<crate::geometry::Rotation>>,
) -> Seq<Option<HitModel>> {
    Seq::new(
        hit_states.len(),
        |e: int|
            match (hit_states[e], component(rotations, e)) {
                (Some(state), Some(rotation)) => Some(state.facing_to(rotation)),
                (own, _) => own,
            },
    )
}

/// The rule that hands facings to channel tables.
pub struct RotationSystem;

impl RotationSystem {
    /// One tick: every channel table reads through the facing of its entity
    /// from now on.
    pub fn run(&mut self, world: &mut World)
        ensures
            final(world)@ == (WorldModel {
                hit_states: faced_table(old(world)@.hit_states, old(world)@.rotations),
                ..old(world)@
            }),
    {
        let count = world.hit_states.len();
        let mut entity: usize = 0;
        let ghost start = old(world)@;
        while entity < count
            invariant
                entity <= count,
                count == start.hit_states.len(),
                start == old(world)@,
                world@.hit_states.len() == count,
                forall|e: int|
                    0 <= e < count ==> world@.hit_states[e] == (if e < entity {
                        faced_table(start.hit_states, start.rotations)[e]
                    } else {
                        start.hit_states[e]
                    }),
                world@ == (WorldModel { hit_states: world@.hit_states, ..start }),
            decreases count - entity,
        {
            let ghost before = world@;
            if let Some(rotation) = fetch(&world.rotations, entity) {
                match &mut world.hit_states[entity] {
                    Some(state) => {
                        state.rotate(rotation);
                    },
                    None => {},
                }
            }
            proof {
                let r = component(start.rotations, entity as int);
                let h = before.hit_states[entity as int];
                assert(h == start.hit_states[entity as int]);
                if r is None {
                    assert(world@.hit_states[entity as int] == h);
                } else if h is None {
                    assert(world@.hit_states[entity as int] is None);
                } else {
                    assert(world@.hit_states[entity as int] == Some(h.unwrap().facing_to(r.unwrap())));
                }
            }
            assert(world@.hit_states[entity as int] == faced_table(
                start.hit_states,
                start.rotations,
            )[entity as int]);
            assert(forall|e: int|
                #![trigger world@.hit_states[e]]
                0 <= e < count && e != entity ==> world@.hit_states[e] == before.hit_states[e]);
            entity += 1;
        }
        assert(world@.hit_states =~= faced_table(start.hit_states, start.rotations));
    }
}

/// What the player asks for during one tick: the input on the two axes, of
/// which only the signs matter, and whether the attack and interact actions
/// are held. `None` stands for an input that is not known.
#[derive(Clone, Copy, Debug, PartialEq, Eq)]
pub struct Input {
    pub x_tilt: Option<i32>,
    pub y_tilt: Option<i32>,
    pub attack: Option<bool>,
    pub interact: Option<bool>,
}

/// The world after the decisions of a tick: the player steers, the enemies
/// roam with the draws `samples` and `picks`, and attacks begin.
pub open spec fn decided(
    world: WorldModel,
    input: Input,
    delta: u32,
    samples: Seq<u32>,
    picks: Seq<Position>,
    idle: Seq<AnimationFrame>,
    walking: Seq<AnimationFrame>,
    attacks: Seq<Seq<AnimationFrame>>,
) -> WorldModel {
    let steered = match (input.x_tilt, input.y_tilt) {
        (Some(x), Some(y)) => steered_all(
            world,
            (x, y),
            delta,
            idle,
            walking,
            world.players.len() as int,
        ),
        _ => world,
    };
    let roamed = advanced_all(steered, delta, samples, picks, steered.animations.len() as int);
    attacked(roamed, input.attack, attacks)
}

/// The world after animations have advanced and channel tables have taken
/// up the facings.
pub open spec fn posed(world: WorldModel, delta: u32) -> WorldModel {
    let moved = animated(world, delta);
    WorldModel { hit_states: faced_table(moved.hit_states, moved.rotations), ..moved }
}

/// The world after the hits of a tick have landed, sight and aim have been
/// taken, and the dead have been removed.
pub open spec fn fought(world: WorldModel, delta: u32) -> WorldModel {
    reaped(aimed(world), delta)
}

/// The world after the hits of a tick have landed and sight and aim have
/// been taken.
pub open spec fn aimed(world: WorldModel) -> WorldModel {
    let seen = checked::<SightSystem>(
        checked::<EnemyDamageSystem>(checked::<PlayerDamageSystem>(world)),
    );
    checked::<AimingSystem>(
        WorldModel { melee_enemies: out_of_range(seen.melee_enemies), ..seen },
    )
}

/// The world after the rules of the level: the portal, purchases and the
/// exit.
pub open spec fn traded(world: WorldModel, interact: Option<bool>) -> WorldModel {
    let opened = ported(world);
    let bought = if interact == Some(true) {
        checked::<PurchaseSystem>(opened)
    } else {
        opened
    };
    checked::<ExitSystem>(
        WorldModel {
            state: match bought.state {
                Some(state) => Some(WorldState { on_portal: false, ..state }),
                None => None,
            },
            ..bought
        },
    )
}

/// The world after every entity has moved, bodies have been separated and
/// the player's hearts have been drawn.
pub open spec fn settled_world(world: WorldModel, delta: u32) -> WorldModel {
    let moved = WorldModel {
        transforms: moved_table(world.transforms, world.velocities, delta),
        ..world
    };
    let apart = WorldModel { transforms: settled_table(moved), ..moved };
    WorldModel { sprites: hearts_shown(apart, apart.players.len() as int), ..apart }
}

/// The world after one whole tick of `delta` ticks. The phases follow each
/// other in a fixed order, each on the world that the one before has left:
/// decisions, animations and facings, hits and deaths, the rules of the
/// level, and last movement, restitution and the hearts.
pub open spec fn ticked(
    world: WorldModel,
    input: Input,
    delta: u32,
    samples: Seq<u32>,
    picks: Seq<Position>,
    idle: Seq<AnimationFrame>,
    walking: Seq<AnimationFrame>,
    attacks: Seq<Seq<AnimationFrame>>,
) -> WorldModel {
    settled_world(
        traded(
            fought(
                posed(decided(world, input, delta, samples, picks, idle, walking, attacks), delta),
                delta,
            ),
            input.interact,
        ),
        delta,
    )
}

/// The entities that die in a tick, in rising order.
pub open spec fn died(
    world: WorldModel,
    input: Input,
    delta: u32,
    samples: Seq<u32>,
    picks: Seq<Position>,
    idle: Seq<AnimationFrame>,
    walking: Seq<AnimationFrame>,
    attacks: Seq<Seq<AnimationFrame>>,
) -> Seq<usize> {
    let before = aimed(
        posed(decided(world, input, delta, samples, picks, idle, walking, attacks), delta),
    );
    doomed_list(before, before.healths.len() as int)
}

/// The rules that keep state of their own between ticks.
pub struct Simulation {
    pub movement: PlayerMovementSystem,
    pub attack: PlayerAttackSystem,
}

impl Simulation {
    pub fn new() -> (r: Simulation)
        ensures
            r.movement.idle_frames() == crate::utils::idle_frames(crate::sprites::PLAYER_IDLE),
            r.movement.walking_frames() == crate::utils::walking_frames(
                crate::sprites::PLAYER_IDLE,
                crate::sprites::PLAYER_WALK_0,
                crate::sprites::PLAYER_WALK_1,
                100,
            ),
            r.attack.attack_frames() == seq![crate::player::base_attack_frames()],
    {
        Simulation { movement: PlayerMovementSystem::new(), attack: PlayerAttackSystem::new() }
    }

    /// Runs one whole tick of `delta` ticks and returns the entities that
    /// died in it. The enemies roam with random draws: for each entity a
    /// 32-bit sample and one of the four directions of wandering.
    pub fn tick(&mut self, world: &mut World, input: Input, delta: u32) -> (destroyed: Vec<usize>)
        ensures
            final(self).movement.idle_frames() == old(self).movement.idle_frames(),
            final(self).movement.walking_frames() == old(self).movement.walking_frames(),
            final(self).attack.attack_frames() == old(self).attack.attack_frames(),
            exists|samples: Seq<u32>, picks: Seq<Position>|
                {
                    &&& forall|e: int|
                        0 <= e < picks.len() ==> wander_directions().contains(#[trigger] picks[e])
                    &&& final(world)@ == ticked(
                        old(world)@,
                        input,
                        delta,
                        samples,
                        picks,
                        old(self).movement.idle_frames(),
                        old(self).movement.walking_frames(),
                        old(self).attack.attack_frames(),
                    )
                    &&& destroyed@ == died(
                        old(world)@,
                        input,
                        delta,
                        samples,
                        picks,
                        old(self).movement.idle_frames(),
                        old(self).movement.walking_frames(),
                        old(self).attack.attack_frames(),
                    )
                },
    {
        let ghost idle = self.movement.idle_frames();
        let ghost walking = self.movement.walking_frames();
        let ghost attacks = self.attack.attack_frames();
        self.movement.run(world, input.x_tilt, input.y_tilt, delta);
        let ghost steered = world@;
        ChaseAndWanderSystem.run(world, delta);
        let ghost (samples, picks) = choose|samples: Seq<u32>, picks: Seq<Position>|
            {
                &&& samples.len() == steered.animations.len()
                &&& picks.len() == steered.animations.len()
                &&& forall|e: int|
                    0 <= e < picks.len() ==> wander_directions().contains(#[trigger] picks[e])
                &&& world@ == advanced_all(
                    steered,
                    delta,
                    samples,
                    picks,
                    steered.animations.len() as int,
                )
            };
        self.attack.run(world, input.attack);
        assert(world@ == decided(old(world)@, input, delta, samples, picks, idle, walking, attacks));
        AnimationSystem.run(world, delta);
        RotationSystem.run(world);
        PlayerDamageSystem.run(world);
        EnemyDamageSystem.run(world);
        SightSystem.run(world);
        AimingSystem.run(world);
        let destroyed = DeathSystem.run(world, delta);
        PortalSystem.run(world);
        PurchaseSystem.run(world, input.interact);
        ExitSystem.run(world);
        VelocitySystem.run(world, delta);
        RestitutionSystem.run(world);
        PlayerHeartSystem.run(world);
        assert(world@ == ticked(old(world)@, input, delta, samples, picks, idle, walking, attacks));
        destroyed
    }
}

} // verus!
