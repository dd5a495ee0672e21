//! Movement by velocity and the separation of bodies that overlap.

use vstd::prelude::*;
use crate::geometry::{Physical, Position, Velocity};
use crate::storage::{component, fetch, World, WorldModel};
use crate::units::{abs, clamp32, magnitude, saturate_wide, TICKS_PER_SECOND};

verus! {

/// Distance covered in `delta` ticks at `speed`, rounded towards zero.
pub open spec fn displacement(speed: i32, delta: u32) -> int {
    if speed >= 0 {
        speed * delta / (TICKS_PER_SECOND as int)
    } else {
        -((-speed) * delta / (TICKS_PER_SECOND as int))
    }
}

/// `position` after `delta` ticks at `velocity`.
pub open spec fn moved(position: Position, velocity: Velocity, delta: u32) -> Position {
    (
        clamp32(position.0 + displacement(velocity.vx, delta)),
        clamp32(position.1 + displacement(velocity.vy, delta)),
    )
}

/// The positions after every entity that has a velocity has moved for
/// `delta` ticks.
pub open spec fn moved_table(
    transforms: Seq<Option<Position>>,
    velocities: Seq<Option<Velocity>>,
    delta: u32,
) -> Seq<Option<Position>> {
    Seq::new(
        transforms.len(),
        |e: int|
            match (transforms[e], component(velocities, e)) {
                (Some(position), Some(velocity)) => Some(moved(position, velocity, delta)),
                _ => transforms[e],
            },
    )
}

/// Distance covered in `delta` ticks at `speed`.
pub fn travel(speed: i32, delta: u32) -> (r: i64)
    ensures
        r == displacement(speed, delta),
{
    let size: u64 = magnitude(speed) as u64;
    assert(size * delta <= 0x8000_0000 * 0xffff_ffff) by (nonlinear_arith)
        requires
            size <= 0x8000_0000,
            delta <= 0xffff_ffff,
    ;
    let covered: u64 = size * (delta as u64) / (TICKS_PER_SECOND as u64);
    if speed >= 0 {
        covered as i64
    } else {
        -(covered as i64)
    }
}

/// Integration of velocities.
pub struct VelocitySystem;

impl VelocitySystem {
    /// One tick of `delta` ticks: every entity with a position and a velocity
    /// moves.
    pub fn run(&mut self, world: &mut World, delta: u32)
        ensures
            final(world)@ == (WorldModel {
                transforms: moved_table(old(world)@.transforms, old(world)@.velocities, delta),
                ..old(world)@
            }),
    {
        let count = world.transforms.len();
        let mut entity: usize = 0;
        while entity < count
            invariant
                entity <= count,
                count == old(world)@.transforms.len(),
                world.transforms@.len() == count,
                forall|e: int|
                    0 <= e < entity ==> world.transforms@[e] == moved_table(
                        old(world)@.transforms,
                        old(world)@.velocities,
                        delta,
                    )[e],
                forall|e: int| entity <= e < count ==> world.transforms@[e] == old(world)@.transforms[e],
                world@ == (WorldModel { transforms: world.transforms@, ..old(world)@ }),
            decreases count - entity,
        {
            if let (Some(position), Some(velocity)) = (
                world.transforms[entity],
                fetch(&world.velocities, entity),
            ) {
                let x = saturate_wide(position.0 as i128 + travel(velocity.vx, delta) as i128);
                let y = saturate_wide(position.1 as i128 + travel(velocity.vy, delta) as i128);
                world.transforms[entity] = Some((x, y));
            }
            entity += 1;
        }
        assert(world.transforms@ =~= moved_table(
            old(world)@.transforms,
            old(world)@.velocities,
            delta,
        ));
    }
}

/// `amount` as a signed step that leads from `to` away past `from`: positive
/// when `from` is at or past `to`, else negative.
pub open spec fn away(from: i32, to: i32, amount: int) -> int {
    if from >= to {
        amount
    } else {
        -amount
    }
}

/// The part of an overlap of `depth` that a body makes good: all of it
/// against a static obstacle, half of it, rounded down, against a movable
/// one, which gives way as well.
pub open spec fn share(depth: int, against_static: bool) -> int {
    if against_static {
        depth
    } else {
        depth / 2
    }
}

/// The correction that `obstacle` at `obstacle_pos` asks of `body` at
/// `position`.
///
/// Without overlap there is none. With overlap the body is pushed away from
/// the obstacle along one axis: the horizontal one when the horizontal depth
/// is the smaller, else the vertical one. The size of the push is the body's
/// [`share`] of the depth on that axis.
pub open spec fn push(
    body: Physical,
    position: Position,
    obstacle: Physical,
    obstacle_pos: Position,
) -> (int, int) {
    match body.hitbox.overlap(obstacle.hitbox, position, obstacle_pos) {
        Some(collision) => {
            if collision.3 > collision.2 {
                (
                    away(
                        position.0,
                        obstacle_pos.0,
                        share(collision.2 as int, obstacle.is_static),
                    ),
                    0,
                )
            } else {
                (
                    0,
                    away(
                        position.1,
                        obstacle_pos.1,
                        share(collision.3 as int, obstacle.is_static),
                    ),
                )
            }
        },
        None => (0, 0),
    }
}

/// The correction that entity `other` asks of the body of `entity`: that of
/// [`push`] when `other` is another entity with a body and a position.
pub open spec fn push_from(world: WorldModel, entity: int, other: int) -> (int, int) {
    match (
        component(world.transforms, entity),
        component(world.physicals, entity),
        component(world.transforms, other),
        component(world.physicals, other),
    ) {
        (Some(position), Some(body), Some(obstacle_pos), Some(obstacle)) => if entity == other {
            (0, 0)
        } else {
            push(body, position, obstacle, obstacle_pos)
        },
        _ => (0, 0),
    }
}

/// The sum of the corrections that the first `count` entities ask of
/// `entity`.
pub open spec fn restitution(world: WorldModel, entity: int, count: int) -> (int, int)
    decreases count,
{
    if count <= 0 {
        (0, 0)
    } else {
        let before = restitution(world, entity, count - 1);
        let next = push_from(world, entity, count - 1);
        (before.0 + next.0, before.1 + next.1)
    }
}

/// Where `entity` stands after restitution: a movable body is moved by the
/// sum of the corrections that all other bodies ask of it; anything else
/// stays.
pub open spec fn settled(world: WorldModel, entity: int) -> Option<Position> {
    match (component(world.transforms, entity), component(world.physicals, entity)) {
        (Some(position), Some(body)) => if body.is_static {
            Some(position)
        } else {
            let total = restitution(world, entity, world.transforms.len() as int);
            Some((clamp32(position.0 + total.0), clamp32(position.1 + total.1)))
        },
        (own, _) => own,
    }
}

/// The positions after restitution.
pub open spec fn settled_table(world: WorldModel) -> Seq<Option<Position>> {
    Seq::new(world.transforms.len(), |e: int| settled(world, e))
}

/// The size of a push along either axis is at most the largest depth an
/// overlap can have.
pub proof fn lemma_push_bounded(
    body: Physical,
    position: Position,
    obstacle: Physical,
    obstacle_pos: Position,
)
    ensures
        -0x1_0000_0000 <= push(body, position, obstacle, obstacle_pos).0 <= 0x1_0000_0000,
        -0x1_0000_0000 <= push(body, position, obstacle, obstacle_pos).1 <= 0x1_0000_0000,
{
}

/// The correction that `obstacle` asks of `body`.
pub fn push_of(
    body: &Physical,
    position: Position,
    obstacle: &Physical,
    obstacle_pos: Position,
) -> (r: (i64, i64))
    ensures
        r.0 == push(*body, position, *obstacle, obstacle_pos).0,
        r.1 == push(*body, position, *obstacle, obstacle_pos).1,
{
    match body.depth(obstacle, position, obstacle_pos) {
        Some((_dx, _dy, depth_x, depth_y)) => {
            if depth_y > depth_x {
                let part: i64 = if obstacle.is_static { depth_x } else { depth_x / 2 };
                (if position.0 >= obstacle_pos.0 { part } else { -part }, 0)
            } else {
                let part: i64 = if obstacle.is_static { depth_y } else { depth_y / 2 };
                (0, if position.1 >= obstacle_pos.1 { part } else { -part })
            }
        },
        None => (0, 0),
    }
}

/// Separation of overlapping bodies.
pub struct RestitutionSystem;

impl RestitutionSystem {
    /// One tick: every movable body is moved out of the bodies it overlaps,
    /// all overlaps being taken from the positions at the start of the tick.
    pub fn run(&mut self, world: &mut World)
        ensures
            final(world)@ == (WorldModel { transforms: settled_table(old(world)@), ..old(world)@ }),
    {
        let count = world.transforms.len();
        let mut obstacles: Vec<Option<(Position, Physical)>> = Vec::new();
        let mut o: usize = 0;
        while o < count
            invariant
                o <= count,
                count == world.transforms@.len(),
                *world == *old(world),
                obstacles@.len() == o,
                forall|e: int|
                    0 <= e < o ==> obstacles@[e] == match (
                        world.transforms@[e],
                        component(world.physicals@, e),
                    ) {
                        (Some(p), Some(b)) => Some((p, b)),
                        _ => None::<(Position, Physical)>,
                    },
            decreases count - o,
        {
            let entry = match (world.transforms[o], fetch(&world.physicals, o)) {
                (Some(p), Some(b)) => Some((p, b)),
                _ => None,
            };
            obstacles.push(entry);
            o += 1;
        }
        let mut entity: usize = 0;
        while entity < count
            invariant
                entity <= count,
                count == old(world)@.transforms.len(),
                world.transforms@.len() == count,
                obstacles@.len() == count,
                forall|e: int|
                    0 <= e < count ==> obstacles@[e] == match (
                        old(world)@.transforms[e],
                        component(old(world)@.physicals, e),
                    ) {
                        (Some(p), Some(b)) => Some((p, b)),
                        _ => None::<(Position, Physical)>,
                    },
                forall|e: int| 0 <= e < entity ==> world.transforms@[e] == settled(old(world)@, e),
                forall|e: int| entity <= e < count ==> world.transforms@[e] == old(world)@.transforms[e],
                world@ == (WorldModel { transforms: world.transforms@, ..old(world)@ }),
            decreases count - entity,
        {
            if let Some((position, body)) = obstacles[entity] {
                if !body.is_static {
                    let mut total_x: i128 = 0;
                    let mut total_y: i128 = 0;
                    let mut other: usize = 0;
                    while other < count
                        invariant
                            other <= count,
                            entity < count,
                            count == old(world)@.transforms.len(),
                            obstacles@.len() == count,
                            obstacles@[entity as int] == Some((position, body)),
                            forall|e: int|
                                0 <= e < count ==> obstacles@[e] == match (
                                    old(world)@.transforms[e],
                                    component(old(world)@.physicals, e),
                                ) {
                                    (Some(p), Some(b)) => Some((p, b)),
                                    _ => None::<(Position, Physical)>,
                                },
                            total_x == restitution(old(world)@, entity as int, other as int).0,
                            total_y == restitution(old(world)@, entity as int, other as int).1,
                            -0x1_0000_0000 * other <= total_x <= 0x1_0000_0000 * other,
                            -0x1_0000_0000 * other <= total_y <= 0x1_0000_0000 * other,
                        decreases count - other,
                    {
                        if other != entity {
                            if let Some((obstacle_pos, obstacle)) = obstacles[other] {
                                proof {
                                    lemma_push_bounded(body, position, obstacle, obstacle_pos);
                                }
                                let (px, py) = push_of(&body, position, &obstacle, obstacle_pos);
                                total_x = total_x + px as i128;
                                total_y = total_y + py as i128;
                            }
                        }
                        other += 1;
                    }
                    let x = saturate_wide(position.0 as i128 + total_x);
                    let y = saturate_wide(position.1 as i128 + total_y);
                    world.transforms[entity] = Some((x, y));
                }
            }
            entity += 1;
        }
        assert(world.transforms@ =~= settled_table(old(world)@));
    }
}

/// A static body never moves, and neither does anything that is no body.
pub proof fn lemma_static_stays(world: WorldModel, entity: int)
    requires
        0 <= entity < world.transforms.len(),
        match component(world.physicals, entity) {
            Some(body) => body.is_static,
            None => true,
        },
    ensures
        settled_table(world)[entity] == world.transforms[entity],
{
}

/// How much of an overlap a body makes good: against a static obstacle the
/// whole depth along the axis of the push, against a movable one half of it;
/// the other axis is left alone.
pub proof fn lemma_push_share(
    body: Physical,
    position: Position,
    obstacle: Physical,
    obstacle_pos: Position,
)
    requires
        body.hitbox.overlap(obstacle.hitbox, position, obstacle_pos) is Some,
    ensures
        ({
            let collision = body.hitbox.overlap(obstacle.hitbox, position, obstacle_pos).unwrap();
            let correction = push(body, position, obstacle, obstacle_pos);
            let depth: int = if collision.3 > collision.2 {
                collision.2 as int
            } else {
                collision.3 as int
            };
            &&& correction.0 == 0 || correction.1 == 0
            &&& abs(correction.0) + abs(correction.1) == share(depth, obstacle.is_static)
            &&& obstacle.is_static ==> share(depth, obstacle.is_static) == depth
            &&& !obstacle.is_static ==> share(depth, obstacle.is_static) == depth / 2
            &&& collision.3 > collision.2 ==> correction.1 == 0
            &&& collision.3 <= collision.2 ==> correction.0 == 0
        }),
{
}

} // verus!
