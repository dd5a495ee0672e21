//! The level: how many enemies are left, the exit portal and the tiles.

use vstd::prelude::*;
use crate::animation::{
    at_rest, looped, plain_frame, with_sprite, AnimationController, AnimationFrame, AnimationState,
    HitboxAnimation, Playback,
};
use crate::collision::{check_collisions, checked, CollisionEvent, HitboxCollisionSystem};
use crate::enemies::Enemy;
use crate::geometry::{HitboxCollision, Physical, Position};
use crate::hitstate::{HitModel, HitState, PLAYER_INTERACT_BOX, PORTAL_BOX};
use crate::sprites::{HEART_SPIN, PORTAL_CLOSED, PORTAL_SPIN, SPEND_HEART_SPIN};
use crate::storage::{component, has, insert, inserted, World, WorldModel};
use crate::units::{clamp32, saturate, UNIT};

verus! {

/// What the exit rules know of the level.
#[derive(Clone, Copy, Debug, PartialEq, Eq)]
pub struct WorldState {
    pub enemies_alive: usize,
    pub on_portal: bool,
    pub opened_portal: bool,
}

impl WorldState {
    /// A level that starts with an enemy alive and the exit shut.
    pub fn new() -> (r: WorldState)
        ensures
            r == (WorldState { enemies_alive: 1, on_portal: false, opened_portal: false }),
    {
        WorldState { enemies_alive: 1, on_portal: false, opened_portal: false }
    }
}

/// Marks an entity as the exit portal.
#[derive(Clone, Copy, Debug, PartialEq, Eq)]
pub struct Portal;

/// How long each frame of the opening portal lasts, in ticks.
pub const PORTAL_FRAME: u32 = 150;

/// Where tile `(0, 0)` lies, in world units.
pub const WORLD_BASE: (i32, i32) = (-256, -256);

/// Extents of a tile, in world units.
pub const TILE_SIZE: (i32, i32) = (16, 16);

/// An animation that shows `sprites` one after the other, sprite `i` for
/// `durations[i]` ticks.
pub open spec fn sprite_frames(sprites: Seq<usize>, durations: Seq<u32>) -> Seq<AnimationFrame> {
    Seq::new(
        sprites.len(),
        |i: int| with_sprite(plain_frame(None, durations[i]), sprites[i]),
    )
}

/// The frames of the opening portal, `speed` ticks each.
pub open spec fn portal_frames(speed: u32) -> Seq<AnimationFrame> {
    sprite_frames(PORTAL_SPIN@, Seq::new(7, |i: int| speed))
}

/// The durations of a spinning heart: it rests for `pause` ticks face on and
/// back on, and takes `rotation` ticks for each step in between.
pub open spec fn spin_durations(rotation: u32, pause: u32) -> Seq<u32> {
    Seq::new(
        8,
        |i: int|
            if i % 4 == 0 {
                pause
            } else {
                rotation
            },
    )
}

/// The animation of the opening portal.
pub fn portal_animation(speed: u32) -> (r: HitboxAnimation)
    ensures
        r@ == portal_frames(speed),
{
    let mut animation = HitboxAnimation::new();
    let mut i: usize = 0;
    while i < 7
        invariant
            i <= 7,
            animation@.len() == i,
            forall|k: int| 0 <= k < i ==> animation@[k] == portal_frames(speed)[k],
        decreases 7 - i,
    {
        let frame = animation.add_frame(speed);
        animation.set_sprite(frame, PORTAL_SPIN[i]);
        i += 1;
    }
    assert(animation@ =~= portal_frames(speed));
    animation
}

/// The animation of a heart that spins through `sprites`.
pub fn heart_spin_animation(
    rotation_speed: u32,
    pause_duration: u32,
    heart_spin: [usize; 8],
) -> (r: HitboxAnimation)
    ensures
        r@ == sprite_frames(heart_spin@, spin_durations(rotation_speed, pause_duration)),
{
    let mut animation = HitboxAnimation::new();
    let mut i: usize = 0;
    while i < 8
        invariant
            i <= 8,
            animation@.len() == i,
            forall|k: int|
                0 <= k < i ==> animation@[k] == sprite_frames(
                    heart_spin@,
                    spin_durations(rotation_speed, pause_duration),
                )[k],
        decreases 8 - i,
    {
        let duration = if i % 4 == 0 { pause_duration } else { rotation_speed };
        let frame = animation.add_frame(duration);
        animation.set_sprite(frame, heart_spin[i]);
        i += 1;
    }
    assert(animation@ =~= sprite_frames(
        heart_spin@,
        spin_durations(rotation_speed, pause_duration),
    ));
    animation
}

/// Where tile `(x, y)` lies, in sub-units.
pub open spec fn tile_at(x: i32, y: i32) -> Position {
    (
        clamp32((WORLD_BASE.0 + x * TILE_SIZE.0) * UNIT),
        clamp32((WORLD_BASE.1 + y * TILE_SIZE.1) * UNIT),
    )
}

/// One coordinate of a tile.
fn tile_coordinate(base: i32, index: i32, size: i32) -> (r: i32)
    requires
        -1000 <= base <= 1000,
        0 < size <= 1000,
    ensures
        r == clamp32((base + index * size) * UNIT),
{
    let along: i64 = crate::units::product(index, size);
    assert(-0x8000_0000 * 1000 <= index * size <= 0x8000_0000 * 1000) by (nonlinear_arith)
        requires
            -0x8000_0000 <= index <= 0x8000_0000,
            0 < size <= 1000,
    ;
    let unit: i64 = UNIT as i64;
    assert(unit == 1000);
    saturate((base as i64 + along) * unit)
}

/// Where tile `(x, y)` lies.
pub fn tile_position(x: i32, y: i32) -> (r: Position)
    ensures
        r == tile_at(x, y),
{
    (
        tile_coordinate(WORLD_BASE.0, x, TILE_SIZE.0),
        tile_coordinate(WORLD_BASE.1, y, TILE_SIZE.1),
    )
}

/// The number of enemies among the first `count` entities.
pub open spec fn living(enemies: Seq<Option<Enemy>>, count: int) -> nat
    decreases count,
{
    if count <= 0 {
        0
    } else {
        living(enemies, count - 1) + if enemies[count - 1] is Some {
            1nat
        } else {
            0nat
        }
    }
}

/// There are no more enemies than entities.
pub proof fn lemma_living_bounded(enemies: Seq<Option<Enemy>>, count: int)
    requires
        0 <= count,
    ensures
        living(enemies, count) <= count,
    decreases count,
{
    if count > 0 {
        lemma_living_bounded(enemies, count - 1);
    }
}

/// Whether `entity` is a portal that can be animated.
pub open spec fn is_gate(world: WorldModel, entity: int) -> bool {
    component(world.animations, entity) is Some && component(world.portals, entity) is Some
}

/// The controllers after every portal has begun to spin.
pub open spec fn opened_table(world: WorldModel) -> Seq<Option<Playback>> {
    Seq::new(
        world.animations.len(),
        |e: int|
            match world.animations[e] {
                Some(playback) => if is_gate(world, e) {
                    Some(
                        Playback {
                            progress: 0,
                            animation: Some(portal_frames(PORTAL_FRAME)),
                            state: playback.state,
                            looping: true,
                        },
                    )
                } else {
                    Some(playback)
                },
                None => None,
            },
    )
}

/// The world after the portal rule: the level knows how many enemies live;
/// when none does and the exit is still shut, every portal begins to spin
/// and the exit counts as opened if there is a portal at all.
pub open spec fn ported(world: WorldModel) -> WorldModel {
    match world.state {
        Some(state) => {
            let alive = living(world.enemies, world.enemies.len() as int);
            if alive == 0 && !state.opened_portal {
                WorldModel {
                    animations: opened_table(world),
                    state: Some(
                        WorldState {
                            enemies_alive: 0,
                            on_portal: state.on_portal,
                            opened_portal: exists|e: int| is_gate(world, e),
                        },
                    ),
                    ..world
                }
            } else {
                WorldModel {
                    state: Some(WorldState { enemies_alive: alive as usize, ..state }),
                    ..world
                }
            }
        },
        None => world,
    }
}

/// The rule that opens the exit.
pub struct PortalSystem;

impl PortalSystem {
    /// Counts the enemies.
    pub fn count_enemies(enemies: &Vec<Option<Enemy>>) -> (r: usize)
        ensures
            r == living(enemies@, enemies@.len() as int),
    {
        let mut alive: usize = 0;
        let mut entity: usize = 0;
        while entity < enemies.len()
            invariant
                entity <= enemies.len(),
                alive == living(enemies@, entity as int),
                alive <= entity,
            decreases enemies.len() - entity,
        {
            if enemies[entity].is_some() {
                alive += 1;
            }
            entity += 1;
        }
        alive
    }

    /// One tick of the rule.
    pub fn run(&mut self, world: &mut World)
        ensures
            final(world)@ == ported(old(world)@),
    {
        let ghost start = old(world)@;
        if let Some(mut state) = world.state {
            state.enemies_alive = PortalSystem::count_enemies(&world.enemies);
            if state.enemies_alive == 0 && !state.opened_portal {
                let count = world.animations.len();
                let mut entity: usize = 0;
                while entity < count
                    invariant
                        entity <= count,
                        count == start.animations.len(),
                        start == old(world)@,
                        world@.animations.len() == count,
                        forall|e: int|
                            0 <= e < count ==> world@.animations[e] == (if e < entity {
                                opened_table(start)[e]
                            } else {
                                start.animations[e]
                            }),
                        world@ == (WorldModel { animations: world@.animations, ..start }),
                        state.opened_portal == exists|e: int| 0 <= e < entity && is_gate(start, e),
                        state.enemies_alive == 0,
                        state.on_portal == start.state.unwrap().on_portal,
                    decreases count - entity,
                {
                    let ghost before = world@;
                    if has(&world.portals, entity) {
                        match &mut world.animations[entity] {
                            Some(controller) => {
                                controller.start_loop(portal_animation(PORTAL_FRAME));
                                state.opened_portal = true;
                            },
                            None => {},
                        }
                    }
                    proof {
                        assert(before.animations[entity as int] == start.animations[entity as int]);
                        assert(world@.animations[entity as int] == opened_table(
                            start,
                        )[entity as int]);
                        assert(forall|e: int|
                            #![trigger world@.animations[e]]
                            0 <= e < count && e != entity ==> world@.animations[e]
                                == before.animations[e]);
                        if is_gate(start, entity as int) {
                            assert(0 <= entity < entity + 1 && is_gate(start, entity as int));
                        }
                    }
                    entity += 1;
                }
                proof {
                    assert(world@.animations =~= opened_table(start));
                    if exists|e: int| is_gate(start, e) {
                        let e = choose|e: int| is_gate(start, e);
                        assert(0 <= e < count && is_gate(start, e));
                    }
                }
            }
            world.state = Some(state);
        }
    }
}

/// The exit: the portal's channel against the player's interact channel.
pub struct ExitSystem;

impl HitboxCollisionSystem for ExitSystem {
    open spec fn source_channel() -> usize {
        PORTAL_BOX
    }

    open spec fn target_channel() -> usize {
        PLAYER_INTERACT_BOX
    }

    /// Whoever overlaps a portal stands on it.
    open spec fn response(world: WorldModel, event: CollisionEvent) -> WorldModel {
        match world.state {
            Some(state) => WorldModel {
                state: Some(WorldState { on_portal: true, ..state }),
                ..world
            },
            None => world,
        }
    }

    fn source() -> (r: usize) {
        PORTAL_BOX
    }

    fn target() -> (r: usize) {
        PLAYER_INTERACT_BOX
    }

    fn collide(
        &self,
        collision: HitboxCollision,
        entity_a: usize,
        entity_b: usize,
        world: &mut World,
    ) {
        if let Some(mut state) = world.state {
            state.on_portal = true;
            world.state = Some(state);
        }
    }
}

impl ExitSystem {
    /// One tick of the rule: nobody stands on the portal until the scan
    /// finds somebody who does.
    pub fn run(&mut self, world: &mut World)
        ensures
            final(world)@ == checked::<ExitSystem>(
                WorldModel {
                    state: match old(world)@.state {
                        Some(state) => Some(WorldState { on_portal: false, ..state }),
                        None => None,
                    },
                    ..old(world)@
                },
            ),
    {
        if let Some(mut state) = world.state {
            state.on_portal = false;
            world.state = Some(state);
        }
        check_collisions(&*self, world);
    }
}

/// Whether the player leaves the level now: the interact action is held, no
/// enemy lives and the player stands on the portal.
pub fn want_advance(world_state: &Option<WorldState>, interact: Option<bool>) -> (r: bool)
    ensures
        r == match *world_state {
            Some(state) => interact == Some(true) && state.enemies_alive == 0 && state.on_portal,
            None => false,
        },
{
    if let Some(state) = world_state {
        if let Some(true) = interact {
            state.enemies_alive == 0 && state.on_portal
        } else {
            false
        }
    } else {
        false
    }
}

/// The body of a wall that covers `size` tiles from tile `origin` on, and
/// where it stands: the wall is as large as its tiles together and centred
/// on them. A wall of no tiles or fewer has no extent.
pub open spec fn wall_of(origin: (i32, i32), size: (i32, i32)) -> (Position, Physical) {
    (
        (
            clamp32((WORLD_BASE.0 + origin.0 * TILE_SIZE.0 + 8 * size.0 - 8) * UNIT),
            clamp32((WORLD_BASE.1 + origin.1 * TILE_SIZE.1 + 8 * size.1 - 8) * UNIT),
        ),
        Physical {
            hitbox: crate::geometry::Hitbox {
                width: extent_of(size.0),
                height: extent_of(size.1),
                offset: (0, 0),
            },
            is_static: true,
        },
    )
}

/// The extent of `tiles` tiles in a row, in sub-units, as far as a `u32`
/// can hold it.
pub open spec fn extent_of(tiles: i32) -> u32 {
    if tiles <= 0 {
        0
    } else if tiles * 16 * UNIT > u32::MAX {
        u32::MAX
    } else {
        (tiles * 16 * UNIT) as u32
    }
}

/// The extent of `tiles` tiles in a row.
fn extent(tiles: i32) -> (r: u32)
    ensures
        r == extent_of(tiles),
{
    if tiles <= 0 {
        0
    } else {
        let unit: i64 = UNIT as i64;
        assert(unit == 1000);
        let wide: i64 = tiles as i64 * 16 * unit;
        if wide > u32::MAX as i64 {
            u32::MAX
        } else {
            wide as u32
        }
    }
}

/// One coordinate of the centre of a wall.
fn wall_coordinate(base: i32, origin: i32, tiles: i32) -> (r: i32)
    requires
        -1000 <= base <= 1000,
    ensures
        r == clamp32((base + origin * 16 + 8 * tiles - 8) * UNIT),
{
    let unit: i64 = UNIT as i64;
    assert(unit == 1000);
    saturate((base as i64 + origin as i64 * 16 + 8 * tiles as i64 - 8) * unit)
}

/// The body of the wall over `size` tiles from tile `origin` on, and where
/// it stands.
pub fn wall_body(origin: (i32, i32), size: (i32, i32)) -> (r: (Position, Physical))
    ensures
        r == wall_of(origin, size),
{
    (
        (
            wall_coordinate(WORLD_BASE.0, origin.0, size.0),
            wall_coordinate(WORLD_BASE.1, origin.1, size.1),
        ),
        Physical::new_wall(extent(size.0), extent(size.1)),
    )
}

/// Starts a level: the world knows of one enemy alive and a shut exit.
pub fn init_world(world: &mut World)
    ensures
        final(world)@ == (WorldModel {
            state: Some(WorldState { enemies_alive: 1, on_portal: false, opened_portal: false }),
            ..old(world)@
        }),
{
    world.state = Some(WorldState::new());
}

/// The world with a spinning sprite at `(x, y)` as its newest entity: it
/// shows the first of `sprites` and loops through `frames`.
pub open spec fn with_spinner(
    world: WorldModel,
    x: i32,
    y: i32,
    first: usize,
    frames: Seq<AnimationFrame>,
) -> WorldModel {
    let entity = world.extent() as int;
    WorldModel {
        transforms: inserted(world.transforms, entity, (x, y)),
        sprites: inserted(world.sprites, entity, first),
        animations: inserted(world.animations, entity, looped(frames, AnimationState::Idle)),
        ..world
    }
}

/// Creates a spinning sprite.
fn spawn_spinner(
    world: &mut World,
    x: i32,
    y: i32,
    first: usize,
    animation: HitboxAnimation,
) -> (entity: usize)
    ensures
        entity == old(world)@.extent(),
        final(world)@ == with_spinner(old(world)@, x, y, first, animation@),
{
    let mut animation_controller = AnimationController::new();
    animation_controller.start_loop(animation);
    let entity = world.spawn_at(x, y);
    world.with_sprite(entity, first);
    insert(&mut world.animations, entity, animation_controller);
    assert(world@.animations =~= with_spinner(old(world)@, x, y, first, animation@).animations);
    entity
}

/// Creates a spinning heart at `(x, y)` and returns it.
pub fn heart_spin(world: &mut World, x: i32, y: i32) -> (entity: usize)
    ensures
        entity == old(world)@.extent(),
        final(world)@ == with_spinner(
            old(world)@,
            x,
            y,
            30,
            sprite_frames(HEART_SPIN@, spin_durations(150, 500)),
        ),
{
    spawn_spinner(world, x, y, HEART_SPIN[0], heart_spin_animation(150, 500, HEART_SPIN))
}

/// Creates a spinning spent heart at `(x, y)` and returns it.
pub fn spend_heart_spin(world: &mut World, x: i32, y: i32) -> (entity: usize)
    ensures
        entity == old(world)@.extent(),
        final(world)@ == with_spinner(
            old(world)@,
            x,
            y,
            38,
            sprite_frames(SPEND_HEART_SPIN@, spin_durations(250, 250)),
        ),
{
    spawn_spinner(
        world,
        x,
        y,
        SPEND_HEART_SPIN[0],
        heart_spin_animation(250, 250, SPEND_HEART_SPIN),
    )
}

/// The world with a shut portal at `(x, y)` as its newest entity.
pub open spec fn with_portal(world: WorldModel, x: i32, y: i32) -> WorldModel {
    let entity = world.extent() as int;
    WorldModel {
        transforms: inserted(world.transforms, entity, (x, y)),
        sprites: inserted(world.sprites, entity, PORTAL_CLOSED),
        portals: inserted(world.portals, entity, Portal),
        hit_states: inserted(
            world.hit_states,
            entity,
            HitModel::empty().with_slot(
                PORTAL_BOX as int,
                Some(crate::geometry::Hitbox { width: 8000, height: 8000, offset: (0, 0) }),
            ),
        ),
        animations: inserted(world.animations, entity, at_rest()),
        ..world
    }
}

/// Creates a shut portal at `(x, y)` and returns it.
pub fn portal(world: &mut World, x: i32, y: i32) -> (entity: usize)
    ensures
        entity == old(world)@.extent(),
        final(world)@ == with_portal(old(world)@, x, y),
{
    let animation_controller = AnimationController::new();
    let mut hitstate = HitState::new();
    hitstate.set(PORTAL_BOX, 8000, 8000, (0, 0));
    let entity = world.spawn_at(x, y);
    world.with_sprite(entity, PORTAL_CLOSED);
    insert(&mut world.portals, entity, Portal);
    insert(&mut world.hit_states, entity, hitstate);
    insert(&mut world.animations, entity, animation_controller);
    proof {
        let goal = with_portal(old(world)@, x, y);
        assert(world@.animations =~= goal.animations);
        assert(world@.hit_states =~= goal.hit_states);
    }
    entity
}

/// The world with a tile at `(x, y)` as its newest entity: a sprite that
/// stands where the tile lies.
pub open spec fn with_tile(world: WorldModel, x: i32, y: i32, sprite_number: usize) -> WorldModel {
    let entity = world.extent() as int;
    WorldModel {
        transforms: inserted(world.transforms, entity, tile_at(x, y)),
        sprites: inserted(world.sprites, entity, sprite_number),
        ..world
    }
}

/// The world with the first `rows` tiles of column `x`, from row `y` up.
pub open spec fn with_column(world: WorldModel, x: i32, y: i32, rows: int, sprite_number: usize) -> WorldModel
    decreases rows,
{
    if rows <= 0 {
        world
    } else {
        with_tile(
            with_column(world, x, y, rows - 1, sprite_number),
            x,
            (y + rows - 1) as i32,
            sprite_number,
        )
    }
}

/// The world with the first `columns` columns of a field of tiles that
/// begins at tile `(x, y)` and is `height` tiles high.
pub open spec fn with_field(
    world: WorldModel,
    x: i32,
    y: i32,
    columns: int,
    height: int,
    sprite_number: usize,
) -> WorldModel
    decreases columns,
{
    if columns <= 0 {
        world
    } else {
        with_column(
            with_field(world, x, y, columns - 1, height, sprite_number),
            (x + columns - 1) as i32,
            y,
            height,
            sprite_number,
        )
    }
}

/// Creates the tile `(x, y)` and returns it.
pub fn spawn_world_tile(world: &mut World, x: i32, y: i32, sprite_number: usize) -> (entity: usize)
    ensures
        entity == old(world)@.extent(),
        final(world)@ == with_tile(old(world)@, x, y, sprite_number),
{
    let at = tile_position(x, y);
    let entity = world.spawn_at(at.0, at.1);
    world.with_sprite(entity, sprite_number);
    entity
}

/// Paints a field of tiles from tile `(x, y)` on, column by column.
fn paint(world: &mut World, x: i32, y: i32, width: i32, height: i32, sprite_number: usize)
    requires
        x + width <= i32::MAX,
        y + height <= i32::MAX,
    ensures
        final(world)@ == with_field(old(world)@, x, y, width as int, height as int, sprite_number),
{
    let mut column: i32 = 0;
    while column < width
        invariant
            0 <= column,
            column <= width || column == 0,
            x + width <= i32::MAX,
            y + height <= i32::MAX,
            world@ == with_field(old(world)@, x, y, column as int, height as int, sprite_number),
        decreases width - column,
    {
        let ghost before = world@;
        let mut row: i32 = 0;
        while row < height
            invariant
                0 <= row,
                row <= height || row == 0,
                0 <= column < width,
                x + width <= i32::MAX,
                y + height <= i32::MAX,
                world@ == with_column(before, (x + column) as i32, y, row as int, sprite_number),
            decreases height - row,
        {
            spawn_world_tile(world, x + column, y + row, sprite_number);
            row += 1;
        }
        assert(with_column(before, (x + column) as i32, y, 0, sprite_number) == before);
        assert(height <= 0 ==> with_column(before, (x + column) as i32, y, height as int, sprite_number)
            == before);
        assert(world@ == with_column(before, (x + column) as i32, y, height as int, sprite_number));
        assert(with_field(old(world)@, x, y, column + 1, height as int, sprite_number)
            == with_column(
            with_field(old(world)@, x, y, column as int, height as int, sprite_number),
            (x + (column + 1) - 1) as i32,
            y,
            height as int,
            sprite_number,
        ));
        column += 1;
    }
    assert(with_field(old(world)@, x, y, 0, height as int, sprite_number) == old(world)@);
    assert(width <= 0 ==> with_field(old(world)@, x, y, width as int, height as int, sprite_number)
        == old(world)@);
}

/// Covers `width` by `height` tiles from tile `(0, 0)` on with the sprite
/// `sprite_number`.
pub fn fill_world(world: &mut World, width: i32, height: i32, sprite_number: usize)
    ensures
        final(world)@ == with_field(old(world)@, 0, 0, width as int, height as int, sprite_number),
{
    paint(world, 0, 0, width, height, sprite_number);
}

/// The world with a wall over `size` tiles from tile `origin` on: the tiles,
/// then one entity that carries the body of the whole wall.
pub open spec fn with_wall(
    world: WorldModel,
    origin: (i32, i32),
    size: (i32, i32),
    sprite_number: usize,
) -> WorldModel {
    let tiled = with_field(world, origin.0, origin.1, size.0 as int, size.1 as int, sprite_number);
    let entity = tiled.extent() as int;
    WorldModel {
        transforms: inserted(tiled.transforms, entity, wall_of(origin, size).0),
        physicals: inserted(tiled.physicals, entity, wall_of(origin, size).1),
        ..tiled
    }
}

/// Builds a wall over `size` tiles from tile `origin` on, and returns the
/// entity that carries its body.
pub fn draw_wall(
    world: &mut World,
    origin: (i32, i32),
    size: (i32, i32),
    sprite_number: usize,
) -> (entity: usize)
    requires
        origin.0 + size.0 <= i32::MAX,
        origin.1 + size.1 <= i32::MAX,
    ensures
        final(world)@ == with_wall(old(world)@, origin, size, sprite_number),
{
    paint(world, origin.0, origin.1, size.0, size.1, sprite_number);
    let (at, body) = wall_body(origin, size);
    let entity = world.spawn_at(at.0, at.1);
    insert(&mut world.physicals, entity, body);
    entity
}

/// What becomes of the level after a tick.
#[derive(Clone, Copy, Debug, PartialEq, Eq, Structural)]
pub enum Transition {
    /// The level goes on.
    Stay,
    /// The player has left through the portal.
    NextLevel,
    /// The player is dead.
    GameOver,
}

/// Whether a player is alive in the world.
pub fn player_alive(world: &World) -> (r: bool)
    ensures
        r == exists|e: int| component(world@.players, e) is Some,
{
    let mut entity: usize = 0;
    while entity < world.players.len()
        invariant
            entity <= world.players.len(),
            forall|e: int| 0 <= e < entity ==> world@.players[e] is None,
        decreases world.players.len() - entity,
    {
        if world.players[entity].is_some() {
            assert(component(world@.players, entity as int) is Some);
            return true;
        }
        entity += 1;
    }
    false
}

/// What becomes of the level: the player who wants to leave moves on to the
/// next level; else the level goes on while a player lives and is lost when
/// none does.
pub fn after_update(advance: bool, alive: bool) -> (r: Transition)
    ensures
        r == (if advance {
            Transition::NextLevel
        } else if alive {
            Transition::Stay
        } else {
            Transition::GameOver
        }),
{
    if advance {
        Transition::NextLevel
    } else if alive {
        Transition::Stay
    } else {
        Transition::GameOver
    }
}

} // verus!
