//! The player: upgrades, health carried between levels, movement and
//! attacks.

use vstd::prelude::*;
use crate::animation::{
    begun, free_to_move, plain_frame, with_hitbox, with_sprite, AnimationFrame, AnimationState,
    HitboxAnimation,
};
use crate::combat::Health;
use crate::drops::Upgrade;
use crate::geometry::{Hitbox, Rotation, Velocity};
use crate::hitstate::{
    HitModel, HitState, ENEMY_HITTABLE_BOX, PLAYER_ATTACK_BOX, PLAYER_INTERACT_BOX,
};
use crate::geometry::Physical;
use crate::animation::{at_rest, AnimationController};
use crate::ui::STAGE;
use crate::sprites::{
    BLANK, EMPTY_HEART, FULL_HEART, HALF_EMPTY_HEART, HALF_HEART, HALF_SPENT_HEART, PLAYER_ATTACK_0,
    PLAYER_ATTACK_1, PLAYER_ATTACK_2, PLAYER_IDLE, PLAYER_WALK_0, PLAYER_WALK_1, QUARTER_HALF_SPENT_HEART,
    QUARTER_HEART, THREE_QUARTER_HEART,
};
use crate::storage::{component, fetch, has, insert, inserted, World, WorldModel};
use crate::units::{
    abs, clamp32, div_toward_zero, divide, divide_small, magnitude, rem_toward_zero, saturate_wide,
    TICKS_PER_SECOND, UNIT,
};
use crate::utils::{idle_animation, idle_frames, walking_animation, walking_frames};

verus! {

/// Number of heart icons that show the player's health.
pub const MAX_HEARTS: usize = 10;

/// What the player keeps from one level to the next.
#[derive(Debug)]
pub struct PlayerState {
    pub health: i32,
    pub max_health: i32,
    pub levels: i32,
    pub upgrades: Vec<Upgrade>,
}

impl PlayerState {
    /// The state at the start of a game.
    pub fn new() -> (r: PlayerState)
        ensures
            r.health == 8,
            r.max_health == 8,
            r.levels == 0,
            r.upgrades@ == Seq::<Upgrade>::empty(),
    {
        PlayerState { health: 8, max_health: 8, levels: 0, upgrades: Vec::new() }
    }

    /// The state for the next level, with the health and upgrades the player
    /// left the last one with.
    pub fn advance(&mut self, found: (i32, i32, Vec<Upgrade>)) -> (r: PlayerState)
        requires
            old(self).levels < i32::MAX,
        ensures
            r.levels == old(self).levels + 1,
            r.max_health == found.0,
            r.health == found.1,
            r.upgrades@ == found.2@,
            *final(self) == *old(self),
    {
        PlayerState {
            levels: self.levels + 1,
            max_health: found.0,
            health: found.1,
            upgrades: found.2,
        }
    }
}

/// The player's abilities and the heart icons that show their health.
#[derive(Clone, Copy, Debug)]
pub struct Player {
    pub can_move: bool,
    pub walk_accel: i32,
    pub walk_speed: i32,
    pub hearts: [usize; MAX_HEARTS],
    pub big_hearts: bool,
    pub healthy: bool,
}

impl Player {
    /// A player who owns `upgrades`.
    pub fn new(hearts: [usize; MAX_HEARTS], upgrades: Vec<Upgrade>) -> (r: Player)
        ensures
            r == new_player(hearts, upgrades@),
    {
        let mut player = Player {
            can_move: true,
            walk_accel: 400 * UNIT,
            walk_speed: 100 * UNIT,
            hearts,
            big_hearts: false,
            healthy: false,
        };
        let mut i: usize = 0;
        while i < upgrades.len()
            invariant
                i <= upgrades.len(),
                player.can_move,
                player.walk_accel == 400 * UNIT,
                player.walk_speed == 100 * UNIT,
                player.hearts == hearts,
                player.big_hearts == upgrades@.subrange(0, i as int).contains(
                    Upgrade::GoldenAegis,
                ),
                player.healthy == upgrades@.subrange(0, i as int).contains(Upgrade::HeartBracelet),
            decreases upgrades.len() - i,
        {
            let ghost before = upgrades@.subrange(0, i as int);
            let ghost after = upgrades@.subrange(0, i + 1);
            assert(after =~= before.push(upgrades@[i as int]));
            assert(forall|u: Upgrade|
                after.contains(u) <==> before.contains(u) || u == upgrades@[i as int]) by {
                assert forall|u: Upgrade| after.contains(u) implies before.contains(u) || u
                    == upgrades@[i as int] by {
                    let k = choose|k: int| 0 <= k < after.len() && after[k] == u;
                    if k < i {
                        assert(before[k] == u);
                    }
                }
                assert forall|u: Upgrade| before.contains(u) || u
                    == upgrades@[i as int] implies after.contains(u) by {
                    if before.contains(u) {
                        let k = choose|k: int| 0 <= k < before.len() && before[k] == u;
                        assert(after[k] == u);
                    } else {
                        assert(after[i as int] == u);
                    }
                }
            }
            match upgrades[i] {
                Upgrade::GoldenAegis => {
                    player.big_hearts = true;
                },
                Upgrade::HeartBracelet => {
                    player.healthy = true;
                },
                _ => {},
            }
            i += 1;
        }
        assert(upgrades@.subrange(0, i as int) =~= upgrades@);
        player
    }

    /// The upgrades this player owns.
    pub fn upgrades(&self) -> (r: Vec<Upgrade>)
        ensures
            r@ == upgrades_of(*self),
    {
        let mut upgrades: Vec<Upgrade> = Vec::new();
        if self.big_hearts {
            upgrades.push(Upgrade::GoldenAegis);
        }
        if self.healthy {
            upgrades.push(Upgrade::HeartBracelet);
        }
        assert(upgrades@ =~= upgrades_of(*self));
        upgrades
    }
}

/// Health points shown by one heart.
pub open spec fn heart_size(big_hearts: bool) -> int {
    if big_hearts {
        4
    } else {
        2
    }
}

/// The number of hearts needed to show `max` points: `max` divided by the
/// size of a heart and rounded up, and none for a `max` below one.
pub open spec fn heart_count(max: i32, big_hearts: bool) -> int {
    let hearts = div_toward_zero(max + heart_size(big_hearts) - 1, heart_size(big_hearts));
    if hearts < 0 {
        0
    } else {
        hearts
    }
}

/// The number of hearts that `left` points fill.
pub open spec fn full_hearts(left: i32, big_hearts: bool) -> int {
    let hearts = div_toward_zero(left as int, heart_size(big_hearts));
    if hearts < 0 {
        0
    } else {
        hearts
    }
}

/// The sprite of heart number `slot`.
///
/// Slots past the last heart are blank and hearts below the first that is
/// not full are full. The first heart that is not full shows what is left
/// in it, and the hearts after it are empty. The last heart is drawn smaller
/// when the largest health does not fill it.
pub open spec fn heart_icon(health: Health, big_hearts: bool, slot: int) -> usize {
    let size = heart_size(big_hearts);
    let hearts = heart_count(health.max, big_hearts);
    let full = full_hearts(health.left, big_hearts);
    let left = rem_toward_zero(health.left as int, size);
    let most = rem_toward_zero(health.max as int, size);
    let last = slot == hearts - 1;
    if slot >= hearts {
        BLANK
    } else if slot < full {
        FULL_HEART
    } else if slot == full {
        if left == 0 && most == 2 && last && big_hearts {
            HALF_EMPTY_HEART
        } else if left == 0 && most == 1 && last && !big_hearts {
            HALF_EMPTY_HEART
        } else if left == 2 && most == 2 && last && big_hearts {
            HALF_SPENT_HEART
        } else if left == 1 && most == 1 && last && !big_hearts {
            HALF_SPENT_HEART
        } else if left == 1 && most == 2 && last && big_hearts {
            QUARTER_HALF_SPENT_HEART
        } else if left == 2 && big_hearts {
            HALF_HEART
        } else if left == 1 && !big_hearts {
            HALF_HEART
        } else if left == 1 && big_hearts {
            QUARTER_HEART
        } else if left == 3 && big_hearts {
            THREE_QUARTER_HEART
        } else {
            EMPTY_HEART
        }
    } else {
        if most == 2 && last && big_hearts {
            HALF_EMPTY_HEART
        } else if most == 1 && last && !big_hearts {
            HALF_EMPTY_HEART
        } else {
            EMPTY_HEART
        }
    }
}

/// The sprite of heart number `slot` for a player with `health`.
pub fn heart_sprite(health: &Health, big_hearts: bool, slot: usize) -> (r: usize)
    ensures
        r == heart_icon(*health, big_hearts, slot as int),
{
    let size: u32 = if big_hearts { 4 } else { 2 };
    let (rounded_up, _) = divide_small(health.max as i64 + size as i64 - 1, size);
    let (filled, left) = divide_small(health.left as i64, size);
    let (_, most) = divide_small(health.max as i64, size);
    let hearts: i64 = if rounded_up < 0 { 0 } else { rounded_up };
    let full: i64 = if filled < 0 { 0 } else { filled };
    if slot as u64 > i64::MAX as u64 {
        return BLANK;
    }
    let at: i64 = slot as i64;
    let last = at == hearts - 1;
    if at >= hearts {
        BLANK
    } else if at < full {
        FULL_HEART
    } else if at == full {
        if left == 0 && most == 2 && last && big_hearts {
            HALF_EMPTY_HEART
        } else if left == 0 && most == 1 && last && !big_hearts {
            HALF_EMPTY_HEART
        } else if left == 2 && most == 2 && last && big_hearts {
            HALF_SPENT_HEART
        } else if left == 1 && most == 1 && last && !big_hearts {
            HALF_SPENT_HEART
        } else if left == 1 && most == 2 && last && big_hearts {
            QUARTER_HALF_SPENT_HEART
        } else if left == 2 && big_hearts {
            HALF_HEART
        } else if left == 1 && !big_hearts {
            HALF_HEART
        } else if left == 1 && big_hearts {
            QUARTER_HEART
        } else if left == 3 && big_hearts {
            THREE_QUARTER_HEART
        } else {
            EMPTY_HEART
        }
    } else {
        if most == 2 && last && big_hearts {
            HALF_EMPTY_HEART
        } else if most == 1 && last && !big_hearts {
            HALF_EMPTY_HEART
        } else {
            EMPTY_HEART
        }
    }
}

/// The sprites after the first `count` heart icons of `player` have been
/// redrawn for `health`. An icon without a sprite is passed over.
pub open spec fn hearts_drawn(
    sprites: Seq<Option<usize>>,
    player: Player,
    health: Health,
    count: int,
) -> Seq<Option<usize>>
    decreases count,
{
    if count <= 0 {
        sprites
    } else {
        let before = hearts_drawn(sprites, player, health, count - 1);
        let icon = player.hearts[count - 1] as int;
        if component(before, icon) is Some {
            before.update(icon, Some(heart_icon(health, player.big_hearts, count - 1)))
        } else {
            before
        }
    }
}

/// The sprites after the hearts of every player with health among the first
/// `count` entities have been redrawn.
pub open spec fn hearts_shown(world: WorldModel, count: int) -> Seq<Option<usize>>
    decreases count,
{
    if count <= 0 {
        world.sprites
    } else {
        let before = hearts_shown(world, count - 1);
        match (world.players[count - 1], component(world.healths, count - 1)) {
            (Some(player), Some(health)) => hearts_drawn(before, player, health, MAX_HEARTS as int),
            _ => before,
        }
    }
}

/// The rule that draws the player's health as a row of hearts.
pub struct PlayerHeartSystem;

impl PlayerHeartSystem {
    /// One tick of the rule.
    pub fn run(&mut self, world: &mut World)
        ensures
            final(world)@ == (WorldModel {
                sprites: hearts_shown(old(world)@, old(world)@.players.len() as int),
                ..old(world)@
            }),
    {
        let count = world.players.len();
        let mut entity: usize = 0;
        let ghost start = old(world)@;
        while entity < count
            invariant
                entity <= count,
                count == start.players.len(),
                start == old(world)@,
                world@ == (WorldModel { sprites: hearts_shown(start, entity as int), ..start }),
            decreases count - entity,
        {
            if let (Some(player), Some(health)) = (
                world.players[entity],
                fetch(&world.healths, entity),
            ) {
                let ghost before = world@.sprites;
                let mut slot: usize = 0;
                while slot < MAX_HEARTS
                    invariant
                        slot <= MAX_HEARTS,
                        world@ == (WorldModel {
                            sprites: hearts_drawn(before, player, health, slot as int),
                            ..start
                        }),
                    decreases MAX_HEARTS - slot,
                {
                    let icon = player.hearts[slot];
                    if has(&world.sprites, icon) {
                        world.sprites[icon] = Some(heart_sprite(&health, player.big_hearts, slot));
                    }
                    slot += 1;
                }
            }
            entity += 1;
        }
    }
}

/// How much harder a player brakes than they speed up.
pub const DEACCELERATION: i32 = 3;

/// The acceleration along one axis of a player who moves at `speed` and
/// whose input on that axis is `tilt`.
///
/// With input the player accelerates that way; without, they brake against
/// their motion. An acceleration against the motion, or from rest in the
/// positive direction, is [`DEACCELERATION`] times as strong.
pub open spec fn drive(tilt: i32, speed: i32, walk_accel: i32) -> int {
    let base: int = if tilt < 0 {
        -walk_accel
    } else if tilt > 0 {
        walk_accel as int
    } else if speed > 0 {
        -walk_accel
    } else if speed < 0 {
        walk_accel as int
    } else {
        0
    };
    if (base > 0 && speed <= 0) || (base < 0 && speed > 0) {
        base * DEACCELERATION
    } else {
        base
    }
}

/// The speed along one axis after `delta` ticks of [`drive`].
///
/// A player without input who would brake past rest comes to rest. The
/// speed is then held to `walk_speed` in size.
pub open spec fn driven(tilt: i32, speed: i32, walk_accel: i32, walk_speed: i32, delta: u32) -> i32 {
    let accel = drive(tilt, speed, walk_accel);
    let next: int = if tilt == 0 && abs(accel) * delta > abs(speed as int) * TICKS_PER_SECOND {
        0
    } else {
        speed + div_toward_zero(accel * delta, TICKS_PER_SECOND as int)
    };
    if abs(next) > walk_speed {
        if next >= 0 {
            walk_speed
        } else {
            clamp32(-walk_speed)
        }
    } else {
        clamp32(next)
    }
}

/// The facing of a player who moves with `velocity`: along the axis of the
/// larger speed (the vertical one on a tie), in the direction of travel.
pub open spec fn facing_of(velocity: Velocity) -> Rotation {
    if abs(velocity.vx as int) > abs(velocity.vy as int) {
        if velocity.vx < 0 {
            Rotation::West
        } else {
            Rotation::East
        }
    } else {
        if velocity.vy < 0 {
            Rotation::South
        } else {
            Rotation::North
        }
    }
}

/// Whether the movement rule looks at `entity`: a player with a velocity and
/// a controller.
pub open spec fn steerable(world: WorldModel, entity: int) -> bool {
    &&& component(world.players, entity) is Some
    &&& component(world.velocities, entity) is Some
    &&& component(world.animations, entity) is Some
}

/// The world after the movement rule has dealt with `entity` under the input
/// `tilt` for `delta` ticks.
///
/// A player who attacks or staggers is left alone. Any other changes speed
/// as [`driven`] says. With input they face where they go and start to walk
/// if they stood; without, they go back to standing if they walked or played
/// nothing.
pub open spec fn steered(
    world: WorldModel,
    entity: int,
    tilt: (i32, i32),
    delta: u32,
    idle: Seq<AnimationFrame>,
    walking: Seq<AnimationFrame>,
) -> WorldModel {
    if !steerable(world, entity) || !free_to_move(world.animations[entity].unwrap().state) {
        world
    } else {
        let player = world.players[entity].unwrap();
        let old = world.velocities[entity].unwrap();
        let playback = world.animations[entity].unwrap();
        let velocity = Velocity {
            vx: driven(tilt.0, old.vx, player.walk_accel, player.walk_speed, delta),
            vy: driven(tilt.1, old.vy, player.walk_accel, player.walk_speed, delta),
        };
        let moved = WorldModel {
            velocities: world.velocities.update(entity, Some(velocity)),
            ..world
        };
        if tilt.0 != 0 || tilt.1 != 0 {
            WorldModel {
                rotations: inserted(world.rotations, entity, facing_of(velocity)),
                animations: if playback.state == AnimationState::Idle {
                    world.animations.update(
                        entity,
                        Some(begun(walking, AnimationState::Walking)),
                    )
                } else {
                    world.animations
                },
                ..moved
            }
        } else if playback.state == AnimationState::Walking || playback.animation is None {
            WorldModel {
                animations: world.animations.update(
                    entity,
                    Some(begun(idle, AnimationState::Idle)),
                ),
                ..moved
            }
        } else {
            moved
        }
    }
}

/// The world after the movement rule has dealt with the first `count`
/// entities.
pub open spec fn steered_all(
    world: WorldModel,
    tilt: (i32, i32),
    delta: u32,
    idle: Seq<AnimationFrame>,
    walking: Seq<AnimationFrame>,
    count: int,
) -> WorldModel
    decreases count,
{
    if count <= 0 {
        world
    } else {
        steered(
            steered_all(world, tilt, delta, idle, walking, count - 1),
            count - 1,
            tilt,
            delta,
            idle,
            walking,
        )
    }
}

/// The speed along one axis after `delta` ticks.
pub fn accelerate(tilt: i32, speed: i32, walk_accel: i32, walk_speed: i32, delta: u32) -> (r: i32)
    ensures
        r == driven(tilt, speed, walk_accel, walk_speed, delta),
{
    let mut accel: i64 = if tilt < 0 {
        -(walk_accel as i64)
    } else if tilt > 0 {
        walk_accel as i64
    } else if speed > 0 {
        -(walk_accel as i64)
    } else if speed < 0 {
        walk_accel as i64
    } else {
        0
    };
    if (accel > 0 && speed <= 0) || (accel < 0 && speed > 0) {
        assert(DEACCELERATION == 3);
        accel = accel * 3;
    }
    assert(accel == drive(tilt, speed, walk_accel));
    let size: i128 = if accel < 0 { -(accel as i128) } else { accel as i128 };
    assert(0 <= size * delta <= 0x2_0000_0000 * 0x1_0000_0000 && accel * delta == (if accel
        < 0 {
        -(size * delta)
    } else {
        size * delta
    })) by (nonlinear_arith)
        requires
            size == abs(accel as int),
            0 <= size <= 0x2_0000_0000,
            0 <= delta <= 0x1_0000_0000,
    ;
    let pull: i128 = size * delta as i128;
    let second: i128 = TICKS_PER_SECOND as i128;
    assert(second == 1000);
    let hold: i128 = magnitude(speed) as i128 * second;
    let next: i128 = if tilt == 0 && pull > hold {
        0
    } else {
        let gain = divide(if accel < 0 { -pull } else { pull }, TICKS_PER_SECOND as u64);
        speed as i128 + gain
    };
    let reach: i128 = if next < 0 { -next } else { next };
    if reach > walk_speed as i128 {
        if next >= 0 {
            walk_speed
        } else {
            saturate_wide(-(walk_speed as i128))
        }
    } else {
        saturate_wide(next)
    }
}

/// The rule that turns input into the player's motion.
pub struct PlayerMovementSystem {
    idle: HitboxAnimation,
    walking: HitboxAnimation,
}

impl PlayerMovementSystem {
    /// The animation of a player who stands.
    pub closed spec fn idle_frames(&self) -> Seq<AnimationFrame> {
        self.idle@
    }

    /// The animation of a player who walks.
    pub closed spec fn walking_frames(&self) -> Seq<AnimationFrame> {
        self.walking@
    }

    pub fn new() -> (r: PlayerMovementSystem)
        ensures
            r.idle_frames() == idle_frames(PLAYER_IDLE),
            r.walking_frames() == walking_frames(PLAYER_IDLE, PLAYER_WALK_0, PLAYER_WALK_1, 100),
    {
        PlayerMovementSystem {
            idle: idle_animation(PLAYER_IDLE),
            walking: walking_animation(PLAYER_IDLE, PLAYER_WALK_0, PLAYER_WALK_1, 100),
        }
    }

    /// Lets the player `entity` answer the input `tilt` for `delta` ticks.
    pub fn steer(&self, world: &mut World, entity: usize, tilt: (i32, i32), delta: u32)
        ensures
            final(world)@ == steered(
                old(world)@,
                entity as int,
                tilt,
                delta,
                self.idle_frames(),
                self.walking_frames(),
            ),
    {
        proof {
            crate::storage::lemma_deep_component(world.animations, entity as int);
        }
        let ghost start = world@;
        if !(has(&world.players, entity) && has(&world.velocities, entity) && has(
            &world.animations,
            entity,
        )) {
            return ;
        }
        let (free, state, active) = match &world.animations[entity] {
            Some(controller) => (controller.free(), controller.state(), controller.active()),
            None => (false, AnimationState::Idle, false),
        };
        if !free {
            return ;
        }
        let player = world.players[entity].unwrap();
        let old = world.velocities[entity].unwrap();
        let velocity = Velocity {
            vx: accelerate(tilt.0, old.vx, player.walk_accel, player.walk_speed, delta),
            vy: accelerate(tilt.1, old.vy, player.walk_accel, player.walk_speed, delta),
        };
        world.velocities[entity] = Some(velocity);
        if tilt.0 != 0 || tilt.1 != 0 {
            let rotation = if magnitude(velocity.vx) > magnitude(velocity.vy) {
                if velocity.vx < 0 {
                    Rotation::West
                } else {
                    Rotation::East
                }
            } else {
                if velocity.vy < 0 {
                    Rotation::South
                } else {
                    Rotation::North
                }
            };
            insert(&mut world.rotations, entity, rotation);
            if state == AnimationState::Idle {
                match &mut world.animations[entity] {
                    Some(controller) => {
                        controller.start(self.walking.clone(), AnimationState::Walking);
                    },
                    None => {},
                }
            }
        } else if state == AnimationState::Walking || !active {
            match &mut world.animations[entity] {
                Some(controller) => {
                    controller.start(self.idle.clone(), AnimationState::Idle);
                },
                None => {},
            }
        }
        proof {
            let goal = steered(
                start,
                entity as int,
                tilt,
                delta,
                self.idle_frames(),
                self.walking_frames(),
            );
            assert(world@.animations =~= goal.animations);
            assert(world@.velocities =~= goal.velocities);
            assert(world@.rotations =~= goal.rotations);
        }
    }

    /// One tick of `delta` ticks of the rule. `x_tilt` and `y_tilt` are what
    /// the input says of the two axes; only their signs matter, and nothing
    /// happens unless both are known.
    pub fn run(&mut self, world: &mut World, x_tilt: Option<i32>, y_tilt: Option<i32>, delta: u32)
        ensures
            final(world)@ == (match (x_tilt, y_tilt) {
                (Some(x), Some(y)) => steered_all(
                    old(world)@,
                    (x, y),
                    delta,
                    old(self).idle_frames(),
                    old(self).walking_frames(),
                    old(world)@.players.len() as int,
                ),
                _ => old(world)@,
            }),
            final(self).idle_frames() == old(self).idle_frames(),
            final(self).walking_frames() == old(self).walking_frames(),
    {
        if let (Some(x), Some(y)) = (x_tilt, y_tilt) {
            let count = world.players.len();
            let mut entity: usize = 0;
            while entity < count
                invariant
                    entity <= count,
                    count == old(world)@.players.len(),
                    *self == *old(self),
                    world@ == steered_all(
                        old(world)@,
                        (x, y),
                        delta,
                        self.idle_frames(),
                        self.walking_frames(),
                        entity as int,
                    ),
                decreases count - entity,
            {
                self.steer(world, entity, (x, y), delta);
                entity += 1;
            }
        }
    }
}

/// The frames of the player's attack: a wind-up, then a wide and a narrow
/// box on the player's attack channel, all three at rest.
pub open spec fn base_attack_frames() -> Seq<AnimationFrame> {
    seq![
        with_sprite(plain_frame(Some((0, 0)), 100), PLAYER_ATTACK_0),
        with_sprite(
            with_hitbox(
                plain_frame(Some((0, 0)), 200),
                PLAYER_ATTACK_BOX as int,
                Hitbox { width: 16000, height: 16000, offset: (8000, 0) },
            ),
            PLAYER_ATTACK_1,
        ),
        with_sprite(
            with_hitbox(
                plain_frame(Some((0, 0)), 200),
                PLAYER_ATTACK_BOX as int,
                Hitbox { width: 8000, height: 8000, offset: (10000, 0) },
            ),
            PLAYER_ATTACK_2,
        ),
    ]
}

/// The controllers after every player who is free to has begun `attack`.
pub open spec fn attacking_table(world: WorldModel, attack: Seq<AnimationFrame>) -> Seq<
    Option<crate::animation::Playback>,
> {
    Seq::new(
        world.animations.len(),
        |e: int|
            match world.animations[e] {
                Some(playback) => if component(world.players, e) is Some && free_to_move(
                    playback.state,
                ) {
                    Some(begun(attack, AnimationState::Attacking))
                } else {
                    Some(playback)
                },
                None => None,
            },
    )
}

/// The channel tables after every player who does not attack has lost the
/// box on their attack channel.
pub open spec fn disarmed_table(world: WorldModel) -> Seq<Option<HitModel>> {
    Seq::new(
        world.hit_states.len(),
        |e: int|
            match (world.hit_states[e], component(world.players, e), component(
                world.animations,
                e,
            )) {
                (Some(state), Some(_), Some(playback)) => if playback.state
                    != AnimationState::Attacking {
                    Some(state.with_slot(PLAYER_ATTACK_BOX as int, None))
                } else {
                    Some(state)
                },
                (own, _, _) => own,
            },
    )
}

/// The world after the attack rule: while the attack action is held, every
/// player who is free to begins the first of `attacks`; then every player
/// who does not attack loses the box on their attack channel.
pub open spec fn attacked(
    world: WorldModel,
    attack: Option<bool>,
    attacks: Seq<Seq<AnimationFrame>>,
) -> WorldModel {
    let begun = if attack == Some(true) && attacks.len() > 0 {
        WorldModel { animations: attacking_table(world, attacks[0]), ..world }
    } else {
        world
    };
    WorldModel { hit_states: disarmed_table(begun), ..begun }
}

/// The rule that starts the player's attacks.
pub struct PlayerAttackSystem {
    attacks: Vec<HitboxAnimation>,
}

impl PlayerAttackSystem {
    /// The attacks the player knows, in order.
    pub closed spec fn attack_frames(&self) -> Seq<Seq<AnimationFrame>> {
        self.attacks.deep_view()
    }

    /// A rule that knows the one attack of [`base_attack_frames`].
    pub fn new() -> (r: PlayerAttackSystem)
        ensures
            r.attack_frames() == seq![base_attack_frames()],
    {
        let mut attacks: Vec<HitboxAnimation> = Vec::new();
        let mut base_attack = HitboxAnimation::new();
        let frame = base_attack.add_frame_with_velocity((0, 0), 100);
        base_attack.set_sprite(frame, PLAYER_ATTACK_0);
        let frame = base_attack.add_frame_with_velocity((0, 0), 200);
        base_attack.set_hitbox(frame, PLAYER_ATTACK_BOX, Hitbox::new_at(8000, (8000, 0)));
        base_attack.set_sprite(frame, PLAYER_ATTACK_1);
        let frame = base_attack.add_frame_with_velocity((0, 0), 200);
        base_attack.set_hitbox(frame, PLAYER_ATTACK_BOX, Hitbox::new_at(4000, (10000, 0)));
        base_attack.set_sprite(frame, PLAYER_ATTACK_2);
        assert(base_attack@ =~= base_attack_frames());
        attacks.push(base_attack);
        let r = PlayerAttackSystem { attacks };
        assert(r.attack_frames() =~= seq![base_attack_frames()]);
        r
    }

    /// One tick of the rule. `attack` is what the input says of the attack
    /// action.
    pub fn run(&mut self, world: &mut World, attack: Option<bool>)
        ensures
            final(world)@ == attacked(old(world)@, attack, old(self).attack_frames()),
            final(self).attack_frames() == old(self).attack_frames(),
    {
        let ghost start = old(world)@;
        if attack == Some(true) && self.attacks.len() > 0 {
            let count = world.animations.len();
            let mut entity: usize = 0;
            while entity < count
                invariant
                    entity <= count,
                    count == start.animations.len(),
                    start == old(world)@,
                    *self == *old(self),
                    self.attacks.len() > 0,
                    world@.animations.len() == count,
                    forall|e: int|
                        0 <= e < count ==> world@.animations[e] == (if e < entity {
                            attacking_table(start, self.attack_frames()[0])[e]
                        } else {
                            start.animations[e]
                        }),
                    world@ == (WorldModel { animations: world@.animations, ..start }),
                decreases count - entity,
            {
                let ghost before = world@;
                if has(&world.players, entity) {
                    match &mut world.animations[entity] {
                        Some(controller) => {
                            if controller.free() {
                                controller.start(self.attacks[0].clone(), AnimationState::Attacking);
                            }
                        },
                        None => {},
                    }
                }
                proof {
                    assert(before.animations[entity as int] == start.animations[entity as int]);
                    assert(world@.animations[entity as int] == attacking_table(
                        start,
                        self.attack_frames()[0],
                    )[entity as int]);
                    assert(forall|e: int|
                        #![trigger world@.animations[e]]
                        0 <= e < count && e != entity ==> world@.animations[e]
                            == before.animations[e]);
                }
                entity += 1;
            }
            assert(world@.animations =~= attacking_table(start, self.attack_frames()[0]));
        }
        let ghost begun = world@;
        let count = world.hit_states.len();
        let mut entity: usize = 0;
        while entity < count
            invariant
                entity <= count,
                count == begun.hit_states.len(),
                world@.hit_states.len() == count,
                forall|e: int|
                    0 <= e < count ==> world@.hit_states[e] == (if e < entity {
                        disarmed_table(begun)[e]
                    } else {
                        begun.hit_states[e]
                    }),
                world@ == (WorldModel { hit_states: world@.hit_states, ..begun }),
            decreases count - entity,
        {
            let ghost before = world@;
            proof {
                crate::storage::lemma_deep_component(world.animations, entity as int);
            }
            let attacking = match crate::storage::get(&world.animations, entity) {
                Some(controller) => Some(controller.state() == AnimationState::Attacking),
                None => None,
            };
            if has(&world.players, entity) && attacking == Some(false) {
                match &mut world.hit_states[entity] {
                    Some(state) => {
                        state.clear(PLAYER_ATTACK_BOX);
                    },
                    None => {},
                }
            }
            proof {
                assert(before.hit_states[entity as int] == begun.hit_states[entity as int]);
                assert(world@.hit_states[entity as int] == disarmed_table(begun)[entity as int]);
                assert(forall|e: int|
                    #![trigger world@.hit_states[e]]
                    0 <= e < count && e != entity ==> world@.hit_states[e]
                        == before.hit_states[e]);
            }
            entity += 1;
        }
        assert(world@.hit_states =~= disarmed_table(begun));
    }
}

/// The upgrades that `player` owns, as [`Player::upgrades`] lists them.
pub open spec fn upgrades_of(player: Player) -> Seq<Upgrade> {
    (if player.big_hearts {
        seq![Upgrade::GoldenAegis]
    } else {
        Seq::<Upgrade>::empty()
    }) + (if player.healthy {
        seq![Upgrade::HeartBracelet]
    } else {
        Seq::<Upgrade>::empty()
    })
}

/// The largest health, the current health and the upgrades of the last
/// player with health among the first `count` entities; zeroes and no
/// upgrades if there is none.
pub open spec fn found_health(world: WorldModel, count: int) -> (i32, i32, Seq<Upgrade>)
    decreases count,
{
    if count <= 0 {
        (0, 0, Seq::empty())
    } else {
        match (world.players[count - 1], component(world.healths, count - 1)) {
            (Some(player), Some(health)) => (health.max, health.left, upgrades_of(player)),
            _ => found_health(world, count - 1),
        }
    }
}

/// The health and upgrades of the player in `world`, as `(max, left,
/// upgrades)`.
pub fn get_health(world: &World) -> (r: (i32, i32, Vec<Upgrade>))
    ensures
        (r.0, r.1, r.2@) == found_health(world@, world@.players.len() as int),
{
    let mut found: (i32, i32, Vec<Upgrade>) = (0, 0, Vec::new());
    let mut entity: usize = 0;
    while entity < world.players.len()
        invariant
            entity <= world.players.len(),
            (found.0, found.1, found.2@) == found_health(world@, entity as int),
        decreases world.players.len() - entity,
    {
        if let (Some(player), Some(health)) = (world.players[entity], fetch(&world.healths, entity)) {
            found = (health.max, health.left, player.upgrades());
        }
        entity += 1;
    }
    found
}

/// Immunity of a player who enters a level, in ticks.
pub const ENTRY_INVULN: i64 = 2000;

/// The channels of the player: where enemies can hit them, and how far they
/// reach to interact.
pub open spec fn player_channels() -> HitModel {
    HitModel::empty().with_slot(
        ENEMY_HITTABLE_BOX as int,
        Some(Hitbox { width: 16000, height: 16000, offset: (0, 0) }),
    ).with_slot(
        PLAYER_INTERACT_BOX as int,
        Some(Hitbox { width: 24000, height: 16000, offset: (8000, 0) }),
    )
}

/// The player that [`Player::new`] makes of `hearts` and `upgrades`.
pub open spec fn new_player(hearts: [usize; MAX_HEARTS], upgrades: Seq<Upgrade>) -> Player {
    Player {
        can_move: true,
        walk_accel: 400000,
        walk_speed: 100000,
        hearts,
        big_hearts: upgrades.contains(Upgrade::GoldenAegis),
        healthy: upgrades.contains(Upgrade::HeartBracelet),
    }
}

/// The world with the player in the middle of the stage as its newest
/// entity, with the health and upgrades of `state`.
pub open spec fn with_player(
    world: WorldModel,
    health: i32,
    max_health: i32,
    upgrades: Seq<Upgrade>,
    hearts: [usize; MAX_HEARTS],
) -> WorldModel {
    let entity = world.extent() as int;
    WorldModel {
        transforms: inserted(world.transforms, entity, (100000i32, 75000i32)),
        sprites: inserted(world.sprites, entity, PLAYER_IDLE),
        players: inserted(world.players, entity, new_player(hearts, upgrades)),
        hit_states: inserted(world.hit_states, entity, player_channels()),
        animations: inserted(world.animations, entity, at_rest()),
        healths: inserted(
            world.healths,
            entity,
            Health { max: max_health, left: health, invuln: ENTRY_INVULN },
        ),
        velocities: inserted(world.velocities, entity, Velocity { vx: 0, vy: 0 }),
        physicals: inserted(
            world.physicals,
            entity,
            Physical {
                hitbox: Hitbox { width: 8000, height: 8000, offset: (0, 0) },
                is_static: false,
            },
        ),
        rotations: inserted(world.rotations, entity, Rotation::East),
        ..world
    }
}

/// Creates the player in the middle of the stage and returns them. `hearts`
/// are the icons that show their health.
pub fn spawn_player(
    world: &mut World,
    player_state: &PlayerState,
    hearts: [usize; MAX_HEARTS],
) -> (entity: usize)
    ensures
        entity == old(world)@.extent(),
        final(world)@ == with_player(
            old(world)@,
            player_state.health,
            player_state.max_health,
            player_state.upgrades@,
            hearts,
        ),
{
    let mut hitboxes = HitState::new();
    hitboxes.set(ENEMY_HITTABLE_BOX, 16000, 16000, (0, 0));
    hitboxes.set(PLAYER_INTERACT_BOX, 24000, 16000, (8000, 0));
    let mut upgrades: Vec<Upgrade> = Vec::new();
    let mut i: usize = 0;
    while i < player_state.upgrades.len()
        invariant
            i <= player_state.upgrades.len(),
            upgrades@ == player_state.upgrades@.subrange(0, i as int),
        decreases player_state.upgrades.len() - i,
    {
        upgrades.push(player_state.upgrades[i]);
        i += 1;
    }
    assert(upgrades@ =~= player_state.upgrades@);
    let player = Player::new(hearts, upgrades);
    let entity = world.spawn_at(STAGE.0 / 2, STAGE.1 / 2);
    world.with_sprite(entity, PLAYER_IDLE);
    insert(&mut world.players, entity, player);
    insert(&mut world.hit_states, entity, hitboxes);
    insert(&mut world.animations, entity, AnimationController::new());
    insert(
        &mut world.healths,
        entity,
        Health { max: player_state.max_health, left: player_state.health, invuln: ENTRY_INVULN },
    );
    world.with_physics(entity, 4000);
    proof {
        let goal = with_player(
            old(world)@,
            player_state.health,
            player_state.max_health,
            player_state.upgrades@,
            hearts,
        );
        assert(world@.animations =~= goal.animations);
        assert(world@.hit_states =~= goal.hit_states);
        assert(world@.players =~= goal.players);
    }
    entity
}

} // verus!
