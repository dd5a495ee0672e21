//! Sprites anchored to the screen, the camera that follows the player, and
//! the prompt to continue.

use vstd::prelude::*;
use crate::geometry::Position;
use crate::sprites::CONTINUE;
use crate::storage::{component, inserted, World, WorldModel};
use crate::units::{abs, clamp32, clamp64, div_toward_zero, divide, saturate64, saturate_wide};

verus! {

/// Extents of the visible stage, in sub-units.
pub const STAGE: (i32, i32) = (200000, 150000);

/// Where on the screen a sprite is pinned.
#[derive(Clone, Copy, Debug, PartialEq, Eq, Structural)]
pub enum Anchor {
    TopLeft,
    Top,
    TopRight,
    Left,
    Middle,
    Right,
    BottomLeft,
    Bottom,
    BottomRight,
    Unpinned,
}

/// A side of the screen along one axis.
#[derive(Clone, Copy, Debug, PartialEq, Eq, Structural)]
pub enum Side {
    Low,
    Centre,
    High,
    Free,
}

impl Anchor {
    /// The horizontal side of this anchor: `Low` is the left edge.
    pub open spec fn column(self) -> Side {
        match self {
            Anchor::TopLeft | Anchor::Left | Anchor::BottomLeft => Side::Low,
            Anchor::Top | Anchor::Middle | Anchor::Bottom => Side::Centre,
            Anchor::TopRight | Anchor::Right | Anchor::BottomRight => Side::High,
            Anchor::Unpinned => Side::Free,
        }
    }

    /// The vertical side of this anchor: `Low` is the bottom edge.
    pub open spec fn row(self) -> Side {
        match self {
            Anchor::BottomLeft | Anchor::Bottom | Anchor::BottomRight => Side::Low,
            Anchor::Left | Anchor::Middle | Anchor::Right => Side::Centre,
            Anchor::TopLeft | Anchor::Top | Anchor::TopRight => Side::High,
            Anchor::Unpinned => Side::Free,
        }
    }

    /// Where the centre of a sprite of the given extents goes, pinned by this
    /// anchor at `offset` inside the box `(x, y, width, height)`.
    pub open spec fn placed(self, extents: (u32, u32), offset: Position, inside: (
        i32,
        i32,
        i32,
        i32,
    )) -> Position {
        (
            pinned(self.column(), extents.0, offset.0, inside.0, inside.2),
            pinned(self.row(), extents.1, offset.1, inside.1, inside.3),
        )
    }

    /// Where the centre of a sprite goes.
    pub fn place(
        &self,
        extents: (u32, u32),
        offset: Position,
        inside: (i32, i32, i32, i32),
    ) -> (r: Position)
        ensures
            r == self.placed(extents, offset, inside),
    {
        let column = match self {
            Anchor::TopLeft | Anchor::Left | Anchor::BottomLeft => Side::Low,
            Anchor::Top | Anchor::Middle | Anchor::Bottom => Side::Centre,
            Anchor::TopRight | Anchor::Right | Anchor::BottomRight => Side::High,
            Anchor::Unpinned => Side::Free,
        };
        let row = match self {
            Anchor::BottomLeft | Anchor::Bottom | Anchor::BottomRight => Side::Low,
            Anchor::Left | Anchor::Middle | Anchor::Right => Side::Centre,
            Anchor::TopLeft | Anchor::Top | Anchor::TopRight => Side::High,
            Anchor::Unpinned => Side::Free,
        };
        (
            pin(column, extents.0, offset.0, inside.0, inside.2),
            pin(row, extents.1, offset.1, inside.1, inside.3),
        )
    }
}

/// One coordinate of a pinned sprite of extent `extent`: against the low
/// edge, the sprite lies `offset` inside of it; against the high edge
/// likewise; in the centre, it lies `offset` past the middle; free, it lies
/// at `offset`.
pub open spec fn pinned(side: Side, extent: u32, offset: i32, start: i32, length: i32) -> i32 {
    match side {
        Side::Low => clamp32(start + offset + extent / 2),
        Side::Centre => clamp32(start + div_toward_zero(length as int, 2) + offset),
        Side::High => clamp32(start + length - offset - extent / 2),
        Side::Free => offset,
    }
}

/// One coordinate of a pinned sprite.
pub fn pin(side: Side, extent: u32, offset: i32, start: i32, length: i32) -> (r: i32)
    ensures
        r == pinned(side, extent, offset, start, length),
{
    match side {
        Side::Low => saturate_wide(start as i128 + offset as i128 + (extent / 2) as i128),
        Side::Centre => saturate_wide(start as i128 + divide(length as i128, 2) + offset as i128),
        Side::High => saturate_wide(
            start as i128 + length as i128 - offset as i128 - (extent / 2) as i128,
        ),
        Side::Free => offset,
    }
}

/// A sprite pinned to the screen.
#[derive(Clone, Copy, Debug, PartialEq, Eq)]
pub struct UiSprite {
    pub anchor: Anchor,
    pub offset: Position,
}

/// Creates the entity of a sprite pinned to the screen, and returns it with
/// the pin to attach to it.
pub fn draw_sprite(
    world: &mut World,
    sprite_number: usize,
    anchor: Anchor,
    offset: Position,
) -> (r: (usize, UiSprite))
    ensures
        r.0 == old(world)@.extent(),
        r.1 == (UiSprite { anchor, offset }),
        final(world)@ == (WorldModel {
            transforms: inserted(old(world)@.transforms, r.0 as int, (0i32, 0i32)),
            sprites: inserted(old(world)@.sprites, r.0 as int, sprite_number),
            ..old(world)@
        }),
{
    let entity = world.spawn_at(0, 0);
    world.with_sprite(entity, sprite_number);
    (entity, UiSprite { anchor, offset })
}

/// How far the camera may fall behind its target before it is dragged
/// along, in sub-units.
pub const CAMERA_SLACK: i32 = 100000;

/// Speed at which the camera closes in on its target, in sub-units per
/// second.
pub const CAMERA_SPEED: i32 = 100000;

/// One coordinate of the camera after `delta` ticks. `target` is where the
/// camera wants to be.
///
/// Farther off than [`CAMERA_SLACK`], the camera is dragged to that distance.
/// Nearer, it closes in at [`CAMERA_SPEED`] and stops on the target.
pub open spec fn followed(camera: i32, target: int, delta: u32) -> i32 {
    let gap = target - camera;
    let pace = CAMERA_SPEED * delta / 1000;
    if abs(gap) > CAMERA_SLACK {
        if gap >= 0 {
            clamp32(camera + gap - CAMERA_SLACK)
        } else {
            clamp32(camera + gap + CAMERA_SLACK)
        }
    } else if pace < abs(gap) {
        if gap >= 0 {
            clamp32(camera + pace)
        } else {
            clamp32(camera - pace)
        }
    } else {
        clamp32(camera + gap)
    }
}

/// One coordinate of the camera after `delta` ticks.
pub fn track(camera: i32, target: i64, delta: u32) -> (r: i32)
    ensures
        r == followed(camera, target as int, delta),
{
    let gap: i128 = target as i128 - camera as i128;
    let reach: i128 = if gap < 0 { -gap } else { gap };
    let pace: i128 = (100000 * (delta as i128)) / 1000;
    if reach > CAMERA_SLACK as i128 {
        if gap >= 0 {
            saturate_wide(camera as i128 + gap - CAMERA_SLACK as i128)
        } else {
            saturate_wide(camera as i128 + gap + CAMERA_SLACK as i128)
        }
    } else if pace < reach {
        if gap >= 0 {
            saturate_wide(camera as i128 + pace)
        } else {
            saturate_wide(camera as i128 - pace)
        }
    } else {
        saturate_wide(camera as i128 + gap)
    }
}

/// The rule that keeps the player in view.
pub struct CameraFollow;

impl CameraFollow {
    /// Where the camera goes in `delta` ticks when the player stands at
    /// `player`: towards the point that puts the player in the middle of the
    /// stage.
    pub fn follow(camera: Position, player: Position, delta: u32) -> (r: Position)
        ensures
            r == (
                followed(camera.0, player.0 - STAGE.0 / 2, delta),
                followed(camera.1, player.1 - STAGE.1 / 2, delta),
            ),
    {
        (
            track(camera.0, player.0 as i64 - (STAGE.0 / 2) as i64, delta),
            track(camera.1, player.1 as i64 - (STAGE.1 / 2) as i64, delta),
        )
    }
}

/// Marks the sprite that asks the player to continue.
#[derive(Clone, Copy, Debug, PartialEq, Eq)]
pub struct ContinueIcon;

/// The countdown to the prompt to continue: the prompt shows when
/// `time_left` has fallen below zero, and takes `fade_time` ticks to rise
/// into place.
#[derive(Clone, Copy, Debug, PartialEq, Eq)]
pub struct ContinueTimer {
    pub time_left: i64,
    pub fade_time: i64,
}

/// How far the prompt rests below its place, in sub-units.
pub const PROMPT_DROP: i32 = 16000;

/// How far the prompt has risen when `time_left` ticks are left of a fade of
/// `fade_time` ticks: nothing before the countdown has run out, then in
/// proportion to the time since, up to [`PROMPT_DROP`].
pub open spec fn risen(time_left: i64, fade_time: i64) -> int {
    if time_left >= 0 {
        0
    } else if fade_time <= 0 || (-time_left) * PROMPT_DROP / (fade_time as int) >= PROMPT_DROP {
        PROMPT_DROP as int
    } else {
        (-time_left) * PROMPT_DROP / (fade_time as int)
    }
}

/// How far the prompt has risen.
pub fn rise(time_left: i64, fade_time: i64) -> (r: i32)
    ensures
        r == risen(time_left, fade_time),
        0 <= r <= PROMPT_DROP,
{
    if time_left >= 0 {
        0
    } else if fade_time <= 0 {
        PROMPT_DROP
    } else {
        let late: u128 = (-(time_left as i128)) as u128;
        let part: u128 = late * 16000 / (fade_time as u128);
        assert(0 <= (-time_left) * PROMPT_DROP / (fade_time as int)) by (nonlinear_arith)
            requires
                time_left < 0,
                fade_time > 0,
                PROMPT_DROP == 16000,
        ;
        if part >= 16000 {
            PROMPT_DROP
        } else {
            part as i32
        }
    }
}

/// The pins after the prompt has been moved to where `timer` puts it.
pub open spec fn prompted(
    ui_sprites: Seq<Option<UiSprite>>,
    icons: Seq<Option<ContinueIcon>>,
    timer: ContinueTimer,
) -> Seq<Option<UiSprite>> {
    Seq::new(
        ui_sprites.len(),
        |e: int|
            match (ui_sprites[e], component(icons, e)) {
                (Some(pin), Some(_)) => Some(
                    UiSprite {
                        anchor: pin.anchor,
                        offset: (
                            pin.offset.0,
                            (risen(timer.time_left, timer.fade_time) - PROMPT_DROP) as i32,
                        ),
                    },
                ),
                (own, _) => own,
            },
    )
}

/// The rule that shows the prompt to continue.
pub struct ContinueSystem;

impl ContinueSystem {
    /// One tick of `delta` ticks: the countdown moves on and, once it has
    /// run out, the prompt rises.
    pub fn run(
        &mut self,
        to_continue: &mut Option<ContinueTimer>,
        ui_sprites: &mut Vec<Option<UiSprite>>,
        icons: &Vec<Option<ContinueIcon>>,
        delta: u32,
    )
        ensures
            *final(to_continue) == match *old(to_continue) {
                Some(timer) => Some(
                    ContinueTimer { time_left: clamp64(timer.time_left - delta), ..timer },
                ),
                None => None,
            },
            final(ui_sprites)@ == match *final(to_continue) {
                Some(timer) => if timer.time_left < 0 {
                    prompted(old(ui_sprites)@, icons@, timer)
                } else {
                    old(ui_sprites)@
                },
                None => old(ui_sprites)@,
            },
    {
        if let Some(mut timer) = *to_continue {
            timer.time_left = saturate64(timer.time_left as i128 - delta as i128);
            *to_continue = Some(timer);
            if timer.time_left < 0 {
                let height = rise(timer.time_left, timer.fade_time) - PROMPT_DROP;
                let count = ui_sprites.len();
                let mut entity: usize = 0;
                while entity < count
                    invariant
                        entity <= count,
                        count == old(ui_sprites)@.len(),
                        ui_sprites@.len() == count,
                        height == risen(timer.time_left, timer.fade_time) - PROMPT_DROP,
                        forall|e: int|
                            0 <= e < count ==> ui_sprites@[e] == (if e < entity {
                                prompted(old(ui_sprites)@, icons@, timer)[e]
                            } else {
                                old(ui_sprites)@[e]
                            }),
                    decreases count - entity,
                {
                    if crate::storage::has(icons, entity) {
                        if let Some(pin) = ui_sprites[entity] {
                            ui_sprites[entity] = Some(
                                UiSprite { anchor: pin.anchor, offset: (pin.offset.0, height) },
                            );
                        }
                    }
                    entity += 1;
                }
                assert(ui_sprites@ =~= prompted(old(ui_sprites)@, icons@, timer));
            }
        }
    }
}

/// Whether the prompt to continue is up.
pub fn can_continue(timer: &Option<ContinueTimer>) -> (r: bool)
    requires
        *timer is Some,
    ensures
        r == (timer.unwrap().time_left < 0),
{
    match timer {
        Some(timer) => timer.time_left < 0,
        None => false,
    }
}

/// Sets up the prompt to continue: a countdown of `time_left` ticks with a
/// fade of `fade_time` ticks, and the entity of the prompt with its pin.
pub fn init_continue(world: &mut World, time_left: i64, fade_time: i64) -> (r: (
    ContinueTimer,
    usize,
    UiSprite,
))
    ensures
        r.0 == (ContinueTimer { time_left, fade_time }),
        r.1 == old(world)@.extent(),
        r.2 == (UiSprite { anchor: Anchor::Bottom, offset: (0, -32000i32) }),
        final(world)@ == (WorldModel {
            transforms: inserted(old(world)@.transforms, r.1 as int, (0i32, 0i32)),
            sprites: inserted(old(world)@.sprites, r.1 as int, CONTINUE),
            ..old(world)@
        }),
{
    let (entity, pin) = draw_sprite(world, CONTINUE, Anchor::Bottom, (0, -32000));
    (ContinueTimer { time_left, fade_time }, entity, pin)
}

} // verus!
