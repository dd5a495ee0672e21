//! Facing, velocity and the axis-aligned boxes whose overlap drives combat
//! and physics.

use vstd::prelude::*;
use crate::units::{abs, clamp32, negate};

verus! {

/// A world position or a local offset, in sub-units.
pub type Position = (i32, i32);

/// The outcome of an overlap test: the signed centre-to-centre separation
/// `(dx, dy)` followed by the penetration depth along each axis.
pub type HitboxCollision = (i64, i64, i64, i64);

/// One of the four cardinal facings. Boxes and frame velocities are authored
/// facing `East`.
#[derive(Clone, Copy, Debug, PartialEq, Eq, Structural)]
pub enum Rotation {
    East,
    South,
    West,
    North,
}

impl Rotation {
    /// The image of `p` under this facing, as a mathematical statement.
    pub open spec fn rotated(self, p: Position) -> Position {
        match self {
            Rotation::East => p,
            Rotation::South => (p.1, clamp32(-(p.0 as int))),
            Rotation::West => (clamp32(-(p.0 as int)), clamp32(-(p.1 as int))),
            Rotation::North => (clamp32(-(p.1 as int)), p.0),
        }
    }

    /// Whether this facing lies along the vertical axis, so that a box seen
    /// through it has its extents exchanged.
    pub open spec fn swaps_extents(self) -> bool {
        self == Rotation::North || self == Rotation::South
    }

    /// Number of counter-clockwise quarter turns from `East`.
    pub open spec fn quarter_turns_of(self) -> u8 {
        match self {
            Rotation::East => 0,
            Rotation::North => 1,
            Rotation::West => 2,
            Rotation::South => 3,
        }
    }

    /// Turns an `East`-authored vector to this facing.
    pub fn rotate(&self, p: Position) -> (r: Position)
        ensures
            r == self.rotated(p),
    {
        match self {
            Rotation::East => p,
            Rotation::South => (p.1, negate(p.0)),
            Rotation::West => (negate(p.0), negate(p.1)),
            Rotation::North => (negate(p.1), p.0),
        }
    }

    /// The angle of this facing, counted in counter-clockwise quarter turns
    /// from `East`, for whoever draws the entity.
    pub fn quarter_turns(&self) -> (r: u8)
        ensures
            r == self.quarter_turns_of(),
    {
        match self {
            Rotation::East => 0,
            Rotation::North => 1,
            Rotation::West => 2,
            Rotation::South => 3,
        }
    }
}

/// Speed along each axis, in sub-units per second.
#[derive(Clone, Copy, Debug, PartialEq, Eq)]
pub struct Velocity {
    pub vx: i32,
    pub vy: i32,
}

/// An axis-aligned rectangle attached to an entity: full extents and the
/// offset of its centre from the entity's position.
#[derive(Clone, Copy, Debug, PartialEq, Eq)]
pub struct Hitbox {
    pub width: u32,
    pub height: u32,
    pub offset: Position,
}

impl Hitbox {
    /// Centre-to-centre separation from `self` at `my_pos` to `other` at
    /// `other_pos`, offsets included.
    pub open spec fn separation(self, other: Hitbox, my_pos: Position, other_pos: Position) -> (
        int,
        int,
    ) {
        (
            (other_pos.0 + other.offset.0) - (my_pos.0 + self.offset.0),
            (other_pos.1 + other.offset.1) - (my_pos.1 + self.offset.1),
        )
    }

    /// Sum of the half extents of the two boxes along each axis, rounded down
    /// to a whole sub-unit.
    pub open spec fn reach(self, other: Hitbox) -> (int, int) {
        ((self.width + other.width) / 2, (self.height + other.height) / 2)
    }

    /// The overlap test: the boxes overlap exactly when the separation is
    /// strictly inside the reach on both axes, and the result then carries the
    /// separation and what is left of the reach on each axis.
    pub open spec fn overlap(self, other: Hitbox, my_pos: Position, other_pos: Position) -> Option<
        HitboxCollision,
    > {
        let (dx, dy) = self.separation(other, my_pos, other_pos);
        let (sw, sh) = self.reach(other);
        if abs(dx) < sw && abs(dy) < sh {
            Some((dx as i64, dy as i64, (sw - abs(dx)) as i64, (sh - abs(dy)) as i64))
        } else {
            None
        }
    }

    /// The square box of half extent `size` centred at `offset`. Its full
    /// extent is twice `size`, as far as a `u32` can hold it.
    pub open spec fn square(size: u32, offset: Position) -> Hitbox {
        let extent = if 2 * size > u32::MAX {
            u32::MAX
        } else {
            (2 * size) as u32
        };
        Hitbox { width: extent, height: extent, offset }
    }

    /// A square box of half extent `size`, centred on the entity.
    pub fn new(size: u32) -> (r: Hitbox)
        ensures
            r == Hitbox::square(size, (0, 0)),
    {
        Hitbox::new_at(size, (0, 0))
    }

    /// A square box of half extent `size`, centred at `offset`.
    pub fn new_at(size: u32, offset: Position) -> (r: Hitbox)
        ensures
            r == Hitbox::square(size, offset),
    {
        let extent = if size > u32::MAX / 2 { u32::MAX } else { size * 2 };
        Hitbox { width: extent, height: extent, offset }
    }

    /// A box of the given full extents, centred at `offset`.
    pub fn new_at_rect(width: u32, height: u32, offset: Position) -> (r: Hitbox)
        ensures
            r == (Hitbox { width, height, offset }),
    {
        Hitbox { width, height, offset }
    }

    /// This box as seen through `rotation`: the offset is turned, and a
    /// vertical facing exchanges width and height.
    pub open spec fn turned(self, rotation: Rotation) -> Hitbox {
        Hitbox {
            width: if rotation.swaps_extents() { self.height } else { self.width },
            height: if rotation.swaps_extents() { self.width } else { self.height },
            offset: rotation.rotated(self.offset),
        }
    }

    /// Turns an `East`-authored box to `rotation`.
    pub fn rotate(&self, rotation: Rotation) -> (r: Hitbox)
        ensures
            r == self.turned(rotation),
    {
        let offset = rotation.rotate(self.offset);
        match rotation {
            Rotation::North | Rotation::South => Hitbox {
                width: self.height,
                height: self.width,
                offset,
            },
            Rotation::East | Rotation::West => Hitbox {
                width: self.width,
                height: self.height,
                offset,
            },
        }
    }

    /// The corners of this box for an entity at `position`: bottom left,
    /// bottom right, top left, top right. The box is drawn from the corner
    /// that lies half its extents, rounded down, below and left of its
    /// centre.
    pub open spec fn corners(self, position: Position) -> [(int, int); 4] {
        let x = position.0 + self.offset.0 - self.width / 2;
        let y = position.1 + self.offset.1 - self.height / 2;
        [(x, y), (x + self.width, y), (x, y + self.height), (x + self.width, y + self.height)]
    }

    /// The corners of this box for an entity at `position`, for whoever
    /// draws it.
    pub fn outline(&self, position: Position) -> (r: [(i64, i64); 4])
        ensures
            forall|i: int|
                0 <= i < 4 ==> (r[i].0 as int, r[i].1 as int) == #[trigger] self.corners(
                    position,
                )[i],
    {
        let x: i64 = position.0 as i64 + self.offset.0 as i64 - (self.width / 2) as i64;
        let y: i64 = position.1 as i64 + self.offset.1 as i64 - (self.height / 2) as i64;
        let w: i64 = self.width as i64;
        let h: i64 = self.height as i64;
        [(x, y), (x + w, y), (x, y + h), (x + w, y + h)]
    }

    /// Tests `self`, owned by an entity at `my_pos`, against `other`, owned by
    /// an entity at `other_pos`.
    pub fn depth(&self, other: &Hitbox, my_pos: Position, other_pos: Position) -> (r: Option<
        HitboxCollision,
    >)
        ensures
            r == self.overlap(*other, my_pos, other_pos),
    {
        let dx: i64 = (other_pos.0 as i64 + other.offset.0 as i64) - (my_pos.0 as i64
            + self.offset.0 as i64);
        let dy: i64 = (other_pos.1 as i64 + other.offset.1 as i64) - (my_pos.1 as i64
            + self.offset.1 as i64);
        let sw: i64 = (self.width as i64 + other.width as i64) / 2;
        let sh: i64 = (self.height as i64 + other.height as i64) / 2;
        let ax: i64 = if dx < 0 { -dx } else { dx };
        let ay: i64 = if dy < 0 { -dy } else { dy };
        if ax < sw && ay < sh {
            Some((dx, dy, sw - ax, sh - ay))
        } else {
            None
        }
    }
}

/// Two boxes overlap in one order exactly when they overlap in the other;
/// the separation then changes sign on both axes and the depths are the same.
pub proof fn lemma_overlap_symmetric(a: Hitbox, b: Hitbox, pos_a: Position, pos_b: Position)
    ensures
        a.overlap(b, pos_a, pos_b) is Some <==> b.overlap(a, pos_b, pos_a) is Some,
        a.overlap(b, pos_a, pos_b) matches Some(ab) ==> b.overlap(a, pos_b, pos_a) == Some(
            ((-ab.0) as i64, (-ab.1) as i64, ab.2, ab.3),
        ),
{
}

/// What an overlap result holds: the depths are positive, no larger than the
/// reach, and each is the reach less the size of the separation.
pub proof fn lemma_overlap_depths(a: Hitbox, b: Hitbox, pos_a: Position, pos_b: Position)
    requires
        a.overlap(b, pos_a, pos_b) is Some,
    ensures
        ({
            let c = a.overlap(b, pos_a, pos_b).unwrap();
            let (sw, sh) = a.reach(b);
            &&& 0 < c.2 <= sw
            &&& 0 < c.3 <= sh
            &&& c.2 == sw - abs(c.0 as int)
            &&& c.3 == sh - abs(c.1 as int)
        }),
{
}

/// The body an entity pushes others with, and whether it can be pushed.
#[derive(Clone, Copy, Debug, PartialEq, Eq)]
pub struct Physical {
    pub hitbox: Hitbox,
    pub is_static: bool,
}

impl Physical {
    /// A movable body of half extent `size`.
    pub fn new(size: u32) -> (r: Physical)
        ensures
            r == (Physical { hitbox: Hitbox::square(size, (0, 0)), is_static: false }),
    {
        Physical { hitbox: Hitbox::new(size), is_static: false }
    }

    /// An immovable body of half extent `size`.
    pub fn new_static(size: u32) -> (r: Physical)
        ensures
            r == (Physical { hitbox: Hitbox::square(size, (0, 0)), is_static: true }),
    {
        Physical { hitbox: Hitbox::new(size), is_static: true }
    }

    /// An immovable wall of the given full extents.
    pub fn new_wall(width: u32, height: u32) -> (r: Physical)
        ensures
            r == (Physical { hitbox: Hitbox { width, height, offset: (0, 0) }, is_static: true }),
    {
        Physical { hitbox: Hitbox::new_at_rect(width, height, (0, 0)), is_static: true }
    }

    /// The overlap of the two bodies' boxes.
    pub fn depth(&self, other: &Physical, my_pos: Position, other_pos: Position) -> (r: Option<
        HitboxCollision,
    >)
        ensures
            r == self.hitbox.overlap(other.hitbox, my_pos, other_pos),
    {
        self.hitbox.depth(&other.hitbox, my_pos, other_pos)
    }
}

} // verus!
