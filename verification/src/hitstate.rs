//! The per-entity table of hit channels.
//!
//! A channel is a numbered slot that names the purpose of a box (an attack, a
//! hittable body, a line of sight, ...). Boxes are stored as authored, facing
//! `East`; the entity's facing is applied when a channel is read.

use vstd::prelude::*;
use crate::geometry::{Hitbox, Position, Rotation};

verus! {

/// Number of channels of a [`HitState`].
pub const HITSTATE_SIZE: usize = 16;

pub const ENEMY_ATTACK_BOX: usize = 0;

pub const ENEMY_HITTABLE_BOX: usize = 1;

pub const PLAYER_ATTACK_BOX: usize = 2;

pub const PLAYER_HITTABLE_BOX: usize = 3;

pub const ENEMY_SIGHT_BOX: usize = 4;

pub const ENEMY_AIMING_BOX: usize = 5;

pub const PORTAL_BOX: usize = 6;

pub const PLAYER_INTERACT_BOX: usize = 7;

pub const PLAYER_INTERACTABLE_BOX: usize = 8;

/// What a channel holds when read through `facing`.
pub open spec fn seen_through(slot: Option<Hitbox>, facing: Rotation) -> Option<Hitbox> {
    match slot {
        Some(hitbox) => Some(hitbox.turned(facing)),
        None => None,
    }
}

/// The state of a [`HitState`]: the stored boxes, unrotated, one entry per
/// channel, and the facing that reads apply.
pub struct HitModel {
    pub slots: Seq<Option<Hitbox>>,
    pub facing: Rotation,
}

impl HitModel {
    /// The table without any box, facing `East`.
    pub open spec fn empty() -> HitModel {
        HitModel {
            slots: Seq::new(HITSTATE_SIZE as nat, |i: int| None::<Hitbox>),
            facing: Rotation::East,
        }
    }

    /// The box that reading channel `index` yields.
    pub open spec fn seen(self, index: int) -> Option<Hitbox> {
        seen_through(self.slots[index], self.facing)
    }

    /// This table with channel `index` holding `slot`.
    pub open spec fn with_slot(self, index: int, slot: Option<Hitbox>) -> HitModel {
        HitModel { slots: self.slots.update(index, slot), facing: self.facing }
    }

    /// This table read through `facing`.
    pub open spec fn facing_to(self, facing: Rotation) -> HitModel {
        HitModel { slots: self.slots, facing }
    }

    /// This table after the channels that `boxes` sets have been overwritten;
    /// the others keep what they hold.
    pub open spec fn overlaid(self, boxes: Seq<Option<Hitbox>>) -> HitModel {
        HitModel {
            slots: Seq::new(
                self.slots.len(),
                |i: int|
                    match boxes[i] {
                        Some(hitbox) => Some(hitbox),
                        None => self.slots[i],
                    },
            ),
            facing: self.facing,
        }
    }
}

/// Turning an entity changes what reads yield and nothing else: the stored
/// boxes stay as authored, the last facing set is the one that counts, and
/// turning back to `East` yields the boxes as authored.
pub proof fn lemma_facing_is_read_only(table: HitModel, first: Rotation, second: Rotation, channel: int)
    ensures
        table.facing_to(first).slots == table.slots,
        table.facing_to(first).facing_to(second) == table.facing_to(second),
        table.facing_to(first).facing_to(Rotation::East).seen(channel) == table.slots[channel],
{
    match table.slots[channel] {
        Some(hitbox) => {
            assert(hitbox.turned(Rotation::East) == hitbox);
        },
        None => {},
    }
}

/// A frame sets the channels it names and leaves every other channel as it
/// is.
pub proof fn lemma_overlay_keeps_the_rest(table: HitModel, boxes: Seq<Option<Hitbox>>, channel: int)
    requires
        0 <= channel < table.slots.len(),
    ensures
        boxes[channel] is None ==> table.overlaid(boxes).slots[channel] == table.slots[channel],
        boxes[channel] is Some ==> table.overlaid(boxes).slots[channel] == boxes[channel],
        table.overlaid(boxes).facing == table.facing,
{
}

/// The channel table of one entity.
#[derive(Clone, Copy, Debug)]
pub struct HitState {
    hitboxes: [Option<Hitbox>; HITSTATE_SIZE],
    rotation: Rotation,
}

impl View for HitState {
    type V = HitModel;

    closed spec fn view(&self) -> HitModel {
        HitModel { slots: self.hitboxes@, facing: self.rotation }
    }
}

impl DeepView for HitState {
    type V = HitModel;

    open spec fn deep_view(&self) -> HitModel {
        self@
    }
}

impl HitState {
    /// The table always has one entry per channel.
    pub proof fn lemma_slot_count(&self)
        ensures
            self@.slots.len() == HITSTATE_SIZE,
    {
    }

    /// An empty table facing `East`.
    pub fn new() -> (r: HitState)
        ensures
            r@ == HitModel::empty(),
    {
        let r = HitState { hitboxes: [None;16], rotation: Rotation::East };
        assert(r.hitboxes@ =~= Seq::new(HITSTATE_SIZE as nat, |i: int| None::<Hitbox>));
        r
    }

    /// Installs a box, given as authored, at channel `index`.
    pub fn set(&mut self, index: usize, width: u32, height: u32, offset: Position)
        requires
            index < HITSTATE_SIZE,
        ensures
            final(self)@ == old(self)@.with_slot(
                index as int,
                Some(Hitbox { width, height, offset }),
            ),
    {
        self.hitboxes[index] = Some(Hitbox::new_at_rect(width, height, offset));
    }

    /// Empties channel `index`.
    pub fn clear(&mut self, index: usize)
        requires
            index < HITSTATE_SIZE,
        ensures
            final(self)@ == old(self)@.with_slot(index as int, None),
    {
        self.hitboxes[index] = None;
    }

    /// Changes the facing that later reads apply. The stored boxes stay as
    /// they are.
    pub fn rotate(&mut self, rotation: Rotation)
        ensures
            final(self)@ == old(self)@.facing_to(rotation),
    {
        self.rotation = rotation;
    }

    /// Every channel as a read would yield it.
    pub fn get_all(&self) -> (r: [Option<Hitbox>; HITSTATE_SIZE])
        ensures
            forall|i: int| 0 <= i < HITSTATE_SIZE ==> r[i] == self@.seen(i),
    {
        let mut rotated = self.hitboxes;
        let mut i: usize = 0;
        while i < HITSTATE_SIZE
            invariant
                i <= HITSTATE_SIZE,
                forall|j: int| 0 <= j < i ==> rotated[j] == self@.seen(j),
                forall|j: int| i <= j < HITSTATE_SIZE ==> rotated[j] == self.hitboxes[j],
            decreases HITSTATE_SIZE - i,
        {
            if let Some(hitbox) = rotated[i] {
                rotated[i] = Some(hitbox.rotate(self.rotation));
            }
            i += 1;
        }
        rotated
    }

    /// The box at channel `index`, turned to the current facing.
    pub fn get(&self, index: usize) -> (r: Option<Hitbox>)
        requires
            index < HITSTATE_SIZE,
        ensures
            r == self@.seen(index as int),
    {
        if let Some(hitbox) = self.hitboxes[index] {
            Some(hitbox.rotate(self.rotation))
        } else {
            None
        }
    }

    /// Overwrites every channel that `boxes` sets.
    pub fn overlay(&mut self, boxes: &[Option<Hitbox>; HITSTATE_SIZE])
        ensures
            final(self)@ == old(self)@.overlaid(boxes@),
    {
        let mut i: usize = 0;
        while i < HITSTATE_SIZE
            invariant
                i <= HITSTATE_SIZE,
                self.rotation == old(self).rotation,
                forall|j: int| 0 <= j < i ==> self.hitboxes[j] == old(self)@.overlaid(boxes@).slots[j],
                forall|j: int| i <= j < HITSTATE_SIZE ==> self.hitboxes[j] == old(self).hitboxes[j],
            decreases HITSTATE_SIZE - i,
        {
            if let Some(hitbox) = boxes[i] {
                self.set(i, hitbox.width, hitbox.height, hitbox.offset);
            }
            i += 1;
        }
        assert(self@.slots =~= old(self)@.overlaid(boxes@).slots);
    }
}

} // verus!
