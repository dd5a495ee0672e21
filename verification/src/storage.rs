//! Component tables and the world that holds them.
//!
//! An entity is an index. Each kind of component has a table, a vector with
//! one optional entry per index; an entity has a component when the table's
//! entry at its index is `Some`. Tables need not have the same length: an
//! index past the end of a table has no component of that kind.

use vstd::prelude::*;
use crate::animation::{AnimationController, Playback};
use crate::combat::{Health, StaggerAnimation};
use crate::animation::AnimationFrame;
use crate::drops::Chest;
use crate::enemies::{ChaseAndWanderEnemy, ChaserModel, Enemy, MeleeEnemy, MeleeModel};
use crate::geometry::{Physical, Position, Rotation, Velocity};
use crate::hitstate::{HitModel, HitState};
use crate::player::Player;
use crate::world::{Portal, WorldState};

verus! {

/// The component of `entity` in `table`, if it has one.
pub open spec fn component<T>(table: Seq<Option<T>>, entity: int) -> Option<T> {
    if 0 <= entity < table.len() {
        table[entity]
    } else {
        None
    }
}

/// `table` after `entity` has received `value`: the table grows with empty
/// entries as far as needed to reach `entity`.
pub open spec fn inserted<T>(table: Seq<Option<T>>, entity: int, value: T) -> Seq<Option<T>> {
    Seq::new(
        if entity < table.len() {
            table.len()
        } else {
            (entity + 1) as nat
        },
        |i: int|
            if i == entity {
                Some(value)
            } else {
                component(table, i)
            },
    )
}

/// `table` after `entity` has lost its component.
pub open spec fn removed<T>(table: Seq<Option<T>>, entity: int) -> Seq<Option<T>> {
    if 0 <= entity < table.len() {
        table.update(entity, None)
    } else {
        table
    }
}

/// Whether `entity` has a component in `table`.
pub fn has<T>(table: &Vec<Option<T>>, entity: usize) -> (r: bool)
    ensures
        r == (component(table@, entity as int) is Some),
{
    entity < table.len() && table[entity].is_some()
}

/// The component of `entity` in `table`.
pub fn get<T>(table: &Vec<Option<T>>, entity: usize) -> (r: Option<&T>)
    ensures
        r is Some == (component(table@, entity as int) is Some),
        r matches Some(value) ==> component(table@, entity as int) == Some(*value),
{
    if entity < table.len() {
        table[entity].as_ref()
    } else {
        None
    }
}

/// A copy of the component of `entity` in `table`.
pub fn fetch<T: Copy>(table: &Vec<Option<T>>, entity: usize) -> (r: Option<T>)
    ensures
        r == component(table@, entity as int),
{
    if entity < table.len() {
        table[entity]
    } else {
        None
    }
}

/// Gives `entity` the component `value`, in place of the one it may have.
pub fn insert<T>(table: &mut Vec<Option<T>>, entity: usize, value: T)
    ensures
        final(table)@ == inserted(old(table)@, entity as int, value),
{
    while table.len() <= entity
        invariant
            old(table)@.len() <= table@.len(),
            table@.len() <= old(table)@.len() || table@.len() <= entity + 1,
            forall|i: int| #![auto] 0 <= i < table@.len() ==> table@[i] == component(old(table)@, i),
        decreases entity + 1 - table.len(),
    {
        table.push(None);
    }
    table[entity] = Some(value);
    assert(table@ =~= inserted(old(table)@, entity as int, value));
}

/// Takes the component of `entity` away, if it has one.
pub fn remove<T>(table: &mut Vec<Option<T>>, entity: usize)
    ensures
        final(table)@ == removed(old(table)@, entity as int),
{
    if entity < table.len() {
        table[entity] = None;
    }
}

/// The larger of two lengths.
pub open spec fn longest(a: nat, b: nat) -> nat {
    if a >= b {
        a
    } else {
        b
    }
}

/// The larger of two lengths.
fn longer(a: usize, b: usize) -> (r: usize)
    ensures
        r == longest(a as nat, b as nat),
{
    if a >= b {
        a
    } else {
        b
    }
}

/// The state of a [`World`]: every table as a sequence, every component as
/// its model.
pub struct WorldModel {
    pub transforms: Seq<Option<Position>>,
    pub velocities: Seq<Option<Velocity>>,
    pub rotations: Seq<Option<Rotation>>,
    pub physicals: Seq<Option<Physical>>,
    pub hit_states: Seq<Option<HitModel>>,
    pub animations: Seq<Option<Playback>>,
    pub sprites: Seq<Option<usize>>,
    pub healths: Seq<Option<Health>>,
    pub staggers: Seq<Option<Seq<AnimationFrame>>>,
    pub players: Seq<Option<Player>>,
    pub enemies: Seq<Option<Enemy>>,
    pub melee_enemies: Seq<Option<MeleeModel>>,
    pub chasers: Seq<Option<ChaserModel>>,
    pub chests: Seq<Option<Chest>>,
    pub portals: Seq<Option<Portal>>,
    pub state: Option<WorldState>,
}

impl WorldModel {
    /// Whether `entity` is in the stagger state.
    pub open spec fn staggered(self, entity: int) -> bool {
        match component(self.animations, entity) {
            Some(playback) => playback.state == crate::animation::AnimationState::Staggered,
            None => false,
        }
    }

    /// The length of the longest table: the first index without components.
    pub open spec fn extent(self) -> nat {
        longest(
            longest(
                longest(
                    longest(self.transforms.len(), self.velocities.len()),
                    longest(self.rotations.len(), self.physicals.len()),
                ),
                longest(
                    longest(self.hit_states.len(), self.animations.len()),
                    longest(self.sprites.len(), self.healths.len()),
                ),
            ),
            longest(
                longest(
                    longest(self.staggers.len(), self.players.len()),
                    longest(self.enemies.len(), self.melee_enemies.len()),
                ),
                longest(longest(self.chasers.len(), self.chests.len()), self.portals.len()),
            ),
        )
    }

    /// This world without any component of `entity`.
    pub open spec fn without(self, entity: int) -> WorldModel {
        WorldModel {
            transforms: removed(self.transforms, entity),
            velocities: removed(self.velocities, entity),
            rotations: removed(self.rotations, entity),
            physicals: removed(self.physicals, entity),
            hit_states: removed(self.hit_states, entity),
            animations: removed(self.animations, entity),
            sprites: removed(self.sprites, entity),
            healths: removed(self.healths, entity),
            staggers: removed(self.staggers, entity),
            players: removed(self.players, entity),
            enemies: removed(self.enemies, entity),
            melee_enemies: removed(self.melee_enemies, entity),
            chasers: removed(self.chasers, entity),
            chests: removed(self.chests, entity),
            portals: removed(self.portals, entity),
            state: self.state,
        }
    }
}

/// Everything the simulation knows: one table per kind of component, and the
/// state of the level.
#[derive(Debug)]
pub struct World {
    pub transforms: Vec<Option<Position>>,
    pub velocities: Vec<Option<Velocity>>,
    pub rotations: Vec<Option<Rotation>>,
    pub physicals: Vec<Option<Physical>>,
    pub hit_states: Vec<Option<HitState>>,
    pub animations: Vec<Option<AnimationController>>,
    pub sprites: Vec<Option<usize>>,
    pub healths: Vec<Option<Health>>,
    pub staggers: Vec<Option<StaggerAnimation>>,
    pub players: Vec<Option<Player>>,
    pub enemies: Vec<Option<Enemy>>,
    pub melee_enemies: Vec<Option<MeleeEnemy>>,
    pub chasers: Vec<Option<ChaseAndWanderEnemy>>,
    pub chests: Vec<Option<Chest>>,
    pub portals: Vec<Option<Portal>>,
    pub state: Option<WorldState>,
}

impl View for World {
    type V = WorldModel;

    open spec fn view(&self) -> WorldModel {
        WorldModel {
            transforms: self.transforms@,
            velocities: self.velocities@,
            rotations: self.rotations@,
            physicals: self.physicals@,
            hit_states: self.hit_states.deep_view(),
            animations: self.animations.deep_view(),
            sprites: self.sprites@,
            healths: self.healths@,
            staggers: self.staggers.deep_view(),
            players: self.players@,
            enemies: self.enemies@,
            melee_enemies: self.melee_enemies.deep_view(),
            chasers: self.chasers.deep_view(),
            chests: self.chests@,
            portals: self.portals@,
            state: self.state,
        }
    }
}

/// The models of a table are the models of its entries, entry by entry.
pub proof fn lemma_deep_component<T: DeepView>(table: Vec<Option<T>>, entity: int)
    ensures
        table.deep_view().len() == table@.len(),
        component(table.deep_view(), entity) == match component(table@, entity) {
            Some(value) => Some(value.deep_view()),
            None => None,
        },
{
}

impl World {
    /// A world without entities.
    pub fn new() -> (r: World)
        ensures
            r@ == (WorldModel {
                transforms: Seq::empty(),
                velocities: Seq::empty(),
                rotations: Seq::empty(),
                physicals: Seq::empty(),
                hit_states: Seq::empty(),
                animations: Seq::empty(),
                sprites: Seq::empty(),
                healths: Seq::empty(),
                staggers: Seq::empty(),
                players: Seq::empty(),
                enemies: Seq::empty(),
                melee_enemies: Seq::empty(),
                chasers: Seq::empty(),
                chests: Seq::empty(),
                portals: Seq::empty(),
                state: None,
            }),
    {
        let r = World {
            transforms: Vec::new(),
            velocities: Vec::new(),
            rotations: Vec::new(),
            physicals: Vec::new(),
            hit_states: Vec::new(),
            animations: Vec::new(),
            sprites: Vec::new(),
            healths: Vec::new(),
            staggers: Vec::new(),
            players: Vec::new(),
            enemies: Vec::new(),
            melee_enemies: Vec::new(),
            chasers: Vec::new(),
            chests: Vec::new(),
            portals: Vec::new(),
            state: None,
        };
        assert(r@.hit_states =~= Seq::empty());
        assert(r@.animations =~= Seq::empty());
        assert(r@.staggers =~= Seq::empty());
        assert(r@.melee_enemies =~= Seq::empty());
        assert(r@.chasers =~= Seq::empty());
        r
    }

    /// The first index that no table reaches: an entity that has no
    /// component yet, nor has any entity after it.
    pub fn next_entity(&self) -> (r: usize)
        ensures
            r == self@.extent(),
    {
        let mut r: usize = self.transforms.len();
        r = longer(r, self.velocities.len());
        r = longer(r, self.rotations.len());
        r = longer(r, self.physicals.len());
        r = longer(r, self.hit_states.len());
        r = longer(r, self.animations.len());
        r = longer(r, self.sprites.len());
        r = longer(r, self.healths.len());
        r = longer(r, self.staggers.len());
        r = longer(r, self.players.len());
        r = longer(r, self.enemies.len());
        r = longer(r, self.melee_enemies.len());
        r = longer(r, self.chasers.len());
        r = longer(r, self.chests.len());
        r = longer(r, self.portals.len());
        r
    }

    /// Creates an entity at `(x, y)` and returns it.
    pub fn spawn_at(&mut self, x: i32, y: i32) -> (entity: usize)
        ensures
            entity == old(self)@.extent(),
            final(self)@ == (WorldModel {
                transforms: inserted(old(self)@.transforms, entity as int, (x, y)),
                ..old(self)@
            }),
    {
        let entity = self.next_entity();
        insert(&mut self.transforms, entity, (x, y));
        entity
    }

    /// Gives `entity` what a body that moves needs: no velocity yet, a
    /// movable body of half extent `size`, and the facing `East`.
    pub fn with_physics(&mut self, entity: usize, size: u32)
        ensures
            final(self)@ == (WorldModel {
                velocities: inserted(
                    old(self)@.velocities,
                    entity as int,
                    Velocity { vx: 0, vy: 0 },
                ),
                physicals: inserted(
                    old(self)@.physicals,
                    entity as int,
                    Physical {
                        hitbox: crate::geometry::Hitbox::square(size, (0, 0)),
                        is_static: false,
                    },
                ),
                rotations: inserted(old(self)@.rotations, entity as int, Rotation::East),
                ..old(self)@
            }),
    {
        insert(&mut self.velocities, entity, Velocity { vx: 0, vy: 0 });
        insert(&mut self.physicals, entity, Physical::new(size));
        insert(&mut self.rotations, entity, Rotation::East);
    }

    /// Gives `entity` an immovable body of half extent `size`.
    pub fn with_static(&mut self, entity: usize, size: u32)
        ensures
            final(self)@ == (WorldModel {
                physicals: inserted(
                    old(self)@.physicals,
                    entity as int,
                    Physical {
                        hitbox: crate::geometry::Hitbox::square(size, (0, 0)),
                        is_static: true,
                    },
                ),
                ..old(self)@
            }),
    {
        insert(&mut self.physicals, entity, Physical::new_static(size));
    }

    /// Gives `entity` the sprite `sprite_number`.
    pub fn with_sprite(&mut self, entity: usize, sprite_number: usize)
        ensures
            final(self)@ == (WorldModel {
                sprites: inserted(old(self)@.sprites, entity as int, sprite_number),
                ..old(self)@
            }),
    {
        insert(&mut self.sprites, entity, sprite_number);
    }

    /// Destroys `entity`: takes every component it has away.
    pub fn delete(&mut self, entity: usize)
        ensures
            final(self)@ == old(self)@.without(entity as int),
    {
        remove(&mut self.transforms, entity);
        remove(&mut self.velocities, entity);
        remove(&mut self.rotations, entity);
        remove(&mut self.physicals, entity);
        remove(&mut self.hit_states, entity);
        remove(&mut self.animations, entity);
        remove(&mut self.sprites, entity);
        remove(&mut self.healths, entity);
        remove(&mut self.staggers, entity);
        remove(&mut self.players, entity);
        remove(&mut self.enemies, entity);
        remove(&mut self.melee_enemies, entity);
        remove(&mut self.chasers, entity);
        remove(&mut self.chests, entity);
        remove(&mut self.portals, entity);
        assert(self@.hit_states =~= removed(old(self)@.hit_states, entity as int));
        assert(self@.animations =~= removed(old(self)@.animations, entity as int));
        assert(self@.staggers =~= removed(old(self)@.staggers, entity as int));
        assert(self@.melee_enemies =~= removed(old(self)@.melee_enemies, entity as int));
        assert(self@.chasers =~= removed(old(self)@.chasers, entity as int));
    }
}

} // verus!
