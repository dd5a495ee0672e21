//! Chests and the upgrades bought from them.

use vstd::prelude::*;
use crate::collision::{check_collisions, checked, CollisionEvent, HitboxCollisionSystem};
use crate::combat::Health;
use crate::geometry::HitboxCollision;
use crate::animation::{at_rest, AnimationController};
use crate::geometry::{Hitbox, Physical, Rotation, Velocity};
use crate::hitstate::{
    HitModel, HitState, PLAYER_HITTABLE_BOX, PLAYER_INTERACTABLE_BOX, PLAYER_INTERACT_BOX,
};
use crate::sprites::CHEST_SPRITE;
use crate::storage::{insert, inserted};
use crate::world::{heart_spin, with_spinner};
use crate::player::Player;
use crate::storage::{component, fetch, World, WorldModel};
use crate::units::{clamp32, saturate};

verus! {

/// What a chest sells.
#[derive(Clone, Copy, Debug, PartialEq, Eq, Structural)]
pub enum Upgrade {
    HeartBracelet,
    GoldenAegis,
    CursedRing,
}

/// A chest: its price in health points and the upgrade inside.
#[derive(Clone, Copy, Debug, PartialEq, Eq)]
pub struct Chest {
    pub cost: i32,
    pub upgrade: Upgrade,
}

/// The channel on which a chest can be opened.
pub const CHEST_BOX: usize = PLAYER_INTERACTABLE_BOX;

/// The blow that opening deals to a chest, in health points.
pub const CHEST_BLOW: i32 = 99;

/// The health of a chest after it has been opened: it takes a blow of
/// [`CHEST_BLOW`] points, loses what immunity it had, and is left with
/// nothing at most.
pub open spec fn opened(health: Health) -> Health {
    let struck = health.hit(CHEST_BLOW, 0);
    Health { left: if struck.left > 0 { 0 } else { struck.left }, ..struck }
}

/// What `chest` costs `player`: its price, doubled for a player whose hearts
/// are big.
pub open spec fn price(chest: Chest, player: Player) -> i32 {
    if player.big_hearts {
        clamp32(2 * chest.cost)
    } else {
        chest.cost
    }
}

/// Whether `health` can bear the price `cost`: more than `cost` is left, and
/// more than `cost` is the most there can be.
pub open spec fn affordable(health: Health, cost: i32) -> bool {
    health.left > cost && health.max > cost
}

/// The player and their health after they have opened `chest`.
///
/// A player who cannot afford the chest, or who owns what it sells, gets
/// nothing and pays nothing. The golden aegis costs its price, then doubles
/// the health and makes the hearts big. The heart bracelet costs its price
/// and makes the player healthy. Nothing else is for sale.
pub open spec fn bought(chest: Chest, player: Player, health: Health) -> (Player, Health) {
    let cost = price(chest, player);
    if !affordable(health, cost) {
        (player, health)
    } else if chest.upgrade == Upgrade::GoldenAegis && !player.big_hearts {
        (Player { big_hearts: true, ..player }, health.paid(cost).doubled())
    } else if chest.upgrade == Upgrade::HeartBracelet && !player.healthy {
        (Player { healthy: true, ..player }, health.paid(cost))
    } else {
        (player, health)
    }
}

/// The purchase itself, on the values of one player.
pub fn buy(chest: &Chest, player: &mut Player, health: &mut Health)
    ensures
        (*final(player), *final(health)) == bought(*chest, *old(player), *old(health)),
{
    let mut cost = chest.cost;
    if player.big_hearts {
        cost = saturate(cost as i64 * 2);
    }
    if health.left > cost && health.max > cost {
        match (chest.upgrade, player.big_hearts, player.healthy) {
            (Upgrade::GoldenAegis, false, _) => {
                health.pay(cost);
                health.embiggen();
                player.big_hearts = true;
            },
            (Upgrade::HeartBracelet, _, false) => {
                health.pay(cost);
                player.healthy = true;
            },
            _ => {},
        }
    }
}

/// Purchases: the player's interact channel against the channel on which
/// chests can be opened.
pub struct PurchaseSystem;

impl HitboxCollisionSystem for PurchaseSystem {
    open spec fn source_channel() -> usize {
        PLAYER_INTERACT_BOX
    }

    open spec fn target_channel() -> usize {
        CHEST_BOX
    }

    /// The target is spent as [`opened`] says if it has health. If it is a
    /// chest and the source is a player with health, the player then buys
    /// what the chest sells, as [`bought`] says.
    open spec fn response(world: WorldModel, event: CollisionEvent) -> WorldModel {
        let buyer = event.entity_a as int;
        let chest = event.entity_b as int;
        let struck = match component(world.healths, chest) {
            Some(health) => world.healths.update(chest, Some(opened(health))),
            None => world.healths,
        };
        match (component(struck, buyer), component(world.players, buyer), component(
            world.chests,
            chest,
        )) {
            (Some(health), Some(player), Some(wares)) => WorldModel {
                healths: struck.update(buyer, Some(bought(wares, player, health).1)),
                players: world.players.update(buyer, Some(bought(wares, player, health).0)),
                ..world
            },
            _ => WorldModel { healths: struck, ..world },
        }
    }

    fn source() -> (r: usize) {
        PLAYER_INTERACT_BOX
    }

    fn target() -> (r: usize) {
        CHEST_BOX
    }

    fn collide(
        &self,
        collision: HitboxCollision,
        entity_a: usize,
        entity_b: usize,
        world: &mut World,
    ) {
        if entity_b < world.healths.len() {
            match &mut world.healths[entity_b] {
                Some(chest_health) => {
                    chest_health.hit_for(CHEST_BLOW, 0);
                    if chest_health.left > 0 {
                        chest_health.left = 0;
                    }
                },
                None => {},
            }
        }
        if let (Some(mut health), Some(mut player), Some(chest)) = (
            fetch(&world.healths, entity_a),
            fetch(&world.players, entity_a),
            fetch(&world.chests, entity_b),
        ) {
            buy(&chest, &mut player, &mut health);
            world.healths[entity_a] = Some(health);
            world.players[entity_a] = Some(player);
        }
        proof {
            let goal = Self::response(
                old(world)@,
                CollisionEvent { collision, entity_a, entity_b },
            );
            assert(world@.healths =~= goal.healths);
            assert(world@.players =~= goal.players);
        }
    }
}

impl PurchaseSystem {
    /// One tick of the rule. The scan runs only while the interact action is
    /// held; `interact` is what the input says of it.
    pub fn run(&mut self, world: &mut World, interact: Option<bool>)
        ensures
            final(world)@ == (if interact == Some(true) {
                checked::<PurchaseSystem>(old(world)@)
            } else {
                old(world)@
            }),
    {
        if let Some(true) = interact {
            check_collisions(&*self, world);
        }
    }
}

/// Each upgrade is bought at most once: a player who owns what a chest sells
/// keeps their health and their upgrades as they are.
pub proof fn lemma_bought_once(chest: Chest, player: Player, health: Health)
    ensures
        ({
            let (owner, paid) = bought(chest, player, health);
            let (again, after) = bought(chest, owner, paid);
            &&& again == owner
            &&& after == paid
        }),
{
}

/// A chest that is opened has no health left, whoever opened it, and is
/// taken away by the next tick of the death rule in which it does not
/// stagger.
pub proof fn lemma_opened_chest_is_spent(world: WorldModel, event: CollisionEvent)
    requires
        component(world.healths, event.entity_b as int) is Some,
        event.entity_a != event.entity_b,
    ensures
        component(
            PurchaseSystem::response(world, event).healths,
            event.entity_b as int,
        ) matches Some(health) && health.spent(),
        !PurchaseSystem::response(world, event).staggered(event.entity_b as int)
            ==> crate::combat::doomed(PurchaseSystem::response(world, event), event.entity_b as int),
{
}

/// The channels of a chest: where the player can hit it and where the
/// player can open it.
pub open spec fn chest_channels() -> HitModel {
    HitModel::empty().with_slot(
        PLAYER_HITTABLE_BOX as int,
        Some(Hitbox { width: 16000, height: 16000, offset: (0, 0) }),
    ).with_slot(CHEST_BOX as int, Some(Hitbox { width: 16000, height: 16000, offset: (0, 0) }))
}

/// The world with a chest at `(x, y)` as its newest entity.
pub open spec fn with_chest(world: WorldModel, x: i32, y: i32, cost: i32, upgrade: Upgrade) -> WorldModel {
    let entity = world.extent() as int;
    WorldModel {
        transforms: inserted(world.transforms, entity, (x, y)),
        sprites: inserted(world.sprites, entity, CHEST_SPRITE),
        hit_states: inserted(world.hit_states, entity, chest_channels()),
        animations: inserted(world.animations, entity, at_rest()),
        healths: inserted(world.healths, entity, Health { max: 3, left: 3, invuln: 0 }),
        chests: inserted(world.chests, entity, Chest { cost, upgrade }),
        velocities: inserted(world.velocities, entity, Velocity { vx: 0, vy: 0 }),
        physicals: inserted(
            world.physicals,
            entity,
            Physical {
                hitbox: Hitbox { width: 16000, height: 16000, offset: (0, 0) },
                is_static: false,
            },
        ),
        rotations: inserted(world.rotations, entity, Rotation::East),
        ..world
    }
}

/// The frames of the hearts that show a chest's price.
pub open spec fn price_tag_frames() -> Seq<crate::animation::AnimationFrame> {
    crate::world::sprite_frames(crate::sprites::HEART_SPIN@, crate::world::spin_durations(150, 500))
}

/// The world with a chest at `(x, y)` and the hearts that show its price:
/// one above the chest for a price of one, two side by side for a price of
/// two, none for any other price. The hearts stand where they are meant to
/// be drawn relative to the chest.
pub open spec fn with_priced_chest(
    world: WorldModel,
    x: i32,
    y: i32,
    cost: i32,
    upgrade: Upgrade,
) -> WorldModel {
    let chest = with_chest(world, x, y, cost, upgrade);
    if cost == 2 {
        with_spinner(
            with_spinner(chest, -4000i32, 8000, 30, price_tag_frames()),
            4000,
            8000,
            30,
            price_tag_frames(),
        )
    } else if cost == 1 {
        with_spinner(chest, 0, 8000, 30, price_tag_frames())
    } else {
        chest
    }
}

/// Creates a chest at `(x, y)` with the hearts that show its price. Returns
/// the chest and the hearts, which belong to it.
pub fn spawn_chest(world: &mut World, x: i32, y: i32, cost: i32, upgrade: Upgrade) -> (r: (
    usize,
    Vec<usize>,
))
    ensures
        r.0 == old(world)@.extent(),
        final(world)@ == with_priced_chest(old(world)@, x, y, cost, upgrade),
        r.1@.len() == (if cost == 2 {
            2int
        } else if cost == 1 {
            1int
        } else {
            0int
        }),
        cost == 1 ==> r.1@[0] == with_chest(old(world)@, x, y, cost, upgrade).extent(),
        cost == 2 ==> r.1@[0] == with_chest(old(world)@, x, y, cost, upgrade).extent(),
        cost == 2 ==> r.1@[1] == with_spinner(
            with_chest(old(world)@, x, y, cost, upgrade),
            -4000i32,
            8000,
            30,
            price_tag_frames(),
        ).extent(),
{
    let mut hitboxes = HitState::new();
    hitboxes.set(PLAYER_HITTABLE_BOX, 16000, 16000, (0, 0));
    hitboxes.set(CHEST_BOX, 16000, 16000, (0, 0));
    let chest = world.spawn_at(x, y);
    world.with_sprite(chest, CHEST_SPRITE);
    insert(&mut world.hit_states, chest, hitboxes);
    insert(&mut world.animations, chest, AnimationController::new());
    insert(&mut world.healths, chest, Health::new(3));
    insert(&mut world.chests, chest, Chest { cost, upgrade });
    world.with_physics(chest, 8000);
    proof {
        let goal = with_chest(old(world)@, x, y, cost, upgrade);
        assert(world@.animations =~= goal.animations);
        assert(world@.hit_states =~= goal.hit_states);
    }
    let mut hearts: Vec<usize> = Vec::new();
    if cost == 2 {
        hearts.push(heart_spin(world, -4000, 8000));
        hearts.push(heart_spin(world, 4000, 8000));
    } else if cost == 1 {
        hearts.push(heart_spin(world, 0, 8000));
    }
    (chest, hearts)
}

} // verus!
