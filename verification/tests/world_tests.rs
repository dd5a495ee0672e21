use hitbox_combat::animation::{AnimationController, AnimationState};
use hitbox_combat::collision::HitboxCollisionSystem;
use hitbox_combat::combat::Health;
use hitbox_combat::drops::{buy, spawn_chest, Chest, PurchaseSystem, Upgrade, CHEST_BOX};
use hitbox_combat::enemies::{spawn_goblin, Enemy};
use hitbox_combat::geometry::{Hitbox, Physical, Rotation, Velocity};
use hitbox_combat::hitstate::{HitState, PLAYER_HITTABLE_BOX, PLAYER_INTERACT_BOX, PORTAL_BOX};
use hitbox_combat::player::{spawn_player, Player, PlayerState};
use hitbox_combat::storage::{insert, World};
use hitbox_combat::world::{
    heart_spin, heart_spin_animation, init_world, portal, portal_animation, spend_heart_spin,
    tile_position, wall_body, want_advance, ExitSystem, Portal, PortalSystem, WorldState,
};

fn plain_player() -> Player {
    Player::new([0; 10], Vec::new())
}

fn shopper(world: &mut World, at: (i32, i32), health: Health, player: Player) -> usize {
    let entity = world.spawn_at(at.0, at.1);
    let mut state = HitState::new();
    state.set(PLAYER_INTERACT_BOX, 24000, 16000, (8000, 0));
    insert(&mut world.hit_states, entity, state);
    insert(&mut world.healths, entity, health);
    insert(&mut world.players, entity, player);
    entity
}

#[test]
fn buying_the_heart_bracelet() {
    let chest = Chest { cost: 1, upgrade: Upgrade::HeartBracelet };
    let mut player = plain_player();
    let mut health = Health::new(8);
    buy(&chest, &mut player, &mut health);
    assert!(player.healthy);
    assert!(!player.big_hearts);
    assert_eq!(health, Health { max: 7, left: 7, invuln: 0 });
    // a second bracelet is not bought
    buy(&chest, &mut player, &mut health);
    assert_eq!(health, Health { max: 7, left: 7, invuln: 0 });
}

#[test]
fn buying_the_golden_aegis() {
    let chest = Chest { cost: 2, upgrade: Upgrade::GoldenAegis };
    let mut player = plain_player();
    let mut health = Health { max: 8, left: 5, invuln: 300 };
    buy(&chest, &mut player, &mut health);
    assert!(player.big_hearts);
    assert!(!player.healthy);
    assert_eq!(health, Health { max: 12, left: 6, invuln: 300 });
    buy(&chest, &mut player, &mut health);
    assert_eq!(health, Health { max: 12, left: 6, invuln: 300 });
    // big hearts double the price of what comes after
    let bracelet = Chest { cost: 3, upgrade: Upgrade::HeartBracelet };
    buy(&bracelet, &mut player, &mut health);
    assert!(!player.healthy);
    assert_eq!(health, Health { max: 12, left: 6, invuln: 300 });
    let cheap = Chest { cost: 2, upgrade: Upgrade::HeartBracelet };
    buy(&cheap, &mut player, &mut health);
    assert!(player.healthy);
    assert_eq!(health, Health { max: 8, left: 2, invuln: 300 });
}

#[test]
fn a_purchase_needs_more_health_than_it_costs() {
    let chest = Chest { cost: 3, upgrade: Upgrade::HeartBracelet };
    let mut player = plain_player();
    let mut health = Health { max: 8, left: 3, invuln: 0 };
    buy(&chest, &mut player, &mut health);
    assert!(!player.healthy);
    assert_eq!(health.left, 3);
    health = Health { max: 3, left: 8, invuln: 0 };
    buy(&chest, &mut player, &mut health);
    assert!(!player.healthy);
    health = Health { max: 4, left: 4, invuln: 0 };
    buy(&chest, &mut player, &mut health);
    assert!(player.healthy);
    assert_eq!(health, Health { max: 1, left: 1, invuln: 0 });
    let ring = Chest { cost: 0, upgrade: Upgrade::CursedRing };
    let before = (player, health);
    buy(&ring, &mut player, &mut health);
    assert_eq!((player.healthy, player.big_hearts, health), (before.0.healthy, before.0.big_hearts, before.1));
}

#[test]
fn a_chest_has_all_its_parts() {
    let mut world = World::new();
    let (chest, hearts) = spawn_chest(&mut world, 0, 150000, 2, Upgrade::GoldenAegis);
    assert_eq!(chest, 0);
    assert_eq!(hearts, vec![1, 2]);
    assert_eq!(world.transforms[chest], Some((0, 150000)));
    assert_eq!(world.sprites[chest], Some(0));
    assert_eq!(world.healths[chest], Some(Health::new(3)));
    assert_eq!(world.chests[chest], Some(Chest { cost: 2, upgrade: Upgrade::GoldenAegis }));
    assert_eq!(world.physicals[chest], Some(Physical::new(8000)));
    assert_eq!(world.velocities[chest], Some(Velocity { vx: 0, vy: 0 }));
    assert_eq!(world.rotations[chest], Some(Rotation::East));
    let channels = world.hit_states[chest].unwrap();
    assert_eq!(channels.get(CHEST_BOX), Some(Hitbox::new(8000)));
    assert_eq!(channels.get(PLAYER_HITTABLE_BOX), Some(Hitbox::new(8000)));
    assert_eq!(world.transforms[hearts[0]], Some((-4000, 8000)));
    assert_eq!(world.transforms[hearts[1]], Some((4000, 8000)));
    assert_eq!(world.sprites[hearts[0]], Some(30));
    assert!(world.animations[hearts[1]].as_ref().unwrap().looping());
    let (_, one) = spawn_chest(&mut world, 0, 0, 1, Upgrade::HeartBracelet);
    assert_eq!(one.len(), 1);
    assert_eq!(world.transforms[one[0]], Some((0, 8000)));
    let (_, none) = spawn_chest(&mut world, 0, 0, 3, Upgrade::CursedRing);
    assert!(none.is_empty());
}

#[test]
fn opening_a_chest_spends_it_and_sells_its_upgrade() {
    let mut world = World::new();
    let (chest, _) = spawn_chest(&mut world, 20000, 0, 1, Upgrade::HeartBracelet);
    let (aegis, _) = spawn_chest(&mut world, 20000, 500000, 2, Upgrade::GoldenAegis);
    let player = shopper(&mut world, (0, 0), Health::new(8), plain_player());
    // nothing happens while the action is not held
    PurchaseSystem.run(&mut world, None);
    PurchaseSystem.run(&mut world, Some(false));
    assert_eq!(world.healths[chest], Some(Health::new(3)));
    assert!(!world.players[player].unwrap().healthy);
    PurchaseSystem.run(&mut world, Some(true));
    assert_eq!(world.healths[chest], Some(Health { max: 3, left: -96, invuln: 0 }));
    assert_eq!(world.healths[aegis], Some(Health::new(3)));
    assert!(world.players[player].unwrap().healthy);
    assert_eq!(world.healths[player], Some(Health { max: 7, left: 7, invuln: 0 }));
    // opening it again takes another blow but sells nothing
    PurchaseSystem.run(&mut world, Some(true));
    assert_eq!(world.healths[chest].unwrap().left, -195);
    assert_eq!(world.healths[player], Some(Health { max: 7, left: 7, invuln: 0 }));
    assert_eq!(PurchaseSystem::source(), PLAYER_INTERACT_BOX);
    assert_eq!(PurchaseSystem::target(), CHEST_BOX);
}

#[test]
fn a_chest_is_spent_even_if_the_player_cannot_pay() {
    let mut world = World::new();
    let (chest, _) = spawn_chest(&mut world, 20000, 0, 2, Upgrade::GoldenAegis);
    let player = shopper(&mut world, (0, 0), Health { max: 8, left: 2, invuln: 0 }, plain_player());
    PurchaseSystem.run(&mut world, Some(true));
    assert!(world.healths[chest].unwrap().left <= 0);
    assert_eq!(world.healths[player], Some(Health { max: 8, left: 2, invuln: 0 }));
    assert!(!world.players[player].unwrap().big_hearts);
}

#[test]
fn an_opened_chest_has_nothing_left_however_sturdy() {
    let mut world = World::new();
    let (chest, _) = spawn_chest(&mut world, 20000, 0, 1, Upgrade::CursedRing);
    world.healths[chest] = Some(Health { max: 500, left: 500, invuln: 70 });
    let player = shopper(&mut world, (0, 0), Health::new(8), plain_player());
    PurchaseSystem.run(&mut world, Some(true));
    assert_eq!(world.healths[chest], Some(Health { max: 500, left: 0, invuln: 0 }));
    assert_eq!(world.healths[player], Some(Health::new(8)));
    PurchaseSystem.collide((0, 0, 1, 1), player, player, &mut world);
    assert_eq!(world.healths[player], Some(Health { max: 8, left: -91, invuln: 0 }));
}

#[test]
fn the_level_starts_with_the_exit_shut() {
    assert_eq!(WorldState::new(), WorldState { enemies_alive: 1, on_portal: false, opened_portal: false });
    let mut world = World::new();
    init_world(&mut world);
    assert_eq!(world.state, Some(WorldState::new()));
}

#[test]
fn the_portal_opens_when_no_enemy_lives() {
    let mut world = World::new();
    init_world(&mut world);
    let gate = portal(&mut world, 100000, 75000);
    let goblin = spawn_goblin(&mut world, 0, 0);
    let second = spawn_goblin(&mut world, 0, 0);
    assert_eq!(PortalSystem::count_enemies(&world.enemies), 2);
    PortalSystem.run(&mut world);
    assert_eq!(world.state, Some(WorldState { enemies_alive: 2, on_portal: false, opened_portal: false }));
    assert!(!world.animations[gate].as_ref().unwrap().active());
    world.delete(goblin);
    PortalSystem.run(&mut world);
    assert_eq!(world.state.unwrap().enemies_alive, 1);
    world.delete(second);
    PortalSystem.run(&mut world);
    assert_eq!(world.state, Some(WorldState { enemies_alive: 0, on_portal: false, opened_portal: true }));
    let controller = world.animations[gate].as_mut().unwrap();
    assert!(controller.active() && controller.looping());
    assert_eq!(controller.state(), AnimationState::Idle);
    assert_eq!(controller.step(160).unwrap().sprite, Some(56));
    // once opened the animation is not begun anew
    PortalSystem.run(&mut world);
    assert_eq!(world.animations[gate].as_ref().unwrap().progress(), 160);
}

#[test]
fn without_a_portal_the_exit_stays_shut() {
    let mut world = World::new();
    init_world(&mut world);
    let marked = world.spawn_at(0, 0);
    insert(&mut world.portals, marked, Portal);
    PortalSystem.run(&mut world);
    assert_eq!(world.state, Some(WorldState { enemies_alive: 0, on_portal: false, opened_portal: false }));
    insert(&mut world.animations, marked, AnimationController::new());
    let enemy = world.spawn_at(0, 0);
    insert(&mut world.enemies, enemy, Enemy::new_invisible());
    PortalSystem.run(&mut world);
    assert_eq!(world.state.unwrap().enemies_alive, 1);
    assert!(!world.state.unwrap().opened_portal);
    let mut no_state = World::new();
    portal(&mut no_state, 0, 0);
    PortalSystem.run(&mut no_state);
    assert_eq!(no_state.state, None);
    assert!(!no_state.animations[0].as_ref().unwrap().active());
}

#[test]
fn standing_on_the_portal() {
    let mut world = World::new();
    init_world(&mut world);
    let gate = portal(&mut world, 0, 0);
    let player = shopper(&mut world, (-10000, 0), Health::new(8), plain_player());
    ExitSystem.run(&mut world);
    assert!(world.state.unwrap().on_portal);
    world.transforms[player] = Some((-30000, 0));
    ExitSystem.run(&mut world);
    assert!(!world.state.unwrap().on_portal);
    assert_eq!(world.transforms[gate], Some((0, 0)));
    assert_eq!(ExitSystem::source(), PORTAL_BOX);
    assert_eq!(ExitSystem::target(), PLAYER_INTERACT_BOX);
}

#[test]
fn leaving_the_level() {
    let ready = WorldState { enemies_alive: 0, on_portal: true, opened_portal: true };
    assert!(want_advance(&Some(ready), Some(true)));
    assert!(!want_advance(&Some(ready), Some(false)));
    assert!(!want_advance(&Some(ready), None));
    assert!(!want_advance(&None, Some(true)));
    assert!(!want_advance(&Some(WorldState { enemies_alive: 1, ..ready }), Some(true)));
    assert!(!want_advance(&Some(WorldState { on_portal: false, ..ready }), Some(true)));
    assert!(want_advance(&Some(WorldState { opened_portal: false, ..ready }), Some(true)));
}

#[test]
fn tiles_and_walls() {
    assert_eq!(tile_position(0, 0), (-256000, -256000));
    assert_eq!(tile_position(16, 31), (0, 240000));
    assert_eq!(tile_position(-1, 1), (-272000, -240000));
    assert_eq!(tile_position(i32::MAX, i32::MIN), (i32::MAX, i32::MIN));
    let (at, body) = wall_body((0, 0), (32, 1));
    assert_eq!(at, (-8000, -256000));
    assert_eq!(body, Physical::new_wall(512000, 16000));
    let (at, body) = wall_body((31, 0), (1, 32));
    assert_eq!(at, (240000, -8000));
    assert_eq!(body, Physical::new_wall(16000, 512000));
    let (_, none) = wall_body((0, 0), (0, -3));
    assert_eq!(none, Physical::new_wall(0, 0));
    let (_, huge) = wall_body((0, 0), (i32::MAX, 1));
    assert_eq!(huge.hitbox.width, u32::MAX);
}

#[test]
fn spinning_sprites() {
    let gate = portal_animation(150);
    assert_eq!(gate.len(), 7);
    let sprites: Vec<Option<usize>> = (0..7).map(|i| gate.frame(i).unwrap().sprite).collect();
    assert_eq!(sprites, (55..62).map(Some).collect::<Vec<_>>());
    assert!((0..7).all(|i| gate.frame(i).unwrap().duration == 150));
    let heart = heart_spin_animation(150, 500, [30, 31, 32, 33, 34, 35, 36, 37]);
    let durations: Vec<u32> = (0..8).map(|i| heart.frame(i).unwrap().duration).collect();
    assert_eq!(durations, vec![500, 150, 150, 150, 500, 150, 150, 150]);
    let sprites: Vec<Option<usize>> = (0..8).map(|i| heart.frame(i).unwrap().sprite).collect();
    assert_eq!(sprites, (30..38).map(Some).collect::<Vec<_>>());
    let mut world = World::new();
    let heart = heart_spin(&mut world, 1, 2);
    let spent = spend_heart_spin(&mut world, 3, 4);
    assert_eq!(world.transforms[heart], Some((1, 2)));
    assert_eq!(world.sprites[heart], Some(30));
    assert_eq!(world.sprites[spent], Some(38));
    assert_eq!(world.animations[spent].as_mut().unwrap().step(250).unwrap().sprite, Some(39));
    assert_eq!(world.animations[heart].as_mut().unwrap().step(250).unwrap().sprite, Some(30));
    let gate = portal(&mut world, 9, 9);
    assert_eq!(world.sprites[gate], Some(54));
    assert_eq!(world.portals[gate], Some(Portal));
    assert_eq!(world.hit_states[gate].unwrap().get(PORTAL_BOX), Some(Hitbox::new(4000)));
}

#[test]
fn the_player_enters_the_level_in_the_middle_of_the_stage() {
    let mut world = World::new();
    let state = PlayerState { health: 5, max_health: 7, levels: 2, upgrades: vec![Upgrade::HeartBracelet] };
    let hearts = [10, 11, 12, 13, 14, 15, 16, 17, 18, 19];
    let player = spawn_player(&mut world, &state, hearts);
    assert_eq!(world.transforms[player], Some((100000, 75000)));
    assert_eq!(world.sprites[player], Some(1));
    assert_eq!(world.healths[player], Some(Health { max: 7, left: 5, invuln: 2000 }));
    assert_eq!(world.physicals[player], Some(Physical::new(4000)));
    let made = world.players[player].unwrap();
    assert!(made.healthy && !made.big_hearts && made.can_move);
    assert_eq!(made.hearts, hearts);
    assert_eq!((made.walk_accel, made.walk_speed), (400000, 100000));
    let channels = world.hit_states[player].unwrap();
    assert_eq!(channels.get(1), Some(Hitbox::new(8000)));
    assert_eq!(channels.get(PLAYER_INTERACT_BOX), Some(Hitbox::new_at_rect(24000, 16000, (8000, 0))));
    assert_eq!(world.animations[player].as_ref().unwrap().state(), AnimationState::Idle);
}
