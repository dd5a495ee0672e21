use hitbox_combat::animation::{AnimationController, AnimationState, HitboxAnimation};
use hitbox_combat::collision::HitboxCollisionSystem;
use hitbox_combat::combat::Health;
use hitbox_combat::enemies::{
    spawn_goblin, wanders, AimingSystem, ChaseAndWanderEnemy, ChaseAndWanderSystem, Enemy, MeleeEnemy,
    SightSystem, FIRST_PAUSE,
};
use hitbox_combat::geometry::{Hitbox, Physical, Rotation, Velocity};
use hitbox_combat::hitstate::{
    HitState, ENEMY_AIMING_BOX, ENEMY_ATTACK_BOX, ENEMY_HITTABLE_BOX, ENEMY_SIGHT_BOX, PLAYER_HITTABLE_BOX,
};
use hitbox_combat::storage::{insert, World};

fn state_of(world: &World, entity: usize) -> AnimationState {
    world.animations[entity].as_ref().unwrap().state()
}

fn chaser_of(world: &World, entity: usize) -> &ChaseAndWanderEnemy {
    world.chasers[entity].as_ref().unwrap()
}

fn target_at(world: &mut World, at: (i32, i32)) -> usize {
    let entity = world.spawn_at(at.0, at.1);
    let mut state = HitState::new();
    state.set(ENEMY_HITTABLE_BOX, 16000, 16000, (0, 0));
    insert(&mut world.hit_states, entity, state);
    entity
}

#[test]
fn enemy_markers() {
    assert!(!Enemy::new().invisible);
    assert!(Enemy::new_invisible().invisible);
    let melee = MeleeEnemy::new(HitboxAnimation::new(), 4);
    assert!(!melee.in_melee);
    assert_eq!(melee.damage, 4);
    let chaser = ChaseAndWanderEnemy::new(HitboxAnimation::new(), HitboxAnimation::new(), 5, 7);
    assert_eq!(chaser.aware_of_player, None);
    assert_eq!(chaser.wander_direction, None);
    assert_eq!(chaser.wander_progress, FIRST_PAUSE);
    assert_eq!((chaser.wander_speed, chaser.chase_speed), (5, 7));
    assert_eq!(wanders(), vec![(1, 0), (-1, 0), (0, 1), (0, -1)]);
}

#[test]
fn a_goblin_has_all_its_parts() {
    let mut world = World::new();
    let other = world.spawn_at(1, 1);
    let goblin = spawn_goblin(&mut world, 3000, -4000);
    assert_eq!((other, goblin), (0, 1));
    assert_eq!(world.transforms[goblin], Some((3000, -4000)));
    assert_eq!(world.velocities[goblin], Some(Velocity { vx: 0, vy: 0 }));
    assert_eq!(world.rotations[goblin], Some(Rotation::East));
    assert_eq!(world.physicals[goblin], Some(Physical::new(6000)));
    assert_eq!(world.healths[goblin], Some(Health::new(2)));
    assert_eq!(world.enemies[goblin], Some(Enemy::new()));
    assert_eq!(world.sprites[goblin], Some(7));
    assert_eq!(state_of(&world, goblin), AnimationState::Idle);
    let channels = world.hit_states[goblin].unwrap();
    assert_eq!(channels.get(ENEMY_AIMING_BOX), Some(Hitbox::new_at_rect(20000, 10000, (16000, 0))));
    assert_eq!(channels.get(ENEMY_SIGHT_BOX), Some(Hitbox::new_at_rect(64000, 64000, (20000, 0))));
    assert_eq!(channels.get(PLAYER_HITTABLE_BOX), Some(Hitbox::new_at_rect(12000, 12000, (0, 0))));
    assert_eq!(channels.get(ENEMY_ATTACK_BOX), None);
    let melee = world.melee_enemies[goblin].as_ref().unwrap();
    assert_eq!(melee.damage, 1);
    assert_eq!(melee.attack_animation.len(), 6);
    let durations: Vec<u32> = (0..6).map(|i| melee.attack_animation.frame(i).unwrap().duration).collect();
    assert_eq!(durations, vec![125, 125, 375, 125, 375, 500]);
    let sprites: Vec<Option<usize>> = (0..6).map(|i| melee.attack_animation.frame(i).unwrap().sprite).collect();
    assert_eq!(sprites, vec![Some(10), Some(11), Some(13), Some(12), Some(14), Some(7)]);
    assert_eq!(
        melee.attack_animation.frame(1).unwrap().hitboxes[ENEMY_ATTACK_BOX],
        Some(Hitbox::new_at(4000, (8000, 2000)))
    );
    assert_eq!(
        melee.attack_animation.frame(3).unwrap().hitboxes[ENEMY_ATTACK_BOX],
        Some(Hitbox::new_at(4000, (8000, -2000)))
    );
    assert_eq!(melee.attack_animation.frame(2).unwrap().hitboxes[ENEMY_ATTACK_BOX], None);
    assert_eq!(melee.attack_animation.frame(1).unwrap().velocity, Some((50000, 0)));
    let chaser = chaser_of(&world, goblin);
    assert_eq!((chaser.wander_speed, chaser.chase_speed), (50000, 75000));
    assert_eq!(chaser.walking_animation.len(), 4);
    assert_eq!(chaser.idle_animation.len(), 1);
    assert_eq!(world.transforms[other], Some((1, 1)));
    assert_eq!(world.healths[other], None);
}

#[test]
fn a_goblin_that_knows_its_target_chases_it() {
    let mut world = World::new();
    let goblin = spawn_goblin(&mut world, 0, 0);
    world.chasers[goblin].as_mut().unwrap().aware_of_player = Some((30000, 40000));
    assert!(!ChaseAndWanderSystem::needs_draws(&world, goblin, 16));
    ChaseAndWanderSystem::advance(&mut world, goblin, 16, 0, (1, 0));
    assert_eq!(world.velocities[goblin], Some(Velocity { vx: 45000, vy: 60000 }));
    assert_eq!(world.rotations[goblin], Some(Rotation::North));
    assert_eq!(state_of(&world, goblin), AnimationState::Walking);
    assert_eq!(chaser_of(&world, goblin).wander_progress, FIRST_PAUSE);
    world.chasers[goblin].as_mut().unwrap().aware_of_player = Some((-40000, 30000));
    ChaseAndWanderSystem::advance(&mut world, goblin, 16, 0, (1, 0));
    assert_eq!(world.velocities[goblin], Some(Velocity { vx: -60000, vy: 45000 }));
    assert_eq!(world.rotations[goblin], Some(Rotation::West));
}

#[test]
fn a_goblin_near_its_target_halts() {
    let mut world = World::new();
    let goblin = spawn_goblin(&mut world, 1000, 1000);
    world.velocities[goblin] = Some(Velocity { vx: 7, vy: 7 });
    world.chasers[goblin].as_mut().unwrap().aware_of_player = Some((1000, 13000));
    ChaseAndWanderSystem::advance(&mut world, goblin, 16, 0, (1, 0));
    assert_eq!(world.velocities[goblin], Some(Velocity { vx: 0, vy: 0 }));
    assert_eq!(state_of(&world, goblin), AnimationState::Idle);
    assert!(world.animations[goblin].as_ref().unwrap().active());
    assert_eq!(world.rotations[goblin], Some(Rotation::East));
    // one sub-unit farther and it walks
    world.chasers[goblin].as_mut().unwrap().aware_of_player = Some((1000, 13001));
    ChaseAndWanderSystem::advance(&mut world, goblin, 16, 0, (1, 0));
    assert_eq!(world.velocities[goblin], Some(Velocity { vx: 0, vy: 75000 }));
    assert_eq!(state_of(&world, goblin), AnimationState::Walking);
}

#[test]
fn a_goblin_in_range_strikes() {
    let mut world = World::new();
    let goblin = spawn_goblin(&mut world, 0, 0);
    world.chasers[goblin].as_mut().unwrap().aware_of_player = Some((90000, 0));
    world.melee_enemies[goblin].as_mut().unwrap().in_melee = true;
    world.velocities[goblin] = Some(Velocity { vx: 3, vy: 4 });
    ChaseAndWanderSystem::advance(&mut world, goblin, 16, 0, (1, 0));
    assert_eq!(state_of(&world, goblin), AnimationState::Attacking);
    assert_eq!(world.velocities[goblin], Some(Velocity { vx: 3, vy: 4 }));
    let first = world.animations[goblin].as_mut().unwrap().step(1).unwrap();
    assert_eq!(first.sprite, Some(10));
    // while it attacks it decides nothing
    world.melee_enemies[goblin].as_mut().unwrap().in_melee = false;
    ChaseAndWanderSystem::advance(&mut world, goblin, 16, 0, (1, 0));
    assert_eq!(state_of(&world, goblin), AnimationState::Attacking);
    assert_eq!(world.velocities[goblin], Some(Velocity { vx: 3, vy: 4 }));
}

#[test]
fn a_goblin_without_target_picks_a_leg() {
    let mut world = World::new();
    let goblin = spawn_goblin(&mut world, 0, 0);
    assert!(ChaseAndWanderSystem::needs_draws(&world, goblin, 16));
    ChaseAndWanderSystem::advance(&mut world, goblin, 16, 1 << 31, (0, -1));
    let chaser = chaser_of(&world, goblin);
    assert_eq!(chaser.wander_direction, Some((0, -1)));
    assert_eq!(chaser.wander_progress, 2000);
    assert_eq!(state_of(&world, goblin), AnimationState::Idle);
    assert_eq!(world.velocities[goblin], Some(Velocity { vx: 0, vy: 0 }));
    // the leg begins with the next tick
    assert!(!ChaseAndWanderSystem::needs_draws(&world, goblin, 16));
    ChaseAndWanderSystem::advance(&mut world, goblin, 16, 9, (1, 0));
    assert_eq!(chaser_of(&world, goblin).wander_progress, 1984);
    assert_eq!(world.velocities[goblin], Some(Velocity { vx: 0, vy: -50000 }));
    assert_eq!(world.rotations[goblin], Some(Rotation::South));
    assert_eq!(state_of(&world, goblin), AnimationState::Walking);
    // while it walks only the countdown moves
    world.velocities[goblin] = Some(Velocity { vx: 1, vy: 2 });
    ChaseAndWanderSystem::advance(&mut world, goblin, 16, 9, (1, 0));
    assert_eq!(chaser_of(&world, goblin).wander_progress, 1968);
    assert_eq!(world.velocities[goblin], Some(Velocity { vx: 1, vy: 2 }));
    // the leg ends when the countdown runs out
    assert!(ChaseAndWanderSystem::needs_draws(&world, goblin, 1968));
    ChaseAndWanderSystem::advance(&mut world, goblin, 1968, 0, (1, 0));
    let chaser = chaser_of(&world, goblin);
    assert_eq!(chaser.wander_direction, None);
    assert_eq!(chaser.wander_progress, 2000);
    assert_eq!(world.velocities[goblin], Some(Velocity { vx: 0, vy: 0 }));
    assert_eq!(state_of(&world, goblin), AnimationState::Idle);
    // and the pause counts down without draws
    ChaseAndWanderSystem::advance(&mut world, goblin, 500, 77, (1, 0));
    let chaser = chaser_of(&world, goblin);
    assert_eq!(chaser.wander_direction, None);
    assert_eq!(chaser.wander_progress, 1500);
}

#[test]
fn the_sample_selects_the_pause() {
    for (sample, leg, pause) in [(0u32, 1000i64, 2000i64), (u32::MAX, 2999, 4999), (1 << 30, 1500, 2750)] {
        let mut world = World::new();
        let goblin = spawn_goblin(&mut world, 0, 0);
        ChaseAndWanderSystem::advance(&mut world, goblin, 16, sample, (1, 0));
        assert_eq!(chaser_of(&world, goblin).wander_progress, leg);
        world.chasers[goblin].as_mut().unwrap().wander_progress = 10;
        ChaseAndWanderSystem::advance(&mut world, goblin, 16, sample, (1, 0));
        assert_eq!(chaser_of(&world, goblin).wander_progress, pause);
    }
}

#[test]
fn an_entity_that_lacks_a_part_does_not_roam() {
    let mut world = World::new();
    let goblin = spawn_goblin(&mut world, 0, 0);
    world.velocities[goblin] = None;
    assert!(!ChaseAndWanderSystem::needs_draws(&world, goblin, 16));
    ChaseAndWanderSystem::advance(&mut world, goblin, 16, 0, (1, 0));
    assert_eq!(chaser_of(&world, goblin).wander_progress, FIRST_PAUSE);
    ChaseAndWanderSystem::advance(&mut world, 40, 16, 0, (1, 0));
    assert!(!ChaseAndWanderSystem::needs_draws(&world, 40, 16));
}

#[test]
fn walk_and_wander_set_velocity_and_facing() {
    let mut rotations: Vec<Option<Rotation>> = Vec::new();
    let mut controller = AnimationController::new();
    let mut velocity = Velocity { vx: 0, vy: 0 };
    let cases = [
        ((5, 1), Rotation::East),
        ((-5, 1), Rotation::West),
        ((1, 5), Rotation::North),
        ((1, -5), Rotation::South),
        ((4, 4), Rotation::North),
        ((-4, -4), Rotation::South),
        ((0, 0), Rotation::South),
    ];
    for (direction, facing) in cases {
        ChaseAndWanderSystem::walk(&mut rotations, &mut controller, HitboxAnimation::new(), &mut velocity, 2, direction);
        assert_eq!(velocity, Velocity { vx: direction.0, vy: direction.1 });
        assert_eq!(rotations, vec![None, None, Some(facing)]);
        assert_eq!(controller.state(), AnimationState::Walking);
    }
    let enemy = ChaseAndWanderEnemy::new(HitboxAnimation::new(), HitboxAnimation::new(), 50000, 75000);
    ChaseAndWanderSystem::wander(&mut rotations, &mut controller, &mut velocity, &enemy, 0, (-1, 0));
    assert_eq!(velocity, Velocity { vx: -50000, vy: 0 });
    assert_eq!(rotations[0], Some(Rotation::West));
    let fast = ChaseAndWanderEnemy::new(HitboxAnimation::new(), HitboxAnimation::new(), i32::MAX, 0);
    ChaseAndWanderSystem::wander(&mut rotations, &mut controller, &mut velocity, &fast, 0, (3, -3));
    assert_eq!(velocity, Velocity { vx: i32::MAX, vy: i32::MIN });
}

#[test]
fn chase_velocity_points_at_the_target() {
    assert_eq!(ChaseAndWanderSystem::chase((0, 0), (30000, 40000), 75000), (45000, 60000));
    assert_eq!(ChaseAndWanderSystem::chase((10, 10), (10, 10), 75000), (0, 0));
    assert_eq!(ChaseAndWanderSystem::chase((0, 0), (0, -5), 1000), (0, -1000));
    assert_eq!(ChaseAndWanderSystem::chase((0, 0), (3, 4), -1000), (-600, -800));
    assert_eq!(
        ChaseAndWanderSystem::chase((i32::MIN, 0), (i32::MAX, 0), i32::MAX),
        (i32::MAX, 0)
    );
}

#[test]
fn the_rule_runs_over_every_enemy_with_draws_of_its_own() {
    let mut world = World::new();
    let first = spawn_goblin(&mut world, 0, 0);
    let chasing = spawn_goblin(&mut world, 0, 0);
    let second = spawn_goblin(&mut world, 100000, 0);
    world.chasers[chasing].as_mut().unwrap().aware_of_player = Some((0, -50000));
    ChaseAndWanderSystem.run(&mut world, 16);
    for goblin in [first, second] {
        let chaser = chaser_of(&world, goblin);
        assert!(wanders().contains(&chaser.wander_direction.unwrap()));
        assert!(1000 <= chaser.wander_progress && chaser.wander_progress < 3000);
        assert_eq!(state_of(&world, goblin), AnimationState::Idle);
    }
    assert_eq!(world.velocities[chasing], Some(Velocity { vx: 0, vy: -75000 }));
    assert_eq!(world.rotations[chasing], Some(Rotation::South));
    ChaseAndWanderSystem.run(&mut world, 16);
    for goblin in [first, second] {
        assert_eq!(state_of(&world, goblin), AnimationState::Walking);
        let velocity = world.velocities[goblin].unwrap();
        let direction = chaser_of(&world, goblin).wander_direction.unwrap();
        assert_eq!((velocity.vx, velocity.vy), (direction.0 * 50000, direction.1 * 50000));
    }
}

#[test]
fn sight_remembers_where_the_target_stands() {
    let mut world = World::new();
    let goblin = spawn_goblin(&mut world, 0, 0);
    let player = target_at(&mut world, (40000, 10000));
    let hidden = target_at(&mut world, (-40000, 0));
    SightSystem.run(&mut world);
    assert_eq!(chaser_of(&world, goblin).aware_of_player, Some((40000, 10000)));
    // the sight box looks where the goblin faces
    world.chasers[goblin].as_mut().unwrap().aware_of_player = None;
    world.transforms[player] = None;
    world.hit_states[goblin].as_mut().unwrap().rotate(Rotation::West);
    SightSystem.run(&mut world);
    assert_eq!(chaser_of(&world, goblin).aware_of_player, Some((-40000, 0)));
    assert_eq!(world.transforms[hidden], Some((-40000, 0)));
    assert_eq!(SightSystem::source(), ENEMY_SIGHT_BOX);
    assert_eq!(SightSystem::target(), ENEMY_HITTABLE_BOX);
}

#[test]
fn sight_needs_a_controller_and_the_wits_of_a_chaser() {
    let mut world = World::new();
    let goblin = spawn_goblin(&mut world, 0, 0);
    let _player = target_at(&mut world, (40000, 10000));
    world.animations[goblin] = None;
    SightSystem.run(&mut world);
    assert_eq!(chaser_of(&world, goblin).aware_of_player, None);
    world.chasers[goblin] = None;
    insert(&mut world.animations, goblin, AnimationController::new());
    SightSystem.run(&mut world);
    assert!(world.chasers[goblin].is_none());
}

#[test]
fn aim_is_taken_anew_every_tick() {
    let mut world = World::new();
    let goblin = spawn_goblin(&mut world, 0, 0);
    let idle = spawn_goblin(&mut world, 500000, 500000);
    world.melee_enemies[idle].as_mut().unwrap().in_melee = true;
    let player = target_at(&mut world, (20000, 0));
    AimingSystem.run(&mut world);
    assert!(world.melee_enemies[goblin].as_ref().unwrap().in_melee);
    assert!(!world.melee_enemies[idle].as_ref().unwrap().in_melee);
    world.transforms[player] = Some((80000, 0));
    AimingSystem.run(&mut world);
    assert!(!world.melee_enemies[goblin].as_ref().unwrap().in_melee);
    assert_eq!(AimingSystem::source(), ENEMY_AIMING_BOX);
    assert_eq!(AimingSystem::target(), ENEMY_HITTABLE_BOX);
}
