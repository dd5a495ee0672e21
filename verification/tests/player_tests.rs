use hitbox_combat::animation::{AnimationController, AnimationState};
use hitbox_combat::combat::Health;
use hitbox_combat::drops::Upgrade;
use hitbox_combat::geometry::{Hitbox, Rotation, Velocity};
use hitbox_combat::hitstate::{ENEMY_ATTACK_BOX, PLAYER_ATTACK_BOX};
use hitbox_combat::pipeline::{AnimationSystem, RotationSystem};
use hitbox_combat::player::{
    accelerate, get_health, heart_sprite, spawn_player, Player, PlayerAttackSystem, PlayerHeartSystem,
    PlayerMovementSystem, PlayerState,
};
use hitbox_combat::storage::{insert, World};
use hitbox_combat::ui::{
    can_continue, draw_sprite, init_continue, pin, rise, track, Anchor, CameraFollow, ContinueIcon,
    ContinueSystem, ContinueTimer, Side, UiSprite,
};

const FULL: usize = 23;
const HALF: usize = 24;
const EMPTY: usize = 25;
const HALF_SPENT: usize = 26;
const BLANK: usize = 27;
const QUARTER: usize = 62;
const THREE_QUARTER: usize = 63;
const QUARTER_HALF_SPENT: usize = 64;
const HALF_EMPTY: usize = 65;

fn row(max: i32, left: i32, big: bool) -> Vec<usize> {
    let health = Health { max, left, invuln: 0 };
    (0..10).map(|slot| heart_sprite(&health, big, slot)).collect()
}

fn player_in(world: &mut World) -> usize {
    spawn_player(world, &PlayerState::new(), [90, 91, 92, 93, 94, 95, 96, 97, 98, 99])
}

fn state_of(world: &World, entity: usize) -> AnimationState {
    world.animations[entity].as_ref().unwrap().state()
}

#[test]
fn player_state_carries_over() {
    let mut state = PlayerState::new();
    assert_eq!((state.health, state.max_health, state.levels), (8, 8, 0));
    assert!(state.upgrades.is_empty());
    let next = state.advance((12, 5, vec![Upgrade::GoldenAegis]));
    assert_eq!((next.health, next.max_health, next.levels), (5, 12, 1));
    assert_eq!(next.upgrades, vec![Upgrade::GoldenAegis]);
    assert_eq!(state.levels, 0);
}

#[test]
fn upgrades_round_trip() {
    let none = Player::new([0; 10], vec![Upgrade::CursedRing]);
    assert!(!none.big_hearts && !none.healthy);
    assert!(none.upgrades().is_empty());
    let both = Player::new([0; 10], vec![Upgrade::HeartBracelet, Upgrade::CursedRing, Upgrade::GoldenAegis]);
    assert!(both.big_hearts && both.healthy);
    assert_eq!(both.upgrades(), vec![Upgrade::GoldenAegis, Upgrade::HeartBracelet]);
    let one = Player::new([0; 10], vec![Upgrade::HeartBracelet]);
    assert_eq!(one.upgrades(), vec![Upgrade::HeartBracelet]);
}

#[test]
fn small_hearts() {
    assert_eq!(row(8, 8, false), vec![FULL, FULL, FULL, FULL, BLANK, BLANK, BLANK, BLANK, BLANK, BLANK]);
    assert_eq!(row(8, 7, false)[..4], [FULL, FULL, FULL, HALF]);
    assert_eq!(row(8, 3, false)[..4], [FULL, HALF, EMPTY, EMPTY]);
    assert_eq!(row(8, 0, false)[..4], [EMPTY, EMPTY, EMPTY, EMPTY]);
    assert_eq!(row(8, -1, false)[..4], [EMPTY, EMPTY, EMPTY, EMPTY]);
    assert_eq!(row(7, 7, false)[..5], [FULL, FULL, FULL, HALF_SPENT, BLANK]);
    assert_eq!(row(7, 6, false)[..5], [FULL, FULL, FULL, HALF_EMPTY, BLANK]);
    assert_eq!(row(7, 5, false)[..5], [FULL, FULL, HALF, HALF_EMPTY, BLANK]);
    assert_eq!(row(1, 1, false)[..2], [HALF_SPENT, BLANK]);
    assert_eq!(row(0, 0, false), vec![BLANK; 10]);
    assert_eq!(row(-5, 3, false), vec![BLANK; 10]);
    assert_eq!(row(100, 100, false), vec![FULL; 10]);
}

#[test]
fn big_hearts() {
    assert_eq!(row(16, 16, true)[..5], [FULL, FULL, FULL, FULL, BLANK]);
    assert_eq!(row(16, 15, true)[..4], [FULL, FULL, FULL, THREE_QUARTER]);
    assert_eq!(row(16, 14, true)[..4], [FULL, FULL, FULL, HALF]);
    assert_eq!(row(16, 13, true)[..4], [FULL, FULL, FULL, QUARTER]);
    assert_eq!(row(16, 12, true)[..4], [FULL, FULL, FULL, EMPTY]);
    assert_eq!(row(14, 14, true)[..5], [FULL, FULL, FULL, HALF_SPENT, BLANK]);
    assert_eq!(row(14, 13, true)[..4], [FULL, FULL, FULL, QUARTER_HALF_SPENT]);
    assert_eq!(row(14, 12, true)[..4], [FULL, FULL, FULL, HALF_EMPTY]);
    assert_eq!(row(14, 8, true)[..4], [FULL, FULL, EMPTY, HALF_EMPTY]);
    assert_eq!(row(14, 6, true)[..4], [FULL, HALF, EMPTY, HALF_EMPTY]);
    assert_eq!(row(i32::MAX, i32::MAX, true), vec![FULL; 10]);
    assert_eq!(row(i32::MIN, i32::MIN, true), vec![BLANK; 10]);
}

#[test]
fn hearts_are_drawn_on_the_icons_that_have_a_sprite() {
    let mut world = World::new();
    let icons: Vec<usize> = (0..10).map(|_| world.spawn_at(0, 0)).collect();
    for icon in &icons[..6] {
        world.with_sprite(*icon, FULL);
    }
    let mut hearts = [0usize; 10];
    hearts.copy_from_slice(&icons);
    let state = PlayerState { health: 5, max_health: 8, levels: 0, upgrades: Vec::new() };
    let player = spawn_player(&mut world, &state, hearts);
    PlayerHeartSystem.run(&mut world);
    let shown: Vec<Option<usize>> = icons.iter().map(|icon| world.sprites[*icon]).collect();
    assert_eq!(
        shown,
        vec![Some(FULL), Some(FULL), Some(HALF), Some(EMPTY), Some(BLANK), Some(BLANK), None, None, None, None]
    );
    assert_eq!(world.sprites[player], Some(1));
    assert_eq!(get_health(&world), (8, 5, Vec::new()));
    assert_eq!(get_health(&World::new()), (0, 0, Vec::new()));
}

#[test]
fn acceleration_along_one_axis() {
    let (accel, top, dt) = (400000, 100000, 16);
    assert_eq!(accelerate(1, 0, accel, top, dt), 19200);
    assert_eq!(accelerate(1, 50000, accel, top, dt), 56400);
    assert_eq!(accelerate(-1, 0, accel, top, dt), -6400);
    assert_eq!(accelerate(-1, 50000, accel, top, dt), 30800);
    assert_eq!(accelerate(1, -50000, accel, top, dt), -30800);
    assert_eq!(accelerate(0, 50000, accel, top, dt), 30800);
    assert_eq!(accelerate(0, -50000, accel, top, dt), -30800);
    assert_eq!(accelerate(0, 10000, accel, top, dt), 0);
    assert_eq!(accelerate(0, -10000, accel, top, dt), 0);
    assert_eq!(accelerate(0, 19200, accel, top, dt), 0);
    assert_eq!(accelerate(0, 19201, accel, top, dt), 1);
    assert_eq!(accelerate(0, 0, accel, top, dt), 0);
    assert_eq!(accelerate(1, 99000, accel, top, dt), 100000);
    assert_eq!(accelerate(-1, -99000, accel, top, dt), -100000);
    assert_eq!(accelerate(7, 0, accel, top, 0), 0);
    assert_eq!(accelerate(1, i32::MAX, i32::MAX, i32::MAX, u32::MAX), i32::MAX);
    assert_eq!(accelerate(-1, i32::MIN, i32::MAX, i32::MAX, u32::MAX), -i32::MAX);
    assert_eq!(accelerate(-1, 0, 1000, i32::MIN, 1), i32::MAX);
}

#[test]
fn the_player_walks_where_the_input_points() {
    let mut world = World::new();
    let player = player_in(&mut world);
    let mut rule = PlayerMovementSystem::new();
    rule.run(&mut world, Some(-1), Some(0), 16);
    assert_eq!(world.velocities[player], Some(Velocity { vx: -6400, vy: 0 }));
    assert_eq!(world.rotations[player], Some(Rotation::West));
    assert_eq!(state_of(&world, player), AnimationState::Walking);
    rule.run(&mut world, Some(0), Some(5), 16);
    assert_eq!(world.velocities[player], Some(Velocity { vx: 0, vy: 19200 }));
    assert_eq!(world.rotations[player], Some(Rotation::North));
    assert_eq!(state_of(&world, player), AnimationState::Walking);
    // without input the player brakes and goes back to standing
    rule.run(&mut world, Some(0), Some(0), 16);
    assert_eq!(world.velocities[player], Some(Velocity { vx: 0, vy: 0 }));
    assert_eq!(world.rotations[player], Some(Rotation::North));
    assert_eq!(state_of(&world, player), AnimationState::Idle);
    assert!(world.animations[player].as_ref().unwrap().active());
}

#[test]
fn the_player_does_not_steer_while_busy_or_without_input() {
    let mut world = World::new();
    let player = player_in(&mut world);
    let mut rule = PlayerMovementSystem::new();
    rule.run(&mut world, None, Some(1), 16);
    rule.run(&mut world, Some(1), None, 16);
    assert_eq!(world.velocities[player], Some(Velocity { vx: 0, vy: 0 }));
    assert!(!world.animations[player].as_ref().unwrap().active());
    let mut attack = PlayerAttackSystem::new();
    attack.run(&mut world, Some(true));
    assert_eq!(state_of(&world, player), AnimationState::Attacking);
    rule.run(&mut world, Some(1), Some(1), 16);
    assert_eq!(world.velocities[player], Some(Velocity { vx: 0, vy: 0 }));
    rule.steer(&mut world, player, (1, 1), 16);
    rule.steer(&mut world, 77, (1, 1), 16);
    assert_eq!(world.velocities[player], Some(Velocity { vx: 0, vy: 0 }));
    assert_eq!(world.rotations[player], Some(Rotation::East));
}

#[test]
fn facing_follows_the_larger_speed() {
    let cases = [
        (Velocity { vx: 50000, vy: 0 }, (1, 1), Rotation::East),
        (Velocity { vx: -50000, vy: 0 }, (-1, 1), Rotation::West),
        (Velocity { vx: 0, vy: -50000 }, (1, -1), Rotation::South),
        (Velocity { vx: 0, vy: 0 }, (1, 1), Rotation::North),
        (Velocity { vx: 0, vy: 0 }, (-1, -1), Rotation::South),
    ];
    for (velocity, tilt, facing) in cases {
        let mut world = World::new();
        let player = player_in(&mut world);
        world.velocities[player] = Some(velocity);
        PlayerMovementSystem::new().steer(&mut world, player, tilt, 16);
        assert_eq!(world.rotations[player], Some(facing));
    }
}

#[test]
fn the_attack_plays_through_its_frames() {
    let mut world = World::new();
    let player = player_in(&mut world);
    world.rotations[player] = Some(Rotation::South);
    let mut attack = PlayerAttackSystem::new();
    attack.run(&mut world, None);
    attack.run(&mut world, Some(false));
    assert_eq!(state_of(&world, player), AnimationState::Idle);
    attack.run(&mut world, Some(true));
    assert_eq!(state_of(&world, player), AnimationState::Attacking);
    RotationSystem.run(&mut world);
    AnimationSystem.run(&mut world, 50);
    assert_eq!(world.sprites[player], Some(2));
    assert_eq!(world.hit_states[player].unwrap().get(PLAYER_ATTACK_BOX), None);
    // holding the action does not begin the attack anew
    attack.run(&mut world, Some(true));
    AnimationSystem.run(&mut world, 100);
    assert_eq!(world.sprites[player], Some(3));
    assert_eq!(
        world.hit_states[player].unwrap().get(PLAYER_ATTACK_BOX),
        Some(Hitbox { width: 16000, height: 16000, offset: (0, -8000) })
    );
    AnimationSystem.run(&mut world, 200);
    assert_eq!(world.sprites[player], Some(4));
    assert_eq!(
        world.hit_states[player].unwrap().get(PLAYER_ATTACK_BOX),
        Some(Hitbox { width: 8000, height: 8000, offset: (0, -10000) })
    );
    AnimationSystem.run(&mut world, 200);
    assert_eq!(state_of(&world, player), AnimationState::Idle);
    assert_eq!(world.hit_states[player].unwrap().get(PLAYER_ATTACK_BOX), None);
    assert_eq!(world.sprites[player], Some(4));
}

#[test]
fn a_player_who_does_not_attack_carries_no_attack_box() {
    let mut world = World::new();
    let player = player_in(&mut world);
    world.hit_states[player].as_mut().unwrap().set(PLAYER_ATTACK_BOX, 5, 5, (0, 0));
    world.hit_states[player].as_mut().unwrap().set(ENEMY_ATTACK_BOX, 5, 5, (0, 0));
    let bystander = world.spawn_at(0, 0);
    let mut state = hitbox_combat::hitstate::HitState::new();
    state.set(PLAYER_ATTACK_BOX, 5, 5, (0, 0));
    insert(&mut world.hit_states, bystander, state);
    insert(&mut world.animations, bystander, AnimationController::new());
    PlayerAttackSystem::new().run(&mut world, None);
    assert_eq!(world.hit_states[player].unwrap().get(PLAYER_ATTACK_BOX), None);
    assert!(world.hit_states[player].unwrap().get(ENEMY_ATTACK_BOX).is_some());
    assert!(world.hit_states[bystander].unwrap().get(PLAYER_ATTACK_BOX).is_some());
}

#[test]
fn animation_frames_write_velocity_through_the_facing() {
    let mut world = World::new();
    let goblin = hitbox_combat::enemies::spawn_goblin(&mut world, 0, 0);
    world.rotations[goblin] = Some(Rotation::North);
    let attack = world.melee_enemies[goblin].as_ref().unwrap().attack_animation.clone();
    world.animations[goblin].as_mut().unwrap().start(attack, AnimationState::Attacking);
    world.hit_states[goblin].as_mut().unwrap().set(ENEMY_ATTACK_BOX, 1, 1, (0, 0));
    AnimationSystem.run(&mut world, 130);
    assert_eq!(world.velocities[goblin], Some(Velocity { vx: 0, vy: 50000 }));
    assert_eq!(world.sprites[goblin], Some(11));
    // the table still reads East: the facing reaches it with the rotation rule
    assert_eq!(
        world.hit_states[goblin].unwrap().get(ENEMY_ATTACK_BOX),
        Some(Hitbox { width: 8000, height: 8000, offset: (8000, 2000) })
    );
    RotationSystem.run(&mut world);
    assert_eq!(
        world.hit_states[goblin].unwrap().get(ENEMY_ATTACK_BOX),
        Some(Hitbox { width: 8000, height: 8000, offset: (-2000, 8000) })
    );
    AnimationSystem.run(&mut world, 130);
    assert_eq!(world.sprites[goblin], Some(13));
    assert_eq!(world.hit_states[goblin].unwrap().get(ENEMY_ATTACK_BOX), None);
    // an entity without a sprite is not animated
    world.sprites[goblin] = None;
    AnimationSystem.run(&mut world, 5000);
    assert_eq!(state_of(&world, goblin), AnimationState::Attacking);
}

#[test]
fn anchors_place_sprites() {
    let screen = (0, 0, 200000, 150000);
    let size = (16000, 8000);
    assert_eq!(Anchor::TopLeft.place(size, (0, 0), screen), (8000, 146000));
    assert_eq!(Anchor::TopLeft.place(size, (16000, 0), screen), (24000, 146000));
    assert_eq!(Anchor::Top.place(size, (1000, 2000), screen), (101000, 144000));
    assert_eq!(Anchor::TopRight.place(size, (12000, 26000), screen), (180000, 120000));
    assert_eq!(Anchor::Left.place(size, (1, 2), screen), (8001, 75002));
    assert_eq!(Anchor::Middle.place(size, (-24000, 8000), screen), (76000, 83000));
    assert_eq!(Anchor::Right.place(size, (0, 0), screen), (192000, 75000));
    assert_eq!(Anchor::BottomLeft.place(size, (0, 0), screen), (8000, 4000));
    assert_eq!(Anchor::Bottom.place(size, (0, -32000), screen), (100000, -28000));
    assert_eq!(Anchor::BottomRight.place(size, (5, 5), screen), (191995, 4005));
    assert_eq!(Anchor::Unpinned.place(size, (-7, 9), screen), (-7, 9));
    assert_eq!(pin(Side::Centre, 0, 0, 0, -5), -2);
    assert_eq!(pin(Side::Low, u32::MAX, i32::MAX, i32::MAX, 0), i32::MAX);
    assert_eq!(pin(Side::High, u32::MAX, i32::MAX, i32::MIN, i32::MIN), i32::MIN);
}

#[test]
fn the_camera_follows_the_player() {
    assert_eq!(track(0, 50000, 16), 1600);
    assert_eq!(track(0, -50000, 16), -1600);
    assert_eq!(track(0, 1000, 16), 1000);
    assert_eq!(track(0, -1600, 16), -1600);
    assert_eq!(track(0, 0, 16), 0);
    assert_eq!(track(0, 100000, 16), 1600);
    assert_eq!(track(0, 100001, 16), 1);
    assert_eq!(track(5, -250000, 16), -150000);
    assert_eq!(track(i32::MIN, i64::MAX, u32::MAX), i32::MAX);
    assert_eq!(CameraFollow::follow((0, 0), (100000, 75000), 16), (0, 0));
    assert_eq!(CameraFollow::follow((0, 0), (150000, 0), 16), (1600, -1600));
    assert_eq!(CameraFollow::follow((0, 0), (400000, 75000), 16), (200000, 0));
}

#[test]
fn the_prompt_to_continue() {
    assert_eq!(rise(5, 2000), 0);
    assert_eq!(rise(0, 2000), 0);
    assert_eq!(rise(-500, 2000), 4000);
    assert_eq!(rise(-1999, 2000), 15992);
    assert_eq!(rise(-2000, 2000), 16000);
    assert_eq!(rise(-9000, 2000), 16000);
    assert_eq!(rise(-1, 0), 16000);
    assert_eq!(rise(i64::MIN, i64::MAX), 16000);
    assert_eq!(rise(i64::MIN, 1), 16000);
    let mut world = World::new();
    let (timer, icon, pinned) = init_continue(&mut world, 3000, 2000);
    assert_eq!(timer, ContinueTimer { time_left: 3000, fade_time: 2000 });
    assert_eq!(pinned, UiSprite { anchor: Anchor::Bottom, offset: (0, -32000) });
    assert_eq!(world.sprites[icon], Some(46));
    assert_eq!(world.transforms[icon], Some((0, 0)));
    let (other, other_pin) = draw_sprite(&mut world, 15, Anchor::Middle, (-24000, 8000));
    assert_eq!(other, icon + 1);
    assert_eq!(world.sprites[other], Some(15));
    let mut to_continue = Some(timer);
    let mut pins = vec![Some(pinned), Some(other_pin), None];
    let icons = vec![Some(ContinueIcon), None, Some(ContinueIcon)];
    assert!(!can_continue(&to_continue));
    ContinueSystem.run(&mut to_continue, &mut pins, &icons, 3000);
    assert_eq!(to_continue.unwrap().time_left, 0);
    assert!(!can_continue(&to_continue));
    assert_eq!(pins[0], Some(pinned));
    ContinueSystem.run(&mut to_continue, &mut pins, &icons, 500);
    assert!(can_continue(&to_continue));
    assert_eq!(pins[0], Some(UiSprite { anchor: Anchor::Bottom, offset: (0, -12000) }));
    assert_eq!(pins[1], Some(other_pin));
    assert_eq!(pins[2], None);
    ContinueSystem.run(&mut to_continue, &mut pins, &icons, 5000);
    assert_eq!(pins[0], Some(UiSprite { anchor: Anchor::Bottom, offset: (0, 0) }));
    let mut nothing = None;
    ContinueSystem.run(&mut nothing, &mut pins, &icons, 5000);
    assert_eq!(nothing, None);
}
