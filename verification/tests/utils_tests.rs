use hitbox_combat::storage::{fetch, get, has, insert, remove, World};
use hitbox_combat::utils::{
    isqrt, length, normalize, random_between, random_choice, random_sample, rng, spread,
};

#[test]
fn integer_square_roots() {
    for (n, root) in [(0u128, 0u64), (1, 1), (2, 1), (3, 1), (4, 2), (8, 2), (9, 3), (15, 3), (16, 4), (17, 4), (99, 9), (100, 10)] {
        assert_eq!(isqrt(n), root);
    }
    assert_eq!(isqrt(u128::MAX), u64::MAX);
    assert_eq!(isqrt((u64::MAX as u128) * (u64::MAX as u128)), u64::MAX);
    assert_eq!(isqrt((u64::MAX as u128) * (u64::MAX as u128) - 1), u64::MAX - 1);
    assert_eq!(isqrt(1u128 << 100), 1u64 << 50);
    assert_eq!(isqrt((1u128 << 100) - 1), (1u64 << 50) - 1);
}

#[test]
fn vector_lengths() {
    assert_eq!(length(3, 4), 5);
    assert_eq!(length(-3, 4), 5);
    assert_eq!(length(0, 0), 0);
    assert_eq!(length(0, -7), 7);
    assert_eq!(length(1, 1), 1);
    assert_eq!(length(12000, 0), 12000);
    assert_eq!(length(30000, 40000), 50000);
    assert_eq!(length(i64::MIN, 0), 9223372036854775808);
    assert_eq!(length(i64::MIN, i64::MIN), 13043817825332782212);
    assert_eq!(length(i64::MAX, i64::MAX), 13043817825332782210);
}

#[test]
fn normalized_vectors_are_one_unit_long() {
    assert_eq!(normalize(3, 4), (600, 800));
    assert_eq!(normalize(-3, 4), (-600, 800));
    assert_eq!(normalize(30000, -40000), (600, -800));
    assert_eq!(normalize(0, 0), (0, 0));
    assert_eq!(normalize(0, 9), (0, 1000));
    assert_eq!(normalize(-9, 0), (-1000, 0));
    assert_eq!(normalize(1, 1), (1000, 1000));
    assert_eq!(normalize(10, 10), (714, 714));
    assert_eq!(normalize(i64::MIN, i64::MIN), (-707, -707));
    assert_eq!(normalize(i64::MAX, 1), (1000, 0));
}

#[test]
fn a_sample_selects_a_value_between_the_bounds() {
    assert_eq!(spread(2000, 5000, 0), 2000);
    assert_eq!(spread(2000, 5000, 1 << 31), 3500);
    assert_eq!(spread(2000, 5000, u32::MAX), 4999);
    assert_eq!(spread(1000, 3000, 1 << 30), 1500);
    assert_eq!(spread(7, 7, 12345), 7);
    assert_eq!(spread(5000, 2000, 1 << 31), 3500);
    assert_eq!(spread(5000, 2000, u32::MAX), 2001);
    assert_eq!(spread(-10, 10, 1 << 31), 0);
    assert_eq!(spread(i64::MIN, i64::MAX, 0), i64::MIN);
    assert_eq!(spread(i64::MIN, i64::MAX, u32::MAX), i64::MAX - 4294967296);
    assert_eq!(spread(i64::MAX, i64::MIN, u32::MAX), i64::MIN + 4294967296);
}

#[test]
fn random_values_stay_between_the_bounds() {
    for _ in 0..200 {
        let r = random_between(2000, 5000);
        assert!(2000 <= r && r < 5000);
        assert_eq!(random_between(-3, -3), -3);
        let s = random_between(10, -10);
        assert!(-10 < s && s <= 10);
    }
}

#[test]
fn random_choice_picks_one_of_the_options() {
    let options = vec![(1, 0), (-1, 0), (0, 1), (0, -1)];
    let mut seen = [false; 4];
    for _ in 0..400 {
        let pick = random_choice(&options).unwrap();
        let at = options.iter().position(|o| *o == pick).unwrap();
        seen[at] = true;
    }
    assert_eq!(seen, [true; 4]);
    assert_eq!(random_choice(&Vec::new()), None);
    assert_eq!(random_choice(&vec![(5, 6)]), Some((5, 6)));
}

#[test]
fn random_samples_vary() {
    let first = random_sample();
    let mut generator = rng();
    let _ = &mut generator;
    assert!((0..64).any(|_| random_sample() != first));
}

#[test]
fn tables_grow_on_insert() {
    let mut table: Vec<Option<i32>> = Vec::new();
    assert!(!has(&table, 0));
    assert_eq!(fetch(&table, 3), None);
    insert(&mut table, 2, 7);
    assert_eq!(table, vec![None, None, Some(7)]);
    insert(&mut table, 0, 1);
    insert(&mut table, 2, 8);
    assert_eq!(table, vec![Some(1), None, Some(8)]);
    assert!(has(&table, 2));
    assert!(!has(&table, 1));
    assert!(!has(&table, 9));
    assert_eq!(get(&table, 0), Some(&1));
    assert_eq!(get(&table, 1), None);
    assert_eq!(get(&table, 9), None);
    assert_eq!(fetch(&table, 2), Some(8));
    remove(&mut table, 2);
    remove(&mut table, 9);
    assert_eq!(table, vec![Some(1), None, None]);
}

#[test]
fn world_entities() {
    let mut world = World::new();
    assert_eq!(world.next_entity(), 0);
    let a = world.spawn_at(5, 6);
    let b = world.spawn_at(7, 8);
    assert_eq!((a, b), (0, 1));
    world.with_physics(b, 4);
    world.with_sprite(b, 9);
    world.with_static(a, 3);
    assert_eq!(world.physicals[a].unwrap().is_static, true);
    assert_eq!(world.physicals[a].unwrap().hitbox.width, 6);
    assert_eq!(world.physicals[b].unwrap().is_static, false);
    assert_eq!(world.velocities[b].unwrap().vx, 0);
    assert_eq!(world.sprites[b], Some(9));
    insert(&mut world.sprites, 10, 1);
    assert_eq!(world.next_entity(), 11);
    world.delete(b);
    assert_eq!(world.transforms[b], None);
    assert_eq!(world.physicals[b], None);
    assert_eq!(world.sprites[b], None);
    assert_eq!(world.transforms[a], Some((5, 6)));
    world.delete(500);
    assert_eq!(world.next_entity(), 11);
    assert_eq!(world.state, None);
}
