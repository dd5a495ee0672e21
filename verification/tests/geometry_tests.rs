use hitbox_combat::geometry::{Hitbox, Physical, Rotation};
use hitbox_combat::hitstate::{
    HitState, ENEMY_ATTACK_BOX, ENEMY_HITTABLE_BOX, HITSTATE_SIZE, PLAYER_ATTACK_BOX,
};
use hitbox_combat::units::{divide, divide_small, magnitude, negate, product, saturate, saturate64};

#[test]
fn overlapping_boxes_report_separation_and_depth() {
    let a = Hitbox::new_at_rect(10, 6, (0, 0));
    let b = Hitbox::new_at_rect(4, 2, (1, 0));
    // dx = (3 + 1) - 0 = 4, dy = 1; reach = (7, 4)
    assert_eq!(a.depth(&b, (0, 0), (3, 1)), Some((4, 1, 3, 3)));
}

#[test]
fn boxes_that_only_touch_do_not_overlap() {
    let a = Hitbox::new_at_rect(10, 10, (0, 0));
    let b = Hitbox::new_at_rect(10, 10, (0, 0));
    assert_eq!(a.depth(&b, (0, 0), (10, 0)), None);
    assert_eq!(a.depth(&b, (0, 0), (0, -10)), None);
    assert_eq!(a.depth(&b, (0, 0), (9, 9)), Some((9, 9, 1, 1)));
}

#[test]
fn overlap_needs_both_axes() {
    let a = Hitbox::new(5);
    let b = Hitbox::new(5);
    assert_eq!(a.depth(&b, (0, 0), (3, 40)), None);
    assert_eq!(a.depth(&b, (0, 0), (40, 3)), None);
}

#[test]
fn overlap_is_symmetric() {
    let a = Hitbox::new_at_rect(12, 8, (2, -1));
    let b = Hitbox::new_at_rect(6, 20, (-3, 4));
    let pa = (100, 50);
    let pb = (104, 47);
    let ab = a.depth(&b, pa, pb).unwrap();
    let ba = b.depth(&a, pb, pa).unwrap();
    assert_eq!(ab, (-1, 2, 8, 12));
    assert_eq!(ba, (1, -2, 8, 12));
    let far = (1000, 1000);
    assert!(a.depth(&b, pa, far).is_none());
    assert!(b.depth(&a, far, pa).is_none());
}

#[test]
fn depth_does_not_overflow_at_the_ends_of_the_range() {
    let a = Hitbox::new_at_rect(u32::MAX, u32::MAX, (i32::MIN, i32::MIN));
    let b = Hitbox::new_at_rect(u32::MAX, u32::MAX, (i32::MAX, i32::MAX));
    let r = a.depth(&b, (i32::MIN, i32::MIN), (i32::MAX, i32::MAX));
    // separation 2 * (2^32 - 1) is at least the reach 2^32 - 1
    assert_eq!(r, None);
    let c = Hitbox::new_at_rect(u32::MAX, u32::MAX, (0, 0));
    assert_eq!(
        c.depth(&c, (i32::MIN, 0), (i32::MAX, 0)),
        None
    );
    assert_eq!(
        c.depth(&c, (0, 0), (i32::MAX, 0)),
        Some((2147483647, 0, 2147483648, 4294967295))
    );
}

#[test]
fn odd_extents_round_the_reach_down() {
    let a = Hitbox::new_at_rect(3, 3, (0, 0));
    let b = Hitbox::new_at_rect(2, 2, (0, 0));
    // reach = 5 / 2 = 2
    assert_eq!(a.depth(&b, (0, 0), (1, 1)), Some((1, 1, 1, 1)));
    assert_eq!(a.depth(&b, (0, 0), (2, 0)), None);
}

#[test]
fn hitbox_constructors() {
    assert_eq!(Hitbox::new(4), Hitbox { width: 8, height: 8, offset: (0, 0) });
    assert_eq!(Hitbox::new(0), Hitbox { width: 0, height: 0, offset: (0, 0) });
    assert_eq!(Hitbox::new(u32::MAX / 2).width, u32::MAX - 1);
    assert_eq!(Hitbox::new(u32::MAX / 2 + 1).width, u32::MAX);
    assert_eq!(Hitbox::new_at(u32::MAX, (1, 2)), Hitbox { width: u32::MAX, height: u32::MAX, offset: (1, 2) });
    assert_eq!(Hitbox::new_at(4, (8, 2)), Hitbox { width: 8, height: 8, offset: (8, 2) });
    assert_eq!(
        Hitbox::new_at_rect(20, 10, (16, 0)),
        Hitbox { width: 20, height: 10, offset: (16, 0) }
    );
}

#[test]
fn physical_constructors_and_depth() {
    let body = Physical::new(6);
    assert_eq!(body.hitbox, Hitbox { width: 12, height: 12, offset: (0, 0) });
    assert!(!body.is_static);
    let rock = Physical::new_static(3);
    assert_eq!(rock.hitbox, Hitbox { width: 6, height: 6, offset: (0, 0) });
    assert!(rock.is_static);
    let wall = Physical::new_wall(512, 16);
    assert_eq!(wall.hitbox, Hitbox { width: 512, height: 16, offset: (0, 0) });
    assert!(wall.is_static);
    assert_eq!(body.depth(&rock, (0, 0), (5, 1)), Some((5, 1, 4, 8)));
    assert_eq!(body.depth(&rock, (0, 0), (9, 0)), None);
}

#[test]
fn rotation_turns_vectors() {
    assert_eq!(Rotation::East.rotate((3, 5)), (3, 5));
    assert_eq!(Rotation::South.rotate((3, 5)), (5, -3));
    assert_eq!(Rotation::West.rotate((3, 5)), (-3, -5));
    assert_eq!(Rotation::North.rotate((3, 5)), (-5, 3));
}

#[test]
fn rotation_saturates_the_one_value_without_negative() {
    assert_eq!(Rotation::West.rotate((i32::MIN, 1)), (i32::MAX, -1));
    assert_eq!(Rotation::South.rotate((i32::MIN, 7)), (7, i32::MAX));
    assert_eq!(Rotation::North.rotate((7, i32::MIN)), (i32::MAX, 7));
}

#[test]
fn rotation_quarter_turns() {
    assert_eq!(Rotation::East.quarter_turns(), 0);
    assert_eq!(Rotation::North.quarter_turns(), 1);
    assert_eq!(Rotation::West.quarter_turns(), 2);
    assert_eq!(Rotation::South.quarter_turns(), 3);
}

#[test]
fn hitbox_rotate_swaps_extents_on_vertical_facings() {
    let b = Hitbox::new_at_rect(20, 10, (16, 2));
    assert_eq!(b.rotate(Rotation::East), Hitbox { width: 20, height: 10, offset: (16, 2) });
    assert_eq!(b.rotate(Rotation::West), Hitbox { width: 20, height: 10, offset: (-16, -2) });
    assert_eq!(b.rotate(Rotation::North), Hitbox { width: 10, height: 20, offset: (-2, 16) });
    assert_eq!(b.rotate(Rotation::South), Hitbox { width: 10, height: 20, offset: (2, -16) });
}

#[test]
fn outline_lists_the_four_corners() {
    let b = Hitbox::new_at_rect(10, 4, (3, 1));
    assert_eq!(b.outline((100, 200)), [(98, 199), (108, 199), (98, 203), (108, 203)]);
}

#[test]
fn hitstate_starts_empty() {
    let state = HitState::new();
    for channel in 0..HITSTATE_SIZE {
        assert_eq!(state.get(channel), None);
    }
    assert_eq!(state.get_all(), [None; HITSTATE_SIZE]);
}

#[test]
fn hitstate_set_get_clear() {
    let mut state = HitState::new();
    state.set(ENEMY_ATTACK_BOX, 8, 6, (4, 1));
    state.set(PLAYER_ATTACK_BOX, 2, 2, (0, 0));
    assert_eq!(state.get(ENEMY_ATTACK_BOX), Some(Hitbox { width: 8, height: 6, offset: (4, 1) }));
    assert_eq!(state.get(PLAYER_ATTACK_BOX), Some(Hitbox { width: 2, height: 2, offset: (0, 0) }));
    assert_eq!(state.get(ENEMY_HITTABLE_BOX), None);
    state.set(ENEMY_ATTACK_BOX, 1, 1, (0, 0));
    assert_eq!(state.get(ENEMY_ATTACK_BOX), Some(Hitbox { width: 1, height: 1, offset: (0, 0) }));
    state.clear(ENEMY_ATTACK_BOX);
    assert_eq!(state.get(ENEMY_ATTACK_BOX), None);
    assert_eq!(state.get(PLAYER_ATTACK_BOX), Some(Hitbox { width: 2, height: 2, offset: (0, 0) }));
}

#[test]
fn hitstate_rotation_applies_at_read_time_only() {
    let mut state = HitState::new();
    state.set(ENEMY_ATTACK_BOX, 20, 10, (16, 0));
    state.rotate(Rotation::North);
    assert_eq!(
        state.get(ENEMY_ATTACK_BOX),
        Some(Hitbox { width: 10, height: 20, offset: (0, 16) })
    );
    state.rotate(Rotation::West);
    assert_eq!(
        state.get(ENEMY_ATTACK_BOX),
        Some(Hitbox { width: 20, height: 10, offset: (-16, 0) })
    );
    state.rotate(Rotation::North);
    state.rotate(Rotation::North);
    assert_eq!(
        state.get(ENEMY_ATTACK_BOX),
        Some(Hitbox { width: 10, height: 20, offset: (0, 16) })
    );
    state.rotate(Rotation::East);
    assert_eq!(
        state.get(ENEMY_ATTACK_BOX),
        Some(Hitbox { width: 20, height: 10, offset: (16, 0) })
    );
}

#[test]
fn hitstate_get_all_matches_get() {
    let mut state = HitState::new();
    state.set(0, 20, 10, (16, 0));
    state.set(15, 4, 6, (-1, 2));
    state.rotate(Rotation::South);
    let all = state.get_all();
    for channel in 0..HITSTATE_SIZE {
        assert_eq!(all[channel], state.get(channel));
    }
    assert_eq!(all[0], Some(Hitbox { width: 10, height: 20, offset: (0, -16) }));
    assert_eq!(all[15], Some(Hitbox { width: 6, height: 4, offset: (2, 1) }));
}

#[test]
fn hitstate_overlay_sets_only_the_named_channels() {
    let mut state = HitState::new();
    state.set(1, 2, 2, (0, 0));
    state.set(2, 3, 3, (0, 0));
    let mut boxes = [None; HITSTATE_SIZE];
    boxes[2] = Some(Hitbox { width: 9, height: 9, offset: (1, 1) });
    boxes[5] = Some(Hitbox { width: 7, height: 7, offset: (0, 0) });
    state.overlay(&boxes);
    assert_eq!(state.get(1), Some(Hitbox { width: 2, height: 2, offset: (0, 0) }));
    assert_eq!(state.get(2), Some(Hitbox { width: 9, height: 9, offset: (1, 1) }));
    assert_eq!(state.get(5), Some(Hitbox { width: 7, height: 7, offset: (0, 0) }));
    assert_eq!(state.get(0), None);
}

#[test]
fn unit_helpers() {
    assert_eq!(saturate(5), 5);
    assert_eq!(saturate(i64::MAX), i32::MAX);
    assert_eq!(saturate(i64::MIN), i32::MIN);
    assert_eq!(saturate64(i128::MAX), i64::MAX);
    assert_eq!(saturate64(-7), -7);
    assert_eq!(negate(4), -4);
    assert_eq!(negate(i32::MIN), i32::MAX);
    assert_eq!(magnitude(-9), 9);
    assert_eq!(magnitude(i32::MIN), 2147483648);
    assert_eq!(product(-3, 7), -21);
    assert_eq!(product(i32::MIN, i32::MIN), 4611686018427387904);
    assert_eq!(divide(7, 2), 3);
    assert_eq!(divide(-7, 2), -3);
    assert_eq!(divide(i128::MIN, 1), i128::MIN);
    assert_eq!(divide_small(7, 4), (1, 3));
    assert_eq!(divide_small(-7, 4), (-1, -3));
    assert_eq!(divide_small(i64::MIN, 1), (i64::MIN, 0));
}
