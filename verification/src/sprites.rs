//! Indices of the sprites on the sprite sheet.

use vstd::prelude::*;

verus! {

pub const CHEST_SPRITE: usize = 0;

pub const PLAYER_IDLE: usize = 1;

pub const PLAYER_ATTACK_0: usize = 2;

pub const PLAYER_ATTACK_1: usize = 3;

pub const PLAYER_ATTACK_2: usize = 4;

pub const PLAYER_WALK_0: usize = 5;

pub const PLAYER_WALK_1: usize = 6;

pub const GOBLIN_IDLE: usize = 7;

pub const GOBLIN_WALK_0: usize = 8;

pub const GOBLIN_WALK_1: usize = 9;

pub const GOBLIN_ATTACK_0: usize = 10;

pub const GOBLIN_ATTACK_1: usize = 11;

pub const GOBLIN_ATTACK_3: usize = 12;

pub const GOBLIN_ATTACK_2: usize = 13;

pub const GOBLIN_ATTACK_4: usize = 14;

pub const GAME_OVER_G: usize = 15;

pub const GAME_OVER_A: usize = 16;

pub const GAME_OVER_M: usize = 17;

pub const GAME_OVER_E_0: usize = 18;

pub const GAME_OVER_O: usize = 19;

pub const GAME_OVER_V: usize = 20;

pub const GAME_OVER_E_1: usize = 21;

pub const GAME_OVER_R: usize = 22;

pub const FULL_HEART: usize = 23;

pub const HALF_HEART: usize = 24;

pub const EMPTY_HEART: usize = 25;

pub const HALF_SPENT_HEART: usize = 26;

pub const HALF_EMPTY_HEART: usize = 65;

pub const QUARTER_HEART: usize = 62;

pub const THREE_QUARTER_HEART: usize = 63;

pub const QUARTER_HALF_SPENT_HEART: usize = 64;

pub const BLANK: usize = 27;

pub const FLOOR_EMPTY: usize = 28;

pub const WALL: usize = 29;

pub const HEART_SPIN: [usize; 8] = [30, 31, 32, 33, 34, 35, 36, 37];

pub const SPEND_HEART_SPIN: [usize; 8] = [38, 39, 40, 41, 42, 43, 44, 45];

pub const CONTINUE: usize = 46;

pub const WASD_UI: usize = 47;

pub const SPACE_UI: usize = 48;

pub const E_UI: usize = 49;

pub const MOVEMENT: usize = 50;

pub const ATTACK: usize = 51;

pub const INTERACT: usize = 52;

pub const BUY_UPGRADES: usize = 53;

pub const PORTAL_CLOSED: usize = 54;

pub const PORTAL_SPIN: [usize; 7] = [55, 56, 57, 58, 59, 60, 61];

} // verus!
