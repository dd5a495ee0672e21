//! Hitbox-driven combat and animation simulation for a small 2D action game.
//!
//! Every quantity is an exact integer. Lengths and coordinates are counted in
//! sub-units ([`units::UNIT`] of them make one world unit), time in ticks
//! ([`units::TICKS_PER_SECOND`] of them make one second) and speeds in
//! sub-units per second. Entities are plain indices; the components of an
//! entity live in tables indexed by it (see [`storage`]).
//!
//! The modules, leaves first:
//!
//! - [`units`], [`utils`]: fixed-point arithmetic, vector length, random
//!   draws and the stock animations;
//! - [`geometry`], [`hitstate`]: boxes, their overlap, and the table of hit
//!   channels of an entity;
//! - [`animation`]: timed frames and the controller that plays them;
//! - [`storage`]: component tables and the [`storage::World`] that holds
//!   them;
//! - [`collision`]: the scan of two channels over all entities and the
//!   dispatch of a rule to every overlap;
//! - [`combat`], [`enemies`], [`drops`], [`world`], [`player`]: the rules of
//!   the game;
//! - [`physics`]: movement and the separation of bodies;
//! - [`pipeline`]: the order of the rules within a tick;
//! - [`sprites`], [`ui`]: sprite indices and what is pinned to the screen.

pub mod animation;
pub mod collision;
pub mod combat;
pub mod drops;
pub mod enemies;
pub mod geometry;
pub mod hitstate;
pub mod physics;
pub mod pipeline;
pub mod player;
pub mod sprites;
pub mod storage;
pub mod ui;
pub mod units;
pub mod utils;
pub mod world;
