//! Gameplay rules of a small top-down survival game, in fixed-point integer
//! arithmetic, with machine-checked contracts.
//!
//! The player walks a field, enemies come in waves and walk toward the
//! player, three kinds of weapons fire on their own, dead enemies may leave
//! orbs of experience, and each new level brings a choice of two upgrades.
//!
//! The crate holds the rules only. It does not draw, read input or detect
//! collisions: whoever runs the game hands each rule the time that has
//! passed, the keys held down and the overlaps found, and shows the
//! [`model::World`] that the rules leave behind.
//!
//! * [`fixed`] and [`timer`]: the arithmetic, the geometry and the timers;
//! * [`model`]: the entities and the world;
//! * [`wave`], [`enemy`], [`attack`], [`exp`], [`player`], [`upgrade`],
//!   [`ui`], [`animation`], [`camera`]: the rules, each with the exact
//!   change that it makes to the world;
//! * [`schedule`] and [`game`]: the phases of the game, and which rule
//!   runs when;
//! * [`random`]: the draws from the caller's random number generator;
//! * [`laws`]: what holds of the rules in every game.

pub mod animation;
pub mod attack;
pub mod camera;
pub mod enemy;
pub mod exp;
pub mod fixed;
pub mod game;
pub mod laws;
pub mod model;
pub mod player;
pub mod random;
pub mod schedule;
pub mod timer;
pub mod ui;
pub mod upgrade;
pub mod wave;
