//! Turn-based grid pursuit game engine.
//!
//! A single player token and a collection of enemy tokens occupy a bounded
//! two-dimensional grid. Each turn the player issues one command, every
//! enemy steps toward the player's new position, and the engine resolves
//! the resulting occupancy: an enemy reaching the player loses the game,
//! enemies that run into each other are eliminated, and eliminating every
//! enemy wins the game.

pub mod constants;
pub mod creatures;
pub mod robots;
pub mod vec2;

pub use constants::{CellStatus, GameStatus, Operations};
pub use creatures::{EnemyTrait, PlayerTrait, SimpleEnemy, SimplePlayer};
pub use robots::{Robots, RobotsError};
pub use vec2::Vec2;
