//! Deterministic game logic for a station roguelike: dungeon generation,
//! enemies, turn order, crucible effects and tactical environment rules.

pub mod rng;
pub mod util;
pub mod player;
pub mod dungeon;
pub mod status;
pub mod text;
pub mod combat;
pub mod enemy;
pub mod crucible;
pub mod world;
pub mod srs;
pub mod rarity;
pub mod save;
