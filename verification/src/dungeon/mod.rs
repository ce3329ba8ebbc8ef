//! Dungeon module: tile kinds and procedural level generation.

pub mod tiles;
pub mod bsp;
pub mod level;

pub use tiles::{AltarKind, RoomModifier, Room, SealKind, SpecialRoomKind, Tile};
pub use level::DungeonLevel;
