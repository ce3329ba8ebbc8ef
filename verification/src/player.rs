//! Player-side enumerations that the rules in this crate read.

use vstd::prelude::*;
use crate::status::StatusInstance;

verus! {

/// Deity that an altar is devoted to.
#[derive(Clone, Copy, PartialEq, Eq, Debug, Hash, Structural)]
pub enum Deity {
    Jade,
    Gale,
    Mirror,
    Iron,
    Gold,
}

/// Character class the player picked.
#[derive(Clone, Copy, PartialEq, Eq, Debug, Hash, Structural)]
pub enum PlayerClass {
    Operative,
    Solarian,
    Soldier,
    Mechanic,
    Envoy,
    Mystic,
    Technomancer,
}

/// Body form the player is currently in.
#[derive(Clone, Copy, PartialEq, Eq, Debug, Hash, Structural)]
pub enum PlayerForm {
    Human,
    Void,
    Cybernetic,
}

/// Crew member that can follow the player into battle.
#[derive(Clone, Copy, PartialEq, Eq, Debug, Hash, Structural)]
pub enum Companion {
    SecurityChief,
    Medic,
    ScienceOfficer,
    Quartermaster,
}

/// The player character as a battle reads it on entry and updates it on
/// exit: class and form set speed, `bonus_damage` is everything that adds
/// to the base attack of 2, and the risk-and-reward state (riposte charges,
/// overcharge, armor from hard answers) travels into the battle and back.
#[derive(Clone, Debug)]
pub struct Player {
    pub class: PlayerClass,
    pub form: PlayerForm,
    pub statuses: Vec<StatusInstance>,
    pub hp: i32,
    pub max_hp: i32,
    pub bonus_damage: i32,
    pub riposte_charges: u32,
    pub overcharge_active: bool,
    pub hard_answer_armor_bonus: i32,
}

/// Equipment slot an item occupies.
#[derive(Clone, Copy, PartialEq, Eq, Debug, Hash, Structural)]
pub enum EquipSlot {
    Weapon,
    Armor,
    Charm,
}

/// A piece of equipment as its crucible tree is keyed: its name and slot.
#[derive(Clone, Debug)]
pub struct Equipment {
    pub name: String,
    pub slot: EquipSlot,
}

} // verus!
