//! How rare an item is.

use vstd::prelude::*;

verus! {

/// Rarity tier of a piece of equipment; rarer items grow larger crucible
/// trees.
#[derive(Clone, Copy, PartialEq, Eq, Debug, Structural)]
pub enum ItemRarity {
    Normal,
    Magic,
    Rare,
    Unique,
}

} // verus!
