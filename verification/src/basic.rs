//! Basic game-wide parameters.

use vstd::prelude::*;

verus! {

/// Maximum number of items on one tile.
pub const MAX_ITEM_TILE: usize = 256;

/// Maximum number of equipment slots per slot kind.
pub const MAX_EQUIP_SLOT: usize = 16;

/// Needed exp value to level up a skill.
pub const SKILL_EXP_LVUP: u16 = 10000;

} // verus!
