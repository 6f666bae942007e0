//! Identifiers and positions used across the game data model.

use vstd::prelude::*;

verus! {

/// A position on a map.
#[derive(Clone, Copy, PartialEq, Eq, Structural, Debug)]
pub struct Vec2d(pub i32, pub i32);

/// A map: the region it belongs to and its floor within that region.
#[derive(Clone, Copy, PartialEq, Eq, Structural, Debug)]
pub struct MapId {
    pub rid: u32,
    pub floor: u32,
}

/// A character: the player, or an NPC by number.
#[derive(Clone, Copy, PartialEq, Eq, Structural, Debug)]
pub enum CharaId {
    Player,
    Npc(u32),
}

/// Which item list a location points into.
#[derive(Clone, Copy, PartialEq, Eq, Structural, Debug)]
pub enum ItemListLocation {
    OnMap { mid: MapId, pos: Vec2d },
    Chara { cid: CharaId },
    Equip { cid: CharaId },
    Shop { cid: CharaId },
}

/// An item list and an entry index within it.
pub type ItemLocation = (ItemListLocation, u32);

} // verus!
