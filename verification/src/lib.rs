//! Core logic of a tile-based roguelike: the item and equipment lists owned
//! by characters and map tiles, and the resumable script engine that drives
//! NPC conversations, shop transactions and quest side effects.
//!
//! Rendering, input handling and asset loading are external collaborators and
//! are not part of this crate.

pub mod basic;
pub mod defs;
pub mod engine;
pub mod equip;
pub mod filter;
pub mod gamedata;
pub mod item;
pub mod script;
pub mod skill;
pub mod strutil;
pub mod talk;
pub mod talkscript;
