//! Verified core of an Invoker cooldown overlay driven by Dota 2 Game State
//! Integration payloads.

pub mod assets;
pub mod config;
pub mod cooldown;
pub mod cooldown_laws;
pub mod decimal;
pub mod gsi;
pub mod json;
pub mod spells;
pub mod text;
pub mod tile;
