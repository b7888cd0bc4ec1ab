//! Rule engine for a two-player, turn-based card game.
//!
//! The engine owns all mutable game state: per-player card zones (deck, hand,
//! battlefield), a derived per-player "crowd" resource, a turn-phase state
//! machine with an active-player flag, and a minimal reactive opponent policy.
//! Rendering, input capture and asset handling are left to the embedding
//! program; the engine exchanges only plain values with it.

pub mod ai;
pub mod battlefield;
pub mod card;
pub mod combat;
pub mod data;
pub mod deck;
pub mod hand;
pub mod hovering;
pub mod zones;
