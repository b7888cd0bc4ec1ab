//! Static per-player configuration handed to the engine at session start.

use crate::card::CardInfo;
use vstd::prelude::*;

verus! {

/// Configuration of the human player: hit points and the deck list the
/// session's deck is built from.
#[derive(Clone, Debug)]
pub struct PlayerInfo {
    pub max_hp: u8,
    pub current_hp: u8,
    pub deck: Vec<CardInfo>,
}

/// Configuration of the non-human opponent.
#[derive(Clone, Debug)]
pub struct OpponentInfo {
    pub hp: u8,
    pub deck: Vec<CardInfo>,
}

} // verus!
