//! The card registry: the fixed catalog of card definitions and the
//! deck-construction rule.
//!
//! A session deck is the base catalog replicated [`DECK_MULTIPLIER`] times;
//! every player's starting deck is built from one such list.

use crate::card::{CardGameplayInfo, CardInfo};
use vstd::prelude::*;

verus! {

/// Art reference of the first base card, for the embedding program's asset
/// table.
pub const ART_PLACEHOLDER: u32 = 0;

/// Art reference of the second base card.
pub const ART_GHOST: u32 = 1;

/// How many times the base catalog is replicated into a starting deck.
pub const DECK_MULTIPLIER: usize = 10;

/// The base catalog: every card definition the registry knows, in catalog
/// order.
pub open spec fn base_definitions() -> Seq<CardInfo> {
    seq![
        CardInfo {
            gameplay: CardGameplayInfo { cast_crowd: 0, minimum_crowd: 0, hp: 2, power: 2 },
            name: "Test Unit",
            art: ART_PLACEHOLDER,
            flavor_text: Some("Beep Boop, debugging is fun"),
        },
        CardInfo {
            gameplay: CardGameplayInfo { cast_crowd: 1, minimum_crowd: 0, hp: 1, power: 1 },
            name: "Ghost",
            art: ART_GHOST,
            flavor_text: Some("I am very scary :P"),
        },
    ]
}

/// The deck list a fresh session hands to each player: the base catalog,
/// replicated, with definition `i % 2` of the catalog at position `i`.
#[derive(Clone, Debug)]
pub struct GlobalCards(pub Vec<CardInfo>);

impl GlobalCards {
    /// Build the replicated deck list from the base catalog.
    pub fn new() -> (r: GlobalCards)
        ensures
            r.0@.len() == 2 * DECK_MULTIPLIER,
            forall|i: int| 0 <= i < r.0@.len() ==> r.0@[i] == base_definitions()[i % 2],
    {
        let first = CardInfo {
            gameplay: CardGameplayInfo { cast_crowd: 0, minimum_crowd: 0, hp: 2, power: 2 },
            name: "Test Unit",
            art: ART_PLACEHOLDER,
            flavor_text: Some("Beep Boop, debugging is fun"),
        };
        let second = CardInfo {
            gameplay: CardGameplayInfo { cast_crowd: 1, minimum_crowd: 0, hp: 1, power: 1 },
            name: "Ghost",
            art: ART_GHOST,
            flavor_text: Some("I am very scary :P"),
        };
        assert(first == base_definitions()[0]);
        assert(second == base_definitions()[1]);
        let mut deck: Vec<CardInfo> = Vec::new();
        let mut copies: usize = 0;
        while copies < DECK_MULTIPLIER
            invariant
                copies <= DECK_MULTIPLIER,
                deck@.len() == 2 * copies,
                first == base_definitions()[0],
                second == base_definitions()[1],
                forall|i: int| 0 <= i < deck@.len() ==> deck@[i] == base_definitions()[i % 2],
            decreases DECK_MULTIPLIER - copies,
        {
            deck.push(first);
            deck.push(second);
            copies = copies + 1;
        }
        GlobalCards(deck)
    }
}

/// Copy a deck list element by element.
pub fn copied_card_list(v: &Vec<CardInfo>) -> (r: Vec<CardInfo>)
    ensures
        r@ == v@,
{
    let mut r: Vec<CardInfo> = Vec::new();
    let mut i: usize = 0;
    while i < v.len()
        invariant
            i <= v@.len(),
            r@ == v@.subrange(0, i as int),
        decreases v@.len() - i,
    {
        r.push(v[i]);
        i = i + 1;
    }
    assert(r@ == v@.subrange(0, v@.len() as int));
    assert(v@.subrange(0, v@.len() as int) == v@);
    r
}

} // verus!
