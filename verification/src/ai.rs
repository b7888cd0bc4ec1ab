//! The opponent policy: scan the non-human hand left to right and play the
//! first legal card.
//!
//! The policy is a pure function of the hand order and the legality flags:
//! it performs no lookahead and no valuation, and equal states always yield
//! equal intents.

use crate::card::Card;
use crate::combat::{PlayerReference, Session};
use crate::hand::PlayCard;
use vstd::prelude::*;

verus! {

/// The first index at or after `k` of a hand card whose legality flag is on.
pub open spec fn first_legal_from(cards: Seq<Card>, hand: Seq<usize>, k: int) -> Option<int>
    decreases hand.len() - k,
    when 0 <= k <= hand.len()
{
    if k >= hand.len() {
        None
    } else if cards[hand[k] as int].allowed {
        Some(k)
    } else {
        first_legal_from(cards, hand, k + 1)
    }
}

/// `first_legal_from` picks exactly the least legal index at or after `k`,
/// and picks nothing exactly when no index at or after `k` is legal.
pub proof fn lemma_first_legal_from(cards: Seq<Card>, hand: Seq<usize>, k: int)
    requires
        0 <= k <= hand.len(),
    ensures
        match first_legal_from(cards, hand, k) {
            Some(i) => {
                &&& k <= i < hand.len()
                &&& cards[hand[i] as int].allowed
                &&& forall|j: int| k <= j < i ==> !cards[(#[trigger] hand[j]) as int].allowed
            },
            None => forall|j: int|
                k <= j < hand.len() ==> !cards[(#[trigger] hand[j]) as int].allowed,
        },
    decreases hand.len() - k,
{
    if k < hand.len() && !cards[hand[k] as int].allowed {
        lemma_first_legal_from(cards, hand, k + 1);
    }
}

impl Session {
    /// What the opponent policy selects: the lowest index of a legal card in
    /// the opponent's hand, if any card there is legal.
    pub open spec fn ai_choice(self) -> Option<int> {
        first_legal_from(self.cards@, self.opponent.hand.0@, 0)
    }

    /// The pending play intent is exactly what the opponent policy selects
    /// in this state: the lowest-index legal hand card, or nothing.
    pub open spec fn ai_pending_ok(self) -> bool {
        match self.ai_choice() {
            Some(i) => self.pending_play == Some(
                PlayCard {
                    player: PlayerReference::Ai,
                    card: self.opponent.hand.0@[i],
                    hand_index: i as usize,
                },
            ),
            None => self.pending_play is None,
        }
    }

    /// Scan the opponent's hand in ascending index order and issue a play
    /// intent for the first card whose legality flag is on; issue no intent
    /// if none is legal.
    pub fn do_very_smart_ai_thing(&self) -> (r: Option<PlayCard>)
        requires
            self.zones_wf(),
        ensures
            r == match self.ai_choice() {
                Some(i) => Some(
                    PlayCard {
                        player: PlayerReference::Ai,
                        card: self.opponent.hand.0@[i],
                        hand_index: i as usize,
                    },
                ),
                None => None::<PlayCard>,
            },
    {
        let mut k: usize = 0;
        while k < self.opponent.hand.0.len()
            invariant
                k <= self.opponent.hand.0@.len(),
                crate::combat::zone_ids_valid(self.opponent.hand.0@, self.cards@.len() as int),
                first_legal_from(self.cards@, self.opponent.hand.0@, 0) == first_legal_from(
                    self.cards@,
                    self.opponent.hand.0@,
                    k as int,
                ),
            decreases self.opponent.hand.0@.len() - k,
        {
            let id = self.opponent.hand.0[k];
            if self.cards[id].allowed {
                return Some(PlayCard { player: PlayerReference::Ai, card: id, hand_index: k });
            }
            k = k + 1;
        }
        None
    }

    /// With legality flags fresh from the validator, the policy selects
    /// exactly the lowest-index hand card whose cast cost the opponent's
    /// crowd can afford, and stays silent exactly when it can afford none.
    pub proof fn lemma_ai_picks_first_affordable(self)
        requires
            self.legality_ok(),
        ensures
            match self.ai_choice() {
                Some(i) => {
                    &&& 0 <= i < self.opponent.hand.0@.len()
                    &&& self.cards@[self.opponent.hand.0@[i] as int].info.gameplay.cast_crowd
                        <= self.opponent.crowd
                    &&& forall|j: int|
                        0 <= j < i ==> self.cards@[(#[trigger] self.opponent.hand.0@[j])
                            as int].info.gameplay.cast_crowd > self.opponent.crowd
                },
                None => forall|j: int|
                    0 <= j < self.opponent.hand.0@.len() ==> self.cards@[(
                    #[trigger] self.opponent.hand.0@[j]) as int].info.gameplay.cast_crowd
                        > self.opponent.crowd,
            },
    {
        lemma_first_legal_from(self.cards@, self.opponent.hand.0@, 0);
    }
}

} // verus!
