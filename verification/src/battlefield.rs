//! Battlefield zones and the crowd ledger derived from them.

use crate::card::{Card, ShowFront};
use crate::combat::{PlayerReference, PlayerState, Session};
use crate::hand::PlayCard;
use vstd::prelude::*;

verus! {

/// A battlefield zone: card indices in play order, newest at the end.
#[derive(Clone, PartialEq, Eq, Debug)]
pub struct BattleField(pub Vec<usize>);

/// The crowd value a battlefield of `n` cards yields: its size, clamped to
/// the representable range of the resource.
pub open spec fn crowd_of(n: nat) -> u8 {
    if n > u8::MAX as nat {
        u8::MAX
    } else {
        n as u8
    }
}

/// Turn the card `id` front up and append it to `st`'s battlefield.
fn push_to_battlefield(st: &mut PlayerState, cards: &mut Vec<Card>, id: usize)
    requires
        (id as int) < old(cards)@.len(),
    ensures
        final(st).battlefield.0@ == old(st).battlefield.0@.push(id),
        final(st).deck == old(st).deck,
        final(st).hand == old(st).hand,
        final(st).crowd == old(st).crowd,
        final(st).max_hp == old(st).max_hp,
        final(st).current_hp == old(st).current_hp,
        final(cards)@.len() == old(cards)@.len(),
        forall|other: int|
            0 <= other < old(cards)@.len() && other != id ==> final(cards)@[other] == old(
                cards,
            )@[other],
        final(cards)@[id as int] == old(cards)@[id as int].with_face(true),
{
    let mut c = cards[id];
    c.show_front = ShowFront(true);
    cards.set(id, c);
    st.battlefield.0.push(id);
}

impl Session {
    /// Second half of applying a play intent: the played card is turned
    /// front up and appended to the intent player's battlefield.
    pub fn move_card_to_battlefield(&mut self, event: &PlayCard)
        requires
            (event.card as int) < old(self).cards@.len(),
        ensures
            final(self).state_of(event.player).battlefield.0@ == old(self).state_of(
                event.player,
            ).battlefield.0@.push(event.card),
            final(self).state_of(event.player).deck == old(self).state_of(event.player).deck,
            final(self).state_of(event.player).hand == old(self).state_of(event.player).hand,
            final(self).state_of(event.player).crowd == old(self).state_of(event.player).crowd,
            final(self).state_of(event.player).max_hp == old(self).state_of(event.player).max_hp,
            final(self).state_of(event.player).current_hp == old(self).state_of(
                event.player,
            ).current_hp,
            final(self).state_of(event.player.spec_other()) == old(self).state_of(
                event.player.spec_other(),
            ),
            final(self).cards@.len() == old(self).cards@.len(),
            forall|other: int|
                0 <= other < old(self).cards@.len() && other != event.card
                    ==> final(self).cards@[other] == old(self).cards@[other],
            final(self).cards@[event.card as int] == old(self).cards@[event.card
                as int].with_face(true),
            final(self).turn == old(self).turn,
            final(self).whos_turn == old(self).whos_turn,
            final(self).pending_play == old(self).pending_play,
    {
        match event.player {
            PlayerReference::Player => push_to_battlefield(
                &mut self.player,
                &mut self.cards,
                event.card,
            ),
            PlayerReference::Ai => push_to_battlefield(
                &mut self.opponent,
                &mut self.cards,
                event.card,
            ),
        }
    }

    /// Recompute the crowd ledger of both players from their battlefields:
    /// each crowd value becomes the size of the owner's battlefield, clamped
    /// to the resource type. Nothing else changes.
    pub fn update_crowd_value(&mut self)
        ensures
            final(self).player.crowd == crowd_of(old(self).player.battlefield.0@.len()),
            final(self).opponent.crowd == crowd_of(old(self).opponent.battlefield.0@.len()),
            final(self).player.deck == old(self).player.deck,
            final(self).player.hand == old(self).player.hand,
            final(self).player.battlefield == old(self).player.battlefield,
            final(self).player.max_hp == old(self).player.max_hp,
            final(self).player.current_hp == old(self).player.current_hp,
            final(self).opponent.deck == old(self).opponent.deck,
            final(self).opponent.hand == old(self).opponent.hand,
            final(self).opponent.battlefield == old(self).opponent.battlefield,
            final(self).opponent.max_hp == old(self).opponent.max_hp,
            final(self).opponent.current_hp == old(self).opponent.current_hp,
            final(self).cards == old(self).cards,
            final(self).turn == old(self).turn,
            final(self).whos_turn == old(self).whos_turn,
            final(self).pending_play == old(self).pending_play,
            final(self).ledger_ok(),
    {
        let p_len = self.player.battlefield.0.len();
        self.player.crowd = if p_len > u8::MAX as usize {
            u8::MAX
        } else {
            p_len as u8
        };
        let o_len = self.opponent.battlefield.0.len();
        self.opponent.crowd = if o_len > u8::MAX as usize {
            u8::MAX
        } else {
            o_len as u8
        };
    }
}

} // verus!
