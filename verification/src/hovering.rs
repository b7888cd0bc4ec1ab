//! Pointer-hover state.
//!
//! Which screen region the pointer rests on is geometry and belongs to the
//! embedding program; it reports the set of cards under the pointer, and the
//! engine records those flags and derives which card of each hand is
//! focused: the hovered card with the greatest hand index, the one drawn on
//! top of its overlapping neighbours.

use crate::card::Card;
use crate::combat::{zone_ids_valid, Session};
use crate::hand::Hand;
use vstd::prelude::*;

verus! {

/// Hover flag: `true` while the pointer rests on this card.
#[derive(Clone, Copy, PartialEq, Eq, Structural, Debug)]
pub struct Hovered(pub bool);

/// The greatest index below `k` of a hand card the pointer rests on, where
/// `sel` lists the cards under the pointer.
pub open spec fn last_hovered(sel: Seq<usize>, hand: Seq<usize>, k: int) -> Option<int>
    decreases k,
    when 0 <= k <= hand.len()
{
    if k <= 0 {
        None
    } else if sel.contains(hand[k - 1]) {
        Some(k - 1)
    } else {
        last_hovered(sel, hand, k - 1)
    }
}

/// Whether `v` holds `x`.
fn id_in(v: &Vec<usize>, x: usize) -> (r: bool)
    ensures
        r == v@.contains(x),
{
    let mut k: usize = 0;
    while k < v.len()
        invariant
            k <= v@.len(),
            forall|j: int| 0 <= j < k ==> v@[j] != x,
        decreases v@.len() - k,
    {
        if v[k] == x {
            return true;
        }
        k = k + 1;
    }
    false
}

/// Set every card's hover flag from the list of cards under the pointer.
fn hover_flags(cards: &mut Vec<Card>, sel: &Vec<usize>)
    ensures
        final(cards)@.len() == old(cards)@.len(),
        forall|id: int|
            0 <= id < old(cards)@.len() ==> (#[trigger] final(cards)@[id]) == old(
                cards,
            )@[id].with_hovered(sel@.contains(id as usize)),
{
    let ghost cards0 = cards@;
    let mut id: usize = 0;
    while id < cards.len()
        invariant
            id <= cards0.len(),
            cards@.len() == cards0.len(),
            forall|j: int|
                0 <= j < id ==> (#[trigger] cards@[j]) == cards0[j].with_hovered(
                    sel@.contains(j as usize),
                ),
            forall|j: int| id <= j < cards0.len() ==> (#[trigger] cards@[j]) == cards0[j],
        decreases cards0.len() - id,
    {
        let hovered = id_in(sel, id);
        let mut c = cards[id];
        c.hovered = Hovered(hovered);
        assert(c == cards0[id as int].with_hovered(sel@.contains(id)));
        cards.set(id, c);
        id = id + 1;
    }
}

/// Give the focus flag of every card of `hand` its derived value: on for
/// the hovered card with the greatest hand index, off for every other card.
fn focus_for(hand: &Hand, sel: &Vec<usize>, cards: &mut Vec<Card>)
    requires
        zone_ids_valid(hand.0@, old(cards)@.len() as int),
        hand.0@.no_duplicates(),
    ensures
        final(cards)@.len() == old(cards)@.len(),
        forall|id: int|
            0 <= id < old(cards)@.len() && !hand.0@.contains(id as usize)
                ==> (#[trigger] final(cards)@[id]) == old(cards)@[id],
        forall|k: int|
            0 <= k < hand.0@.len() ==> final(cards)@[#[trigger] hand.0@[k] as int] == old(
                cards,
            )@[hand.0@[k] as int].with_focused(
                last_hovered(sel@, hand.0@, hand.0@.len() as int) == Some(k),
            ),
{
    let ghost cards0 = cards@;
    let ghost hand0 = hand.0@;
    let mut pick: usize = 0;
    let mut has_pick = false;
    let mut k: usize = 0;
    while k < hand.0.len()
        invariant
            k <= hand0.len(),
            hand.0@ == hand0,
            cards@ == cards0,
            if has_pick {
                last_hovered(sel@, hand0, k as int) == Some(pick as int)
            } else {
                last_hovered(sel@, hand0, k as int) is None
            },
        decreases hand0.len() - k,
    {
        if id_in(sel, hand.0[k]) {
            pick = k;
            has_pick = true;
        }
        k = k + 1;
    }
    let ghost choice = last_hovered(sel@, hand0, hand0.len() as int);
    let mut j: usize = 0;
    while j < hand.0.len()
        invariant
            j <= hand0.len(),
            hand.0@ == hand0,
            zone_ids_valid(hand0, cards0.len() as int),
            hand0.no_duplicates(),
            cards@.len() == cards0.len(),
            choice == last_hovered(sel@, hand0, hand0.len() as int),
            if has_pick {
                choice == Some(pick as int)
            } else {
                choice is None
            },
            forall|id: int|
                0 <= id < cards0.len() && !hand0.contains(id as usize) ==> (#[trigger] cards@[id])
                    == cards0[id],
            forall|kk: int|
                0 <= kk < j ==> cards@[#[trigger] hand0[kk] as int] == cards0[hand0[kk]
                    as int].with_focused(choice == Some(kk)),
            forall|kk: int|
                j <= kk < hand0.len() ==> cards@[#[trigger] hand0[kk] as int] == cards0[hand0[kk]
                    as int],
        decreases hand0.len() - j,
    {
        let id = hand.0[j];
        let mut c = cards[id];
        let on = has_pick && pick == j;
        c.focused = crate::hand::Focused(on);
        assert(c == cards0[id as int].with_focused(choice == Some(j as int)));
        cards.set(id, c);
        assert forall|kk: int| j + 1 <= kk < hand0.len() implies cards@[#[trigger] hand0[kk]
            as int] == cards0[hand0[kk] as int] by {
            assert(hand0[kk] != hand0[j as int]);
        }
        j = j + 1;
    }
}

impl Session {
    /// Record which cards the pointer rests on, as reported by the
    /// presentation layer, and derive each hand's focused card: the hovered
    /// card with the greatest hand index, or none. Nothing but the hover
    /// and focus flags changes.
    pub fn update_hover_state(&mut self, hovered_ids: &Vec<usize>)
        requires
            old(self).zones_wf(),
        ensures
            final(self).player == old(self).player,
            final(self).opponent == old(self).opponent,
            final(self).turn == old(self).turn,
            final(self).whos_turn == old(self).whos_turn,
            final(self).pending_play == old(self).pending_play,
            final(self).cards@.len() == old(self).cards@.len(),
            final(self).zones_wf(),
            forall|id: int|
                0 <= id < old(self).cards@.len() && !old(self).player.hand.0@.contains(id as usize)
                    && !old(self).opponent.hand.0@.contains(id as usize)
                    ==> (#[trigger] final(self).cards@[id]) == old(self).cards@[id].with_hovered(
                    hovered_ids@.contains(id as usize),
                ),
            forall|k: int|
                0 <= k < old(self).player.hand.0@.len() ==> final(self).cards@[#[trigger] old(
                    self,
                ).player.hand.0@[k] as int] == old(self).cards@[old(
                    self,
                ).player.hand.0@[k] as int].with_hovered(
                    hovered_ids@.contains(old(self).player.hand.0@[k]),
                ).with_focused(
                    last_hovered(
                        hovered_ids@,
                        old(self).player.hand.0@,
                        old(self).player.hand.0@.len() as int,
                    ) == Some(k),
                ),
            forall|k: int|
                0 <= k < old(self).opponent.hand.0@.len() ==> final(self).cards@[#[trigger] old(
                    self,
                ).opponent.hand.0@[k] as int] == old(self).cards@[old(
                    self,
                ).opponent.hand.0@[k] as int].with_hovered(
                    hovered_ids@.contains(old(self).opponent.hand.0@[k]),
                ).with_focused(
                    last_hovered(
                        hovered_ids@,
                        old(self).opponent.hand.0@,
                        old(self).opponent.hand.0@.len() as int,
                    ) == Some(k),
                ),
            old(self).faces_ok() ==> final(self).faces_ok(),
            old(self).legality_ok() ==> final(self).legality_ok(),
            old(self).gray_ok() ==> final(self).gray_ok(),
            old(self).ledger_ok() ==> final(self).ledger_ok(),
            old(self).inv() ==> final(self).inv(),
    {
        let ghost pre = *self;
        proof {
            pre.lemma_zone_counts();
            pre.lemma_zones_no_duplicates();
        }
        hover_flags(&mut self.cards, hovered_ids);
        focus_for(&self.player.hand, hovered_ids, &mut self.cards);
        focus_for(&self.opponent.hand, hovered_ids, &mut self.cards);
        proof {
            broadcast use vstd::seq_lib::group_to_multiset_ensures;

            assert forall|k: int| 0 <= k < pre.player.hand.0@.len() implies self.cards@[
            #[trigger] pre.player.hand.0@[k] as int] == pre.cards@[pre.player.hand.0@[k]
                as int].with_hovered(hovered_ids@.contains(pre.player.hand.0@[k])).with_focused(
                last_hovered(hovered_ids@, pre.player.hand.0@, pre.player.hand.0@.len() as int)
                    == Some(k),
            ) by {
                let id = pre.player.hand.0@[k];
                assert(pre.player.hand.0@.contains(id));
                assert(pre.player.hand.0@.to_multiset().count(id) >= 1);
                if pre.opponent.hand.0@.contains(id) {
                    assert(pre.opponent.hand.0@.to_multiset().count(id) >= 1);
                    assert(pre.zone_count(id) >= 2);
                }
            }
            assert forall|k: int| 0 <= k < pre.opponent.hand.0@.len() implies self.cards@[
            #[trigger] pre.opponent.hand.0@[k] as int] == pre.cards@[pre.opponent.hand.0@[k]
                as int].with_hovered(hovered_ids@.contains(pre.opponent.hand.0@[k])).with_focused(
                last_hovered(hovered_ids@, pre.opponent.hand.0@, pre.opponent.hand.0@.len() as int)
                    == Some(k),
            ) by {
                let id = pre.opponent.hand.0@[k];
                assert(pre.opponent.hand.0@.contains(id));
                assert(pre.opponent.hand.0@.to_multiset().count(id) >= 1);
                if pre.player.hand.0@.contains(id) {
                    assert(pre.player.hand.0@.to_multiset().count(id) >= 1);
                    assert(pre.zone_count(id) >= 2);
                }
            }
            assert(self.zones_multiset() =~= pre.zones_multiset());
            assert forall|id: int| 0 <= id < pre.cards@.len() implies (
            #[trigger] self.cards@[id]).info == pre.cards@[id].info && self.cards@[id].current_hp
                == pre.cards@[id].current_hp && self.cards@[id].show_front
                == pre.cards@[id].show_front && self.cards@[id].allowed == pre.cards@[id].allowed
                && self.cards@[id].gray == pre.cards@[id].gray by {
                vstd::std_specs::vec::axiom_spec_len(&pre.cards);
                assert((id as usize) as int == id);
                if pre.player.hand.0@.contains(id as usize) {
                    let k = choose|k: int|
                        0 <= k < pre.player.hand.0@.len() && pre.player.hand.0@[k] == id as usize;
                    assert(0 <= k < pre.player.hand.0@.len());
                    assert(pre.player.hand.0@[k] == id as usize);
                    assert(self.cards@[pre.player.hand.0@[k] as int] == pre.cards@[
                        pre.player.hand.0@[k] as int].with_hovered(
                        hovered_ids@.contains(pre.player.hand.0@[k]),
                    ).with_focused(
                        last_hovered(
                            hovered_ids@,
                            pre.player.hand.0@,
                            pre.player.hand.0@.len() as int,
                        ) == Some(k),
                    ));
                } else if pre.opponent.hand.0@.contains(id as usize) {
                    let k = choose|k: int|
                        0 <= k < pre.opponent.hand.0@.len() && pre.opponent.hand.0@[k] == id
                            as usize;
                    assert(0 <= k < pre.opponent.hand.0@.len());
                    assert(pre.opponent.hand.0@[k] == id as usize);
                    assert(self.cards@[pre.opponent.hand.0@[k] as int] == pre.cards@[
                        pre.opponent.hand.0@[k] as int].with_hovered(
                        hovered_ids@.contains(pre.opponent.hand.0@[k]),
                    ).with_focused(
                        last_hovered(
                            hovered_ids@,
                            pre.opponent.hand.0@,
                            pre.opponent.hand.0@.len() as int,
                        ) == Some(k),
                    ));
                }
            }
        }
    }
}

} // verus!
