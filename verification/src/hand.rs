//! Hand zones, the two zone-transfer intents, and the zone-transfer
//! operations themselves: drawing and playing are the only mutators of zone
//! membership.

use crate::card::{Card, ShowFront};
use crate::combat::{zone_ids_valid, PlayerReference, PlayerState, Session};
use crate::zones::{ids_up_to, lemma_concat_multiset, lemma_split_multiset};
use vstd::prelude::*;

verus! {

/// A hand zone: card indices in display order, leftmost first.
#[derive(Clone, PartialEq, Eq, Debug)]
pub struct Hand(pub Vec<usize>);

/// Focus flag: `true` while this card is the one a click would play.
#[derive(Clone, Copy, PartialEq, Eq, Structural, Debug)]
pub struct Focused(pub bool);

/// Intent to move up to `amount` cards from the top of `player`'s deck into
/// that player's hand.
#[derive(Clone, Copy, PartialEq, Eq, Structural, Debug)]
pub struct DrawCard {
    pub player: PlayerReference,
    pub amount: usize,
}

/// Intent to play the card at `hand_index` of `player`'s hand; `card` is the
/// table index of that card, carried along for consumers of the intent.
#[derive(Clone, Copy, PartialEq, Eq, Structural, Debug)]
pub struct PlayCard {
    pub player: PlayerReference,
    pub card: usize,
    pub hand_index: usize,
}

/// Why a play intent was rejected. Rejection never changes any state.
#[derive(Clone, Copy, PartialEq, Eq, Structural, Debug)]
pub enum PlayError {
    /// The hand index was out of bounds for the player's current hand.
    InvalidIndex,
    /// The referenced card is not currently legal to play.
    NotLegal,
}

/// What a draw does to one player's zones: the top `k` deck cards, `k`
/// capped by the deck size, move to the end of the hand in deck order, and
/// each moved card is turned to the face its new owner prescribes.
pub open spec fn draw_effect(
    pre: PlayerState,
    post: PlayerState,
    pre_cards: Seq<Card>,
    post_cards: Seq<Card>,
    amount: int,
    front: bool,
) -> bool {
    let d = pre.deck.0@.len() as int;
    let k = if amount <= d {
        amount
    } else {
        d
    };
    let start = d - k;
    let drawn = pre.deck.0@.subrange(start, d);
    &&& post.deck.0@ == pre.deck.0@.subrange(0, start)
    &&& post.hand.0@ == pre.hand.0@ + drawn
    &&& post.battlefield == pre.battlefield
    &&& post.crowd == pre.crowd
    &&& post.max_hp == pre.max_hp
    &&& post.current_hp == pre.current_hp
    &&& post_cards.len() == pre_cards.len()
    &&& forall|id: int|
        0 <= id < pre_cards.len() && !drawn.contains(id as usize) ==> post_cards[id]
            == pre_cards[id]
    &&& forall|j: int|
        start <= j < d ==> post_cards[pre.deck.0@[j] as int] == pre_cards[pre.deck.0@[j]
            as int].with_face(front)
}

/// Move up to `amount` cards from the top of `st`'s deck to the end of its
/// hand, turning each to the face `front` prescribes.
fn draw_for(st: &mut PlayerState, cards: &mut Vec<Card>, amount: usize, front: bool)
    requires
        zone_ids_valid(old(st).deck.0@, old(cards)@.len() as int),
    ensures
        draw_effect(*old(st), *final(st), old(cards)@, final(cards)@, amount as int, front),
        crate::card::same_stats(old(cards)@, final(cards)@),
{
    let ghost cards0 = cards@;
    let ghost deck0 = st.deck.0@;
    let d = st.deck.0.len();
    let k = if amount <= d {
        amount
    } else {
        d
    };
    let start = d - k;
    let mut moved = st.deck.0.split_off(start);
    let ghost drawn = moved@;
    let mut j: usize = 0;
    while j < moved.len()
        invariant
            j <= moved@.len(),
            moved@ == drawn,
            zone_ids_valid(drawn, cards0.len() as int),
            cards@.len() == cards0.len(),
            forall|id: int|
                0 <= id < cards0.len() && !drawn.contains(id as usize) ==> cards@[id]
                    == cards0[id],
            forall|jj: int|
                0 <= jj < j ==> cards@[drawn[jj] as int] == cards0[drawn[jj] as int].with_face(
                    front,
                ),
            forall|id: int|
                0 <= id < cards0.len() ==> cards@[id] == cards0[id] || cards@[id]
                    == cards0[id].with_face(front),
        decreases moved@.len() - j,
    {
        let id = moved[j];
        let mut c = cards[id];
        c.show_front = crate::card::ShowFront(front);
        assert(c == cards0[id as int].with_face(front));
        cards.set(id, c);
        j = j + 1;
    }
    proof {
        assert forall|jx: int| start <= jx < d implies cards@[deck0[jx] as int] == cards0[deck0[jx]
            as int].with_face(front) by {
            assert(drawn[jx - start] == deck0[jx]);
        }
    }
    st.hand.0.append(&mut moved);
}

/// What a successful play does to one player's zones: the card at `i` leaves
/// the hand (later cards shift down by one), joins the end of the
/// battlefield front up, and loses its transient hand markers.
pub open spec fn play_effect(
    pre: PlayerState,
    post: PlayerState,
    pre_cards: Seq<Card>,
    post_cards: Seq<Card>,
    i: int,
) -> bool {
    let c = pre.hand.0@[i];
    &&& post.hand.0@ == pre.hand.0@.remove(i)
    &&& post.battlefield.0@ == pre.battlefield.0@.push(c)
    &&& post.deck == pre.deck
    &&& post.crowd == pre.crowd
    &&& post.max_hp == pre.max_hp
    &&& post.current_hp == pre.current_hp
    &&& post_cards.len() == pre_cards.len()
    &&& forall|id: int|
        0 <= id < pre_cards.len() && id != c ==> post_cards[id] == pre_cards[id]
    &&& post_cards[c as int] == pre_cards[c as int].played()
}

/// Remove the card at `i` from `st`'s hand and clear the transient hand
/// markers of the card `id` names.
fn remove_from_hand(st: &mut PlayerState, cards: &mut Vec<Card>, i: usize, id: usize)
    requires
        (i as int) < old(st).hand.0@.len(),
        (id as int) < old(cards)@.len(),
    ensures
        final(st).hand.0@ == old(st).hand.0@.remove(i as int),
        final(st).deck == old(st).deck,
        final(st).battlefield == old(st).battlefield,
        final(st).crowd == old(st).crowd,
        final(st).max_hp == old(st).max_hp,
        final(st).current_hp == old(st).current_hp,
        final(cards)@.len() == old(cards)@.len(),
        forall|other: int|
            0 <= other < old(cards)@.len() && other != id ==> final(cards)@[other] == old(
                cards,
            )@[other],
        final(cards)@[id as int] == old(cards)@[id as int].cleared(),
{
    st.hand.0.remove(i);
    let mut c = cards[id];
    c.allowed = false;
    c.focused = Focused(false);
    c.gray = crate::card::CardGray(false);
    cards.set(id, c);
}

/// Sync the grayed-out flag of every card of `hand` to the inverse of its
/// legality flag.
fn gray_for(hand: &Hand, cards: &mut Vec<Card>)
    requires
        zone_ids_valid(hand.0@, old(cards)@.len() as int),
    ensures
        final(cards)@.len() == old(cards)@.len(),
        forall|id: int|
            0 <= id < old(cards)@.len() && !hand.0@.contains(id as usize) ==> final(cards)@[id]
                == old(cards)@[id],
        forall|k: int|
            0 <= k < hand.0@.len() ==> final(cards)@[#[trigger] hand.0@[k] as int] == old(
                cards,
            )@[hand.0@[k] as int].with_gray(!old(cards)@[hand.0@[k] as int].allowed),
{
    let ghost cards0 = cards@;
    let mut k: usize = 0;
    while k < hand.0.len()
        invariant
            k <= hand.0@.len(),
            zone_ids_valid(hand.0@, cards0.len() as int),
            cards@.len() == cards0.len(),
            forall|id: int|
                0 <= id < cards0.len() && !hand.0@.contains(id as usize) ==> cards@[id]
                    == cards0[id],
            forall|kk: int|
                0 <= kk < k ==> cards@[#[trigger] hand.0@[kk] as int] == cards0[hand.0@[kk]
                    as int].with_gray(!cards0[hand.0@[kk] as int].allowed),
            forall|id: int|
                0 <= id < cards0.len() ==> cards@[id] == cards0[id] || cards@[id]
                    == cards0[id].with_gray(!cards0[id].allowed),
        decreases hand.0@.len() - k,
    {
        let id = hand.0[k];
        let mut c = cards[id];
        c.gray = crate::card::CardGray(!c.allowed);
        assert(c == cards0[id as int].with_gray(!cards0[id as int].allowed));
        cards.set(id, c);
        k = k + 1;
    }
}

/// The first index at or after `k` of a hand card that is both focused and
/// legal to play.
pub open spec fn first_focused_allowed(cards: Seq<Card>, hand: Seq<usize>, k: int) -> Option<int>
    decreases hand.len() - k,
    when 0 <= k <= hand.len()
{
    if k >= hand.len() {
        None
    } else if cards[hand[k] as int].focused == Focused(true) && cards[hand[k] as int].allowed {
        Some(k)
    } else {
        first_focused_allowed(cards, hand, k + 1)
    }
}

impl Session {
    /// Translate a click into a play intent for the human player: the intent
    /// names the first card of the player's hand that is both focused and
    /// legal to play. Without a click, or with no such card, no intent is
    /// issued.
    pub fn handle_play_input(&self, clicked: bool) -> (r: Option<PlayCard>)
        requires
            self.zones_wf(),
        ensures
            !clicked ==> r == None::<PlayCard>,
            clicked ==> r == match first_focused_allowed(self.cards@, self.player.hand.0@, 0) {
                Some(i) => Some(
                    PlayCard {
                        player: PlayerReference::Player,
                        card: self.player.hand.0@[i],
                        hand_index: i as usize,
                    },
                ),
                None => None::<PlayCard>,
            },
    {
        if !clicked {
            return None;
        }
        let mut k: usize = 0;
        while k < self.player.hand.0.len()
            invariant
                clicked,
                k <= self.player.hand.0@.len(),
                zone_ids_valid(self.player.hand.0@, self.cards@.len() as int),
                first_focused_allowed(self.cards@, self.player.hand.0@, 0)
                    == first_focused_allowed(self.cards@, self.player.hand.0@, k as int),
            decreases self.player.hand.0@.len() - k,
        {
            let id = self.player.hand.0[k];
            let c = self.cards[id];
            if c.focused.0 && c.allowed {
                return Some(PlayCard { player: PlayerReference::Player, card: id, hand_index: k });
            }
            k = k + 1;
        }
        None
    }

    /// Sync the grayed-out presentation flag of every card currently in a
    /// hand: a hand card is shown gray exactly when it is not legal to play.
    /// Cards outside the hands, the zones and the rest of each card are
    /// untouched.
    pub fn show_allowed_cards(&mut self)
        requires
            old(self).zones_wf(),
        ensures
            final(self).player == old(self).player,
            final(self).opponent == old(self).opponent,
            final(self).turn == old(self).turn,
            final(self).whos_turn == old(self).whos_turn,
            final(self).pending_play == old(self).pending_play,
            final(self).cards@.len() == old(self).cards@.len(),
            forall|id: int|
                0 <= id < old(self).cards@.len() && !old(self).player.hand.0@.contains(id as usize)
                    && !old(self).opponent.hand.0@.contains(id as usize)
                    ==> (#[trigger] final(self).cards@[id]) == old(self).cards@[id],
            forall|k: int|
                0 <= k < old(self).player.hand.0@.len() ==> final(self).cards@[#[trigger] old(
                    self,
                ).player.hand.0@[k] as int] == old(self).cards@[old(
                    self,
                ).player.hand.0@[k] as int].with_gray(
                    !old(self).cards@[old(self).player.hand.0@[k] as int].allowed,
                ),
            forall|k: int|
                0 <= k < old(self).opponent.hand.0@.len() ==> final(self).cards@[#[trigger] old(
                    self,
                ).opponent.hand.0@[k] as int] == old(self).cards@[old(
                    self,
                ).opponent.hand.0@[k] as int].with_gray(
                    !old(self).cards@[old(self).opponent.hand.0@[k] as int].allowed,
                ),
            final(self).zones_wf(),
            final(self).gray_ok(),
            crate::card::same_but_flags(old(self).cards@, final(self).cards@),
            old(self).legality_ok() ==> final(self).legality_ok(),
            old(self).faces_ok() ==> final(self).faces_ok(),
    {
        let ghost pre = *self;
        proof {
            pre.lemma_zone_counts();
        }
        gray_for(&self.player.hand, &mut self.cards);
        gray_for(&self.opponent.hand, &mut self.cards);
        proof {
            broadcast use vstd::seq_lib::group_to_multiset_ensures;

            assert forall|k: int| 0 <= k < pre.player.hand.0@.len() implies self.cards@[
            #[trigger] pre.player.hand.0@[k] as int] == pre.cards@[pre.player.hand.0@[k]
                as int].with_gray(!pre.cards@[pre.player.hand.0@[k] as int].allowed) by {
                let id = pre.player.hand.0@[k];
                assert(pre.player.hand.0@.contains(id));
                assert(pre.player.hand.0@.to_multiset().count(id) >= 1);
                if pre.opponent.hand.0@.contains(id) {
                    assert(pre.opponent.hand.0@.to_multiset().count(id) >= 1);
                    assert(pre.zone_count(id) >= 2);
                }
            }
            assert forall|k: int| 0 <= k < pre.opponent.hand.0@.len() implies self.cards@[
            #[trigger] pre.opponent.hand.0@[k] as int] == pre.cards@[pre.opponent.hand.0@[k]
                as int].with_gray(!pre.cards@[pre.opponent.hand.0@[k] as int].allowed) by {
                let id = pre.opponent.hand.0@[k];
                assert(pre.opponent.hand.0@.contains(id));
                assert(pre.opponent.hand.0@.to_multiset().count(id) >= 1);
                if pre.player.hand.0@.contains(id) {
                    assert(pre.player.hand.0@.to_multiset().count(id) >= 1);
                    assert(pre.zone_count(id) >= 2);
                }
            }
            assert(self.zones_multiset() =~= pre.zones_multiset());
            assert forall|id: int| 0 <= id < pre.cards@.len() implies (#[trigger] self.cards@[id]).info
                == pre.cards@[id].info && self.cards@[id].current_hp == pre.cards@[id].current_hp
                && self.cards@[id].show_front == pre.cards@[id].show_front
                && self.cards@[id].hovered == pre.cards@[id].hovered && self.cards@[id].focused
                == pre.cards@[id].focused by {
                vstd::std_specs::vec::axiom_spec_len(&pre.cards);
                assert((id as usize) as int == id);
                if pre.player.hand.0@.contains(id as usize) {
                    let k = choose|k: int|
                        0 <= k < pre.player.hand.0@.len() && pre.player.hand.0@[k] == id as usize;
                    assert(0 <= k < pre.player.hand.0@.len());
                    assert(pre.player.hand.0@[k] == id as usize);
                    assert(self.cards@[pre.player.hand.0@[k] as int] == pre.cards@[
                        pre.player.hand.0@[k] as int].with_gray(
                        !pre.cards@[pre.player.hand.0@[k] as int].allowed,
                    ));
                } else if pre.opponent.hand.0@.contains(id as usize) {
                    let k = choose|k: int|
                        0 <= k < pre.opponent.hand.0@.len() && pre.opponent.hand.0@[k] == id
                            as usize;
                    assert(0 <= k < pre.opponent.hand.0@.len());
                    assert(pre.opponent.hand.0@[k] == id as usize);
                    assert(self.cards@[pre.opponent.hand.0@[k] as int] == pre.cards@[
                        pre.opponent.hand.0@[k] as int].with_gray(
                        !pre.cards@[pre.opponent.hand.0@[k] as int].allowed,
                    ));
                }
            }
        }
    }

    /// First half of applying a play intent: the card at the intent's hand
    /// index leaves the intent player's hand, and the transient markers of
    /// the card the intent names are cleared.
    pub fn remove_played_card_from_hand(&mut self, event: &PlayCard)
        requires
            (event.hand_index as int) < old(self).state_of(event.player).hand.0@.len(),
            (event.card as int) < old(self).cards@.len(),
        ensures
            final(self).state_of(event.player).hand.0@ == old(self).state_of(
                event.player,
            ).hand.0@.remove(event.hand_index as int),
            final(self).state_of(event.player).deck == old(self).state_of(event.player).deck,
            final(self).state_of(event.player).battlefield == old(self).state_of(
                event.player,
            ).battlefield,
            final(self).state_of(event.player).crowd == old(self).state_of(event.player).crowd,
            final(self).state_of(event.player).max_hp == old(self).state_of(event.player).max_hp,
            final(self).state_of(event.player).current_hp == old(self).state_of(
                event.player,
            ).current_hp,
            final(self).state_of(event.player.spec_other()) == old(self).state_of(
                event.player.spec_other(),
            ),
            final(self).cards@.len() == old(self).cards@.len(),
            forall|other: int|
                0 <= other < old(self).cards@.len() && other != event.card
                    ==> final(self).cards@[other] == old(self).cards@[other],
            final(self).cards@[event.card as int] == old(self).cards@[event.card as int].cleared(),
            final(self).turn == old(self).turn,
            final(self).whos_turn == old(self).whos_turn,
            final(self).pending_play == old(self).pending_play,
    {
        match event.player {
            PlayerReference::Player => remove_from_hand(
                &mut self.player,
                &mut self.cards,
                event.hand_index,
                event.card,
            ),
            PlayerReference::Ai => remove_from_hand(
                &mut self.opponent,
                &mut self.cards,
                event.hand_index,
                event.card,
            ),
        }
    }

    /// Apply a play intent, validating it first. An out-of-range hand index
    /// is rejected as `InvalidIndex`, a card whose legality flag is off as
    /// `NotLegal`; rejection changes nothing. On success the returned table
    /// index names the played card, which moved from hand position
    /// `hand_index` to the end of the player's battlefield, front up.
    pub fn play_card(&mut self, player: PlayerReference, hand_index: usize) -> (r: Result<
        usize,
        PlayError,
    >)
        requires
            old(self).zones_wf(),
        ensures
            final(self).zones_wf(),
            crate::card::same_stats(old(self).cards@, final(self).cards@),
            (hand_index as int) >= old(self).state_of(player).hand.0@.len() ==> r == Err::<
                usize,
                PlayError,
            >(PlayError::InvalidIndex) && *final(self) == *old(self),
            (hand_index as int) < old(self).state_of(player).hand.0@.len() && !old(
                self,
            ).cards@[old(self).state_of(player).hand.0@[hand_index as int] as int].allowed ==> r
                == Err::<usize, PlayError>(PlayError::NotLegal) && *final(self) == *old(self),
            (hand_index as int) < old(self).state_of(player).hand.0@.len() && old(
                self,
            ).cards@[old(self).state_of(player).hand.0@[hand_index as int] as int].allowed ==> {
                &&& r == Ok::<usize, PlayError>(
                    old(self).state_of(player).hand.0@[hand_index as int],
                )
                &&& play_effect(
                    old(self).state_of(player),
                    final(self).state_of(player),
                    old(self).cards@,
                    final(self).cards@,
                    hand_index as int,
                )
                &&& final(self).state_of(player.spec_other()) == old(self).state_of(
                    player.spec_other(),
                )
                &&& final(self).turn == old(self).turn
                &&& final(self).whos_turn == old(self).whos_turn
                &&& final(self).pending_play == old(self).pending_play
            },
    {
        let hand_len = match player {
            PlayerReference::Player => self.player.hand.0.len(),
            PlayerReference::Ai => self.opponent.hand.0.len(),
        };
        if hand_index >= hand_len {
            return Err(PlayError::InvalidIndex);
        }
        let card = match player {
            PlayerReference::Player => self.player.hand.0[hand_index],
            PlayerReference::Ai => self.opponent.hand.0[hand_index],
        };
        assert((card as int) < self.cards@.len());
        if !self.cards[card].allowed {
            return Err(PlayError::NotLegal);
        }
        let event = PlayCard { player, card, hand_index };
        self.remove_played_card_from_hand(&event);
        self.move_card_to_battlefield(&event);
        proof {
            self.lemma_play_preserves_zones_wf(*old(self), player, hand_index as int);
        }
        Ok(card)
    }

    /// Zone well-formedness survives a play: the played index leaves the
    /// hand multiset and enters the battlefield multiset.
    proof fn lemma_play_preserves_zones_wf(self, pre: Session, p: PlayerReference, i: int)
        requires
            pre.zones_wf(),
            0 <= i < pre.state_of(p).hand.0@.len(),
            play_effect(pre.state_of(p), self.state_of(p), pre.cards@, self.cards@, i),
            self.state_of(p.spec_other()) == pre.state_of(p.spec_other()),
        ensures
            self.zones_wf(),
    {
        broadcast use vstd::multiset::group_multiset_axioms;
        broadcast use vstd::seq_lib::group_to_multiset_ensures;

        let st = pre.state_of(p);
        let c = st.hand.0@[i];
        assert(st.hand.0@.contains(c));
        assert(st.hand.0@.to_multiset().count(c) > 0);
        assert(self.state_of(p).hand.0@.to_multiset() == st.hand.0@.to_multiset().remove(c));
        assert(self.state_of(p).battlefield.0@.to_multiset() == st.battlefield.0@.to_multiset()
            .insert(c));
        assert(self.zones_multiset() =~= pre.zones_multiset());
        assert(self.zones_multiset() == ids_up_to(self.cards@.len()).to_multiset());
        assert forall|kk: int| 0 <= kk < self.state_of(p).hand.0@.len() implies (
        #[trigger] self.state_of(p).hand.0@[kk]) < self.n_cards() by {
            if kk < i {
                assert(self.state_of(p).hand.0@[kk] == st.hand.0@[kk]);
            } else {
                assert(self.state_of(p).hand.0@[kk] == st.hand.0@[kk + 1]);
            }
        }
    }

    /// The visible-face rule survives a draw: cards that move into the
    /// human player's hand turn front up, cards that move into the
    /// opponent's hand stay front down, and no other card changes.
    pub proof fn lemma_draw_preserves_faces(pre: Session, post: Session, p: PlayerReference, amount: int)
        requires
            0 <= amount,
            pre.zones_wf(),
            pre.faces_ok(),
            draw_effect(
                pre.state_of(p),
                post.state_of(p),
                pre.cards@,
                post.cards@,
                amount,
                p == PlayerReference::Player,
            ),
            post.state_of(p.spec_other()) == pre.state_of(p.spec_other()),
        ensures
            post.faces_ok(),
    {
        broadcast use vstd::seq_lib::group_to_multiset_ensures;

        pre.lemma_zone_counts();
        pre.lemma_zones_no_duplicates();
        let st = pre.state_of(p);
        let stf = post.state_of(p);
        let front = p == PlayerReference::Player;
        let d = st.deck.0@.len() as int;
        let k = if amount <= d {
            amount
        } else {
            d
        };
        let start = d - k;
        let drawn = st.deck.0@.subrange(start, d);
        assert forall|x: usize| drawn.contains(x) implies st.deck.0@.to_multiset().count(x)
            >= 1 by {
            let kk = choose|kk: int| 0 <= kk < drawn.len() && drawn[kk] == x;
            assert(st.deck.0@[start + kk] == x);
            assert(st.deck.0@.contains(x));
        }
        // The untouched part of the active deck keeps its cards unchanged.
        assert forall|j: int| 0 <= j < stf.deck.0@.len() implies post.cards@[(
        #[trigger] stf.deck.0@[j]) as int] == pre.cards@[stf.deck.0@[j] as int] by {
            let id = stf.deck.0@[j];
            assert(st.deck.0@[j] == id);
            if drawn.contains(id) {
                let kk = choose|kk: int| 0 <= kk < drawn.len() && drawn[kk] == id;
                assert(st.deck.0@[start + kk] == id);
            }
        }
        // Cards of the four zones of the other player and the active
        // battlefield and old hand are untouched: none of them sits in the
        // drawn segment, whose cards all come from the active deck.
        let other = pre.state_of(p.spec_other());
        assert forall|j: int| 0 <= j < st.hand.0@.len() implies post.cards@[(
        #[trigger] st.hand.0@[j]) as int] == pre.cards@[st.hand.0@[j] as int] by {
            let id = st.hand.0@[j];
            assert(st.hand.0@.contains(id));
            if drawn.contains(id) {
                assert(pre.zone_count(id) >= 2);
            }
        }
        assert forall|j: int| 0 <= j < st.battlefield.0@.len() implies post.cards@[(
        #[trigger] st.battlefield.0@[j]) as int] == pre.cards@[st.battlefield.0@[j] as int] by {
            let id = st.battlefield.0@[j];
            assert(st.battlefield.0@.contains(id));
            if drawn.contains(id) {
                assert(pre.zone_count(id) >= 2);
            }
        }
        assert forall|j: int| 0 <= j < other.deck.0@.len() implies post.cards@[(
        #[trigger] other.deck.0@[j]) as int] == pre.cards@[other.deck.0@[j] as int] by {
            let id = other.deck.0@[j];
            assert(other.deck.0@.contains(id));
            if drawn.contains(id) {
                assert(pre.zone_count(id) >= 2);
            }
        }
        assert forall|j: int| 0 <= j < other.hand.0@.len() implies post.cards@[(
        #[trigger] other.hand.0@[j]) as int] == pre.cards@[other.hand.0@[j] as int] by {
            let id = other.hand.0@[j];
            assert(other.hand.0@.contains(id));
            if drawn.contains(id) {
                assert(pre.zone_count(id) >= 2);
            }
        }
        assert forall|j: int| 0 <= j < other.battlefield.0@.len() implies post.cards@[(
        #[trigger] other.battlefield.0@[j]) as int] == pre.cards@[other.battlefield.0@[j]
            as int] by {
            let id = other.battlefield.0@[j];
            assert(other.battlefield.0@.contains(id));
            if drawn.contains(id) {
                assert(pre.zone_count(id) >= 2);
            }
        }
        // The new tail of the active hand shows the owner's face.
        assert forall|j: int| 0 <= j < stf.hand.0@.len() implies (
        #[trigger] post.cards@[stf.hand.0@[j] as int]).show_front == ShowFront(front) by {
            if j < st.hand.0@.len() {
                assert(stf.hand.0@[j] == st.hand.0@[j]);
            } else {
                let jd = start + (j - st.hand.0@.len());
                assert(stf.hand.0@[j] == drawn[j - st.hand.0@.len()]);
                assert(drawn[j - st.hand.0@.len()] == st.deck.0@[jd]);
                assert(post.cards@[st.deck.0@[jd] as int] == pre.cards@[st.deck.0@[jd]
                    as int].with_face(front));
            }
        }
    }

    /// The visible-face rule survives a play: the played card turns front
    /// up on the battlefield, and no other card changes.
    pub proof fn lemma_play_preserves_faces(pre: Session, post: Session, p: PlayerReference, i: int)
        requires
            pre.zones_wf(),
            pre.faces_ok(),
            0 <= i < pre.state_of(p).hand.0@.len(),
            play_effect(pre.state_of(p), post.state_of(p), pre.cards@, post.cards@, i),
            post.state_of(p.spec_other()) == pre.state_of(p.spec_other()),
        ensures
            post.faces_ok(),
    {
        broadcast use vstd::seq_lib::group_to_multiset_ensures;

        pre.lemma_zone_counts();
        pre.lemma_zones_no_duplicates();
        let st = pre.state_of(p);
        let stf = post.state_of(p);
        let c = st.hand.0@[i];
        assert(st.hand.0@.contains(c));
        let other = pre.state_of(p.spec_other());
        // Every zone position other than the played card's keeps its card.
        assert forall|j: int| 0 <= j < stf.hand.0@.len() implies post.cards@[(
        #[trigger] stf.hand.0@[j]) as int] == pre.cards@[stf.hand.0@[j] as int] by {
            if j < i {
                assert(stf.hand.0@[j] == st.hand.0@[j]);
                assert(st.hand.0@[j] != c);
            } else {
                assert(stf.hand.0@[j] == st.hand.0@[j + 1]);
                assert(st.hand.0@[j + 1] != c);
            }
        }
        assert forall|j: int| 0 <= j < st.deck.0@.len() implies post.cards@[(
        #[trigger] st.deck.0@[j]) as int] == pre.cards@[st.deck.0@[j] as int] by {
            let id = st.deck.0@[j];
            assert(st.deck.0@.contains(id));
            if id == c {
                assert(pre.zone_count(c) >= 2);
            }
        }
        assert forall|j: int| 0 <= j < st.battlefield.0@.len() implies post.cards@[(
        #[trigger] st.battlefield.0@[j]) as int] == pre.cards@[st.battlefield.0@[j] as int] by {
            let id = st.battlefield.0@[j];
            assert(st.battlefield.0@.contains(id));
            if id == c {
                assert(pre.zone_count(c) >= 2);
            }
        }
        assert forall|j: int| 0 <= j < other.deck.0@.len() implies post.cards@[(
        #[trigger] other.deck.0@[j]) as int] == pre.cards@[other.deck.0@[j] as int] by {
            let id = other.deck.0@[j];
            assert(other.deck.0@.contains(id));
            if id == c {
                assert(pre.zone_count(c) >= 2);
            }
        }
        assert forall|j: int| 0 <= j < other.hand.0@.len() implies post.cards@[(
        #[trigger] other.hand.0@[j]) as int] == pre.cards@[other.hand.0@[j] as int] by {
            let id = other.hand.0@[j];
            assert(other.hand.0@.contains(id));
            if id == c {
                assert(pre.zone_count(c) >= 2);
            }
        }
        assert forall|j: int| 0 <= j < other.battlefield.0@.len() implies post.cards@[(
        #[trigger] other.battlefield.0@[j]) as int] == pre.cards@[other.battlefield.0@[j]
            as int] by {
            let id = other.battlefield.0@[j];
            assert(other.battlefield.0@.contains(id));
            if id == c {
                assert(pre.zone_count(c) >= 2);
            }
        }
        // The new battlefield tail is the played card, front up.
        assert forall|j: int| 0 <= j < stf.battlefield.0@.len() implies (
        #[trigger] post.cards@[stf.battlefield.0@[j] as int]).show_front == ShowFront(true) by {
            if j < st.battlefield.0@.len() {
                assert(stf.battlefield.0@[j] == st.battlefield.0@[j]);
            } else {
                assert(stf.battlefield.0@[j] == c);
                assert(post.cards@[c as int] == pre.cards@[c as int].played());
            }
        }
    }

    /// Apply a draw intent: move up to `amount` cards from the top of the
    /// named player's deck to the end of that player's hand, in deck order.
    /// Drawing from a short or empty deck moves what is there and never
    /// fails. Moved cards take the face their new owner prescribes: front up
    /// for the human player, front down for the opponent.
    pub fn draw_cards(&mut self, event: &DrawCard)
        requires
            old(self).zones_wf(),
        ensures
            draw_effect(
                old(self).state_of(event.player),
                final(self).state_of(event.player),
                old(self).cards@,
                final(self).cards@,
                event.amount as int,
                event.player == PlayerReference::Player,
            ),
            final(self).state_of(event.player.spec_other()) == old(self).state_of(
                event.player.spec_other(),
            ),
            final(self).turn == old(self).turn,
            final(self).whos_turn == old(self).whos_turn,
            final(self).pending_play == old(self).pending_play,
            final(self).zones_wf(),
            crate::card::same_stats(old(self).cards@, final(self).cards@),
    {
        match event.player {
            PlayerReference::Player => draw_for(
                &mut self.player,
                &mut self.cards,
                event.amount,
                true,
            ),
            PlayerReference::Ai => draw_for(&mut self.opponent, &mut self.cards, event.amount, false),
        }
        proof {
            self.lemma_draw_preserves_zones_wf(*old(self), event.player, event.amount as int);
        }
    }

    /// Zone well-formedness survives a draw: the moved indices leave the
    /// deck multiset and enter the hand multiset unchanged in sum.
    proof fn lemma_draw_preserves_zones_wf(self, pre: Session, p: PlayerReference, amount: int)
        requires
            0 <= amount,
            pre.zones_wf(),
            draw_effect(
                pre.state_of(p),
                self.state_of(p),
                pre.cards@,
                self.cards@,
                amount,
                p == PlayerReference::Player,
            ),
            self.state_of(p.spec_other()) == pre.state_of(p.spec_other()),
        ensures
            self.zones_wf(),
    {
        broadcast use vstd::multiset::group_multiset_axioms;

        let st = pre.state_of(p);
        let d = st.deck.0@.len() as int;
        let k = if amount <= d {
            amount
        } else {
            d
        };
        let start = d - k;
        let drawn = st.deck.0@.subrange(start, d);
        lemma_split_multiset(st.deck.0@, start);
        lemma_concat_multiset(st.hand.0@, drawn);
        assert(self.zones_multiset() =~= pre.zones_multiset());
        assert(self.zones_multiset() == ids_up_to(self.cards@.len()).to_multiset());
        assert forall|kk: int| 0 <= kk < self.state_of(p).hand.0@.len() implies (
        #[trigger] self.state_of(p).hand.0@[kk]) < self.n_cards() by {
            if kk >= st.hand.0@.len() {
                assert(self.state_of(p).hand.0@[kk] == st.deck.0@[start + (kk - st.hand.0@.len())]);
            }
        }
    }
}

} // verus!
