//! The session: all mutable game state of one combat, and its invariants.
//!
//! A session owns a table of instantiated cards and, for each of the two
//! players, three zones holding indices into that table. All state changes go
//! through the operations defined on [`Session`]; the invariants say that the
//! zones partition the table, that each crowd value equals the size of the
//! owner's battlefield, that hand legality flags match the cost gate, and
//! that every card shows the face its zone prescribes.

use crate::battlefield::{crowd_of, BattleField};
use crate::card::{Card, CardGray, CardInfo, Deck, ShowFront};
use crate::data::{OpponentInfo, PlayerInfo};
use crate::deck::{copied_card_list, GlobalCards};
use crate::hand::{Hand, PlayCard, PlayError};
use crate::zones::{ids_up_to, lemma_concat_multiset, lemma_ids_up_to_count};
use vstd::multiset::Multiset;
use vstd::prelude::*;

verus! {

/// One of the two fixed players of a session.
#[derive(Clone, Copy, PartialEq, Eq, Structural, Hash, Debug)]
pub enum PlayerReference {
    /// The human side.
    Player,
    /// The non-human side.
    Ai,
}

impl PlayerReference {
    /// The opposing player.
    pub open spec fn spec_other(self) -> PlayerReference {
        match self {
            PlayerReference::Player => PlayerReference::Ai,
            PlayerReference::Ai => PlayerReference::Player,
        }
    }

    /// The opposing player.
    pub fn other(self) -> (r: PlayerReference)
        ensures
            r == self.spec_other(),
    {
        match self {
            PlayerReference::Player => PlayerReference::Ai,
            PlayerReference::Ai => PlayerReference::Player,
        }
    }
}

/// The phase within a turn. Phases cycle in declaration order; the attack,
/// defense, combat-resolution and healing phases are placeholders with no
/// effect of their own, passed through so that a completed play reaches the
/// end of the turn.
#[derive(Clone, Copy, PartialEq, Eq, Structural, Hash, Debug)]
pub enum TurnState {
    DrawCard,
    PlayCreature,
    SelectAttackers,
    SelectDefenders,
    ResolveCombat,
    Heal,
    EndOfTurn,
}

impl TurnState {
    /// The phase that follows this one in the turn cycle.
    pub open spec fn successor(self) -> TurnState {
        match self {
            TurnState::DrawCard => TurnState::PlayCreature,
            TurnState::PlayCreature => TurnState::SelectAttackers,
            TurnState::SelectAttackers => TurnState::SelectDefenders,
            TurnState::SelectDefenders => TurnState::ResolveCombat,
            TurnState::ResolveCombat => TurnState::Heal,
            TurnState::Heal => TurnState::EndOfTurn,
            TurnState::EndOfTurn => TurnState::DrawCard,
        }
    }
}

/// The single process-wide selector of whose turn is in progress.
#[derive(Clone, Copy, PartialEq, Eq, Structural, Hash, Debug)]
pub struct WhosTurnIsIt(pub PlayerReference);

/// Everything the session tracks for one player.
#[derive(Clone, PartialEq, Eq, Debug)]
pub struct PlayerState {
    pub max_hp: u8,
    pub current_hp: u8,
    /// Derived resource: always the size of this player's battlefield.
    pub crowd: u8,
    pub deck: Deck,
    pub hand: Hand,
    pub battlefield: BattleField,
}

/// All mutable state of one combat session.
#[derive(Clone, PartialEq, Eq, Debug)]
pub struct Session {
    /// The card table; zones refer to cards by index into it.
    pub cards: Vec<Card>,
    pub player: PlayerState,
    pub opponent: PlayerState,
    /// The current phase, a single global value.
    pub turn: TurnState,
    /// The active player, toggled only at end of turn.
    pub whos_turn: WhosTurnIsIt,
    /// A play intent issued by the opponent policy, waiting to be applied.
    pub pending_play: Option<PlayCard>,
}

/// The sprite-sheet cell of the turn icon for phase `t`; phases without a
/// cell of their own keep the shown cell `current`.
pub open spec fn turn_icon_index(t: TurnState, current: int) -> int {
    match t {
        TurnState::PlayCreature => 0,
        TurnState::SelectAttackers => 1,
        TurnState::SelectDefenders => 2,
        TurnState::ResolveCombat => 3,
        _ => current,
    }
}

/// Pick the sprite-sheet cell the turn icon shows for `turn`, keeping the
/// current cell in phases that have none of their own.
pub fn update_turn_icon_display(turn: &TurnState, current: usize) -> (r: usize)
    ensures
        r as int == turn_icon_index(*turn, current as int),
{
    match turn {
        TurnState::PlayCreature => 0,
        TurnState::SelectAttackers => 1,
        TurnState::SelectDefenders => 2,
        TurnState::ResolveCombat => 3,
        _ => current,
    }
}

/// Render a player's crowd value for its on-screen counter.
pub fn update_crowd_text(crowd: u8) -> (r: String)
    ensures
        r@ == crate::card::dec_str(crowd as int),
{
    let mut out = String::new();
    crate::card::push_decimal(&mut out, crowd);
    proof {
        assert(out@ =~= crate::card::dec_str(crowd as int));
    }
    out
}

/// Recompute the legality flag of every card of `hand` against `crowd`:
/// the flag becomes `true` exactly when the card's cast cost is affordable.
fn set_allowed_for(hand: &Hand, crowd: u8, cards: &mut Vec<Card>)
    requires
        zone_ids_valid(hand.0@, old(cards)@.len() as int),
    ensures
        final(cards)@.len() == old(cards)@.len(),
        crate::card::same_but_flags(old(cards)@, final(cards)@),
        forall|id: int|
            0 <= id < old(cards)@.len() && !hand.0@.contains(id as usize) ==> final(cards)@[id]
                == old(cards)@[id],
        forall|k: int|
            0 <= k < hand.0@.len() ==> final(cards)@[#[trigger] hand.0@[k] as int] == old(
                cards,
            )@[hand.0@[k] as int].with_allowed(
                old(cards)@[hand.0@[k] as int].info.gameplay.cast_crowd <= crowd,
            ),
{
    let ghost cards0 = cards@;
    let mut k: usize = 0;
    while k < hand.0.len()
        invariant
            k <= hand.0@.len(),
            zone_ids_valid(hand.0@, cards0.len() as int),
            cards@.len() == cards0.len(),
            forall|id: int|
                0 <= id < cards0.len() && !hand.0@.contains(id as usize) ==> cards@[id]
                    == cards0[id],
            forall|kk: int|
                0 <= kk < k ==> cards@[#[trigger] hand.0@[kk] as int] == cards0[hand.0@[kk]
                    as int].with_allowed(
                    cards0[hand.0@[kk] as int].info.gameplay.cast_crowd <= crowd,
                ),
            forall|id: int|
                0 <= id < cards0.len() ==> cards@[id] == cards0[id] || cards@[id]
                    == cards0[id].with_allowed(cards0[id].info.gameplay.cast_crowd <= crowd),
        decreases hand.0@.len() - k,
    {
        let id = hand.0[k];
        let mut c = cards[id];
        c.allowed = c.info.gameplay.cast_crowd <= crowd;
        assert(c == cards0[id as int].with_allowed(
            cards0[id as int].info.gameplay.cast_crowd <= crowd,
        ));
        cards.set(id, c);
        k = k + 1;
    }
}

/// Instantiate one card for each definition of `infos`, appending them to
/// the card table, and return the deck zone holding their indices in the
/// same order.
pub fn spawn_deck(cards: &mut Vec<Card>, infos: &Vec<CardInfo>) -> (d: Deck)
    ensures
        final(cards)@.len() == old(cards)@.len() + infos@.len(),
        forall|k: int| 0 <= k < old(cards)@.len() ==> (#[trigger] final(cards)@[k]) == old(cards)@[k],
        forall|k: int|
            0 <= k < infos@.len() ==> final(cards)@[old(cards)@.len() + k]
                == Card::spec_from_info(#[trigger] infos@[k]),
        d.0@.len() == infos@.len(),
        forall|k: int| 0 <= k < infos@.len() ==> (#[trigger] d.0@[k]) as int == old(cards)@.len() + k,
{
    let ghost cards0 = cards@;
    let mut ids: Vec<usize> = Vec::new();
    let mut k: usize = 0;
    while k < infos.len()
        invariant
            k <= infos@.len(),
            cards@.len() == cards0.len() + k,
            forall|j: int| 0 <= j < cards0.len() ==> (#[trigger] cards@[j]) == cards0[j],
            forall|j: int|
                0 <= j < k ==> cards@[cards0.len() + j] == Card::spec_from_info(
                    #[trigger] infos@[j],
                ),
            ids@.len() == k,
            forall|j: int| 0 <= j < k ==> (#[trigger] ids@[j]) as int == cards0.len() + j,
        decreases infos@.len() - k,
    {
        let id = cards.len();
        cards.push(Card::from_info(&infos[k]));
        ids.push(id);
        k = k + 1;
    }
    Deck(ids)
}

/// Build both starting decks from the configured deck lists: the human
/// player's cards first in the table, the opponent's after them.
pub fn spawn_decks(
    cards: &mut Vec<Card>,
    player_info: &PlayerInfo,
    opponent_info: &OpponentInfo,
) -> (decks: (Deck, Deck))
    ensures
        final(cards)@.len() == old(cards)@.len() + player_info.deck@.len()
            + opponent_info.deck@.len(),
        forall|k: int| 0 <= k < old(cards)@.len() ==> (#[trigger] final(cards)@[k]) == old(cards)@[k],
        forall|k: int|
            0 <= k < player_info.deck@.len() ==> final(cards)@[old(cards)@.len() + k]
                == Card::spec_from_info(#[trigger] player_info.deck@[k]),
        forall|k: int|
            0 <= k < opponent_info.deck@.len() ==> final(cards)@[old(cards)@.len()
                + player_info.deck@.len() + k] == Card::spec_from_info(
                #[trigger] opponent_info.deck@[k],
            ),
        decks.0.0@.len() == player_info.deck@.len(),
        forall|k: int|
            0 <= k < player_info.deck@.len() ==> (#[trigger] decks.0.0@[k]) as int == old(
                cards,
            )@.len() + k,
        decks.1.0@.len() == opponent_info.deck@.len(),
        forall|k: int|
            0 <= k < opponent_info.deck@.len() ==> (#[trigger] decks.1.0@[k]) as int == old(
                cards,
            )@.len() + player_info.deck@.len() + k,
{
    let player_deck = spawn_deck(cards, &player_info.deck);
    let ai_deck = spawn_deck(cards, &opponent_info.deck);
    (player_deck, ai_deck)
}

/// Build the initial per-player states from the static configuration: full
/// hit points as configured, an empty crowd, and empty zones.
pub fn spawn_player_info_objects(player_info: &PlayerInfo, opponent_info: &OpponentInfo) -> (r: (
    PlayerState,
    PlayerState,
))
    ensures
        r.0.max_hp == player_info.max_hp,
        r.0.current_hp == player_info.current_hp,
        r.0.crowd == 0,
        r.0.deck.0@ == Seq::<usize>::empty(),
        r.0.hand.0@ == Seq::<usize>::empty(),
        r.0.battlefield.0@ == Seq::<usize>::empty(),
        r.1.max_hp == opponent_info.hp,
        r.1.current_hp == opponent_info.hp,
        r.1.crowd == 0,
        r.1.deck.0@ == Seq::<usize>::empty(),
        r.1.hand.0@ == Seq::<usize>::empty(),
        r.1.battlefield.0@ == Seq::<usize>::empty(),
{
    let player = PlayerState {
        max_hp: player_info.max_hp,
        current_hp: player_info.current_hp,
        crowd: 0,
        deck: Deck(Vec::new()),
        hand: Hand(Vec::new()),
        battlefield: BattleField(Vec::new()),
    };
    let ai = PlayerState {
        max_hp: opponent_info.hp,
        current_hp: opponent_info.hp,
        crowd: 0,
        deck: Deck(Vec::new()),
        hand: Hand(Vec::new()),
        battlefield: BattleField(Vec::new()),
    };
    (player, ai)
}

/// Hand the test deck list to both sides: the human player's configuration
/// gets the registry's deck, and the opponent enters with twenty hit points
/// and the same deck.
pub fn create_test_combat(player: &mut PlayerInfo, cards: &GlobalCards) -> (r: OpponentInfo)
    ensures
        final(player).deck@ == cards.0@,
        final(player).max_hp == old(player).max_hp,
        final(player).current_hp == old(player).current_hp,
        r.hp == 20,
        r.deck@ == cards.0@,
{
    player.deck = copied_card_list(&cards.0);
    OpponentInfo { hp: 20, deck: copied_card_list(&cards.0) }
}

/// The two sessions agree on every zone, every hit-point value and, card by
/// card, on everything but the derived legality and grayed-out flags: only
/// those flags, the crowd values, the phase bookkeeping and the pending
/// intent may differ.
pub open spec fn same_shape(a: Session, b: Session) -> bool {
    &&& b.player.deck == a.player.deck
    &&& b.player.hand == a.player.hand
    &&& b.player.battlefield == a.player.battlefield
    &&& b.player.max_hp == a.player.max_hp
    &&& b.player.current_hp == a.player.current_hp
    &&& b.opponent.deck == a.opponent.deck
    &&& b.opponent.hand == a.opponent.hand
    &&& b.opponent.battlefield == a.opponent.battlefield
    &&& b.opponent.max_hp == a.opponent.max_hp
    &&& b.opponent.current_hp == a.opponent.current_hp
    &&& crate::card::same_but_flags(a.cards@, b.cards@)
}

/// The play intent a tick consumes: the human player's focused legal card
/// on a click while the human side is active, or the opponent policy's
/// pending intent while the other side is.
pub open spec fn tick_intent(s: Session, human_click: bool) -> Option<PlayCard> {
    match s.whos_turn.0 {
        PlayerReference::Player => if human_click {
            match crate::hand::first_focused_allowed(s.cards@, s.player.hand.0@, 0) {
                Some(i) => Some(
                    PlayCard {
                        player: PlayerReference::Player,
                        card: s.player.hand.0@[i],
                        hand_index: i as usize,
                    },
                ),
                None => None,
            }
        } else {
            None
        },
        PlayerReference::Ai => s.pending_play,
    }
}

/// Every index in `z` addresses a card of a table of length `n`.
pub open spec fn zone_ids_valid(z: Seq<usize>, n: int) -> bool {
    forall|k: int| 0 <= k < z.len() ==> (#[trigger] z[k]) < n
}

/// Every card of zone `z` shows the face `front` prescribes.
pub open spec fn zone_faces(cards: Seq<Card>, z: Seq<usize>, front: bool) -> bool {
    forall|k: int| 0 <= k < z.len() ==> (#[trigger] cards[z[k] as int].show_front) == ShowFront(
        front,
    )
}

impl Session {
    /// The zone state of one player.
    pub open spec fn state_of(self, p: PlayerReference) -> PlayerState {
        match p {
            PlayerReference::Player => self.player,
            PlayerReference::Ai => self.opponent,
        }
    }

    /// Number of cards in the table.
    pub open spec fn n_cards(self) -> int {
        self.cards@.len() as int
    }

    /// The card indices held by all six zones together, as a multiset.
    pub open spec fn zones_multiset(self) -> Multiset<usize> {
        self.player.deck.0@.to_multiset().add(self.player.hand.0@.to_multiset()).add(
            self.player.battlefield.0@.to_multiset(),
        ).add(self.opponent.deck.0@.to_multiset()).add(self.opponent.hand.0@.to_multiset()).add(
            self.opponent.battlefield.0@.to_multiset(),
        )
    }

    /// How often card `x` occurs across all six zones.
    pub open spec fn zone_count(self, x: usize) -> int {
        self.player.deck.0@.to_multiset().count(x) as int + self.player.hand.0@.to_multiset().count(
            x,
        ) as int + self.player.battlefield.0@.to_multiset().count(x) as int
            + self.opponent.deck.0@.to_multiset().count(x) as int
            + self.opponent.hand.0@.to_multiset().count(x) as int
            + self.opponent.battlefield.0@.to_multiset().count(x) as int
    }

    /// Zone well-formedness: every zone index addresses the card table, and
    /// the six zones together hold each table index exactly once.
    pub open spec fn zones_wf(self) -> bool {
        &&& zone_ids_valid(self.player.deck.0@, self.n_cards())
        &&& zone_ids_valid(self.player.hand.0@, self.n_cards())
        &&& zone_ids_valid(self.player.battlefield.0@, self.n_cards())
        &&& zone_ids_valid(self.opponent.deck.0@, self.n_cards())
        &&& zone_ids_valid(self.opponent.hand.0@, self.n_cards())
        &&& zone_ids_valid(self.opponent.battlefield.0@, self.n_cards())
        &&& self.zones_multiset() == ids_up_to(self.cards@.len()).to_multiset()
    }

    /// Ledger consistency: each crowd value is the size of the owner's
    /// battlefield (clamped to the resource type).
    pub open spec fn ledger_ok(self) -> bool {
        &&& self.player.crowd == crowd_of(self.player.battlefield.0@.len())
        &&& self.opponent.crowd == crowd_of(self.opponent.battlefield.0@.len())
    }

    /// The legality flags of one hand match the cost gate against `crowd`.
    pub open spec fn hand_legality_ok(cards: Seq<Card>, hand: Seq<usize>, crowd: u8) -> bool {
        forall|k: int|
            0 <= k < hand.len() ==> ((#[trigger] cards[hand[k] as int].allowed) <==> cards[hand[k]
                as int].info.gameplay.cast_crowd <= crowd)
    }

    /// Legality correctness for every card currently in a hand.
    pub open spec fn legality_ok(self) -> bool {
        &&& Self::hand_legality_ok(self.cards@, self.player.hand.0@, self.player.crowd)
        &&& Self::hand_legality_ok(self.cards@, self.opponent.hand.0@, self.opponent.crowd)
    }

    /// The grayed-out flag of every hand card is the inverse of its legality.
    pub open spec fn gray_ok(self) -> bool {
        &&& forall|k: int|
            0 <= k < self.player.hand.0@.len() ==> (#[trigger] self.cards@[self.player.hand.0@[k]
                as int].gray) == CardGray(!self.cards@[self.player.hand.0@[k] as int].allowed)
        &&& forall|k: int|
            0 <= k < self.opponent.hand.0@.len() ==> (#[trigger] self.cards@[self.opponent.hand.0@[
                k] as int].gray) == CardGray(
                !self.cards@[self.opponent.hand.0@[k] as int].allowed,
            )
    }

    /// Visible-face rule: battlefield cards and the human player's hand cards
    /// show their front; deck cards and the opponent's hand cards do not.
    pub open spec fn faces_ok(self) -> bool {
        &&& zone_faces(self.cards@, self.player.deck.0@, false)
        &&& zone_faces(self.cards@, self.opponent.deck.0@, false)
        &&& zone_faces(self.cards@, self.player.hand.0@, true)
        &&& zone_faces(self.cards@, self.opponent.hand.0@, false)
        &&& zone_faces(self.cards@, self.player.battlefield.0@, true)
        &&& zone_faces(self.cards@, self.opponent.battlefield.0@, true)
    }

    /// Everything that holds after every completed tick.
    pub open spec fn inv(self) -> bool {
        &&& self.zones_wf()
        &&& self.ledger_ok()
        &&& self.legality_ok()
        &&& self.gray_ok()
        &&& self.faces_ok()
    }

    /// Recompute the legality flag of every card currently in a hand: a hand
    /// card is legal to play exactly when its cast cost is at most its
    /// owner's crowd value. Cards outside the hands, the zones and the rest
    /// of each card are untouched.
    pub fn set_allowed_cards(&mut self)
        requires
            old(self).zones_wf(),
        ensures
            final(self).player == old(self).player,
            final(self).opponent == old(self).opponent,
            final(self).turn == old(self).turn,
            final(self).whos_turn == old(self).whos_turn,
            final(self).pending_play == old(self).pending_play,
            final(self).cards@.len() == old(self).cards@.len(),
            crate::card::same_but_flags(old(self).cards@, final(self).cards@),
            forall|id: int|
                0 <= id < old(self).cards@.len() && !old(self).player.hand.0@.contains(id as usize)
                    && !old(self).opponent.hand.0@.contains(id as usize) ==> (#[trigger] final(self).cards@[id]) == old(self).cards@[id],
            forall|k: int|
                0 <= k < old(self).player.hand.0@.len() ==> final(self).cards@[#[trigger] old(
                    self,
                ).player.hand.0@[k] as int] == old(self).cards@[old(
                    self,
                ).player.hand.0@[k] as int].with_allowed(
                    old(self).cards@[old(self).player.hand.0@[k] as int].info.gameplay.cast_crowd
                        <= old(self).player.crowd,
                ),
            forall|k: int|
                0 <= k < old(self).opponent.hand.0@.len() ==> final(self).cards@[#[trigger] old(
                    self,
                ).opponent.hand.0@[k] as int] == old(self).cards@[old(
                    self,
                ).opponent.hand.0@[k] as int].with_allowed(
                    old(self).cards@[old(self).opponent.hand.0@[k] as int].info.gameplay.cast_crowd
                        <= old(self).opponent.crowd,
                ),
            final(self).zones_wf(),
            final(self).legality_ok(),
            old(self).faces_ok() ==> final(self).faces_ok(),
    {
        let ghost pre = *self;
        proof {
            pre.lemma_zone_counts();
        }
        set_allowed_for(&self.player.hand, self.player.crowd, &mut self.cards);
        set_allowed_for(&self.opponent.hand, self.opponent.crowd, &mut self.cards);
        proof {
            broadcast use vstd::seq_lib::group_to_multiset_ensures;

            assert forall|k: int| 0 <= k < pre.player.hand.0@.len() implies self.cards@[
            #[trigger] pre.player.hand.0@[k] as int] == pre.cards@[pre.player.hand.0@[k]
                as int].with_allowed(
                pre.cards@[pre.player.hand.0@[k] as int].info.gameplay.cast_crowd
                    <= pre.player.crowd,
            ) by {
                let id = pre.player.hand.0@[k];
                assert(pre.player.hand.0@.contains(id));
                assert(pre.player.hand.0@.to_multiset().count(id) >= 1);
                if pre.opponent.hand.0@.contains(id) {
                    assert(pre.opponent.hand.0@.to_multiset().count(id) >= 1);
                    assert(pre.zone_count(id) >= 2);
                }
            }
            assert forall|k: int| 0 <= k < pre.opponent.hand.0@.len() implies self.cards@[
            #[trigger] pre.opponent.hand.0@[k] as int] == pre.cards@[pre.opponent.hand.0@[k]
                as int].with_allowed(
                pre.cards@[pre.opponent.hand.0@[k] as int].info.gameplay.cast_crowd
                    <= pre.opponent.crowd,
            ) by {
                let id = pre.opponent.hand.0@[k];
                assert(pre.opponent.hand.0@.contains(id));
                assert(pre.opponent.hand.0@.to_multiset().count(id) >= 1);
                if pre.player.hand.0@.contains(id) {
                    assert(pre.player.hand.0@.to_multiset().count(id) >= 1);
                    assert(pre.zone_count(id) >= 2);
                }
            }
            assert(self.zones_multiset() =~= pre.zones_multiset());
        }
    }

    /// Phase-entry hook of the draw phase: draw one card for the active
    /// player, then advance at once to the play phase.
    pub fn do_draw_card(&mut self)
        requires
            old(self).zones_wf(),
            old(self).turn == TurnState::DrawCard,
        ensures
            final(self).zones_wf(),
            crate::hand::draw_effect(
                old(self).state_of(old(self).whos_turn.0),
                final(self).state_of(old(self).whos_turn.0),
                old(self).cards@,
                final(self).cards@,
                1,
                old(self).whos_turn.0 == PlayerReference::Player,
            ),
            final(self).state_of(old(self).whos_turn.0.spec_other()) == old(self).state_of(
                old(self).whos_turn.0.spec_other(),
            ),
            final(self).turn == TurnState::PlayCreature,
            final(self).whos_turn == old(self).whos_turn,
            final(self).pending_play == old(self).pending_play,
            crate::card::same_stats(old(self).cards@, final(self).cards@),
    {
        let active = self.whos_turn.0;
        let event = crate::hand::DrawCard { player: active, amount: 1 };
        self.draw_cards(&event);
        self.turn = TurnState::PlayCreature;
    }

    /// Phase-entry hook of the end-of-turn phase: toggle the active player
    /// and wrap the phase back to the draw phase. Nothing else changes.
    pub fn do_end_of_turn(&mut self)
        requires
            old(self).turn == TurnState::EndOfTurn,
        ensures
            final(self).turn == TurnState::DrawCard,
            final(self).whos_turn == WhosTurnIsIt(old(self).whos_turn.0.spec_other()),
            final(self).player == old(self).player,
            final(self).opponent == old(self).opponent,
            final(self).cards == old(self).cards,
            final(self).pending_play == old(self).pending_play,
    {
        self.turn = TurnState::DrawCard;
        self.whos_turn = WhosTurnIsIt(self.whos_turn.0.other());
    }

    /// A play by the active player has been applied during the play phase:
    /// advance to the next phase. Nothing else changes.
    pub fn progress_turn_after_play(&mut self)
        requires
            old(self).turn == TurnState::PlayCreature,
        ensures
            final(self).turn == TurnState::SelectAttackers,
            final(self).whos_turn == old(self).whos_turn,
            final(self).player == old(self).player,
            final(self).opponent == old(self).opponent,
            final(self).cards == old(self).cards,
            final(self).pending_play == old(self).pending_play,
    {
        self.turn = TurnState::SelectAttackers;
    }

    /// Deal the opening hands: draw seven cards for the human player, then
    /// seven for the opponent, each from that player's own deck.
    pub fn setup_hands(&mut self)
        requires
            old(self).zones_wf(),
        ensures
            final(self).zones_wf(),
            ({
                let pd = old(self).player.deck.0@.len() as int;
                let pk = if 7 <= pd {
                    7int
                } else {
                    pd
                };
                let od = old(self).opponent.deck.0@.len() as int;
                let ok = if 7 <= od {
                    7int
                } else {
                    od
                };
                let pdrawn = old(self).player.deck.0@.subrange(pd - pk, pd);
                let odrawn = old(self).opponent.deck.0@.subrange(od - ok, od);
                &&& final(self).player.deck.0@ == old(self).player.deck.0@.subrange(0, pd - pk)
                &&& final(self).player.hand.0@ == old(self).player.hand.0@ + pdrawn
                &&& final(self).opponent.deck.0@ == old(self).opponent.deck.0@.subrange(0, od - ok)
                &&& final(self).opponent.hand.0@ == old(self).opponent.hand.0@ + odrawn
                &&& final(self).player.battlefield == old(self).player.battlefield
                &&& final(self).opponent.battlefield == old(self).opponent.battlefield
                &&& final(self).player.crowd == old(self).player.crowd
                &&& final(self).opponent.crowd == old(self).opponent.crowd
                &&& final(self).player.max_hp == old(self).player.max_hp
                &&& final(self).player.current_hp == old(self).player.current_hp
                &&& final(self).opponent.max_hp == old(self).opponent.max_hp
                &&& final(self).opponent.current_hp == old(self).opponent.current_hp
                &&& final(self).cards@.len() == old(self).cards@.len()
                &&& forall|id: int|
                    0 <= id < old(self).cards@.len() && !pdrawn.contains(id as usize)
                        && !odrawn.contains(id as usize) ==> (#[trigger] final(self).cards@[id])
                        == old(self).cards@[id]
                &&& forall|j: int|
                    pd - pk <= j < pd ==> final(self).cards@[(
                    #[trigger] old(self).player.deck.0@[j]) as int] == old(self).cards@[old(
                        self,
                    ).player.deck.0@[j] as int].with_face(true)
                &&& forall|j: int|
                    od - ok <= j < od ==> final(self).cards@[(
                    #[trigger] old(self).opponent.deck.0@[j]) as int] == old(self).cards@[old(
                        self,
                    ).opponent.deck.0@[j] as int].with_face(false)
            }),
            crate::card::same_stats(old(self).cards@, final(self).cards@),
            final(self).turn == old(self).turn,
            final(self).whos_turn == old(self).whos_turn,
            final(self).pending_play == old(self).pending_play,
    {
        let ghost pre = *self;
        proof {
            pre.lemma_zone_counts();
        }
        self.draw_cards(&crate::hand::DrawCard { player: PlayerReference::Player, amount: 7 });
        let ghost mid = *self;
        self.draw_cards(&crate::hand::DrawCard { player: PlayerReference::Ai, amount: 7 });
        proof {
            broadcast use vstd::seq_lib::group_to_multiset_ensures;

            let pd = pre.player.deck.0@.len() as int;
            let pk = if 7 <= pd {
                7int
            } else {
                pd
            };
            let od = pre.opponent.deck.0@.len() as int;
            let ok = if 7 <= od {
                7int
            } else {
                od
            };
            let pdrawn = pre.player.deck.0@.subrange(pd - pk, pd);
            let odrawn = pre.opponent.deck.0@.subrange(od - ok, od);
            assert forall|id: usize|
                pre.player.deck.0@.contains(id) && pre.opponent.deck.0@.contains(
                    id,
                ) implies false by {
                assert(pre.player.deck.0@.to_multiset().count(id) >= 1);
                assert(pre.opponent.deck.0@.to_multiset().count(id) >= 1);
                assert(pre.zone_count(id) >= 2);
            }
            assert forall|j: int| pd - pk <= j < pd implies self.cards@[(
            #[trigger] pre.player.deck.0@[j]) as int] == pre.cards@[pre.player.deck.0@[j]
                as int].with_face(true) by {
                let id = pre.player.deck.0@[j];
                assert(pdrawn[j - (pd - pk)] == id);
                assert(pre.player.deck.0@.contains(id));
                if odrawn.contains(id) {
                    let kk = choose|kk: int| 0 <= kk < odrawn.len() && odrawn[kk] == id;
                    assert(pre.opponent.deck.0@[od - ok + kk] == id);
                    assert(pre.opponent.deck.0@.contains(id));
                }
            }
            assert forall|j: int| od - ok <= j < od implies self.cards@[(
            #[trigger] pre.opponent.deck.0@[j]) as int] == pre.cards@[pre.opponent.deck.0@[j]
                as int].with_face(false) by {
                let id = pre.opponent.deck.0@[j];
                assert(pre.opponent.deck.0@.contains(id));
                assert(odrawn[j - (od - ok)] == id);
                assert(mid.opponent.deck.0@ == pre.opponent.deck.0@);
                if pdrawn.contains(id) {
                    let kk = choose|kk: int| 0 <= kk < pdrawn.len() && pdrawn[kk] == id;
                    assert(pre.player.deck.0@[pd - pk + kk] == id);
                    assert(pre.player.deck.0@.contains(id));
                }
            }
            assert forall|id: int| 0 <= id < pre.cards@.len() implies (#[trigger] self.cards@[id]).info
                == pre.cards@[id].info && self.cards@[id].current_hp
                == pre.cards@[id].current_hp by {
                vstd::std_specs::vec::axiom_spec_len(&pre.cards);
                assert((id as usize) as int == id);
                if pdrawn.contains(id as usize) {
                    let kk = choose|kk: int| 0 <= kk < pdrawn.len() && pdrawn[kk] == id as usize;
                    assert(pre.player.deck.0@[pd - pk + kk] == id as usize);
                    assert(self.cards@[(pre.player.deck.0@[pd - pk + kk]) as int] == pre.cards@[(
                    pre.player.deck.0@[pd - pk + kk]) as int].with_face(true));
                } else if odrawn.contains(id as usize) {
                    let kk = choose|kk: int| 0 <= kk < odrawn.len() && odrawn[kk] == id as usize;
                    assert(pre.opponent.deck.0@[od - ok + kk] == id as usize);
                    assert(self.cards@[(pre.opponent.deck.0@[od - ok + kk]) as int] == pre.cards@[(
                    pre.opponent.deck.0@[od - ok + kk]) as int].with_face(false));
                }
            }
        }
    }

    /// Start a combat session from the static configuration: instantiate
    /// every configured card into its owner's deck, deal seven cards to each
    /// hand, and derive the ledger, legality and presentation flags. The
    /// session begins in the draw phase with the human player active.
    pub fn setup_combat(player_info: &PlayerInfo, opponent_info: &OpponentInfo) -> (s: Session)
        ensures
            s.inv(),
            s.turn == TurnState::DrawCard,
            s.whos_turn == WhosTurnIsIt(PlayerReference::Player),
            s.pending_play == None::<PlayCard>,
            s.cards@.len() == player_info.deck@.len() + opponent_info.deck@.len(),
            forall|k: int|
                0 <= k < player_info.deck@.len() ==> (#[trigger] s.cards@[k]).info
                    == player_info.deck@[k],
            forall|k: int|
                0 <= k < opponent_info.deck@.len() ==> s.cards@[player_info.deck@.len() + k].info
                    == (#[trigger] opponent_info.deck@[k]),
            s.player.max_hp == player_info.max_hp,
            s.player.current_hp == player_info.current_hp,
            s.opponent.max_hp == opponent_info.hp,
            s.opponent.current_hp == opponent_info.hp,
            ({
                let n1 = player_info.deck@.len() as int;
                let k1 = if 7 <= n1 {
                    7int
                } else {
                    n1
                };
                let n2 = opponent_info.deck@.len() as int;
                let k2 = if 7 <= n2 {
                    7int
                } else {
                    n2
                };
                &&& s.player.deck.0@ == Seq::new((n1 - k1) as nat, |i: int| i as usize)
                &&& s.player.hand.0@ == Seq::new(k1 as nat, |i: int| (n1 - k1 + i) as usize)
                &&& s.opponent.deck.0@ == Seq::new((n2 - k2) as nat, |i: int| (n1 + i) as usize)
                &&& s.opponent.hand.0@ == Seq::new(
                    k2 as nat,
                    |i: int| (n1 + n2 - k2 + i) as usize,
                )
                &&& s.player.battlefield.0@ == Seq::<usize>::empty()
                &&& s.opponent.battlefield.0@ == Seq::<usize>::empty()
            }),
    {
        let mut cards: Vec<Card> = Vec::new();
        let decks = spawn_decks(&mut cards, player_info, opponent_info);
        let (mut pstate, mut ostate) = spawn_player_info_objects(player_info, opponent_info);
        pstate.deck = decks.0;
        ostate.deck = decks.1;
        let mut s = Session {
            cards,
            player: pstate,
            opponent: ostate,
            turn: TurnState::DrawCard,
            whos_turn: WhosTurnIsIt(PlayerReference::Player),
            pending_play: None,
        };
        let ghost s0 = s;
        let ghost n1 = player_info.deck@.len() as int;
        let ghost k1: int = if 7 <= n1 {
            7
        } else {
            n1
        };
        let ghost n2 = opponent_info.deck@.len() as int;
        let ghost k2: int = if 7 <= n2 {
            7
        } else {
            n2
        };
        proof {
            broadcast use vstd::multiset::group_multiset_axioms;
            broadcast use vstd::seq_lib::group_to_multiset_ensures;

            assert(Seq::<usize>::empty().to_multiset().len() == 0);
            assert forall|x: usize| Seq::<usize>::empty().to_multiset().count(x) == 0 by {
                assert(Seq::<usize>::empty().to_multiset().count(x)
                    <= Seq::<usize>::empty().to_multiset().len());
            }
            assert(s.player.deck.0@ + s.opponent.deck.0@ =~= ids_up_to(s.cards@.len()));
            lemma_concat_multiset(s.player.deck.0@, s.opponent.deck.0@);
            assert(s.zones_multiset() =~= ids_up_to(s.cards@.len()).to_multiset());
            assert(s.zones_wf());
            assert forall|k: int| 0 <= k < s.player.deck.0@.len() implies (
            #[trigger] s.cards@[s.player.deck.0@[k] as int]).show_front == ShowFront(false) by {
                assert(s.player.deck.0@[k] as int == k);
                assert(s.cards@[k] == Card::spec_from_info(player_info.deck@[k]));
            }
            assert forall|k: int| 0 <= k < s.opponent.deck.0@.len() implies (
            #[trigger] s.cards@[s.opponent.deck.0@[k] as int]).show_front == ShowFront(false) by {
                assert(s.opponent.deck.0@[k] as int == player_info.deck@.len() + k);
                assert(s.cards@[player_info.deck@.len() + k] == Card::spec_from_info(
                    opponent_info.deck@[k],
                ));
            }
            assert(s.faces_ok());
        }
        s.setup_hands();
        proof {
            let pdrawn = s0.player.deck.0@.subrange(n1 - k1, n1);
            let odrawn = s0.opponent.deck.0@.subrange(n2 - k2, n2);
            assert(s.player.deck.0@ == Seq::new((n1 - k1) as nat, |i: int| i as usize));
            assert(s.player.hand.0@ =~= pdrawn);
            assert(s.player.hand.0@ == Seq::new(k1 as nat, |i: int| (n1 - k1 + i) as usize));
            assert(s.opponent.deck.0@ == Seq::new((n2 - k2) as nat, |i: int| (n1 + i) as usize));
            assert(s.opponent.hand.0@ =~= odrawn);
            assert(s.opponent.hand.0@ == Seq::new(
                k2 as nat,
                |i: int| (n1 + n2 - k2 + i) as usize,
            ));
            assert forall|j: int| 0 <= j < s.player.deck.0@.len() implies (
            #[trigger] s.cards@[s.player.deck.0@[j] as int]).show_front == ShowFront(false) by {
                let id = s.player.deck.0@[j];
                assert(id as int == j);
                if pdrawn.contains(id) {
                    let kk = choose|kk: int| 0 <= kk < pdrawn.len() && pdrawn[kk] == id;
                    assert(s0.player.deck.0@[n1 - k1 + kk] == id);
                }
                if odrawn.contains(id) {
                    let kk = choose|kk: int| 0 <= kk < odrawn.len() && odrawn[kk] == id;
                    assert(s0.opponent.deck.0@[n2 - k2 + kk] == id);
                }
                assert(s.cards@[id as int] == s0.cards@[id as int]);
            }
            assert forall|j: int| 0 <= j < s.opponent.deck.0@.len() implies (
            #[trigger] s.cards@[s.opponent.deck.0@[j] as int]).show_front == ShowFront(false) by {
                let id = s.opponent.deck.0@[j];
                assert(id as int == n1 + j);
                if pdrawn.contains(id) {
                    let kk = choose|kk: int| 0 <= kk < pdrawn.len() && pdrawn[kk] == id;
                    assert(s0.player.deck.0@[n1 - k1 + kk] == id);
                }
                if odrawn.contains(id) {
                    let kk = choose|kk: int| 0 <= kk < odrawn.len() && odrawn[kk] == id;
                    assert(s0.opponent.deck.0@[n2 - k2 + kk] == id);
                }
                assert(s.cards@[id as int] == s0.cards@[id as int]);
            }
            assert forall|j: int| 0 <= j < s.player.hand.0@.len() implies (
            #[trigger] s.cards@[s.player.hand.0@[j] as int]).show_front == ShowFront(true) by {
                let id = s.player.hand.0@[j];
                assert(pdrawn[j] == id);
                assert(s0.player.deck.0@[n1 - k1 + j] == id);
                assert(s.cards@[id as int] == s0.cards@[id as int].with_face(true));
            }
            assert forall|j: int| 0 <= j < s.opponent.hand.0@.len() implies (
            #[trigger] s.cards@[s.opponent.hand.0@[j] as int]).show_front == ShowFront(false) by {
                let id = s.opponent.hand.0@[j];
                assert(odrawn[j] == id);
                assert(s0.opponent.deck.0@[n2 - k2 + j] == id);
                assert(s.cards@[id as int] == s0.cards@[id as int].with_face(false));
            }
            assert(s.faces_ok());
        }
        let ghost s1 = s;
        s.update_crowd_value();
        s.set_allowed_cards();
        s.show_allowed_cards();
        proof {
            assert forall|k: int| 0 <= k < player_info.deck@.len() implies (
            #[trigger] s.cards@[k]).info == player_info.deck@[k] by {
                assert(s0.cards@[k].info == player_info.deck@[k]);
                assert(s1.cards@[k].info == s0.cards@[k].info);
            }
            assert forall|k: int| 0 <= k < opponent_info.deck@.len() implies s.cards@[
            player_info.deck@.len() + k].info == (#[trigger] opponent_info.deck@[k]) by {
                let id = player_info.deck@.len() + k;
                assert(s0.cards@[id].info == opponent_info.deck@[k]);
                assert(s1.cards@[id].info == s0.cards@[id].info);
            }
        }
        s
    }

    /// In a well-formed session no zone holds the same card twice.
    pub proof fn lemma_zones_no_duplicates(self)
        requires
            self.zones_wf(),
        ensures
            self.player.deck.0@.no_duplicates(),
            self.player.hand.0@.no_duplicates(),
            self.player.battlefield.0@.no_duplicates(),
            self.opponent.deck.0@.no_duplicates(),
            self.opponent.hand.0@.no_duplicates(),
            self.opponent.battlefield.0@.no_duplicates(),
    {
        self.lemma_zone_counts();
        assert forall|x: usize| self.player.deck.0@.to_multiset().count(x) <= 1 by {
            assert(self.zone_count(x) <= 1);
        }
        assert forall|x: usize| self.player.hand.0@.to_multiset().count(x) <= 1 by {
            assert(self.zone_count(x) <= 1);
        }
        assert forall|x: usize| self.player.battlefield.0@.to_multiset().count(x) <= 1 by {
            assert(self.zone_count(x) <= 1);
        }
        assert forall|x: usize| self.opponent.deck.0@.to_multiset().count(x) <= 1 by {
            assert(self.zone_count(x) <= 1);
        }
        assert forall|x: usize| self.opponent.hand.0@.to_multiset().count(x) <= 1 by {
            assert(self.zone_count(x) <= 1);
        }
        assert forall|x: usize| self.opponent.battlefield.0@.to_multiset().count(x) <= 1 by {
            assert(self.zone_count(x) <= 1);
        }
        crate::zones::lemma_counts_below_one_no_duplicates(self.player.deck.0@);
        crate::zones::lemma_counts_below_one_no_duplicates(self.player.hand.0@);
        crate::zones::lemma_counts_below_one_no_duplicates(self.player.battlefield.0@);
        crate::zones::lemma_counts_below_one_no_duplicates(self.opponent.deck.0@);
        crate::zones::lemma_counts_below_one_no_duplicates(self.opponent.hand.0@);
        crate::zones::lemma_counts_below_one_no_duplicates(self.opponent.battlefield.0@);
    }

    /// One discrete tick of the session pipeline: the current phase's work
    /// runs to completion, and the ledger, legality and grayed-out flags
    /// are then re-derived from the resulting zones, so every invariant
    /// holds again when the tick returns.
    ///
    /// The draw phase draws one card for the active player and advances at
    /// once to the play phase; on the opponent's turn the policy then
    /// queues its intent, seeing the freshly drawn hand and fresh legality.
    /// The play phase consumes at most one intent — the human player's
    /// click while the human side is active, the queued one otherwise —
    /// applies it, reports the outcome, and advances only on success. The
    /// attack, defense, combat-resolution and healing phases are
    /// deliberate no-ops that step to their successor, and the end-of-turn
    /// phase toggles the active player and wraps to the draw phase. A turn
    /// with no legal play stalls in the play phase until an intent
    /// succeeds; no pass intent exists.
    pub fn tick(&mut self, human_click: bool) -> (outcome: Option<Result<usize, PlayError>>)
        requires
            old(self).zones_wf(),
            old(self).faces_ok(),
        ensures
            final(self).inv(),
            final(self).whos_turn.0 == (if old(self).turn == TurnState::EndOfTurn {
                old(self).whos_turn.0.spec_other()
            } else {
                old(self).whos_turn.0
            }),
            match old(self).turn {
                TurnState::DrawCard => {
                    let active = old(self).whos_turn.0;
                    let st = old(self).state_of(active);
                    let stf = final(self).state_of(active);
                    let d = st.deck.0@.len() as int;
                    let k: int = if 1 <= d {
                        1
                    } else {
                        d
                    };
                    &&& final(self).turn == TurnState::PlayCreature
                    &&& stf.deck.0@ == st.deck.0@.subrange(0, d - k)
                    &&& stf.hand.0@ == st.hand.0@ + st.deck.0@.subrange(d - k, d)
                    &&& stf.battlefield == st.battlefield
                    &&& stf.max_hp == st.max_hp
                    &&& stf.current_hp == st.current_hp
                    &&& final(self).state_of(active.spec_other()).deck == old(self).state_of(
                        active.spec_other(),
                    ).deck
                    &&& final(self).state_of(active.spec_other()).hand == old(self).state_of(
                        active.spec_other(),
                    ).hand
                    &&& final(self).state_of(active.spec_other()).battlefield == old(
                        self,
                    ).state_of(active.spec_other()).battlefield
                    &&& final(self).state_of(active.spec_other()).max_hp == old(self).state_of(
                        active.spec_other(),
                    ).max_hp
                    &&& final(self).state_of(active.spec_other()).current_hp == old(
                        self,
                    ).state_of(active.spec_other()).current_hp
                    &&& crate::card::same_stats(old(self).cards@, final(self).cards@)
                    &&& outcome == None::<Result<usize, PlayError>>
                    &&& (active == PlayerReference::Ai ==> final(self).ai_pending_ok())
                    &&& (active == PlayerReference::Player ==> final(self).pending_play == old(
                        self,
                    ).pending_play)
                },
                TurnState::PlayCreature => {
                    let intent = tick_intent(*old(self), human_click);
                    &&& (old(self).whos_turn.0 == PlayerReference::Ai
                        ==> final(self).pending_play is None)
                    &&& (old(self).whos_turn.0 == PlayerReference::Player
                        ==> final(self).pending_play == old(self).pending_play)
                    &&& match intent {
                        None => {
                            &&& final(self).turn == TurnState::PlayCreature
                            &&& same_shape(*old(self), *final(self))
                            &&& outcome == None::<Result<usize, PlayError>>
                        },
                        Some(pc) => {
                            let hand = old(self).state_of(pc.player).hand.0@;
                            if pc.hand_index as int >= hand.len() {
                                &&& outcome == Some(
                                    Err::<usize, PlayError>(PlayError::InvalidIndex),
                                )
                                &&& final(self).turn == TurnState::PlayCreature
                                &&& same_shape(*old(self), *final(self))
                            } else if !old(self).cards@[hand[pc.hand_index as int] as int].allowed {
                                &&& outcome == Some(Err::<usize, PlayError>(PlayError::NotLegal))
                                &&& final(self).turn == TurnState::PlayCreature
                                &&& same_shape(*old(self), *final(self))
                            } else {
                                let c = hand[pc.hand_index as int];
                                let st = old(self).state_of(pc.player);
                                let stf = final(self).state_of(pc.player);
                                &&& outcome == Some(Ok::<usize, PlayError>(c))
                                &&& final(self).turn == TurnState::SelectAttackers
                                &&& stf.hand.0@ == st.hand.0@.remove(pc.hand_index as int)
                                &&& stf.battlefield.0@ == st.battlefield.0@.push(c)
                                &&& stf.deck == st.deck
                                &&& final(self).state_of(pc.player.spec_other()).deck == old(
                                    self,
                                ).state_of(pc.player.spec_other()).deck
                                &&& final(self).state_of(pc.player.spec_other()).hand == old(
                                    self,
                                ).state_of(pc.player.spec_other()).hand
                                &&& final(self).state_of(pc.player.spec_other()).battlefield
                                    == old(self).state_of(pc.player.spec_other()).battlefield
                                &&& stf.max_hp == st.max_hp
                                &&& stf.current_hp == st.current_hp
                                &&& final(self).state_of(pc.player.spec_other()).max_hp == old(
                                    self,
                                ).state_of(pc.player.spec_other()).max_hp
                                &&& final(self).state_of(pc.player.spec_other()).current_hp
                                    == old(self).state_of(pc.player.spec_other()).current_hp
                                &&& crate::card::same_stats(old(self).cards@, final(self).cards@)
                                &&& final(self).cards@[c as int].show_front == ShowFront(true)
                            }
                        },
                    }
                },
                _ => {
                    &&& final(self).turn == old(self).turn.successor()
                    &&& same_shape(*old(self), *final(self))
                    &&& outcome == None::<Result<usize, PlayError>>
                    &&& final(self).pending_play == old(self).pending_play
                },
            },
    {
        let ghost pre = *self;
        let mut outcome: Option<Result<usize, PlayError>> = None;
        let mut run_ai = false;
        match self.turn {
            TurnState::DrawCard => {
                self.do_draw_card();
                proof {
                    Session::lemma_draw_preserves_faces(pre, *self, pre.whos_turn.0, 1);
                }
                run_ai = matches!(self.whos_turn.0, PlayerReference::Ai);
            },
            TurnState::PlayCreature => {
                let intent: Option<PlayCard> = match self.whos_turn.0 {
                    PlayerReference::Player => self.handle_play_input(human_click),
                    PlayerReference::Ai => {
                        let p = self.pending_play;
                        self.pending_play = None;
                        p
                    },
                };
                if let Some(pc) = intent {
                    let ghost before_play = *self;
                    let r = self.play_card(pc.player, pc.hand_index);
                    outcome = Some(r);
                    match r {
                        Ok(_) => {
                            proof {
                                Session::lemma_play_preserves_faces(
                                    before_play,
                                    *self,
                                    pc.player,
                                    pc.hand_index as int,
                                );
                            }
                            self.progress_turn_after_play();
                        },
                        Err(_) => {},
                    }
                }
            },
            TurnState::SelectAttackers => {
                self.turn = TurnState::SelectDefenders;
            },
            TurnState::SelectDefenders => {
                self.turn = TurnState::ResolveCombat;
            },
            TurnState::ResolveCombat => {
                self.turn = TurnState::Heal;
            },
            TurnState::Heal => {
                self.turn = TurnState::EndOfTurn;
            },
            TurnState::EndOfTurn => {
                self.do_end_of_turn();
            },
        }
        let ghost m1 = *self;
        self.update_crowd_value();
        let ghost m2 = *self;
        self.set_allowed_cards();
        let ghost m3 = *self;
        self.show_allowed_cards();
        proof {
            assert forall|id: int| 0 <= id < m1.cards@.len() implies (#[trigger] self.cards@[id]).info
                == m1.cards@[id].info && self.cards@[id].current_hp == m1.cards@[id].current_hp
                && self.cards@[id].show_front == m1.cards@[id].show_front && self.cards@[id].hovered
                == m1.cards@[id].hovered && self.cards@[id].focused == m1.cards@[id].focused by {
                assert(m2.cards@[id] == m1.cards@[id]);
                assert(m3.cards@[id].info == m2.cards@[id].info);
            }
            assert(crate::card::same_but_flags(m1.cards@, self.cards@));
            assert forall|id: int| 0 <= id < pre.cards@.len() implies (
            #[trigger] self.cards@[id]).info == pre.cards@[id].info && self.cards@[id].current_hp
                == pre.cards@[id].current_hp by {
                assert(m1.cards@[id].info == pre.cards@[id].info && m1.cards@[id].current_hp
                    == pre.cards@[id].current_hp);
            }
            assert(crate::card::same_stats(pre.cards@, self.cards@));
        }
        if run_ai {
            let choice = self.do_very_smart_ai_thing();
            self.pending_play = choice;
        }
        outcome
    }

    /// Zone disjointness: in a well-formed session the union of all
    /// players' deck, hand and battlefield zones holds each card of the
    /// table exactly once, and holds nothing else.
    pub proof fn lemma_zone_disjointness(self, id: usize)
        requires
            self.zones_wf(),
        ensures
            (id as int) < self.n_cards() ==> self.zone_count(id) == 1,
            (id as int) >= self.n_cards() ==> self.zone_count(id) == 0,
    {
        self.lemma_zone_counts();
    }

    /// Ledger consistency, exactly: whenever the card table fits the
    /// resource type, a consistent crowd value is the very size of its
    /// owner's battlefield, not merely its clamp.
    pub proof fn lemma_ledger_consistency(self)
        requires
            self.zones_wf(),
            self.ledger_ok(),
            self.n_cards() <= u8::MAX as int,
        ensures
            self.player.crowd as int == self.player.battlefield.0@.len() as int,
            self.opponent.crowd as int == self.opponent.battlefield.0@.len() as int,
    {
        broadcast use vstd::multiset::group_multiset_axioms;
        broadcast use vstd::seq_lib::group_to_multiset_ensures;

        assert(self.player.battlefield.0@.to_multiset().len()
            == self.player.battlefield.0@.len());
        assert(self.opponent.battlefield.0@.to_multiset().len()
            == self.opponent.battlefield.0@.len());
        assert(ids_up_to(self.cards@.len()).to_multiset().len() == ids_up_to(
            self.cards@.len(),
        ).len());
        assert(self.zones_multiset().len() == ids_up_to(self.cards@.len()).to_multiset().len());
    }

    /// Turn alternation: along any run of active players in which each
    /// entry is the other player of the one before it — which
    /// `do_end_of_turn` ensures at every completed turn — the active player
    /// alternates strictly between the two sides.
    pub proof fn lemma_turn_alternation(ps: Seq<PlayerReference>)
        requires
            forall|i: int|
                0 <= i < ps.len() - 1 ==> ps[i + 1] == (#[trigger] ps[i]).spec_other(),
        ensures
            forall|i: int|
                0 <= i < ps.len() ==> (#[trigger] ps[i]) == if i % 2 == 0 {
                    ps[0]
                } else {
                    ps[0].spec_other()
                },
    {
        assert forall|i: int|
            0 <= i < ps.len() implies (#[trigger] ps[i]) == if i % 2 == 0 {
            ps[0]
        } else {
            ps[0].spec_other()
        } by {
            Self::lemma_alternation_at(ps, i);
        }
    }

    /// The entry at `i` of an alternating run is determined by the parity
    /// of `i`.
    proof fn lemma_alternation_at(ps: Seq<PlayerReference>, i: int)
        requires
            forall|j: int|
                0 <= j < ps.len() - 1 ==> ps[j + 1] == (#[trigger] ps[j]).spec_other(),
            0 <= i < ps.len(),
        ensures
            ps[i] == if i % 2 == 0 {
                ps[0]
            } else {
                ps[0].spec_other()
            },
        decreases i,
    {
        if i > 0 {
            Self::lemma_alternation_at(ps, i - 1);
            assert(ps[(i - 1) + 1] == ps[i - 1].spec_other());
        }
    }

    /// In a well-formed session each table index is held exactly once across
    /// the six zones, and indices outside the table are held nowhere.
    pub proof fn lemma_zone_counts(self)
        requires
            self.zones_wf(),
        ensures
            forall|x: usize|
                self.zone_count(x) == if (x as int) < self.n_cards() {
                    1int
                } else {
                    0int
                },
    {
        broadcast use vstd::multiset::group_multiset_axioms;

        vstd::std_specs::vec::axiom_spec_len(&self.cards);
        assert forall|x: usize|
            self.zone_count(x) == if (x as int) < self.n_cards() {
                1int
            } else {
                0int
            } by {
            lemma_ids_up_to_count(self.cards@.len(), x);
            assert(self.zones_multiset().count(x) == self.zone_count(x));
        }
    }
}

} // verus!


