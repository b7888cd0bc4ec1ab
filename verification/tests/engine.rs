use crowd_cards::battlefield::BattleField;
use crowd_cards::card::{Card, CardGameplayInfo, CardInfo, Deck};
use crowd_cards::combat::{
    update_turn_icon_display, PlayerReference, PlayerState, Session, TurnState, WhosTurnIsIt,
};
use crowd_cards::data::{OpponentInfo, PlayerInfo};
use crowd_cards::deck::GlobalCards;
use crowd_cards::hand::{DrawCard, Hand, PlayCard, PlayError};

fn info(name: &'static str, cast: u8, hp: u8, power: u8) -> CardInfo {
    CardInfo {
        gameplay: CardGameplayInfo { cast_crowd: cast, minimum_crowd: 0, hp, power },
        name,
        art: 0,
        flavor_text: None,
    }
}

fn empty_state(hp: u8) -> PlayerState {
    PlayerState {
        max_hp: hp,
        current_hp: hp,
        crowd: 0,
        deck: Deck(Vec::new()),
        hand: Hand(Vec::new()),
        battlefield: BattleField(Vec::new()),
    }
}

/// A session whose whole card table sits in the zones given by index lists.
fn session_with(
    cards: Vec<Card>,
    player: PlayerState,
    opponent: PlayerState,
    active: PlayerReference,
    turn: TurnState,
) -> Session {
    Session {
        cards,
        player,
        opponent,
        turn,
        whos_turn: WhosTurnIsIt(active),
        pending_play: None,
    }
}

/// The scenario of the design notes: the opponent at crowd zero holds
/// a "Ghost" of cast cost one and a "Test Unit" of cast cost zero.
fn scenario() -> Session {
    let cards = vec![
        Card::from_info(&info("Ghost", 1, 1, 1)),
        Card::from_info(&info("Test Unit", 0, 2, 2)),
    ];
    let mut opponent = empty_state(20);
    opponent.hand = Hand(vec![0, 1]);
    session_with(cards, empty_state(20), opponent, PlayerReference::Ai, TurnState::PlayCreature)
}

#[test]
fn scenario_legality_and_ai_choice() {
    let mut s = scenario();
    s.set_allowed_cards();
    assert!(!s.cards[0].allowed);
    assert!(s.cards[1].allowed);
    let intent = s.do_very_smart_ai_thing();
    assert_eq!(
        intent,
        Some(PlayCard { player: PlayerReference::Ai, card: 1, hand_index: 1 })
    );
}

#[test]
fn scenario_play_application() {
    let mut s = scenario();
    s.set_allowed_cards();
    let r = s.play_card(PlayerReference::Ai, 1);
    assert_eq!(r, Ok(1));
    s.update_crowd_value();
    assert_eq!(s.opponent.hand.0, vec![0]);
    assert_eq!(s.cards[s.opponent.hand.0[0]].info.name, "Ghost");
    assert_eq!(s.opponent.battlefield.0, vec![1]);
    assert_eq!(s.cards[s.opponent.battlefield.0[0]].info.name, "Test Unit");
    assert_eq!(s.opponent.crowd, 1);
    assert!(s.cards[1].show_front.0);
}

#[test]
fn ai_is_deterministic() {
    let mut s = scenario();
    s.set_allowed_cards();
    let first = s.do_very_smart_ai_thing();
    let second = s.do_very_smart_ai_thing();
    assert_eq!(first, second);
}

#[test]
fn ai_passes_without_legal_card() {
    let cards = vec![Card::from_info(&info("Ghost", 1, 1, 1))];
    let mut opponent = empty_state(20);
    opponent.hand = Hand(vec![0]);
    let mut s = session_with(
        cards,
        empty_state(20),
        opponent,
        PlayerReference::Ai,
        TurnState::PlayCreature,
    );
    s.set_allowed_cards();
    assert_eq!(s.do_very_smart_ai_thing(), None);
}

#[test]
fn draw_moves_tail_in_order() {
    let cards = vec![
        Card::from_info(&info("A", 0, 1, 1)),
        Card::from_info(&info("B", 0, 1, 1)),
        Card::from_info(&info("C", 0, 1, 1)),
    ];
    let mut player = empty_state(20);
    player.deck = Deck(vec![0, 1, 2]);
    let mut s = session_with(
        cards,
        player,
        empty_state(20),
        PlayerReference::Player,
        TurnState::DrawCard,
    );
    s.draw_cards(&DrawCard { player: PlayerReference::Player, amount: 2 });
    assert_eq!(s.player.deck.0, vec![0]);
    assert_eq!(s.player.hand.0, vec![1, 2]);
    assert!(s.cards[1].show_front.0);
    assert!(s.cards[2].show_front.0);
    assert!(!s.cards[0].show_front.0);
}

#[test]
fn draw_from_short_deck_moves_what_is_there() {
    let cards = vec![
        Card::from_info(&info("A", 0, 1, 1)),
        Card::from_info(&info("B", 0, 1, 1)),
    ];
    let mut player = empty_state(20);
    player.deck = Deck(vec![0, 1]);
    let mut s = session_with(
        cards,
        player,
        empty_state(20),
        PlayerReference::Player,
        TurnState::DrawCard,
    );
    s.draw_cards(&DrawCard { player: PlayerReference::Player, amount: 7 });
    assert_eq!(s.player.deck.0, Vec::<usize>::new());
    assert_eq!(s.player.hand.0, vec![0, 1]);
}

#[test]
fn draw_from_empty_deck_is_a_no_op() {
    let cards = vec![Card::from_info(&info("A", 0, 1, 1))];
    let mut opponent = empty_state(20);
    opponent.hand = Hand(vec![0]);
    let mut s = session_with(
        cards,
        empty_state(20),
        opponent,
        PlayerReference::Ai,
        TurnState::DrawCard,
    );
    let before = s.clone();
    s.draw_cards(&DrawCard { player: PlayerReference::Ai, amount: 3 });
    assert_eq!(s, before);
}

#[test]
fn opponent_draw_stays_face_down() {
    let cards = vec![Card::from_info(&info("A", 0, 1, 1))];
    let mut opponent = empty_state(20);
    opponent.deck = Deck(vec![0]);
    let mut s = session_with(
        cards,
        empty_state(20),
        opponent,
        PlayerReference::Ai,
        TurnState::DrawCard,
    );
    s.draw_cards(&DrawCard { player: PlayerReference::Ai, amount: 1 });
    assert_eq!(s.opponent.hand.0, vec![0]);
    assert!(!s.cards[0].show_front.0);
}

#[test]
fn play_out_of_range_reports_invalid_index_and_changes_nothing() {
    let mut s = scenario();
    s.set_allowed_cards();
    let before = s.clone();
    let r = s.play_card(PlayerReference::Ai, 2);
    assert_eq!(r, Err(PlayError::InvalidIndex));
    assert_eq!(s, before);
}

#[test]
fn play_illegal_card_reports_not_legal_and_changes_nothing() {
    let mut s = scenario();
    s.set_allowed_cards();
    let before = s.clone();
    let r = s.play_card(PlayerReference::Ai, 0);
    assert_eq!(r, Err(PlayError::NotLegal));
    assert_eq!(s, before);
}

#[test]
fn play_shifts_later_hand_cards_down() {
    let cards = vec![
        Card::from_info(&info("A", 0, 1, 1)),
        Card::from_info(&info("B", 0, 1, 1)),
        Card::from_info(&info("C", 0, 1, 1)),
    ];
    let mut player = empty_state(20);
    player.hand = Hand(vec![0, 1, 2]);
    let mut s = session_with(
        cards,
        player,
        empty_state(20),
        PlayerReference::Player,
        TurnState::PlayCreature,
    );
    s.set_allowed_cards();
    let r = s.play_card(PlayerReference::Player, 1);
    assert_eq!(r, Ok(1));
    assert_eq!(s.player.hand.0, vec![0, 2]);
    assert_eq!(s.player.battlefield.0, vec![1]);
    assert!(s.cards[1].show_front.0);
    assert!(!s.cards[1].allowed);
    assert!(!s.cards[1].gray.0);
    assert!(!s.cards[1].focused.0);
}

#[test]
fn crowd_value_tracks_battlefield_size() {
    let mut s = scenario();
    s.set_allowed_cards();
    s.play_card(PlayerReference::Ai, 1).unwrap();
    s.update_crowd_value();
    assert_eq!(s.opponent.crowd as usize, s.opponent.battlefield.0.len());
    assert_eq!(s.player.crowd as usize, s.player.battlefield.0.len());
}

#[test]
fn crowd_value_clamps_at_the_resource_limit() {
    let mut cards = Vec::new();
    let mut field = Vec::new();
    for i in 0..300usize {
        cards.push(Card::from_info(&info("A", 0, 1, 1)));
        field.push(i);
    }
    let mut player = empty_state(20);
    player.battlefield = BattleField(field);
    let mut s = session_with(
        cards,
        player,
        empty_state(20),
        PlayerReference::Player,
        TurnState::PlayCreature,
    );
    s.update_crowd_value();
    assert_eq!(s.player.crowd, u8::MAX);
}

#[test]
fn turn_icon_mapping() {
    assert_eq!(update_turn_icon_display(&TurnState::PlayCreature, 3), 0);
    assert_eq!(update_turn_icon_display(&TurnState::SelectAttackers, 0), 1);
    assert_eq!(update_turn_icon_display(&TurnState::SelectDefenders, 0), 2);
    assert_eq!(update_turn_icon_display(&TurnState::ResolveCombat, 0), 3);
    assert_eq!(update_turn_icon_display(&TurnState::DrawCard, 2), 2);
    assert_eq!(update_turn_icon_display(&TurnState::Heal, 1), 1);
    assert_eq!(update_turn_icon_display(&TurnState::EndOfTurn, 3), 3);
}

fn standard_session() -> Session {
    let registry = GlobalCards::new();
    let mut player = PlayerInfo { max_hp: 20, current_hp: 20, deck: Vec::new() };
    let opponent: OpponentInfo = crowd_cards::combat::create_test_combat(&mut player, &registry);
    Session::setup_combat(&player, &opponent)
}

#[test]
fn setup_deals_seven_cards_each() {
    let s = standard_session();
    assert_eq!(s.cards.len(), 40);
    assert_eq!(s.player.deck.0.len(), 13);
    assert_eq!(s.player.hand.0.len(), 7);
    assert_eq!(s.player.battlefield.0.len(), 0);
    assert_eq!(s.opponent.deck.0.len(), 13);
    assert_eq!(s.opponent.hand.0.len(), 7);
    assert_eq!(s.opponent.battlefield.0.len(), 0);
    assert_eq!(s.player.crowd, 0);
    assert_eq!(s.opponent.crowd, 0);
    assert_eq!(s.turn, TurnState::DrawCard);
    assert_eq!(s.whos_turn, WhosTurnIsIt(PlayerReference::Player));
    assert_eq!(s.pending_play, None);
}

#[test]
fn setup_zones_hold_each_card_exactly_once() {
    let s = standard_session();
    let mut counts = vec![0usize; s.cards.len()];
    let zones = [
        &s.player.deck.0,
        &s.player.hand.0,
        &s.player.battlefield.0,
        &s.opponent.deck.0,
        &s.opponent.hand.0,
        &s.opponent.battlefield.0,
    ];
    for z in zones {
        for &id in z {
            counts[id] += 1;
        }
    }
    assert!(counts.iter().all(|&c| c == 1));
}

#[test]
fn setup_faces_follow_the_zone_rule() {
    let s = standard_session();
    for &id in &s.player.hand.0 {
        assert!(s.cards[id].show_front.0);
    }
    for &id in &s.opponent.hand.0 {
        assert!(!s.cards[id].show_front.0);
    }
    for &id in &s.player.deck.0 {
        assert!(!s.cards[id].show_front.0);
    }
    for &id in &s.opponent.deck.0 {
        assert!(!s.cards[id].show_front.0);
    }
}

#[test]
fn setup_legality_matches_cost_gate() {
    let s = standard_session();
    for &id in s.player.hand.0.iter().chain(s.opponent.hand.0.iter()) {
        let owner_crowd = if s.player.hand.0.contains(&id) {
            s.player.crowd
        } else {
            s.opponent.crowd
        };
        assert_eq!(s.cards[id].allowed, s.cards[id].info.gameplay.cast_crowd <= owner_crowd);
        assert_eq!(s.cards[id].gray.0, !s.cards[id].allowed);
    }
}

/// Drive one complete turn of the session, clicking for the human player.
fn complete_turn(s: &mut Session) {
    assert_eq!(s.turn, TurnState::DrawCard);
    s.tick(false);
    assert_eq!(s.turn, TurnState::PlayCreature);
    if s.whos_turn.0 == PlayerReference::Player {
        let target = s
            .player
            .hand
            .0
            .iter()
            .copied()
            .find(|&id| s.cards[id].allowed)
            .expect("an affordable card in hand");
        s.update_hover_state(&vec![target]);
        let outcome = s.tick(true);
        assert!(matches!(outcome, Some(Ok(_))));
    } else {
        let outcome = s.tick(false);
        assert!(matches!(outcome, Some(Ok(_))));
    }
    assert_eq!(s.turn, TurnState::SelectAttackers);
    s.tick(false);
    assert_eq!(s.turn, TurnState::SelectDefenders);
    s.tick(false);
    assert_eq!(s.turn, TurnState::ResolveCombat);
    s.tick(false);
    assert_eq!(s.turn, TurnState::Heal);
    s.tick(false);
    assert_eq!(s.turn, TurnState::EndOfTurn);
    s.tick(false);
    assert_eq!(s.turn, TurnState::DrawCard);
}

#[test]
fn active_player_alternates_strictly() {
    let mut s = standard_session();
    let mut actives = Vec::new();
    for _ in 0..4 {
        actives.push(s.whos_turn.0);
        complete_turn(&mut s);
    }
    assert_eq!(
        actives,
        vec![
            PlayerReference::Player,
            PlayerReference::Ai,
            PlayerReference::Player,
            PlayerReference::Ai,
        ]
    );
}

#[test]
fn tick_keeps_ledger_and_legality_fresh() {
    let mut s = standard_session();
    for _ in 0..8 {
        complete_turn(&mut s);
        assert_eq!(s.player.crowd as usize, s.player.battlefield.0.len());
        assert_eq!(s.opponent.crowd as usize, s.opponent.battlefield.0.len());
        for &id in s.player.hand.0.iter() {
            assert_eq!(s.cards[id].allowed, s.cards[id].info.gameplay.cast_crowd <= s.player.crowd);
        }
        for &id in s.opponent.hand.0.iter() {
            assert_eq!(
                s.cards[id].allowed,
                s.cards[id].info.gameplay.cast_crowd <= s.opponent.crowd
            );
        }
        let mut counts = vec![0usize; s.cards.len()];
        for z in [
            &s.player.deck.0,
            &s.player.hand.0,
            &s.player.battlefield.0,
            &s.opponent.deck.0,
            &s.opponent.hand.0,
            &s.opponent.battlefield.0,
        ] {
            for &id in z {
                counts[id] += 1;
            }
        }
        assert!(counts.iter().all(|&c| c == 1));
    }
}

#[test]
fn draw_tick_grows_the_active_hand_by_one() {
    let mut s = standard_session();
    let hand_before = s.player.hand.0.len();
    let deck_before = s.player.deck.0.len();
    let outcome = s.tick(false);
    assert_eq!(outcome, None);
    assert_eq!(s.player.hand.0.len(), hand_before + 1);
    assert_eq!(s.player.deck.0.len(), deck_before - 1);
    assert_eq!(s.turn, TurnState::PlayCreature);
}

#[test]
fn play_phase_without_intent_stalls() {
    let mut s = standard_session();
    s.tick(false);
    assert_eq!(s.turn, TurnState::PlayCreature);
    let outcome = s.tick(false);
    assert_eq!(outcome, None);
    assert_eq!(s.turn, TurnState::PlayCreature);
}

#[test]
fn ai_draw_tick_queues_the_lowest_index_legal_card() {
    let mut s = standard_session();
    complete_turn(&mut s);
    assert_eq!(s.whos_turn.0, PlayerReference::Ai);
    s.tick(false);
    let expected_index = s
        .opponent
        .hand
        .0
        .iter()
        .position(|&id| s.cards[id].allowed)
        .expect("an affordable card in hand");
    assert_eq!(
        s.pending_play,
        Some(PlayCard {
            player: PlayerReference::Ai,
            card: s.opponent.hand.0[expected_index],
            hand_index: expected_index,
        })
    );
}

#[test]
fn tick_reports_an_invalid_pending_intent() {
    let mut s = scenario();
    s.set_allowed_cards();
    s.pending_play = Some(PlayCard { player: PlayerReference::Ai, card: 0, hand_index: 99 });
    let before_zones = (s.opponent.hand.0.clone(), s.opponent.battlefield.0.clone());
    let outcome = s.tick(false);
    assert_eq!(outcome, Some(Err(PlayError::InvalidIndex)));
    assert_eq!(s.turn, TurnState::PlayCreature);
    assert_eq!(s.pending_play, None);
    assert_eq!((s.opponent.hand.0.clone(), s.opponent.battlefield.0.clone()), before_zones);
}

#[test]
fn hover_focuses_the_topmost_hovered_hand_card() {
    let mut s = standard_session();
    let low = s.player.hand.0[1];
    let high = s.player.hand.0[4];
    s.update_hover_state(&vec![low, high]);
    assert!(s.cards[low].hovered.0);
    assert!(s.cards[high].hovered.0);
    assert!(!s.cards[low].focused.0);
    assert!(s.cards[high].focused.0);
    for (i, &id) in s.player.hand.0.iter().enumerate() {
        if i != 4 {
            assert!(!s.cards[id].focused.0);
        }
    }
}

#[test]
fn input_without_click_is_ignored() {
    let mut s = standard_session();
    s.tick(false);
    let target = s.player.hand.0[0];
    s.update_hover_state(&vec![target]);
    assert_eq!(s.handle_play_input(false), None);
}

#[test]
fn input_click_plays_the_focused_legal_card() {
    let mut s = standard_session();
    s.tick(false);
    let target = s
        .player
        .hand
        .0
        .iter()
        .copied()
        .find(|&id| s.cards[id].allowed)
        .expect("an affordable card in hand");
    let index = s.player.hand.0.iter().position(|&id| id == target).unwrap();
    s.update_hover_state(&vec![target]);
    let intent = s.handle_play_input(true);
    assert_eq!(
        intent,
        Some(PlayCard { player: PlayerReference::Player, card: target, hand_index: index })
    );
}
