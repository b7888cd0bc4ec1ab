use crowd_cards::card::{Card, CardGameplayInfo, CardInfo};
use crowd_cards::data::{OpponentInfo, PlayerInfo};
use crowd_cards::deck::{GlobalCards, ART_GHOST, ART_PLACEHOLDER, DECK_MULTIPLIER};

fn test_unit() -> CardInfo {
    CardInfo {
        gameplay: CardGameplayInfo { cast_crowd: 0, minimum_crowd: 0, hp: 2, power: 2 },
        name: "Test Unit",
        art: ART_PLACEHOLDER,
        flavor_text: Some("Beep Boop, debugging is fun"),
    }
}

fn ghost_card() -> CardInfo {
    CardInfo {
        gameplay: CardGameplayInfo { cast_crowd: 1, minimum_crowd: 0, hp: 1, power: 1 },
        name: "Ghost",
        art: ART_GHOST,
        flavor_text: Some("I am very scary :P"),
    }
}

#[test]
fn registry_replicates_base_set() {
    let cards = GlobalCards::new();
    assert_eq!(cards.0.len(), 2 * DECK_MULTIPLIER);
    for (i, c) in cards.0.iter().enumerate() {
        if i % 2 == 0 {
            assert_eq!(*c, test_unit());
        } else {
            assert_eq!(*c, ghost_card());
        }
    }
}

#[test]
fn registry_card_stats() {
    let cards = GlobalCards::new();
    assert_eq!(cards.0[0].name, "Test Unit");
    assert_eq!(cards.0[0].gameplay.cast_crowd, 0);
    assert_eq!(cards.0[0].gameplay.hp, 2);
    assert_eq!(cards.0[0].gameplay.power, 2);
    assert_eq!(cards.0[1].name, "Ghost");
    assert_eq!(cards.0[1].gameplay.cast_crowd, 1);
    assert_eq!(cards.0[1].gameplay.hp, 1);
    assert_eq!(cards.0[1].gameplay.power, 1);
}

#[test]
fn card_instantiation_starts_face_down() {
    let c = Card::from_info(&ghost_card());
    assert!(!c.show_front.0);
    assert!(!c.allowed);
    assert!(!c.gray.0);
    assert!(!c.hovered.0);
    assert!(!c.focused.0);
    assert_eq!(c.current_hp, 1);
    assert_eq!(c.info, ghost_card());
}

#[test]
fn stat_and_cost_text_rendering() {
    let mut c = Card::from_info(&CardInfo {
        gameplay: CardGameplayInfo { cast_crowd: 1, minimum_crowd: 0, hp: 7, power: 123 },
        name: "Big",
        art: 0,
        flavor_text: None,
    });
    assert_eq!(crowd_cards::card::update_card_stats(&c), "123/7");
    assert_eq!(crowd_cards::card::update_card_crowd(&c), "0/1");
    c.current_hp = 42;
    assert_eq!(crowd_cards::card::update_card_stats(&c), "123/42");
    assert_eq!(crowd_cards::combat::update_crowd_text(0), "0");
    assert_eq!(crowd_cards::combat::update_crowd_text(42), "42");
    assert_eq!(crowd_cards::combat::update_crowd_text(255), "255");
}

#[test]
fn test_combat_configuration_mirrors_registry() {
    let cards = GlobalCards::new();
    let mut player = PlayerInfo { max_hp: 20, current_hp: 20, deck: Vec::new() };
    let opponent: OpponentInfo = crowd_cards::combat::create_test_combat(&mut player, &cards);
    assert_eq!(opponent.hp, 20);
    assert_eq!(opponent.deck, cards.0);
    assert_eq!(player.deck, cards.0);
    assert_eq!(player.max_hp, 20);
    assert_eq!(player.current_hp, 20);
}
