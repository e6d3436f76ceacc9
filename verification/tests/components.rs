//! Tests of the catalog, the deck/hand manager and the roster on their own.

use maverick::catalog::{
    archetype_ability, archetype_name, archetype_requirements, archetype_strength, CATALOG_LEN,
};
use maverick::deck::{build_deck, cards_check, discard, draw, refill, shuffled};
use maverick::monsters::{Monster, Monsters};
use maverick::{Ability, ToSlay};

#[test]
fn catalog_entries_match_the_table() {
    assert_eq!(CATALOG_LEN, 18);
    assert_eq!(archetype_name(0), "Banshee");
    assert_eq!(archetype_strength(0), 1);
    assert!(archetype_ability(0).is_none());
    assert_eq!(archetype_requirements(0), vec![ToSlay::Melee, ToSlay::Range]);

    assert_eq!(archetype_name(1), "Beholder");
    assert_eq!(
        archetype_requirements(1),
        vec![ToSlay::Range, ToSlay::Range, ToSlay::Range]
    );

    assert_eq!(archetype_name(7), "Golem");
    assert_eq!(archetype_strength(7), 3);
    assert!(matches!(archetype_ability(7), Some(Ability::Reign)));
    assert_eq!(archetype_requirements(7), vec![ToSlay::Melee]);

    assert_eq!(archetype_name(9), "Howler");
    assert!(matches!(archetype_ability(9), Some(Ability::Rally)));

    assert_eq!(archetype_name(6), "Ghost");
    assert_eq!(archetype_strength(6), 0);
    assert!(matches!(archetype_ability(6), Some(Ability::Noxious)));
    assert_eq!(archetype_requirements(6), vec![ToSlay::Move]);

    assert_eq!(archetype_name(17), "Werewolf");
    assert_eq!(archetype_requirements(17), vec![ToSlay::Melee, ToSlay::Melee]);

    for k in 0..CATALOG_LEN {
        assert!(archetype_strength(k) <= 5);
        let reqs = archetype_requirements(k);
        assert!(!reqs.is_empty() && reqs.len() <= 3);
        assert!(!archetype_name(k).is_empty());
    }
}

#[test]
fn build_deck_is_eight_of_each_value() {
    let deck = build_deck();
    assert_eq!(deck.len(), 40);
    for v in 1..=5u8 {
        assert_eq!(deck.iter().filter(|&&c| c == v).count(), 8);
    }
    assert!(cards_check(&deck));
}

#[test]
fn shuffle_keeps_the_cards() {
    let deck = build_deck();
    let mut before = deck.clone();
    let mut after = shuffled(deck);
    assert_eq!(after.len(), 40);
    before.sort();
    after.sort();
    assert_eq!(before, after, "a shuffle permutes, it never invents or drops a card");
}

#[test]
fn draw_consumes_the_tail() {
    let mut deck = vec![4u8, 2, 5];
    assert_eq!(draw(&mut deck), Some(5));
    assert_eq!(draw(&mut deck), Some(2));
    assert_eq!(draw(&mut deck), Some(4));
    assert_eq!(deck.len(), 0);
    assert_eq!(draw(&mut deck), None, "an empty deck is a plain outcome, not an error");
}

#[test]
fn discard_removes_exactly_the_chosen_card() {
    let mut hand = vec![1u8, 3, 5, 2];
    assert_eq!(discard(&mut hand, 2), 5);
    assert_eq!(hand, vec![1, 3, 2]);
    assert_eq!(discard(&mut hand, 0), 1);
    assert_eq!(hand, vec![3, 2]);
}

#[test]
fn refill_deals_from_the_tail_up_to_the_limit() {
    let mut hand = vec![9u8];
    let mut deck = vec![1u8, 2, 3];
    refill(&mut hand, &mut deck, 5);
    assert_eq!(hand, vec![3, 2, 1], "the old hand is gone; the deck tail deals in order");
    assert!(deck.is_empty());

    let mut hand = Vec::new();
    let mut deck = vec![1u8, 2, 3, 4, 5, 1, 2];
    refill(&mut hand, &mut deck, 5);
    assert_eq!(hand, vec![2, 1, 5, 4, 3]);
    assert_eq!(deck, vec![1, 2]);
}

#[test]
fn cards_check_rejects_bad_values() {
    assert!(cards_check(&vec![1u8, 5, 3]));
    assert!(!cards_check(&vec![1u8, 0, 3]));
    assert!(!cards_check(&vec![6u8]));
    assert!(cards_check(&Vec::new()));
}

#[test]
fn roster_draw_is_distinct_and_fresh() {
    let m = Monsters::init(18);
    assert_eq!(m.len(), 18);
    for i in 0..18 {
        assert!(m.roster[i].kind < CATALOG_LEN);
        assert!(m.roster[i].alive);
        assert_eq!(m.roster[i].strength_adjustment, 0);
        assert!(m.roster[i].current_hits.is_empty());
        for j in 0..i {
            assert_ne!(m.roster[i].kind, m.roster[j].kind);
        }
    }
    assert!(m.wf_check());
}

#[test]
fn rally_recompute_is_idempotent() {
    let mut m = Monsters {
        roster: vec![
            Monster { kind: 2, strength_adjustment: 0, current_hits: Vec::new(), alive: true },
            Monster { kind: 9, strength_adjustment: 0, current_hits: Vec::new(), alive: true },
            Monster { kind: 15, strength_adjustment: 0, current_hits: Vec::new(), alive: true },
            Monster { kind: 0, strength_adjustment: 0, current_hits: Vec::new(), alive: false },
        ],
    };
    assert!(m.wf_check());
    m.recompute_adjustments();
    let first: Vec<u8> = m.roster.iter().map(|x| x.strength_adjustment).collect();
    // Howler at 1 and Troglodyte at 2 are both Rally and alive; the dead
    // Banshee at 3 gets a buff too (markers and buffs land on corpses).
    assert_eq!(first, vec![1, 1, 1, 1]);
    m.recompute_adjustments();
    let second: Vec<u8> = m.roster.iter().map(|x| x.strength_adjustment).collect();
    assert_eq!(first, second, "recomputing twice changes nothing");
}

#[test]
fn kill_check_matches_requirements_as_a_multiset() {
    // Imp: two Move hits required.
    let mut m = Monsters {
        roster: vec![Monster {
            kind: 10,
            strength_adjustment: 0,
            current_hits: Vec::new(),
            alive: true,
        }],
    };
    m.record_hit(0, ToSlay::Move);
    assert!(!m.check_kill(0), "one Move of two is not enough");
    m.record_hit(0, ToSlay::Melee);
    m.record_hit(0, ToSlay::Range);
    assert!(!m.check_kill(0), "wrong tags never substitute");
    m.record_hit(0, ToSlay::Move);
    assert!(m.check_kill(0), "two Moves cover [Move, Move], whatever else landed");
    assert!(!m.roster[0].alive);
    assert!(m.roster[0].current_hits.is_empty());
    assert!(!m.check_kill(0), "a dead monster is never killed again");
    assert_eq!(m.dead_monsters(), 1);
}

#[test]
fn effective_strength_is_base_plus_adjustment() {
    let mut m = Monsters {
        roster: vec![
            Monster { kind: 3, strength_adjustment: 0, current_hits: Vec::new(), alive: true },
            Monster { kind: 9, strength_adjustment: 0, current_hits: Vec::new(), alive: true },
        ],
    };
    m.recompute_adjustments();
    assert_eq!(m.effective_strength(0), 6, "Demon 5 + 1 from the Howler");
    assert_eq!(m.effective_strength(1), 4, "the Howler gets nothing from itself");
    m.roster[1].alive = false;
    m.recompute_adjustments();
    assert_eq!(m.effective_strength(0), 5, "a dead Rally monster buffs nobody");
}
