//! End-to-end tests of the turn resolver, driven through `Game::update`.

use maverick::game::{CompanionKind, Game, PlayerKind, SelectedInput, State};
use maverick::monsters::{Monster, Monsters};
use maverick::{Action, Direction, Entity};

/// A monster fresh from the catalog: alive, unadjusted, no markers.
fn monster(kind: usize) -> Monster {
    Monster {
        kind,
        strength_adjustment: 0,
        current_hits: Vec::new(),
        alive: true,
    }
}

/// A session assembled by hand, in the Playing state with nothing selected.
fn game_with(kinds: &[usize], player_index: usize, hand: Vec<u8>, deck: Vec<u8>) -> Game {
    let roster: Vec<Monster> = kinds.iter().map(|&k| monster(k)).collect();
    let g = Game {
        state: State::Playing,
        monsters: Monsters { roster },
        player_index,
        player_kind: PlayerKind::Regular,
        companion_index: 0,
        companion_kind: CompanionKind::Melee,
        deck,
        hand,
        hand_limit: 5,
        current_action: None,
        current_card: None,
        discarded: false,
        payments: 1,
        trophies: 0,
    };
    assert!(g.validate(), "hand-built session must satisfy the invariant");
    g
}

#[test]
fn melee_exact_strength_kill_awards_trophy() {
    // Golem: base strength 3, kill requirement a single Melee hit.
    let kinds: Vec<usize> = vec![7, 0, 1, 2, 3, 4, 5, 6, 8, 9, 10, 11, 12];
    let mut g = game_with(&kinds, 0, vec![3, 1, 1, 1, 1], vec![2, 2, 4, 4, 5]);
    assert_eq!(g.monsters.len(), 13);
    g.update(SelectedInput::ActionSelected(Action::Melee(Entity::Character)));
    g.update(SelectedInput::CardSelected(0));
    assert!(!g.monsters.roster[0].alive, "exact hit satisfies [Melee] and kills");
    assert_eq!(g.trophies, 1, "exact-strength kill banks a trophy");
    assert_eq!(g.hand.len(), 4, "the played card is spent");
    assert!(matches!(g.state, State::Playing));
}

#[test]
fn melee_below_strength_spends_card_without_marker() {
    // Demon: base strength 5; a 2 bounces off.
    let kinds: Vec<usize> = vec![3, 0, 1];
    let mut g = game_with(&kinds, 0, vec![2, 4], vec![1, 2, 3]);
    g.update(SelectedInput::ActionSelected(Action::Melee(Entity::Character)));
    g.update(SelectedInput::CardSelected(0));
    assert!(g.monsters.roster[0].alive);
    assert!(g.monsters.roster[0].current_hits.is_empty(), "no marker below strength");
    assert_eq!(g.trophies, 0);
    assert_eq!(g.hand.len(), 1, "the card is spent even on a failed melee");
}

#[test]
fn melee_overkill_hits_without_trophy() {
    // Werewolf: base strength 2, needs two Melee hits; 5 > 2 marks, 2 == 2 kills.
    let kinds: Vec<usize> = vec![17, 0, 1];
    let mut g = game_with(&kinds, 0, vec![5, 2, 1], vec![1, 2, 3]);
    g.update(SelectedInput::ActionSelected(Action::Melee(Entity::Character)));
    g.update(SelectedInput::CardSelected(0));
    assert!(g.monsters.roster[0].alive, "one of two required hits is not a kill");
    assert_eq!(g.monsters.roster[0].current_hits.len(), 1);
    assert_eq!(g.trophies, 0, "an overkill hit never qualifies for a trophy");
    g.update(SelectedInput::ActionSelected(Action::Melee(Entity::Character)));
    g.update(SelectedInput::CardSelected(0));
    assert!(!g.monsters.roster[0].alive, "second hit completes [Melee, Melee]");
    assert_eq!(g.trophies, 1, "the killing hit was exact, so the trophy lands");
    assert!(g.monsters.roster[0].current_hits.is_empty(), "markers wiped on death");
}

#[test]
fn dead_monster_never_resurrects() {
    // Bug: strength 1, one Range hit kills it.
    let kinds: Vec<usize> = vec![2, 0, 1];
    let mut g = game_with(&kinds, 1, vec![1, 1, 1], vec![2, 3]);
    g.update(SelectedInput::ActionSelected(Action::Range(Entity::Character, Direction::Left)));
    g.update(SelectedInput::CardSelected(0));
    assert!(!g.monsters.roster[0].alive);
    assert_eq!(g.trophies, 1);
    // Melee the corpse (the companion stands on it): a marker lands,
    // nothing else changes.
    g.update(SelectedInput::ActionSelected(Action::Melee(Entity::Companion)));
    g.update(SelectedInput::CardSelected(0));
    assert!(!g.monsters.roster[0].alive, "a dead monster stays dead");
    assert_eq!(g.trophies, 1, "no second trophy from a corpse");
}

#[test]
fn range_miss_spends_exactly_one_card() {
    let kinds: Vec<usize> = vec![0, 1, 2];
    let mut g = game_with(&kinds, 0, vec![4, 2], vec![1, 2, 3]);
    // Shooting 4 to the left of position 0 leaves the row: a miss.
    g.update(SelectedInput::ActionSelected(Action::Range(Entity::Character, Direction::Left)));
    g.update(SelectedInput::CardSelected(0));
    assert_eq!(g.hand.len(), 1, "the card is spent on a miss");
    for m in &g.monsters.roster {
        assert!(m.current_hits.is_empty(), "no marker lands on a miss");
    }
    assert_eq!(g.trophies, 0, "no trophy on a miss");
}

#[test]
fn range_right_hits_at_distance() {
    // Hellhound (strength 2, [Range]) three to the right; card 3 == distance.
    let kinds: Vec<usize> = vec![0, 1, 2, 8];
    let mut g = game_with(&kinds, 0, vec![3, 1], vec![1, 2]);
    g.update(SelectedInput::ActionSelected(Action::Range(Entity::Character, Direction::Right)));
    g.update(SelectedInput::CardSelected(0));
    assert!(!g.monsters.roster[3].alive, "one Range hit kills a Hellhound");
    assert_eq!(g.trophies, 0, "3 is not its effective strength 2");
}

#[test]
fn move_relocates_clamped_and_marks() {
    // Move right by 5 from position 1 of 3 clamps to the last slot.
    let kinds: Vec<usize> = vec![0, 1, 3];
    let mut g = game_with(&kinds, 1, vec![5, 1], vec![1, 2]);
    g.update(SelectedInput::ActionSelected(Action::Move(Entity::Character, Direction::Right)));
    g.update(SelectedInput::CardSelected(0));
    assert_eq!(g.player_index, 2, "movement clamps to the row");
    assert_eq!(g.monsters.roster[2].current_hits.len(), 1, "a Move marker lands");
    // Move left by 1 from position 0 clamps to 0 (companion this time).
    g.update(SelectedInput::ActionSelected(Action::Move(Entity::Companion, Direction::Left)));
    g.update(SelectedInput::CardSelected(0));
    assert_eq!(g.companion_index, 0);
}

#[test]
fn noxious_move_costs_an_extra_card() {
    // Ghost: Noxious, strength 0, killed by one Move hit.
    let kinds: Vec<usize> = vec![0, 6, 1];
    let mut g = game_with(&kinds, 0, vec![1, 2, 3], vec![4, 5]);
    g.update(SelectedInput::ActionSelected(Action::Move(Entity::Character, Direction::Right)));
    g.update(SelectedInput::CardSelected(0));
    assert_eq!(g.player_index, 1);
    assert!(!g.monsters.roster[1].alive, "the Move hit satisfies [Move]");
    assert_eq!(g.hand.len(), 1, "one card played, one discarded to Noxious");
    assert!(!g.discarded, "the discard flag is cleared at the end of the cycle");
    assert_eq!(g.trophies, 0, "cards are at least 1, a strength-0 kill is never exact");
}

#[test]
fn swap_toggles_companion_kind() {
    let kinds: Vec<usize> = vec![0, 1];
    let mut g = game_with(&kinds, 0, vec![1, 2], vec![3, 4]);
    assert!(matches!(g.companion_kind, CompanionKind::Melee));
    g.update(SelectedInput::ActionSelected(Action::Swap));
    g.update(SelectedInput::CardSelected(1));
    assert!(matches!(g.companion_kind, CompanionKind::Range));
    assert_eq!(g.hand.len(), 1, "swap spends its card");
    g.update(SelectedInput::ActionSelected(Action::Swap));
    g.update(SelectedInput::CardSelected(0));
    assert!(matches!(g.companion_kind, CompanionKind::Melee));
}

#[test]
fn selection_buffer_fires_only_when_both_slots_fill() {
    let kinds: Vec<usize> = vec![0, 1];
    let mut g = game_with(&kinds, 0, vec![1, 2], vec![3, 4]);
    g.update(SelectedInput::CardSelected(1));
    assert_eq!(g.hand.len(), 2, "a card alone resolves nothing");
    assert_eq!(g.current_card, Some(1));
    g.update(SelectedInput::ActionSelected(Action::Swap));
    assert_eq!(g.hand.len(), 1, "the pending card and the action resolve together");
    assert_eq!(g.current_card, None, "both slots clear on resolution");
    assert_eq!(g.current_action, None);
}

#[test]
fn last_card_played_promotes_to_monstrous() {
    // One card in hand; any non-EndTurn action empties it without a discard.
    let kinds: Vec<usize> = vec![3, 0, 1];
    let mut g = game_with(&kinds, 0, vec![2], vec![1, 2, 3, 4, 5, 1, 2]);
    g.update(SelectedInput::ActionSelected(Action::Melee(Entity::Character)));
    g.update(SelectedInput::CardSelected(0));
    assert!(matches!(g.player_kind, PlayerKind::Monstrous), "exhaustion promotes");
    assert_eq!(g.hand_limit, 6, "the hand limit rises to 6");
    assert_eq!(g.hand.len(), 6, "the hand refills up to the new limit");
    assert_eq!(g.deck.len(), 1);
    assert!(matches!(g.state, State::Playing));
}

#[test]
fn hand_limit_never_returns_to_five() {
    let kinds: Vec<usize> = vec![3, 0, 1];
    let mut g = game_with(&kinds, 0, vec![2], vec![1, 2, 3, 4, 5, 1, 2]);
    g.update(SelectedInput::ActionSelected(Action::Melee(Entity::Character)));
    g.update(SelectedInput::CardSelected(0));
    assert_eq!(g.hand_limit, 6);
    // Further cycles keep the limit at 6 and the hand within it.
    g.update(SelectedInput::ActionSelected(Action::EndTurn));
    assert_eq!(g.hand_limit, 6, "the promotion is permanent");
    assert!(g.hand.len() <= 6);
}

#[test]
fn end_turn_resets_hand_and_markers() {
    let kinds: Vec<usize> = vec![17, 0, 1];
    let mut g = game_with(&kinds, 0, vec![5, 1, 1], vec![2, 3, 4, 5, 1, 2, 3]);
    g.update(SelectedInput::ActionSelected(Action::Melee(Entity::Character)));
    g.update(SelectedInput::CardSelected(0));
    assert_eq!(g.monsters.roster[0].current_hits.len(), 1);
    g.update(SelectedInput::ActionSelected(Action::EndTurn));
    assert!(g.monsters.roster[0].current_hits.is_empty(), "a reset wipes markers");
    assert_eq!(g.hand.len(), 5, "the hand refills to the limit");
    assert!(matches!(g.player_kind, PlayerKind::Regular), "EndTurn alone never promotes");
    assert_eq!(g.hand_limit, 5);
}

#[test]
fn end_turn_fires_without_a_card() {
    let kinds: Vec<usize> = vec![0, 1];
    let mut g = game_with(&kinds, 0, vec![1, 2], vec![3, 4, 5, 1, 2, 3, 4]);
    g.update(SelectedInput::ActionSelected(Action::EndTurn));
    assert_eq!(g.hand.len(), 5, "EndTurn spends no card and refills the hand");
    assert_eq!(g.deck.len(), 2);
}

#[test]
fn empty_deck_and_hand_end_the_game() {
    let kinds: Vec<usize> = vec![3, 0, 1];
    let mut g = game_with(&kinds, 0, vec![4], Vec::new());
    g.monsters.roster[1].alive = false;
    g.monsters.roster[2].alive = false;
    g.trophies = 2;
    assert!(g.validate());
    g.update(SelectedInput::ActionSelected(Action::Swap));
    g.update(SelectedInput::CardSelected(0));
    assert!(matches!(g.state, State::EndGame), "no card anywhere ends the session");
    assert_eq!(g.score(), 1 * 3 + 2 * 2, "payments and trophies alone score");
}

#[test]
fn reset_request_short_circuits() {
    let kinds: Vec<usize> = vec![0, 1];
    let mut g = game_with(&kinds, 0, vec![1, 2], vec![3]);
    g.update(SelectedInput::ActionSelected(Action::Melee(Entity::Character)));
    g.update(SelectedInput::ResetRequested);
    assert!(matches!(g.state, State::Reset));
    assert_eq!(g.hand.len(), 2, "a reset request resolves nothing");
    assert_eq!(g.current_action, Some(Action::Melee(Entity::Character)));
}

#[test]
fn endgame_accepts_only_reset() {
    let kinds: Vec<usize> = vec![0, 1];
    let mut g = game_with(&kinds, 0, Vec::new(), Vec::new());
    g.state = State::EndGame;
    assert!(g.validate());
    g.update(SelectedInput::ActionSelected(Action::Swap));
    assert!(matches!(g.state, State::EndGame), "selections are dead in EndGame");
    assert!(matches!(g.companion_kind, CompanionKind::Melee));
    g.update(SelectedInput::ResetRequested);
    assert!(matches!(g.state, State::Reset), "reset is the only exit from EndGame");
}

#[test]
fn rally_neighbours_gain_and_lose_adjustment() {
    // Howler: Rally, strength 4, killed by one Melee hit; at position 1.
    let kinds: Vec<usize> = vec![2, 9, 0, 1];
    let mut g = game_with(&kinds, 1, vec![4, 5, 1, 1], vec![2, 3]);
    // Any cycle recomputes the adjustments from the alive flags.
    g.update(SelectedInput::ActionSelected(Action::Melee(Entity::Character)));
    assert_eq!(g.monsters.roster[0].strength_adjustment, 1, "left of a living Rally");
    assert_eq!(g.monsters.roster[2].strength_adjustment, 1, "right of a living Rally");
    assert_eq!(g.monsters.roster[1].strength_adjustment, 0, "Rally does not buff itself");
    assert_eq!(g.monsters.roster[3].strength_adjustment, 0, "two away is out of reach");
    // Kill the Howler: 4 == effective strength 4, an exact kill.
    g.update(SelectedInput::CardSelected(0));
    assert!(!g.monsters.roster[1].alive);
    assert_eq!(g.trophies, 1);
    assert_eq!(g.monsters.roster[0].strength_adjustment, 0, "the buff dies with it");
    assert_eq!(g.monsters.roster[2].strength_adjustment, 0);
}

#[test]
fn effective_strength_counts_rally_buffs() {
    // Bug (strength 1) next to a living Howler: effective strength 2.
    let kinds: Vec<usize> = vec![2, 9, 0];
    let mut g = game_with(&kinds, 2, vec![2, 5], vec![3]);
    g.update(SelectedInput::ActionSelected(Action::Range(Entity::Character, Direction::Left)));
    assert_eq!(g.monsters.effective_strength(0), 2, "1 base + 1 Rally");
    assert_eq!(g.monsters.effective_strength(1), 4, "the Howler buffs only others");
    // Range from 2 with a card 2 lands on the Bug at 0: 2 == effective 2.
    g.update(SelectedInput::CardSelected(0));
    assert!(!g.monsters.roster[0].alive);
    assert_eq!(g.trophies, 1, "exact against the buffed strength");
}

#[test]
fn card_totals_never_increase() {
    let mut g = Game::init(13, 5);
    assert_eq!(g.deck.len() + g.hand.len(), 35, "a session opens with 40 - payments");
    let mut last = g.deck.len() + g.hand.len();
    for _ in 0..10 {
        g.update(SelectedInput::ActionSelected(Action::Swap));
        g.update(SelectedInput::CardSelected(0));
        let total = g.deck.len() + g.hand.len();
        assert!(total <= last, "deck+hand may only shrink");
        last = total;
        if !matches!(g.state, State::Playing) {
            break;
        }
    }
}

#[test]
fn init_builds_a_playable_session() {
    let g = Game::init(14, 1);
    assert!(g.validate());
    assert!(matches!(g.state, State::Playing));
    assert_eq!(g.monsters.len(), 14);
    for m in &g.monsters.roster {
        assert!(m.alive);
        assert!(m.current_hits.is_empty());
        assert_eq!(m.strength_adjustment, 0);
        assert!(m.kind < maverick::catalog::CATALOG_LEN);
    }
    for i in 0..14 {
        for j in 0..i {
            assert_ne!(
                g.monsters.roster[i].kind,
                g.monsters.roster[j].kind,
                "roster archetypes are distinct"
            );
        }
    }
    assert_eq!(g.hand.len(), 5);
    assert_eq!(g.deck.len(), 34);
    assert_eq!(g.payments, 1);
    assert_eq!(g.trophies, 0);
    assert_eq!(g.hand_limit, 5);
    assert!(matches!(g.player_kind, PlayerKind::Regular));
    for v in 1..=5u8 {
        let held = g.deck.iter().filter(|&&c| c == v).count()
            + g.hand.iter().filter(|&&c| c == v).count();
        assert!(held <= 8, "never more copies of a value than the deck was built with");
    }
}

#[test]
fn score_is_payments_trophies_and_cards() {
    let kinds: Vec<usize> = vec![2, 0, 1];
    let mut g = game_with(&kinds, 0, vec![1, 2], vec![3]);
    g.payments = 4;
    g.monsters.roster[2].alive = false;
    g.trophies = 1;
    assert!(g.validate());
    assert_eq!(g.score(), 4 * 3 + 1 * 2 + 3);
}

#[test]
fn validate_rejects_broken_sessions() {
    let kinds: Vec<usize> = vec![0, 1];
    let good = game_with(&kinds, 0, vec![1, 2], vec![3]);
    assert!(good.validate());

    let mut bad = game_with(&kinds, 0, vec![1, 2], vec![3]);
    bad.player_index = 2;
    assert!(!bad.validate(), "player off the row");

    let mut bad = game_with(&kinds, 0, vec![1, 2], vec![3]);
    bad.monsters.roster[1].kind = 0;
    assert!(!bad.validate(), "duplicate archetype");

    let mut bad = game_with(&kinds, 0, vec![1, 2], vec![3]);
    bad.hand = vec![0, 2];
    assert!(!bad.validate(), "0 is not a card value");

    let mut bad = game_with(&kinds, 0, vec![1, 2], vec![3]);
    bad.trophies = 1;
    assert!(!bad.validate(), "a trophy needs a dead monster");

    let mut bad = game_with(&kinds, 0, vec![1, 2], vec![3]);
    bad.current_card = Some(2);
    assert!(!bad.validate(), "a selected card must exist in hand");

    let mut bad = game_with(&kinds, 0, vec![1, 2], vec![3]);
    bad.hand_limit = 7;
    assert!(!bad.validate(), "the hand limit is 5 or 6");
}

#[test]
fn reign_is_advisory_only() {
    // Golem (Reign, strength 3) with a weaker living Bug to its left: the
    // flag shows, but nothing blocks attacking the Golem first.
    let kinds: Vec<usize> = vec![2, 7, 3];
    let mut g = game_with(&kinds, 1, vec![3, 1], vec![2]);
    assert!(g.monsters.reign_warning(1, Direction::Left));
    assert!(!g.monsters.reign_warning(1, Direction::Right), "the Demon is stronger");
    g.update(SelectedInput::ActionSelected(Action::Melee(Entity::Character)));
    g.update(SelectedInput::CardSelected(0));
    assert!(!g.monsters.roster[1].alive, "Reign never gates resolution");
    assert!(!g.monsters.reign_warning(1, Direction::Left), "dead monsters warn no more");
}
