//! Turn resolution engine for a single-player dungeon-crawl card game.
//!
//! A row of monsters faces a player and a companion. Each turn the player
//! pairs an action (move, melee, ranged attack, swap, end turn) with a card
//! from the hand; the engine resolves the pair against the monster roster,
//! accumulates hit markers, recomputes Rally strength buffs, manages the
//! hand and deck lifecycle, and decides when the game ends.
//!
//! The modules, leaf to root:
//! - [`catalog`]: the static table of monster archetypes.
//! - [`rng`]: the trusted boundary to the `rand` crate.
//! - [`monsters`]: the roster — a game's random draw of distinct
//!   archetypes with per-monster combat state.
//! - [`deck`]: the deck and hand manager.
//! - [`game`]: the session and the turn resolver, whose one entry point
//!   [`game::Game::update`] is proved to implement the spec function
//!   [`game::step`].
//! - [`laws`]: properties of the resolver, proved over that spec model.
//!
//! The presentation layer (rendering, input decoding, the run loop) stays
//! outside the engine; it drives [`game::Game::update`] with resolved
//! [`game::SelectedInput`] events and reads the session state back to
//! draw it.

use vstd::prelude::*;

pub mod catalog;
pub mod deck;
pub mod game;
pub mod laws;
pub mod monsters;
pub mod rng;

verus! {

/// Special abilities that some monsters have.
#[derive(Debug, Copy, Clone, PartialEq, Eq, Structural)]
pub enum Ability {
    Noxious,
    Rally,
    Reign,
}

/// Hit-marker tags: the kinds of confirmed action that kill requirements
/// are stated in, and that monsters accumulate while alive.
#[derive(Debug, Copy, Clone, PartialEq, Eq, Structural)]
pub enum ToSlay {
    Melee,
    Range,
    Move,
}

/// Which entity an action is performed on.
#[derive(Debug, Copy, Clone, PartialEq, Eq, Structural)]
pub enum Entity {
    Character,
    Companion,
}

/// Direction in which an ability is performed along the dungeon row.
#[derive(Debug, Copy, Clone, PartialEq, Eq, Structural)]
pub enum Direction {
    Left,
    Right,
}

/// Actions the player can pair with a card.
#[derive(Debug, Copy, Clone, PartialEq, Eq, Structural)]
pub enum Action {
    Range(Entity, Direction),
    Melee(Entity),
    Move(Entity, Direction),
    Swap,
    EndTurn,
}

} // verus!
