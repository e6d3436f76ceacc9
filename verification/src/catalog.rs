//! The monster catalog: a static table of monster archetypes.
//!
//! An archetype is an immutable template: a name, a base strength, an
//! optional special ability, and the multiset of hit markers (one to three
//! tags) that must be accumulated to kill a monster of that archetype.

use vstd::prelude::*;
use crate::{Ability, ToSlay};

verus! {

/// Number of archetypes in the catalog.
pub const CATALOG_LEN: usize = 18;

/// Base strength of archetype `k`, as a mathematical function of the table.
pub open spec fn spec_strength(k: int) -> u8 {
    if k == 0 { 1 }        // Banshee
    else if k == 1 { 1 }   // Beholder
    else if k == 2 { 1 }   // Bug
    else if k == 3 { 5 }   // Demon
    else if k == 4 { 5 }   // Dragon
    else if k == 5 { 2 }   // Elemental
    else if k == 6 { 0 }   // Ghost
    else if k == 7 { 3 }   // Golem
    else if k == 8 { 2 }   // Hellhound
    else if k == 9 { 4 }   // Howler
    else if k == 10 { 0 }  // Imp
    else if k == 11 { 4 }  // Lich
    else if k == 12 { 1 }  // Scorpion
    else if k == 13 { 2 }  // Skeleton
    else if k == 14 { 1 }  // Spider
    else if k == 15 { 1 }  // Troglodyte
    else if k == 16 { 3 }  // Troll
    else { 2 }             // Werewolf
}

/// Special ability of archetype `k`, if any.
pub open spec fn spec_ability(k: int) -> Option<Ability> {
    if k == 4 { Some(Ability::Reign) }         // Dragon
    else if k == 6 { Some(Ability::Noxious) }  // Ghost
    else if k == 7 { Some(Ability::Reign) }    // Golem
    else if k == 9 { Some(Ability::Rally) }    // Howler
    else if k == 11 { Some(Ability::Reign) }   // Lich
    else if k == 12 { Some(Ability::Noxious) } // Scorpion
    else if k == 14 { Some(Ability::Noxious) } // Spider
    else if k == 15 { Some(Ability::Rally) }   // Troglodyte
    else { None }
}

/// Kill requirements of archetype `k`: the hit markers that must all be
/// matched, one for one, for a monster of this archetype to die.
pub open spec fn spec_requirements(k: int) -> Seq<ToSlay> {
    if k == 0 { seq![ToSlay::Melee, ToSlay::Range] }                 // Banshee
    else if k == 1 { seq![ToSlay::Range, ToSlay::Range, ToSlay::Range] } // Beholder
    else if k == 2 { seq![ToSlay::Range] }                           // Bug
    else if k == 3 { seq![ToSlay::Melee, ToSlay::Range] }            // Demon
    else if k == 4 { seq![ToSlay::Move, ToSlay::Melee, ToSlay::Range] } // Dragon
    else if k == 5 { seq![ToSlay::Melee, ToSlay::Range] }            // Elemental
    else if k == 6 { seq![ToSlay::Move] }                            // Ghost
    else if k == 7 { seq![ToSlay::Melee] }                           // Golem
    else if k == 8 { seq![ToSlay::Range] }                           // Hellhound
    else if k == 9 { seq![ToSlay::Melee] }                           // Howler
    else if k == 10 { seq![ToSlay::Move, ToSlay::Move] }             // Imp
    else if k == 11 { seq![ToSlay::Range] }                          // Lich
    else if k == 12 { seq![ToSlay::Melee, ToSlay::Range] }           // Scorpion
    else if k == 13 { seq![ToSlay::Move, ToSlay::Melee] }            // Skeleton
    else if k == 14 { seq![ToSlay::Range, ToSlay::Range] }           // Spider
    else if k == 15 { seq![ToSlay::Move, ToSlay::Melee] }            // Troglodyte
    else if k == 16 { seq![ToSlay::Move, ToSlay::Range] }            // Troll
    else { seq![ToSlay::Melee, ToSlay::Melee] }                      // Werewolf
}

/// Name of archetype `k`.
pub open spec fn spec_name(k: int) -> Seq<char> {
    if k == 0 { "Banshee"@ }
    else if k == 1 { "Beholder"@ }
    else if k == 2 { "Bug"@ }
    else if k == 3 { "Demon"@ }
    else if k == 4 { "Dragon"@ }
    else if k == 5 { "Elemental"@ }
    else if k == 6 { "Ghost"@ }
    else if k == 7 { "Golem"@ }
    else if k == 8 { "Hellhound"@ }
    else if k == 9 { "Howler"@ }
    else if k == 10 { "Imp"@ }
    else if k == 11 { "Lich"@ }
    else if k == 12 { "Scorpion"@ }
    else if k == 13 { "Skeleton"@ }
    else if k == 14 { "Spider"@ }
    else if k == 15 { "Troglodyte"@ }
    else if k == 16 { "Troll"@ }
    else { "Werewolf"@ }
}

/// Base strength of archetype `k`. No archetype is stronger than 5.
pub fn archetype_strength(k: usize) -> (r: u8)
    requires
        k < CATALOG_LEN,
    ensures
        r == spec_strength(k as int),
        r <= 5,
{
    if k == 0 { 1 }
    else if k == 1 { 1 }
    else if k == 2 { 1 }
    else if k == 3 { 5 }
    else if k == 4 { 5 }
    else if k == 5 { 2 }
    else if k == 6 { 0 }
    else if k == 7 { 3 }
    else if k == 8 { 2 }
    else if k == 9 { 4 }
    else if k == 10 { 0 }
    else if k == 11 { 4 }
    else if k == 12 { 1 }
    else if k == 13 { 2 }
    else if k == 14 { 1 }
    else if k == 15 { 1 }
    else if k == 16 { 3 }
    else { 2 }
}

/// Special ability of archetype `k`, if any.
pub fn archetype_ability(k: usize) -> (r: Option<Ability>)
    requires
        k < CATALOG_LEN,
    ensures
        r == spec_ability(k as int),
{
    if k == 4 { Some(Ability::Reign) }
    else if k == 6 { Some(Ability::Noxious) }
    else if k == 7 { Some(Ability::Reign) }
    else if k == 9 { Some(Ability::Rally) }
    else if k == 11 { Some(Ability::Reign) }
    else if k == 12 { Some(Ability::Noxious) }
    else if k == 14 { Some(Ability::Noxious) }
    else if k == 15 { Some(Ability::Rally) }
    else { None }
}

/// Kill requirements of archetype `k`, in table order.
pub fn archetype_requirements(k: usize) -> (r: Vec<ToSlay>)
    requires
        k < CATALOG_LEN,
    ensures
        r@ == spec_requirements(k as int),
{
    let mut r: Vec<ToSlay> = Vec::new();
    if k == 0 { r.push(ToSlay::Melee); r.push(ToSlay::Range); }
    else if k == 1 { r.push(ToSlay::Range); r.push(ToSlay::Range); r.push(ToSlay::Range); }
    else if k == 2 { r.push(ToSlay::Range); }
    else if k == 3 { r.push(ToSlay::Melee); r.push(ToSlay::Range); }
    else if k == 4 { r.push(ToSlay::Move); r.push(ToSlay::Melee); r.push(ToSlay::Range); }
    else if k == 5 { r.push(ToSlay::Melee); r.push(ToSlay::Range); }
    else if k == 6 { r.push(ToSlay::Move); }
    else if k == 7 { r.push(ToSlay::Melee); }
    else if k == 8 { r.push(ToSlay::Range); }
    else if k == 9 { r.push(ToSlay::Melee); }
    else if k == 10 { r.push(ToSlay::Move); r.push(ToSlay::Move); }
    else if k == 11 { r.push(ToSlay::Range); }
    else if k == 12 { r.push(ToSlay::Melee); r.push(ToSlay::Range); }
    else if k == 13 { r.push(ToSlay::Move); r.push(ToSlay::Melee); }
    else if k == 14 { r.push(ToSlay::Range); r.push(ToSlay::Range); }
    else if k == 15 { r.push(ToSlay::Move); r.push(ToSlay::Melee); }
    else if k == 16 { r.push(ToSlay::Move); r.push(ToSlay::Range); }
    else { r.push(ToSlay::Melee); r.push(ToSlay::Melee); }
    proof {
        assert(r@ =~= spec_requirements(k as int));
    }
    r
}

/// Name of archetype `k` (the renderer uses it to pick the monster's image).
pub fn archetype_name(k: usize) -> (r: &'static str)
    requires
        k < CATALOG_LEN,
    ensures
        r@ == spec_name(k as int),
{
    if k == 0 { "Banshee" }
    else if k == 1 { "Beholder" }
    else if k == 2 { "Bug" }
    else if k == 3 { "Demon" }
    else if k == 4 { "Dragon" }
    else if k == 5 { "Elemental" }
    else if k == 6 { "Ghost" }
    else if k == 7 { "Golem" }
    else if k == 8 { "Hellhound" }
    else if k == 9 { "Howler" }
    else if k == 10 { "Imp" }
    else if k == 11 { "Lich" }
    else if k == 12 { "Scorpion" }
    else if k == 13 { "Skeleton" }
    else if k == 14 { "Spider" }
    else if k == 15 { "Troglodyte" }
    else if k == 16 { "Troll" }
    else { "Werewolf" }
}

} // verus!
