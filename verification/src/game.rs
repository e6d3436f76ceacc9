//! The game session and turn resolver: the heart of the engine.
//!
//! A session owns the roster, the deck, the hand, the positions and the
//! score. The presentation layer feeds it one resolved input at a time: an
//! action selection, a card selection, or a reset request. The two
//! selection slots accumulate across inputs; the moment both are filled,
//! the pair is resolved against the board, and the hand/turn lifecycle
//! runs. The whole cycle is the spec function [`step`]; [`Game::update`]
//! is proved to implement it.

use vstd::prelude::*;
use crate::{Ability, Action, Direction, Entity, ToSlay};
use crate::catalog;
use crate::catalog::{spec_ability, spec_requirements, CATALOG_LEN};
use crate::deck;
use crate::deck::{card_ok, cards_ok, refilled};
use crate::monsters::{
    cleared_hits, covered, dead_count, effective, rally_recomputed, roster_wf,
    MonsterV, Monsters,
};
use crate::rng;

verus! {

/// Current player kind. The player starts Regular and becomes Monstrous,
/// permanently, on the first hand exhausted without a discard.
#[derive(Debug, Copy, Clone, PartialEq, Eq, Structural)]
pub enum PlayerKind {
    Regular,
    Monstrous,
}

/// The companion's mode; the Swap action toggles it.
#[derive(Debug, Copy, Clone, PartialEq, Eq, Structural)]
pub enum CompanionKind {
    Melee,
    Range,
}

/// Session states. EndGame is terminal but for a reset; Reset asks the
/// surrounding run loop to start a brand-new session.
#[derive(Debug, Copy, Clone, PartialEq, Eq, Structural)]
pub enum State {
    Playing,
    EndGame,
    Reset,
}

/// One resolved input event, as the presentation layer delivers it: a
/// logical action, a hand-card index, or a reset request.
#[derive(Debug, Copy, Clone, PartialEq, Eq, Structural)]
pub enum SelectedInput {
    ActionSelected(Action),
    CardSelected(usize),
    ResetRequested,
}

/// The game session: every piece of state the resolver reads or writes.
pub struct Game {
    /// Current state of the session.
    pub state: State,
    /// The monster row.
    pub monsters: Monsters,
    /// Position of the player along the row.
    pub player_index: usize,
    /// Kind of the player.
    pub player_kind: PlayerKind,
    /// Position of the companion along the row.
    pub companion_index: usize,
    /// Kind of the companion.
    pub companion_kind: CompanionKind,
    /// The face-down deck, consumed from the tail.
    pub deck: Vec<u8>,
    /// The cards in hand.
    pub hand: Vec<u8>,
    /// Maximum hand size: 5, or 6 once the player is Monstrous.
    pub hand_limit: u8,
    /// The action slot of the two-slot selection buffer.
    pub current_action: Option<Action>,
    /// The card slot of the two-slot selection buffer.
    pub current_card: Option<usize>,
    /// Whether a card was discarded this cycle (Noxious punishment); it
    /// suppresses the hand-exhaustion promotion for the cycle.
    pub discarded: bool,
    /// Cards set aside before play, worth 3 points each at the end.
    pub payments: u32,
    /// Exact-strength kills, worth 2 points each at the end.
    pub trophies: u32,
}

/// Mathematical model of a session.
#[verifier::ext_equal]
pub ghost struct GameV {
    pub state: State,
    pub monsters: Seq<MonsterV>,
    pub player_index: usize,
    pub player_kind: PlayerKind,
    pub companion_index: usize,
    pub companion_kind: CompanionKind,
    pub deck: Seq<u8>,
    pub hand: Seq<u8>,
    pub hand_limit: u8,
    pub current_action: Option<Action>,
    pub current_card: Option<usize>,
    pub discarded: bool,
    pub payments: u32,
    pub trophies: u32,
}

impl View for Game {
    type V = GameV;

    open spec fn view(&self) -> GameV {
        GameV {
            state: self.state,
            monsters: self.monsters@,
            player_index: self.player_index,
            player_kind: self.player_kind,
            companion_index: self.companion_index,
            companion_kind: self.companion_kind,
            deck: self.deck@,
            hand: self.hand@,
            hand_limit: self.hand_limit,
            current_action: self.current_action,
            current_card: self.current_card,
            discarded: self.discarded,
            payments: self.payments,
            trophies: self.trophies,
        }
    }
}

/// Session well-formedness: the invariant every entry point preserves.
pub open spec fn wf_state(g: GameV) -> bool {
    &&& roster_wf(g.monsters)
    &&& 1 <= g.monsters.len()
    &&& g.player_index < g.monsters.len()
    &&& g.companion_index < g.monsters.len()
    &&& (g.hand_limit == 5 || g.hand_limit == 6)
    &&& (g.player_kind is Monstrous <==> g.hand_limit == 6)
    &&& g.hand.len() <= g.hand_limit
    &&& g.deck.len() + g.hand.len() <= 40
    &&& cards_ok(g.deck)
    &&& cards_ok(g.hand)
    &&& (g.current_card matches Some(i) ==> i < g.hand.len())
    &&& g.trophies <= dead_count(g.monsters)
}

/// Phase one: file the input into its selection slot.
pub open spec fn with_selection(g: GameV, input: SelectedInput) -> GameV {
    match input {
        SelectedInput::ActionSelected(a) => GameV { current_action: Some(a), ..g },
        SelectedInput::CardSelected(i) => GameV { current_card: Some(i), ..g },
        SelectedInput::ResetRequested => g,
    }
}

/// Both selection slots emptied (resolution consumes them).
pub open spec fn cleared_slots(g: GameV) -> GameV {
    GameV { current_action: None, current_card: None, ..g }
}

/// Destination of a Move of stride `num` in direction `d`, clamped to the
/// row `[0, n-1]`.
pub open spec fn move_dest(n: int, idx: int, d: Direction, num: int) -> int {
    if d is Left {
        if idx - num >= 0 { idx - num } else { 0 }
    } else {
        if idx + num <= n - 1 { idx + num } else { n - 1 }
    }
}

/// Target of a Range attack of stride `num`, if it lands on the row;
/// shooting past either end is a miss.
pub open spec fn range_target(n: int, idx: int, d: Direction, num: int) -> Option<int> {
    if d is Left {
        if idx - num >= 0 { Some(idx - num) } else { None }
    } else {
        if idx + num < n { Some(idx + num) } else { None }
    }
}

/// The row position of the acting entity.
pub open spec fn entity_index(g: GameV, e: Entity) -> usize {
    if e is Character { g.player_index } else { g.companion_index }
}

/// The session with a hit marker recorded at position `i`.
pub open spec fn with_hit(g: GameV, i: int, t: ToSlay) -> GameV {
    GameV {
        monsters: g.monsters.update(
            i,
            MonsterV { current_hits: g.monsters[i].current_hits.push(t), ..g.monsters[i] },
        ),
        ..g
    }
}

/// Move resolution: relocate the entity, record a Move marker at the
/// destination, and suffer the Noxious punishment (one card of the
/// remaining hand, chosen by `pick`, is discarded) when the destination
/// holds a living Noxious monster and a card is left to lose.
pub open spec fn apply_move(g: GameV, e: Entity, d: Direction, num: u8, pick: nat)
    -> (GameV, Option<int>, bool) {
    let n = g.monsters.len() as int;
    let ni = move_dest(n, entity_index(g, e) as int, d, num as int);
    let g1 = if e is Character {
        GameV { player_index: ni as usize, ..g }
    } else {
        GameV { companion_index: ni as usize, ..g }
    };
    let g2 = with_hit(g1, ni, ToSlay::Move);
    let trophy = num as int == effective(g2.monsters[ni]);
    let noxious = spec_ability(g2.monsters[ni].kind as int) == Some(Ability::Noxious)
        && g2.monsters[ni].alive;
    let g3 = if noxious && g2.hand.len() > 0 {
        GameV {
            hand: g2.hand.remove(pick as int % g2.hand.len() as int),
            discarded: true,
            ..g2
        }
    } else {
        g2
    };
    (g3, Some(ni), trophy)
}

/// Range resolution: a hit marker at the target if it is on the row; a
/// miss changes nothing (the card is already spent).
pub open spec fn apply_range(g: GameV, e: Entity, d: Direction, num: u8)
    -> (GameV, Option<int>, bool) {
    let n = g.monsters.len() as int;
    match range_target(n, entity_index(g, e) as int, d, num as int) {
        Some(ti) => (
            with_hit(g, ti, ToSlay::Range),
            Some(ti),
            num as int == effective(g.monsters[ti]),
        ),
        None => (g, None, false),
    }
}

/// Melee resolution: a hit only when the card is at least the target's
/// effective strength; the trophy qualification needs exact strength.
pub open spec fn apply_melee(g: GameV, e: Entity, num: u8) -> (GameV, Option<int>, bool) {
    let ti = entity_index(g, e) as int;
    if num as int >= effective(g.monsters[ti]) {
        (with_hit(g, ti, ToSlay::Melee), Some(ti), num as int == effective(g.monsters[ti]))
    } else {
        (g, None, false)
    }
}

/// The other companion kind.
pub open spec fn toggled(k: CompanionKind) -> CompanionKind {
    if k is Melee { CompanionKind::Range } else { CompanionKind::Melee }
}

/// The kill check: a living target whose accumulated markers match its
/// kill requirements dies exactly now — its markers are wiped — and the
/// trophy is banked only if this very action was an exact-strength hit.
pub open spec fn kill_phase(g: GameV, target: Option<int>, trophy: bool) -> GameV {
    match target {
        Some(i) => if g.monsters[i].alive
            && covered(spec_requirements(g.monsters[i].kind as int), g.monsters[i].current_hits) {
            GameV {
                monsters: g.monsters.update(
                    i,
                    MonsterV { alive: false, current_hits: Seq::<ToSlay>::empty(), ..g.monsters[i] },
                ),
                trophies: if trophy { (g.trophies + 1) as u32 } else { g.trophies },
                ..g
            }
        } else {
            g
        },
        None => g,
    }
}

/// Phase two: resolution. EndTurn fires the moment it is selected and
/// spends no card; any other action fires once both slots are filled, and
/// the chosen card is spent unconditionally. Returns the state and
/// whether an end-of-turn reset is pending.
pub open spec fn resolve_phase(g: GameV, pick: nat) -> (GameV, bool) {
    match (g.current_action, g.current_card) {
        (Some(Action::EndTurn), _) => (cleared_slots(g), true),
        (Some(a), Some(ci)) => {
            let num = g.hand[ci as int];
            let g1 = cleared_slots(GameV { hand: g.hand.remove(ci as int), ..g });
            let r = match a {
                Action::Move(e, d) => apply_move(g1, e, d, num, pick),
                Action::Range(e, d) => apply_range(g1, e, d, num),
                Action::Melee(e) => apply_melee(g1, e, num),
                Action::Swap => (
                    GameV { companion_kind: toggled(g1.companion_kind), ..g1 },
                    None::<int>,
                    false,
                ),
                Action::EndTurn => (g1, None::<int>, false),
            };
            (kill_phase(r.0, r.1, r.2), false)
        },
        _ => (g, false),
    }
}

/// Phase three: the unconditional strength-adjustment recompute.
pub open spec fn rally_phase(g: GameV) -> GameV {
    GameV { monsters: rally_recomputed(g.monsters), ..g }
}

/// Phase four: the hand/turn lifecycle. A hand emptied without a discard
/// promotes the player to Monstrous (hand limit 6) and forces a reset; a
/// reset refills the hand from the deck and wipes every monster's
/// markers; a session with no cards anywhere is over.
pub open spec fn lifecycle_phase(g: GameV, end_turn: bool) -> GameV {
    let promote = g.hand.len() == 0 && !g.discarded;
    let new_limit: u8 = if promote { 6 } else { g.hand_limit };
    let new_kind = if promote { PlayerKind::Monstrous } else { g.player_kind };
    let do_reset = end_turn || promote;
    let new_hand = if do_reset { refilled(g.deck, new_limit as int).0 } else { g.hand };
    let new_deck = if do_reset { refilled(g.deck, new_limit as int).1 } else { g.deck };
    let new_monsters = if do_reset { cleared_hits(g.monsters) } else { g.monsters };
    let new_state = if new_hand.len() == 0 && new_deck.len() == 0 {
        State::EndGame
    } else {
        g.state
    };
    GameV {
        state: new_state,
        monsters: new_monsters,
        deck: new_deck,
        hand: new_hand,
        hand_limit: new_limit,
        player_kind: new_kind,
        discarded: false,
        ..g
    }
}

/// One full update cycle on input `input`. A reset request short-circuits
/// from any state; in EndGame nothing else is accepted; in Playing the
/// input is filed, resolution fires if both slots are now full, the Rally
/// recompute runs, and the lifecycle closes the cycle. `pick` stands for
/// the random choice a Noxious discard makes; every other part of the
/// cycle is deterministic, and `pick` is ignored where no discard
/// happens.
pub open spec fn step(g: GameV, input: SelectedInput, pick: nat) -> GameV {
    if input is ResetRequested {
        GameV { state: State::Reset, ..g }
    } else if !(g.state is Playing) {
        g
    } else {
        let g1 = with_selection(g, input);
        let r = resolve_phase(g1, pick);
        lifecycle_phase(rally_phase(r.0), r.1)
    }
}

/// What a caller must guarantee of an input: a selected card index refers
/// to a card actually in hand (the presentation layer only offers real
/// cards).
pub open spec fn input_ok(g: GameV, input: SelectedInput) -> bool {
    g.state is Playing ==> (input matches SelectedInput::CardSelected(i) ==> i < g.hand.len())
}

/// Final score: 3 a payment, 2 a trophy, 1 per unspent card.
pub open spec fn spec_score(g: GameV) -> int {
    g.payments * 3 + g.trophies * 2 + g.hand.len() + g.deck.len()
}

/// Recording a hit marker preserves well-formedness; it changes no alive
/// flag, no kind and no adjustment.
pub proof fn lemma_with_hit_wf(g: GameV, i: int, t: ToSlay)
    requires
        wf_state(g),
        0 <= i < g.monsters.len(),
    ensures
        wf_state(with_hit(g, i, t)),
{
    let h = with_hit(g, i, t);
    assert(forall|j: int| 0 <= j < h.monsters.len() ==> (#[trigger] h.monsters[j]).kind
        == g.monsters[j].kind
        && h.monsters[j].strength_adjustment == g.monsters[j].strength_adjustment
        && h.monsters[j].alive == g.monsters[j].alive);
    crate::monsters::lemma_roster_wf_same_kinds(g.monsters, h.monsters);
    crate::monsters::lemma_dead_count_alive_pointwise(g.monsters, h.monsters);
}

/// The kill check preserves well-formedness: a kill raises the dead count
/// along with any trophy, and the trophy count stays within `u32`.
pub proof fn lemma_kill_wf(g: GameV, target: Option<int>, trophy: bool)
    requires
        wf_state(g),
        target matches Some(i) ==> 0 <= i < g.monsters.len(),
    ensures
        wf_state(kill_phase(g, target, trophy)),
        g.trophies <= kill_phase(g, target, trophy).trophies,
{
    crate::monsters::lemma_dead_count_le_len(g.monsters);
    if let Some(i) = target {
        if g.monsters[i].alive
            && covered(spec_requirements(g.monsters[i].kind as int), g.monsters[i].current_hits) {
            let k = kill_phase(g, target, trophy);
            let m = MonsterV { alive: false, current_hits: Seq::<ToSlay>::empty(), ..g.monsters[i] };
            assert(forall|j: int| 0 <= j < k.monsters.len() ==> (#[trigger] k.monsters[j]).kind
                == g.monsters[j].kind
                && k.monsters[j].strength_adjustment == g.monsters[j].strength_adjustment);
            crate::monsters::lemma_roster_wf_same_kinds(g.monsters, k.monsters);
            crate::monsters::lemma_dead_count_update(g.monsters, i, m);
        }
    }
}

/// Move resolution preserves well-formedness, and its target is on the
/// row.
pub proof fn lemma_apply_move_wf(g: GameV, e: Entity, d: Direction, num: u8, pick: nat)
    requires
        wf_state(g),
        g.current_card is None,
    ensures
        ({
            let m = apply_move(g, e, d, num, pick);
            &&& wf_state(m.0)
            &&& (m.1 matches Some(i) ==> 0 <= i < m.0.monsters.len())
            &&& m.0.monsters.len() == g.monsters.len()
        }),
{
    let n = g.monsters.len() as int;
    let ni = move_dest(n, entity_index(g, e) as int, d, num as int);
    assert(0 <= ni < n);
    let g1 = if e is Character {
        GameV { player_index: ni as usize, ..g }
    } else {
        GameV { companion_index: ni as usize, ..g }
    };
    assert(wf_state(g1));
    lemma_with_hit_wf(g1, ni, ToSlay::Move);
    let g2 = with_hit(g1, ni, ToSlay::Move);
    if spec_ability(g2.monsters[ni].kind as int) == Some(Ability::Noxious)
        && g2.monsters[ni].alive && g2.hand.len() > 0 {
        let l = g2.hand.len() as int;
        vstd::arithmetic::div_mod::lemma_mod_bound(pick as int, l);
        deck::lemma_cards_ok_remove(g2.hand, pick as int % l);
    }
}

/// Range resolution preserves well-formedness; a landed target is on the
/// row.
pub proof fn lemma_apply_range_wf(g: GameV, e: Entity, d: Direction, num: u8)
    requires
        wf_state(g),
    ensures
        ({
            let m = apply_range(g, e, d, num);
            &&& wf_state(m.0)
            &&& (m.1 matches Some(i) ==> 0 <= i < m.0.monsters.len())
            &&& m.0.monsters.len() == g.monsters.len()
        }),
{
    let n = g.monsters.len() as int;
    match range_target(n, entity_index(g, e) as int, d, num as int) {
        Some(ti) => {
            lemma_with_hit_wf(g, ti, ToSlay::Range);
        },
        None => {},
    }
}

/// Melee resolution preserves well-formedness; its target is the acting
/// entity's own position.
pub proof fn lemma_apply_melee_wf(g: GameV, e: Entity, num: u8)
    requires
        wf_state(g),
    ensures
        ({
            let m = apply_melee(g, e, num);
            &&& wf_state(m.0)
            &&& (m.1 matches Some(i) ==> 0 <= i < m.0.monsters.len())
            &&& m.0.monsters.len() == g.monsters.len()
        }),
{
    let ti = entity_index(g, e) as int;
    if num as int >= effective(g.monsters[ti]) {
        lemma_with_hit_wf(g, ti, ToSlay::Melee);
    }
}

/// Resolution preserves well-formedness; a pending end-of-turn reset
/// leaves both selection slots empty. It also never touches the deck,
/// the hand limit, the player kind, the payments or the session state,
/// only shrinks the hand, and flips no alive flag back on.
#[verifier::rlimit(100)]
pub proof fn lemma_resolve_wf(g: GameV, pick: nat)
    requires
        wf_state(g),
    ensures
        ({
            let r = resolve_phase(g, pick);
            &&& wf_state(r.0)
            &&& (r.1 ==> r.0.current_card is None)
            &&& g.trophies <= r.0.trophies
            &&& r.0.state == g.state
            &&& r.0.deck == g.deck
            &&& r.0.hand_limit == g.hand_limit
            &&& r.0.player_kind == g.player_kind
            &&& r.0.payments == g.payments
            &&& r.0.hand.len() <= g.hand.len()
            &&& r.0.monsters.len() == g.monsters.len()
            &&& forall|i: int| 0 <= i < g.monsters.len()
                ==> ((#[trigger] r.0.monsters[i]).alive ==> g.monsters[i].alive)
        }),
{
    match (g.current_action, g.current_card) {
        (Some(Action::EndTurn), _) => {},
        (Some(a), Some(ci)) => {
            deck::lemma_cards_ok_remove(g.hand, ci as int);
            let num = g.hand[ci as int];
            let g1 = cleared_slots(GameV { hand: g.hand.remove(ci as int), ..g });
            assert(wf_state(g1));
            match a {
                Action::Move(e, d) => {
                    lemma_apply_move_wf(g1, e, d, num, pick);
                    let m = apply_move(g1, e, d, num, pick);
                    lemma_kill_wf(m.0, m.1, m.2);
                    let k = kill_phase(m.0, m.1, m.2);
                    assert(forall|i: int| 0 <= i < g.monsters.len()
                        ==> ((#[trigger] k.monsters[i]).alive ==> g.monsters[i].alive));
                },
                Action::Range(e, d) => {
                    lemma_apply_range_wf(g1, e, d, num);
                    let m = apply_range(g1, e, d, num);
                    lemma_kill_wf(m.0, m.1, m.2);
                    let k = kill_phase(m.0, m.1, m.2);
                    assert(forall|i: int| 0 <= i < g.monsters.len()
                        ==> ((#[trigger] k.monsters[i]).alive ==> g.monsters[i].alive));
                },
                Action::Melee(e) => {
                    lemma_apply_melee_wf(g1, e, num);
                    let m = apply_melee(g1, e, num);
                    lemma_kill_wf(m.0, m.1, m.2);
                    let k = kill_phase(m.0, m.1, m.2);
                    assert(forall|i: int| 0 <= i < g.monsters.len()
                        ==> ((#[trigger] k.monsters[i]).alive ==> g.monsters[i].alive));
                },
                Action::Swap => {
                    let g2 = GameV { companion_kind: toggled(g1.companion_kind), ..g1 };
                    assert(wf_state(g2));
                },
                Action::EndTurn => {},
            }
        },
        _ => {},
    }
}

/// The Rally recompute preserves well-formedness: it touches only
/// adjustments, and grants at most one per neighbour.
pub proof fn lemma_rally_wf(g: GameV)
    requires
        wf_state(g),
    ensures
        wf_state(rally_phase(g)),
{
    let r = rally_phase(g);
    crate::monsters::lemma_roster_wf_rally(g.monsters);
    assert(forall|j: int| 0 <= j < r.monsters.len()
        ==> (#[trigger] r.monsters[j]).alive == g.monsters[j].alive);
    crate::monsters::lemma_dead_count_alive_pointwise(g.monsters, r.monsters);
}

/// The lifecycle preserves well-formedness. A reset only fires with the
/// card slot empty (an emptied hand cannot have a selected card; an
/// end-of-turn reset consumed the slots), so the refilled hand never has
/// a stale selection against it.
pub proof fn lemma_lifecycle_wf(g: GameV, end_turn: bool)
    requires
        wf_state(g),
        end_turn ==> g.current_card is None,
    ensures
        wf_state(lifecycle_phase(g, end_turn)),
        lifecycle_phase(g, end_turn).deck.len() + lifecycle_phase(g, end_turn).hand.len()
            <= g.deck.len() + g.hand.len(),
{
    let l = lifecycle_phase(g, end_turn);
    let promote = g.hand.len() == 0 && !g.discarded;
    let new_limit: u8 = if promote { 6 } else { g.hand_limit };
    if end_turn || promote {
        deck::lemma_cards_ok_refilled(g.deck, new_limit as int);
        assert(forall|j: int| 0 <= j < l.monsters.len() ==> (#[trigger] l.monsters[j]).kind
            == g.monsters[j].kind
            && l.monsters[j].strength_adjustment == g.monsters[j].strength_adjustment
            && l.monsters[j].alive == g.monsters[j].alive);
        crate::monsters::lemma_roster_wf_same_kinds(g.monsters, l.monsters);
        crate::monsters::lemma_dead_count_alive_pointwise(g.monsters, l.monsters);
    }
}

/// Every update cycle preserves session well-formedness, and the trophy
/// count never goes down.
pub proof fn lemma_step_preserves_wf(g: GameV, input: SelectedInput, pick: nat)
    requires
        wf_state(g),
        input_ok(g, input),
    ensures
        wf_state(step(g, input, pick)),
        g.trophies <= step(g, input, pick).trophies,
{
    if input is ResetRequested {
    } else if !(g.state is Playing) {
    } else {
        let g1 = with_selection(g, input);
        assert(wf_state(g1));
        lemma_resolve_wf(g1, pick);
        let r = resolve_phase(g1, pick);
        lemma_rally_wf(r.0);
        lemma_lifecycle_wf(rally_phase(r.0), r.1);
    }
}

/// A row index as the spec functions state it.
pub open spec fn opt_index(o: Option<usize>) -> Option<int> {
    match o {
        Some(u) => Some(u as int),
        None => None,
    }
}

/// The positional invariants the resolvers rely on.
pub open spec fn wf_core(g: GameV) -> bool {
    &&& roster_wf(g.monsters)
    &&& 1 <= g.monsters.len()
    &&& g.player_index < g.monsters.len()
    &&& g.companion_index < g.monsters.len()
}

impl Game {
    /// Start a brand-new session: a fresh random roster of `n` monsters,
    /// a shuffled deck with `payments` cards set aside for scoring, an
    /// opening hand of five, and a companion of random kind. The deck and
    /// hand together hold `40 - payments` cards.
    pub fn init(n: usize, payments: u32) -> (g: Game)
        requires
            1 <= n <= CATALOG_LEN,
            payments <= 35,
        ensures
            wf_state(g@),
            g@.state is Playing,
            g@.monsters.len() == n,
            forall|i: int| 0 <= i < n ==> {
                &&& (#[trigger] g@.monsters[i]).alive
                &&& g@.monsters[i].strength_adjustment == 0
                &&& g@.monsters[i].current_hits == Seq::<ToSlay>::empty()
            },
            g@.player_index == 0,
            g@.companion_index == 0,
            g@.player_kind is Regular,
            g@.hand_limit == 5,
            g@.hand.len() == 5,
            g@.deck.len() + g@.hand.len() == 40 - payments,
            g@.payments == payments,
            g@.trophies == 0,
            g@.current_action is None,
            g@.current_card is None,
            !g@.discarded,
            forall|v: u8| g@.deck.to_multiset().count(v) + g@.hand.to_multiset().count(v) <= 8,
    {
        broadcast use vstd::multiset::group_multiset_axioms;

        let monsters = Monsters::init(n);
        let full = deck::build_deck();
        let ghost full_view = full@;
        let mut deck = deck::shuffled(full);
        proof {
            deck::lemma_cards_ok_multiset(full_view, deck@);
        }

        // Set the payment cards aside; they score, they are never played.
        let mut p: u32 = 0;
        while p < payments
            invariant
                p <= payments,
                payments <= 35,
                deck@.len() == 40 - p,
                cards_ok(deck@),
                forall|v: u8| deck@.to_multiset().count(v) <= 8,
            decreases payments - p,
        {
            let ghost pre = deck@;
            let _ = deck.pop();
            proof {
                assert forall|i: int| 0 <= i < deck@.len() implies card_ok(#[trigger] deck@[i]) by {
                    assert(deck@[i] == pre[i]);
                }
                assert(deck@ =~= pre.remove(pre.len() - 1));
                vstd::seq_lib::to_multiset_remove(pre, pre.len() - 1);
                assert forall|v: u8| deck@.to_multiset().count(v) <= 8 by {
                    broadcast use vstd::multiset::group_multiset_axioms;

                    assert(pre.to_multiset().count(v) <= 8);
                }
            }
            p += 1;
        }

        // Deal the opening hand.
        let ghost pre_deal = deck@;
        let mut hand: Vec<u8> = Vec::new();
        deck::refill(&mut hand, &mut deck, 5);
        proof {
            deck::lemma_cards_ok_refilled(pre_deal, 5);
            deck::lemma_refilled_multiset(pre_deal, 5);
            assert forall|v: u8| deck@.to_multiset().count(v) + hand@.to_multiset().count(v)
                <= 8 by {
                assert(hand@.to_multiset().add(deck@.to_multiset()).count(v)
                    == pre_deal.to_multiset().count(v));
            }
        }

        let companion_kind = if rng::random_below(2) == 0 {
            CompanionKind::Melee
        } else {
            CompanionKind::Range
        };
        let g = Game {
            state: State::Playing,
            monsters,
            player_index: 0,
            player_kind: PlayerKind::Regular,
            companion_index: 0,
            companion_kind,
            deck,
            hand,
            hand_limit: 5,
            current_action: None,
            current_card: None,
            discarded: false,
            payments,
            trophies: 0,
        };
        proof {
            crate::monsters::lemma_dead_count_le_len(g@.monsters);
        }
        g
    }

    /// Check the session invariant at run time. A caller that assembles a
    /// session by hand tests it before driving the resolver, and fails
    /// fast instead of playing on an impossible state.
    pub fn validate(&self) -> (ok: bool)
        ensures
            ok == wf_state(self@),
    {
        if !self.monsters.wf_check() {
            return false;
        }
        let n = self.monsters.len();
        if n < 1 {
            return false;
        }
        if self.player_index >= n || self.companion_index >= n {
            return false;
        }
        if !(self.hand_limit == 5 || self.hand_limit == 6) {
            return false;
        }
        if matches!(self.player_kind, PlayerKind::Monstrous) != (self.hand_limit == 6) {
            return false;
        }
        if self.hand.len() > self.hand_limit as usize {
            return false;
        }
        if self.deck.len() > 40 {
            return false;
        }
        if self.hand.len() > 40 - self.deck.len() {
            return false;
        }
        if !deck::cards_check(&self.deck) {
            return false;
        }
        if !deck::cards_check(&self.hand) {
            return false;
        }
        match self.current_card {
            Some(i) => {
                if i >= self.hand.len() {
                    return false;
                }
            }
            None => {}
        }
        let dead = self.monsters.dead_monsters();
        if self.trophies as usize > dead {
            return false;
        }
        true
    }

    /// Final score, read at the end of a session: three points a payment,
    /// two a trophy, one per card left in hand or deck.
    pub fn score(&self) -> (s: u64)
        requires
            wf_state(self@),
        ensures
            s == spec_score(self@),
    {
        self.payments as u64 * 3 + self.trophies as u64 * 2
            + self.hand.len() as u64 + self.deck.len() as u64
    }

    /// Whether every monster has been killed (the session was won).
    pub fn all_monsters_dead(&self) -> (r: bool)
        ensures
            r == forall|i: int| 0 <= i < self@.monsters.len()
                ==> !(#[trigger] self@.monsters[i]).alive,
    {
        let n = self.monsters.len();
        let mut i: usize = 0;
        while i < n
            invariant
                i <= n,
                n == self@.monsters.len(),
                forall|j: int| 0 <= j < i ==> !(#[trigger] self@.monsters[j]).alive,
            decreases n - i,
        {
            if self.monsters.roster[i].alive {
                proof {
                    assert(self@.monsters[i as int].alive);
                }
                return false;
            }
            i += 1;
        }
        true
    }

    /// Move resolution (see [`apply_move`]): relocates the entity, marks
    /// the destination, and suffers the Noxious discard. Returns the
    /// destination, the trophy qualification, and the discard pick drawn.
    fn resolve_move(&mut self, e: Entity, d: Direction, num: u8) -> (r: (usize, bool, Ghost<nat>))
        requires
            wf_core(old(self)@),
        ensures
            ({
                let m = apply_move(old(self)@, e, d, num, r.2@);
                &&& final(self)@ == m.0
                &&& m.1 == Some(r.0 as int)
                &&& m.2 == r.1
            }),
    {
        let ghost g0 = self@;
        let n = self.monsters.len();
        let cur = match e {
            Entity::Character => self.player_index,
            Entity::Companion => self.companion_index,
        };
        let stride = num as usize;
        let ni = match d {
            Direction::Left => if cur >= stride { cur - stride } else { 0 },
            Direction::Right => if cur + stride <= n - 1 { cur + stride } else { n - 1 },
        };
        proof {
            assert(ni as int == move_dest(n as int, cur as int, d, num as int));
        }
        match e {
            Entity::Character => { self.player_index = ni; }
            Entity::Companion => { self.companion_index = ni; }
        }
        let ghost g1 = if e is Character {
            GameV { player_index: ni, ..g0 }
        } else {
            GameV { companion_index: ni, ..g0 }
        };
        proof {
            assert(self@ =~= g1);
        }
        self.monsters.record_hit(ni, ToSlay::Move);
        let ghost g2 = with_hit(g1, ni as int, ToSlay::Move);
        proof {
            assert(self@ =~= g2);
            assert(forall|j: int| 0 <= j < g2.monsters.len() ==> (#[trigger] g2.monsters[j]).kind
                == g1.monsters[j].kind
                && g2.monsters[j].strength_adjustment == g1.monsters[j].strength_adjustment);
            crate::monsters::lemma_roster_wf_same_kinds(g1.monsters, g2.monsters);
        }
        let eff = self.monsters.effective_strength(ni);
        let trophy = num == eff;
        let kind = self.monsters.roster[ni].kind;
        let noxious = matches!(catalog::archetype_ability(kind), Some(Ability::Noxious))
            && self.monsters.roster[ni].alive;
        let pick: Ghost<nat>;
        if noxious && self.hand.len() > 0 {
            let p = rng::random_below(self.hand.len());
            let _ = deck::discard(&mut self.hand, p);
            self.discarded = true;
            pick = Ghost(p as nat);
            proof {
                vstd::arithmetic::div_mod::lemma_small_mod(p as nat, g2.hand.len());
                assert(p as int % g2.hand.len() as int == p as int);
                assert(self@ =~= GameV { hand: g2.hand.remove(p as int), discarded: true, ..g2 });
            }
        } else {
            pick = Ghost(0nat);
        }
        proof {
            let m = apply_move(g0, e, d, num, pick@);
            assert(self@ =~= m.0);
        }
        (ni, trophy, pick)
    }

    /// Range resolution (see [`apply_range`]): a marker at the target if
    /// the stride lands on the row; a miss changes nothing.
    fn resolve_range(&mut self, e: Entity, d: Direction, num: u8) -> (r: (Option<usize>, bool))
        requires
            wf_core(old(self)@),
        ensures
            ({
                let m = apply_range(old(self)@, e, d, num);
                &&& final(self)@ == m.0
                &&& m.1 == opt_index(r.0)
                &&& m.2 == r.1
            }),
    {
        let ghost g0 = self@;
        let n = self.monsters.len();
        let cur = match e {
            Entity::Character => self.player_index,
            Entity::Companion => self.companion_index,
        };
        let stride = num as usize;
        let ti_opt: Option<usize> = match d {
            Direction::Left => if cur >= stride { Some(cur - stride) } else { None },
            Direction::Right => if cur + stride < n { Some(cur + stride) } else { None },
        };
        proof {
            assert(opt_index(ti_opt) == range_target(n as int, cur as int, d, num as int));
        }
        match ti_opt {
            Some(ti) => {
                let eff = self.monsters.effective_strength(ti);
                let trophy = num == eff;
                self.monsters.record_hit(ti, ToSlay::Range);
                proof {
                    assert(self@ =~= with_hit(g0, ti as int, ToSlay::Range));
                }
                (Some(ti), trophy)
            }
            None => (None, false),
        }
    }

    /// One full update cycle: the entry point the run loop drives. Files
    /// the input into the selection buffer, resolves the (action, card)
    /// pair the moment both slots are filled, recomputes the Rally
    /// adjustments, and runs the hand/turn lifecycle. The whole effect is
    /// the spec function [`step`], for the random discard pick the cycle
    /// happened to draw.
    #[verifier::rlimit(100)]
    pub fn update(&mut self, input: SelectedInput)
        requires
            wf_state(old(self)@),
            input_ok(old(self)@, input),
        ensures
            wf_state(final(self)@),
            exists|pick: nat| final(self)@ == step(old(self)@, input, pick),
            final(self)@.deck.len() + final(self)@.hand.len()
                <= old(self)@.deck.len() + old(self)@.hand.len(),
            old(self)@.hand_limit == 6 ==> final(self)@.hand_limit == 6,
            old(self)@.trophies <= final(self)@.trophies,
            final(self)@.monsters.len() == old(self)@.monsters.len(),
            forall|i: int| 0 <= i < old(self)@.monsters.len()
                ==> (!(#[trigger] old(self)@.monsters[i]).alive
                    ==> !final(self)@.monsters[i].alive),
            input is ResetRequested ==> final(self)@.state is Reset,
    {
        if matches!(input, SelectedInput::ResetRequested) {
            self.state = State::Reset;
            proof {
                assert(self@ =~= step(old(self)@, input, 0));
                lemma_step_preserves_wf(old(self)@, input, 0);
                assert(exists|p: nat| self@ == step(old(self)@, input, p));
            }
            return;
        }
        if !matches!(self.state, State::Playing) {
            proof {
                assert(self@ =~= step(old(self)@, input, 0));
                assert(exists|p: nat| self@ == step(old(self)@, input, p));
            }
            return;
        }

        // Phase one: file the input into its selection slot.
        match input {
            SelectedInput::ActionSelected(a) => { self.current_action = Some(a); }
            SelectedInput::CardSelected(i) => { self.current_card = Some(i); }
            SelectedInput::ResetRequested => {}
        }
        let ghost gsel = with_selection(old(self)@, input);
        proof {
            assert(self@ =~= gsel);
            assert(wf_state(gsel));
        }

        // Phase two: resolution, once both slots are filled.
        let r = self.resolve_selected();
        let end_turn = r.0;
        let ghost pick: nat = r.1@;
        let ghost gres = resolve_phase(gsel, pick);
        proof {
            assert(self@ == gres.0);
            assert(end_turn == gres.1);
            lemma_resolve_wf(gsel, pick);
        }

        // Phase three: the unconditional strength-adjustment recompute.
        self.monsters.recompute_adjustments();
        let ghost gral = rally_phase(gres.0);
        proof {
            assert(self@ =~= gral);
            lemma_rally_wf(gres.0);
        }

        // Phase four: the hand/turn lifecycle.
        self.run_lifecycle(end_turn);
        proof {
            assert(self@ == lifecycle_phase(gral, end_turn));
            assert(self@ == step(old(self)@, input, pick));
            lemma_step_preserves_wf(old(self)@, input, pick);
            assert(exists|p: nat| self@ == step(old(self)@, input, p));
            crate::laws::lemma_card_total_nonincreasing(old(self)@, input, pick);
            crate::laws::lemma_hand_limit_one_way(old(self)@, input, pick);
            assert forall|i: int| 0 <= i < old(self)@.monsters.len()
                && !old(self)@.monsters[i].alive implies !self@.monsters[i].alive by {
                crate::laws::lemma_no_resurrection(old(self)@, input, pick, i);
            }
        }
    }

    /// Resolution, once both slots are filled. EndTurn fires alone and
    /// spends no card. Returns whether an end-of-turn reset is pending,
    /// and the Noxious discard pick that was drawn.
    #[verifier::rlimit(100)]
    fn resolve_selected(&mut self) -> (r: (bool, Ghost<nat>))
        requires
            wf_state(old(self)@),
        ensures
            ({
                let rp = resolve_phase(old(self)@, r.1@);
                &&& final(self)@ == rp.0
                &&& r.0 == rp.1
            }),
    {
        let ghost gsel = old(self)@;
        let mut end_turn: bool = false;
        let ghost mut pick: nat = 0nat;
        match (self.current_action, self.current_card) {
            (Some(Action::EndTurn), _) => {
                self.current_action = None;
                self.current_card = None;
                end_turn = true;
                proof {
                    assert(self@ =~= resolve_phase(gsel, pick).0);
                    assert(end_turn == resolve_phase(gsel, pick).1);
                }
            }
            (Some(a), Some(ci)) => {
                let num = deck::discard(&mut self.hand, ci);
                self.current_action = None;
                self.current_card = None;
                let ghost g1 = cleared_slots(GameV { hand: gsel.hand.remove(ci as int), ..gsel });
                proof {
                    assert(self@ =~= g1);
                    deck::lemma_cards_ok_remove(gsel.hand, ci as int);
                    assert(wf_state(g1));
                }
                let mut target: Option<usize> = None;
                let mut trophy: bool = false;
                match a {
                    Action::Move(e, d) => {
                        let r = self.resolve_move(e, d, num);
                        target = Some(r.0);
                        trophy = r.1;
                        proof {
                            pick = r.2@;
                            lemma_apply_move_wf(g1, e, d, num, pick);
                        }
                    }
                    Action::Range(e, d) => {
                        let r = self.resolve_range(e, d, num);
                        target = r.0;
                        trophy = r.1;
                        proof {
                            lemma_apply_range_wf(g1, e, d, num);
                        }
                    }
                    Action::Melee(e) => {
                        let r = self.resolve_melee(e, num);
                        target = r.0;
                        trophy = r.1;
                        proof {
                            lemma_apply_melee_wf(g1, e, num);
                        }
                    }
                    Action::Swap => {
                        self.companion_kind = match self.companion_kind {
                            CompanionKind::Melee => CompanionKind::Range,
                            CompanionKind::Range => CompanionKind::Melee,
                        };
                        proof {
                            assert(self@ =~= (GameV {
                                companion_kind: toggled(g1.companion_kind),
                                ..g1
                            }));
                        }
                    }
                    Action::EndTurn => {
                        proof {
                            assert(false);
                        }
                    }
                }
                let ghost ar = match a {
                    Action::Move(e, d) => apply_move(g1, e, d, num, pick),
                    Action::Range(e, d) => apply_range(g1, e, d, num),
                    Action::Melee(e) => apply_melee(g1, e, num),
                    Action::Swap => (
                        GameV { companion_kind: toggled(g1.companion_kind), ..g1 },
                        None::<int>,
                        false,
                    ),
                    Action::EndTurn => (g1, None::<int>, false),
                };
                proof {
                    assert(self@ == ar.0);
                    assert(opt_index(target) == ar.1);
                    assert(trophy == ar.2);
                    assert(wf_state(ar.0));
                    crate::monsters::lemma_dead_count_le_len(ar.0.monsters);
                }
                if let Some(ti) = target {
                    let died = self.monsters.check_kill(ti);
                    if died && trophy {
                        self.trophies = self.trophies + 1;
                    }
                }
                proof {
                    assert(self@ =~= kill_phase(ar.0, ar.1, ar.2));
                    assert(self@ =~= resolve_phase(gsel, pick).0);
                    assert(end_turn == resolve_phase(gsel, pick).1);
                }
            }
            _ => {
                proof {
                    assert(self@ =~= resolve_phase(gsel, pick).0);
                    assert(end_turn == resolve_phase(gsel, pick).1);
                }
            }
        }
        (end_turn, Ghost(pick))
    }

    /// The hand/turn lifecycle: promote the player on a hand exhausted
    /// without a discard, refill on a pending reset, wipe all hit markers
    /// with it, and end the game when no card is left anywhere.
    fn run_lifecycle(&mut self, end_turn: bool)
        ensures
            final(self)@ == lifecycle_phase(old(self)@, end_turn),
    {
        let ghost g0 = self@;
        let mut reset = end_turn;
        if self.hand.len() == 0 && !self.discarded {
            reset = true;
            self.hand_limit = 6;
            self.player_kind = PlayerKind::Monstrous;
        }
        if reset {
            deck::refill(&mut self.hand, &mut self.deck, self.hand_limit);
            self.monsters.clear_all_hits();
        }
        if self.hand.len() == 0 && self.deck.len() == 0 {
            self.state = State::EndGame;
        }
        self.discarded = false;
        proof {
            assert(self@ =~= lifecycle_phase(g0, end_turn));
        }
    }

    /// Melee resolution (see [`apply_melee`]): a marker on the monster at
    /// the entity's own position, only when the card is at least its
    /// effective strength.
    fn resolve_melee(&mut self, e: Entity, num: u8) -> (r: (Option<usize>, bool))
        requires
            wf_core(old(self)@),
        ensures
            ({
                let m = apply_melee(old(self)@, e, num);
                &&& final(self)@ == m.0
                &&& m.1 == opt_index(r.0)
                &&& m.2 == r.1
            }),
    {
        let ghost g0 = self@;
        let ti = match e {
            Entity::Character => self.player_index,
            Entity::Companion => self.companion_index,
        };
        let eff = self.monsters.effective_strength(ti);
        if num >= eff {
            self.monsters.record_hit(ti, ToSlay::Melee);
            proof {
                assert(self@ =~= with_hit(g0, ti as int, ToSlay::Melee));
            }
            (Some(ti), num == eff)
        } else {
            (None, false)
        }
    }
}

} // verus!
