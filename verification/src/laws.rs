//! Laws of the turn resolver, each stated and proved over the spec model
//! that [`crate::game::step`] defines and that [`crate::game::Game::update`]
//! is proved to implement.

use vstd::prelude::*;
use crate::{Action, Direction, Entity, ToSlay};
use crate::catalog::spec_requirements;
use crate::game::{
    apply_melee, entity_index, input_ok, kill_phase, lemma_lifecycle_wf, lemma_rally_wf,
    lemma_resolve_wf, lemma_step_preserves_wf, range_target, rally_phase, resolve_phase, step,
    with_selection, wf_state, GameV, SelectedInput,
};
use crate::monsters::{covered, effective, lemma_dead_count_le_len};

verus! {

/// For a Melee attempt on the monster at the acting entity's position: a
/// kill-qualifying Melee marker is recorded if and only if the card is at
/// least the target's effective strength; the trophy qualifies if and
/// only if the card equals it exactly; and the trophy is banked if and
/// only if this very hit also completes a living target's kill
/// requirements.
pub proof fn lemma_melee_hit_iff(g: GameV, e: Entity, num: u8)
    requires
        wf_state(g),
    ensures
        ({
            let ti = entity_index(g, e) as int;
            let m = apply_melee(g, e, num);
            let k = kill_phase(m.0, m.1, m.2);
            &&& (num as int >= effective(g.monsters[ti]) <==> m.0.monsters[ti].current_hits
                == g.monsters[ti].current_hits.push(ToSlay::Melee))
            &&& ((num as int) < effective(g.monsters[ti]) ==> m.0 == g && m.1 is None)
            &&& (m.2 <==> num as int == effective(g.monsters[ti]))
            &&& (k.trophies == g.trophies + 1 <==> m.2 && g.monsters[ti].alive
                && covered(
                    spec_requirements(g.monsters[ti].kind as int),
                    m.0.monsters[ti].current_hits,
                ))
            &&& (k.trophies == g.trophies || k.trophies == g.trophies + 1)
        }),
{
    let ti = entity_index(g, e) as int;
    let m = apply_melee(g, e, num);
    lemma_dead_count_le_len(g.monsters);
    if (num as int) < effective(g.monsters[ti]) {
        assert(g.monsters[ti].current_hits.len()
            < g.monsters[ti].current_hits.push(ToSlay::Melee).len());
    }
}

/// A Range attempt whose target falls off the row spends exactly one
/// card and does nothing else: no marker lands anywhere, no trophy is
/// awarded, no end-of-turn reset is raised.
pub proof fn lemma_range_miss(g: GameV, e: Entity, d: Direction, ci: usize, pick: nat)
    requires
        wf_state(g),
        g.current_action == Some(Action::Range(e, d)),
        g.current_card == Some(ci),
        range_target(
            g.monsters.len() as int,
            entity_index(g, e) as int,
            d,
            g.hand[ci as int] as int,
        ) is None,
    ensures
        ({
            let r = resolve_phase(g, pick);
            &&& r.0.hand.len() == g.hand.len() - 1
            &&& r.0.monsters == g.monsters
            &&& r.0.trophies == g.trophies
            &&& !r.1
        }),
{
}

/// A dead monster stays dead: no update cycle, on any input and any
/// random pick, flips an alive flag back on.
pub proof fn lemma_no_resurrection(g: GameV, input: SelectedInput, pick: nat, i: int)
    requires
        wf_state(g),
        input_ok(g, input),
        0 <= i < g.monsters.len(),
        !g.monsters[i].alive,
    ensures
        step(g, input, pick).monsters.len() == g.monsters.len(),
        !step(g, input, pick).monsters[i].alive,
{
    if input is ResetRequested {
    } else if !(g.state is Playing) {
    } else {
        let g1 = with_selection(g, input);
        lemma_resolve_wf(g1, pick);
        let r = resolve_phase(g1, pick);
        assert(!r.0.monsters[i].alive);
        let g3 = rally_phase(r.0);
        assert(!g3.monsters[i].alive);
        let g4 = crate::game::lifecycle_phase(g3, r.1);
        assert(!g4.monsters[i].alive);
    }
}

/// The kill check fires exactly once: a living monster dies the moment
/// its markers cover its kill requirements — the alive flag flips off and
/// the markers are wiped with it — and a dead target is never touched.
pub proof fn lemma_kill_exactly_once(g: GameV, i: int, trophy: bool)
    requires
        0 <= i < g.monsters.len(),
    ensures
        ({
            let k = kill_phase(g, Some(i), trophy);
            &&& (g.monsters[i].alive && covered(
                spec_requirements(g.monsters[i].kind as int),
                g.monsters[i].current_hits,
            ) ==> !k.monsters[i].alive
                && k.monsters[i].current_hits == Seq::<ToSlay>::empty())
            &&& (!g.monsters[i].alive ==> k == g)
        }),
{
}

/// The hand never exceeds the hand limit, and the limit moves only from
/// 5 to 6 — with the promotion to Monstrous — and never back.
pub proof fn lemma_hand_limit_one_way(g: GameV, input: SelectedInput, pick: nat)
    requires
        wf_state(g),
        input_ok(g, input),
    ensures
        ({
            let s = step(g, input, pick);
            &&& s.hand.len() <= s.hand_limit
            &&& (s.hand_limit == g.hand_limit || (g.hand_limit == 5 && s.hand_limit == 6))
            &&& (g.hand_limit == 6 ==> s.hand_limit == 6)
        }),
{
    lemma_step_preserves_wf(g, input, pick);
    if input is ResetRequested {
    } else if !(g.state is Playing) {
    } else {
        let g1 = with_selection(g, input);
        lemma_resolve_wf(g1, pick);
    }
}

/// The deck and the hand together never gain a card over an update
/// cycle; cards only get spent, discarded or dealt across.
pub proof fn lemma_card_total_nonincreasing(g: GameV, input: SelectedInput, pick: nat)
    requires
        wf_state(g),
        input_ok(g, input),
    ensures
        ({
            let s = step(g, input, pick);
            s.deck.len() + s.hand.len() <= g.deck.len() + g.hand.len()
        }),
{
    if input is ResetRequested {
    } else if !(g.state is Playing) {
    } else {
        let g1 = with_selection(g, input);
        lemma_resolve_wf(g1, pick);
        let r = resolve_phase(g1, pick);
        lemma_rally_wf(r.0);
        lemma_lifecycle_wf(rally_phase(r.0), r.1);
    }
}

} // verus!
