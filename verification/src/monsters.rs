//! The monster roster: one game's random draw of distinct archetypes, with
//! each monster's mutable combat state.
//!
//! A monster's effective strength is its archetype's base strength plus a
//! strength adjustment that is recomputed from scratch every resolution
//! cycle: every living Rally monster grants +1 to each of its neighbours.
//! Hit markers accumulate on a monster until its kill requirements are
//! matched one for one (order irrelevant), at which point it dies and its
//! markers are cleared; markers are also wiped on a hand-exhaustion reset.

use vstd::prelude::*;
use vstd::seq_lib::group_to_multiset_ensures;
use crate::{Ability, Direction, ToSlay};
use crate::catalog;
use crate::catalog::{spec_ability, spec_requirements, spec_strength, CATALOG_LEN};
use crate::rng;

verus! {

/// One roster slot: an archetype reference plus this life's combat state.
pub struct Monster {
    /// Index of the monster's archetype in the catalog.
    pub kind: usize,
    /// Rally-derived strength bonus, recomputed every resolution cycle.
    pub strength_adjustment: u8,
    /// Hit markers accumulated during this life of the monster.
    pub current_hits: Vec<ToSlay>,
    /// False once the monster has been killed; never flips back.
    pub alive: bool,
}

/// Mathematical model of one roster slot.
#[verifier::ext_equal]
pub ghost struct MonsterV {
    pub kind: usize,
    pub strength_adjustment: u8,
    pub current_hits: Seq<ToSlay>,
    pub alive: bool,
}

impl View for Monster {
    type V = MonsterV;

    open spec fn view(&self) -> MonsterV {
        MonsterV {
            kind: self.kind,
            strength_adjustment: self.strength_adjustment,
            current_hits: self.current_hits@,
            alive: self.alive,
        }
    }
}

/// The ordered row of monsters. Built once per session; never resized.
pub struct Monsters {
    /// The roster, position-indexed from the left.
    pub roster: Vec<Monster>,
}

impl View for Monsters {
    type V = Seq<MonsterV>;

    open spec fn view(&self) -> Seq<MonsterV> {
        Seq::new(self.roster@.len(), |i: int| self.roster@[i]@)
    }
}

/// Effective strength: base strength of the archetype plus the current
/// Rally adjustment.
pub open spec fn effective(m: MonsterV) -> int {
    spec_strength(m.kind as int) + m.strength_adjustment
}

/// Does this monster currently project a Rally bonus onto its neighbours?
pub open spec fn is_rally(m: MonsterV) -> bool {
    m.alive && spec_ability(m.kind as int) == Some(Ability::Rally)
}

/// The Rally bonus owed to position `i`: +1 for each living Rally
/// neighbour.
pub open spec fn rally_bonus(ms: Seq<MonsterV>, i: int) -> int {
    (if i > 0 && is_rally(ms[i - 1]) { 1int } else { 0int })
    + (if i + 1 < ms.len() && is_rally(ms[i + 1]) { 1int } else { 0int })
}

/// The roster after a full strength-adjustment recompute: every
/// adjustment is rebuilt from the alive flags and abilities alone.
pub open spec fn rally_recomputed(ms: Seq<MonsterV>) -> Seq<MonsterV> {
    Seq::new(ms.len(), |i: int| MonsterV { strength_adjustment: rally_bonus(ms, i) as u8, ..ms[i] })
}

/// Kill-requirement matching: every requirement tag is matched, one for
/// one and in any order, by an accumulated hit marker.
pub open spec fn covered(req: Seq<ToSlay>, hits: Seq<ToSlay>) -> bool {
    forall|t: ToSlay| (#[trigger] req.to_multiset().count(t)) <= hits.to_multiset().count(t)
}

/// Well-formedness of one slot: a real archetype, and an adjustment no
/// two neighbours can exceed.
pub open spec fn wf_monster(m: MonsterV) -> bool {
    &&& m.kind < CATALOG_LEN
    &&& m.strength_adjustment <= 2
}

/// Well-formedness of the roster: distinct archetypes, each slot well
/// formed.
pub open spec fn roster_wf(ms: Seq<MonsterV>) -> bool {
    &&& ms.len() <= CATALOG_LEN
    &&& forall|i: int| 0 <= i < ms.len() ==> wf_monster(#[trigger] ms[i])
    &&& forall|i: int, j: int| 0 <= i < j < ms.len() ==> ms[i].kind != ms[j].kind
}

/// The roster with every monster's hit markers wiped.
pub open spec fn cleared_hits(ms: Seq<MonsterV>) -> Seq<MonsterV> {
    ms.map_values(|m: MonsterV| MonsterV { current_hits: Seq::<ToSlay>::empty(), ..m })
}

/// Number of dead monsters in the roster. Each trophy is earned by a
/// kill, so the trophy count never exceeds this.
pub open spec fn dead_count(ms: Seq<MonsterV>) -> int
    decreases ms.len(),
{
    if ms.len() == 0 {
        0
    } else {
        dead_count(ms.drop_last()) + (if ms.last().alive { 0int } else { 1int })
    }
}

/// The dead count is bounded by the roster size.
pub proof fn lemma_dead_count_le_len(ms: Seq<MonsterV>)
    ensures
        0 <= dead_count(ms) <= ms.len(),
    decreases ms.len(),
{
    if ms.len() > 0 {
        lemma_dead_count_le_len(ms.drop_last());
    }
}

/// Rosters that agree on every alive flag have the same dead count.
pub proof fn lemma_dead_count_alive_pointwise(a: Seq<MonsterV>, b: Seq<MonsterV>)
    requires
        a.len() == b.len(),
        forall|i: int| 0 <= i < a.len() ==> (#[trigger] a[i]).alive == b[i].alive,
    ensures
        dead_count(a) == dead_count(b),
    decreases a.len(),
{
    if a.len() > 0 {
        assert(forall|i: int| 0 <= i < a.drop_last().len()
            ==> (#[trigger] a.drop_last()[i]).alive == b.drop_last()[i].alive);
        lemma_dead_count_alive_pointwise(a.drop_last(), b.drop_last());
    }
}

/// Replacing one slot changes the dead count by the difference the slot
/// contributes.
pub proof fn lemma_dead_count_update(ms: Seq<MonsterV>, i: int, m: MonsterV)
    requires
        0 <= i < ms.len(),
    ensures
        dead_count(ms.update(i, m)) == dead_count(ms)
            - (if ms[i].alive { 0int } else { 1int })
            + (if m.alive { 0int } else { 1int }),
    decreases ms.len(),
{
    let u = ms.update(i, m);
    if i == ms.len() - 1 {
        assert(u.drop_last() =~= ms.drop_last());
    } else {
        assert(u.drop_last() =~= ms.drop_last().update(i, m));
        lemma_dead_count_update(ms.drop_last(), i, m);
    }
}

/// Roster well-formedness depends only on kinds and adjustments, which
/// hit markers, kills and marker wipes never touch.
pub proof fn lemma_roster_wf_same_kinds(a: Seq<MonsterV>, b: Seq<MonsterV>)
    requires
        roster_wf(a),
        b.len() == a.len(),
        forall|i: int| 0 <= i < b.len() ==> (#[trigger] b[i]).kind == a[i].kind
            && b[i].strength_adjustment == a[i].strength_adjustment,
    ensures
        roster_wf(b),
{
    assert(forall|i: int| 0 <= i < b.len() ==> wf_monster(a[i]) && wf_monster(#[trigger] b[i]));
}

/// The recompute keeps the roster well formed: a monster has at most two
/// neighbours, so the rebuilt adjustment never exceeds 2.
pub proof fn lemma_roster_wf_rally(ms: Seq<MonsterV>)
    requires
        roster_wf(ms),
    ensures
        roster_wf(rally_recomputed(ms)),
{
    let r = rally_recomputed(ms);
    assert(forall|i: int| 0 <= i < r.len() ==> wf_monster(ms[i]) && wf_monster(#[trigger] r[i]));
}

/// The advisory Reign flag: a living Reign monster whose living neighbour
/// in direction `d` is strictly weaker should see that neighbour killed
/// first. Purely informational; resolution never gates on it.
pub open spec fn spec_reign_warning(ms: Seq<MonsterV>, i: int, d: Direction) -> bool {
    let j = if d is Left { i - 1 } else { i + 1 };
    &&& ms[i].alive
    &&& spec_ability(ms[i].kind as int) == Some(Ability::Reign)
    &&& 0 <= j < ms.len()
    &&& ms[j].alive
    &&& effective(ms[j]) < effective(ms[i])
}

/// Count the occurrences of `t` in `hits`.
fn count_tag(hits: &Vec<ToSlay>, t: ToSlay) -> (c: usize)
    ensures
        c == hits@.to_multiset().count(t),
{
    broadcast use group_to_multiset_ensures;
    broadcast use vstd::multiset::group_multiset_axioms;
    broadcast use vstd::multiset::group_multiset_properties;

    let mut c: usize = 0;
    let mut i: usize = 0;
    while i < hits.len()
        invariant
            i <= hits@.len(),
            c <= i,
            c == hits@.take(i as int).to_multiset().count(t),
        decreases hits@.len() - i,
    {
        proof {
            let s = hits@;
            assert(s.take(i + 1) =~= s.take(i as int).push(s[i as int]));
            vstd::seq_lib::to_multiset_build(s.take(i as int), s[i as int]);
            assert(s.take(i + 1).to_multiset().count(t)
                == s.take(i as int).to_multiset().count(t)
                    + (if s[i as int] == t { 1nat } else { 0nat }));
        }
        if hits[i] == t {
            c += 1;
        }
        i += 1;
    }
    proof {
        assert(hits@.take(hits@.len() as int) =~= hits@);
    }
    c
}

impl Monsters {
    /// Number of monsters in the row (alive or dead).
    pub fn len(&self) -> (n: usize)
        ensures
            n == self@.len(),
    {
        self.roster.len()
    }

    /// Draw a fresh roster of `n` distinct archetypes, uniformly at random
    /// and without replacement. Every monster starts alive, unadjusted and
    /// without hit markers.
    pub fn init(n: usize) -> (m: Monsters)
        requires
            n <= CATALOG_LEN,
        ensures
            m@.len() == n,
            roster_wf(m@),
            forall|i: int| 0 <= i < n ==> {
                &&& (#[trigger] m@[i]).alive
                &&& m@[i].strength_adjustment == 0
                &&& m@[i].current_hits == Seq::<ToSlay>::empty()
            },
    {
        // All archetype indices not yet drawn.
        let mut candidates: Vec<usize> = Vec::new();
        let mut k: usize = 0;
        while k < CATALOG_LEN
            invariant
                k <= CATALOG_LEN,
                candidates@.len() == k,
                forall|p: int| 0 <= p < k ==> candidates@[p] == p,
            decreases CATALOG_LEN - k,
        {
            candidates.push(k);
            k += 1;
        }

        let mut roster: Vec<Monster> = Vec::new();
        let mut i: usize = 0;
        while i < n
            invariant
                i <= n,
                n <= CATALOG_LEN,
                roster@.len() == i,
                candidates@.len() + i == CATALOG_LEN,
                forall|p: int| 0 <= p < candidates@.len() ==> (#[trigger] candidates@[p]) < CATALOG_LEN,
                forall|p: int, q: int| 0 <= p < q < candidates@.len()
                    ==> candidates@[p] != candidates@[q],
                forall|p: int| 0 <= p < i ==> {
                    let m = (#[trigger] roster@[p])@;
                    &&& m.kind < CATALOG_LEN
                    &&& m.strength_adjustment == 0
                    &&& m.alive
                    &&& m.current_hits == Seq::<ToSlay>::empty()
                },
                forall|p: int, q: int| 0 <= p < q < i
                    ==> roster@[p].kind != roster@[q].kind,
                forall|p: int, q: int| 0 <= p < i && 0 <= q < candidates@.len()
                    ==> roster@[p].kind != candidates@[q],
            decreases n - i,
        {
            let ghost old_candidates = candidates@;
            let ghost old_roster = roster@;
            let r = rng::random_below(candidates.len());
            let kind = candidates.remove(r);
            proof {
                assert(forall|q: int| 0 <= q < candidates@.len()
                    ==> #[trigger] candidates@[q] == if q < r { old_candidates[q] } else { old_candidates[q + 1] });
            }
            roster.push(Monster {
                kind,
                strength_adjustment: 0,
                current_hits: Vec::new(),
                alive: true,
            });
            i += 1;
        }

        let m = Monsters { roster };
        proof {
            assert(forall|p: int| 0 <= p < n ==> #[trigger] m@[p] == roster@[p]@);
        }
        m
    }

    /// Check roster well-formedness at run time: real archetypes, no
    /// duplicate, no adjustment beyond two neighbours. A caller that
    /// assembles a roster by hand tests it before play.
    pub fn wf_check(&self) -> (ok: bool)
        ensures
            ok == roster_wf(self@),
    {
        let n = self.roster.len();
        if n > CATALOG_LEN {
            return false;
        }
        let mut i: usize = 0;
        while i < n
            invariant
                i <= n,
                n == self@.len(),
                n <= CATALOG_LEN,
                forall|p: int| 0 <= p < i ==> wf_monster(#[trigger] self@[p]),
                forall|p: int, q: int| 0 <= p < q < i ==> self@[p].kind != self@[q].kind,
            decreases n - i,
        {
            if self.roster[i].kind >= CATALOG_LEN || self.roster[i].strength_adjustment > 2 {
                proof {
                    assert(!wf_monster(self@[i as int]));
                }
                return false;
            }
            let mut j: usize = 0;
            while j < i
                invariant
                    j <= i,
                    i < n,
                    n == self@.len(),
                    forall|q: int| 0 <= q < j ==> (#[trigger] self@[q]).kind != self@[i as int].kind,
                decreases i - j,
            {
                if self.roster[j].kind == self.roster[i].kind {
                    proof {
                        assert(self@[j as int].kind == self@[i as int].kind);
                    }
                    return false;
                }
                j += 1;
            }
            i += 1;
        }
        true
    }

    /// Number of dead monsters in the row.
    pub fn dead_monsters(&self) -> (c: usize)
        ensures
            c == dead_count(self@),
    {
        let n = self.roster.len();
        let mut c: usize = 0;
        let mut i: usize = 0;
        while i < n
            invariant
                i <= n,
                n == self@.len(),
                c <= i,
                c == dead_count(self@.take(i as int)),
            decreases n - i,
        {
            proof {
                assert(self@.take(i + 1).drop_last() =~= self@.take(i as int));
                assert(self@.take(i + 1).last() == self@[i as int]);
            }
            if !self.roster[i].alive {
                c += 1;
            }
            i += 1;
        }
        proof {
            assert(self@.take(n as int) =~= self@);
        }
        c
    }

    /// Effective strength of the monster at position `i`. Bounded by the
    /// strongest archetype plus two Rally neighbours.
    pub fn effective_strength(&self, i: usize) -> (r: u8)
        requires
            roster_wf(self@),
            i < self@.len(),
        ensures
            r == effective(self@[i as int]),
            r <= 7,
    {
        proof {
            assert(wf_monster(self@[i as int]));
        }
        let s = catalog::archetype_strength(self.roster[i].kind);
        s + self.roster[i].strength_adjustment
    }

    /// Record a hit marker on the monster at position `i`. Markers land
    /// whether or not the monster is alive; the kill check ignores dead
    /// monsters.
    pub fn record_hit(&mut self, i: usize, t: ToSlay)
        requires
            i < old(self)@.len(),
        ensures
            final(self)@ == old(self)@.update(
                i as int,
                MonsterV { current_hits: old(self)@[i as int].current_hits.push(t), ..old(self)@[i as int] },
            ),
    {
        self.roster[i].current_hits.push(t);
        proof {
            assert(final(self)@ =~= old(self)@.update(
                i as int,
                MonsterV { current_hits: old(self)@[i as int].current_hits.push(t), ..old(self)@[i as int] },
            ));
        }
    }

    /// The kill check for position `i`: a living monster whose accumulated
    /// markers match its kill requirements dies, and its markers are
    /// cleared the instant it dies. Returns whether it died just now.
    pub fn check_kill(&mut self, i: usize) -> (died: bool)
        requires
            roster_wf(old(self)@),
            i < old(self)@.len(),
        ensures
            died == (old(self)@[i as int].alive
                && covered(spec_requirements(old(self)@[i as int].kind as int), old(self)@[i as int].current_hits)),
            died ==> final(self)@ == old(self)@.update(
                i as int,
                MonsterV { alive: false, current_hits: Seq::<ToSlay>::empty(), ..old(self)@[i as int] },
            ),
            !died ==> final(self)@ == old(self)@,
    {
        proof {
            assert(wf_monster(self@[i as int]));
        }
        if !self.roster[i].alive {
            return false;
        }
        let req = catalog::archetype_requirements(self.roster[i].kind);
        let ok = count_tag(&req, ToSlay::Melee) <= count_tag(&self.roster[i].current_hits, ToSlay::Melee)
            && count_tag(&req, ToSlay::Range) <= count_tag(&self.roster[i].current_hits, ToSlay::Range)
            && count_tag(&req, ToSlay::Move) <= count_tag(&self.roster[i].current_hits, ToSlay::Move);
        proof {
            let reqs = spec_requirements(old(self)@[i as int].kind as int);
            let hits = old(self)@[i as int].current_hits;
            if ok {
                assert forall|t: ToSlay| (#[trigger] reqs.to_multiset().count(t)) <= hits.to_multiset().count(t) by {
                    match t {
                        ToSlay::Melee => {},
                        ToSlay::Range => {},
                        ToSlay::Move => {},
                    }
                }
            }
        }
        if ok {
            self.roster[i].alive = false;
            self.roster[i].current_hits = Vec::new();
            proof {
                assert(final(self)@ =~= old(self)@.update(
                    i as int,
                    MonsterV { alive: false, current_hits: Seq::<ToSlay>::empty(), ..old(self)@[i as int] },
                ));
            }
            true
        } else {
            false
        }
    }

    /// The unconditional strength-adjustment recompute: reset every
    /// adjustment, then grant +1 per living Rally neighbour. Reads only
    /// alive flags and abilities, so it is stateless and self-correcting.
    pub fn recompute_adjustments(&mut self)
        requires
            roster_wf(old(self)@),
        ensures
            final(self)@ == rally_recomputed(old(self)@),
    {
        let ghost orig = self@;
        let n = self.roster.len();
        let mut i: usize = 0;
        while i < n
            invariant
                i <= n,
                n == self@.len(),
                orig.len() == n,
                roster_wf(orig),
                forall|j: int| 0 <= j < n ==> #[trigger] self@[j] == if j < i {
                    MonsterV { strength_adjustment: rally_bonus(orig, j) as u8, ..orig[j] }
                } else {
                    orig[j]
                },
            decreases n - i,
        {
            let ghost pre = self@;
            let mut b: u8 = 0;
            proof {
                assert(pre[i as int] == orig[i as int]);
                assert(i > 0 ==> pre[i - 1].kind == orig[i - 1].kind
                    && pre[i - 1].alive == orig[i - 1].alive
                    && wf_monster(orig[i - 1]));
                assert(i + 1 < n ==> pre[i + 1] == orig[i + 1] && wf_monster(orig[i + 1]));
            }
            if i > 0 {
                let left = &self.roster[i - 1];
                if left.alive && matches!(catalog::archetype_ability(left.kind), Some(Ability::Rally)) {
                    b += 1;
                }
            }
            if i + 1 < n {
                let right = &self.roster[i + 1];
                if right.alive && matches!(catalog::archetype_ability(right.kind), Some(Ability::Rally)) {
                    b += 1;
                }
            }
            proof {
                assert(i > 0 ==> is_rally(self@[i - 1]) == is_rally(orig[i - 1]));
                assert(i + 1 < n ==> is_rally(self@[i + 1]) == is_rally(orig[i + 1]));
                assert(b == rally_bonus(orig, i as int));
            }
            self.roster[i].strength_adjustment = b;
            proof {
                assert(self@[i as int] =~= MonsterV {
                    strength_adjustment: rally_bonus(orig, i as int) as u8,
                    ..orig[i as int]
                });
                assert forall|j: int| 0 <= j < n && j != i implies #[trigger] self@[j] == pre[j] by {
                    assert(self.roster@[j] =~= self.roster@[j]);
                }
            }
            i += 1;
        }
        proof {
            assert(final(self)@ =~= rally_recomputed(orig));
        }
    }

    /// Wipe every monster's accumulated hit markers (the hand-exhaustion
    /// reset: mid-kill progress on living monsters is lost).
    pub fn clear_all_hits(&mut self)
        ensures
            final(self)@ == cleared_hits(old(self)@),
    {
        let ghost orig = self@;
        let n = self.roster.len();
        let mut i: usize = 0;
        while i < n
            invariant
                i <= n,
                n == self@.len(),
                orig.len() == n,
                forall|j: int| 0 <= j < n ==> #[trigger] self@[j] == if j < i {
                    MonsterV { current_hits: Seq::<ToSlay>::empty(), ..orig[j] }
                } else {
                    orig[j]
                },
            decreases n - i,
        {
            let ghost pre = self@;
            proof {
                assert(pre[i as int] == orig[i as int]);
            }
            self.roster[i].current_hits = Vec::new();
            proof {
                assert(self@[i as int] =~= MonsterV {
                    current_hits: Seq::<ToSlay>::empty(),
                    ..orig[i as int]
                });
                assert forall|j: int| 0 <= j < n && j != i implies #[trigger] self@[j] == pre[j] by {
                    assert(self.roster@[j] =~= self.roster@[j]);
                }
            }
            i += 1;
        }
        proof {
            assert(final(self)@ =~= cleared_hits(orig));
        }
    }

    /// The advisory Reign tooltip for position `i` towards direction `d`.
    pub fn reign_warning(&self, i: usize, d: Direction) -> (r: bool)
        requires
            roster_wf(self@),
            i < self@.len(),
        ensures
            r == spec_reign_warning(self@, i as int, d),
    {
        proof {
            assert(wf_monster(self@[i as int]));
        }
        if !self.roster[i].alive {
            return false;
        }
        if !matches!(catalog::archetype_ability(self.roster[i].kind), Some(Ability::Reign)) {
            return false;
        }
        match d {
            Direction::Left => {
                if i == 0 {
                    return false;
                }
                if !self.roster[i - 1].alive {
                    return false;
                }
                self.effective_strength(i - 1) < self.effective_strength(i)
            }
            Direction::Right => {
                if i + 1 >= self.roster.len() {
                    return false;
                }
                if !self.roster[i + 1].alive {
                    return false;
                }
                self.effective_strength(i + 1) < self.effective_strength(i)
            }
        }
    }
}

/// Effective strength is never negative: the base strength is
/// non-negative and the Rally adjustment only ever adds. In a well-formed
/// roster it is also bounded by the strongest archetype plus two
/// neighbours' bonuses.
pub proof fn lemma_effective_strength_nonneg(ms: Seq<MonsterV>)
    requires
        roster_wf(ms),
    ensures
        forall|i: int| 0 <= i < ms.len() ==> 0 <= effective(#[trigger] ms[i]) <= 7,
{
}

/// The Rally recompute is idempotent and stateless: it reads only alive
/// flags and abilities, which it does not change, so running it twice in
/// a row produces the adjustments of a single run.
pub proof fn lemma_rally_recompute_idempotent(ms: Seq<MonsterV>)
    ensures
        rally_recomputed(rally_recomputed(ms)) == rally_recomputed(ms),
{
    let a = rally_recomputed(ms);
    assert forall|i: int| 0 <= i < a.len() implies rally_bonus(a, i) == rally_bonus(ms, i) by {
        assert(i > 0 ==> is_rally(a[i - 1]) == is_rally(ms[i - 1]));
        assert(i + 1 < a.len() ==> is_rally(a[i + 1]) == is_rally(ms[i + 1]));
    }
    assert(rally_recomputed(a) =~= a);
}

} // verus!
