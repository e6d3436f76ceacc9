//! The deck and hand manager.
//!
//! The deck is a fixed 40-card multiset (eight copies of each value 1..=5)
//! that is randomly permuted once per session, reduced by the payment cards
//! set aside for scoring, and then consumed from the tail. The hand is a
//! bounded sequence refilled from the deck at every turn reset.

use vstd::prelude::*;
use vstd::seq_lib::group_to_multiset_ensures;
use crate::rng;

verus! {

/// A card is an action-strength token valued 1 to 5.
pub open spec fn card_ok(c: u8) -> bool {
    1 <= c <= 5
}

/// Every card of the sequence is a real card value.
pub open spec fn cards_ok(s: Seq<u8>) -> bool {
    forall|i: int| 0 <= i < s.len() ==> card_ok(#[trigger] s[i])
}

/// The hand and deck left after a refill: the hand is cleared, then up to
/// `limit` cards are drawn from the tail of the deck, stopping early when
/// the deck runs out.
pub open spec fn refilled(deck: Seq<u8>, limit: int) -> (Seq<u8>, Seq<u8>) {
    let k = if limit <= deck.len() { limit } else { deck.len() as int };
    (Seq::new(k as nat, |j: int| deck[deck.len() - 1 - j]), deck.take(deck.len() - k))
}

/// A sequence with the same cards as a well-valued one is well valued.
pub proof fn lemma_cards_ok_multiset(a: Seq<u8>, b: Seq<u8>)
    requires
        cards_ok(a),
        a.to_multiset() == b.to_multiset(),
    ensures
        cards_ok(b),
{
    broadcast use group_to_multiset_ensures;

    assert forall|i: int| 0 <= i < b.len() implies card_ok(#[trigger] b[i]) by {
        assert(b.contains(b[i]));
        assert(a.to_multiset().count(b[i]) > 0);
        assert(a.contains(b[i]));
        let j = choose|j: int| 0 <= j < a.len() && a[j] == b[i];
        assert(card_ok(a[j]));
    }
}

/// Check every card value at run time.
pub fn cards_check(s: &Vec<u8>) -> (ok: bool)
    ensures
        ok == cards_ok(s@),
{
    let mut i: usize = 0;
    while i < s.len()
        invariant
            i <= s@.len(),
            forall|j: int| 0 <= j < i ==> card_ok(#[trigger] s@[j]),
        decreases s@.len() - i,
    {
        let c = s[i];
        if c < 1 || c > 5 {
            proof {
                assert(!card_ok(s@[i as int]));
            }
            return false;
        }
        i += 1;
    }
    true
}

/// Removing a card keeps the rest well valued.
pub proof fn lemma_cards_ok_remove(s: Seq<u8>, i: int)
    requires
        cards_ok(s),
        0 <= i < s.len(),
    ensures
        cards_ok(s.remove(i)),
{
    let r = s.remove(i);
    assert forall|j: int| 0 <= j < r.len() implies card_ok(#[trigger] r[j]) by {
        if j < i {
            assert(r[j] == s[j]);
        } else {
            assert(r[j] == s[j + 1]);
        }
    }
}

/// A refill deals only cards that were in the deck.
pub proof fn lemma_cards_ok_refilled(deck: Seq<u8>, limit: int)
    requires
        cards_ok(deck),
        0 <= limit,
    ensures
        cards_ok(refilled(deck, limit).0),
        cards_ok(refilled(deck, limit).1),
{
    let (h, d) = refilled(deck, limit);
    assert forall|j: int| 0 <= j < h.len() implies card_ok(#[trigger] h[j]) by {
        assert(h[j] == deck[deck.len() - 1 - j]);
    }
    assert forall|j: int| 0 <= j < d.len() implies card_ok(#[trigger] d[j]) by {
        assert(d[j] == deck[j]);
    }
}

/// A refill only moves cards: the dealt hand and the remaining deck
/// together hold exactly the cards the deck held.
pub proof fn lemma_refilled_multiset(deck: Seq<u8>, limit: int)
    requires
        0 <= limit,
    ensures
        refilled(deck, limit).0.to_multiset().add(refilled(deck, limit).1.to_multiset())
            == deck.to_multiset(),
{
    broadcast use vstd::multiset::group_multiset_axioms;

    let k = if limit <= deck.len() { limit } else { deck.len() as int };
    let (h, d) = refilled(deck, limit);
    let tail = deck.skip(deck.len() - k);
    assert(h =~= tail.reverse());
    tail.lemma_reverse_to_multiset();
    assert(d + tail =~= deck);
    vstd::seq_lib::lemma_multiset_commutative(d, tail);
    assert(h.to_multiset().add(d.to_multiset()) =~= deck.to_multiset());
}

/// Build the fixed 40-card deck, unshuffled: eight copies of each value.
pub fn build_deck() -> (deck: Vec<u8>)
    ensures
        deck@.len() == 40,
        cards_ok(deck@),
        forall|w: u8| deck@.to_multiset().count(w) == if 1 <= w <= 5 { 8nat } else { 0nat },
{
    broadcast use group_to_multiset_ensures;
    broadcast use vstd::multiset::group_multiset_axioms;

    let mut deck: Vec<u8> = Vec::new();
    proof {
        assert(deck@ =~= Seq::<u8>::empty());
    }
    let mut v: u8 = 1;
    while v <= 5
        invariant
            1 <= v <= 6,
            deck@.len() == 8 * (v - 1),
            cards_ok(deck@),
            forall|w: u8| deck@.to_multiset().count(w) == if 1 <= w < v { 8nat } else { 0nat },
        decreases 6 - v,
    {
        let mut j: u8 = 0;
        while j < 8
            invariant
                1 <= v <= 5,
                j <= 8,
                deck@.len() == 8 * (v - 1) + j,
                cards_ok(deck@),
                forall|w: u8| deck@.to_multiset().count(w) == if 1 <= w < v {
                    8nat
                } else if w == v {
                    j as nat
                } else {
                    0nat
                },
            decreases 8 - j,
        {
            proof {
                vstd::seq_lib::to_multiset_build(deck@, v);
            }
            deck.push(v);
            j += 1;
        }
        v += 1;
    }
    deck
}

/// Randomly permute the cards: repeatedly draw a uniformly random card
/// from what is left and lay it down. The cards themselves are preserved.
pub fn shuffled(deck: Vec<u8>) -> (r: Vec<u8>)
    ensures
        r@.to_multiset() == deck@.to_multiset(),
        r@.len() == deck@.len(),
{
    broadcast use group_to_multiset_ensures;
    broadcast use vstd::multiset::group_multiset_axioms;

    let ghost orig = deck@;
    let mut src = deck;
    let mut out: Vec<u8> = Vec::new();
    proof {
        assert(out@.to_multiset().add(src@.to_multiset()) =~= orig.to_multiset());
    }
    while src.len() > 0
        invariant
            out@.to_multiset().add(src@.to_multiset()) == orig.to_multiset(),
            out@.len() + src@.len() == orig.len(),
        decreases src@.len(),
    {
        let ghost pre_out = out@;
        let ghost pre_src = src@;
        let r = rng::random_below(src.len());
        let c = src.remove(r);
        out.push(c);
        proof {
            vstd::seq_lib::to_multiset_remove(pre_src, r as int);
            vstd::seq_lib::to_multiset_build(pre_out, c);
            assert(pre_src.contains(c));
            vstd::seq_lib::to_multiset_contains(pre_src, c);
            assert(pre_src.to_multiset().count(c) > 0);
            assert(out@.to_multiset().add(src@.to_multiset()) =~= orig.to_multiset());
        }
    }
    proof {
        assert(out@.to_multiset() =~= orig.to_multiset());
    }
    out
}

/// Draw: remove and return the card at the tail of the deck, or report
/// the deck empty. Running out of cards is a normal outcome, not an error.
pub fn draw(deck: &mut Vec<u8>) -> (c: Option<u8>)
    ensures
        old(deck)@.len() == 0 ==> c is None && final(deck)@ == old(deck)@,
        old(deck)@.len() > 0 ==> c == Some(old(deck)@.last())
            && final(deck)@ == old(deck)@.drop_last(),
{
    let c = deck.pop();
    proof {
        if old(deck)@.len() > 0 {
            assert(final(deck)@ =~= old(deck)@.drop_last());
        }
    }
    c
}

/// Discard: remove and return the card at `index`. The index must be
/// valid; the caller resolves selections against the current hand.
pub fn discard(hand: &mut Vec<u8>, index: usize) -> (c: u8)
    requires
        index < old(hand)@.len(),
    ensures
        c == old(hand)@[index as int],
        final(hand)@ == old(hand)@.remove(index as int),
{
    hand.remove(index)
}

/// Refill: clear the hand, then draw up to `limit` cards from the deck,
/// stopping early if the deck empties.
pub fn refill(hand: &mut Vec<u8>, deck: &mut Vec<u8>, limit: u8)
    ensures
        final(hand)@ == refilled(old(deck)@, limit as int).0,
        final(deck)@ == refilled(old(deck)@, limit as int).1,
        final(hand)@.len() <= limit,
{
    let ghost orig = deck@;
    hand.clear();
    let mut t: u8 = 0;
    proof {
        assert(deck@ =~= orig.take(orig.len() - 0));
        assert(hand@ =~= Seq::new(0, |j: int| orig[orig.len() - 1 - j]));
    }
    while t < limit && deck.len() > 0
        invariant
            t <= limit,
            t <= orig.len(),
            hand@ == Seq::new(t as nat, |j: int| orig[orig.len() - 1 - j]),
            deck@ == orig.take(orig.len() - t),
        decreases limit - t,
    {
        let ghost pre_hand = hand@;
        let c = match deck.pop() {
            Some(c) => c,
            None => {
                proof {
                    assert(false);
                }
                0
            }
        };
        hand.push(c);
        proof {
            assert(orig.take(orig.len() - t).last() == orig[orig.len() - 1 - t]);
            assert(deck@ =~= orig.take(orig.len() - (t + 1)));
            assert(hand@ =~= Seq::new((t + 1) as nat, |j: int| orig[orig.len() - 1 - j]));
        }
        t += 1;
    }
    proof {
        let k = if limit as int <= orig.len() { limit as int } else { orig.len() as int };
        assert(t == k);
        assert(hand@ =~= refilled(orig, limit as int).0);
        assert(deck@ =~= refilled(orig, limit as int).1);
    }
}

} // verus!
