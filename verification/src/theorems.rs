//! What holds of the piles whatever moves are made: no card is ever lost or
//! made, and some moves undo or do nothing.

use crate::cards::{canonical, lemma_canonical, Card, DeckSize};
use crate::piles::{placed, rest, run, Piles};
use vstd::multiset::Multiset;
use vstd::prelude::*;
use vstd::seq_lib::{lemma_multiset_commutative, to_multiset_contains, to_multiset_len};

verus! {

/// A move between the piles, or a shuffle of one of them.
pub enum Move {
    /// Shuffle the discard pile if `discard_pile`, else the draw pile.
    Shuffle { discard_pile: bool },
    /// Ask `length` cards of the draw pile for the discard pile.
    Take { lifo: bool, length: nat, block: bool },
    /// Ask `length` cards of the discard pile for the draw pile.
    Put { lifo: bool, length: nat, block: bool },
}

impl Piles {
    /// The cards of both piles, each with the number of times it occurs.
    pub open spec fn census(self) -> Multiset<Card> {
        self.all().to_multiset()
    }

    /// Whether the move `step` can make `after` of these piles.
    pub open spec fn steps_to(self, step: Move, after: Piles) -> bool {
        match step {
            Move::Shuffle { discard_pile } => self.shuffles_to(after, discard_pile),
            Move::Take { lifo, length, block } => after == self.take(lifo, length, block),
            Move::Put { lifo, length, block } => after == self.put(lifo, length, block),
        }
    }
}

/// Whether one move can make `after` of `before`.
pub open spec fn follows(before: Piles, after: Piles) -> bool {
    exists|step: Move| before.steps_to(step, after)
}

/// Whether `history` is the life of a deck of the given size: it starts with
/// the fresh deck, and each state comes of the one before by one move.
pub open spec fn is_history(size: DeckSize, history: Seq<Piles>) -> bool {
    &&& history.len() > 0
    &&& history[0] == Piles::fresh(size)
    &&& forall|i: int| 0 < i < history.len() ==> follows(history[i - 1], #[trigger] history[i])
}

/// How many cards move when `length` are asked of a pile of `n`: as many as
/// asked, or all the pile has where it has fewer.
pub open spec fn moved_count(n: nat, length: nat) -> nat {
    if length <= n {
        length
    } else {
        n
    }
}

/// A pile is what stays of it followed by what leaves it.
pub proof fn lemma_rest_then_run(source: Seq<Card>, length: nat)
    ensures
        rest(source, length) + run(source, length) == source,
        run(source, length).len() == moved_count(source.len(), length),
{
    assert(rest(source, length) + run(source, length) =~= source);
}

/// Taking makes the draw pile smaller and the discard pile larger by the same
/// number of cards: as many as were asked for, or all the draw pile had.
pub proof fn lemma_take_counts(piles: Piles, lifo: bool, length: nat, block: bool)
    ensures
        piles.take(lifo, length, block).draw.len() == piles.draw.len() - moved_count(
            piles.draw.len(),
            length,
        ),
        piles.take(lifo, length, block).discard.len() == piles.discard.len() + moved_count(
            piles.draw.len(),
            length,
        ),
{
}

/// Putting makes the discard pile smaller and the draw pile larger by the
/// same number of cards: as many as were asked for, or all the discard pile
/// had.
pub proof fn lemma_put_counts(piles: Piles, lifo: bool, length: nat, block: bool)
    ensures
        piles.put(lifo, length, block).discard.len() == piles.discard.len() - moved_count(
            piles.discard.len(),
            length,
        ),
        piles.put(lifo, length, block).draw.len() == piles.draw.len() + moved_count(
            piles.discard.len(),
            length,
        ),
{
}

/// Cards that arrive in a pile join those that were there: nothing else
/// changes in what the pile holds.
pub proof fn lemma_placed_census(moved: Seq<Card>, target: Seq<Card>, lifo: bool, block: bool)
    ensures
        placed(moved, target, lifo, block).to_multiset() == target.to_multiset().add(
            moved.to_multiset(),
        ),
{
    moved.lemma_reverse_to_multiset();
    lemma_multiset_commutative(target, moved);
    lemma_multiset_commutative(target, moved.reverse());
    lemma_multiset_commutative(moved, target);
    assert(moved.to_multiset().add(target.to_multiset()) =~= target.to_multiset().add(
        moved.to_multiset(),
    ));
}

/// Taking cards changes no card and no count: the piles together hold after
/// the move what they held before.
pub proof fn lemma_take_census(piles: Piles, lifo: bool, length: nat, block: bool)
    ensures
        piles.take(lifo, length, block).census() == piles.census(),
{
    let after = piles.take(lifo, length, block);
    let stay = rest(piles.draw, length);
    let moved = run(piles.draw, length);
    lemma_rest_then_run(piles.draw, length);
    lemma_placed_census(moved, piles.discard, lifo, block);
    lemma_multiset_commutative(stay, moved);
    lemma_multiset_commutative(piles.draw, piles.discard);
    lemma_multiset_commutative(after.draw, after.discard);
    assert(after.census() =~= piles.census());
}

/// Putting cards back changes no card and no count.
pub proof fn lemma_put_census(piles: Piles, lifo: bool, length: nat, block: bool)
    ensures
        piles.put(lifo, length, block).census() == piles.census(),
{
    let after = piles.put(lifo, length, block);
    let stay = rest(piles.discard, length);
    let moved = run(piles.discard, length);
    lemma_rest_then_run(piles.discard, length);
    lemma_placed_census(moved, piles.draw, lifo, block);
    lemma_multiset_commutative(stay, moved);
    lemma_multiset_commutative(piles.draw, piles.discard);
    lemma_multiset_commutative(after.draw, after.discard);
    assert(after.census() =~= piles.census());
}

/// Shuffling a pile changes no card and no count.
pub proof fn lemma_shuffle_census(piles: Piles, after: Piles, discard_pile: bool)
    requires
        piles.shuffles_to(after, discard_pile),
    ensures
        after.census() == piles.census(),
{
    lemma_multiset_commutative(piles.draw, piles.discard);
    lemma_multiset_commutative(after.draw, after.discard);
}

/// Piles that hold the same cards, each as often, are well formed together.
pub proof fn lemma_census_well_formed(piles: Piles, other: Piles, size: DeckSize)
    requires
        piles.well_formed(size),
        other.census() == piles.census(),
    ensures
        other.well_formed(size),
{
    let before = piles.all();
    let after = other.all();
    to_multiset_len(before);
    to_multiset_len(after);
    before.lemma_multiset_has_no_duplicates();
    after.lemma_multiset_has_no_duplicates_conv();
    assert forall|card: Card| after.contains(card) <==> before.contains(card) by {
        to_multiset_contains(before, card);
        to_multiset_contains(after, card);
    }
    assert(after.to_set() =~= before.to_set());
}

/// A deck that was just created is well formed.
pub proof fn lemma_fresh_well_formed(size: DeckSize)
    ensures
        Piles::fresh(size).well_formed(size),
{
    lemma_canonical(size);
    assert(Piles::fresh(size).all() =~= canonical(size));
}

/// Piles are well formed for a size exactly when they hold, between them,
/// the cards of a fresh deck of that size, each once.
pub proof fn lemma_well_formed_census(piles: Piles, size: DeckSize)
    ensures
        piles.well_formed(size) <==> piles.census() == canonical(size).to_multiset(),
{
    lemma_fresh_well_formed(size);
    assert(Piles::fresh(size).all() =~= canonical(size));
    if piles.census() == canonical(size).to_multiset() {
        lemma_census_well_formed(Piles::fresh(size), piles, size);
    }
    if piles.well_formed(size) {
        let held = piles.all();
        let fresh = canonical(size);
        lemma_canonical(size);
        held.lemma_multiset_has_no_duplicates();
        fresh.lemma_multiset_has_no_duplicates();
        assert forall|card: Card| held.to_multiset().count(card) == fresh.to_multiset().count(
            card,
        ) by {
            to_multiset_contains(held, card);
            to_multiset_contains(fresh, card);
            assert(held.to_set().contains(card) == fresh.to_set().contains(card));
        }
        assert(held.to_multiset() =~= fresh.to_multiset());
    }
}

/// No move loses or makes a card: whatever a move makes of well-formed piles
/// is well formed, for the same size.
pub proof fn lemma_step_conserves(piles: Piles, step: Move, after: Piles, size: DeckSize)
    requires
        piles.well_formed(size),
        piles.steps_to(step, after),
    ensures
        after.well_formed(size),
        after.census() == piles.census(),
{
    match step {
        Move::Shuffle { discard_pile } => lemma_shuffle_census(piles, after, discard_pile),
        Move::Take { lifo, length, block } => lemma_take_census(piles, lifo, length, block),
        Move::Put { lifo, length, block } => lemma_put_census(piles, lifo, length, block),
    }
    lemma_census_well_formed(piles, after, size);
}

/// Conservation: through any sequence of shuffles, takes and puts on a deck
/// created with a given size, the two piles together hold after every move
/// as many cards as the size says, each card of the canonical set once.
pub proof fn lemma_conservation(size: DeckSize, history: Seq<Piles>)
    requires
        is_history(size, history),
    ensures
        forall|i: int| 0 <= i < history.len() ==> (#[trigger] history[i]).well_formed(size),
    decreases history.len(),
{
    if history.len() == 1 {
        lemma_fresh_well_formed(size);
    } else {
        let earlier = history.drop_last();
        assert forall|i: int| 0 < i < earlier.len() implies follows(
            earlier[i - 1],
            #[trigger] earlier[i],
        ) by {
            assert(follows(history[i - 1], history[i]));
        }
        lemma_conservation(size, earlier);
        let last = history.len() - 1;
        let before = history[last - 1];
        let after = history[last];
        assert(follows(before, after));
        let step = choose|step: Move| before.steps_to(step, after);
        assert(earlier[last - 1].well_formed(size));
        lemma_step_conserves(before, step, after, size);
        assert forall|i: int| 0 <= i < history.len() implies (#[trigger] history[i]).well_formed(
            size,
        ) by {
            if i < last {
                assert(earlier[i].well_formed(size));
            }
        }
    }
}

/// Asking for no card moves none: both piles stay as they are, card for card.
pub proof fn lemma_zero_length(piles: Piles, lifo: bool, block: bool)
    ensures
        piles.take(lifo, 0, block) == piles,
        piles.put(lifo, 0, block) == piles,
{
    let none = Seq::<Card>::empty();
    assert(run(piles.draw, 0) =~= none);
    assert(run(piles.discard, 0) =~= none);
    assert(none.reverse() =~= none);
    assert(piles.take(lifo, 0, block) =~= piles);
    assert(piles.put(lifo, 0, block) =~= piles);
}

/// Taking from an empty draw pile changes nothing, whatever is asked.
pub proof fn lemma_take_from_empty(piles: Piles, lifo: bool, length: nat, block: bool)
    requires
        piles.draw.len() == 0,
    ensures
        piles.take(lifo, length, block) == piles,
{
    let none = Seq::<Card>::empty();
    assert(run(piles.draw, length) =~= none);
    assert(none.reverse() =~= none);
    assert(piles.take(lifo, length, block) =~= piles);
}

/// Putting from an empty discard pile changes nothing, whatever is asked.
pub proof fn lemma_put_from_empty(piles: Piles, lifo: bool, length: nat, block: bool)
    requires
        piles.discard.len() == 0,
    ensures
        piles.put(lifo, length, block) == piles,
{
    let none = Seq::<Card>::empty();
    assert(run(piles.discard, length) =~= none);
    assert(none.reverse() =~= none);
    assert(piles.put(lifo, length, block) =~= piles);
}

/// Clamping: asking for at least as many cards as the draw pile holds moves
/// the whole pile. The draw pile is left empty and the discard pile has
/// received every card of it.
pub proof fn lemma_take_clamps(piles: Piles, lifo: bool, length: nat, block: bool)
    requires
        length >= piles.draw.len(),
    ensures
        piles.take(lifo, length, block).draw == Seq::<Card>::empty(),
        piles.take(lifo, length, block).discard == placed(piles.draw, piles.discard, lifo, block),
{
    assert(run(piles.draw, length) =~= piles.draw);
    assert(rest(piles.draw, length) =~= Seq::<Card>::empty());
}

/// Clamping: asking for at least as many cards as the discard pile holds
/// moves the whole pile.
pub proof fn lemma_put_clamps(piles: Piles, lifo: bool, length: nat, block: bool)
    requires
        length >= piles.discard.len(),
    ensures
        piles.put(lifo, length, block).discard == Seq::<Card>::empty(),
        piles.put(lifo, length, block).draw == placed(piles.discard, piles.draw, lifo, block),
{
    assert(run(piles.discard, length) =~= piles.discard);
    assert(rest(piles.discard, length) =~= Seq::<Card>::empty());
}

/// A pile of one card or none has only one order: whatever holds the same
/// cards is the same pile.
pub proof fn lemma_short_pile(pile: Seq<Card>, other: Seq<Card>)
    requires
        pile.len() <= 1,
        other.to_multiset() == pile.to_multiset(),
    ensures
        other == pile,
{
    to_multiset_len(pile);
    to_multiset_len(other);
    if pile.len() == 1 {
        to_multiset_contains(pile, other[0]);
        to_multiset_contains(other, other[0]);
        assert(other.contains(other[0]));
    }
    assert(other =~= pile);
}

/// Shuffling a pile of one card or none changes nothing.
pub proof fn lemma_shuffle_short_pile(piles: Piles, after: Piles, discard_pile: bool)
    requires
        piles.shuffles_to(after, discard_pile),
        if discard_pile {
            piles.discard.len() <= 1
        } else {
            piles.draw.len() <= 1
        },
    ensures
        after == piles,
{
    if discard_pile {
        lemma_short_pile(piles.discard, after.discard);
    } else {
        lemma_short_pile(piles.draw, after.draw);
    }
}

/// A block taken onto the top of the discard pile and at once put back onto
/// the top of the draw pile, with the same length, leaves both piles as they
/// were, provided the discard pile can give back no more than it received:
/// the draw pile held at least `length` cards, or the discard pile was empty.
pub proof fn lemma_block_round_trip(piles: Piles, length: nat)
    requires
        length <= piles.draw.len() || piles.discard.len() == 0,
    ensures
        piles.take(true, length, true).put(true, length, true) == piles,
{
    let taken = piles.take(true, length, true);
    let moved = run(piles.draw, length);
    lemma_rest_then_run(piles.draw, length);
    assert(taken.discard == piles.discard + moved);
    assert(run(taken.discard, length) =~= moved);
    assert(rest(taken.discard, length) =~= piles.discard);
    assert(taken.put(true, length, true) =~= piles);
}

/// On a deck that was just created, taking a block of any length onto the
/// discard pile and putting a block of the same length back restores the draw
/// pile exactly, and leaves the discard pile empty again.
pub proof fn lemma_fresh_round_trip(size: DeckSize, length: nat)
    ensures
        Piles::fresh(size).take(true, length, true).put(true, length, true) == Piles::fresh(size),
{
    lemma_block_round_trip(Piles::fresh(size), length);
}

} // verus!
