//! The deck itself: two piles of cards under an identifier, created whole and
//! changed in place by shuffling a pile or moving cards between the piles.

use crate::cards::{ascending, canonical_cards, lemma_canonical, Card, DeckSize};
use crate::piles::{cut_index, placed, rest, run, Piles};
use crate::theorems::{
    lemma_census_well_formed, lemma_put_census, lemma_put_clamps, lemma_put_from_empty,
    lemma_shuffle_census, lemma_shuffle_short_pile, lemma_take_census, lemma_take_clamps,
    lemma_take_from_empty, lemma_zero_length,
};
use crate::trusted::{fresh_id, shuffle_pile};
use uuid::Uuid;
use vstd::prelude::*;

verus! {

/// A deck of cards. The end of each pile is its top.
pub struct Deck {
    /// Identifier given at creation, never changed.
    pub id: Uuid,
    /// The draw pile.
    pub cards: Vec<Card>,
    /// The discard pile.
    pub discarded: Vec<Card>,
}

impl View for Deck {
    type V = Piles;

    open spec fn view(&self) -> Piles {
        Piles { draw: self.cards@, discard: self.discarded@ }
    }
}

/// Turns the cards round: the first becomes the last.
fn reverse(cards: &mut Vec<Card>)
    ensures
        final(cards)@ == old(cards)@.reverse(),
{
    let mut turned: Vec<Card> = Vec::new();
    let mut left: usize = cards.len();
    while left > 0
        invariant
            left <= cards.len(),
            cards@ == old(cards)@,
            turned@.len() == cards.len() - left,
            forall|i: int| 0 <= i < turned@.len() ==> turned@[i] == cards@[cards.len() - 1 - i],
        decreases left,
    {
        left = left - 1;
        turned.push(cards[left]);
    }
    *cards = turned;
}

/// Cuts up to `length` cards off the top of `source` and places them in
/// `target`.
fn move_cards(
    source: &mut Vec<Card>,
    target: &mut Vec<Card>,
    lifo: bool,
    length: usize,
    move_as_block: bool,
)
    ensures
        final(source)@ == rest(old(source)@, length as nat),
        final(target)@ == placed(
            run(old(source)@, length as nat),
            old(target)@,
            lifo,
            move_as_block,
        ),
{
    if source.len() == 0 || length == 0 {
        assert(rest(source@, length as nat) =~= source@);
        assert(run(source@, length as nat) =~= Seq::<Card>::empty());
        assert(run(source@, length as nat).reverse() =~= Seq::<Card>::empty());
        assert(placed(run(source@, length as nat), target@, lifo, move_as_block) =~= target@);
        return ;
    }
    let at: usize = if length >= source.len() {
        0
    } else {
        source.len() - length
    };
    assert(at == cut_index(source@.len(), length as nat));
    let mut moved = source.split_off(at);
    if lifo {
        if !move_as_block {
            reverse(&mut moved);
        }
        target.append(&mut moved);
    } else {
        moved.append(target);
        *target = moved;
    }
}

impl Deck {
    /// Creates a deck of the given size: the draw pile holds the cards of that
    /// size in ascending order, the discard pile is empty. The deck is well
    /// formed. Its identifier is new.
    pub fn new(deck_size: DeckSize) -> (deck: Deck)
        ensures
            deck@ == Piles::fresh(deck_size),
            deck.cards@.len() == deck_size.count(),
            deck.discarded@.len() == 0,
            ascending(deck.cards@),
            deck@.well_formed(deck_size),
    {
        let cards = canonical_cards(deck_size);
        let discarded: Vec<Card> = Vec::new();
        proof {
            lemma_canonical(deck_size);
            assert(cards@ + discarded@ =~= cards@);
        }
        Deck { id: fresh_id(), cards, discarded }
    }

    /// Shuffles the discard pile if `shuffle_discarded`, else the draw pile.
    /// The shuffled pile holds afterwards the cards it held, in an order that
    /// is left open; the other pile stays as it is, card for card. A pile of
    /// one card or none is not changed. A well-formed deck stays well formed.
    pub fn shuffle(&mut self, shuffle_discarded: bool)
        ensures
            final(self).id == old(self).id,
            old(self)@.shuffles_to(final(self)@, shuffle_discarded),
            shuffle_discarded && old(self).discarded@.len() <= 1 ==> final(self)@ == old(self)@,
            !shuffle_discarded && old(self).cards@.len() <= 1 ==> final(self)@ == old(self)@,
            forall|size: DeckSize| #[trigger]
                old(self)@.well_formed(size) ==> final(self)@.well_formed(size),
    {
        let ghost before = self@;
        if shuffle_discarded {
            shuffle_pile(&mut self.discarded);
        } else {
            shuffle_pile(&mut self.cards);
        }
        proof {
            lemma_shuffle_census(before, self@, shuffle_discarded);
            assert forall|size: DeckSize| #[trigger] before.well_formed(size) implies self@
                .well_formed(size) by {
                lemma_census_well_formed(before, self@, size);
            }
            if shuffle_discarded && before.discard.len() <= 1 {
                lemma_shuffle_short_pile(before, self@, shuffle_discarded);
            }
            if !shuffle_discarded && before.draw.len() <= 1 {
                lemma_shuffle_short_pile(before, self@, shuffle_discarded);
            }
        }
    }

    /// Moves up to `length` cards from the top of the draw pile to the discard
    /// pile: onto its top if `lifo`, under it otherwise. Cards that go on top
    /// one by one (`move_as_block` false) arrive in reverse order.
    ///
    /// Nothing changes when `length` is 0 or the draw pile is empty. A `length`
    /// of the draw pile's size or more moves the whole pile. A well-formed
    /// deck stays well formed.
    pub fn take(&mut self, lifo: bool, length: usize, move_as_block: bool)
        ensures
            final(self).id == old(self).id,
            final(self)@ == old(self)@.take(lifo, length as nat, move_as_block),
            length == 0 || old(self).cards@.len() == 0 ==> final(self)@ == old(self)@,
            length >= old(self).cards@.len() ==> final(self).cards@.len() == 0,
            forall|size: DeckSize| #[trigger]
                old(self)@.well_formed(size) ==> final(self)@.well_formed(size),
    {
        let ghost before = self@;
        move_cards(&mut self.cards, &mut self.discarded, lifo, length, move_as_block);
        proof {
            lemma_take_census(before, lifo, length as nat, move_as_block);
            assert forall|size: DeckSize| #[trigger] before.well_formed(size) implies self@
                .well_formed(size) by {
                lemma_census_well_formed(before, self@, size);
            }
            if length >= before.draw.len() {
                lemma_take_clamps(before, lifo, length as nat, move_as_block);
            }
            if length == 0 {
                lemma_zero_length(before, lifo, move_as_block);
            } else if before.draw.len() == 0 {
                lemma_take_from_empty(before, lifo, length as nat, move_as_block);
            }
        }
    }

    /// Moves up to `length` cards from the top of the discard pile to the draw
    /// pile: onto its top if `lifo`, under it otherwise. Cards that go on top
    /// one by one (`move_as_block` false) arrive in reverse order.
    ///
    /// Nothing changes when `length` is 0 or the discard pile is empty. A
    /// `length` of the discard pile's size or more moves the whole pile. A
    /// well-formed deck stays well formed.
    pub fn put(&mut self, lifo: bool, length: usize, move_as_block: bool)
        ensures
            final(self).id == old(self).id,
            final(self)@ == old(self)@.put(lifo, length as nat, move_as_block),
            length == 0 || old(self).discarded@.len() == 0 ==> final(self)@ == old(self)@,
            length >= old(self).discarded@.len() ==> final(self).discarded@.len() == 0,
            forall|size: DeckSize| #[trigger]
                old(self)@.well_formed(size) ==> final(self)@.well_formed(size),
    {
        let ghost before = self@;
        move_cards(&mut self.discarded, &mut self.cards, lifo, length, move_as_block);
        proof {
            lemma_put_census(before, lifo, length as nat, move_as_block);
            assert forall|size: DeckSize| #[trigger] before.well_formed(size) implies self@
                .well_formed(size) by {
                lemma_census_well_formed(before, self@, size);
            }
            if length >= before.discard.len() {
                lemma_put_clamps(before, lifo, length as nat, move_as_block);
            }
            if length == 0 {
                lemma_zero_length(before, lifo, move_as_block);
            } else if before.discard.len() == 0 {
                lemma_put_from_empty(before, lifo, length as nat, move_as_block);
            }
        }
    }
}

} // verus!
