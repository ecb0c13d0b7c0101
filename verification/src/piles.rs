//! The mathematical model of a deck: two sequences of cards, and what each
//! move makes of them.

use crate::cards::{canonical, canonical_set, Card, DeckSize};
use vstd::prelude::*;

verus! {

/// The two piles of a deck. The end of each sequence is the top of its pile.
#[verifier::ext_equal]
pub struct Piles {
    /// The pile that cards are drawn from.
    pub draw: Seq<Card>,
    /// The pile that receives the cards that were drawn.
    pub discard: Seq<Card>,
}

/// Where a pile of `n` cards is cut when `length` cards are asked of its top:
/// at the bottom where it holds no more than that, else `length` below the top.
pub open spec fn cut_index(n: nat, length: nat) -> nat {
    if length >= n {
        0
    } else {
        (n - length) as nat
    }
}

/// What stays of `source` when `length` cards are asked of its top.
pub open spec fn rest(source: Seq<Card>, length: nat) -> Seq<Card> {
    source.subrange(0, cut_index(source.len(), length) as int)
}

/// The cards that leave `source` when `length` cards are asked of its top: its
/// top `min(length, |source|)` cards, in the order they had in the pile.
pub open spec fn run(source: Seq<Card>, length: nat) -> Seq<Card> {
    source.subrange(cut_index(source.len(), length) as int, source.len() as int)
}

/// The pile `target` after the cards `moved` have arrived.
///
/// A lifo move puts them on top: as they are when they move as a block, the
/// other way round when they move one by one. A fifo move slides them under
/// the pile as they are, whether or not they move as a block.
pub open spec fn placed(moved: Seq<Card>, target: Seq<Card>, lifo: bool, block: bool) -> Seq<Card> {
    if lifo {
        if block {
            target + moved
        } else {
            target + moved.reverse()
        }
    } else {
        moved + target
    }
}

impl Piles {
    /// The piles of a deck that was just created.
    pub open spec fn fresh(size: DeckSize) -> Piles {
        Piles { draw: canonical(size), discard: Seq::empty() }
    }

    /// All the cards of the deck: the draw pile, then the discard pile.
    pub open spec fn all(self) -> Seq<Card> {
        self.draw + self.discard
    }

    /// What must hold of a deck of the given size at all times: no card lies
    /// twice in a pile or in both piles, the piles together hold as many cards
    /// as the size says, and these are the cards of the canonical set.
    pub open spec fn well_formed(self, size: DeckSize) -> bool {
        &&& self.all().no_duplicates()
        &&& self.draw.len() + self.discard.len() == size.count()
        &&& self.all().to_set() == canonical_set(size)
    }

    /// The piles after `length` cards were asked of the draw pile for the
    /// discard pile.
    pub open spec fn take(self, lifo: bool, length: nat, block: bool) -> Piles {
        Piles {
            draw: rest(self.draw, length),
            discard: placed(run(self.draw, length), self.discard, lifo, block),
        }
    }

    /// The piles after `length` cards were asked of the discard pile for the
    /// draw pile.
    pub open spec fn put(self, lifo: bool, length: nat, block: bool) -> Piles {
        Piles {
            draw: placed(run(self.discard, length), self.draw, lifo, block),
            discard: rest(self.discard, length),
        }
    }

    /// Whether `after` can come of these piles by shuffling one of them: the
    /// shuffled pile holds the cards it held, each as often as before, and the
    /// other pile is as it was.
    pub open spec fn shuffles_to(self, after: Piles, discard_pile: bool) -> bool {
        if discard_pile {
            after.draw == self.draw && after.discard.to_multiset() == self.discard.to_multiset()
        } else {
            after.discard == self.discard && after.draw.to_multiset() == self.draw.to_multiset()
        }
    }
}

} // verus!
