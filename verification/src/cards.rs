//! The card identifier space: which integers name the cards of a deck of a
//! given size, and in which order a fresh deck holds them.

use vstd::prelude::*;

verus! {

/// A card is an integer identifier. Its suit is `id / 13`, its rank `id % 13`.
pub type Card = i32;

/// Number of identifiers of the full deck: four suits of thirteen ranks.
pub const FULL_DECK: Card = 52;

/// Number of ranks in a suit.
pub const RANKS: Card = 13;

/// The two sizes a deck can be created with.
#[derive(Clone, Copy, Debug, PartialEq, Eq, Structural)]
pub enum DeckSize {
    /// 32 cards: of each suit the ace and the cards from seven to king, which
    /// are the ranks 0 and 6 to 12.
    Small,
    /// All 52 cards.
    Normal,
}

impl DeckSize {
    /// Number of cards of a deck of this size.
    pub open spec fn count(self) -> nat {
        match self {
            DeckSize::Small => 32,
            DeckSize::Normal => 52,
        }
    }

    /// Whether a deck of this size holds the card `card` of the full deck.
    /// The small deck keeps rank 0 and the ranks above 5.
    pub open spec fn keeps(self, card: Card) -> bool {
        self == DeckSize::Normal || card % 13 == 0 || card % 13 > 5
    }

    /// `keeps` as a predicate on cards.
    pub open spec fn keeping(self) -> spec_fn(Card) -> bool {
        |card: Card| self.keeps(card)
    }

    /// Whether `card` is a card of a deck of this size: an identifier of the
    /// full deck that the size keeps.
    pub fn holds(&self, card: Card) -> (held: bool)
        ensures
            held == canonical_set(*self).contains(card),
    {
        if card < 0 || card >= FULL_DECK {
            return false;
        }
        match self {
            DeckSize::Normal => true,
            DeckSize::Small => card % RANKS < 1 || 5 < card % RANKS,
        }
    }
}

/// The identifiers `0, 1, .., n - 1` in ascending order.
pub open spec fn identifiers(n: nat) -> Seq<Card> {
    Seq::new(n, |i: int| i as Card)
}

/// The cards of a fresh deck of the given size, bottom first: the identifiers
/// of the full deck that the size keeps, in ascending order.
pub open spec fn canonical(size: DeckSize) -> Seq<Card> {
    identifiers(52).filter(size.keeping())
}

/// The set of cards that a deck of the given size holds at all times.
pub open spec fn canonical_set(size: DeckSize) -> Set<Card> {
    Set::new(|card: Card| 0 <= card < 52 && size.keeps(card))
}

/// Whether each element of `cards` is smaller than the next.
pub open spec fn ascending(cards: Seq<Card>) -> bool {
    forall|i: int, j: int| 0 <= i < j < cards.len() ==> cards[i] < cards[j]
}

/// How many of the identifiers below `n` a deck of the given size keeps.
pub open spec fn kept_below(size: DeckSize, n: nat) -> nat {
    match size {
        DeckSize::Normal => n,
        DeckSize::Small => {
            let rank = n % 13;
            let partial: nat = if rank == 0 {
                0
            } else if rank <= 6 {
                1
            } else {
                (rank - 5) as nat
            };
            8 * (n / 13) + partial
        },
    }
}

/// The card at place `i` of a fresh deck, counted from the bottom. In the
/// small deck each suit takes eight places: its rank 0, then its ranks from 6
/// to 12.
pub open spec fn card_at(size: DeckSize, i: int) -> Card {
    match size {
        DeckSize::Normal => i as Card,
        DeckSize::Small => {
            let place = i % 8;
            let rank = if place == 0 {
                0
            } else {
                place + 5
            };
            (13 * (i / 8) + rank) as Card
        },
    }
}

/// What is kept of the identifiers below `n`: how many cards, which ones, and
/// in which order.
pub proof fn lemma_kept_identifiers(size: DeckSize, n: nat)
    requires
        n <= 52,
    ensures
        identifiers(n).filter(size.keeping()).len() == kept_below(size, n),
        ascending(identifiers(n).filter(size.keeping())),
        forall|i: int|
            0 <= i < kept_below(size, n) ==> #[trigger] identifiers(n).filter(size.keeping())[i]
                == card_at(size, i),
        forall|card: Card|
            identifiers(n).filter(size.keeping()).contains(card) <==> 0 <= card < n && size.keeps(
                card,
            ),
    decreases n,
{
    let kept = identifiers(n).filter(size.keeping());
    if n == 0 {
        reveal(Seq::filter);
        assert(kept.len() == 0);
    } else {
        let below = (n - 1) as nat;
        let top = below as Card;
        let before = identifiers(below).filter(size.keeping());
        lemma_kept_identifiers(size, below);
        assert(identifiers(n) =~= identifiers(below).push(top));
        identifiers(below).lemma_filter_push(top, size.keeping());
        assert forall|card: Card| kept.contains(card) <==> 0 <= card < n && size.keeps(card) by {
            if size.keeps(top) {
                assert(kept == before.push(top));
                assert(kept[kept.len() - 1] == top);
                if kept.contains(card) {
                    let i = choose|i: int| 0 <= i < kept.len() && kept[i] == card;
                    if i < before.len() {
                        assert(before.contains(before[i]));
                    }
                }
                if 0 <= card < below && size.keeps(card) {
                    assert(before.contains(card));
                    let i = choose|i: int| 0 <= i < before.len() && before[i] == card;
                    assert(kept[i] == card);
                }
            }
        }
        assert forall|i: int, j: int| 0 <= i < j < kept.len() implies kept[i] < kept[j] by {
            if size.keeps(top) && j == kept.len() - 1 {
                assert(before.contains(before[i]));
            }
        }
        assert forall|i: int| 0 <= i < kept_below(size, n) implies #[trigger] kept[i] == card_at(
            size,
            i,
        ) by {
            if i < before.len() {
                assert(kept[i] == before[i]);
            }
        }
    }
}

/// A fresh deck holds as many cards as its size says, each once, in ascending
/// order, and they are the cards of its canonical set.
pub proof fn lemma_canonical(size: DeckSize)
    ensures
        canonical(size).len() == size.count(),
        ascending(canonical(size)),
        canonical(size).no_duplicates(),
        canonical(size).to_set() == canonical_set(size),
{
    lemma_kept_identifiers(size, 52);
    assert(canonical(size).to_set() =~= canonical_set(size));
}

/// Which card lies where in a fresh deck: the normal deck holds the
/// identifiers from 0 to 51 in their order, the small deck the rank 0 and the
/// ranks from 6 to 12 of each suit in turn.
pub proof fn lemma_canonical_cards(size: DeckSize)
    ensures
        canonical(size) == Seq::new(size.count(), |i: int| card_at(size, i)),
        canonical(DeckSize::Normal) == identifiers(52),
{
    lemma_kept_identifiers(size, 52);
    lemma_kept_identifiers(DeckSize::Normal, 52);
    assert(canonical(size) =~= Seq::new(size.count(), |i: int| card_at(size, i)));
    assert(canonical(DeckSize::Normal) =~= identifiers(52));
}

/// The cards of a fresh deck of the given size, in ascending order.
pub fn canonical_cards(size: DeckSize) -> (cards: Vec<Card>)
    ensures
        cards@ == canonical(size),
{
    let mut cards: Vec<Card> = Vec::new();
    let mut motif: Card = 0;
    proof {
        reveal(Seq::filter);
        assert(identifiers(0).filter(size.keeping()) =~= Seq::<Card>::empty());
    }
    while motif < FULL_DECK
        invariant
            0 <= motif <= FULL_DECK,
            cards@ == identifiers(motif as nat).filter(size.keeping()),
        decreases FULL_DECK - motif,
    {
        proof {
            assert(identifiers((motif + 1) as nat) =~= identifiers(motif as nat).push(motif));
            identifiers(motif as nat).lemma_filter_push(motif, size.keeping());
        }
        if size.holds(motif) {
            cards.push(motif);
        }
        motif = motif + 1;
    }
    cards
}

} // verus!
