//! A deck as it is shown: its identifier, and each card of both piles as the
//! card presenter shows it, in the order of the pile.

use crate::card_generator::{get_card, representation, CardRepresentation, CardView};
use crate::cards::{Card, DeckSize, FULL_DECK};
use crate::deck::Deck;
use crate::piles::Piles;
use uuid::Uuid;
use vstd::prelude::*;

verus! {

/// A deck as it is shown.
pub struct DeckRepresentation {
    /// The deck's identifier.
    pub id: Uuid,
    /// The draw pile, bottom first.
    pub cards: Vec<CardRepresentation>,
    /// The discard pile, bottom first.
    pub discarded: Vec<CardRepresentation>,
}

/// What a `DeckRepresentation` holds, as plain values.
pub struct DeckView {
    pub id: Uuid,
    pub cards: Seq<CardView>,
    pub discarded: Seq<CardView>,
}

impl View for DeckRepresentation {
    type V = DeckView;

    open spec fn view(&self) -> DeckView {
        DeckView { id: self.id, cards: shown(self.cards@), discarded: shown(self.discarded@) }
    }
}

/// The plain values of a pile of shown cards.
pub open spec fn shown(cards: Seq<CardRepresentation>) -> Seq<CardView> {
    cards.map_values(|card: CardRepresentation| card@)
}

/// Whether every card of the pile is a card of the full deck, so that it can
/// be shown.
pub open spec fn presentable(cards: Seq<Card>) -> bool {
    forall|i: int| 0 <= i < cards.len() ==> 0 <= #[trigger] cards[i] < 52
}

/// A pile as it is shown: each card through the card presenter, in the order
/// of the pile.
pub open spec fn presented(
    cards: Seq<Card>,
    asset_url: Seq<char>,
    asset_extension: Seq<char>,
) -> Seq<CardView> {
    cards.map_values(|card: Card| representation(card, asset_url, asset_extension))
}

/// Whether every card of the pile can be shown.
pub fn is_presentable(cards: &Vec<Card>) -> (fit: bool)
    ensures
        fit == presentable(cards@),
{
    let mut i: usize = 0;
    while i < cards.len()
        invariant
            i <= cards.len(),
            forall|k: int| 0 <= k < i ==> 0 <= #[trigger] cards@[k] < 52,
        decreases cards.len() - i,
    {
        if cards[i] < 0 || cards[i] >= FULL_DECK {
            return false;
        }
        i = i + 1;
    }
    true
}

impl Deck {
    /// Whether every card of both piles is a card of the full deck.
    pub open spec fn presentable(&self) -> bool {
        presentable(self.cards@) && presentable(self.discarded@)
    }

    /// Whether the deck can be shown: every card of both piles is a card of
    /// the full deck.
    pub fn is_presentable(&self) -> (fit: bool)
        ensures
            fit == self.presentable(),
    {
        is_presentable(&self.cards) && is_presentable(&self.discarded)
    }
}

/// Every card of a well-formed deck is a card of the full deck, so the deck
/// can be shown.
pub proof fn lemma_well_formed_presentable(piles: Piles, size: DeckSize)
    requires
        piles.well_formed(size),
    ensures
        presentable(piles.draw),
        presentable(piles.discard),
{
    let held = piles.all();
    assert forall|i: int| 0 <= i < piles.draw.len() implies 0 <= #[trigger] piles.draw[i] < 52 by {
        assert(held[i] == piles.draw[i]);
        assert(held.to_set().contains(held[i]));
    }
    assert forall|i: int| 0 <= i < piles.discard.len() implies 0 <= #[trigger] piles.discard[i]
        < 52 by {
        assert(held[piles.draw.len() + i] == piles.discard[i]);
        assert(held.to_set().contains(held[piles.draw.len() + i]));
    }
}

impl DeckRepresentation {
    /// Shows a deck: both piles through the card presenter, in their order,
    /// under the deck's identifier.
    pub fn from(deck: Deck, asset_url: &str, asset_extension: &str) -> (shown: DeckRepresentation)
        requires
            deck.presentable(),
        ensures
            shown@ == (DeckView {
                id: deck.id,
                cards: presented(deck.cards@, asset_url@, asset_extension@),
                discarded: presented(deck.discarded@, asset_url@, asset_extension@),
            }),
    {
        DeckRepresentation {
            id: deck.id,
            cards: DeckRepresentation::translate_cards(deck.cards, asset_url, asset_extension),
            discarded: DeckRepresentation::translate_cards(
                deck.discarded,
                asset_url,
                asset_extension,
            ),
        }
    }

    /// Shows a pile: each card through the card presenter, in the order of the
    /// pile.
    fn translate_cards(
        cards: Vec<Card>,
        asset_url: &str,
        asset_extension: &str,
    ) -> (pile: Vec<CardRepresentation>)
        requires
            presentable(cards@),
        ensures
            shown(pile@) == presented(cards@, asset_url@, asset_extension@),
    {
        let mut pile: Vec<CardRepresentation> = Vec::new();
        let mut i: usize = 0;
        while i < cards.len()
            invariant
                i <= cards.len(),
                presentable(cards@),
                pile@.len() == i,
                forall|k: int|
                    0 <= k < i ==> (#[trigger] pile@[k])@ == representation(
                        cards@[k],
                        asset_url@,
                        asset_extension@,
                    ),
            decreases cards.len() - i,
        {
            pile.push(get_card(&cards[i], asset_url, asset_extension));
            i = i + 1;
        }
        assert(shown(pile@) =~= presented(cards@, asset_url@, asset_extension@));
        pile
    }
}

} // verus!
