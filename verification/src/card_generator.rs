//! How a card is shown: its name, made of rank and suit, and the reference of
//! its image.

use crate::cards::{Card, FULL_DECK, RANKS};
use vstd::prelude::*;

verus! {

/// A card as it is shown.
pub struct CardRepresentation {
    /// Rank and suit in words.
    pub name: String,
    /// The card's identifier.
    pub value: Card,
    /// Where the card's image is found.
    pub image: String,
}

/// What a `CardRepresentation` holds, as plain values.
pub struct CardView {
    pub name: Seq<char>,
    pub value: Card,
    pub image: Seq<char>,
}

impl View for CardRepresentation {
    type V = CardView;

    open spec fn view(&self) -> CardView {
        CardView { name: self.name@, value: self.value, image: self.image@ }
    }
}

/// The word for a suit, `card / 13`.
pub open spec fn suit_label(suit: int) -> Seq<char> {
    if suit == 0 {
        "TrÃ¨fle"@
    } else if suit == 1 {
        "Carreau"@
    } else if suit == 2 {
        "Coeur"@
    } else {
        "Pique"@
    }
}

/// The word for a rank, `card % 13`: the ace, the numbers from 2 to 10, then
/// jack, queen and king.
pub open spec fn rank_label(rank: int) -> Seq<char> {
    if rank == 0 {
        "As"@
    } else if rank == 1 {
        "2"@
    } else if rank == 2 {
        "3"@
    } else if rank == 3 {
        "4"@
    } else if rank == 4 {
        "5"@
    } else if rank == 5 {
        "6"@
    } else if rank == 6 {
        "7"@
    } else if rank == 7 {
        "8"@
    } else if rank == 8 {
        "9"@
    } else if rank == 9 {
        "10"@
    } else if rank == 10 {
        "Valet"@
    } else if rank == 11 {
        "Reine"@
    } else {
        "Roi"@
    }
}

/// The name of a card: its rank, the word "de", its suit.
pub open spec fn card_name(card: Card) -> Seq<char> {
    rank_label(card as int % 13) + " de "@ + suit_label(card as int / 13)
}

/// The decimal digit for a number below ten.
pub open spec fn digit_label(digit: nat) -> Seq<char> {
    if digit == 0 {
        "0"@
    } else if digit == 1 {
        "1"@
    } else if digit == 2 {
        "2"@
    } else if digit == 3 {
        "3"@
    } else if digit == 4 {
        "4"@
    } else if digit == 5 {
        "5"@
    } else if digit == 6 {
        "6"@
    } else if digit == 7 {
        "7"@
    } else if digit == 8 {
        "8"@
    } else {
        "9"@
    }
}

/// A number written in decimal, without leading zeros.
pub open spec fn decimal(n: nat) -> Seq<char>
    decreases n,
{
    if n < 10 {
        digit_label(n)
    } else {
        decimal(n / 10) + digit_label(n % 10)
    }
}

/// The reference of a card's image: the place of the images, the card's
/// identifier in decimal, the extension of the image files.
pub open spec fn image_reference(
    card: Card,
    asset_url: Seq<char>,
    asset_extension: Seq<char>,
) -> Seq<char> {
    asset_url + decimal(card as nat) + asset_extension
}

/// What `get_card` makes of a card.
pub open spec fn representation(
    card: Card,
    asset_url: Seq<char>,
    asset_extension: Seq<char>,
) -> CardView {
    CardView {
        name: card_name(card),
        value: card,
        image: image_reference(card, asset_url, asset_extension),
    }
}

fn suit_word(suit: Card) -> (word: &'static str)
    requires
        0 <= suit < 4,
    ensures
        word@ == suit_label(suit as int),
{
    match suit {
        0 => "TrÃ¨fle",
        1 => "Carreau",
        2 => "Coeur",
        _ => "Pique",
    }
}

fn rank_word(rank: Card) -> (word: &'static str)
    requires
        0 <= rank < 13,
    ensures
        word@ == rank_label(rank as int),
{
    match rank {
        0 => "As",
        1 => "2",
        2 => "3",
        3 => "4",
        4 => "5",
        5 => "6",
        6 => "7",
        7 => "8",
        8 => "9",
        9 => "10",
        10 => "Valet",
        11 => "Reine",
        _ => "Roi",
    }
}

fn digit_word(digit: u32) -> (word: &'static str)
    requires
        digit < 10,
    ensures
        word@ == digit_label(digit as nat),
{
    match digit {
        0 => "0",
        1 => "1",
        2 => "2",
        3 => "3",
        4 => "4",
        5 => "5",
        6 => "6",
        7 => "7",
        8 => "8",
        _ => "9",
    }
}

/// Writes a number in decimal.
pub fn decimal_string(n: u32) -> (text: String)
    ensures
        text@ == decimal(n as nat),
    decreases n,
{
    if n < 10 {
        String::from_str(digit_word(n))
    } else {
        let mut text = decimal_string(n / 10);
        text.append(digit_word(n % 10));
        text
    }
}

/// Shows a card of the full deck: its name, its identifier, and the reference
/// of its image under `asset_url`, with `asset_extension` behind it.
pub fn get_card(motif: &Card, asset_url: &str, asset_extension: &str) -> (card: CardRepresentation)
    requires
        0 <= *motif < FULL_DECK,
    ensures
        card@ == representation(*motif, asset_url@, asset_extension@),
{
    let card_color = suit_word(*motif / RANKS);
    let card_value = rank_word(*motif % RANKS);

    let mut name = String::from_str(card_value);
    name.append(" de ");
    name.append(card_color);

    let mut image = String::from_str(asset_url);
    let number = decimal_string(*motif as u32);
    image.append(number.as_str());
    image.append(asset_extension);

    CardRepresentation { name, image, value: *motif }
}

} // verus!
