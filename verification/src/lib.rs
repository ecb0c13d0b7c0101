//! A deck of playing cards kept as two ordered piles, a draw pile and a
//! discard pile, with the moves that carry cards from one to the other.

pub mod card_generator;
pub mod cards;
pub mod controller;
pub mod deck;
pub mod piles;
pub mod repository;
pub mod representation;
pub mod theorems;
pub mod trusted;

pub use card_generator::{get_card, CardRepresentation};
pub use cards::{Card, DeckSize};
pub use controller::JsonMessage;
pub use deck::Deck;
pub use representation::DeckRepresentation;
