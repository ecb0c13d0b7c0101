//! What each request decides: which deck is meant, what is done to it, and
//! what the caller must then do with the repository and answer.
//!
//! Nothing here reads a request or reaches a repository. The caller hands in
//! what the request held and what the repository found, and carries out the
//! action that comes back.

use crate::cards::DeckSize;
use crate::deck::Deck;
use crate::piles::Piles;
use crate::trusted::parsed_uuid;
use uuid::Uuid;
use vstd::prelude::*;

verus! {

/// A message for the caller of a request that was refused.
pub struct JsonMessage<'a> {
    pub message: &'a str,
}

/// What a request to create a deck may hold.
pub struct DeckSizeRequest {
    /// The number of cards asked for.
    pub size: Option<i32>,
}

/// What a request to shuffle a deck may hold.
pub struct DeckShuffleRequest {
    /// Whether the discard pile is meant.
    pub shuffle_discarded: Option<bool>,
}

/// What a request to move cards between the piles may hold.
pub struct DeckSwitch {
    pub lifo: Option<bool>,
    pub length: Option<usize>,
    pub move_as_block: Option<bool>,
}

/// Why a request is refused.
#[derive(Clone, Copy, Debug, PartialEq, Eq, Structural)]
pub enum Refusal {
    /// The request names no deck.
    MissingParameter,
    /// What the request gives for the deck is no identifier.
    InvalidIdentifier,
    /// The repository holds no deck under the identifier.
    NotFound,
}

/// What the caller must do once a request is decided.
pub enum Action {
    /// Store the new deck, then answer with it as created.
    Insert(Deck),
    /// Store the deck over the one of the same identifier, then answer with it.
    Update(Deck),
    /// Answer with the deck.
    Show(Deck),
    /// Remove the deck from the repository, then answer without content.
    Delete(Deck),
    /// Answer with the refusal's status and message.
    Refuse(Refusal),
}

impl DeckSizeRequest {
    /// The size of the deck to create: small where 32 cards are asked for,
    /// normal for any other number and for none.
    pub open spec fn spec_deck_size(&self) -> DeckSize {
        if self.size == Some(32i32) {
            DeckSize::Small
        } else {
            DeckSize::Normal
        }
    }

    /// The size of the deck to create: small where 32 cards are asked for,
    /// normal for any other number and for none.
    #[verifier::when_used_as_spec(spec_deck_size)]
    pub fn deck_size(&self) -> (size: DeckSize)
        ensures
            size == self.spec_deck_size(),
    {
        match self.size {
            Some(32) => DeckSize::Small,
            _ => DeckSize::Normal,
        }
    }
}

impl DeckShuffleRequest {
    /// Whether the discard pile is to be shuffled: only where the request
    /// says so. Otherwise the draw pile is.
    pub open spec fn spec_discard_pile(&self) -> bool {
        self.shuffle_discarded == Some(true)
    }

    /// Whether the discard pile is to be shuffled: only where the request
    /// says so. Otherwise the draw pile is.
    #[verifier::when_used_as_spec(spec_discard_pile)]
    pub fn discard_pile(&self) -> (discard: bool)
        ensures
            discard == self.spec_discard_pile(),
    {
        match self.shuffle_discarded {
            Some(true) => true,
            _ => false,
        }
    }
}

impl DeckSwitch {
    /// Whether the cards go on top of the other pile. Not unless asked.
    pub open spec fn spec_lifo(&self) -> bool {
        self.lifo == Some(true)
    }

    /// How many cards are asked for. One, unless the request says.
    pub open spec fn spec_length(&self) -> usize {
        match self.length {
            Some(length) => length,
            None => 1,
        }
    }

    /// Whether the cards move as a block. Not unless asked.
    pub open spec fn spec_block(&self) -> bool {
        self.move_as_block == Some(true)
    }

    /// Whether the cards go on top of the other pile. Not unless asked.
    #[verifier::when_used_as_spec(spec_lifo)]
    pub fn lifo(&self) -> (lifo: bool)
        ensures
            lifo == self.spec_lifo(),
    {
        match self.lifo {
            Some(lifo) => lifo,
            None => false,
        }
    }

    /// How many cards are asked for. One, unless the request says.
    #[verifier::when_used_as_spec(spec_length)]
    pub fn length(&self) -> (length: usize)
        ensures
            length == self.spec_length(),
    {
        match self.length {
            Some(length) => length,
            None => 1,
        }
    }

    /// Whether the cards move as a block. Not unless asked.
    #[verifier::when_used_as_spec(spec_block)]
    pub fn block(&self) -> (block: bool)
        ensures
            block == self.spec_block(),
    {
        match self.move_as_block {
            Some(block) => block,
            None => false,
        }
    }
}

impl Refusal {
    /// The status of the answer, as a number.
    pub open spec fn spec_status(&self) -> u16 {
        match self {
            Refusal::MissingParameter => 405,
            Refusal::InvalidIdentifier => 422,
            Refusal::NotFound => 404,
        }
    }

    /// The text of the answer.
    pub open spec fn text(&self) -> Seq<char> {
        match self {
            Refusal::MissingParameter => "Paramètre manquant."@,
            Refusal::InvalidIdentifier => "Paramètre incorrect."@,
            Refusal::NotFound => "Impossible de trouver ce paquet de carte."@,
        }
    }

    /// The status of the answer: method not allowed where no deck is named,
    /// unprocessable entity where the identifier is none, not found where the
    /// repository has no such deck.
    #[verifier::when_used_as_spec(spec_status)]
    pub fn status(&self) -> (code: u16)
        ensures
            code == self.spec_status(),
    {
        match self {
            Refusal::MissingParameter => 405,
            Refusal::InvalidIdentifier => 422,
            Refusal::NotFound => 404,
        }
    }

    /// The message of the answer.
    pub fn message(&self) -> (message: JsonMessage<'static>)
        ensures
            message.message@ == self.text(),
    {
        match self {
            Refusal::MissingParameter => JsonMessage { message: "Paramètre manquant." },
            Refusal::InvalidIdentifier => JsonMessage { message: "Paramètre incorrect." },
            Refusal::NotFound => JsonMessage {
                message: "Impossible de trouver ce paquet de carte.",
            },
        }
    }
}

impl Action {
    /// The status of the answer, as a number.
    pub open spec fn spec_status(&self) -> u16 {
        match self {
            Action::Insert(_) => 201,
            Action::Update(_) => 200,
            Action::Show(_) => 200,
            Action::Delete(_) => 204,
            Action::Refuse(refusal) => refusal.spec_status(),
        }
    }

    /// The status of the answer: created for a new deck, ok for a deck that is
    /// answered with, no content for a deck that is removed, the refusal's
    /// own otherwise.
    #[verifier::when_used_as_spec(spec_status)]
    pub fn status(&self) -> (code: u16)
        ensures
            code == self.spec_status(),
    {
        match self {
            Action::Insert(_) => 201,
            Action::Update(_) => 200,
            Action::Show(_) => 200,
            Action::Delete(_) => 204,
            Action::Refuse(refusal) => refusal.status(),
        }
    }
}

/// What a request says of the deck it means, once the text it gives for it,
/// if any, was read as an identifier.
pub open spec fn identified(parsed: Option<Result<Uuid, uuid::Error>>) -> Result<Uuid, Refusal> {
    match parsed {
        None => Err(Refusal::MissingParameter),
        Some(Err(_)) => Err(Refusal::InvalidIdentifier),
        Some(Ok(id)) => Ok(id),
    }
}

/// Whether a request names its deck: a request without a text for it misses a
/// parameter, one whose text did not read as an identifier has an invalid
/// one, any other means the deck of the identifier that was read.
pub fn identifier(parsed: Option<Result<Uuid, uuid::Error>>) -> (id: Result<Uuid, Refusal>)
    ensures
        id == identified(parsed),
{
    match parsed {
        None => Err(Refusal::MissingParameter),
        Some(Err(_)) => Err(Refusal::InvalidIdentifier),
        Some(Ok(id)) => Ok(id),
    }
}

/// The deck that a request means, from the text that it gives for it.
pub fn deck_id(raw: Option<&str>) -> (id: Result<Uuid, Refusal>)
    ensures
        id == match raw {
            None => Err::<Uuid, Refusal>(Refusal::MissingParameter),
            Some(text) => match parsed_uuid(text@) {
                Some(id) => Ok(id),
                None => Err(Refusal::InvalidIdentifier),
            },
        },
{
    match raw {
        None => identifier(None),
        Some(text) => identifier(Some(Uuid::parse_str(text))),
    }
}

/// A request to create a deck: a fresh deck of the size asked for, to be
/// stored.
pub fn post_cards(query: &DeckSizeRequest) -> (action: Action)
    ensures
        action matches Action::Insert(deck) && deck@ == Piles::fresh(query.deck_size())
            && deck@.well_formed(query.deck_size()),
{
    Action::Insert(Deck::new(query.deck_size()))
}

/// A request to shuffle a pile of the deck that the repository found: the
/// deck with that pile shuffled, to be stored. Refused where none was found.
pub fn shuffle_cards(found: Option<Deck>, query: &DeckShuffleRequest) -> (action: Action)
    ensures
        match found {
            None => action == Action::Refuse(Refusal::NotFound),
            Some(deck) => action matches Action::Update(after) && after.id == deck.id
                && deck@.shuffles_to(after@, query.discard_pile()),
        },
{
    match found {
        Some(mut deck) => {
            deck.shuffle(query.discard_pile());
            Action::Update(deck)
        },
        None => Action::Refuse(Refusal::NotFound),
    }
}

/// A request to take cards from the draw pile of the deck that the repository
/// found: the deck after the move, to be stored. Refused where none was found.
pub fn take_cards(found: Option<Deck>, query: &DeckSwitch) -> (action: Action)
    ensures
        match found {
            None => action == Action::Refuse(Refusal::NotFound),
            Some(deck) => action matches Action::Update(after) && after.id == deck.id && after@
                == deck@.take(query.lifo(), query.length() as nat, query.block()),
        },
{
    match found {
        Some(mut deck) => {
            deck.take(query.lifo(), query.length(), query.block());
            Action::Update(deck)
        },
        None => Action::Refuse(Refusal::NotFound),
    }
}

/// A request to put cards back from the discard pile of the deck that the
/// repository found: the deck after the move, to be stored. Refused where none
/// was found.
pub fn put_cards(found: Option<Deck>, query: &DeckSwitch) -> (action: Action)
    ensures
        match found {
            None => action == Action::Refuse(Refusal::NotFound),
            Some(deck) => action matches Action::Update(after) && after.id == deck.id && after@
                == deck@.put(query.lifo(), query.length() as nat, query.block()),
        },
{
    match found {
        Some(mut deck) => {
            deck.put(query.lifo(), query.length(), query.block());
            Action::Update(deck)
        },
        None => Action::Refuse(Refusal::NotFound),
    }
}

/// A request to see the deck that the repository found. Refused where none
/// was found.
pub fn get_cards(found: Option<Deck>) -> (action: Action)
    ensures
        action == match found {
            Some(deck) => Action::Show(deck),
            None => Action::Refuse(Refusal::NotFound),
        },
{
    match found {
        Some(deck) => Action::Show(deck),
        None => Action::Refuse(Refusal::NotFound),
    }
}

/// A request to remove the deck that the repository found. Refused where none
/// was found.
pub fn delete_cards(found: Option<Deck>) -> (action: Action)
    ensures
        action == match found {
            Some(deck) => Action::Delete(deck),
            None => Action::Refuse(Refusal::NotFound),
        },
{
    match found {
        Some(deck) => Action::Delete(deck),
        None => Action::Refuse(Refusal::NotFound),
    }
}

} // verus!
