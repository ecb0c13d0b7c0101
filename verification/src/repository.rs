//! What the deck needs of the repository that stores it: a deck is stored as
//! a record of its two piles under its identifier, and looked up by that
//! identifier.

use crate::cards::Card;
use crate::deck::Deck;
use uuid::Uuid;
use vstd::prelude::*;

verus! {

/// The piles of a stored deck as a record holds them: the draw pile, then the
/// discard pile.
pub type Record = (Vec<Card>, Vec<Card>);

impl Deck {
    /// The deck that the repository holds under `id`, from what a query for
    /// the records under that identifier gave: the deck of the first record,
    /// under the identifier asked for. There is none where the query found no
    /// record, or failed.
    pub fn find_by_id<E>(id: Uuid, rows: Result<Vec<Record>, E>) -> (found: Option<Deck>)
        ensures
            found == match rows {
                Ok(records) => if records@.len() > 0 {
                    Some(Deck { id, cards: records@[0].0, discarded: records@[0].1 })
                } else {
                    None
                },
                Err(_) => None,
            },
    {
        match rows {
            Ok(mut records) => {
                if records.len() > 0 {
                    let (cards, discarded) = records.swap_remove(0);
                    Some(Deck { id, cards, discarded })
                } else {
                    None
                }
            },
            Err(_) => None,
        }
    }
}

} // verus!
