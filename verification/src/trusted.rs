//! What the library takes from other crates on trust: the contracts in this
//! file are stated, not proved.

use crate::cards::Card;
use rand::seq::SliceRandom;
use vstd::prelude::*;

verus! {

/// `uuid::Uuid`, the identifier of a deck. The library hands such a value on
/// and never looks into it.
#[verifier::external_type_specification]
#[verifier::external_body]
pub struct ExUuid(uuid::Uuid);

/// `uuid::Error`, what `uuid::Uuid::parse_str` gives for a text that is no
/// identifier. The library only tells it from a success.
#[verifier::external_type_specification]
#[verifier::external_body]
pub struct ExUuidError(uuid::Error);

/// The identifier that a text stands for, if it stands for one: what
/// `uuid::Uuid::parse_str` makes of the text.
pub uninterp spec fn parsed_uuid(input: Seq<char>) -> Option<uuid::Uuid>;

/// `uuid::Uuid::parse_str` reads an identifier out of a text. It looks at the
/// text alone, so the same text gives the same answer: the identifier that the
/// text stands for, or an error where it stands for none.
pub assume_specification[ uuid::Uuid::parse_str ](input: &str) -> (parsed: Result<
    uuid::Uuid,
    uuid::Error,
>)
    ensures
        match parsed {
            Ok(id) => parsed_uuid(input@) == Some(id),
            Err(_) => parsed_uuid(input@) is None,
        },
;

/// Calls `uuid::Uuid::new_v4`, which draws a random identifier. Nothing is
/// claimed of the value. The call fails only where the system gives no random
/// bytes.
#[verifier::external_body]
pub(crate) fn fresh_id() -> uuid::Uuid {
    uuid::Uuid::new_v4()
}

/// Calls `rand::seq::SliceRandom::shuffle` on the pile, with the generator of
/// `rand::thread_rng`. The shuffle only swaps elements of the slice, so the
/// pile holds afterwards the cards it held, each as often as before; their
/// order is left open. The call fails only where the generator cannot be
/// seeded by the system.
#[verifier::external_body]
pub(crate) fn shuffle_pile(pile: &mut Vec<Card>)
    ensures
        final(pile)@.to_multiset() == old(pile)@.to_multiset(),
{
    pile.shuffle(&mut rand::thread_rng());
}

} // verus!
