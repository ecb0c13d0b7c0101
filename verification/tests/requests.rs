use jeu_de_carte::controller::{
    deck_id, delete_cards, get_cards, identifier, post_cards, put_cards, shuffle_cards,
    take_cards, Action, DeckShuffleRequest, DeckSizeRequest, DeckSwitch, Refusal,
};
use jeu_de_carte::{Card, Deck, DeckSize};
use uuid::Uuid;

fn used_deck() -> Deck {
    let mut deck = Deck::new(DeckSize::Normal);
    deck.take(true, 10, true);
    deck
}

#[test]
fn thirty_two_asks_for_the_small_deck() {
    assert_eq!(DeckSizeRequest { size: Some(32) }.deck_size(), DeckSize::Small);
    assert_eq!(DeckSizeRequest { size: Some(52) }.deck_size(), DeckSize::Normal);
    assert_eq!(DeckSizeRequest { size: Some(0) }.deck_size(), DeckSize::Normal);
    assert_eq!(DeckSizeRequest { size: Some(-32) }.deck_size(), DeckSize::Normal);
    assert_eq!(DeckSizeRequest { size: None }.deck_size(), DeckSize::Normal);
}

#[test]
fn draw_pile_is_shuffled_unless_asked() {
    assert!(DeckShuffleRequest { shuffle_discarded: Some(true) }.discard_pile());
    assert!(!DeckShuffleRequest { shuffle_discarded: Some(false) }.discard_pile());
    assert!(!DeckShuffleRequest { shuffle_discarded: None }.discard_pile());
}

#[test]
fn switch_defaults() {
    let bare = DeckSwitch { lifo: None, length: None, move_as_block: None };
    assert!(!bare.lifo());
    assert_eq!(bare.length(), 1);
    assert!(!bare.block());

    let full = DeckSwitch { lifo: Some(true), length: Some(7), move_as_block: Some(true) };
    assert!(full.lifo());
    assert_eq!(full.length(), 7);
    assert!(full.block());

    let zero = DeckSwitch { lifo: Some(false), length: Some(0), move_as_block: Some(false) };
    assert!(!zero.lifo());
    assert_eq!(zero.length(), 0);
    assert!(!zero.block());
}

#[test]
fn refusals_have_status_and_message() {
    assert_eq!(Refusal::MissingParameter.status(), 405);
    assert_eq!(Refusal::MissingParameter.message().message, "Param\u{e8}tre manquant.");
    assert_eq!(Refusal::InvalidIdentifier.status(), 422);
    assert_eq!(Refusal::InvalidIdentifier.message().message, "Param\u{e8}tre incorrect.");
    assert_eq!(Refusal::NotFound.status(), 404);
    assert_eq!(
        Refusal::NotFound.message().message,
        "Impossible de trouver ce paquet de carte."
    );
}

#[test]
fn actions_have_a_status() {
    assert_eq!(Action::Insert(used_deck()).status(), 201);
    assert_eq!(Action::Update(used_deck()).status(), 200);
    assert_eq!(Action::Show(used_deck()).status(), 200);
    assert_eq!(Action::Delete(used_deck()).status(), 204);
    assert_eq!(Action::Refuse(Refusal::NotFound).status(), 404);
    assert_eq!(Action::Refuse(Refusal::MissingParameter).status(), 405);
    assert_eq!(Action::Refuse(Refusal::InvalidIdentifier).status(), 422);
}

#[test]
fn identifier_of_what_was_read() {
    assert_eq!(identifier(None), Err(Refusal::MissingParameter));
    assert_eq!(
        identifier(Some(Uuid::parse_str("not an identifier"))),
        Err(Refusal::InvalidIdentifier)
    );
    let id = Uuid::new_v4();
    assert_eq!(identifier(Some(Ok(id))), Ok(id));
}

#[test]
fn deck_id_reads_the_text() {
    assert_eq!(deck_id(None), Err(Refusal::MissingParameter));
    assert_eq!(deck_id(Some("")), Err(Refusal::InvalidIdentifier));
    assert_eq!(deck_id(Some("550e8400-e29b-41d4-a716")), Err(Refusal::InvalidIdentifier));
    assert_eq!(
        deck_id(Some("550e8400-e29b-41d4-a716-44665544000g")),
        Err(Refusal::InvalidIdentifier)
    );

    let id = deck_id(Some("550e8400-e29b-41d4-a716-446655440000")).unwrap();
    assert_eq!(id.as_u128(), 0x550e8400_e29b_41d4_a716_446655440000);
    assert_eq!(id.to_string(), "550e8400-e29b-41d4-a716-446655440000");
    assert_eq!(deck_id(Some("550e8400e29b41d4a716446655440000")), Ok(id));

    let other = Uuid::new_v4();
    assert_eq!(deck_id(Some(other.to_string().as_str())), Ok(other));
}

#[test]
fn post_creates_a_deck_to_insert() {
    match post_cards(&DeckSizeRequest { size: Some(32) }) {
        Action::Insert(deck) => {
            assert_eq!(deck.cards.len(), 32);
            assert_eq!(deck.cards[1], 6);
            assert!(deck.discarded.is_empty());
        }
        _ => panic!("a new deck is to be inserted"),
    }
    match post_cards(&DeckSizeRequest { size: None }) {
        Action::Insert(deck) => {
            assert_eq!(deck.cards, (0..52).collect::<Vec<Card>>());
            assert!(deck.discarded.is_empty());
        }
        _ => panic!("a new deck is to be inserted"),
    }
}

#[test]
fn requests_on_a_missing_deck_are_refused() {
    let switch = DeckSwitch { lifo: None, length: None, move_as_block: None };
    let shuffle = DeckShuffleRequest { shuffle_discarded: None };
    assert!(matches!(shuffle_cards(None, &shuffle), Action::Refuse(Refusal::NotFound)));
    assert!(matches!(take_cards(None, &switch), Action::Refuse(Refusal::NotFound)));
    assert!(matches!(put_cards(None, &switch), Action::Refuse(Refusal::NotFound)));
    assert!(matches!(get_cards(None), Action::Refuse(Refusal::NotFound)));
    assert!(matches!(delete_cards(None), Action::Refuse(Refusal::NotFound)));
}

#[test]
fn take_request_moves_one_card_under_the_discard_pile_by_default() {
    let deck = used_deck();
    let id = deck.id;
    let switch = DeckSwitch { lifo: None, length: None, move_as_block: None };
    match take_cards(Some(deck), &switch) {
        Action::Update(after) => {
            assert_eq!(after.id, id);
            assert_eq!(after.cards, (0..41).collect::<Vec<Card>>());
            assert_eq!(after.discarded, vec![41, 42, 43, 44, 45, 46, 47, 48, 49, 50, 51]);
        }
        _ => panic!("the deck is to be updated"),
    }
}

#[test]
fn take_request_follows_the_query() {
    let switch = DeckSwitch { lifo: Some(true), length: Some(3), move_as_block: Some(false) };
    match take_cards(Some(used_deck()), &switch) {
        Action::Update(after) => {
            assert_eq!(after.cards, (0..39).collect::<Vec<Card>>());
            assert_eq!(
                after.discarded,
                vec![42, 43, 44, 45, 46, 47, 48, 49, 50, 51, 41, 40, 39]
            );
        }
        _ => panic!("the deck is to be updated"),
    }
}

#[test]
fn put_request_follows_the_query() {
    let deck = used_deck();
    let id = deck.id;
    let switch = DeckSwitch { lifo: Some(true), length: Some(2), move_as_block: Some(true) };
    match put_cards(Some(deck), &switch) {
        Action::Update(after) => {
            assert_eq!(after.id, id);
            let mut cards: Vec<Card> = (0..42).collect();
            cards.extend([50, 51]);
            assert_eq!(after.cards, cards);
            assert_eq!(after.discarded, vec![42, 43, 44, 45, 46, 47, 48, 49]);
        }
        _ => panic!("the deck is to be updated"),
    }

    let switch = DeckSwitch { lifo: None, length: None, move_as_block: None };
    match put_cards(Some(used_deck()), &switch) {
        Action::Update(after) => {
            assert_eq!(after.cards[0], 51);
            assert_eq!(after.cards[1], 0);
            assert_eq!(after.cards.len(), 43);
            assert_eq!(after.discarded, vec![42, 43, 44, 45, 46, 47, 48, 49, 50]);
        }
        _ => panic!("the deck is to be updated"),
    }
}

#[test]
fn shuffle_request_picks_the_pile() {
    let deck = used_deck();
    let id = deck.id;
    match shuffle_cards(Some(deck), &DeckShuffleRequest { shuffle_discarded: Some(true) }) {
        Action::Update(after) => {
            assert_eq!(after.id, id);
            assert_eq!(after.cards, (0..42).collect::<Vec<Card>>());
            let mut discarded = after.discarded.clone();
            discarded.sort();
            assert_eq!(discarded, (42..52).collect::<Vec<Card>>());
        }
        _ => panic!("the deck is to be updated"),
    }
    match shuffle_cards(Some(used_deck()), &DeckShuffleRequest { shuffle_discarded: None }) {
        Action::Update(after) => {
            assert_eq!(after.discarded, (42..52).collect::<Vec<Card>>());
            let mut cards = after.cards.clone();
            cards.sort();
            assert_eq!(cards, (0..42).collect::<Vec<Card>>());
        }
        _ => panic!("the deck is to be updated"),
    }
}

#[test]
fn get_and_delete_hand_the_deck_on() {
    let deck = used_deck();
    let id = deck.id;
    match get_cards(Some(deck)) {
        Action::Show(shown) => {
            assert_eq!(shown.id, id);
            assert_eq!(shown.cards.len(), 42);
            assert_eq!(shown.discarded.len(), 10);
        }
        _ => panic!("the deck is to be shown"),
    }
    let deck = used_deck();
    let id = deck.id;
    match delete_cards(Some(deck)) {
        Action::Delete(gone) => {
            assert_eq!(gone.id, id);
            assert_eq!(gone.cards.len(), 42);
        }
        _ => panic!("the deck is to be deleted"),
    }
}

#[test]
fn find_takes_the_first_record() {
    let id = Uuid::new_v4();
    let none: Result<Vec<(Vec<Card>, Vec<Card>)>, String> = Ok(vec![]);
    assert!(Deck::find_by_id(id, none).is_none());

    let failed: Result<Vec<(Vec<Card>, Vec<Card>)>, String> = Err(String::from("gone"));
    assert!(Deck::find_by_id(id, failed).is_none());

    let one: Result<Vec<(Vec<Card>, Vec<Card>)>, String> = Ok(vec![(vec![3, 1, 2], vec![0])]);
    let deck = Deck::find_by_id(id, one).unwrap();
    assert_eq!(deck.id, id);
    assert_eq!(deck.cards, vec![3, 1, 2]);
    assert_eq!(deck.discarded, vec![0]);

    let three: Result<Vec<(Vec<Card>, Vec<Card>)>, String> =
        Ok(vec![(vec![5], vec![6, 7]), (vec![1], vec![2]), (vec![8], vec![9])]);
    let deck = Deck::find_by_id(id, three).unwrap();
    assert_eq!(deck.id, id);
    assert_eq!(deck.cards, vec![5]);
    assert_eq!(deck.discarded, vec![6, 7]);
}
