use jeu_de_carte::card_generator::{decimal_string, get_card};
use jeu_de_carte::cards::canonical_cards;
use jeu_de_carte::representation::is_presentable;
use jeu_de_carte::{Card, Deck, DeckRepresentation, DeckSize};
use uuid::Uuid;

#[test]
fn canonical_cards_of_both_sizes() {
    assert_eq!(canonical_cards(DeckSize::Normal), (0..52).collect::<Vec<Card>>());
    let small = canonical_cards(DeckSize::Small);
    assert_eq!(small.len(), 32);
    assert_eq!(&small[..9], &[0, 6, 7, 8, 9, 10, 11, 12, 13]);
    assert_eq!(small[31], 51);
}

#[test]
fn small_deck_holds_rank_zero_and_ranks_above_five() {
    for card in 0..52 {
        assert!(DeckSize::Normal.holds(card));
        assert_eq!(DeckSize::Small.holds(card), card % 13 == 0 || card % 13 > 5);
    }
    assert!(DeckSize::Small.holds(0));
    assert!(!DeckSize::Small.holds(1));
    assert!(!DeckSize::Small.holds(5));
    assert!(DeckSize::Small.holds(6));
    assert!(!DeckSize::Small.holds(18));
    assert!(DeckSize::Small.holds(19));
}

#[test]
fn no_deck_holds_what_is_outside_the_full_deck() {
    for size in [DeckSize::Small, DeckSize::Normal] {
        assert!(!size.holds(-1));
        assert!(!size.holds(-13));
        assert!(!size.holds(52));
        assert!(!size.holds(58));
        assert!(!size.holds(Card::MAX));
        assert!(!size.holds(Card::MIN));
    }
}

#[test]
fn decimal_of_numbers() {
    assert_eq!(decimal_string(0), "0");
    assert_eq!(decimal_string(7), "7");
    assert_eq!(decimal_string(10), "10");
    assert_eq!(decimal_string(51), "51");
    assert_eq!(decimal_string(1203), "1203");
    assert_eq!(decimal_string(u32::MAX), "4294967295");
}

#[test]
fn first_card_is_the_ace_of_the_first_suit() {
    let card = get_card(&0, "http://assets/", ".png");
    assert_eq!(card.name, "As de Tr\u{c3}\u{a8}fle");
    assert_eq!(card.value, 0);
    assert_eq!(card.image, "http://assets/0.png");
}

#[test]
fn names_follow_rank_and_suit() {
    assert_eq!(get_card(&1, "", "").name, "2 de Tr\u{c3}\u{a8}fle");
    assert_eq!(get_card(&5, "", "").name, "6 de Tr\u{c3}\u{a8}fle");
    assert_eq!(get_card(&10, "", "").name, "Valet de Tr\u{c3}\u{a8}fle");
    assert_eq!(get_card(&13, "", "").name, "As de Carreau");
    assert_eq!(get_card(&24, "", "").name, "Reine de Carreau");
    assert_eq!(get_card(&35, "", "").name, "10 de Coeur");
    assert_eq!(get_card(&38, "", "").name, "Roi de Coeur");
    assert_eq!(get_card(&39, "", "").name, "As de Pique");
    assert_eq!(get_card(&45, "", "").name, "7 de Pique");
    assert_eq!(get_card(&51, "", "").name, "Roi de Pique");
}

#[test]
fn every_rank_has_its_word() {
    let words = ["As", "2", "3", "4", "5", "6", "7", "8", "9", "10", "Valet", "Reine", "Roi"];
    for (rank, word) in words.iter().enumerate() {
        let card = get_card(&(26 + rank as Card), "", "");
        assert_eq!(card.name, format!("{} de Coeur", word));
        assert_eq!(card.value, 26 + rank as Card);
    }
}

#[test]
fn image_is_place_number_extension() {
    let card = get_card(&35, "https://cards.example/img/", ".svg");
    assert_eq!(card.image, "https://cards.example/img/35.svg");
    assert_eq!(card.value, 35);
    let card = get_card(&9, "a", "");
    assert_eq!(card.image, "a9");
}

#[test]
fn presentable_piles_hold_cards_of_the_full_deck() {
    assert!(is_presentable(&vec![]));
    assert!(is_presentable(&vec![0, 51, 13]));
    assert!(!is_presentable(&vec![0, 52]));
    assert!(!is_presentable(&vec![-1]));

    let deck = Deck::new(DeckSize::Small);
    assert!(deck.is_presentable());
    let deck = Deck { id: Uuid::new_v4(), cards: vec![3], discarded: vec![4, 60] };
    assert!(!deck.is_presentable());
    let deck = Deck { id: Uuid::new_v4(), cards: vec![-3], discarded: vec![4] };
    assert!(!deck.is_presentable());
}

#[test]
fn deck_is_shown_pile_by_pile() {
    let mut deck = Deck::new(DeckSize::Small);
    deck.take(true, 2, false);
    let id = deck.id;
    let shown = DeckRepresentation::from(deck, "/img/", ".png");
    assert_eq!(shown.id, id);
    assert_eq!(shown.cards.len(), 30);
    assert_eq!(shown.discarded.len(), 2);
    assert_eq!(shown.cards[0].value, 0);
    assert_eq!(shown.cards[1].value, 6);
    assert_eq!(shown.cards[1].name, "7 de Tr\u{c3}\u{a8}fle");
    assert_eq!(shown.cards[29].value, 49);
    assert_eq!(shown.cards[29].image, "/img/49.png");
    assert_eq!(shown.discarded[0].value, 51);
    assert_eq!(shown.discarded[0].name, "Roi de Pique");
    assert_eq!(shown.discarded[1].value, 50);
    assert_eq!(shown.discarded[1].image, "/img/50.png");
}

#[test]
fn empty_deck_is_shown_empty() {
    let id = Uuid::new_v4();
    let shown = DeckRepresentation::from(Deck { id, cards: vec![], discarded: vec![] }, "", "");
    assert_eq!(shown.id, id);
    assert!(shown.cards.is_empty());
    assert!(shown.discarded.is_empty());
}
