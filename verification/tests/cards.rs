use ape_games::cards::{Card, CardType, Deck, Suit, card_value, is_10_value};

#[test]
fn six_pack_deck_deals_exactly_all_cards() {
    // a six-pack blackjack deck holds 52 * 6 = 312 cards and deals them all
    let mut deck = Deck::new(6, false);
    assert_eq!(deck.len(), 312);
    deck.shuffle();
    assert_eq!(deck.len(), 312);
    let mut count = 0u32;
    while deck.len() > 0 {
        let card = deck.deal();
        assert!(!matches!(card.card_type, CardType::Joker));
        count += 1;
    }
    assert_eq!(count, 312);
}

#[test]
fn each_rank_suit_pair_appears_once_per_pack() {
    let mut deck = Deck::new(6, false);
    let mut counts = [0u32; 56];
    while deck.len() > 0 {
        let c = deck.deal();
        let rank = match c.card_type {
            CardType::Ace => 0,
            CardType::Two => 1,
            CardType::Three => 2,
            CardType::Four => 3,
            CardType::Five => 4,
            CardType::Six => 5,
            CardType::Seven => 6,
            CardType::Eight => 7,
            CardType::Nine => 8,
            CardType::Ten => 9,
            CardType::Jack => 10,
            CardType::Queen => 11,
            CardType::King => 12,
            CardType::Joker => 13,
        };
        let suit = match c.suit {
            Suit::Hearts => 0,
            Suit::Diamonds => 1,
            Suit::Clubs => 2,
            Suit::Spades => 3,
        };
        counts[rank * 4 + suit] += 1;
    }
    for k in 0..52 {
        assert_eq!(counts[k], 6, "pair {} should appear six times", k);
    }
    for k in 52..56 {
        assert_eq!(counts[k], 0, "no jokers in a blackjack deck");
    }
}

#[test]
fn joker_packs_hold_54_cards_each() {
    let deck = Deck::new(2, true);
    assert_eq!(deck.len(), 108);
}

#[test]
fn shuffle_keeps_the_same_cards() {
    let mut deck = Deck::new(1, false);
    let mut before: Vec<Card> = Vec::new();
    for c in &deck.cards {
        before.push(*c);
    }
    deck.shuffle();
    assert_eq!(deck.len(), 52);
    // every card that comes out was in the unshuffled pack
    while deck.len() > 0 {
        let c = deck.deal();
        let pos = before.iter().position(|x| *x == c);
        assert!(pos.is_some());
        before.remove(pos.unwrap());
    }
    assert!(before.is_empty());
}

#[test]
fn card_values_follow_blackjack_rules() {
    assert_eq!(card_value(&Card::new(CardType::Ace, Suit::Hearts)), 11);
    assert_eq!(card_value(&Card::new(CardType::Two, Suit::Clubs)), 2);
    assert_eq!(card_value(&Card::new(CardType::Nine, Suit::Spades)), 9);
    assert_eq!(card_value(&Card::new(CardType::Ten, Suit::Diamonds)), 10);
    assert_eq!(card_value(&Card::new(CardType::Jack, Suit::Hearts)), 10);
    assert_eq!(card_value(&Card::new(CardType::Queen, Suit::Hearts)), 10);
    assert_eq!(card_value(&Card::new(CardType::King, Suit::Hearts)), 10);
    assert_eq!(card_value(&Card::new(CardType::Joker, Suit::Hearts)), 0);
}

#[test]
fn ten_value_cards_are_ten_jack_queen_king() {
    assert!(is_10_value(&Card::new(CardType::Ten, Suit::Hearts)));
    assert!(is_10_value(&Card::new(CardType::Jack, Suit::Hearts)));
    assert!(is_10_value(&Card::new(CardType::Queen, Suit::Hearts)));
    assert!(is_10_value(&Card::new(CardType::King, Suit::Hearts)));
    assert!(!is_10_value(&Card::new(CardType::Ace, Suit::Hearts)));
    assert!(!is_10_value(&Card::new(CardType::Nine, Suit::Hearts)));
}

#[test]
fn suits_split_into_red_and_black() {
    assert!(Suit::Hearts.is_red());
    assert!(Suit::Diamonds.is_red());
    assert!(Suit::Clubs.is_black());
    assert!(Suit::Spades.is_black());
    assert!(!Suit::Hearts.is_black());
    assert!(!Suit::Clubs.is_red());
}

#[test]
fn cards_spell_out_their_rank_and_suit() {
    let c = Card::new(CardType::Ace, Suit::Hearts);
    assert_eq!(c.display_raw(), "Ace of Hearts");
    assert_eq!(c.display_no_suite(), "Ace");
    assert_eq!(c.show_hidden(), "(face down)");
    let d = Card::new(CardType::Queen, Suit::Spades);
    assert_eq!(d.display_raw(), "Queen of Spades");
}

#[test]
fn face_cards_are_jack_queen_king() {
    assert!(CardType::Jack.is_face_card());
    assert!(CardType::Queen.is_face_card());
    assert!(CardType::King.is_face_card());
    assert!(!CardType::Ten.is_face_card());
    assert!(!CardType::Ace.is_face_card());
    assert!(Card::new(CardType::King, Suit::Clubs).is_face_card());
}
