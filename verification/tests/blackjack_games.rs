use ape_games::blackjack::{BjMsg, BlackJack, BlackjackHand, BlackjackPlayer};
use ape_games::cards::{Card, CardType, Suit};
use ape_games::store::Users;

fn card(t: CardType) -> Card {
    Card::new(t, Suit::Hearts)
}

fn hand_of(types: &[CardType]) -> BlackjackHand {
    let mut h = BlackjackHand::new();
    for t in types {
        h.add_card(card(*t));
    }
    h
}

#[test]
fn soft_ace_scores_reduce_one_ace_at_a_time() {
    assert_eq!(hand_of(&[CardType::Ace, CardType::King]).score(), 21);
    assert_eq!(hand_of(&[CardType::Ace, CardType::Ace]).score(), 12);
    assert_eq!(hand_of(&[CardType::Ace, CardType::Ace, CardType::Nine]).score(), 21);
    assert_eq!(hand_of(&[CardType::King, CardType::Queen, CardType::Ace]).score(), 21);
    assert_eq!(hand_of(&[CardType::Five, CardType::Six]).score(), 11);
    assert_eq!(hand_of(&[CardType::King, CardType::Queen, CardType::Five]).score(), 25);
    assert_eq!(hand_of(&[]).score(), 0);
}

#[test]
fn bust_is_only_reported_when_unavoidable() {
    // every hand that scores above twenty-one already counts its aces low
    let h = hand_of(&[CardType::King, CardType::Queen, CardType::Ace, CardType::Ace]);
    // minimum total is 10 + 10 + 1 + 1 = 22: bust is real
    assert_eq!(h.score(), 22);
    assert!(h.is_bust());
    // with any room left, an ace drops to one instead of busting
    let soft = hand_of(&[CardType::Nine, CardType::Ace, CardType::Ace]);
    assert_eq!(soft.score(), 21);
    assert!(!soft.is_bust());
}

#[test]
fn natural_blackjack_is_two_cards_totalling_twenty_one() {
    let natural = hand_of(&[CardType::Ace, CardType::King]);
    assert!(natural.is_blackjack());
    assert!(natural.is_21());
    let three_card = hand_of(&[CardType::Seven, CardType::Seven, CardType::Seven]);
    assert!(three_card.is_21());
    assert!(!three_card.is_blackjack());
}

#[test]
fn hand_comparisons() {
    let a = hand_of(&[CardType::King, CardType::Nine]);
    let b = hand_of(&[CardType::King, CardType::Eight]);
    assert!(a.is_winning(&b));
    assert!(!b.is_winning(&a));
    assert!(a.is_push(&hand_of(&[CardType::Ten, CardType::Nine])));
    let mut c = hand_of(&[CardType::Two]);
    c.clear();
    assert_eq!(c.score(), 0);
}

#[test]
fn split_requires_equal_values_or_two_tens() {
    let mut p = BlackjackPlayer::new(50);
    p.hit(card(CardType::Eight));
    p.hit(card(CardType::Eight));
    assert!(p.can_split());
    let mut q = BlackjackPlayer::new(50);
    q.hit(card(CardType::King));
    q.hit(Card::new(CardType::Ten, Suit::Spades));
    assert!(q.can_split());
    let mut r = BlackjackPlayer::new(50);
    r.hit(card(CardType::Seven));
    r.hit(Card::new(CardType::Eight, Suit::Spades));
    assert!(!r.can_split());
}

#[test]
fn rejected_split_changes_nothing() {
    // a two-card hand of a seven and an eight cannot be split
    let mut game = BlackJack::new(100);
    game.player.hands[0].add_card(Card::new(CardType::Seven, Suit::Hearts));
    game.player.hands[0].add_card(Card::new(CardType::Eight, Suit::Spades));
    game.dealer.add_card(card(CardType::Nine));
    game.dealer.add_card(card(CardType::Seven));
    // draw the stand-in cards from the deck, keeping the count intact
    for _ in 0..4 {
        game.deck.deal();
    }
    let mut users = Users::new();
    users.credit(7, 1000);
    let (msg, done) = game.handle_message(&mut users, 7, "split");
    assert_eq!(msg, BjMsg::Unknown);
    assert!(!done);
    assert_eq!(game.player.hands.len(), 1);
    assert_eq!(game.player.hands[0].cards.len(), 2);
    assert_eq!(users.get_balance(7), 1000);
}

#[test]
fn natural_pays_three_to_two_on_stand() {
    // bet 100, dealer up-card a nine, player dealt an ace and a king:
    // blackjack, and the stand pays the returned bet plus one and a half
    let mut game = BlackJack::new(100);
    game.player.hands[0].add_card(card(CardType::Ace));
    game.player.hands[0].add_card(Card::new(CardType::King, Suit::Spades));
    game.dealer.add_card(card(CardType::Nine));
    game.dealer.add_card(card(CardType::Eight));
    // draw the stand-in cards from the deck, keeping the count intact
    for _ in 0..4 {
        game.deck.deal();
    }
    game.player_blackjack = game.player.hands[0].is_blackjack();
    assert!(game.player_blackjack);
    assert_eq!(game.player.hands[0].score(), 21);
    let mut users = Users::new();
    let (msg, done) = game.handle_message(&mut users, 9, "stand");
    assert!(done);
    match msg {
        BjMsg::RoundWon { payout } => assert_eq!(payout, 250),
        other => panic!("expected a win, got {:?}", other),
    }
    assert_eq!(users.get_balance(9), 250);
}

#[test]
fn push_returns_the_stake() {
    let mut game = BlackJack::new(100);
    game.player.hands[0].add_card(card(CardType::King));
    game.player.hands[0].add_card(Card::new(CardType::Seven, Suit::Clubs));
    game.dealer.add_card(Card::new(CardType::King, Suit::Diamonds));
    game.dealer.add_card(Card::new(CardType::Seven, Suit::Spades));
    // draw the stand-in cards from the deck, keeping the count intact
    for _ in 0..4 {
        game.deck.deal();
    }
    let mut users = Users::new();
    let (msg, done) = game.handle_message(&mut users, 3, "stand");
    assert!(done);
    match msg {
        BjMsg::RoundPush { score } => assert_eq!(score, 17),
        other => panic!("expected a push, got {:?}", other),
    }
    assert_eq!(users.get_balance(3), 100);
}

#[test]
fn dealer_win_pays_nothing() {
    let mut game = BlackJack::new(100);
    game.player.hands[0].add_card(card(CardType::King));
    game.player.hands[0].add_card(Card::new(CardType::Seven, Suit::Clubs));
    game.dealer.add_card(Card::new(CardType::King, Suit::Diamonds));
    game.dealer.add_card(Card::new(CardType::Nine, Suit::Spades));
    // draw the stand-in cards from the deck, keeping the count intact
    for _ in 0..4 {
        game.deck.deal();
    }
    let mut users = Users::new();
    users.credit(4, 500);
    let (msg, done) = game.handle_message(&mut users, 4, "stand");
    assert!(done);
    assert!(matches!(msg, BjMsg::RoundLost { dealer_score: 19 }));
    assert_eq!(users.get_balance(4), 500);
}

#[test]
fn unknown_command_is_rejected_without_change() {
    let mut game = BlackJack::new(50);
    game.player.hands[0].add_card(card(CardType::Five));
    game.player.hands[0].add_card(card(CardType::Six));
    game.dealer.add_card(card(CardType::Nine));
    game.dealer.add_card(card(CardType::Seven));
    // draw the stand-in cards from the deck, keeping the count intact
    for _ in 0..4 {
        game.deck.deal();
    }
    let mut users = Users::new();
    let (msg, done) = game.handle_message(&mut users, 5, "dance");
    assert_eq!(msg, BjMsg::Unknown);
    assert!(!done);
}

#[test]
fn double_with_invalid_amount_is_rejected() {
    let mut game = BlackJack::new(100);
    game.player.hands[0].add_card(card(CardType::Five));
    game.player.hands[0].add_card(card(CardType::Six));
    game.dealer.add_card(card(CardType::Nine));
    game.dealer.add_card(card(CardType::Seven));
    // draw the stand-in cards from the deck, keeping the count intact
    for _ in 0..4 {
        game.deck.deal();
    }
    let mut users = Users::new();
    users.credit(8, 1000);
    let (msg, _) = game.handle_message(&mut users, 8, "double 3");
    assert_eq!(msg, BjMsg::InvalidDoubleAmount);
    let (msg2, _) = game.handle_message(&mut users, 8, "double lots");
    assert_eq!(msg2, BjMsg::InvalidDoubleAmount);
    // an amount at or above the current bet is also rejected
    let (msg3, _) = game.handle_message(&mut users, 8, "double 100");
    assert_eq!(msg3, BjMsg::InvalidDoubleAmount);
    assert_eq!(users.get_balance(8), 1000);
}

#[test]
fn hitting_draws_a_card() {
    let mut game = BlackJack::new(100);
    game.deal();
    let before = game.player.hands[0].cards.len();
    if !game.offered_insurance && !game.player.hands[0].is_blackjack() {
        let mut users = Users::new();
        let (msg, _) = game.handle_message(&mut users, 2, "hit");
        match msg {
            BjMsg::YouHit => assert_eq!(game.player.hands[0].cards.len(), before + 1),
            BjMsg::RoundBust { .. } => {}
            other => panic!("unexpected reply {:?}", other),
        }
    }
}

#[test]
fn insurance_answer_required_first() {
    let mut game = BlackJack::new(100);
    game.player.hands[0].add_card(card(CardType::Five));
    game.player.hands[0].add_card(card(CardType::Six));
    game.dealer.add_card(card(CardType::Ace));
    game.dealer.add_card(card(CardType::Seven));
    // draw the stand-in cards from the deck, keeping the count intact
    for _ in 0..4 {
        game.deck.deal();
    }
    game.offered_insurance = true;
    let mut users = Users::new();
    users.credit(6, 1000);
    let (msg, done) = game.handle_message(&mut users, 6, "hit");
    assert_eq!(msg, BjMsg::NeedInsuranceAnswer);
    assert!(!done);
    // declining against a dealer without blackjack starts normal play
    let (msg2, done2) = game.handle_message(&mut users, 6, "no");
    assert_eq!(msg2, BjMsg::GameBegun);
    assert!(!done2);
    assert!(!game.offered_insurance);
}

#[test]
fn declining_insurance_against_dealer_blackjack_loses() {
    let mut game = BlackJack::new(100);
    game.player.hands[0].add_card(card(CardType::Five));
    game.player.hands[0].add_card(card(CardType::Six));
    game.dealer.add_card(card(CardType::Ace));
    game.dealer.add_card(card(CardType::King));
    // draw the stand-in cards from the deck, keeping the count intact
    for _ in 0..4 {
        game.deck.deal();
    }
    game.offered_insurance = true;
    let mut users = Users::new();
    users.credit(6, 1000);
    let (msg, done) = game.handle_message(&mut users, 6, "no");
    assert_eq!(msg, BjMsg::DealerBlackjack);
    assert!(done);
    assert_eq!(users.get_balance(6), 1000);
}

#[test]
fn options_offer_double_only_on_first_action() {
    let mut game = BlackJack::new(100);
    game.player.hands[0].add_card(card(CardType::Five));
    game.player.hands[0].add_card(card(CardType::Six));
    game.dealer.add_card(card(CardType::Nine));
    game.dealer.add_card(card(CardType::Seven));
    // draw the stand-in cards from the deck, keeping the count intact
    for _ in 0..4 {
        game.deck.deal();
    }
    let o = game.give_options();
    assert!(o.hit && o.stand && o.double && !o.insurance && !o.split);
    game.turn = 1;
    let o2 = game.give_options();
    assert!(!o2.double);
}
