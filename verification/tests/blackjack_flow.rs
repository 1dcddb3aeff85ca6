use ape_games::blackjack::{BjMsg, BlackJack};
use ape_games::cards::{Card, CardType, Suit};
use ape_games::mine_battle::{MineBattle, MineMsg};
use ape_games::mine_data::{DropTable, Enemy};
use ape_games::store::Users;

fn game_with(player: &[CardType], dealer: &[CardType], bet: u64) -> BlackJack {
    let mut game = BlackJack::new(bet);
    let suits = [Suit::Hearts, Suit::Spades, Suit::Clubs, Suit::Diamonds];
    for (k, t) in player.iter().enumerate() {
        game.player.hands[0].add_card(Card::new(*t, suits[k % 4]));
    }
    for (k, t) in dealer.iter().enumerate() {
        game.dealer.add_card(Card::new(*t, suits[(k + 2) % 4]));
    }
    // the hand-built cards stand in for deck deals, so draw as many from
    // the deck to keep the game's card-count bookkeeping intact
    for _ in 0..player.len() + dealer.len() {
        game.deck.deal();
    }
    game.player_blackjack = game.player.hands[0].is_blackjack();
    game
}

#[test]
fn buying_insurance_with_a_natural_pushes() {
    let mut game = game_with(&[CardType::Ace, CardType::King], &[CardType::Ace, CardType::Five], 100);
    game.offered_insurance = true;
    let mut users = Users::new();
    users.credit(1, 200);
    let (msg, done) = game.handle_message(&mut users, 1, "yes");
    assert_eq!(msg, BjMsg::InsurancePush);
    assert!(done);
    // insurance back plus the pushed stake: a net gain of the bet
    assert_eq!(users.get_balance(1), 300);
}

#[test]
fn insurance_pays_two_to_one_on_dealer_blackjack() {
    let mut game = game_with(&[CardType::Five, CardType::Six], &[CardType::Ace, CardType::King], 100);
    game.offered_insurance = true;
    let mut users = Users::new();
    users.credit(1, 200);
    let (msg, done) = game.handle_message(&mut users, 1, "yes");
    assert_eq!(msg, BjMsg::InsurancePaid);
    assert!(done);
    // the fifty-stake insurance pays back one hundred fifty; the main bet is lost
    assert_eq!(users.get_balance(1), 300);
}

#[test]
fn insurance_is_forfeited_when_the_dealer_has_no_blackjack() {
    let mut game = game_with(&[CardType::Five, CardType::Six], &[CardType::Ace, CardType::Five], 100);
    game.offered_insurance = true;
    let mut users = Users::new();
    users.credit(1, 200);
    let (msg, done) = game.handle_message(&mut users, 1, "yes");
    assert_eq!(msg, BjMsg::InsuranceLost);
    assert!(!done);
    assert!(!game.offered_insurance);
    assert_eq!(users.get_balance(1), 150);
}

#[test]
fn insurance_needs_half_the_bet_on_hand() {
    let mut game = game_with(&[CardType::Five, CardType::Six], &[CardType::Ace, CardType::Five], 100);
    game.offered_insurance = true;
    let mut users = Users::new();
    users.credit(1, 30);
    let (msg, done) = game.handle_message(&mut users, 1, "yes");
    assert_eq!(msg, BjMsg::NotEnoughForInsurance);
    assert!(!done);
    assert_eq!(users.get_balance(1), 30);
}

#[test]
fn splitting_a_pair_duplicates_the_bet() {
    let mut game = game_with(&[CardType::Eight, CardType::Eight], &[CardType::Nine, CardType::Seven], 100);
    let mut users = Users::new();
    users.credit(2, 500);
    let (msg, done) = game.handle_message(&mut users, 2, "split");
    assert_eq!(msg, BjMsg::YouSplit);
    assert!(!done);
    assert_eq!(game.player.hands.len(), 2);
    // the second hand holds the split-off eight, the first drew its card
    assert_eq!(game.player.hands[1].cards.len(), 1);
    assert_eq!(game.player.hands[0].cards.len(), 2);
    assert_eq!(users.get_balance(2), 400);
    // resolving the first hand moves play to the second without ending
    let (m2, done2) = game.handle_message(&mut users, 2, "stand");
    assert!(!done2, "a split game resolves one hand at a time, got {:?}", m2);
    assert_eq!(game.player.playing_hand, 1);
    let (_, done3) = game.handle_message(&mut users, 2, "stand");
    assert!(done3);
}

#[test]
fn splitting_without_funds_is_rejected() {
    let mut game = game_with(&[CardType::Eight, CardType::Eight], &[CardType::Nine, CardType::Seven], 100);
    let mut users = Users::new();
    users.credit(2, 40);
    let (msg, _) = game.handle_message(&mut users, 2, "split");
    assert_eq!(msg, BjMsg::NotEnoughToSplit);
    assert_eq!(game.player.hands.len(), 1);
    assert_eq!(users.get_balance(2), 40);
}

#[test]
fn doubling_down_debits_and_resolves_at_once() {
    let mut game = game_with(&[CardType::Five, CardType::Six], &[CardType::Nine, CardType::Seven], 100);
    let mut users = Users::new();
    users.credit(3, 1000);
    let (msg, done) = game.handle_message(&mut users, 3, "double 50");
    assert!(done, "a double forces the hand to resolve");
    match msg {
        BjMsg::RoundWon { payout } => {
            assert_eq!(payout, 300);
            assert_eq!(users.get_balance(3), 1000 - 50 + 300);
        }
        BjMsg::RoundPush { .. } => assert_eq!(users.get_balance(3), 1000 - 50 + 150),
        BjMsg::RoundBust { .. } | BjMsg::RoundLost { .. } => {
            assert_eq!(users.get_balance(3), 950)
        }
        other => panic!("unexpected reply {:?}", other),
    }
}

#[test]
fn doubling_beyond_the_purse_is_rejected() {
    let mut game = game_with(&[CardType::Five, CardType::Six], &[CardType::Nine, CardType::Seven], 100);
    let mut users = Users::new();
    users.credit(3, 10);
    let (msg, done) = game.handle_message(&mut users, 3, "double 50");
    assert_eq!(msg, BjMsg::NotEnoughToDouble);
    assert!(!done);
    assert_eq!(users.get_balance(3), 10);
}

#[test]
fn doubling_later_in_the_hand_is_rejected() {
    let mut game = game_with(&[CardType::Five, CardType::Six], &[CardType::Nine, CardType::Seven], 100);
    game.turn = 1;
    let mut users = Users::new();
    users.credit(3, 1000);
    let (msg, _) = game.handle_message(&mut users, 3, "double");
    assert_eq!(msg, BjMsg::Unknown);
    assert_eq!(users.get_balance(3), 1000);
}

#[test]
fn fleeing_at_one_health_always_succeeds() {
    // the flight chance is one over the player's health
    let enemy = Enemy {
        health_lo: 100,
        health_hi: 199,
        damage_lo: 0,
        damage_hi: 5,
        reward_scaling: false,
        drops: DropTable { sludge_lo: 1, sludge_hi: 2, items: Vec::new() },
    };
    let mut users = Users::new();
    let mut battle = MineBattle::new(enemy, 5);
    battle.player_health = 1;
    let (msg, done) = battle.handle_message(&mut users, 5, "run");
    assert_eq!(msg, MineMsg::Fled);
    assert!(done);
}
