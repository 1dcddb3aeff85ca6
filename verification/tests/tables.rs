use ape_games::holdem::TexasHoldem;
use ape_games::slots::SlotVariant;
use ape_games::text::{first_token, parse_bet_amount, parse_u64, second_token};

#[test]
fn holdem_tables_seat_up_to_ten_before_play() {
    let mut t = TexasHoldem::new(1000);
    assert!(t.can_join());
    assert!(!t.can_start());
    t.add_player(1);
    t.add_player(2);
    assert!(t.can_start());
    for u in 3..=10u64 {
        assert!(t.can_join());
        t.add_player(u);
    }
    assert!(!t.can_join());
    assert_eq!(t.players.len(), 10);
    // every seated player holds two hole cards
    assert_eq!(t.get_hand(4).unwrap().len(), 2);
    assert!(t.get_hand(99).is_none());
}

#[test]
fn holdem_blinds_are_posted_on_start() {
    let mut t = TexasHoldem::new(1000);
    t.add_player(1);
    t.add_player(2);
    t.start();
    assert_eq!(t.round, 1);
    // two percent big blind, half of it small
    assert_eq!(t.current_bet, 20);
    assert_eq!(t.players[0].current_bet, 10);
    assert_eq!(t.players[1].current_bet, 20);
    assert!(!t.can_join());
}

#[test]
fn slot_symbols_carry_their_reel_weights() {
    assert_eq!(SlotVariant::Cherry.amount_per_reel(), 1);
    assert_eq!(SlotVariant::Seven.amount_per_reel(), 2);
    assert_eq!(SlotVariant::Lemon.amount_per_reel(), 3);
    assert_eq!(SlotVariant::Orange.amount_per_reel(), 4);
    assert_eq!(SlotVariant::Grapes.amount_per_reel(), 5);
    assert_eq!(SlotVariant::Bell.amount_per_reel(), 6);
    assert_eq!(SlotVariant::Bar.amount_per_reel(), 7);
    assert_eq!(SlotVariant::Diamond.amount_per_reel(), 8);
    assert_eq!(SlotVariant::values().len(), 8);
}

#[test]
fn slot_draws_return_a_known_symbol() {
    let all = SlotVariant::values();
    for _ in 0..50 {
        let v = SlotVariant::random();
        assert!(all.contains(&v));
    }
}

#[test]
fn tokens_are_lower_cased_and_split_on_whitespace() {
    let line: Vec<u8> = b"  HiT me harder ".to_vec();
    assert_eq!(first_token(&line), b"hit".to_vec());
    assert_eq!(second_token(&line), b"me".to_vec());
    let empty: Vec<u8> = b"   ".to_vec();
    assert_eq!(first_token(&empty), Vec::<u8>::new());
    assert_eq!(second_token(&empty), Vec::<u8>::new());
}

#[test]
fn bet_tokens_follow_the_wager_grammar() {
    let balance = 12_345u64;
    assert_eq!(parse_bet_amount(&b"all".to_vec(), balance), Some(12_345));
    assert_eq!(parse_bet_amount(&b"half".to_vec(), balance), Some(6_172));
    assert_eq!(parse_bet_amount(&b"5k".to_vec(), balance), Some(5_000));
    assert_eq!(parse_bet_amount(&b"2m".to_vec(), balance), Some(2_000_000));
    // an unreadable prefix before the suffix defaults to five
    assert_eq!(parse_bet_amount(&b"xk".to_vec(), balance), Some(5_000));
    assert_eq!(parse_bet_amount(&b"m".to_vec(), balance), Some(5_000_000));
    assert_eq!(parse_bet_amount(&b"700".to_vec(), balance), Some(700));
    assert_eq!(parse_bet_amount(&b"sevens".to_vec(), balance), None);
    assert_eq!(parse_bet_amount(&Vec::new(), balance), None);
}

#[test]
fn numeric_tokens_parse_exactly() {
    assert_eq!(parse_u64(&b"0".to_vec()), Some(0));
    assert_eq!(parse_u64(&b"1234".to_vec()), Some(1234));
    assert_eq!(parse_u64(&b"18446744073709551615".to_vec()), Some(u64::MAX));
    assert_eq!(parse_u64(&b"18446744073709551616".to_vec()), None);
    assert_eq!(parse_u64(&b"12a".to_vec()), None);
    assert_eq!(parse_u64(&Vec::new()), None);
}
