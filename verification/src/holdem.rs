//! The Texas Hold'em variant: the only variant joinable after creation.
//! This core covers the table setup alone - seating, blinds and hole
//! cards; the betting rounds themselves are not part of it, and the
//! session layer answers their inputs with an unsupported marker.
use vstd::prelude::*;
use crate::cards::{Card, Deck};
use crate::rng;

verus! {

pub struct HoldemPlayer {
    pub user: u64,
    pub hand: (Card, Card),
    pub current_bet: u64,
    pub folded: bool,
    pub played_round: bool,
}

pub struct TexasHoldem {
    pub buy_in: u64,
    pub players: Vec<HoldemPlayer>,
    pub community_cards: Vec<Card>,
    pub deck: Deck,
    pub current_bet: u64,
    pub round: u8,
}

impl TexasHoldem {
    /// A fresh table over a shuffled two-pack deck, waiting for players.
    pub fn new(buy_in: u64) -> (t: TexasHoldem)
        ensures
            t.buy_in == buy_in,
            t.players@.len() == 0,
            t.community_cards@.len() == 0,
            t.deck.cards@.len() == 104,
            t.current_bet == 0,
            t.round == 0,
    {
        let mut deck = Deck::new(2, false);
        deck.shuffle();
        TexasHoldem {
            buy_in,
            players: Vec::new(),
            community_cards: Vec::new(),
            deck,
            current_bet: 0,
            round: 0,
        }
    }

    /// Deal two hole cards to a joining player.
    pub fn add_player(&mut self, user: u64)
        requires
            old(self).deck.cards@.len() >= 2,
        ensures
            final(self).players@.len() == old(self).players@.len() + 1,
            final(self).players@.drop_last() == old(self).players@,
            final(self).players@.last().user == user,
            final(self).players@.last().current_bet == 0,
            !final(self).players@.last().folded,
            final(self).deck.cards@.len() == old(self).deck.cards@.len() - 2,
            final(self).buy_in == old(self).buy_in,
            final(self).round == old(self).round,
            final(self).current_bet == old(self).current_bet,
    {
        let c1 = self.deck.deal();
        let c2 = self.deck.deal();
        self.players.push(
            HoldemPlayer {
                user,
                hand: (c1, c2),
                current_bet: 0,
                folded: false,
                played_round: false,
            },
        );
    }

    /// Open play: shuffle the seating, post the blinds (two percent of the
    /// buy-in for the big blind, half that for the small), and start the
    /// first round.
    pub fn start(&mut self)
        requires
            old(self).players@.len() >= 2,
        ensures
            final(self).round == 1,
            final(self).community_cards@.len() == 0,
            final(self).players@.len() == old(self).players@.len(),
            final(self).players@[0].current_bet == old(self).buy_in / 50 / 2,
            final(self).players@[1].current_bet == old(self).buy_in / 50,
            final(self).current_bet == old(self).buy_in / 50,
            final(self).buy_in == old(self).buy_in,
    {
        self.round = 1;
        self.community_cards = Vec::new();
        rng::shuffle(&mut self.players);
        let big_blind_amount = self.buy_in / 50;
        let small_blind_amount = big_blind_amount / 2;
        let p0 = &mut self.players[0];
        p0.current_bet = small_blind_amount;
        let p1 = &mut self.players[1];
        p1.current_bet = big_blind_amount;
        self.current_bet = big_blind_amount;
    }

    /// The table accepts new players until ten are seated or play begins.
    pub fn can_join(&self) -> (r: bool)
        ensures
            r == (self.players@.len() < 10 && self.round == 0),
    {
        self.players.len() < 10 && self.round == 0
    }

    pub fn can_start(&self) -> (r: bool)
        ensures
            r == (self.players@.len() >= 2),
    {
        self.players.len() >= 2
    }

    /// The hole cards of a seated player.
    pub fn get_hand(&self, user: u64) -> (r: Option<Vec<Card>>)
        ensures
            match r {
                Option::Some(cards) => exists|i: int|
                    0 <= i < self.players@.len() && (#[trigger] self.players@[i]).user == user
                        && cards@ == seq![
                        self.players@[i].hand.0,
                        self.players@[i].hand.1,
                    ],
                Option::None => forall|i: int|
                    0 <= i < self.players@.len() ==> (#[trigger] self.players@[i]).user != user,
            },
    {
        let mut i: usize = 0;
        while i < self.players.len()
            invariant
                i <= self.players@.len(),
                forall|j: int| 0 <= j < i ==> (#[trigger] self.players@[j]).user != user,
            decreases self.players@.len() - i,
        {
            if self.players[i].user == user {
                let mut cards: Vec<Card> = Vec::new();
                cards.push(self.players[i].hand.0);
                cards.push(self.players[i].hand.1);
                proof {
                    assert(cards@ =~= seq![
                        self.players@[i as int].hand.0,
                        self.players@[i as int].hand.1,
                    ]);
                }
                return Some(cards);
            }
            i = i + 1;
        }
        None
    }
}

} // verus!
