//! The blackjack variant: soft-ace hand scoring, the player's split hands,
//! and the dealer game driven by free-text commands.
use vstd::prelude::*;
use crate::cards::{Card, CardType, Deck, no_jokers, spec_card_value, spec_is_10_value,
    card_value, is_10_value};
use crate::store::Users;
use vstd::string::{StrSliceExecFns, StringSliceAdditionalSpecFns};

verus! {

/// Sum of card values with every ace counted high (eleven).
pub open spec fn raw_points(s: Seq<Card>) -> int
    decreases s.len(),
{
    if s.len() == 0 {
        0
    } else {
        raw_points(s.drop_last()) + spec_card_value(s.last())
    }
}

/// Number of aces in the hand.
pub open spec fn ace_count(s: Seq<Card>) -> int
    decreases s.len(),
{
    if s.len() == 0 {
        0
    } else {
        ace_count(s.drop_last()) + if s.last().card_type == CardType::Ace {
            1int
        } else {
            0int
        }
    }
}

/// Value of a card with the ace counted low (one).
pub open spec fn min_points(c: Card) -> int {
    if c.card_type == CardType::Ace {
        1
    } else {
        spec_card_value(c) as int
    }
}

/// Sum of card values with every ace counted low: the least total the hand
/// can be scored at.
pub open spec fn min_sum(s: Seq<Card>) -> int
    decreases s.len(),
{
    if s.len() == 0 {
        0
    } else {
        min_sum(s.drop_last()) + min_points(s.last())
    }
}

/// The dealer's play is a deterministic function of the dealer hand and the
/// deck: while the soft total is below seventeen, the deck's top card moves
/// to the dealer's hand. The result is the played-out hand and the deck
/// left behind.
pub open spec fn spec_dealer_play(d: Seq<Card>, deck: Seq<Card>) -> (Seq<Card>, Seq<Card>)
    decreases deck.len(),
{
    if hand_score(d) >= 17 || deck.len() == 0 {
        (d, deck)
    } else {
        spec_dealer_play(d.push(deck.last()), deck.drop_last())
    }
}

/// The soft-ace reduction: while the total is above twenty-one and an ace is
/// still counted high, count one ace low instead.
pub open spec fn soft_reduce(score: int, aces: int) -> int
    decreases aces,
{
    if score > 21 && aces > 0 {
        soft_reduce(score - 10, aces - 1)
    } else {
        score
    }
}

/// The blackjack score of a hand: the high-ace sum after soft reduction.
pub open spec fn hand_score(s: Seq<Card>) -> int {
    soft_reduce(raw_points(s), ace_count(s))
}

/// The high-ace sum exceeds the low-ace sum by ten per ace.
pub proof fn lemma_raw_min(s: Seq<Card>)
    ensures
        raw_points(s) == min_sum(s) + 10 * ace_count(s),
        ace_count(s) >= 0,
        min_sum(s) >= 0,
    decreases s.len(),
{
    if s.len() > 0 {
        lemma_raw_min(s.drop_last());
    }
}

proof fn lemma_soft_reduce(score: int, aces: int)
    requires
        aces >= 0,
    ensures
        soft_reduce(score, aces) >= score - 10 * aces,
        soft_reduce(score, aces) >= 0 || score < 0,
        soft_reduce(score, aces) > 21 ==> soft_reduce(score, aces) == score - 10 * aces,
        score <= 21 ==> soft_reduce(score, aces) == score,
        soft_reduce(score, aces) <= score,
    decreases aces,
{
    if score > 21 && aces > 0 {
        lemma_soft_reduce(score - 10, aces - 1);
    }
}

/// Bust is only reported when it is unavoidable: a score above twenty-one
/// means every ace is already counted low and even that minimum total is
/// above twenty-one; and the score never falls below the minimum total.
pub proof fn lemma_bust_unavoidable(s: Seq<Card>)
    ensures
        hand_score(s) > 21 ==> hand_score(s) == min_sum(s) && min_sum(s) > 21,
        hand_score(s) >= min_sum(s),
        hand_score(s) <= raw_points(s),
{
    lemma_raw_min(s);
    lemma_soft_reduce(raw_points(s), ace_count(s));
}

/// A hand without jokers holds at least one point per card, so its length is
/// bounded by its minimum total.
pub proof fn lemma_min_sum_len(s: Seq<Card>)
    requires
        no_jokers(s),
    ensures
        min_sum(s) >= s.len(),
    decreases s.len(),
{
    if s.len() > 0 {
        assert(no_jokers(s.drop_last()));
        lemma_min_sum_len(s.drop_last());
        assert(s.last() == s[s.len() - 1]);
        assert(min_points(s.last()) >= 1);
    }
}

/// Appending a card extends each of the hand sums by that card's value.
pub proof fn lemma_sums_push(s: Seq<Card>, c: Card)
    ensures
        raw_points(s.push(c)) == raw_points(s) + spec_card_value(c),
        ace_count(s.push(c)) == ace_count(s) + if c.card_type == CardType::Ace {
            1int
        } else {
            0int
        },
        min_sum(s.push(c)) == min_sum(s) + min_points(c),
{
    assert(s.push(c).drop_last() == s);
    assert(s.push(c).last() == c);
}

/// A two-card hand never scores above twenty-one: the worst raw total is two
/// high aces, which the reduction brings down to twelve.
pub proof fn lemma_two_card_hand_playable(s: Seq<Card>)
    requires
        s.len() == 2,
    ensures
        hand_score(s) <= 21,
{
    let s0 = s.drop_last();
    assert(s0.drop_last() =~= Seq::<Card>::empty());
    assert(s0.last() == s[0]);
    assert(s.last() == s[1]);
    assert(raw_points(s0.drop_last()) == 0);
    assert(ace_count(s0.drop_last()) == 0);
    assert(raw_points(s0) == spec_card_value(s[0]));
    assert(raw_points(s) == spec_card_value(s[0]) + spec_card_value(s[1]));
    assert(spec_card_value(s[0]) <= 11 && spec_card_value(s[1]) <= 11);
    lemma_raw_min(s);
    if raw_points(s) > 21 {
        assert(spec_card_value(s[0]) == 11 && spec_card_value(s[1]) == 11);
        assert(s[0].card_type == CardType::Ace && s[1].card_type == CardType::Ace);
        assert(ace_count(s0) == ace_count(s0.drop_last()) + 1);
        assert(ace_count(s) == ace_count(s0) + 1);
        assert(ace_count(s) == 2);
    }
    lemma_soft_reduce(raw_points(s), ace_count(s));
}

/// An ordered blackjack hand.
#[derive(Debug)]
pub struct BlackjackHand {
    pub cards: Vec<Card>,
}

impl BlackjackHand {
    pub fn new() -> (h: BlackjackHand)
        ensures
            h.cards@.len() == 0,
    {
        BlackjackHand { cards: Vec::new() }
    }

    pub fn add_card(&mut self, card: Card)
        ensures
            final(self).cards@ == old(self).cards@.push(card),
    {
        self.cards.push(card);
    }

    /// The soft-ace score of the hand: aces count eleven, then drop to one,
    /// one at a time, while the total is above twenty-one.
    pub fn score(&self) -> (s: u64)
        requires
            self.cards@.len() <= 0xffffffff,
        ensures
            s == hand_score(self.cards@),
    {
        let mut total: u64 = 0;
        let mut aces: u64 = 0;
        let mut i: usize = 0;
        let n = self.cards.len();
        while i < n
            invariant
                i <= n,
                n == self.cards@.len() <= 0xffffffff,
                total == raw_points(self.cards@.subrange(0, i as int)),
                aces == ace_count(self.cards@.subrange(0, i as int)),
                total <= 11 * i,
                aces <= i,
            decreases n - i,
        {
            proof {
                assert(self.cards@.subrange(0, i + 1).drop_last() == self.cards@.subrange(
                    0,
                    i as int,
                ));
                assert(self.cards@.subrange(0, i + 1).last() == self.cards@[i as int]);
            }
            let c = self.cards[i];
            total = total + card_value(&c);
            if let CardType::Ace = c.card_type {
                aces = aces + 1;
            }
            i = i + 1;
        }
        proof {
            assert(self.cards@.subrange(0, n as int) == self.cards@);
            lemma_raw_min(self.cards@);
        }
        while total > 21 && aces > 0
            invariant
                soft_reduce(total as int, aces as int) == hand_score(self.cards@),
            decreases aces,
        {
            total = total - 10;
            aces = aces - 1;
        }
        total
    }

    pub open spec fn spec_is_blackjack(self) -> bool {
        self.cards@.len() == 2 && hand_score(self.cards@) == 21
    }

    /// A natural: exactly two cards totalling twenty-one.
    pub fn is_blackjack(&self) -> (r: bool)
        ensures
            r == self.spec_is_blackjack(),
    {
        self.cards.len() == 2 && self.score() == 21
    }

    pub fn is_winning(&self, other: &BlackjackHand) -> (r: bool)
        requires
            self.cards@.len() <= 0xffffffff,
            other.cards@.len() <= 0xffffffff,
        ensures
            r == (hand_score(self.cards@) > hand_score(other.cards@)),
    {
        self.score() > other.score()
    }

    pub fn is_21(&self) -> (r: bool)
        requires
            self.cards@.len() <= 0xffffffff,
        ensures
            r == (hand_score(self.cards@) == 21),
    {
        self.score() == 21
    }

    pub fn is_bust(&self) -> (r: bool)
        requires
            self.cards@.len() <= 0xffffffff,
        ensures
            r == (hand_score(self.cards@) > 21),
    {
        self.score() > 21
    }

    pub fn clear(&mut self)
        ensures
            final(self).cards@.len() == 0,
    {
        self.cards.clear();
    }

    pub fn is_push(&self, other: &BlackjackHand) -> (r: bool)
        requires
            self.cards@.len() <= 0xffffffff,
            other.cards@.len() <= 0xffffffff,
        ensures
            r == (hand_score(self.cards@) == hand_score(other.cards@)),
    {
        self.score() == other.score()
    }
}

/// Total number of cards across all of the player's hands.
pub open spec fn total_cards(hs: Seq<BlackjackHand>) -> int
    decreases hs.len(),
{
    if hs.len() == 0 {
        0
    } else {
        total_cards(hs.drop_last()) + hs.last().cards@.len()
    }
}

/// Card counts are non-negative, so each hand is bounded by the total.
pub proof fn lemma_total_cards_bound(hs: Seq<BlackjackHand>, i: int)
    requires
        0 <= i < hs.len(),
    ensures
        hs[i].cards@.len() <= total_cards(hs),
        total_cards(hs) >= 0,
    decreases hs.len(),
{
    if hs.len() > 0 {
        if i == hs.len() - 1 {
            lemma_total_nonneg(hs.drop_last());
        } else {
            lemma_total_cards_bound(hs.drop_last(), i);
            assert(hs.drop_last()[i] == hs[i]);
        }
    }
}

pub proof fn lemma_total_nonneg(hs: Seq<BlackjackHand>)
    ensures
        total_cards(hs) >= 0,
    decreases hs.len(),
{
    if hs.len() > 0 {
        lemma_total_nonneg(hs.drop_last());
    }
}

/// Replacing one hand changes the total by the difference in that hand's
/// card count.
pub proof fn lemma_total_cards_update(hs: Seq<BlackjackHand>, i: int, h: BlackjackHand)
    requires
        0 <= i < hs.len(),
    ensures
        total_cards(hs.update(i, h)) == total_cards(hs) - hs[i].cards@.len()
            + h.cards@.len(),
    decreases hs.len(),
{
    if i == hs.len() - 1 {
        assert(hs.update(i, h).drop_last() == hs.drop_last());
        assert(hs.update(i, h).last() == h);
    } else {
        assert(hs.update(i, h).drop_last() == hs.drop_last().update(i, h));
        assert(hs.update(i, h).last() == hs.last());
        lemma_total_cards_update(hs.drop_last(), i, h);
    }
}

/// Appending a hand adds its card count to the total.
pub proof fn lemma_total_cards_push(hs: Seq<BlackjackHand>, h: BlackjackHand)
    ensures
        total_cards(hs.push(h)) == total_cards(hs) + h.cards@.len(),
{
    assert(hs.push(h).drop_last() == hs);
    assert(hs.push(h).last() == h);
}

/// The player's side of a blackjack game: up to four hands (splits), the
/// current bet, and the index of the hand being played.
pub struct BlackjackPlayer {
    pub hands: Vec<BlackjackHand>,
    pub bet: u64,
    pub playing_hand: u64,
}

impl BlackjackPlayer {
    /// The cards of the hand currently being played.
    pub open spec fn spec_playing(self) -> Seq<Card> {
        self.hands@[self.playing_hand as int].cards@
    }

    /// A split is allowed only on a two-card hand of equal card values (a
    /// pair, or two ten-valued cards), with fewer than four hands open.
    pub open spec fn spec_can_split(self) -> bool {
        &&& (self.playing_hand as int) < self.hands@.len()
        &&& self.spec_playing().len() == 2
        &&& self.hands@.len() < 4
        &&& (spec_card_value(self.spec_playing()[0]) == spec_card_value(self.spec_playing()[1])
            || (spec_is_10_value(self.spec_playing()[0]) && spec_is_10_value(
            self.spec_playing()[1],
        )))
    }

    pub fn new(bet: u64) -> (p: BlackjackPlayer)
        ensures
            p.hands@.len() == 1,
            p.hands@[0].cards@.len() == 0,
            p.bet == bet,
            p.playing_hand == 0,
    {
        let mut hands: Vec<BlackjackHand> = Vec::new();
        hands.push(BlackjackHand::new());
        BlackjackPlayer { hands, bet, playing_hand: 0 }
    }

    pub fn can_split(&self) -> (r: bool)
        ensures
            r == self.spec_can_split(),
    {
        if !(self.playing_hand < self.hands.len() as u64) {
            return false;
        }
        let hand = &self.hands[self.playing_hand as usize];
        if hand.cards.len() != 2 {
            return false;
        }
        if !(self.hands.len() < 4) {
            return false;
        }
        let c0 = hand.cards[0];
        let c1 = hand.cards[1];
        card_value(&c0) == card_value(&c1) || (is_10_value(&c0) && is_10_value(&c1))
    }

    /// Move the second card of the playing hand into a fresh hand.
    pub fn split(&mut self)
        requires
            old(self).spec_can_split(),
        ensures
            final(self).hands@.len() == old(self).hands@.len() + 1,
            final(self).hands@[old(self).playing_hand as int].cards@ == old(
                self,
            ).spec_playing().drop_last(),
            final(self).hands@.last().cards@ == seq![old(self).spec_playing().last()],
            final(self).hands@.drop_last() == old(self).hands@.update(
                old(self).playing_hand as int,
                final(self).hands@[old(self).playing_hand as int],
            ),
            final(self).bet == old(self).bet,
            final(self).playing_hand == old(self).playing_hand,
    {
        let ph = self.playing_hand as usize;
        let ghost pre = *self;
        let second = self.hands[ph].cards.pop().unwrap();
        proof {
            assert(self.hands@ == pre.hands@.update(ph as int, self.hands@[ph as int]));
        }
        let ghost mid = *self;
        let mut fresh = BlackjackHand::new();
        fresh.add_card(second);
        self.hands.push(fresh);
        proof {
            assert(self.hands@.drop_last() == mid.hands@);
            assert(self.hands@.last() == fresh);
            assert(fresh.cards@ == seq![pre.spec_playing().last()]);
        }
    }

    /// Raise the bet by the doubled-down amount.
    pub fn double_down(&mut self, amt: u64)
        requires
            old(self).bet + amt <= u64::MAX,
        ensures
            final(self).bet == old(self).bet + amt,
            final(self).hands@ == old(self).hands@,
            final(self).playing_hand == old(self).playing_hand,
    {
        self.bet = self.bet + amt;
    }

    /// Add a card to the playing hand.
    pub fn hit(&mut self, card: Card)
        requires
            (old(self).playing_hand as int) < old(self).hands@.len(),
        ensures
            final(self).hands@ == old(self).hands@.update(
                old(self).playing_hand as int,
                final(self).hands@[old(self).playing_hand as int],
            ),
            final(self).hands@[old(self).playing_hand as int].cards@ == old(
                self,
            ).spec_playing().push(card),
            final(self).hands@.len() == old(self).hands@.len(),
            final(self).bet == old(self).bet,
            final(self).playing_hand == old(self).playing_hand,
    {
        let ghost pre = *self;
        let n = self.hands.len();
        proof {
            assert(self.playing_hand < n);
        }
        self.hands[self.playing_hand as usize].add_card(card);
        proof {
            assert(self.hands@ == pre.hands@.update(
                pre.playing_hand as int,
                self.hands@[pre.playing_hand as int],
            ));
        }
    }

    pub fn playing_hand(&self) -> (h: &BlackjackHand)
        requires
            (self.playing_hand as int) < self.hands@.len(),
        ensures
            *h == self.hands@[self.playing_hand as int],
    {
        let n = self.hands.len();
        proof {
            assert(self.playing_hand < n);
        }
        &self.hands[self.playing_hand as usize]
    }

    /// Advance to the next split hand; reports whether one was available.
    pub fn next_hand(&mut self) -> (r: bool)
        requires
            old(self).hands@.len() >= 1,
        ensures
            r == ((old(self).playing_hand as int) < old(self).hands@.len() - 1),
            r ==> final(self).playing_hand == old(self).playing_hand + 1,
            !r ==> final(self).playing_hand == old(self).playing_hand,
            final(self).hands@ == old(self).hands@,
            final(self).bet == old(self).bet,
    {
        if self.playing_hand < (self.hands.len() as u64) - 1 {
            self.playing_hand = self.playing_hand + 1;
            true
        } else {
            false
        }
    }
}

/// A single-player blackjack game against the dealer, with its own six-pack
/// deck.
pub struct BlackJack {
    pub player: BlackjackPlayer,
    pub dealer: BlackjackHand,
    pub deck: Deck,
    pub offered_insurance: bool,
    pub player_blackjack: bool,
    pub turn: u64,
    pub original_bet: u64,
}

impl BlackJack {
    /// The game's playable-state invariant. The card-count conservation ties
    /// the deck to the hands: all 312 cards of the six packs are either in
    /// the deck or dealt, which bounds every draw the session can make.
    pub open spec fn wf(self) -> bool {
        &&& 1 <= self.player.hands@.len() <= 4
        &&& (self.player.playing_hand as int) < self.player.hands@.len()
        &&& forall|i: int|
            0 <= i < self.player.hands@.len() ==> no_jokers(
                (#[trigger] self.player.hands@[i]).cards@,
            ) && min_sum(self.player.hands@[i].cards@) <= 31
        &&& forall|i: int|
            self.player.playing_hand < i < self.player.hands@.len() ==> (
            #[trigger] self.player.hands@[i]).cards@.len() == 1
        &&& hand_score(self.player.spec_playing()) <= 21
        &&& no_jokers(self.dealer.cards@)
        &&& min_sum(self.dealer.cards@) <= 27
        &&& no_jokers(self.deck.cards@)
        &&& self.deck.cards@.len() + self.dealer.cards@.len() + total_cards(self.player.hands@)
            == 312
        &&& self.turn <= self.player.spec_playing().len() + self.player.hands@.len()
        &&& self.original_bet <= u64::MAX / 8
        &&& self.player.bet <= u64::MAX / 4
        &&& (self.turn == 0 ==> self.player.bet == self.original_bet)
        &&& (self.player_blackjack ==> self.player.bet == self.original_bet)
        &&& (self.turn == 0 ==> self.player_blackjack == (self.player.spec_playing().len() == 2
            && hand_score(self.player.spec_playing()) == 21))
    }

    /// The hands hold at most 151 of the 312 cards, so a well-formed game
    /// always has a deep deck left.
    pub proof fn lemma_deck_margin(self)
        requires
            self.wf(),
        ensures
            self.deck.cards@.len() >= 161,
            self.player.spec_playing().len() <= 31,
            self.dealer.cards@.len() <= 27,
    {
        let hs = self.player.hands@;
        assert forall|i: int| 0 <= i < hs.len() implies (#[trigger] hs[i]).cards@.len()
            <= 31 by {
            lemma_min_sum_len(hs[i].cards@);
        }
        lemma_total_bound_31(hs);
        lemma_min_sum_len(self.dealer.cards@);
        lemma_total_cards_bound(hs, self.player.playing_hand as int);
        lemma_min_sum_len(self.player.spec_playing());
    }

    pub fn new(bet: u64) -> (g: BlackJack)
        requires
            bet <= u64::MAX / 8,
        ensures
            g.wf(),
            g.player.bet == bet,
            g.original_bet == bet,
            g.turn == 0,
            !g.offered_insurance,
            !g.player_blackjack,
            g.player.hands@.len() == 1,
            g.player.hands@[0].cards@.len() == 0,
            g.player.playing_hand == 0,
            g.dealer.cards@.len() == 0,
            g.deck.cards@.len() == 312,
            forall|c: Card|
                #[trigger] g.deck.cards@.to_multiset().count(c) == 6 * crate::cards::spec_per_pack(
                    c,
                    false,
                ),
    {
        let mut deck = Deck::new(6, false);
        deck.shuffle();
        let player = BlackjackPlayer::new(bet);
        let dealer = BlackjackHand::new();
        let g = BlackJack {
            player,
            dealer,
            deck,
            offered_insurance: false,
            player_blackjack: false,
            turn: 0,
            original_bet: bet,
        };
        proof {
            lemma_total_cards_push(Seq::<BlackjackHand>::empty(), g.player.hands@[0]);
            assert(Seq::<BlackjackHand>::empty().push(g.player.hands@[0]) =~= g.player.hands@);
            assert(total_cards(g.player.hands@) == 0);
        }
        g
    }

    /// Deal the opening cards: two to the player, two to the dealer, in
    /// alternation; then record whether insurance is offered (dealer up-card
    /// an ace or ten-valued) and whether the player holds a natural.
    pub fn deal(&mut self)
        requires
            old(self).wf(),
            old(self).player.hands@.len() == 1,
            old(self).player.hands@[0].cards@.len() == 0,
            old(self).dealer.cards@.len() == 0,
            old(self).turn == 0,
        ensures
            final(self).wf(),
            final(self).player.hands@.len() == 1,
            final(self).player.playing_hand == 0,
            final(self).player.spec_playing().len() == 2,
            final(self).dealer.cards@.len() == 2,
            final(self).offered_insurance == (final(self).dealer.cards@[0].card_type
                == CardType::Ace || spec_is_10_value(final(self).dealer.cards@[0])),
            final(self).player_blackjack == final(self).player.hands@[0].spec_is_blackjack(),
            final(self).player.bet == old(self).player.bet,
            final(self).original_bet == old(self).original_bet,
            final(self).turn == old(self).turn,
            final(self).deck.cards@.len() == old(self).deck.cards@.len() - 4,
            ({
                let deck0 = old(self).deck.cards@;
                let n = deck0.len() as int;
                // dealt alternately, player first, from the top of the deck
                &&& final(self).player.hands@[0].cards@ == seq![deck0[n - 1], deck0[n - 3]]
                &&& final(self).dealer.cards@ == seq![deck0[n - 2], deck0[n - 4]]
                &&& final(self).deck.cards@ == deck0.subrange(0, n - 4)
            }),
    {
        proof {
            old(self).lemma_deck_margin();
        }
        let ghost pre = *self;
        let c1 = self.deck.deal();
        self.player.hit(c1);
        let c2 = self.deck.deal();
        self.dealer.add_card(c2);
        let c3 = self.deck.deal();
        self.player.hit(c3);
        let c4 = self.deck.deal();
        self.dealer.add_card(c4);
        proof {
            let hs0 = pre.player.hands@;
            lemma_sums_push(Seq::<Card>::empty(), c1);
            assert(Seq::<Card>::empty().push(c1) =~= seq![c1]);
            lemma_sums_push(seq![c1], c3);
            assert(seq![c1].push(c3) =~= self.player.hands@[0].cards@);
            lemma_sums_push(Seq::<Card>::empty(), c2);
            assert(Seq::<Card>::empty().push(c2) =~= seq![c2]);
            lemma_sums_push(seq![c2], c4);
            assert(seq![c2].push(c4) =~= self.dealer.cards@);
            lemma_total_cards_update(hs0, 0, self.player.hands@[0]);
            assert(self.player.hands@ =~= hs0.update(0, self.player.hands@[0]));
            lemma_two_card_hand_playable(self.player.spec_playing());
            assert(min_points(c1) <= 10 && min_points(c3) <= 10);
            assert(min_points(c2) <= 10 && min_points(c4) <= 10);
            assert forall|i: int| 0 <= i < self.player.hands@[0].cards@.len() implies (
            #[trigger] self.player.hands@[0].cards@[i]).card_type != CardType::Joker by {
                assert(no_jokers(pre.deck.cards@));
            }
            assert forall|i: int| 0 <= i < self.dealer.cards@.len() implies (
            #[trigger] self.dealer.cards@[i]).card_type != CardType::Joker by {
                assert(no_jokers(pre.deck.cards@));
            }
        }
        self.offered_insurance = {
            let up = self.dealer_card();
            let is_ace = match up.card_type {
                CardType::Ace => true,
                _ => false,
            };
            is_ace || is_10_value(&up)
        };
        self.player_blackjack = self.player.playing_hand().is_blackjack();
    }

    /// Deal one card to the playing hand and advance the turn counter.
    pub fn hit(&mut self)
        requires
            old(self).deck.cards@.len() > 0,
            (old(self).player.playing_hand as int) < old(self).player.hands@.len(),
            old(self).turn < u64::MAX,
        ensures
            final(self).player.spec_playing() == old(self).player.spec_playing().push(
                old(self).deck.cards@.last(),
            ),
            final(self).player.hands@ == old(self).player.hands@.update(
                old(self).player.playing_hand as int,
                final(self).player.hands@[old(self).player.playing_hand as int],
            ),
            final(self).player.hands@.len() == old(self).player.hands@.len(),
            final(self).player.playing_hand == old(self).player.playing_hand,
            final(self).player.bet == old(self).player.bet,
            final(self).deck.cards@ == old(self).deck.cards@.drop_last(),
            final(self).turn == old(self).turn + 1,
            final(self).dealer == old(self).dealer,
            final(self).offered_insurance == old(self).offered_insurance,
            final(self).player_blackjack == old(self).player_blackjack,
            final(self).original_bet == old(self).original_bet,
    {
        let c = self.deck.deal();
        self.player.hit(c);
        self.turn = self.turn + 1;
    }

    /// The dealer's face-up card: the first card dealt to the dealer.
    pub fn dealer_card(&self) -> (c: Card)
        requires
            self.dealer.cards@.len() > 0,
        ensures
            c == self.dealer.cards@[0],
    {
        self.dealer.cards[0]
    }

    /// The dealer draws until the soft total reaches seventeen.
    pub fn dealer_turn(&mut self)
        requires
            no_jokers(old(self).dealer.cards@),
            no_jokers(old(self).deck.cards@),
            min_sum(old(self).dealer.cards@) <= 27,
            old(self).dealer.cards@.len() <= 27,
            old(self).deck.cards@.len() + old(self).dealer.cards@.len() >= 45,
        ensures
            hand_score(final(self).dealer.cards@) >= 17,
            min_sum(final(self).dealer.cards@) <= 27,
            no_jokers(final(self).dealer.cards@),
            no_jokers(final(self).deck.cards@),
            final(self).deck.cards@.len() + final(self).dealer.cards@.len() == old(
                self,
            ).deck.cards@.len() + old(self).dealer.cards@.len(),
            final(self).dealer.cards@.len() >= old(self).dealer.cards@.len(),
            final(self).dealer.cards@.subrange(0, old(self).dealer.cards@.len() as int) == old(
                self,
            ).dealer.cards@,
            hand_score(old(self).dealer.cards@) >= 17 ==> final(self).dealer.cards@ == old(
                self,
            ).dealer.cards@ && final(self).deck.cards@ == old(self).deck.cards@,
            (final(self).dealer.cards@, final(self).deck.cards@) == spec_dealer_play(
                old(self).dealer.cards@,
                old(self).deck.cards@,
            ),
            final(self).player == old(self).player,
            final(self).turn == old(self).turn,
            final(self).offered_insurance == old(self).offered_insurance,
            final(self).player_blackjack == old(self).player_blackjack,
            final(self).original_bet == old(self).original_bet,
    {
        let ghost c_total = old(self).deck.cards@.len() + old(self).dealer.cards@.len();
        while self.dealer.score() < 17
            invariant
                no_jokers(self.dealer.cards@),
                no_jokers(self.deck.cards@),
                min_sum(self.dealer.cards@) <= 27,
                self.dealer.cards@.len() <= 27,
                self.deck.cards@.len() + self.dealer.cards@.len() == c_total,
                c_total >= 45,
                self.dealer.cards@.len() >= old(self).dealer.cards@.len(),
                self.dealer.cards@.subrange(0, old(self).dealer.cards@.len() as int) == old(
                    self,
                ).dealer.cards@,
                hand_score(old(self).dealer.cards@) >= 17 ==> self.dealer.cards@ == old(
                    self,
                ).dealer.cards@ && self.deck.cards@ == old(self).deck.cards@,
                spec_dealer_play(self.dealer.cards@, self.deck.cards@) == spec_dealer_play(
                    old(self).dealer.cards@,
                    old(self).deck.cards@,
                ),
                self.player == old(self).player,
                self.turn == old(self).turn,
                self.offered_insurance == old(self).offered_insurance,
                self.player_blackjack == old(self).player_blackjack,
                self.original_bet == old(self).original_bet,
            decreases self.deck.cards@.len(),
        {
            proof {
                lemma_min_sum_len(self.dealer.cards@);
            }
            proof {
                lemma_bust_unavoidable(self.dealer.cards@);
                assert(min_sum(self.dealer.cards@) < 17);
                assert(self.dealer.cards@.len() < 17);
            }
            let ghost pre = *self;
            let c = self.deck.deal();
            self.dealer.add_card(c);
            proof {
                lemma_sums_push(pre.dealer.cards@, c);
                assert(min_points(c) <= 10);
                assert forall|i: int| 0 <= i < self.dealer.cards@.len() implies (
                #[trigger] self.dealer.cards@[i]).card_type != CardType::Joker by {
                    if i < pre.dealer.cards@.len() {
                        assert(pre.dealer.cards@[i].card_type != CardType::Joker);
                    } else {
                        assert(no_jokers(pre.deck.cards@));
                    }
                }
                assert(self.dealer.cards@.subrange(0, old(self).dealer.cards@.len() as int)
                    =~= pre.dealer.cards@.subrange(0, old(self).dealer.cards@.len() as int));
            }
        }
        proof {
            lemma_bust_unavoidable(self.dealer.cards@);
        }
    }

    /// End the player's action on the current hand: the dealer plays out.
    pub fn stand(&mut self)
        requires
            no_jokers(old(self).dealer.cards@),
            no_jokers(old(self).deck.cards@),
            min_sum(old(self).dealer.cards@) <= 27,
            old(self).dealer.cards@.len() <= 27,
            old(self).deck.cards@.len() + old(self).dealer.cards@.len() >= 45,
            old(self).turn < u64::MAX,
        ensures
            hand_score(final(self).dealer.cards@) >= 17,
            min_sum(final(self).dealer.cards@) <= 27,
            no_jokers(final(self).dealer.cards@),
            no_jokers(final(self).deck.cards@),
            final(self).deck.cards@.len() + final(self).dealer.cards@.len() == old(
                self,
            ).deck.cards@.len() + old(self).dealer.cards@.len(),
            final(self).dealer.cards@.subrange(0, old(self).dealer.cards@.len() as int) == old(
                self,
            ).dealer.cards@,
            final(self).dealer.cards@.len() >= old(self).dealer.cards@.len(),
            (final(self).dealer.cards@, final(self).deck.cards@) == spec_dealer_play(
                old(self).dealer.cards@,
                old(self).deck.cards@,
            ),
            final(self).player == old(self).player,
            final(self).turn == old(self).turn + 1,
            final(self).offered_insurance == old(self).offered_insurance,
            final(self).player_blackjack == old(self).player_blackjack,
            final(self).original_bet == old(self).original_bet,
    {
        self.turn = self.turn + 1;
        self.dealer_turn();
    }

    /// The state in which a hand is resolved: like `wf`, but the playing
    /// hand may have just busted and the turn counter is not tied to it.
    pub open spec fn wf_resolve(self) -> bool {
        &&& 1 <= self.player.hands@.len() <= 4
        &&& (self.player.playing_hand as int) < self.player.hands@.len()
        &&& forall|i: int|
            0 <= i < self.player.hands@.len() ==> no_jokers(
                (#[trigger] self.player.hands@[i]).cards@,
            ) && min_sum(self.player.hands@[i].cards@) <= 31
        &&& forall|i: int|
            self.player.playing_hand < i < self.player.hands@.len() ==> (
            #[trigger] self.player.hands@[i]).cards@.len() == 1
        &&& no_jokers(self.dealer.cards@)
        &&& min_sum(self.dealer.cards@) <= 27
        &&& no_jokers(self.deck.cards@)
        &&& self.deck.cards@.len() + self.dealer.cards@.len() + total_cards(self.player.hands@)
            == 312
        &&& self.turn <= 50
        &&& self.original_bet <= u64::MAX / 8
        &&& self.player.bet <= u64::MAX / 4
        &&& (self.player_blackjack ==> self.player.bet == self.original_bet)
    }

    pub proof fn lemma_wf_resolve(self)
        requires
            self.wf(),
        ensures
            self.wf_resolve(),
            self.turn <= 35,
    {
        lemma_min_sum_len(self.player.spec_playing());
    }

    /// Deck depth that a resolvable state always has: the dealt cards can
    /// never exceed 151 of the 312.
    pub proof fn lemma_resolve_margin(self)
        requires
            self.wf_resolve(),
        ensures
            self.deck.cards@.len() >= 161,
            self.dealer.cards@.len() <= 27,
            total_cards(self.player.hands@) <= 124,
    {
        let hs = self.player.hands@;
        assert forall|i: int| 0 <= i < hs.len() implies (#[trigger] hs[i]).cards@.len()
            <= 31 by {
            lemma_min_sum_len(hs[i].cards@);
        }
        lemma_total_bound_31(hs);
        lemma_min_sum_len(self.dealer.cards@);
    }

    /// Reset the bet, move to the next split hand when one remains, deal its
    /// mandatory card, and restart the turn counter. Reports whether another
    /// hand was available; without one, the game is over and the state is no
    /// longer playable.
    pub fn next_player_hand(&mut self) -> (r: bool)
        requires
            old(self).wf_resolve(),
        ensures
            r == ((old(self).player.playing_hand as int) < old(self).player.hands@.len() - 1),
            final(self).player.bet == old(self).original_bet,
            final(self).turn == 0,
            final(self).original_bet == old(self).original_bet,
            final(self).offered_insurance == old(self).offered_insurance,
            final(self).dealer == old(self).dealer,
            final(self).deck.cards@ == old(self).deck.cards@.drop_last(),
            r ==> final(self).wf() && final(self).player.playing_hand == old(
                self,
            ).player.playing_hand + 1 && final(self).player.hands@.len() == old(
                self,
            ).player.hands@.len() && final(self).player.spec_playing().len() == 2,
            r ==> final(self).player.spec_playing() == old(self).player.hands@[old(
                self,
            ).player.playing_hand as int + 1].cards@.push(old(self).deck.cards@.last()),
            r ==> final(self).player.hands@ == old(self).player.hands@.update(
                old(self).player.playing_hand as int + 1,
                final(self).player.hands@[old(self).player.playing_hand as int + 1],
            ),
            r ==> final(self).player_blackjack == (hand_score(final(self).player.spec_playing())
                == 21),
    {
        proof {
            old(self).lemma_resolve_margin();
        }
        self.player.bet = self.original_bet;
        let worked = self.player.next_hand();
        let ghost mid = *self;
        self.hit();
        self.turn = 0;
        proof {
            lemma_total_cards_update(
                mid.player.hands@,
                mid.player.playing_hand as int,
                self.player.hands@[mid.player.playing_hand as int],
            );
            lemma_sums_push(mid.player.spec_playing(), mid.deck.cards@.last());
            assert(min_points(mid.deck.cards@.last()) <= 10);
            if worked {
                assert(mid.player.spec_playing().len() == 1);
                lemma_two_card_hand_playable(self.player.spec_playing());
                assert(mid.player.spec_playing().drop_last() =~= Seq::<Card>::empty());
                assert(min_sum(Seq::<Card>::empty()) == 0);
                assert(min_sum(mid.player.spec_playing()) == min_sum(
                    mid.player.spec_playing().drop_last(),
                ) + min_points(mid.player.spec_playing().last()));
                assert(min_sum(mid.player.spec_playing()) == min_points(
                    mid.player.spec_playing().last(),
                ));
                assert(min_points(mid.player.spec_playing().last()) <= 10);
                assert forall|i: int| 0 <= i < self.player.hands@.len() implies no_jokers(
                    (#[trigger] self.player.hands@[i]).cards@,
                ) && min_sum(self.player.hands@[i].cards@) <= 31 by {
                    if i == mid.player.playing_hand as int {
                        assert forall|k: int|
                            0 <= k < self.player.hands@[i].cards@.len() implies (
                        #[trigger] self.player.hands@[i].cards@[k]).card_type
                            != CardType::Joker by {
                            if k < mid.player.spec_playing().len() {
                                assert(no_jokers(mid.player.hands@[i].cards@));
                            } else {
                                assert(no_jokers(mid.deck.cards@));
                            }
                        }
                    } else {
                        assert(self.player.hands@[i] == mid.player.hands@[i]);
                    }
                }
            }
        }
        self.player_blackjack = self.player.playing_hand().is_blackjack();
        worked
    }

    /// Raise the bet by the doubled amount, then force one hit and a stand.
    pub fn double_down(&mut self, amt: u64)
        requires
            old(self).player.bet + amt <= u64::MAX / 4,
            old(self).deck.cards@.len() > 0,
            (old(self).player.playing_hand as int) < old(self).player.hands@.len(),
            no_jokers(old(self).dealer.cards@),
            no_jokers(old(self).deck.cards@),
            min_sum(old(self).dealer.cards@) <= 27,
            old(self).dealer.cards@.len() <= 27,
            old(self).deck.cards@.len() + old(self).dealer.cards@.len() >= 46,
            old(self).turn < u64::MAX - 1,
        ensures
            final(self).player.bet == old(self).player.bet + amt,
            final(self).player.spec_playing() == old(self).player.spec_playing().push(
                old(self).deck.cards@.last(),
            ),
            final(self).player.hands@.len() == old(self).player.hands@.len(),
            final(self).player.playing_hand == old(self).player.playing_hand,
            final(self).player.hands@ == old(self).player.hands@.update(
                old(self).player.playing_hand as int,
                final(self).player.hands@[old(self).player.playing_hand as int],
            ),
            hand_score(final(self).dealer.cards@) >= 17,
            min_sum(final(self).dealer.cards@) <= 27,
            no_jokers(final(self).dealer.cards@),
            no_jokers(final(self).deck.cards@),
            final(self).deck.cards@.len() + final(self).dealer.cards@.len() == old(
                self,
            ).deck.cards@.len() + old(self).dealer.cards@.len() - 1,
            final(self).dealer.cards@.subrange(0, old(self).dealer.cards@.len() as int) == old(
                self,
            ).dealer.cards@,
            (final(self).dealer.cards@, final(self).deck.cards@) == spec_dealer_play(
                old(self).dealer.cards@,
                old(self).deck.cards@.drop_last(),
            ),
            final(self).turn == old(self).turn + 2,
            final(self).player_blackjack == old(self).player_blackjack,
            final(self).original_bet == old(self).original_bet,
            final(self).offered_insurance == old(self).offered_insurance,
    {
        proof {
            assert(old(self).player.bet + amt <= u64::MAX);
        }
        self.player.double_down(amt);
        self.hit();
        self.stand();
    }

    /// What the player may do right now: in the insurance phase only the
    /// yes/no answer; otherwise hit (unless the hand is a natural), stand,
    /// split when the pair rules allow it, and double only as the first
    /// action on a hand that is not a natural.
    pub fn give_options(&self) -> (o: BjOptions)
        requires
            (self.player.playing_hand as int) < self.player.hands@.len(),
            self.player.spec_playing().len() <= 0xffffffff,
        ensures
            o.insurance == self.offered_insurance,
            self.offered_insurance ==> !o.hit && !o.stand && !o.split && !o.double,
            !self.offered_insurance ==> {
                let natural = self.player.spec_playing().len() == 2 && hand_score(
                    self.player.spec_playing(),
                ) == 21;
                &&& o.hit == !natural
                &&& o.stand
                &&& o.split == self.player.spec_can_split()
                &&& o.double == (self.turn == 0 && !natural)
            },
    {
        let can_split = self.player.can_split();
        let playing = self.player.playing_hand();
        if self.offered_insurance {
            return BjOptions {
                insurance: true,
                hit: false,
                stand: false,
                split: false,
                double: false,
            };
        }
        let natural = playing.is_blackjack();
        BjOptions {
            insurance: false,
            hit: !natural,
            stand: true,
            split: can_split,
            double: self.turn == 0 && !natural,
        }
    }

    /// The dealer's advice for the current hand, from the fixed table over
    /// the hand's score, the turn, and the dealer's up-card.
    pub fn give_help(&self) -> (a: BjAdvice)
        requires
            (self.player.playing_hand as int) < self.player.hands@.len(),
            self.player.spec_playing().len() <= 0xffffffff,
            self.dealer.cards@.len() > 0,
        ensures
            a == self.spec_advice(),
    {
        let playing = self.player.playing_hand();
        let score = playing.score();
        if 4 <= score && score <= 5 {
            BjAdvice::HitUntilBig
        } else if 7 <= score && score <= 9 {
            BjAdvice::ShouldHit
        } else if score == 10 {
            if self.turn == 0 {
                BjAdvice::HitOrDouble
            } else {
                BjAdvice::JustHit
            }
        } else if score == 11 {
            if self.turn == 0 {
                BjAdvice::BigDouble
            } else {
                BjAdvice::JustHit
            }
        } else if score == 12 && playing.cards.len() >= 2 && {
            let both_aces = match (playing.cards[0].card_type, playing.cards[1].card_type) {
                (CardType::Ace, CardType::Ace) => true,
                _ => false,
            };
            both_aces
        } {
            BjAdvice::SplitAces
        } else if 12 <= score && score <= 15 {
            match self.dealer_card().card_type {
                CardType::Seven | CardType::Eight | CardType::Nine | CardType::Ten
                    | CardType::King | CardType::Queen | CardType::Jack => BjAdvice::OnlyHit,
                _ => BjAdvice::MaybeStand,
            }
        } else if score == 16 {
            match self.dealer_card().card_type {
                CardType::Two | CardType::Three | CardType::Four | CardType::Five
                    | CardType::Six => BjAdvice::NoSmartHit,
                _ => BjAdvice::RatherHit,
            }
        } else if 17 <= score && score <= 19 {
            BjAdvice::ShouldStand
        } else if score == 20 {
            BjAdvice::StandOrElse
        } else if score == 21 {
            BjAdvice::NoHelpAtTwentyOne
        } else {
            BjAdvice::Hopeless
        }
    }

    /// The advice table as a function of the state.
    pub open spec fn spec_advice(self) -> BjAdvice {
        let h = self.player.spec_playing();
        let score = hand_score(h);
        let up = self.dealer.cards@[0].card_type;
        if 4 <= score <= 5 {
            BjAdvice::HitUntilBig
        } else if 7 <= score <= 9 {
            BjAdvice::ShouldHit
        } else if score == 10 {
            if self.turn == 0 {
                BjAdvice::HitOrDouble
            } else {
                BjAdvice::JustHit
            }
        } else if score == 11 {
            if self.turn == 0 {
                BjAdvice::BigDouble
            } else {
                BjAdvice::JustHit
            }
        } else if score == 12 && h.len() >= 2 && h[0].card_type == CardType::Ace
            && h[1].card_type == CardType::Ace {
            BjAdvice::SplitAces
        } else if 12 <= score <= 15 {
            if up == CardType::Seven || up == CardType::Eight || up == CardType::Nine || up
                == CardType::Ten || up == CardType::King || up == CardType::Queen || up
                == CardType::Jack {
                BjAdvice::OnlyHit
            } else {
                BjAdvice::MaybeStand
            }
        } else if score == 16 {
            if up == CardType::Two || up == CardType::Three || up == CardType::Four || up
                == CardType::Five || up == CardType::Six {
                BjAdvice::NoSmartHit
            } else {
                BjAdvice::RatherHit
            }
        } else if 17 <= score <= 19 {
            BjAdvice::ShouldStand
        } else if score == 20 {
            BjAdvice::StandOrElse
        } else if score == 21 {
            BjAdvice::NoHelpAtTwentyOne
        } else {
            BjAdvice::Hopeless
        }
    }

    /// Resolve the current hand against the dealer, pay what the outcome
    /// owes, and move on to the next split hand when one remains; the game
    /// ends when the last hand has resolved.
    pub fn determine_winner(&mut self, users: &mut Users, user: u64) -> (r: (BjMsg, bool))
        requires
            old(self).wf_resolve(),
            old(users).wf(),
        ensures
            final(users).wf(),
            r.1 == ((old(self).player.playing_hand as int) == old(self).player.hands@.len()
                - 1),
            !r.1 ==> final(self).wf(),
            !r.1 ==> final(self).player.playing_hand == old(self).player.playing_hand + 1
                && final(self).turn == 0 && final(self).player.bet == old(self).original_bet
                && final(self).dealer == old(self).dealer && final(self).deck.cards@ == old(
                self,
            ).deck.cards@.drop_last() && final(self).player.spec_playing() == old(
                self,
            ).player.hands@[old(self).player.playing_hand as int + 1].cards@.push(
                old(self).deck.cards@.last(),
            ),
            ({
                let out = spec_outcome(old(self).player.spec_playing(), old(self).dealer.cards@);
                &&& (out == BjOutcome::Bust <==> r.0 is RoundBust)
                &&& (out == BjOutcome::Push <==> r.0 is RoundPush)
                &&& (out == BjOutcome::Won <==> r.0 is RoundWon)
                &&& (out == BjOutcome::Lost <==> r.0 is RoundLost)
                &&& (r.0 matches BjMsg::RoundBust { score } ==> score == hand_score(
                    old(self).player.spec_playing(),
                ))
                &&& (r.0 matches BjMsg::RoundPush { score } ==> score == hand_score(
                    old(self).dealer.cards@,
                ))
                &&& (r.0 matches BjMsg::RoundLost { dealer_score } ==> dealer_score
                    == hand_score(old(self).dealer.cards@))
                &&& spec_resolution(
                    r.0,
                    *old(users),
                    *final(users),
                    user,
                    old(self).player.bet,
                    old(self).player_blackjack,
                )
            }),
            forall|v: u64|
                v != user ==> old(users).spec_has(v) == final(users).spec_has(v) && (old(
                    users,
                ).spec_has(v) ==> final(users).spec_file(v) == old(users).spec_file(v)),
    {
        proof {
            old(self).lemma_resolve_margin();
            lemma_min_sum_len(old(self).player.spec_playing());
            lemma_bust_unavoidable(old(self).player.spec_playing());
            lemma_bust_unavoidable(old(self).dealer.cards@);
        }
        let old_score = self.player.playing_hand().score();
        if old_score > 21 {
            let worked = self.next_player_hand();
            (BjMsg::RoundBust { score: old_score }, !worked)
        } else {
            self.determine_winner_settled(users, user, old_score)
        }
    }

    /// The non-bust arm of the resolution, split out only to keep each
    /// function small; same contract as `determine_winner` on hands that
    /// did not bust.
    fn determine_winner_settled(&mut self, users: &mut Users, user: u64, old_score: u64) -> (r:
        (BjMsg, bool))
        requires
            old(self).wf_resolve(),
            old(users).wf(),
            old_score == hand_score(old(self).player.spec_playing()),
            old_score <= 21,
        ensures
            final(users).wf(),
            r.1 == ((old(self).player.playing_hand as int) == old(self).player.hands@.len()
                - 1),
            !r.1 ==> final(self).wf(),
            !r.1 ==> final(self).player.playing_hand == old(self).player.playing_hand + 1
                && final(self).turn == 0 && final(self).player.bet == old(self).original_bet
                && final(self).dealer == old(self).dealer && final(self).deck.cards@ == old(
                self,
            ).deck.cards@.drop_last() && final(self).player.spec_playing() == old(
                self,
            ).player.hands@[old(self).player.playing_hand as int + 1].cards@.push(
                old(self).deck.cards@.last(),
            ),
            ({
                let out = spec_outcome(old(self).player.spec_playing(), old(self).dealer.cards@);
                &&& (out == BjOutcome::Bust <==> r.0 is RoundBust)
                &&& (out == BjOutcome::Push <==> r.0 is RoundPush)
                &&& (out == BjOutcome::Won <==> r.0 is RoundWon)
                &&& (out == BjOutcome::Lost <==> r.0 is RoundLost)
                &&& (r.0 matches BjMsg::RoundPush { score } ==> score == hand_score(
                    old(self).dealer.cards@,
                ))
                &&& (r.0 matches BjMsg::RoundLost { dealer_score } ==> dealer_score
                    == hand_score(old(self).dealer.cards@))
                &&& spec_resolution(
                    r.0,
                    *old(users),
                    *final(users),
                    user,
                    old(self).player.bet,
                    old(self).player_blackjack,
                )
            }),
            forall|v: u64|
                v != user ==> old(users).spec_has(v) == final(users).spec_has(v) && (old(
                    users,
                ).spec_has(v) ==> final(users).spec_file(v) == old(users).spec_file(v)),
    {
        proof {
            old(self).lemma_resolve_margin();
            lemma_min_sum_len(old(self).player.spec_playing());
            lemma_bust_unavoidable(old(self).dealer.cards@);
        }
        let dealer_bust = self.dealer.is_bust();
        if self.dealer.is_push(self.player.playing_hand()) {
            users.credit(user, self.player.bet);
            let d_score = self.dealer.score();
            let worked = self.next_player_hand();
            (BjMsg::RoundPush { score: d_score }, !worked)
        } else if dealer_bust || self.player.playing_hand().is_winning(&self.dealer) {
            let payout = if self.player_blackjack {
                (5 * self.player.bet + 1) / 2
            } else {
                2 * self.player.bet
            };
            users.credit(user, payout);
            let worked = self.next_player_hand();
            (BjMsg::RoundWon { payout }, !worked)
        } else {
            let d_score = self.dealer.score();
            let worked = self.next_player_hand();
            (BjMsg::RoundLost { dealer_score: d_score }, !worked)
        }
    }

    /// Split the pair into two hands and deal the mandatory card to the
    /// hand still being played.
    fn split_and_hit(&mut self)
        requires
            old(self).wf(),
            old(self).player.spec_can_split(),
        ensures
            final(self).wf(),
            final(self).player.hands@.len() == old(self).player.hands@.len() + 1,
            final(self).player.bet == old(self).player.bet,
            final(self).player.playing_hand == old(self).player.playing_hand,
            final(self).turn == old(self).turn + 1,
            final(self).offered_insurance == old(self).offered_insurance,
            final(self).original_bet == old(self).original_bet,
            final(self).dealer == old(self).dealer,
            final(self).player.hands@.last().cards@ == seq![
                old(self).player.spec_playing().last(),
            ],
            final(self).player.spec_playing() == old(self).player.spec_playing().drop_last()
                .push(old(self).deck.cards@.last()),
            final(self).deck.cards@ == old(self).deck.cards@.drop_last(),
    {
        proof {
            old(self).lemma_wf_resolve();
            old(self).lemma_resolve_margin();
        }
        self.player.split();
        let ghost mid = *self;
        self.hit();
        proof {
            let ph = old(self).player.playing_hand as int;
            let pre_hands = old(self).player.hands@;
            let card = mid.deck.cards@.last();
            assert(card.card_type != CardType::Joker);
            // the split itself: the pair hand drops its second card into a
            // fresh one-card hand, keeping the total card count
            lemma_total_cards_update(pre_hands, ph, mid.player.hands@.drop_last()[ph]);
            assert(mid.player.hands@.drop_last() == pre_hands.update(
                ph,
                mid.player.hands@.drop_last()[ph],
            ));
            lemma_total_cards_push(mid.player.hands@.drop_last(), mid.player.hands@.last());
            assert(mid.player.hands@.drop_last().push(mid.player.hands@.last())
                =~= mid.player.hands@);
            let pair = pre_hands[ph].cards@;
            lemma_bust_unavoidable(pair);
            assert(min_sum(pair.drop_last()) + min_points(pair.last()) == min_sum(pair));
            assert(min_sum(pair.drop_last()) <= 21);
            assert(mid.player.hands@[ph].cards@ == pair.drop_last());
            assert(mid.player.hands@.last().cards@ =~= Seq::<Card>::empty().push(pair.last()));
            lemma_sums_push(Seq::<Card>::empty(), pair.last());
            assert(min_points(pair.last()) <= 10);
            assert(min_sum(mid.player.hands@.last().cards@) <= 10);
            assert forall|i: int| 0 <= i < mid.player.hands@.len() implies no_jokers(
                (#[trigger] mid.player.hands@[i]).cards@,
            ) && min_sum(mid.player.hands@[i].cards@) <= 31 by {
                if i < mid.player.hands@.len() - 1 {
                    if i == ph {
                        lemma_no_jokers_drop_last(pair);
                    } else {
                        assert(mid.player.hands@[i] == pre_hands[i]);
                    }
                } else {
                    assert forall|k: int| 0 <= k < mid.player.hands@[i].cards@.len() implies (
                    #[trigger] mid.player.hands@[i].cards@[k]).card_type != CardType::Joker by {
                        assert(mid.player.hands@[i].cards@[k] == pair.last());
                        assert(no_jokers(pair));
                    }
                }
            }
            // the mandatory card drawn after the split
            lemma_hands_after_draw(mid.player.hands@, self.player.hands@, ph, card);
            lemma_no_jokers_drop_last(mid.deck.cards@);
            lemma_two_card_hand_playable(self.player.spec_playing());
            assert forall|i: int|
                self.player.playing_hand < i < self.player.hands@.len() implies (
            #[trigger] self.player.hands@[i]).cards@.len() == 1 by {
                if i < self.player.hands@.len() - 1 {
                    assert(self.player.hands@[i] == pre_hands[i]);
                } else {
                    assert(self.player.hands@[i] == mid.player.hands@[i]);
                }
            }
        }
    }

    /// Drive the game with one free-text chat line. The first token is the
    /// command; in the insurance phase only `yes`/`no` act, otherwise
    /// `hit`, `stand`, `split` and `double [amount]` do. The result is the
    /// domain message for the renderer and whether the session ended. Every
    /// stake movement is stated against the user's balance, and a rejected
    /// input changes nothing.
    pub fn handle_message(&mut self, users: &mut Users, user: u64, text: &str) -> (r: (
        BjMsg,
        bool,
    ))
        requires
            old(self).wf(),
            old(users).wf(),
        ensures
            final(users).wf(),
            !r.1 ==> final(self).wf(),
            forall|v: u64|
                v != user ==> old(users).spec_has(v) == final(users).spec_has(v) && (old(
                    users,
                ).spec_has(v) ==> final(users).spec_file(v) == old(users).spec_file(v)),
            ({
                let cmd = spec_bj_cmd(crate::text::nth_token(text.spec_bytes(), 0));
                let bal = old(users).spec_balance(user);
                let bet = old(self).player.bet;
                let half = (bet / 2) as u64;
                let pl = old(self).player.spec_playing();
                let natural = pl.len() == 2 && hand_score(pl) == 21;
                let dealer_natural = old(self).dealer.cards@.len() == 2 && hand_score(
                    old(self).dealer.cards@,
                ) == 21;
                if old(self).offered_insurance {
                    &&& (cmd == BjCmd::Yes && bal < half ==> r == (
                        BjMsg::NotEnoughForInsurance,
                        false,
                    ) && *final(self) == *old(self) && *final(users) == *old(users))
                    &&& (cmd == BjCmd::Yes && bal >= half && natural ==> r == (
                        BjMsg::InsurancePush,
                        true,
                    ) && final(users).spec_balance(user) == crate::store::sat64(bal + bet))
                    &&& (cmd == BjCmd::Yes && bal >= half && !natural && dealer_natural ==> r
                        == (BjMsg::InsurancePaid, true) && final(users).spec_balance(user)
                        == crate::store::sat64(bal + 2 * half))
                    &&& (cmd == BjCmd::Yes && bal >= half && !natural && !dealer_natural ==> r
                        == (BjMsg::InsuranceLost, false) && final(users).spec_balance(user)
                        == bal - half && *final(self) == (BlackJack {
                        offered_insurance: false,
                        ..*old(self)
                    }))
                    &&& (cmd == BjCmd::No && dealer_natural ==> r == (
                        BjMsg::DealerBlackjack,
                        true,
                    ) && *final(users) == *old(users))
                    &&& (cmd == BjCmd::No && !dealer_natural ==> r == (BjMsg::GameBegun, false)
                        && *final(users) == *old(users) && *final(self) == (BlackJack {
                        offered_insurance: false,
                        ..*old(self)
                    }))
                    &&& (cmd != BjCmd::Yes && cmd != BjCmd::No ==> r == (
                        BjMsg::NeedInsuranceAnswer,
                        false,
                    ) && *final(self) == *old(self) && *final(users) == *old(users))
                } else {
                    &&& (cmd == BjCmd::Hit && !natural ==> ({
                        let drawn = old(self).deck.cards@.last();
                        let newhand = pl.push(drawn);
                        if hand_score(newhand) > 21 {
                            &&& (r.0 matches BjMsg::RoundBust { score } && score == hand_score(
                                newhand,
                            ))
                            &&& *final(users) == *old(users)
                            &&& r.1 == ((old(self).player.playing_hand as int) == old(
                                self,
                            ).player.hands@.len() - 1)
                        } else {
                            &&& r == (BjMsg::YouHit, false)
                            &&& *final(users) == *old(users)
                            &&& final(self).player.spec_playing() == newhand
                            &&& final(self).player.playing_hand == old(self).player.playing_hand
                            &&& final(self).player.hands@ == old(self).player.hands@.update(
                                old(self).player.playing_hand as int,
                                final(self).player.hands@[old(self).player.playing_hand as int],
                            )
                            &&& final(self).turn == old(self).turn + 1
                            &&& final(self).deck.cards@ == old(self).deck.cards@.drop_last()
                            &&& final(self).dealer == old(self).dealer
                            &&& final(self).player.bet == old(self).player.bet
                        }
                    }))
                    &&& (cmd == BjCmd::Hit && natural ==> r == (BjMsg::Unknown, false)
                        && *final(self) == *old(self) && *final(users) == *old(users))
                    &&& (cmd == BjCmd::Stand ==> ({
                        let played = spec_dealer_play(
                            old(self).dealer.cards@,
                            old(self).deck.cards@,
                        ).0;
                        let out = spec_outcome(pl, played);
                        &&& (out == BjOutcome::Bust <==> r.0 is RoundBust)
                        &&& (out == BjOutcome::Push <==> r.0 is RoundPush)
                        &&& (out == BjOutcome::Won <==> r.0 is RoundWon)
                        &&& (out == BjOutcome::Lost <==> r.0 is RoundLost)
                        &&& spec_resolution(
                            r.0,
                            *old(users),
                            *final(users),
                            user,
                            bet,
                            old(self).player_blackjack,
                        )
                        &&& r.1 == ((old(self).player.playing_hand as int) == old(
                            self,
                        ).player.hands@.len() - 1)
                    }))
                    &&& (cmd == BjCmd::Split && old(self).player.spec_can_split() && bal < bet
                        ==> r == (BjMsg::NotEnoughToSplit, false) && *final(self) == *old(self)
                        && *final(users) == *old(users))
                    &&& (cmd == BjCmd::Split && old(self).player.spec_can_split() && bal >= bet
                        ==> r == (BjMsg::YouSplit, false) && final(users).spec_balance(user)
                        == bal - bet && final(self).player.hands@.len() == old(
                        self,
                    ).player.hands@.len() + 1 && final(self).player.hands@.last().cards@
                        == seq![pl.last()] && final(self).player.spec_playing()
                        == pl.drop_last().push(old(self).deck.cards@.last())
                        && final(self).deck.cards@ == old(self).deck.cards@.drop_last()
                        && final(self).turn == old(self).turn + 1)
                    &&& (cmd == BjCmd::Split && !old(self).player.spec_can_split() ==> r == (
                        BjMsg::Unknown,
                        false,
                    ) && *final(self) == *old(self) && *final(users) == *old(users))
                    &&& (cmd == BjCmd::Double && old(self).turn == 0 && !natural ==> ({
                        let t1 = crate::text::nth_token(text.spec_bytes(), 1);
                        let parsed = crate::text::digits_value(t1);
                        if t1.len() > 0 && (parsed is None || parsed.unwrap() < 5
                            || parsed.unwrap() >= bet) {
                            r == (BjMsg::InvalidDoubleAmount, false) && *final(self) == *old(
                                self,
                            ) && *final(users) == *old(users)
                        } else {
                            let amt = if t1.len() == 0 {
                                bet
                            } else {
                                parsed.unwrap()
                            };
                            if bal < amt {
                                r == (BjMsg::NotEnoughToDouble, false) && *final(self) == *old(
                                    self,
                                ) && *final(users) == *old(users)
                            } else {
                                let newhand = pl.push(old(self).deck.cards@.last());
                                let played = spec_dealer_play(
                                    old(self).dealer.cards@,
                                    old(self).deck.cards@.drop_last(),
                                ).0;
                                let out = spec_outcome(newhand, played);
                                &&& (out == BjOutcome::Bust <==> r.0 is RoundBust)
                                &&& (out == BjOutcome::Push <==> r.0 is RoundPush)
                                &&& (out == BjOutcome::Won <==> r.0 is RoundWon)
                                &&& (out == BjOutcome::Lost <==> r.0 is RoundLost)
                                &&& spec_resolution_bal(
                                    r.0,
                                    (bal - amt) as u64,
                                    final(users).spec_balance(user),
                                    (bet + amt) as u64,
                                    old(self).player_blackjack,
                                )
                                &&& r.1 == ((old(self).player.playing_hand as int) == old(
                                    self,
                                ).player.hands@.len() - 1)
                            }
                        }
                    }))
                    &&& (cmd == BjCmd::Double && (old(self).turn != 0 || natural) ==> r == (
                        BjMsg::Unknown,
                        false,
                    ) && *final(self) == *old(self) && *final(users) == *old(users))
                    &&& (cmd == BjCmd::Yes || cmd == BjCmd::No || cmd == BjCmd::Other ==> r
                        == (BjMsg::Unknown, false) && *final(self) == *old(self)
                        && *final(users) == *old(users))
                }
            }),
    {
        proof {
            old(self).lemma_wf_resolve();
            old(self).lemma_resolve_margin();
        }
        let bytes = text.as_bytes_vec();
        let tok = crate::text::first_token(&bytes);
        let cmd = bj_cmd(&tok);
        if self.offered_insurance {
            match cmd {
                BjCmd::Yes => {
                    let half = self.player.bet / 2;
                    if users.get_balance(user) < half {
                        return (BjMsg::NotEnoughForInsurance, false);
                    }
                    users.debit(user, half);
                    if self.player.playing_hand().is_blackjack() {
                        users.credit(user, half + self.player.bet);
                        return (BjMsg::InsurancePush, true);
                    }
                    if self.dealer.is_blackjack() {
                        users.credit(user, 3 * half);
                        return (BjMsg::InsurancePaid, true);
                    }
                    self.offered_insurance = false;
                    (BjMsg::InsuranceLost, false)
                },
                BjCmd::No => {
                    if self.dealer.is_blackjack() {
                        return (BjMsg::DealerBlackjack, true);
                    }
                    self.offered_insurance = false;
                    (BjMsg::GameBegun, false)
                },
                _ => (BjMsg::NeedInsuranceAnswer, false),
            }
        } else {
            match cmd {
                BjCmd::Hit => {
                    if self.player.playing_hand().is_blackjack() {
                        return (BjMsg::Unknown, false);
                    }
                    self.hit();
                    proof {
                        lemma_after_hit(*old(self), *self);
                        assert(no_jokers(self.player.spec_playing()));
                        lemma_min_sum_len(self.player.spec_playing());
                    }
                    if self.player.playing_hand().is_bust() {
                        return self.determine_winner(users, user);
                    }
                    (BjMsg::YouHit, false)
                },
                BjCmd::Stand => {
                    self.stand();
                    proof {
                        lemma_after_stand(*old(self), *self);
                    }
                    self.determine_winner(users, user)
                },
                BjCmd::Split => {
                    if !self.player.can_split() {
                        return (BjMsg::Unknown, false);
                    }
                    if users.get_balance(user) < self.player.bet {
                        return (BjMsg::NotEnoughToSplit, false);
                    }
                    users.debit(user, self.player.bet);
                    self.split_and_hit();
                    (BjMsg::YouSplit, false)
                },
                BjCmd::Double => {
                    if self.turn != 0 || self.player.playing_hand().is_blackjack() {
                        return (BjMsg::Unknown, false);
                    }
                    let t1 = crate::text::second_token(&bytes);
                    let mut amt = self.player.bet;
                    if t1.len() > 0 {
                        match crate::text::parse_u64(&t1) {
                            Some(a) => {
                                if a < 5 || a >= self.player.bet {
                                    return (BjMsg::InvalidDoubleAmount, false);
                                }
                                amt = a;
                            },
                            None => {
                                return (BjMsg::InvalidDoubleAmount, false);
                            },
                        }
                    }
                    if users.get_balance(user) < amt {
                        return (BjMsg::NotEnoughToDouble, false);
                    }
                    users.debit(user, amt);
                    self.double_down(amt);
                    proof {
                        lemma_after_double(*old(self), *self);
                    }
                    self.determine_winner(users, user)
                },
                _ => (BjMsg::Unknown, false),
            }
        }
    }
}

/// A blackjack chat command: the first token of the message, classified
/// case-insensitively.
#[derive(Clone, Copy, Debug, PartialEq, Eq, Structural)]
pub enum BjCmd {
    Yes,
    No,
    Hit,
    Stand,
    Split,
    Double,
    Other,
}

pub open spec fn kw_yes() -> Seq<u8> {
    seq![121u8, 101u8, 115u8]
}

pub open spec fn kw_no() -> Seq<u8> {
    seq![110u8, 111u8]
}

pub open spec fn kw_hit() -> Seq<u8> {
    seq![104u8, 105u8, 116u8]
}

pub open spec fn kw_stand() -> Seq<u8> {
    seq![115u8, 116u8, 97u8, 110u8, 100u8]
}

pub open spec fn kw_split() -> Seq<u8> {
    seq![115u8, 112u8, 108u8, 105u8, 116u8]
}

pub open spec fn kw_double() -> Seq<u8> {
    seq![100u8, 111u8, 117u8, 98u8, 108u8, 101u8]
}

pub open spec fn spec_bj_cmd(t: Seq<u8>) -> BjCmd {
    if t == kw_yes() {
        BjCmd::Yes
    } else if t == kw_no() {
        BjCmd::No
    } else if t == kw_hit() {
        BjCmd::Hit
    } else if t == kw_stand() {
        BjCmd::Stand
    } else if t == kw_split() {
        BjCmd::Split
    } else if t == kw_double() {
        BjCmd::Double
    } else {
        BjCmd::Other
    }
}

/// Classify a lower-cased token as a blackjack command.
pub fn bj_cmd(t: &Vec<u8>) -> (c: BjCmd)
    ensures
        c == spec_bj_cmd(t@),
{
    let n = t.len();
    if n == 3 && t[0] == 121 && t[1] == 101 && t[2] == 115 {
        proof {
            assert(t@ =~= kw_yes());
        }
        BjCmd::Yes
    } else if n == 2 && t[0] == 110 && t[1] == 111 {
        proof {
            assert(t@ =~= kw_no());
        }
        BjCmd::No
    } else if n == 3 && t[0] == 104 && t[1] == 105 && t[2] == 116 {
        proof {
            assert(t@ =~= kw_hit());
        }
        BjCmd::Hit
    } else if n == 5 && t[0] == 115 && t[1] == 116 && t[2] == 97 && t[3] == 110 && t[4] == 100 {
        proof {
            assert(t@ =~= kw_stand());
        }
        BjCmd::Stand
    } else if n == 5 && t[0] == 115 && t[1] == 112 && t[2] == 108 && t[3] == 105 && t[4] == 116 {
        proof {
            assert(t@ =~= kw_split());
        }
        BjCmd::Split
    } else if n == 6 && t[0] == 100 && t[1] == 111 && t[2] == 117 && t[3] == 98 && t[4] == 108
        && t[5] == 101 {
        proof {
            assert(t@ =~= kw_double());
        }
        BjCmd::Double
    } else {
        proof {
            assert(t@ != kw_yes() && t@ != kw_no() && t@ != kw_hit() && t@ != kw_stand() && t@
                != kw_split() && t@ != kw_double());
        }
        BjCmd::Other
    }
}

/// What the player may legally do next; the renderer words it.
#[derive(Clone, Copy, Debug, PartialEq, Eq, Structural)]
pub struct BjOptions {
    pub insurance: bool,
    pub hit: bool,
    pub stand: bool,
    pub split: bool,
    pub double: bool,
}

/// The dealer's fixed advice table, keyed by the playing hand's score and
/// the dealer's up-card.
#[derive(Clone, Copy, Debug, PartialEq, Eq, Structural)]
pub enum BjAdvice {
    HitUntilBig,
    ShouldHit,
    HitOrDouble,
    JustHit,
    BigDouble,
    SplitAces,
    OnlyHit,
    MaybeStand,
    NoSmartHit,
    RatherHit,
    ShouldStand,
    StandOrElse,
    NoHelpAtTwentyOne,
    Hopeless,
}

/// A domain-level result of one blackjack input; the renderer turns it into
/// a displayable message.
#[derive(Clone, Copy, Debug, PartialEq, Eq, Structural)]
pub enum BjMsg {
    NeedInsuranceAnswer,
    NotEnoughForInsurance,
    InsurancePush,
    InsurancePaid,
    InsuranceLost,
    DealerBlackjack,
    GameBegun,
    YouHit,
    NotEnoughToSplit,
    YouSplit,
    InvalidDoubleAmount,
    NotEnoughToDouble,
    Unknown,
    RoundBust { score: u64 },
    RoundPush { score: u64 },
    RoundWon { payout: u64 },
    RoundLost { dealer_score: u64 },
}

/// How the playing hand fares against the dealer, in the priority order the
/// rules use: bust first, then push, then a win (dealer bust or lower
/// score), else a loss.
#[derive(Clone, Copy, Debug, PartialEq, Eq, Structural)]
pub enum BjOutcome {
    Bust,
    Push,
    Won,
    Lost,
}

pub open spec fn spec_outcome(h: Seq<Card>, d: Seq<Card>) -> BjOutcome {
    if hand_score(h) > 21 {
        BjOutcome::Bust
    } else if hand_score(d) == hand_score(h) {
        BjOutcome::Push
    } else if hand_score(d) > 21 || hand_score(h) > hand_score(d) {
        BjOutcome::Won
    } else {
        BjOutcome::Lost
    }
}

/// A winning hand pays one-to-one; a natural pays three-to-two, rounded to
/// the nearest whole unit. Both amounts include the returned stake.
pub open spec fn spec_win_payout(bet: u64, natural: bool) -> int {
    if natural {
        (5 * bet + 1) / 2
    } else {
        2 * bet
    }
}

/// The economy effect a resolution message promises: a push returns the
/// stake, a win credits its payout, a bust or loss moves nothing.
pub open spec fn spec_resolution(
    m: BjMsg,
    pre: Users,
    post: Users,
    user: u64,
    bet: u64,
    natural: bool,
) -> bool {
    &&& (m is RoundBust ==> post == pre)
    &&& (m is RoundLost ==> post == pre)
    &&& (m is RoundPush ==> post.spec_balance(user) == crate::store::sat64(
        pre.spec_balance(user) + bet,
    ))
    &&& (m matches BjMsg::RoundWon { payout } ==> payout == spec_win_payout(bet, natural)
        && post.spec_balance(user) == crate::store::sat64(pre.spec_balance(user) + payout))
    &&& (m is RoundBust || m is RoundLost || m is RoundPush || m is RoundWon)
}

/// The same economy promise stated over balances alone; used where the
/// stake was already moved before the hand resolved.
pub open spec fn spec_resolution_bal(
    m: BjMsg,
    pre_bal: u64,
    post_bal: u64,
    bet: u64,
    natural: bool,
) -> bool {
    &&& (m is RoundBust ==> post_bal == pre_bal)
    &&& (m is RoundLost ==> post_bal == pre_bal)
    &&& (m is RoundPush ==> post_bal == crate::store::sat64(pre_bal + bet))
    &&& (m matches BjMsg::RoundWon { payout } ==> payout == spec_win_payout(bet, natural)
        && post_bal == crate::store::sat64(pre_bal + payout))
    &&& (m is RoundBust || m is RoundLost || m is RoundPush || m is RoundWon)
}

/// A shorter sequence of the same cards keeps the no-joker property.
proof fn lemma_no_jokers_drop_last(s: Seq<Card>)
    requires
        no_jokers(s),
        s.len() > 0,
    ensures
        no_jokers(s.drop_last()),
{
    assert forall|i: int| 0 <= i < s.drop_last().len() implies (
    #[trigger] s.drop_last()[i]).card_type != CardType::Joker by {
        assert(s[i].card_type != CardType::Joker);
    }
}

/// Drawing one non-joker card into a playable hand keeps every hand within
/// the per-hand bounds and grows the total by one.
proof fn lemma_hands_after_draw(
    pre_hands: Seq<BlackjackHand>,
    post_hands: Seq<BlackjackHand>,
    ph: int,
    card: Card,
)
    requires
        0 <= ph < pre_hands.len(),
        post_hands == pre_hands.update(ph, post_hands[ph]),
        post_hands[ph].cards@ == pre_hands[ph].cards@.push(card),
        forall|i: int|
            0 <= i < pre_hands.len() ==> no_jokers((#[trigger] pre_hands[i]).cards@) && min_sum(
                pre_hands[i].cards@,
            ) <= 31,
        min_sum(pre_hands[ph].cards@) <= 21,
        card.card_type != CardType::Joker,
    ensures
        forall|i: int|
            0 <= i < post_hands.len() ==> no_jokers((#[trigger] post_hands[i]).cards@)
                && min_sum(post_hands[i].cards@) <= 31,
        total_cards(post_hands) == total_cards(pre_hands) + 1,
{
    lemma_sums_push(pre_hands[ph].cards@, card);
    lemma_total_cards_update(pre_hands, ph, post_hands[ph]);
    assert(min_points(card) <= 10);
    assert forall|i: int| 0 <= i < post_hands.len() implies no_jokers(
        (#[trigger] post_hands[i]).cards@,
    ) && min_sum(post_hands[i].cards@) <= 31 by {
        if i == ph {
            assert forall|k: int| 0 <= k < post_hands[i].cards@.len() implies (
            #[trigger] post_hands[i].cards@[k]).card_type != CardType::Joker by {
                if k < pre_hands[ph].cards@.len() {
                    assert(no_jokers(pre_hands[ph].cards@));
                } else {
                    assert(post_hands[i].cards@[k] == card);
                }
            }
        } else {
            assert(post_hands[i] == pre_hands[i]);
        }
    }
}

/// After a hit from a playable state, the game is resolvable; and if the
/// new hand did not bust, it is fully playable again.
proof fn lemma_after_hit(pre: BlackJack, post: BlackJack)
    requires
        pre.wf(),
        post.player.hands@ == pre.player.hands@.update(
            pre.player.playing_hand as int,
            post.player.hands@[pre.player.playing_hand as int],
        ),
        post.player.spec_playing() == pre.player.spec_playing().push(pre.deck.cards@.last()),
        post.player.playing_hand == pre.player.playing_hand,
        post.player.hands@.len() == pre.player.hands@.len(),
        post.player.bet == pre.player.bet,
        post.deck.cards@ == pre.deck.cards@.drop_last(),
        pre.deck.cards@.len() > 0,
        post.turn == pre.turn + 1,
        post.dealer == pre.dealer,
        post.player_blackjack == pre.player_blackjack,
        post.original_bet == pre.original_bet,
    ensures
        post.wf_resolve(),
        hand_score(post.player.spec_playing()) <= 21 ==> post.wf(),
{
    pre.lemma_wf_resolve();
    lemma_bust_unavoidable(pre.player.spec_playing());
    assert(pre.deck.cards@.last().card_type != CardType::Joker);
    lemma_hands_after_draw(
        pre.player.hands@,
        post.player.hands@,
        pre.player.playing_hand as int,
        pre.deck.cards@.last(),
    );
    lemma_no_jokers_drop_last(pre.deck.cards@);
    assert forall|i: int|
        post.player.playing_hand < i < post.player.hands@.len() implies (
    #[trigger] post.player.hands@[i]).cards@.len() == 1 by {
        assert(post.player.hands@[i] == pre.player.hands@[i]);
    }
}

/// After the dealer has played from a playable state, the game is
/// resolvable.
proof fn lemma_after_stand(pre: BlackJack, post: BlackJack)
    requires
        pre.wf(),
        post.player == pre.player,
        no_jokers(post.dealer.cards@),
        min_sum(post.dealer.cards@) <= 27,
        no_jokers(post.deck.cards@),
        post.deck.cards@.len() + post.dealer.cards@.len() == pre.deck.cards@.len()
            + pre.dealer.cards@.len(),
        post.turn == pre.turn + 1,
        post.player_blackjack == pre.player_blackjack,
        post.original_bet == pre.original_bet,
    ensures
        post.wf_resolve(),
{
    pre.lemma_wf_resolve();
}

/// After a double-down (bet raised, one card drawn, dealer played) from a
/// playable first-action state, the game is resolvable.
proof fn lemma_after_double(pre: BlackJack, post: BlackJack)
    requires
        pre.wf(),
        pre.turn == 0,
        !(pre.player.spec_playing().len() == 2 && hand_score(pre.player.spec_playing()) == 21),
        post.player.hands@ == pre.player.hands@.update(
            pre.player.playing_hand as int,
            post.player.hands@[pre.player.playing_hand as int],
        ),
        post.player.spec_playing() == pre.player.spec_playing().push(pre.deck.cards@.last()),
        post.player.playing_hand == pre.player.playing_hand,
        post.player.hands@.len() == pre.player.hands@.len(),
        post.player.bet <= u64::MAX / 4,
        pre.deck.cards@.len() > 0,
        no_jokers(post.dealer.cards@),
        min_sum(post.dealer.cards@) <= 27,
        no_jokers(post.deck.cards@),
        post.deck.cards@.len() + post.dealer.cards@.len() == pre.deck.cards@.len()
            + pre.dealer.cards@.len() - 1,
        post.turn == pre.turn + 2,
        post.player_blackjack == pre.player_blackjack,
        post.original_bet == pre.original_bet,
    ensures
        post.wf_resolve(),
{
    pre.lemma_wf_resolve();
    lemma_bust_unavoidable(pre.player.spec_playing());
    assert(pre.deck.cards@.last().card_type != CardType::Joker);
    lemma_hands_after_draw(
        pre.player.hands@,
        post.player.hands@,
        pre.player.playing_hand as int,
        pre.deck.cards@.last(),
    );
    assert forall|i: int|
        post.player.playing_hand < i < post.player.hands@.len() implies (
    #[trigger] post.player.hands@[i]).cards@.len() == 1 by {
        assert(post.player.hands@[i] == pre.player.hands@[i]);
    }
}

/// Hands each bounded at 31 cards bound the total.
pub proof fn lemma_total_bound_31(hs: Seq<BlackjackHand>)
    requires
        forall|i: int| 0 <= i < hs.len() ==> (#[trigger] hs[i]).cards@.len() <= 31,
    ensures
        total_cards(hs) <= 31 * hs.len(),
    decreases hs.len(),
{
    if hs.len() > 0 {
        assert forall|i: int| 0 <= i < hs.drop_last().len() implies (
        #[trigger] hs.drop_last()[i]).cards@.len() <= 31 by {
            assert(hs.drop_last()[i] == hs[i]);
        }
        lemma_total_bound_31(hs.drop_last());
        assert(hs.last() == hs[hs.len() - 1]);
    }
}

} // verus!
