//! Card primitives: ranks, suits, cards, and multi-pack decks.
use vstd::prelude::*;
use vstd::string::StringExecFns;
use vstd::multiset::Multiset;
use crate::rng;

verus! {

#[derive(Clone, Copy, Debug, PartialEq, Eq, Structural)]
pub enum CardType {
    Ace,
    Two,
    Three,
    Four,
    Five,
    Six,
    Seven,
    Eight,
    Nine,
    Ten,
    Jack,
    Queen,
    King,
    Joker,
}

impl CardType {
    pub open spec fn spec_is_face_card(self) -> bool {
        self == CardType::Jack || self == CardType::Queen || self == CardType::King
    }

    pub fn is_face_card(&self) -> (r: bool)
        ensures
            r == self.spec_is_face_card(),
    {
        match self {
            CardType::Jack | CardType::Queen | CardType::King => true,
            _ => false,
        }
    }
}

#[derive(Clone, Copy, Debug, PartialEq, Eq, Structural)]
pub enum Suit {
    Hearts,
    Diamonds,
    Clubs,
    Spades,
}

impl Suit {
    pub fn is_red(&self) -> (r: bool)
        ensures
            r == (self == Suit::Hearts || self == Suit::Diamonds),
    {
        match self {
            Suit::Hearts | Suit::Diamonds => true,
            _ => false,
        }
    }

    pub fn is_black(&self) -> (r: bool)
        ensures
            r == (self == Suit::Clubs || self == Suit::Spades),
    {
        match self {
            Suit::Clubs | Suit::Spades => true,
            _ => false,
        }
    }
}

#[derive(Clone, Copy, Debug, PartialEq, Eq, Structural)]
pub struct Card {
    pub card_type: CardType,
    pub suit: Suit,
}

impl Card {
    pub fn new(card_type: CardType, suit: Suit) -> (c: Card)
        ensures
            c == (Card { card_type, suit }),
    {
        Card { card_type, suit }
    }

    pub fn is_face_card(&self) -> (r: bool)
        ensures
            r == self.card_type.spec_is_face_card(),
    {
        self.card_type.is_face_card()
    }

    /// The card's rank and suit spelled out, as in a dealer's call.
    pub fn display_raw(&self) -> (r: String)
        ensures
            r@ == spec_rank_name(self.card_type) + " of "@ + spec_suit_name(self.suit),
    {
        String::from_str(self.card_type.rank_name()).concat(" of ").concat(
            self.suit.suit_name(),
        )
    }

    /// The rank alone, for a hand listing.
    pub fn display_no_suite(&self) -> (r: String)
        ensures
            r@ == spec_rank_name(self.card_type),
    {
        String::from_str(self.card_type.rank_name())
    }

    /// The face-down card, the same whatever the card is.
    pub fn show_hidden(&self) -> (r: String)
        ensures
            r@ == "(face down)"@,
    {
        String::from_str("(face down)")
    }
}

pub open spec fn spec_rank_name(t: CardType) -> Seq<char> {
    match t {
        CardType::Ace => "Ace"@,
        CardType::Two => "Two"@,
        CardType::Three => "Three"@,
        CardType::Four => "Four"@,
        CardType::Five => "Five"@,
        CardType::Six => "Six"@,
        CardType::Seven => "Seven"@,
        CardType::Eight => "Eight"@,
        CardType::Nine => "Nine"@,
        CardType::Ten => "Ten"@,
        CardType::Jack => "Jack"@,
        CardType::Queen => "Queen"@,
        CardType::King => "King"@,
        CardType::Joker => "Joker"@,
    }
}

pub open spec fn spec_suit_name(s: Suit) -> Seq<char> {
    match s {
        Suit::Hearts => "Hearts"@,
        Suit::Diamonds => "Diamonds"@,
        Suit::Clubs => "Clubs"@,
        Suit::Spades => "Spades"@,
    }
}

impl CardType {
    /// The rank's printable name.
    pub fn rank_name(&self) -> (r: &'static str)
        ensures
            r@ == spec_rank_name(*self),
    {
        match self {
            CardType::Ace => "Ace",
            CardType::Two => "Two",
            CardType::Three => "Three",
            CardType::Four => "Four",
            CardType::Five => "Five",
            CardType::Six => "Six",
            CardType::Seven => "Seven",
            CardType::Eight => "Eight",
            CardType::Nine => "Nine",
            CardType::Ten => "Ten",
            CardType::Jack => "Jack",
            CardType::Queen => "Queen",
            CardType::King => "King",
            CardType::Joker => "Joker",
        }
    }
}

impl Suit {
    /// The suit's printable name.
    pub fn suit_name(&self) -> (r: &'static str)
        ensures
            r@ == spec_suit_name(*self),
    {
        match self {
            Suit::Hearts => "Hearts",
            Suit::Diamonds => "Diamonds",
            Suit::Clubs => "Clubs",
            Suit::Spades => "Spades",
        }
    }
}

/// Blackjack value of a card: an ace counts eleven before any soft
/// reduction, face cards and tens count ten, and a joker (never dealt in
/// blackjack decks) counts nothing.
pub open spec fn spec_card_value(c: Card) -> u64 {
    match c.card_type {
        CardType::Ace => 11,
        CardType::Two => 2,
        CardType::Three => 3,
        CardType::Four => 4,
        CardType::Five => 5,
        CardType::Six => 6,
        CardType::Seven => 7,
        CardType::Eight => 8,
        CardType::Nine => 9,
        CardType::Ten => 10,
        CardType::Jack => 10,
        CardType::Queen => 10,
        CardType::King => 10,
        CardType::Joker => 0,
    }
}

pub fn card_value(card: &Card) -> (v: u64)
    ensures
        v == spec_card_value(*card),
{
    match card.card_type {
        CardType::Ace => 11,
        CardType::Two => 2,
        CardType::Three => 3,
        CardType::Four => 4,
        CardType::Five => 5,
        CardType::Six => 6,
        CardType::Seven => 7,
        CardType::Eight => 8,
        CardType::Nine => 9,
        CardType::Ten | CardType::Jack | CardType::Queen | CardType::King => 10,
        _ => 0,
    }
}

pub open spec fn spec_is_10_value(c: Card) -> bool {
    spec_card_value(c) == 10
}

pub fn is_10_value(card: &Card) -> (r: bool)
    ensures
        r == spec_is_10_value(*card),
{
    match card.card_type {
        CardType::Ten | CardType::Jack | CardType::Queen | CardType::King => true,
        _ => false,
    }
}

/// An ordered pile of cards; the last element of the vector is the top of
/// the deck and is the next card dealt.
pub struct Deck {
    pub cards: Vec<Card>,
}

/// No joker anywhere in the sequence; blackjack decks are built without
/// jokers and every card dealt from them keeps this property.
pub open spec fn no_jokers(s: Seq<Card>) -> bool {
    forall|i: int| 0 <= i < s.len() ==> #[trigger] s[i].card_type != CardType::Joker
}

/// How many copies of a card one pack holds: one of every rank-suit pair,
/// plus (when jokers are requested) one red joker of each of the two red
/// suits.
pub open spec fn spec_per_pack(c: Card, jokers: bool) -> nat {
    if c.card_type == CardType::Joker {
        if jokers && (c.suit == Suit::Hearts || c.suit == Suit::Diamonds) {
            1
        } else {
            0
        }
    } else {
        1
    }
}

impl Deck {
    /// Build `packs` standard 52-card packs (plus two jokers per pack when
    /// requested), unshuffled: every rank-suit pair appears exactly once
    /// per pack.
    pub fn new(packs: u8, jokers: bool) -> (d: Deck)
        ensures
            d.cards@.len() == if jokers {
                54 * packs as int
            } else {
                52 * packs as int
            },
            !jokers ==> no_jokers(d.cards@),
            forall|c: Card|
                #[trigger] d.cards@.to_multiset().count(c) == (packs as nat) * spec_per_pack(
                    c,
                    jokers,
                ),
    {
        broadcast use vstd::seq_lib::group_to_multiset_ensures;

        let mut cards: Vec<Card> = Vec::new();
        proof {
            assert forall|c: Card| #[trigger] cards@.to_multiset().count(c) == (0 as nat)
                * spec_per_pack(c, jokers) by {
                assert(cards@.to_multiset() =~= Multiset::<Card>::empty());
            }
        }
        let mut p: u8 = 0;
        while p < packs
            invariant
                p <= packs,
                cards@.len() == if jokers {
                    54 * p as int
                } else {
                    52 * p as int
                },
                !jokers ==> no_jokers(cards@),
                forall|c: Card|
                    #[trigger] cards@.to_multiset().count(c) == (p as nat) * spec_per_pack(
                        c,
                        jokers,
                    ),
            decreases packs - p,
        {
            broadcast use vstd::seq_lib::group_to_multiset_ensures;

            let ranks: [CardType; 13] = [
                CardType::Ace,
                CardType::Two,
                CardType::Three,
                CardType::Four,
                CardType::Five,
                CardType::Six,
                CardType::Seven,
                CardType::Eight,
                CardType::Nine,
                CardType::Ten,
                CardType::Jack,
                CardType::Queen,
                CardType::King,
            ];
            proof {
                assert forall|a: int, b: int| 0 <= a < b < 13 implies #[trigger] ranks@[a] != (
                #[trigger] ranks@[b]) by {}
            }
            let ghost at_pack = cards@;
            let mut r: usize = 0;
            while r < 13
                invariant
                    r <= 13,
                    cards@.len() == (if jokers {
                        54 * p as int
                    } else {
                        52 * p as int
                    }) + 4 * r as int,
                    !jokers ==> no_jokers(cards@),
                    forall|i: int| 0 <= i < 13 ==> #[trigger] ranks@[i] != CardType::Joker,
                    forall|a: int, b: int|
                        0 <= a < b < 13 ==> #[trigger] ranks@[a] != #[trigger] ranks@[b],
                    forall|c: Card|
                        #[trigger] cards@.to_multiset().count(c) == at_pack.to_multiset().count(
                            c,
                        ) + (if c.card_type != CardType::Joker && ranks@.subrange(
                            0,
                            r as int,
                        ).contains(c.card_type) {
                            1nat
                        } else {
                            0nat
                        }),
                decreases 13 - r,
            {
                broadcast use vstd::seq_lib::group_to_multiset_ensures;

                let ghost at_rank = cards@;
                let rank = ranks[r];
                cards.push(Card { card_type: rank, suit: Suit::Hearts });
                cards.push(Card { card_type: rank, suit: Suit::Diamonds });
                cards.push(Card { card_type: rank, suit: Suit::Spades });
                cards.push(Card { card_type: rank, suit: Suit::Clubs });
                proof {
                    assert(ranks@.subrange(0, r + 1).drop_last() == ranks@.subrange(
                        0,
                        r as int,
                    ));
                    assert(ranks@.subrange(0, r + 1).last() == rank);
                    assert forall|c: Card|
                        #[trigger] cards@.to_multiset().count(c) == at_pack.to_multiset().count(
                            c,
                        ) + (if c.card_type != CardType::Joker && ranks@.subrange(
                            0,
                            r + 1,
                        ).contains(c.card_type) {
                            1nat
                        } else {
                            0nat
                        }) by {
                        // the four pushes add one copy of each suit of this
                        // rank and nothing else
                        assert(cards@.to_multiset() =~= at_rank.to_multiset().insert(
                            Card { card_type: rank, suit: Suit::Hearts },
                        ).insert(Card { card_type: rank, suit: Suit::Diamonds }).insert(
                            Card { card_type: rank, suit: Suit::Spades },
                        ).insert(Card { card_type: rank, suit: Suit::Clubs }));
                        if c.card_type == rank {
                            // this rank is new to the pack: it is not among
                            // the ranks already pushed
                            if ranks@.subrange(0, r as int).contains(c.card_type) {
                                let k = choose|k: int|
                                    0 <= k < r && #[trigger] ranks@.subrange(0, r as int)[k]
                                        == c.card_type;
                                assert(ranks@[k] == ranks@[r as int]);
                            }
                            assert(ranks@.subrange(0, r + 1)[r as int] == rank);
                        } else {
                            if ranks@.subrange(0, r + 1).contains(c.card_type) {
                                let k = choose|k: int|
                                    0 <= k < r + 1 && #[trigger] ranks@.subrange(0, r + 1)[k]
                                        == c.card_type;
                                assert(k < r);
                                assert(ranks@.subrange(0, r as int)[k] == c.card_type);
                            }
                            if ranks@.subrange(0, r as int).contains(c.card_type) {
                                let k = choose|k: int|
                                    0 <= k < r && #[trigger] ranks@.subrange(0, r as int)[k]
                                        == c.card_type;
                                assert(ranks@.subrange(0, r + 1)[k] == c.card_type);
                            }
                        }
                    }
                }
                r = r + 1;
            }
            if jokers {
                cards.push(Card { card_type: CardType::Joker, suit: Suit::Hearts });
                cards.push(Card { card_type: CardType::Joker, suit: Suit::Diamonds });
            }
            proof {
                assert(ranks@.subrange(0, 13) =~= ranks@);
                assert forall|c: Card|
                    #[trigger] cards@.to_multiset().count(c) == ((p + 1) as nat)
                        * spec_per_pack(c, jokers) by {
                    assert(at_pack.to_multiset().count(c) == (p as nat) * spec_per_pack(
                        c,
                        jokers,
                    ));
                    if c.card_type != CardType::Joker {
                        // every rank is covered exactly once this pack
                        assert(ranks@.contains(c.card_type)) by {
                            match c.card_type {
                                CardType::Ace => assert(ranks@[0] == c.card_type),
                                CardType::Two => assert(ranks@[1] == c.card_type),
                                CardType::Three => assert(ranks@[2] == c.card_type),
                                CardType::Four => assert(ranks@[3] == c.card_type),
                                CardType::Five => assert(ranks@[4] == c.card_type),
                                CardType::Six => assert(ranks@[5] == c.card_type),
                                CardType::Seven => assert(ranks@[6] == c.card_type),
                                CardType::Eight => assert(ranks@[7] == c.card_type),
                                CardType::Nine => assert(ranks@[8] == c.card_type),
                                CardType::Ten => assert(ranks@[9] == c.card_type),
                                CardType::Jack => assert(ranks@[10] == c.card_type),
                                CardType::Queen => assert(ranks@[11] == c.card_type),
                                CardType::King => assert(ranks@[12] == c.card_type),
                                CardType::Joker => assert(false),
                            }
                        }
                        assert((p as nat) * 1 + 1 == ((p + 1) as nat) * 1) by (nonlinear_arith);
                    } else {
                        if jokers && (c.suit == Suit::Hearts || c.suit == Suit::Diamonds) {
                            assert((p as nat) * 1 + 1 == ((p + 1) as nat) * 1)
                                by (nonlinear_arith);
                        } else {
                            assert((p as nat) * 0 == ((p + 1) as nat) * 0)
                                by (nonlinear_arith);
                        }
                    }
                }
            }
            p = p + 1;
        }
        Deck { cards }
    }

    /// Permute the deck in place; the multiset of cards is unchanged.
    pub fn shuffle(&mut self)
        ensures
            final(self).cards@.len() == old(self).cards@.len(),
            final(self).cards@.to_multiset() == old(self).cards@.to_multiset(),
            no_jokers(old(self).cards@) ==> no_jokers(final(self).cards@),
    {
        rng::shuffle(&mut self.cards);
        proof {
            if no_jokers(old(self).cards@) {
                assert forall|i: int|
                    0 <= i < self.cards@.len() implies #[trigger] self.cards@[i].card_type
                    != CardType::Joker by {
                    assert(old(self).cards@.contains(self.cards@[i]));
                }
            }
        }
    }

    /// Deal the top card: the last element of the vector is removed and
    /// returned. The deck must not be empty; callers size their decks to
    /// exceed the maximum possible draws of a session.
    pub fn deal(&mut self) -> (c: Card)
        requires
            old(self).cards@.len() > 0,
        ensures
            c == old(self).cards@.last(),
            final(self).cards@ == old(self).cards@.drop_last(),
    {
        let c = self.cards.pop().unwrap();
        c
    }

    pub fn len(&self) -> (n: usize)
        ensures
            n == self.cards@.len(),
    {
        self.cards.len()
    }
}

} // verus!
