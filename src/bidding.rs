use vstd::prelude::*;

use crate::primitives::{suit_index, Suit};

verus! {

/// A number of tricks that can be bid, from six to thirteen.
#[derive(Clone, Copy, Debug, PartialEq, Eq, Structural, Hash)]
pub enum BidNumber {
    Six,
    Seven,
    Eight,
    Nine,
    Ten,
    Eleven,
    Twelve,
    Thirteen,
}

/// A bid: a number of tricks together with a trump suit, or no trump. Bids are
/// ordered by number and then by suit, with no trump highest.
#[derive(Clone, Copy, Debug, PartialEq, Eq, Structural, Hash)]
pub enum Bid {
    SixClubs,
    SixDiamonds,
    SixHearts,
    SixSpades,
    SixNoTrump,
    SevenClubs,
    SevenDiamonds,
    SevenHearts,
    SevenSpades,
    SevenNoTrump,
    EightClubs,
    EightDiamonds,
    EightHearts,
    EightSpades,
    EightNoTrump,
    NineClubs,
    NineDiamonds,
    NineHearts,
    NineSpades,
    NineNoTrump,
    TenClubs,
    TenDiamonds,
    TenHearts,
    TenSpades,
    TenNoTrump,
    ElevenClubs,
    ElevenDiamonds,
    ElevenHearts,
    ElevenSpades,
    ElevenNoTrump,
    TwelveClubs,
    TwelveDiamonds,
    TwelveHearts,
    TwelveSpades,
    TwelveNoTrump,
    ThirteenClubs,
    ThirteenDiamonds,
    ThirteenHearts,
    ThirteenSpades,
    ThirteenNoTrump,
}

/// Position of a bid number, from zero for six.
pub open spec fn bid_number_index(n: BidNumber) -> nat {
    match n {
        BidNumber::Six => 0,
        BidNumber::Seven => 1,
        BidNumber::Eight => 2,
        BidNumber::Nine => 3,
        BidNumber::Ten => 4,
        BidNumber::Eleven => 5,
        BidNumber::Twelve => 6,
        BidNumber::Thirteen => 7,
    }
}

/// Position of a bid's trump choice: the suit's position, or four for no trump.
pub open spec fn trump_index(s: Option<Suit>) -> nat {
    match s {
        Some(suit) => suit_index(suit),
        None => 4,
    }
}

/// Position of a bid in bid order: five for each number, then the trump choice.
pub open spec fn bid_index(b: Bid) -> nat {
    match b {
        Bid::SixClubs => 0,
        Bid::SixDiamonds => 1,
        Bid::SixHearts => 2,
        Bid::SixSpades => 3,
        Bid::SixNoTrump => 4,
        Bid::SevenClubs => 5,
        Bid::SevenDiamonds => 6,
        Bid::SevenHearts => 7,
        Bid::SevenSpades => 8,
        Bid::SevenNoTrump => 9,
        Bid::EightClubs => 10,
        Bid::EightDiamonds => 11,
        Bid::EightHearts => 12,
        Bid::EightSpades => 13,
        Bid::EightNoTrump => 14,
        Bid::NineClubs => 15,
        Bid::NineDiamonds => 16,
        Bid::NineHearts => 17,
        Bid::NineSpades => 18,
        Bid::NineNoTrump => 19,
        Bid::TenClubs => 20,
        Bid::TenDiamonds => 21,
        Bid::TenHearts => 22,
        Bid::TenSpades => 23,
        Bid::TenNoTrump => 24,
        Bid::ElevenClubs => 25,
        Bid::ElevenDiamonds => 26,
        Bid::ElevenHearts => 27,
        Bid::ElevenSpades => 28,
        Bid::ElevenNoTrump => 29,
        Bid::TwelveClubs => 30,
        Bid::TwelveDiamonds => 31,
        Bid::TwelveHearts => 32,
        Bid::TwelveSpades => 33,
        Bid::TwelveNoTrump => 34,
        Bid::ThirteenClubs => 35,
        Bid::ThirteenDiamonds => 36,
        Bid::ThirteenHearts => 37,
        Bid::ThirteenSpades => 38,
        Bid::ThirteenNoTrump => 39,
    }
}

impl BidNumber {
    /// The number of tricks bid.
    pub fn as_u32(&self) -> (r: u32)
        ensures
            r == bid_number_index(*self) + 6,
    {
        match self {
            BidNumber::Six => 6,
            BidNumber::Seven => 7,
            BidNumber::Eight => 8,
            BidNumber::Nine => 9,
            BidNumber::Ten => 10,
            BidNumber::Eleven => 11,
            BidNumber::Twelve => 12,
            BidNumber::Thirteen => 13,
        }
    }
}

impl Bid {
    /// The bid of `number` tricks with trump `suit`.
    pub fn new(number: BidNumber, suit: Option<Suit>) -> (r: Bid)
        ensures
            bid_index(r) == 5 * bid_number_index(number) + trump_index(suit),
    {
        match suit {
            Some(Suit::Clubs) => match number {
                BidNumber::Six => Bid::SixClubs,
                BidNumber::Seven => Bid::SevenClubs,
                BidNumber::Eight => Bid::EightClubs,
                BidNumber::Nine => Bid::NineClubs,
                BidNumber::Ten => Bid::TenClubs,
                BidNumber::Eleven => Bid::ElevenClubs,
                BidNumber::Twelve => Bid::TwelveClubs,
                BidNumber::Thirteen => Bid::ThirteenClubs,
            },
            Some(Suit::Diamonds) => match number {
                BidNumber::Six => Bid::SixDiamonds,
                BidNumber::Seven => Bid::SevenDiamonds,
                BidNumber::Eight => Bid::EightDiamonds,
                BidNumber::Nine => Bid::NineDiamonds,
                BidNumber::Ten => Bid::TenDiamonds,
                BidNumber::Eleven => Bid::ElevenDiamonds,
                BidNumber::Twelve => Bid::TwelveDiamonds,
                BidNumber::Thirteen => Bid::ThirteenDiamonds,
            },
            Some(Suit::Hearts) => match number {
                BidNumber::Six => Bid::SixHearts,
                BidNumber::Seven => Bid::SevenHearts,
                BidNumber::Eight => Bid::EightHearts,
                BidNumber::Nine => Bid::NineHearts,
                BidNumber::Ten => Bid::TenHearts,
                BidNumber::Eleven => Bid::ElevenHearts,
                BidNumber::Twelve => Bid::TwelveHearts,
                BidNumber::Thirteen => Bid::ThirteenHearts,
            },
            Some(Suit::Spades) => match number {
                BidNumber::Six => Bid::SixSpades,
                BidNumber::Seven => Bid::SevenSpades,
                BidNumber::Eight => Bid::EightSpades,
                BidNumber::Nine => Bid::NineSpades,
                BidNumber::Ten => Bid::TenSpades,
                BidNumber::Eleven => Bid::ElevenSpades,
                BidNumber::Twelve => Bid::TwelveSpades,
                BidNumber::Thirteen => Bid::ThirteenSpades,
            },
            None => match number {
                BidNumber::Six => Bid::SixNoTrump,
                BidNumber::Seven => Bid::SevenNoTrump,
                BidNumber::Eight => Bid::EightNoTrump,
                BidNumber::Nine => Bid::NineNoTrump,
                BidNumber::Ten => Bid::TenNoTrump,
                BidNumber::Eleven => Bid::ElevenNoTrump,
                BidNumber::Twelve => Bid::TwelveNoTrump,
                BidNumber::Thirteen => Bid::ThirteenNoTrump,
            },
        }
    }

    /// The trump suit of this bid, or None for no trump.
    pub fn suit(&self) -> (r: Option<Suit>)
        ensures
            trump_index(r) == bid_index(*self) % 5,
    {
        match self {
            Bid::SixClubs => Some(Suit::Clubs),
            Bid::SixDiamonds => Some(Suit::Diamonds),
            Bid::SixHearts => Some(Suit::Hearts),
            Bid::SixSpades => Some(Suit::Spades),
            Bid::SixNoTrump => None,
            Bid::SevenClubs => Some(Suit::Clubs),
            Bid::SevenDiamonds => Some(Suit::Diamonds),
            Bid::SevenHearts => Some(Suit::Hearts),
            Bid::SevenSpades => Some(Suit::Spades),
            Bid::SevenNoTrump => None,
            Bid::EightClubs => Some(Suit::Clubs),
            Bid::EightDiamonds => Some(Suit::Diamonds),
            Bid::EightHearts => Some(Suit::Hearts),
            Bid::EightSpades => Some(Suit::Spades),
            Bid::EightNoTrump => None,
            Bid::NineClubs => Some(Suit::Clubs),
            Bid::NineDiamonds => Some(Suit::Diamonds),
            Bid::NineHearts => Some(Suit::Hearts),
            Bid::NineSpades => Some(Suit::Spades),
            Bid::NineNoTrump => None,
            Bid::TenClubs => Some(Suit::Clubs),
            Bid::TenDiamonds => Some(Suit::Diamonds),
            Bid::TenHearts => Some(Suit::Hearts),
            Bid::TenSpades => Some(Suit::Spades),
            Bid::TenNoTrump => None,
            Bid::ElevenClubs => Some(Suit::Clubs),
            Bid::ElevenDiamonds => Some(Suit::Diamonds),
            Bid::ElevenHearts => Some(Suit::Hearts),
            Bid::ElevenSpades => Some(Suit::Spades),
            Bid::ElevenNoTrump => None,
            Bid::TwelveClubs => Some(Suit::Clubs),
            Bid::TwelveDiamonds => Some(Suit::Diamonds),
            Bid::TwelveHearts => Some(Suit::Hearts),
            Bid::TwelveSpades => Some(Suit::Spades),
            Bid::TwelveNoTrump => None,
            Bid::ThirteenClubs => Some(Suit::Clubs),
            Bid::ThirteenDiamonds => Some(Suit::Diamonds),
            Bid::ThirteenHearts => Some(Suit::Hearts),
            Bid::ThirteenSpades => Some(Suit::Spades),
            Bid::ThirteenNoTrump => None,
        }
    }

    /// The number of tricks of this bid.
    pub fn bid_number(&self) -> (r: BidNumber)
        ensures
            bid_number_index(r) == bid_index(*self) / 5,
    {
        match self {
            Bid::SixClubs => BidNumber::Six,
            Bid::SixDiamonds => BidNumber::Six,
            Bid::SixHearts => BidNumber::Six,
            Bid::SixSpades => BidNumber::Six,
            Bid::SixNoTrump => BidNumber::Six,
            Bid::SevenClubs => BidNumber::Seven,
            Bid::SevenDiamonds => BidNumber::Seven,
            Bid::SevenHearts => BidNumber::Seven,
            Bid::SevenSpades => BidNumber::Seven,
            Bid::SevenNoTrump => BidNumber::Seven,
            Bid::EightClubs => BidNumber::Eight,
            Bid::EightDiamonds => BidNumber::Eight,
            Bid::EightHearts => BidNumber::Eight,
            Bid::EightSpades => BidNumber::Eight,
            Bid::EightNoTrump => BidNumber::Eight,
            Bid::NineClubs => BidNumber::Nine,
            Bid::NineDiamonds => BidNumber::Nine,
            Bid::NineHearts => BidNumber::Nine,
            Bid::NineSpades => BidNumber::Nine,
            Bid::NineNoTrump => BidNumber::Nine,
            Bid::TenClubs => BidNumber::Ten,
            Bid::TenDiamonds => BidNumber::Ten,
            Bid::TenHearts => BidNumber::Ten,
            Bid::TenSpades => BidNumber::Ten,
            Bid::TenNoTrump => BidNumber::Ten,
            Bid::ElevenClubs => BidNumber::Eleven,
            Bid::ElevenDiamonds => BidNumber::Eleven,
            Bid::ElevenHearts => BidNumber::Eleven,
            Bid::ElevenSpades => BidNumber::Eleven,
            Bid::ElevenNoTrump => BidNumber::Eleven,
            Bid::TwelveClubs => BidNumber::Twelve,
            Bid::TwelveDiamonds => BidNumber::Twelve,
            Bid::TwelveHearts => BidNumber::Twelve,
            Bid::TwelveSpades => BidNumber::Twelve,
            Bid::TwelveNoTrump => BidNumber::Twelve,
            Bid::ThirteenClubs => BidNumber::Thirteen,
            Bid::ThirteenDiamonds => BidNumber::Thirteen,
            Bid::ThirteenHearts => BidNumber::Thirteen,
            Bid::ThirteenSpades => BidNumber::Thirteen,
            Bid::ThirteenNoTrump => BidNumber::Thirteen,
        }
    }
}

} // verus!
