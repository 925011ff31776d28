use vstd::prelude::*;

verus! {

/// The four traditional playing card suits, ordered Clubs < Diamonds < Hearts < Spades.
#[derive(Clone, Copy, Debug, PartialEq, Eq, Structural, Hash)]
pub enum Suit {
    Clubs,
    Diamonds,
    Hearts,
    Spades,
}

/// The standard playing card ranks, with Aces high.
#[derive(Clone, Copy, Debug, PartialEq, Eq, Structural, Hash)]
pub enum Rank {
    Two,
    Three,
    Four,
    Five,
    Six,
    Seven,
    Eight,
    Nine,
    Ten,
    Jack,
    Queen,
    King,
    Ace,
}

/// One of the 52 standard playing cards, ordered by suit first and then by rank.
///
/// Each card has a dense index in `0..52` (`13 * suit + rank`), which lets a set
/// of cards live in the low bits of a single machine word.
#[derive(Clone, Copy, Debug, PartialEq, Eq, Structural, Hash)]
pub enum Card {
    TwoOfClubs,
    ThreeOfClubs,
    FourOfClubs,
    FiveOfClubs,
    SixOfClubs,
    SevenOfClubs,
    EightOfClubs,
    NineOfClubs,
    TenOfClubs,
    JackOfClubs,
    QueenOfClubs,
    KingOfClubs,
    AceOfClubs,
    TwoOfDiamonds,
    ThreeOfDiamonds,
    FourOfDiamonds,
    FiveOfDiamonds,
    SixOfDiamonds,
    SevenOfDiamonds,
    EightOfDiamonds,
    NineOfDiamonds,
    TenOfDiamonds,
    JackOfDiamonds,
    QueenOfDiamonds,
    KingOfDiamonds,
    AceOfDiamonds,
    TwoOfHearts,
    ThreeOfHearts,
    FourOfHearts,
    FiveOfHearts,
    SixOfHearts,
    SevenOfHearts,
    EightOfHearts,
    NineOfHearts,
    TenOfHearts,
    JackOfHearts,
    QueenOfHearts,
    KingOfHearts,
    AceOfHearts,
    TwoOfSpades,
    ThreeOfSpades,
    FourOfSpades,
    FiveOfSpades,
    SixOfSpades,
    SevenOfSpades,
    EightOfSpades,
    NineOfSpades,
    TenOfSpades,
    JackOfSpades,
    QueenOfSpades,
    KingOfSpades,
    AceOfSpades,
}

/// One of the four seats at the table, in turn order User, West, North, East.
#[derive(Clone, Copy, Debug, PartialEq, Eq, Structural, Hash)]
pub enum PlayerName {
    User,
    West,
    North,
    East,
}

/// Position of a suit in the order Clubs < Diamonds < Hearts < Spades.
pub open spec fn suit_index(s: Suit) -> nat {
    match s {
        Suit::Clubs => 0,
        Suit::Diamonds => 1,
        Suit::Hearts => 2,
        Suit::Spades => 3,
    }
}

/// Position of a rank in the order Two < ... < Ace.
pub open spec fn rank_index(r: Rank) -> nat {
    match r {
        Rank::Two => 0,
        Rank::Three => 1,
        Rank::Four => 2,
        Rank::Five => 3,
        Rank::Six => 4,
        Rank::Seven => 5,
        Rank::Eight => 6,
        Rank::Nine => 7,
        Rank::Ten => 8,
        Rank::Jack => 9,
        Rank::Queen => 10,
        Rank::King => 11,
        Rank::Ace => 12,
    }
}

/// The dense index of a card: `13 * suit_index + rank_index`.
pub open spec fn card_index(c: Card) -> nat {
    match c {
        Card::TwoOfClubs => 0,
        Card::ThreeOfClubs => 1,
        Card::FourOfClubs => 2,
        Card::FiveOfClubs => 3,
        Card::SixOfClubs => 4,
        Card::SevenOfClubs => 5,
        Card::EightOfClubs => 6,
        Card::NineOfClubs => 7,
        Card::TenOfClubs => 8,
        Card::JackOfClubs => 9,
        Card::QueenOfClubs => 10,
        Card::KingOfClubs => 11,
        Card::AceOfClubs => 12,
        Card::TwoOfDiamonds => 13,
        Card::ThreeOfDiamonds => 14,
        Card::FourOfDiamonds => 15,
        Card::FiveOfDiamonds => 16,
        Card::SixOfDiamonds => 17,
        Card::SevenOfDiamonds => 18,
        Card::EightOfDiamonds => 19,
        Card::NineOfDiamonds => 20,
        Card::TenOfDiamonds => 21,
        Card::JackOfDiamonds => 22,
        Card::QueenOfDiamonds => 23,
        Card::KingOfDiamonds => 24,
        Card::AceOfDiamonds => 25,
        Card::TwoOfHearts => 26,
        Card::ThreeOfHearts => 27,
        Card::FourOfHearts => 28,
        Card::FiveOfHearts => 29,
        Card::SixOfHearts => 30,
        Card::SevenOfHearts => 31,
        Card::EightOfHearts => 32,
        Card::NineOfHearts => 33,
        Card::TenOfHearts => 34,
        Card::JackOfHearts => 35,
        Card::QueenOfHearts => 36,
        Card::KingOfHearts => 37,
        Card::AceOfHearts => 38,
        Card::TwoOfSpades => 39,
        Card::ThreeOfSpades => 40,
        Card::FourOfSpades => 41,
        Card::FiveOfSpades => 42,
        Card::SixOfSpades => 43,
        Card::SevenOfSpades => 44,
        Card::EightOfSpades => 45,
        Card::NineOfSpades => 46,
        Card::TenOfSpades => 47,
        Card::JackOfSpades => 48,
        Card::QueenOfSpades => 49,
        Card::KingOfSpades => 50,
        Card::AceOfSpades => 51,
    }
}

/// The suit at a given position (positions past the last map to Spades).
pub open spec fn suit_at(i: nat) -> Suit {
    if i == 0 {
        Suit::Clubs
    } else if i == 1 {
        Suit::Diamonds
    } else if i == 2 {
        Suit::Hearts
    } else {
        Suit::Spades
    }
}

/// The rank at a given position (positions past the last map to Ace).
pub open spec fn rank_at(i: nat) -> Rank {
    if i == 0 {
        Rank::Two
    } else if i == 1 {
        Rank::Three
    } else if i == 2 {
        Rank::Four
    } else if i == 3 {
        Rank::Five
    } else if i == 4 {
        Rank::Six
    } else if i == 5 {
        Rank::Seven
    } else if i == 6 {
        Rank::Eight
    } else if i == 7 {
        Rank::Nine
    } else if i == 8 {
        Rank::Ten
    } else if i == 9 {
        Rank::Jack
    } else if i == 10 {
        Rank::Queen
    } else if i == 11 {
        Rank::King
    } else {
        Rank::Ace
    }
}

/// The card with a given dense index (indices past the last map to the Ace of Spades).
pub open spec fn card_at(i: nat) -> Card {
    if i == 0 {
        Card::TwoOfClubs
    } else if i == 1 {
        Card::ThreeOfClubs
    } else if i == 2 {
        Card::FourOfClubs
    } else if i == 3 {
        Card::FiveOfClubs
    } else if i == 4 {
        Card::SixOfClubs
    } else if i == 5 {
        Card::SevenOfClubs
    } else if i == 6 {
        Card::EightOfClubs
    } else if i == 7 {
        Card::NineOfClubs
    } else if i == 8 {
        Card::TenOfClubs
    } else if i == 9 {
        Card::JackOfClubs
    } else if i == 10 {
        Card::QueenOfClubs
    } else if i == 11 {
        Card::KingOfClubs
    } else if i == 12 {
        Card::AceOfClubs
    } else if i == 13 {
        Card::TwoOfDiamonds
    } else if i == 14 {
        Card::ThreeOfDiamonds
    } else if i == 15 {
        Card::FourOfDiamonds
    } else if i == 16 {
        Card::FiveOfDiamonds
    } else if i == 17 {
        Card::SixOfDiamonds
    } else if i == 18 {
        Card::SevenOfDiamonds
    } else if i == 19 {
        Card::EightOfDiamonds
    } else if i == 20 {
        Card::NineOfDiamonds
    } else if i == 21 {
        Card::TenOfDiamonds
    } else if i == 22 {
        Card::JackOfDiamonds
    } else if i == 23 {
        Card::QueenOfDiamonds
    } else if i == 24 {
        Card::KingOfDiamonds
    } else if i == 25 {
        Card::AceOfDiamonds
    } else if i == 26 {
        Card::TwoOfHearts
    } else if i == 27 {
        Card::ThreeOfHearts
    } else if i == 28 {
        Card::FourOfHearts
    } else if i == 29 {
        Card::FiveOfHearts
    } else if i == 30 {
        Card::SixOfHearts
    } else if i == 31 {
        Card::SevenOfHearts
    } else if i == 32 {
        Card::EightOfHearts
    } else if i == 33 {
        Card::NineOfHearts
    } else if i == 34 {
        Card::TenOfHearts
    } else if i == 35 {
        Card::JackOfHearts
    } else if i == 36 {
        Card::QueenOfHearts
    } else if i == 37 {
        Card::KingOfHearts
    } else if i == 38 {
        Card::AceOfHearts
    } else if i == 39 {
        Card::TwoOfSpades
    } else if i == 40 {
        Card::ThreeOfSpades
    } else if i == 41 {
        Card::FourOfSpades
    } else if i == 42 {
        Card::FiveOfSpades
    } else if i == 43 {
        Card::SixOfSpades
    } else if i == 44 {
        Card::SevenOfSpades
    } else if i == 45 {
        Card::EightOfSpades
    } else if i == 46 {
        Card::NineOfSpades
    } else if i == 47 {
        Card::TenOfSpades
    } else if i == 48 {
        Card::JackOfSpades
    } else if i == 49 {
        Card::QueenOfSpades
    } else if i == 50 {
        Card::KingOfSpades
    } else {
        Card::AceOfSpades
    }
}

/// The suit of a card.
pub open spec fn card_suit(c: Card) -> Suit {
    suit_at(card_index(c) / 13)
}

/// The rank of a card.
pub open spec fn card_rank(c: Card) -> Rank {
    rank_at(card_index(c) % 13)
}

/// Position of a seat in turn order.
pub open spec fn player_index(p: PlayerName) -> nat {
    match p {
        PlayerName::User => 0,
        PlayerName::West => 1,
        PlayerName::North => 2,
        PlayerName::East => 3,
    }
}

/// The seat at a position in turn order, counted modulo four.
pub open spec fn player_at(i: nat) -> PlayerName {
    if i % 4 == 0 {
        PlayerName::User
    } else if i % 4 == 1 {
        PlayerName::West
    } else if i % 4 == 2 {
        PlayerName::North
    } else {
        PlayerName::East
    }
}

/// The seat `k` places after `p` in turn order.
pub open spec fn advance(p: PlayerName, k: nat) -> PlayerName {
    player_at(player_index(p) + k)
}

/// How many places after `from` the seat `to` sits in turn order, in `0..4`.
pub open spec fn seat_offset(from: PlayerName, to: PlayerName) -> nat {
    ((player_index(to) + 4 - player_index(from)) % 4) as nat
}

/// Every card index lies below 52 and names the card back.
pub proof fn lemma_card_index(c: Card)
    ensures
        card_index(c) < 52,
        card_at(card_index(c)) == c,
        card_index(c) == 13 * suit_index(card_suit(c)) + rank_index(card_rank(c)),
{
}

/// A card is determined by its index.
pub proof fn lemma_card_index_injective(a: Card, b: Card)
    ensures
        card_index(a) == card_index(b) <==> a == b,
{
    lemma_card_index(a);
    lemma_card_index(b);
}

/// Every index below 52 names a card whose index it is.
pub proof fn lemma_card_at(i: nat)
    requires
        i < 52,
    ensures
        card_index(card_at(i)) == i,
{
}

/// Facts about seats and turn order.
pub proof fn lemma_seats(p: PlayerName, q: PlayerName, k: nat)
    ensures
        player_index(p) < 4,
        player_at(player_index(p)) == p,
        player_index(player_at(k)) == k % 4,
        advance(p, 0) == p,
        advance(advance(p, k), 1) == advance(p, k + 1),
        seat_offset(p, advance(p, k)) == k % 4,
        advance(p, seat_offset(p, q)) == q,
        seat_offset(p, q) < 4,
        seat_offset(p, q) == 0 <==> p == q,
{
}

impl Suit {
    /// Position of this suit in suit order.
    pub fn index(&self) -> (r: u8)
        ensures
            r as nat == suit_index(*self),
    {
        match self {
            Suit::Clubs => 0,
            Suit::Diamonds => 1,
            Suit::Hearts => 2,
            Suit::Spades => 3,
        }
    }

    /// The suit at position `i` of suit order.
    pub fn from_index(i: u8) -> (r: Suit)
        requires
            i < 4,
        ensures
            suit_index(r) == i,
            r == suit_at(i as nat),
    {
        if i == 0 {
            Suit::Clubs
        } else if i == 1 {
            Suit::Diamonds
        } else if i == 2 {
            Suit::Hearts
        } else {
            Suit::Spades
        }
    }
}

impl Rank {
    /// Position of this rank in rank order.
    pub fn index(&self) -> (r: u8)
        ensures
            r as nat == rank_index(*self),
    {
        match self {
            Rank::Two => 0,
            Rank::Three => 1,
            Rank::Four => 2,
            Rank::Five => 3,
            Rank::Six => 4,
            Rank::Seven => 5,
            Rank::Eight => 6,
            Rank::Nine => 7,
            Rank::Ten => 8,
            Rank::Jack => 9,
            Rank::Queen => 10,
            Rank::King => 11,
            Rank::Ace => 12,
        }
    }

    /// The rank at position `i` of rank order.
    pub fn from_index(i: u8) -> (r: Rank)
        requires
            i < 13,
        ensures
            rank_index(r) == i,
            r == rank_at(i as nat),
    {
        if i == 0 {
            Rank::Two
        } else if i == 1 {
            Rank::Three
        } else if i == 2 {
            Rank::Four
        } else if i == 3 {
            Rank::Five
        } else if i == 4 {
            Rank::Six
        } else if i == 5 {
            Rank::Seven
        } else if i == 6 {
            Rank::Eight
        } else if i == 7 {
            Rank::Nine
        } else if i == 8 {
            Rank::Ten
        } else if i == 9 {
            Rank::Jack
        } else if i == 10 {
            Rank::Queen
        } else if i == 11 {
            Rank::King
        } else {
            Rank::Ace
        }
    }
}

impl Card {
    /// The suit of this card.
    pub fn suit(&self) -> (r: Suit)
        ensures
            r == card_suit(*self),
            suit_index(r) == card_index(*self) / 13,
    {
        match self {
            Card::TwoOfClubs => Suit::Clubs,
            Card::ThreeOfClubs => Suit::Clubs,
            Card::FourOfClubs => Suit::Clubs,
            Card::FiveOfClubs => Suit::Clubs,
            Card::SixOfClubs => Suit::Clubs,
            Card::SevenOfClubs => Suit::Clubs,
            Card::EightOfClubs => Suit::Clubs,
            Card::NineOfClubs => Suit::Clubs,
            Card::TenOfClubs => Suit::Clubs,
            Card::JackOfClubs => Suit::Clubs,
            Card::QueenOfClubs => Suit::Clubs,
            Card::KingOfClubs => Suit::Clubs,
            Card::AceOfClubs => Suit::Clubs,
            Card::TwoOfDiamonds => Suit::Diamonds,
            Card::ThreeOfDiamonds => Suit::Diamonds,
            Card::FourOfDiamonds => Suit::Diamonds,
            Card::FiveOfDiamonds => Suit::Diamonds,
            Card::SixOfDiamonds => Suit::Diamonds,
            Card::SevenOfDiamonds => Suit::Diamonds,
            Card::EightOfDiamonds => Suit::Diamonds,
            Card::NineOfDiamonds => Suit::Diamonds,
            Card::TenOfDiamonds => Suit::Diamonds,
            Card::JackOfDiamonds => Suit::Diamonds,
            Card::QueenOfDiamonds => Suit::Diamonds,
            Card::KingOfDiamonds => Suit::Diamonds,
            Card::AceOfDiamonds => Suit::Diamonds,
            Card::TwoOfHearts => Suit::Hearts,
            Card::ThreeOfHearts => Suit::Hearts,
            Card::FourOfHearts => Suit::Hearts,
            Card::FiveOfHearts => Suit::Hearts,
            Card::SixOfHearts => Suit::Hearts,
            Card::SevenOfHearts => Suit::Hearts,
            Card::EightOfHearts => Suit::Hearts,
            Card::NineOfHearts => Suit::Hearts,
            Card::TenOfHearts => Suit::Hearts,
            Card::JackOfHearts => Suit::Hearts,
            Card::QueenOfHearts => Suit::Hearts,
            Card::KingOfHearts => Suit::Hearts,
            Card::AceOfHearts => Suit::Hearts,
            Card::TwoOfSpades => Suit::Spades,
            Card::ThreeOfSpades => Suit::Spades,
            Card::FourOfSpades => Suit::Spades,
            Card::FiveOfSpades => Suit::Spades,
            Card::SixOfSpades => Suit::Spades,
            Card::SevenOfSpades => Suit::Spades,
            Card::EightOfSpades => Suit::Spades,
            Card::NineOfSpades => Suit::Spades,
            Card::TenOfSpades => Suit::Spades,
            Card::JackOfSpades => Suit::Spades,
            Card::QueenOfSpades => Suit::Spades,
            Card::KingOfSpades => Suit::Spades,
            Card::AceOfSpades => Suit::Spades,
        }
    }

    /// The rank of this card.
    pub fn rank(&self) -> (r: Rank)
        ensures
            r == card_rank(*self),
            rank_index(r) == card_index(*self) % 13,
    {
        match self {
            Card::TwoOfClubs => Rank::Two,
            Card::ThreeOfClubs => Rank::Three,
            Card::FourOfClubs => Rank::Four,
            Card::FiveOfClubs => Rank::Five,
            Card::SixOfClubs => Rank::Six,
            Card::SevenOfClubs => Rank::Seven,
            Card::EightOfClubs => Rank::Eight,
            Card::NineOfClubs => Rank::Nine,
            Card::TenOfClubs => Rank::Ten,
            Card::JackOfClubs => Rank::Jack,
            Card::QueenOfClubs => Rank::Queen,
            Card::KingOfClubs => Rank::King,
            Card::AceOfClubs => Rank::Ace,
            Card::TwoOfDiamonds => Rank::Two,
            Card::ThreeOfDiamonds => Rank::Three,
            Card::FourOfDiamonds => Rank::Four,
            Card::FiveOfDiamonds => Rank::Five,
            Card::SixOfDiamonds => Rank::Six,
            Card::SevenOfDiamonds => Rank::Seven,
            Card::EightOfDiamonds => Rank::Eight,
            Card::NineOfDiamonds => Rank::Nine,
            Card::TenOfDiamonds => Rank::Ten,
            Card::JackOfDiamonds => Rank::Jack,
            Card::QueenOfDiamonds => Rank::Queen,
            Card::KingOfDiamonds => Rank::King,
            Card::AceOfDiamonds => Rank::Ace,
            Card::TwoOfHearts => Rank::Two,
            Card::ThreeOfHearts => Rank::Three,
            Card::FourOfHearts => Rank::Four,
            Card::FiveOfHearts => Rank::Five,
            Card::SixOfHearts => Rank::Six,
            Card::SevenOfHearts => Rank::Seven,
            Card::EightOfHearts => Rank::Eight,
            Card::NineOfHearts => Rank::Nine,
            Card::TenOfHearts => Rank::Ten,
            Card::JackOfHearts => Rank::Jack,
            Card::QueenOfHearts => Rank::Queen,
            Card::KingOfHearts => Rank::King,
            Card::AceOfHearts => Rank::Ace,
            Card::TwoOfSpades => Rank::Two,
            Card::ThreeOfSpades => Rank::Three,
            Card::FourOfSpades => Rank::Four,
            Card::FiveOfSpades => Rank::Five,
            Card::SixOfSpades => Rank::Six,
            Card::SevenOfSpades => Rank::Seven,
            Card::EightOfSpades => Rank::Eight,
            Card::NineOfSpades => Rank::Nine,
            Card::TenOfSpades => Rank::Ten,
            Card::JackOfSpades => Rank::Jack,
            Card::QueenOfSpades => Rank::Queen,
            Card::KingOfSpades => Rank::King,
            Card::AceOfSpades => Rank::Ace,
        }
    }

    /// The card of the given suit and rank.
    pub fn new(suit: Suit, rank: Rank) -> (r: Card)
        ensures
            card_index(r) == 13 * suit_index(suit) + rank_index(rank),
            card_suit(r) == suit,
            card_rank(r) == rank,
    {
        match suit {
            Suit::Clubs => match rank {
                Rank::Two => Card::TwoOfClubs,
                Rank::Three => Card::ThreeOfClubs,
                Rank::Four => Card::FourOfClubs,
                Rank::Five => Card::FiveOfClubs,
                Rank::Six => Card::SixOfClubs,
                Rank::Seven => Card::SevenOfClubs,
                Rank::Eight => Card::EightOfClubs,
                Rank::Nine => Card::NineOfClubs,
                Rank::Ten => Card::TenOfClubs,
                Rank::Jack => Card::JackOfClubs,
                Rank::Queen => Card::QueenOfClubs,
                Rank::King => Card::KingOfClubs,
                Rank::Ace => Card::AceOfClubs,
            },
            Suit::Diamonds => match rank {
                Rank::Two => Card::TwoOfDiamonds,
                Rank::Three => Card::ThreeOfDiamonds,
                Rank::Four => Card::FourOfDiamonds,
                Rank::Five => Card::FiveOfDiamonds,
                Rank::Six => Card::SixOfDiamonds,
                Rank::Seven => Card::SevenOfDiamonds,
                Rank::Eight => Card::EightOfDiamonds,
                Rank::Nine => Card::NineOfDiamonds,
                Rank::Ten => Card::TenOfDiamonds,
                Rank::Jack => Card::JackOfDiamonds,
                Rank::Queen => Card::QueenOfDiamonds,
                Rank::King => Card::KingOfDiamonds,
                Rank::Ace => Card::AceOfDiamonds,
            },
            Suit::Hearts => match rank {
                Rank::Two => Card::TwoOfHearts,
                Rank::Three => Card::ThreeOfHearts,
                Rank::Four => Card::FourOfHearts,
                Rank::Five => Card::FiveOfHearts,
                Rank::Six => Card::SixOfHearts,
                Rank::Seven => Card::SevenOfHearts,
                Rank::Eight => Card::EightOfHearts,
                Rank::Nine => Card::NineOfHearts,
                Rank::Ten => Card::TenOfHearts,
                Rank::Jack => Card::JackOfHearts,
                Rank::Queen => Card::QueenOfHearts,
                Rank::King => Card::KingOfHearts,
                Rank::Ace => Card::AceOfHearts,
            },
            Suit::Spades => match rank {
                Rank::Two => Card::TwoOfSpades,
                Rank::Three => Card::ThreeOfSpades,
                Rank::Four => Card::FourOfSpades,
                Rank::Five => Card::FiveOfSpades,
                Rank::Six => Card::SixOfSpades,
                Rank::Seven => Card::SevenOfSpades,
                Rank::Eight => Card::EightOfSpades,
                Rank::Nine => Card::NineOfSpades,
                Rank::Ten => Card::TenOfSpades,
                Rank::Jack => Card::JackOfSpades,
                Rank::Queen => Card::QueenOfSpades,
                Rank::King => Card::KingOfSpades,
                Rank::Ace => Card::AceOfSpades,
            },
        }
    }

    /// The dense index of this card.
    pub fn index(&self) -> (r: u8)
        ensures
            r as nat == card_index(*self),
            r < 52,
    {
        let s = self.suit().index();
        let k = self.rank().index();
        13 * s + k
    }

    /// The card with dense index `i`.
    pub fn from_index(i: u8) -> (r: Card)
        requires
            i < 52,
        ensures
            card_index(r) == i,
            r == card_at(i as nat),
    {
        let r = Card::new(Suit::from_index(i / 13), Rank::from_index(i % 13));
        proof {
            lemma_card_at(i as nat);
            lemma_card_index_injective(r, card_at(i as nat));
        }
        r
    }
}

impl PlayerName {
    /// Returns true for the human player's seat.
    pub fn is_user(&self) -> (r: bool)
        ensures
            r <==> *self == PlayerName::User,
    {
        *self == PlayerName::User
    }

    /// Returns the next seat in turn order after this one.
    pub fn next(&self) -> (r: PlayerName)
        ensures
            r == advance(*self, 1),
    {
        match self {
            PlayerName::User => PlayerName::West,
            PlayerName::West => PlayerName::North,
            PlayerName::North => PlayerName::East,
            PlayerName::East => PlayerName::User,
        }
    }

    /// Returns true if this seat is played by an AI agent.
    pub fn is_agent(&self) -> (r: bool)
        ensures
            r <==> *self != PlayerName::User,
    {
        *self != PlayerName::User
    }

    /// Position of this seat in turn order.
    pub fn index(&self) -> (r: u8)
        ensures
            r as nat == player_index(*self),
    {
        match self {
            PlayerName::User => 0,
            PlayerName::West => 1,
            PlayerName::North => 2,
            PlayerName::East => 3,
        }
    }
}

/// All four seats in turn order, starting with the user.
pub fn all_players() -> (r: Vec<PlayerName>)
    ensures
        r@.len() == 4,
        forall|i: int| 0 <= i < 4 ==> #[trigger] r@[i] == player_at(i as nat),
{
    vec![PlayerName::User, PlayerName::West, PlayerName::North, PlayerName::East]
}

} // verus!
