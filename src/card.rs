use vstd::prelude::*;

verus! {

/// Suit of a card.
#[derive(Clone, Copy, PartialEq, Eq, Debug, Structural)]
pub enum Suit {
    Hearts,
    Diamonds,
    Clubs,
    Spades,
}

/// Rank of a card.
#[derive(Clone, Copy, PartialEq, Eq, Debug, Structural)]
pub enum Rank {
    Two,
    Three,
    Four,
    Five,
    Six,
    Seven,
    Eight,
    Nine,
    Ten,
    Jack,
    Queen,
    King,
    Ace,
}

/// A playing card.
#[derive(Clone, Copy, PartialEq, Eq, Debug, Structural)]
pub struct Card {
    pub suit: Suit,
    pub rank: Rank,
}

/// Blackjack value of a rank, an Ace counting 11.
pub open spec fn rank_value(r: Rank) -> nat {
    match r {
        Rank::Two => 2,
        Rank::Three => 3,
        Rank::Four => 4,
        Rank::Five => 5,
        Rank::Six => 6,
        Rank::Seven => 7,
        Rank::Eight => 8,
        Rank::Nine => 9,
        Rank::Ten | Rank::Jack | Rank::Queen | Rank::King => 10,
        Rank::Ace => 11,
    }
}

/// Two-character label of a rank and a suit ("AH" is the Ace of Hearts).
pub open spec fn rank_char(r: Rank) -> char {
    match r {
        Rank::Ace => 'A',
        Rank::King => 'K',
        Rank::Queen => 'Q',
        Rank::Jack => 'J',
        Rank::Ten => 'T',
        Rank::Nine => '9',
        Rank::Eight => '8',
        Rank::Seven => '7',
        Rank::Six => '6',
        Rank::Five => '5',
        Rank::Four => '4',
        Rank::Three => '3',
        Rank::Two => '2',
    }
}

pub open spec fn suit_char(s: Suit) -> char {
    match s {
        Suit::Hearts => 'H',
        Suit::Diamonds => 'D',
        Suit::Clubs => 'C',
        Suit::Spades => 'S',
    }
}

impl Card {
    /// Blackjack value of the card, an Ace counting 11.
    pub open spec fn value(self) -> nat {
        rank_value(self.rank)
    }

    pub open spec fn spec_is_ace(self) -> bool {
        self.rank == Rank::Ace
    }

    pub fn default_value(&self) -> (v: u8)
        ensures
            v as nat == self.value(),
            2 <= v <= 11,
    {
        match self.rank {
            Rank::Two => 2,
            Rank::Three => 3,
            Rank::Four => 4,
            Rank::Five => 5,
            Rank::Six => 6,
            Rank::Seven => 7,
            Rank::Eight => 8,
            Rank::Nine => 9,
            Rank::Ten | Rank::Jack | Rank::Queen | Rank::King => 10,
            Rank::Ace => 11,
        }
    }

    pub fn is_ace(&self) -> (b: bool)
        ensures
            b == self.spec_is_ace(),
    {
        self.rank == Rank::Ace
    }

    pub fn is_face_card(&self) -> (b: bool)
        ensures
            b == (self.rank == Rank::Jack || self.rank == Rank::Queen || self.rank == Rank::King),
    {
        match self.rank {
            Rank::Jack | Rank::Queen | Rank::King => true,
            _ => false,
        }
    }

    /// Short label of the card: rank character then suit character.
    pub fn label(&self) -> (r: (char, char))
        ensures
            r == (rank_char(self.rank), suit_char(self.suit)),
    {
        let rank_c = match self.rank {
            Rank::Ace => 'A',
            Rank::King => 'K',
            Rank::Queen => 'Q',
            Rank::Jack => 'J',
            Rank::Ten => 'T',
            Rank::Nine => '9',
            Rank::Eight => '8',
            Rank::Seven => '7',
            Rank::Six => '6',
            Rank::Five => '5',
            Rank::Four => '4',
            Rank::Three => '3',
            Rank::Two => '2',
        };
        let suit_c = match self.suit {
            Suit::Hearts => 'H',
            Suit::Diamonds => 'D',
            Suit::Clubs => 'C',
            Suit::Spades => 'S',
        };
        (rank_c, suit_c)
    }
}

} // verus!
