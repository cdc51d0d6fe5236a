use vstd::prelude::*;

use crate::error::DeckError;

verus! {

/// One of the four suits of a standard pack.
#[derive(Copy, Clone, Debug, PartialEq, Eq, Structural)]
pub enum Suit {
    Club,
    Spade,
    Heart,
    Diamond,
}

impl Suit {
    /// The dense index of this suit, in `[0, 4)`.
    pub open spec fn idx(self) -> int {
        match self {
            Suit::Club => 0,
            Suit::Spade => 1,
            Suit::Heart => 2,
            Suit::Diamond => 3,
        }
    }

    /// The display character of this suit.
    pub open spec fn chr(self) -> char {
        match self {
            Suit::Club => 'C',
            Suit::Spade => 'S',
            Suit::Heart => 'H',
            Suit::Diamond => 'D',
        }
    }

    /// What parsing a character yields: the suit whose display character it
    /// is, case-insensitively, or `InvalidInput` for any other character.
    pub open spec fn spec_from_char(input: char) -> Result<Suit, DeckError> {
        if input == 'c' || input == 'C' {
            Ok(Suit::Club)
        } else if input == 's' || input == 'S' {
            Ok(Suit::Spade)
        } else if input == 'h' || input == 'H' {
            Ok(Suit::Heart)
        } else if input == 'd' || input == 'D' {
            Ok(Suit::Diamond)
        } else {
            Err(DeckError::InvalidInput)
        }
    }

    /// What converting an index yields: the suit with that dense index,
    /// or `InvalidInput` for an index outside `[0, 4)`.
    pub open spec fn spec_from_index(index: int) -> Result<Suit, DeckError> {
        if index == 0 {
            Ok(Suit::Club)
        } else if index == 1 {
            Ok(Suit::Spade)
        } else if index == 2 {
            Ok(Suit::Heart)
        } else if index == 3 {
            Ok(Suit::Diamond)
        } else {
            Err(DeckError::InvalidInput)
        }
    }

    pub fn to_char(&self) -> (r: char)
        ensures
            r == self.chr(),
    {
        match *self {
            Suit::Club => 'C',
            Suit::Spade => 'S',
            Suit::Heart => 'H',
            Suit::Diamond => 'D',
        }
    }

    pub fn from_char(input: char) -> (r: Result<Suit, DeckError>)
        ensures
            r == Self::spec_from_char(input),
    {
        match input {
            'c' | 'C' => Ok(Suit::Club),
            's' | 'S' => Ok(Suit::Spade),
            'h' | 'H' => Ok(Suit::Heart),
            'd' | 'D' => Ok(Suit::Diamond),
            _ => Err(DeckError::InvalidInput),
        }
    }

    pub fn index(&self) -> (r: usize)
        ensures
            r == self.idx(),
    {
        match *self {
            Suit::Club => 0,
            Suit::Spade => 1,
            Suit::Heart => 2,
            Suit::Diamond => 3,
        }
    }

    pub fn from_index(index: usize) -> (r: Result<Suit, DeckError>)
        ensures
            r == Self::spec_from_index(index as int),
    {
        match index {
            0 => Ok(Suit::Club),
            1 => Ok(Suit::Spade),
            2 => Ok(Suit::Heart),
            3 => Ok(Suit::Diamond),
            _ => Err(DeckError::InvalidInput),
        }
    }
}

/// Parsing a suit's own display character gives that suit back.
pub proof fn lemma_suit_char_roundtrip(s: Suit)
    ensures
        Suit::spec_from_char(s.chr()) == Ok::<Suit, DeckError>(s),
{
}

/// Converting a suit's own index back gives that suit, and every suit index
/// lies in `[0, 4)`.
pub proof fn lemma_suit_index_roundtrip(s: Suit)
    ensures
        Suit::spec_from_index(s.idx()) == Ok::<Suit, DeckError>(s),
        0 <= s.idx() < 4,
{
}

/// One of the thirteen ranks of a standard pack.
#[derive(Copy, Clone, Debug, PartialEq, Eq, Structural)]
pub enum Rank {
    Ace,
    Two,
    Three,
    Four,
    Five,
    Six,
    Seven,
    Eight,
    Nine,
    Ten,
    Jack,
    Queen,
    King,
}

impl Rank {
    /// The dense index of this rank, in `[0, 13)`.
    pub open spec fn idx(self) -> int {
        match self {
            Rank::Ace => 0,
            Rank::Two => 1,
            Rank::Three => 2,
            Rank::Four => 3,
            Rank::Five => 4,
            Rank::Six => 5,
            Rank::Seven => 6,
            Rank::Eight => 7,
            Rank::Nine => 8,
            Rank::Ten => 9,
            Rank::Jack => 10,
            Rank::Queen => 11,
            Rank::King => 12,
        }
    }

    /// The display character of this rank.
    pub open spec fn chr(self) -> char {
        match self {
            Rank::Ace => 'A',
            Rank::Two => '2',
            Rank::Three => '3',
            Rank::Four => '4',
            Rank::Five => '5',
            Rank::Six => '6',
            Rank::Seven => '7',
            Rank::Eight => '8',
            Rank::Nine => '9',
            Rank::Ten => 'T',
            Rank::Jack => 'J',
            Rank::Queen => 'Q',
            Rank::King => 'K',
        }
    }

    /// What parsing a character yields: the rank whose display character it
    /// is, case-insensitively, or `InvalidInput` for any other character.
    pub open spec fn spec_from_char(input: char) -> Result<Rank, DeckError> {
        if input == 'a' || input == 'A' {
            Ok(Rank::Ace)
        } else if input == '2' {
            Ok(Rank::Two)
        } else if input == '3' {
            Ok(Rank::Three)
        } else if input == '4' {
            Ok(Rank::Four)
        } else if input == '5' {
            Ok(Rank::Five)
        } else if input == '6' {
            Ok(Rank::Six)
        } else if input == '7' {
            Ok(Rank::Seven)
        } else if input == '8' {
            Ok(Rank::Eight)
        } else if input == '9' {
            Ok(Rank::Nine)
        } else if input == 't' || input == 'T' {
            Ok(Rank::Ten)
        } else if input == 'j' || input == 'J' {
            Ok(Rank::Jack)
        } else if input == 'q' || input == 'Q' {
            Ok(Rank::Queen)
        } else if input == 'k' || input == 'K' {
            Ok(Rank::King)
        } else {
            Err(DeckError::InvalidInput)
        }
    }

    /// What converting an index yields: the rank with that dense index,
    /// or `InvalidInput` for an index outside `[0, 13)`.
    pub open spec fn spec_from_index(index: int) -> Result<Rank, DeckError> {
        if index == 0 {
            Ok(Rank::Ace)
        } else if index == 1 {
            Ok(Rank::Two)
        } else if index == 2 {
            Ok(Rank::Three)
        } else if index == 3 {
            Ok(Rank::Four)
        } else if index == 4 {
            Ok(Rank::Five)
        } else if index == 5 {
            Ok(Rank::Six)
        } else if index == 6 {
            Ok(Rank::Seven)
        } else if index == 7 {
            Ok(Rank::Eight)
        } else if index == 8 {
            Ok(Rank::Nine)
        } else if index == 9 {
            Ok(Rank::Ten)
        } else if index == 10 {
            Ok(Rank::Jack)
        } else if index == 11 {
            Ok(Rank::Queen)
        } else if index == 12 {
            Ok(Rank::King)
        } else {
            Err(DeckError::InvalidInput)
        }
    }

    pub fn to_char(&self) -> (r: char)
        ensures
            r == self.chr(),
    {
        match *self {
            Rank::Ace => 'A',
            Rank::Two => '2',
            Rank::Three => '3',
            Rank::Four => '4',
            Rank::Five => '5',
            Rank::Six => '6',
            Rank::Seven => '7',
            Rank::Eight => '8',
            Rank::Nine => '9',
            Rank::Ten => 'T',
            Rank::Jack => 'J',
            Rank::Queen => 'Q',
            Rank::King => 'K',
        }
    }

    pub fn from_char(input: char) -> (r: Result<Rank, DeckError>)
        ensures
            r == Self::spec_from_char(input),
    {
        match input {
            'a' | 'A' => Ok(Rank::Ace),
            '2' => Ok(Rank::Two),
            '3' => Ok(Rank::Three),
            '4' => Ok(Rank::Four),
            '5' => Ok(Rank::Five),
            '6' => Ok(Rank::Six),
            '7' => Ok(Rank::Seven),
            '8' => Ok(Rank::Eight),
            '9' => Ok(Rank::Nine),
            't' | 'T' => Ok(Rank::Ten),
            'j' | 'J' => Ok(Rank::Jack),
            'q' | 'Q' => Ok(Rank::Queen),
            'k' | 'K' => Ok(Rank::King),
            _ => Err(DeckError::InvalidInput),
        }
    }

    pub fn index(&self) -> (r: usize)
        ensures
            r == self.idx(),
    {
        match *self {
            Rank::Ace => 0,
            Rank::Two => 1,
            Rank::Three => 2,
            Rank::Four => 3,
            Rank::Five => 4,
            Rank::Six => 5,
            Rank::Seven => 6,
            Rank::Eight => 7,
            Rank::Nine => 8,
            Rank::Ten => 9,
            Rank::Jack => 10,
            Rank::Queen => 11,
            Rank::King => 12,
        }
    }

    pub fn from_index(index: usize) -> (r: Result<Rank, DeckError>)
        ensures
            r == Self::spec_from_index(index as int),
    {
        match index {
            0 => Ok(Rank::Ace),
            1 => Ok(Rank::Two),
            2 => Ok(Rank::Three),
            3 => Ok(Rank::Four),
            4 => Ok(Rank::Five),
            5 => Ok(Rank::Six),
            6 => Ok(Rank::Seven),
            7 => Ok(Rank::Eight),
            8 => Ok(Rank::Nine),
            9 => Ok(Rank::Ten),
            10 => Ok(Rank::Jack),
            11 => Ok(Rank::Queen),
            12 => Ok(Rank::King),
            _ => Err(DeckError::InvalidInput),
        }
    }
}

/// Parsing a rank's own display character gives that rank back.
pub proof fn lemma_rank_char_roundtrip(r: Rank)
    ensures
        Rank::spec_from_char(r.chr()) == Ok::<Rank, DeckError>(r),
{
}

/// Converting a rank's own index back gives that rank, and every rank index
/// lies in `[0, 13)`.
pub proof fn lemma_rank_index_roundtrip(r: Rank)
    ensures
        Rank::spec_from_index(r.idx()) == Ok::<Rank, DeckError>(r),
        0 <= r.idx() < 13,
{
}

/// An immutable pairing of one suit and one rank.
#[derive(Copy, Clone, Debug, PartialEq, Eq, Structural)]
pub struct Card {
    pub suit: Suit,
    pub rank: Rank,
}

impl Card {
    /// The dense identity of this card, unique per (suit, rank) pair,
    /// in `[0, 52)`.
    pub open spec fn idx(self) -> int {
        self.suit.idx() * 13 + self.rank.idx()
    }

    pub fn index(&self) -> (r: usize)
        ensures
            r == self.idx(),
            0 <= r < 52,
    {
        self.suit.index() * 13 + self.rank.index()
    }
}

impl Default for Card {
    /// A placeholder value for pre-initialized storage; it carries no
    /// dealing meaning.
    fn default() -> (c: Card)
        ensures
            c == (Card { suit: Suit::Spade, rank: Rank::Ace }),
    {
        Card { suit: Suit::Spade, rank: Rank::Ace }
    }
}

/// Every card index lies in `[0, 52)`.
pub proof fn lemma_card_idx_bounds(c: Card)
    ensures
        0 <= c.idx() < 52,
{
}

/// The card index is injective: two cards with the same index are the
/// same card.
pub proof fn lemma_card_idx_injective(a: Card, b: Card)
    requires
        a.idx() == b.idx(),
    ensures
        a == b,
{
    lemma_suit_index_roundtrip(a.suit);
    lemma_suit_index_roundtrip(b.suit);
    lemma_rank_index_roundtrip(a.rank);
    lemma_rank_index_roundtrip(b.rank);
    assert(a.suit.idx() == b.suit.idx() && a.rank.idx() == b.rank.idx()) by {
        assert(0 <= a.rank.idx() < 13);
        assert(0 <= b.rank.idx() < 13);
    };
}

} // verus!
