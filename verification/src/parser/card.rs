//! Card ranks and the suitedness tag of a starting hand.

use std::cmp::Ordering;
use vstd::prelude::*;
use vstd::std_specs::cmp::PartialOrdSpecImpl;

verus! {

/// One of the thirteen card ranks.
#[derive(Debug, Clone, Copy, PartialEq, Eq, Structural)]
pub enum CardType {
    Ace,
    King,
    Queen,
    Jack,
    Ten,
    Nine,
    Eight,
    Seven,
    Six,
    Five,
    Four,
    Three,
    Two,
}

/// Whether the two cards of a hand share a suit. `Unspecified` is the tag of a
/// pair, and of a hand written without a suit letter.
#[derive(Debug, Clone, Copy, PartialEq, Eq, Structural)]
pub enum SuitedType {
    Suited,
    Offsuit,
    Unspecified,
}

impl CardType {
    /// The ranking key of a rank: 2 for `Two` up to 14 for `Ace`.
    pub open spec fn strength(self) -> int {
        match self {
            CardType::Ace => 14,
            CardType::King => 13,
            CardType::Queen => 12,
            CardType::Jack => 11,
            CardType::Ten => 10,
            CardType::Nine => 9,
            CardType::Eight => 8,
            CardType::Seven => 7,
            CardType::Six => 6,
            CardType::Five => 5,
            CardType::Four => 4,
            CardType::Three => 3,
            CardType::Two => 2,
        }
    }

    /// The character that stands for a rank in range notation.
    pub open spec fn symbol(self) -> char {
        match self {
            CardType::Ace => 'A',
            CardType::King => 'K',
            CardType::Queen => 'Q',
            CardType::Jack => 'J',
            CardType::Ten => 'T',
            CardType::Nine => '9',
            CardType::Eight => '8',
            CardType::Seven => '7',
            CardType::Six => '6',
            CardType::Five => '5',
            CardType::Four => '4',
            CardType::Three => '3',
            CardType::Two => '2',
        }
    }

    /// The rank with the given ranking key; `Two` stands in for keys outside 2..=14.
    pub open spec fn with_strength(key: int) -> CardType {
        if key == 14 {
            CardType::Ace
        } else if key == 13 {
            CardType::King
        } else if key == 12 {
            CardType::Queen
        } else if key == 11 {
            CardType::Jack
        } else if key == 10 {
            CardType::Ten
        } else if key == 9 {
            CardType::Nine
        } else if key == 8 {
            CardType::Eight
        } else if key == 7 {
            CardType::Seven
        } else if key == 6 {
            CardType::Six
        } else if key == 5 {
            CardType::Five
        } else if key == 4 {
            CardType::Four
        } else if key == 3 {
            CardType::Three
        } else {
            CardType::Two
        }
    }

    /// The character that stands for this rank in range notation.
    pub fn to_char(&self) -> (c: char)
        ensures
            c == self.symbol(),
    {
        match self {
            CardType::Ace => 'A',
            CardType::King => 'K',
            CardType::Queen => 'Q',
            CardType::Jack => 'J',
            CardType::Ten => 'T',
            CardType::Nine => '9',
            CardType::Eight => '8',
            CardType::Seven => '7',
            CardType::Six => '6',
            CardType::Five => '5',
            CardType::Four => '4',
            CardType::Three => '3',
            CardType::Two => '2',
        }
    }

    /// This rank as text: its one character.
    pub fn to_string(&self) -> (text: String)
        ensures
            text@ == seq![self.symbol()],
    {
        let mut text = String::new();
        text.push(self.to_char());
        text
    }

    /// The ranking key as a machine integer.
    pub fn value(&self) -> (key: u8)
        ensures
            key == self.strength(),
            2 <= key <= 14,
    {
        match self {
            CardType::Ace => 14,
            CardType::King => 13,
            CardType::Queen => 12,
            CardType::Jack => 11,
            CardType::Ten => 10,
            CardType::Nine => 9,
            CardType::Eight => 8,
            CardType::Seven => 7,
            CardType::Six => 6,
            CardType::Five => 5,
            CardType::Four => 4,
            CardType::Three => 3,
            CardType::Two => 2,
        }
    }

    /// The rank that a ranking key names, if it names one.
    pub fn from_value(key: u8) -> (rank: Option<CardType>)
        ensures
            rank == (if 2 <= key <= 14 {
                Some(CardType::with_strength(key as int))
            } else {
                None
            }),
    {
        match key {
            14 => Some(CardType::Ace),
            13 => Some(CardType::King),
            12 => Some(CardType::Queen),
            11 => Some(CardType::Jack),
            10 => Some(CardType::Ten),
            9 => Some(CardType::Nine),
            8 => Some(CardType::Eight),
            7 => Some(CardType::Seven),
            6 => Some(CardType::Six),
            5 => Some(CardType::Five),
            4 => Some(CardType::Four),
            3 => Some(CardType::Three),
            2 => Some(CardType::Two),
            _ => None,
        }
    }
}

impl SuitedType {
    /// What a suitedness puts behind the two ranks of a hand: `s`, `o` or nothing.
    pub open spec fn suffix(self) -> Seq<char> {
        match self {
            SuitedType::Suited => seq!['s'],
            SuitedType::Offsuit => seq!['o'],
            SuitedType::Unspecified => Seq::empty(),
        }
    }

    /// This suitedness as text: its suffix.
    pub fn to_string(&self) -> (text: String)
        ensures
            text@ == self.suffix(),
    {
        let mut text = String::new();
        match self {
            SuitedType::Suited => {
                text.push('s');
            },
            SuitedType::Offsuit => {
                text.push('o');
            },
            SuitedType::Unspecified => {},
        }
        text
    }
}

/// The ranking key determines the rank, and every key from 2 to 14 names one.
pub proof fn lemma_strength_names_rank(rank: CardType, key: int)
    ensures
        2 <= rank.strength() <= 14,
        CardType::with_strength(rank.strength()) == rank,
        2 <= key <= 14 ==> CardType::with_strength(key).strength() == key,
{
}

/// Ranks compare by their ranking keys.
impl PartialOrd for CardType {
    fn partial_cmp(&self, other: &Self) -> (r: Option<Ordering>) {
        let a: u8 = self.value();
        let b: u8 = other.value();
        if a < b {
            Some(Ordering::Less)
        } else if a == b {
            Some(Ordering::Equal)
        } else {
            Some(Ordering::Greater)
        }
    }
}

impl PartialOrdSpecImpl for CardType {
    open spec fn obeys_partial_cmp_spec() -> bool {
        true
    }

    /// Ranks are ordered by their ranking key, `Two` lowest and `Ace` highest.
    open spec fn partial_cmp_spec(&self, other: &Self) -> Option<Ordering> {
        if self.strength() < other.strength() {
            Some(Ordering::Less)
        } else if self.strength() == other.strength() {
            Some(Ordering::Equal)
        } else {
            Some(Ordering::Greater)
        }
    }
}

} // verus!
