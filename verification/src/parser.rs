//! Range notation: cards, hands, the canonical table and the parser.

pub mod card;
pub mod error;
pub mod grammar;
pub mod hand;
pub mod line;
pub mod range;
pub mod table;
pub mod text;

pub use self::card::CardType;
pub use self::card::SuitedType;
pub use self::error::Error;
pub use self::error::ParseError;
pub use self::hand::Group;
pub use self::hand::Hand;
pub use self::hand::Relation;

use self::hand::at_least;
use self::hand::at_most;
use self::grammar::card_at;
use self::grammar::char_at;
use self::grammar::hand_at;
use self::grammar::hand_width;
use self::grammar::range_at;
use self::range::bare_hands;
use self::range::gte_filter;
use self::range::gte_hands;
use self::range::gte_list;
use self::range::lemma_gte_hands;
use self::range::lemma_lte_hands;
use self::range::lemma_ranges_within_table;
use self::range::lte_filter;
use self::range::lte_hands;
use self::range::lte_list;
use self::table::canonical_table;
use self::table::valid_hands;
use self::table::TABLE_LEN;
use self::text::chars_of;
use self::text::trimmed;
use vstd::prelude::*;

verus! {

/// The result of reading from a `Parser`.
pub type ParseResult<T> = Result<T, ParseError>;

/// A cursor over the characters of a trimmed input.
pub struct Parser {
    characters: Vec<char>,
    cursor: usize,
}

impl Parser {
    #[verifier::type_invariant]
    spec fn within_input(self) -> bool {
        self.cursor <= self.characters.len()
    }

    /// The characters that the parser reads: the input it was made from, trimmed.
    pub closed spec fn input(&self) -> Seq<char> {
        self.characters@
    }

    /// The index of the character that is read next.
    pub closed spec fn cursor(&self) -> int {
        self.cursor as int
    }

    /// The character under the cursor, if the cursor is not at the end.
    pub open spec fn current(&self) -> Option<char> {
        char_at(self.input(), self.cursor())
    }

    /// A parser at the start of `string` without the white space round it.
    pub fn new(string: &str) -> (parser: Self)
        ensures
            parser.input() == trimmed(string@),
            parser.cursor() == 0,
    {
        Self { characters: chars_of(string.trim()), cursor: 0 }
    }

    /// The character under the cursor; the cursor stays.
    pub fn peek(&self) -> (next: Option<&char>)
        ensures
            0 <= self.cursor() <= self.input().len(),
            (match next {
                Some(c) => self.current() == Some(*c),
                None => self.current() is None,
            }),
    {
        proof {
            use_type_invariant(self);
        }
        if self.cursor < self.characters.len() {
            Some(&self.characters[self.cursor])
        } else {
            None
        }
    }

    /// The character under the cursor, which then moves past it.
    pub fn pop(&mut self) -> (next: Option<&char>)
        ensures
            (match next {
                Some(c) => old(self).current() == Some(*c),
                None => old(self).current() is None,
            }),
            final(self).input() == old(self).input(),
            final(self).cursor() == old(self).cursor() + (if next is Some { 1int } else { 0 }),
            0 <= final(self).cursor() <= final(self).input().len(),
    {
        proof {
            use_type_invariant(&*self);
        }
        if self.cursor < self.characters.len() {
            self.cursor += 1;
            Some(&self.characters[self.cursor - 1])
        } else {
            None
        }
    }

    /// Whether a non-empty input has been read to its end.
    pub fn is_eof(&self) -> (done: bool)
        ensures
            done == (self.input().len() != 0 && self.cursor() == self.input().len()),
    {
        self.characters.len() != 0 && self.characters.len() == self.cursor
    }

    /// Moves past the character under the cursor if it is `target`, and says
    /// whether it did.
    pub fn next_matches(&mut self, target: char) -> (matched: bool)
        ensures
            matched == (old(self).current() == Some(target)),
            final(self).input() == old(self).input(),
            final(self).cursor() == old(self).cursor() + (if matched { 1int } else { 0 }),
            0 <= final(self).cursor() <= final(self).input().len(),
    {
        proof {
            use_type_invariant(&*self);
        }
        if self.cursor < self.characters.len() {
            if self.characters[self.cursor] == target {
                self.cursor += 1;
                return true;
            }
            false
        } else {
            false
        }
    }
}

impl Parser {
    /// Reads a range at the cursor and gives the hands it denotes: the hand
    /// there, expanded as the character behind it says. The cursor stops behind
    /// what was read of the hand.
    pub fn parse_range(&mut self) -> (hands: ParseResult<Vec<Hand>>)
        ensures
            (match hands {
                Ok(list) => range_at(old(self).input(), old(self).cursor()) == Ok::<
                    Seq<Hand>,
                    ParseError,
                >(list@),
                Err(e) => range_at(old(self).input(), old(self).cursor()) == Err::<
                    Seq<Hand>,
                    ParseError,
                >(e),
            }),
            hands matches Ok(list) ==> list.len() <= TABLE_LEN,
            final(self).input() == old(self).input(),
            final(self).cursor() == old(self).cursor() + hand_width(
                old(self).input(),
                old(self).cursor(),
            ),
            0 <= final(self).cursor() <= final(self).input().len(),
    {
        let hand = match self.parse_hand() {
            Ok(hand) => hand,
            Err(e) => {
                return Err(e);
            },
        };
        match self.peek() {
            Some(character) => {
                if *character == '+' {
                    Ok(self.get_gte_hands(&hand))
                } else if *character == '-' {
                    Ok(self.get_lte_hands(&hand))
                } else {
                    Err(ParseError::InvalidToken(*character))
                }
            },
            None => {
                if !hand.is_pair() && hand.matches_suited_type(&SuitedType::Unspecified) {
                    let mut list: Vec<Hand> = Vec::new();
                    list.push(Hand::from_hand(&hand, SuitedType::Suited));
                    list.push(Hand::from_hand(&hand, SuitedType::Offsuit));
                    assert(list@ == bare_hands(hand));
                    Ok(list)
                } else {
                    let mut list: Vec<Hand> = Vec::new();
                    list.push(hand);
                    assert(list@ == bare_hands(hand));
                    Ok(list)
                }
            },
        }
    }

    /// Reads a hand at the cursor: two cards and a suit letter if one follows,
    /// the higher rank put first. The cursor moves past what was matched, also
    /// where the second card fails.
    pub fn parse_hand(&mut self) -> (hand: ParseResult<Hand>)
        ensures
            hand == hand_at(old(self).input(), old(self).cursor()),
            final(self).input() == old(self).input(),
            final(self).cursor() == old(self).cursor() + hand_width(
                old(self).input(),
                old(self).cursor(),
            ),
            0 <= final(self).cursor() <= final(self).input().len(),
    {
        let first_card = match self.parse_card() {
            Ok(card) => card,
            Err(e) => {
                return Err(e);
            },
        };
        let second_card = match self.parse_card() {
            Ok(card) => card,
            Err(e) => {
                return Err(e);
            },
        };
        let suited_type = if self.next_matches('s') {
            SuitedType::Suited
        } else if self.next_matches('o') {
            SuitedType::Offsuit
        } else {
            SuitedType::Unspecified
        };
        if first_card.value() >= second_card.value() {
            Ok(Hand(first_card, second_card, suited_type))
        } else {
            Ok(Hand(second_card, first_card, suited_type))
        }
    }

    /// Reads a card at the cursor, which moves past it. Any other character is
    /// reported and stays under the cursor; so does the end of the input.
    pub fn parse_card(&mut self) -> (card: ParseResult<CardType>)
        ensures
            card == card_at(old(self).input(), old(self).cursor()),
            final(self).input() == old(self).input(),
            final(self).cursor() == old(self).cursor() + (if card is Ok { 1int } else { 0 }),
            0 <= final(self).cursor() <= final(self).input().len(),
    {
        if self.next_matches('A') {
            Ok(CardType::Ace)
        } else if self.next_matches('K') {
            Ok(CardType::King)
        } else if self.next_matches('Q') {
            Ok(CardType::Queen)
        } else if self.next_matches('J') {
            Ok(CardType::Jack)
        } else if self.next_matches('T') {
            Ok(CardType::Ten)
        } else if self.next_matches('9') {
            Ok(CardType::Nine)
        } else if self.next_matches('8') {
            Ok(CardType::Eight)
        } else if self.next_matches('7') {
            Ok(CardType::Seven)
        } else if self.next_matches('6') {
            Ok(CardType::Six)
        } else if self.next_matches('5') {
            Ok(CardType::Five)
        } else if self.next_matches('4') {
            Ok(CardType::Four)
        } else if self.next_matches('3') {
            Ok(CardType::Three)
        } else if self.next_matches('2') {
            Ok(CardType::Two)
        } else {
            match self.peek() {
                Some(character) => Err(ParseError::InvalidToken(*character)),
                None => Err(ParseError::EndOfLine),
            }
        }
    }

    /// The table entries at or above `hand`, in table order; for a generic
    /// hand, those at or above its suited or its offsuit form. `gte_list` writes
    /// them out.
    pub fn get_gte_hands(&self, hand: &Hand) -> (hands: Vec<Hand>)
        ensures
            hands@ == gte_hands(*hand),
            hands@ == gte_list(*hand),
            hands.len() <= TABLE_LEN,
    {
        proof {
            lemma_gte_hands(*hand);
            lemma_ranges_within_table(*hand);
        }
        let table = valid_hands();
        let generic = hand.matches_suited_type(&SuitedType::Unspecified) && !hand.is_pair();
        let suited_hand = Hand::from_hand(hand, SuitedType::Suited);
        let offsuit_hand = Hand::from_hand(hand, SuitedType::Offsuit);
        let mut hands: Vec<Hand> = Vec::new();
        let mut i: usize = 0;
        while i < table.len()
            invariant
                i <= table.len(),
                table@ == canonical_table(),
                generic == hand.generic(),
                suited_hand == hand.with_suit(SuitedType::Suited),
                offsuit_hand == hand.with_suit(SuitedType::Offsuit),
                hands@ == table@.take(i as int).filter(gte_filter(*hand)),
            decreases table.len() - i,
        {
            let entry = table[i];
            let selected = if generic {
                is_at_least(&entry, &suited_hand) || is_at_least(&entry, &offsuit_hand)
            } else {
                is_at_least(&entry, hand)
            };
            if selected {
                hands.push(entry);
            }
            proof {
                reveal(Seq::filter);
                assert(table@.take(i + 1).drop_last() == table@.take(i as int));
                assert(selected == gte_filter(*hand)(entry));
            }
            i += 1;
        }
        assert(table@.take(i as int) == table@);
        hands
    }

    /// The table entries at or below `hand` and of its suitedness, in table
    /// order; for a generic hand, those at or below its suited or its offsuit
    /// form. `lte_list` writes them out.
    pub fn get_lte_hands(&self, hand: &Hand) -> (hands: Vec<Hand>)
        ensures
            hands@ == lte_hands(*hand),
            hands@ == lte_list(*hand),
            hands.len() <= TABLE_LEN,
    {
        proof {
            lemma_lte_hands(*hand);
            lemma_ranges_within_table(*hand);
        }
        let table = valid_hands();
        let generic = hand.matches_suited_type(&SuitedType::Unspecified) && !hand.is_pair();
        let suited_hand = Hand::from_hand(hand, SuitedType::Suited);
        let offsuit_hand = Hand::from_hand(hand, SuitedType::Offsuit);
        let mut hands: Vec<Hand> = Vec::new();
        let mut i: usize = 0;
        while i < table.len()
            invariant
                i <= table.len(),
                table@ == canonical_table(),
                generic == hand.generic(),
                suited_hand == hand.with_suit(SuitedType::Suited),
                offsuit_hand == hand.with_suit(SuitedType::Offsuit),
                hands@ == table@.take(i as int).filter(lte_filter(*hand)),
            decreases table.len() - i,
        {
            let entry = table[i];
            let selected = if generic {
                is_at_most(&entry, &suited_hand) || is_at_most(&entry, &offsuit_hand)
            } else {
                is_at_most(&entry, hand) && entry.matches_suited_type(hand.suited_type())
            };
            if selected {
                hands.push(entry);
            }
            proof {
                reveal(Seq::filter);
                assert(table@.take(i + 1).drop_last() == table@.take(i as int));
                assert(selected == lte_filter(*hand)(entry));
            }
            i += 1;
        }
        assert(table@.take(i as int) == table@);
        hands
    }
}

/// Whether `a` is at or above `b` under the partial order.
pub fn is_at_least(a: &Hand, b: &Hand) -> (holds: bool)
    ensures
        holds == at_least(*a, *b),
{
    match a.relation(b) {
        Relation::Greater => true,
        Relation::Equal => true,
        _ => false,
    }
}

/// Whether `a` is at or below `b` under the partial order.
pub fn is_at_most(a: &Hand, b: &Hand) -> (holds: bool)
    ensures
        holds == at_most(*a, *b),
{
    match a.relation(b) {
        Relation::Less => true,
        Relation::Equal => true,
        _ => false,
    }
}

} // verus!
