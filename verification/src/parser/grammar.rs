//! The grammar of range notation, as functions on the characters of the input.
//!
//! ```text
//! range := hand ( '+' | '-' )?
//! hand  := card card suit?
//! card  := 'A' | 'K' | 'Q' | 'J' | 'T' | '9' | '8' | '7' | '6' | '5' | '4' | '3' | '2'
//! suit  := 's' | 'o'
//! ```

use vstd::prelude::*;
use crate::parser::card::CardType;
use crate::parser::card::SuitedType;
use crate::parser::error::ParseError;
use crate::parser::hand::Hand;
use crate::parser::range::bare_hands;
use crate::parser::range::gte_hands;
use crate::parser::range::lte_hands;
use crate::parser::table::canonical_table;
use crate::parser::table::lemma_table_entries_wellformed;
use crate::parser::text::is_white_space;
use crate::parser::text::lemma_trimmed_keeps;
use crate::parser::text::trimmed;

verus! {

/// The rank that a character stands for.
pub open spec fn card_of(c: char) -> Option<CardType> {
    if c == 'A' {
        Some(CardType::Ace)
    } else if c == 'K' {
        Some(CardType::King)
    } else if c == 'Q' {
        Some(CardType::Queen)
    } else if c == 'J' {
        Some(CardType::Jack)
    } else if c == 'T' {
        Some(CardType::Ten)
    } else if c == '9' {
        Some(CardType::Nine)
    } else if c == '8' {
        Some(CardType::Eight)
    } else if c == '7' {
        Some(CardType::Seven)
    } else if c == '6' {
        Some(CardType::Six)
    } else if c == '5' {
        Some(CardType::Five)
    } else if c == '4' {
        Some(CardType::Four)
    } else if c == '3' {
        Some(CardType::Three)
    } else if c == '2' {
        Some(CardType::Two)
    } else {
        None
    }
}

/// The character at index `at`, if the input reaches that far.
pub open spec fn char_at(input: Seq<char>, at: int) -> Option<char> {
    if 0 <= at < input.len() {
        Some(input[at])
    } else {
        None
    }
}

/// The card read at index `at`.
pub open spec fn card_at(input: Seq<char>, at: int) -> Result<CardType, ParseError> {
    match char_at(input, at) {
        None => Err(ParseError::EndOfLine),
        Some(c) => match card_of(c) {
            Some(card) => Ok(card),
            None => Err(ParseError::InvalidToken(c)),
        },
    }
}

/// The suitedness read at index `at`: that of the suit letter there, or
/// `Unspecified` where there is none.
pub open spec fn suit_at(input: Seq<char>, at: int) -> SuitedType {
    if char_at(input, at) == Some('s') {
        SuitedType::Suited
    } else if char_at(input, at) == Some('o') {
        SuitedType::Offsuit
    } else {
        SuitedType::Unspecified
    }
}

/// The hand of two ranks with the higher one first.
pub open spec fn ordered(first: CardType, second: CardType, suited_type: SuitedType) -> Hand {
    if first.strength() >= second.strength() {
        Hand(first, second, suited_type)
    } else {
        Hand(second, first, suited_type)
    }
}

/// The hand read at index `at`: two cards and what `suit_at` finds behind them.
pub open spec fn hand_at(input: Seq<char>, at: int) -> Result<Hand, ParseError> {
    match card_at(input, at) {
        Err(e) => Err(e),
        Ok(first) => match card_at(input, at + 1) {
            Err(e) => Err(e),
            Ok(second) => Ok(ordered(first, second, suit_at(input, at + 2))),
        },
    }
}

/// How many characters reading a hand at index `at` takes up: what was matched
/// before it ended or failed.
pub open spec fn hand_width(input: Seq<char>, at: int) -> int {
    if card_at(input, at) is Err {
        0
    } else if card_at(input, at + 1) is Err {
        1
    } else if suit_at(input, at + 2) is Unspecified {
        2
    } else {
        3
    }
}

/// The hands that the range read at index `at` denotes: the hand there, expanded
/// as the character behind it says. Whatever follows a `+` or `-` is not looked at.
pub open spec fn range_at(input: Seq<char>, at: int) -> Result<Seq<Hand>, ParseError> {
    match hand_at(input, at) {
        Err(e) => Err(e),
        Ok(hand) => match char_at(input, at + hand_width(input, at)) {
            None => Ok(bare_hands(hand)),
            Some(c) => if c == '+' {
                Ok(gte_hands(hand))
            } else if c == '-' {
                Ok(lte_hands(hand))
            } else {
                Err(ParseError::InvalidToken(c))
            },
        },
    }
}

/// The character of a rank stands for that rank.
pub proof fn lemma_symbol_round_trip(card: CardType)
    ensures
        card_of(card.symbol()) == Some(card),
        !is_white_space(card.symbol()),
{
}

/// Writing an entry of the canonical table in range notation and reading it
/// back gives the entry: the text has no white space to trim, the hand read at
/// its start is the entry and takes up the whole text, and read as a range the
/// text denotes the entry alone.
pub proof fn lemma_notation_round_trip(hand: Hand)
    requires
        canonical_table().contains(hand),
    ensures
        trimmed(hand.notation()) == hand.notation(),
        hand_at(hand.notation(), 0) == Ok::<Hand, ParseError>(hand),
        hand_width(hand.notation(), 0) == hand.notation().len(),
        range_at(hand.notation(), 0) == Ok::<Seq<Hand>, ParseError>(seq![hand]),
{
    lemma_table_entries_wellformed();
    assert(hand.canonical());
    lemma_symbol_round_trip(hand.0);
    lemma_symbol_round_trip(hand.1);
    let text = hand.notation();
    assert(text[0] == hand.0.symbol());
    assert(text[1] == hand.1.symbol());
    lemma_trimmed_keeps(text);
}

/// A hand that is not generic, with nothing behind it, denotes itself alone.
pub proof fn lemma_specified_hand_alone(input: Seq<char>, at: int, hand: Hand)
    requires
        hand_at(input, at) == Ok::<Hand, ParseError>(hand),
        char_at(input, at + hand_width(input, at)) is None,
        !hand.generic(),
    ensures
        bare_hands(hand) == seq![hand],
        range_at(input, at) == Ok::<Seq<Hand>, ParseError>(seq![hand]),
{
}

} // verus!
