//! The canonical table written out as source text.

use vstd::prelude::*;
use crate::parser::card::CardType;
use crate::parser::card::SuitedType;
use crate::parser::hand::Hand;
use crate::parser::table::canonical_table;
use crate::parser::table::valid_hands;

verus! {

/// The name of a rank in source text.
pub open spec fn card_name(card: CardType) -> Seq<char> {
    match card {
        CardType::Ace => "Ace"@,
        CardType::King => "King"@,
        CardType::Queen => "Queen"@,
        CardType::Jack => "Jack"@,
        CardType::Ten => "Ten"@,
        CardType::Nine => "Nine"@,
        CardType::Eight => "Eight"@,
        CardType::Seven => "Seven"@,
        CardType::Six => "Six"@,
        CardType::Five => "Five"@,
        CardType::Four => "Four"@,
        CardType::Three => "Three"@,
        CardType::Two => "Two"@,
    }
}

/// The name of a suitedness in source text.
pub open spec fn suited_name(suited_type: SuitedType) -> Seq<char> {
    match suited_type {
        SuitedType::Suited => "Suited"@,
        SuitedType::Offsuit => "Offsuit"@,
        SuitedType::Unspecified => "Unspecified"@,
    }
}

/// The line that writes a hand as an entry of a table in source text.
pub open spec fn source_line(hand: Hand) -> Seq<char> {
    "Hand(CardType::"@ + card_name(hand.0) + ", CardType::"@ + card_name(hand.1)
        + ", SuitedType::"@ + suited_name(hand.2) + "),"@
}

fn card_name_of(card: &CardType) -> (name: &'static str)
    ensures
        name@ == card_name(*card),
{
    match card {
        CardType::Ace => "Ace",
        CardType::King => "King",
        CardType::Queen => "Queen",
        CardType::Jack => "Jack",
        CardType::Ten => "Ten",
        CardType::Nine => "Nine",
        CardType::Eight => "Eight",
        CardType::Seven => "Seven",
        CardType::Six => "Six",
        CardType::Five => "Five",
        CardType::Four => "Four",
        CardType::Three => "Three",
        CardType::Two => "Two",
    }
}

fn suited_name_of(suited_type: &SuitedType) -> (name: &'static str)
    ensures
        name@ == suited_name(*suited_type),
{
    match suited_type {
        SuitedType::Suited => "Suited",
        SuitedType::Offsuit => "Offsuit",
        SuitedType::Unspecified => "Unspecified",
    }
}

/// The source line of one hand.
pub fn hand_line(hand: &Hand) -> (line: String)
    ensures
        line@ == source_line(*hand),
{
    let mut line = String::from_str("Hand(CardType::");
    line.append(card_name_of(&hand.0));
    line.append(", CardType::");
    line.append(card_name_of(&hand.1));
    line.append(", SuitedType::");
    line.append(suited_name_of(&hand.2));
    line.append("),");
    line
}

/// The canonical table as source text: one line for each entry, in table order.
pub fn generate_hands_list() -> (lines: Vec<String>)
    ensures
        lines@.len() == canonical_table().len(),
        forall|i: int| 0 <= i < lines@.len() ==> (#[trigger] lines@[i])@ == source_line(canonical_table()[i]),
{
    let table = valid_hands();
    let mut lines: Vec<String> = Vec::new();
    let mut i: usize = 0;
    while i < table.len()
        invariant
            i <= table.len(),
            table@ == canonical_table(),
            lines@.len() == i,
            forall|k: int| 0 <= k < i ==> (#[trigger] lines@[k])@ == source_line(table@[k]),
        decreases table.len() - i,
    {
        lines.push(hand_line(&table[i]));
        i += 1;
    }
    lines
}

} // verus!
