use pfrange::cli::{Args, Mode};
use pfrange::parser::Error;
use pfrange::utils::{generate_hands_list, hand_line};
use pfrange::parser::{CardType, Hand, SuitedType};
use pfrange::{Position, PositionInput, Schema};

#[test]
fn mode_names() {
    assert_eq!(Mode::Beginner.to_string(), "beginner");
    assert_eq!(Mode::Advanced.to_string(), "advanced");
}

#[test]
fn modes_are_ordered_as_declared() {
    assert!(Mode::Beginner < Mode::Advanced);
    assert_eq!(Mode::Beginner, Mode::Beginner);
}

#[test]
fn args_default_to_beginner_mode() {
    assert_eq!(Args::default().mode, Mode::Beginner);
}

#[test]
fn schema_keeps_its_ranges() {
    let schema = Schema::new("TT+".to_string(), "AQo+,T9s-".to_string());
    assert_eq!(schema.raise(), "TT+");
    assert_eq!(schema.raise_or_fold(), "AQo+,T9s-");
}

#[test]
fn position_input_keeps_its_parts() {
    let input = PositionInput::new(
        "BTN".to_string(),
        Schema::new("22+".to_string(), "T9".to_string()),
    );
    assert_eq!(input.position(), "BTN");
    assert_eq!(input.schema().raise(), "22+");
    assert_eq!(input.schema().raise_or_fold(), "T9");
}

#[test]
fn positions_are_distinct() {
    assert_ne!(Position::EarlyPosition1, Position::SmallBlind);
    assert_eq!(Position::Button, Position::Button);
    let all = [
        Position::EarlyPosition1,
        Position::EarlyPosition2,
        Position::EarlyPosition3,
        Position::LowJack,
        Position::HighJack,
        Position::Cutoff,
        Position::Button,
        Position::SmallBlind,
    ];
    assert_eq!(all.len(), 8);
}

#[test]
fn errors_by_place() {
    assert_eq!(Error::Character(2), Error::Character(2));
    assert_ne!(Error::Character(2), Error::EndOfLine);
}

#[test]
fn hand_lines() {
    assert_eq!(
        hand_line(&Hand(CardType::Ace, CardType::Ace, SuitedType::Unspecified)),
        "Hand(CardType::Ace, CardType::Ace, SuitedType::Unspecified),"
    );
    assert_eq!(
        hand_line(&Hand(CardType::Ten, CardType::Nine, SuitedType::Suited)),
        "Hand(CardType::Ten, CardType::Nine, SuitedType::Suited),"
    );
    assert_eq!(
        hand_line(&Hand(CardType::Three, CardType::Two, SuitedType::Offsuit)),
        "Hand(CardType::Three, CardType::Two, SuitedType::Offsuit),"
    );
}

#[test]
fn hands_list_has_a_line_for_every_entry() {
    let lines = generate_hands_list();
    assert_eq!(lines.len(), 169);
    assert_eq!(lines[0], "Hand(CardType::Ace, CardType::Ace, SuitedType::Unspecified),");
    assert_eq!(lines[1], "Hand(CardType::Ace, CardType::King, SuitedType::Suited),");
    assert_eq!(lines[2], "Hand(CardType::Ace, CardType::King, SuitedType::Offsuit),");
    assert_eq!(lines[25], "Hand(CardType::King, CardType::King, SuitedType::Unspecified),");
    assert_eq!(lines[168], "Hand(CardType::Two, CardType::Two, SuitedType::Unspecified),");
}
