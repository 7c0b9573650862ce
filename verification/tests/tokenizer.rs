use pfrange::parser::{CardType, Hand, ParseError, Parser, SuitedType};

#[test]
fn peek_does_not_move_the_cursor() {
    let parser = Parser::new("AK");
    assert_eq!(parser.peek(), Some(&'A'));
    assert_eq!(parser.peek(), Some(&'A'));
}

#[test]
fn pop_walks_through_the_input() {
    let mut parser = Parser::new("AKs");
    assert_eq!(parser.pop(), Some(&'A'));
    assert_eq!(parser.pop(), Some(&'K'));
    assert_eq!(parser.peek(), Some(&'s'));
    assert_eq!(parser.pop(), Some(&'s'));
    assert_eq!(parser.pop(), None);
    assert_eq!(parser.pop(), None);
    assert_eq!(parser.peek(), None);
}

#[test]
fn is_eof_only_after_a_non_empty_input() {
    let mut parser = Parser::new("A");
    assert!(!parser.is_eof());
    parser.pop();
    assert!(parser.is_eof());
    let empty = Parser::new("");
    assert!(!empty.is_eof());
    assert_eq!(empty.peek(), None);
    let blank = Parser::new("   ");
    assert!(!blank.is_eof());
    assert_eq!(blank.peek(), None);
}

#[test]
fn next_matches_consumes_only_on_a_match() {
    let mut parser = Parser::new("so");
    assert!(!parser.next_matches('o'));
    assert_eq!(parser.peek(), Some(&'s'));
    assert!(parser.next_matches('s'));
    assert_eq!(parser.peek(), Some(&'o'));
    assert!(!parser.next_matches('s'));
    assert!(parser.next_matches('o'));
    assert!(!parser.next_matches('o'));
    assert!(parser.is_eof());
}

#[test]
fn new_trims_the_input() {
    let mut parser = Parser::new("  \t AKs \r\n");
    assert_eq!(parser.pop(), Some(&'A'));
    assert_eq!(parser.pop(), Some(&'K'));
    assert_eq!(parser.pop(), Some(&'s'));
    assert_eq!(parser.pop(), None);
    assert!(parser.is_eof());
}

#[test]
fn new_keeps_white_space_inside_the_input() {
    let mut parser = Parser::new(" A K ");
    assert_eq!(parser.pop(), Some(&'A'));
    assert_eq!(parser.pop(), Some(&' '));
    assert_eq!(parser.pop(), Some(&'K'));
    assert_eq!(parser.pop(), None);
}

#[test]
fn parse_card_reads_every_symbol() {
    let mut parser = Parser::new("AKQJT98765432");
    let expected = [
        CardType::Ace,
        CardType::King,
        CardType::Queen,
        CardType::Jack,
        CardType::Ten,
        CardType::Nine,
        CardType::Eight,
        CardType::Seven,
        CardType::Six,
        CardType::Five,
        CardType::Four,
        CardType::Three,
        CardType::Two,
    ];
    for card in expected {
        assert_eq!(parser.parse_card(), Ok(card));
    }
    assert!(parser.is_eof());
    assert_eq!(parser.parse_card(), Err(ParseError::EndOfLine));
}

#[test]
fn parse_card_reports_the_character_and_leaves_it() {
    let mut parser = Parser::new("xA");
    assert_eq!(parser.parse_card(), Err(ParseError::InvalidToken('x')));
    assert_eq!(parser.peek(), Some(&'x'));
    assert_eq!(parser.parse_card(), Err(ParseError::InvalidToken('x')));
}

#[test]
fn parse_card_is_case_sensitive() {
    assert_eq!(Parser::new("a").parse_card(), Err(ParseError::InvalidToken('a')));
    assert_eq!(Parser::new("t").parse_card(), Err(ParseError::InvalidToken('t')));
    assert_eq!(Parser::new("1").parse_card(), Err(ParseError::InvalidToken('1')));
}

#[test]
fn parse_card_on_empty_input_is_end_of_line() {
    assert_eq!(Parser::new("").parse_card(), Err(ParseError::EndOfLine));
}

#[test]
fn parse_hand_reads_two_cards_and_a_suit() {
    assert_eq!(
        Parser::new("AKs").parse_hand(),
        Ok(Hand(CardType::Ace, CardType::King, SuitedType::Suited))
    );
    assert_eq!(
        Parser::new("AKo").parse_hand(),
        Ok(Hand(CardType::Ace, CardType::King, SuitedType::Offsuit))
    );
    assert_eq!(
        Parser::new("AK").parse_hand(),
        Ok(Hand(CardType::Ace, CardType::King, SuitedType::Unspecified))
    );
    assert_eq!(
        Parser::new("77").parse_hand(),
        Ok(Hand(CardType::Seven, CardType::Seven, SuitedType::Unspecified))
    );
}

#[test]
fn parse_hand_puts_the_higher_rank_first() {
    assert_eq!(
        Parser::new("9Ts").parse_hand(),
        Ok(Hand(CardType::Ten, CardType::Nine, SuitedType::Suited))
    );
    assert_eq!(
        Parser::new("2A").parse_hand(),
        Ok(Hand(CardType::Ace, CardType::Two, SuitedType::Unspecified))
    );
}

#[test]
fn parse_hand_keeps_a_suit_letter_behind_a_pair() {
    assert_eq!(
        Parser::new("TTs").parse_hand(),
        Ok(Hand(CardType::Ten, CardType::Ten, SuitedType::Suited))
    );
}

#[test]
fn parse_hand_stops_behind_what_it_read() {
    let mut parser = Parser::new("AKs+");
    assert!(parser.parse_hand().is_ok());
    assert_eq!(parser.peek(), Some(&'+'));
    let mut parser = Parser::new("AK+");
    assert!(parser.parse_hand().is_ok());
    assert_eq!(parser.peek(), Some(&'+'));
}

#[test]
fn parse_hand_errors() {
    assert_eq!(Parser::new("").parse_hand(), Err(ParseError::EndOfLine));
    assert_eq!(Parser::new("A").parse_hand(), Err(ParseError::EndOfLine));
    assert_eq!(Parser::new("xK").parse_hand(), Err(ParseError::InvalidToken('x')));
    assert_eq!(Parser::new("Ax").parse_hand(), Err(ParseError::InvalidToken('x')));
    assert_eq!(Parser::new("A K").parse_hand(), Err(ParseError::InvalidToken(' ')));
}

#[test]
fn parse_hand_keeps_the_first_card_consumed_when_the_second_fails() {
    let mut parser = Parser::new("Ax");
    assert_eq!(parser.parse_hand(), Err(ParseError::InvalidToken('x')));
    assert_eq!(parser.peek(), Some(&'x'));
    let mut parser = Parser::new("xA");
    assert_eq!(parser.parse_hand(), Err(ParseError::InvalidToken('x')));
    assert_eq!(parser.peek(), Some(&'x'));
}

#[test]
fn parse_error_messages() {
    assert_eq!(ParseError::InvalidToken('k').to_string(), "Unexpected token: k");
    assert_eq!(ParseError::EndOfLine.to_string(), "Unexpected end of line");
}

#[test]
fn non_ascii_characters_are_single_tokens() {
    let mut parser = Parser::new("A\u{e9}");
    assert_eq!(parser.parse_hand(), Err(ParseError::InvalidToken('\u{e9}')));
    assert_eq!(
        ParseError::InvalidToken('\u{e9}').to_string(),
        format!("Unexpected token: {}", '\u{e9}')
    );
}
