use pfrange::parser::hand::rank_relation;
use pfrange::parser::table::valid_hands;
use pfrange::parser::{CardType, Group, Hand, Relation, SuitedType};
use std::cmp::Ordering;

const RANKS: [CardType; 13] = [
    CardType::Two,
    CardType::Three,
    CardType::Four,
    CardType::Five,
    CardType::Six,
    CardType::Seven,
    CardType::Eight,
    CardType::Nine,
    CardType::Ten,
    CardType::Jack,
    CardType::Queen,
    CardType::King,
    CardType::Ace,
];

fn converse(r: Relation) -> Relation {
    match r {
        Relation::Less => Relation::Greater,
        Relation::Equal => Relation::Equal,
        Relation::Greater => Relation::Less,
        Relation::Unordered => Relation::Unordered,
    }
}

#[test]
fn rank_values_run_from_two_to_fourteen() {
    for (i, rank) in RANKS.iter().enumerate() {
        assert_eq!(rank.value() as usize, i + 2);
        assert_eq!(CardType::from_value(rank.value()), Some(*rank));
    }
    assert_eq!(CardType::Two.value(), 2);
    assert_eq!(CardType::Ten.value(), 10);
    assert_eq!(CardType::Ace.value(), 14);
}

#[test]
fn rank_from_value_rejects_other_keys() {
    assert_eq!(CardType::from_value(0), None);
    assert_eq!(CardType::from_value(1), None);
    assert_eq!(CardType::from_value(15), None);
    assert_eq!(CardType::from_value(255), None);
}

#[test]
fn ranks_are_totally_ordered() {
    for i in 0..RANKS.len() {
        for j in 0..RANKS.len() {
            assert_eq!(RANKS[i] < RANKS[j], i < j);
            assert_eq!(RANKS[i] <= RANKS[j], i <= j);
            assert_eq!(RANKS[i] > RANKS[j], i > j);
            assert_eq!(RANKS[i].partial_cmp(&RANKS[j]), Some(i.cmp(&j)));
        }
    }
    assert!(CardType::Two < CardType::Three);
    assert!(CardType::King < CardType::Ace);
}

#[test]
fn rank_relation_follows_the_keys() {
    assert_eq!(rank_relation(&CardType::Nine, &CardType::Ten), Relation::Less);
    assert_eq!(rank_relation(&CardType::Ten, &CardType::Ten), Relation::Equal);
    assert_eq!(rank_relation(&CardType::Ace, &CardType::King), Relation::Greater);
}

#[test]
fn rank_symbols() {
    let symbols = ['2', '3', '4', '5', '6', '7', '8', '9', 'T', 'J', 'Q', 'K', 'A'];
    for (rank, symbol) in RANKS.iter().zip(symbols.iter()) {
        assert_eq!(rank.to_char(), *symbol);
        assert_eq!(rank.to_string(), symbol.to_string());
    }
}

#[test]
fn suited_type_suffixes() {
    assert_eq!(SuitedType::Suited.to_string(), "s");
    assert_eq!(SuitedType::Offsuit.to_string(), "o");
    assert_eq!(SuitedType::Unspecified.to_string(), "");
}

#[test]
fn new_keeps_the_fields_in_order() {
    let hand = Hand::new(CardType::Nine, CardType::Ten, SuitedType::Offsuit);
    assert_eq!(hand, Hand(CardType::Nine, CardType::Ten, SuitedType::Offsuit));
    let pair = Hand::new(CardType::Ace, CardType::Ace, SuitedType::Unspecified);
    assert_eq!(pair, Hand(CardType::Ace, CardType::Ace, SuitedType::Unspecified));
}

#[test]
fn has_card_looks_at_both_ranks() {
    let hand = Hand::new(CardType::Ace, CardType::Queen, SuitedType::Suited);
    assert!(hand.has_card(&CardType::Ace));
    assert!(hand.has_card(&CardType::Queen));
    assert!(!hand.has_card(&CardType::King));
}

#[test]
fn matches_suited_type_compares_the_tag() {
    let hand = Hand::new(CardType::Ace, CardType::Queen, SuitedType::Suited);
    assert!(hand.matches_suited_type(&SuitedType::Suited));
    assert!(!hand.matches_suited_type(&SuitedType::Offsuit));
    assert!(!hand.matches_suited_type(&SuitedType::Unspecified));
    assert_eq!(*hand.suited_type(), SuitedType::Suited);
}

#[test]
fn is_pair_needs_equal_ranks_and_no_suit() {
    assert!(Hand(CardType::Ten, CardType::Ten, SuitedType::Unspecified).is_pair());
    assert!(!Hand(CardType::Ten, CardType::Nine, SuitedType::Unspecified).is_pair());
    assert!(!Hand(CardType::Ten, CardType::Nine, SuitedType::Suited).is_pair());
    assert!(!Hand(CardType::Ten, CardType::Ten, SuitedType::Suited).is_pair());
}

#[test]
fn from_hand_changes_only_the_suitedness() {
    let generic = Hand(CardType::Ten, CardType::Nine, SuitedType::Unspecified);
    assert_eq!(
        Hand::from_hand(&generic, SuitedType::Suited),
        Hand(CardType::Ten, CardType::Nine, SuitedType::Suited)
    );
    assert_eq!(
        Hand::from_hand(&generic, SuitedType::Offsuit),
        Hand(CardType::Ten, CardType::Nine, SuitedType::Offsuit)
    );
}

#[test]
fn hands_render_in_range_notation() {
    assert_eq!(Hand(CardType::Ace, CardType::King, SuitedType::Suited).to_string(), "AKs");
    assert_eq!(Hand(CardType::Ace, CardType::King, SuitedType::Offsuit).to_string(), "AKo");
    assert_eq!(Hand(CardType::Ace, CardType::Ace, SuitedType::Unspecified).to_string(), "AA");
    assert_eq!(Hand(CardType::Ten, CardType::Two, SuitedType::Unspecified).to_string(), "T2");
}

#[test]
fn pairs_compare_by_rank() {
    let tens = Hand(CardType::Ten, CardType::Ten, SuitedType::Unspecified);
    let nines = Hand(CardType::Nine, CardType::Nine, SuitedType::Unspecified);
    assert_eq!(tens.group(&nines), Group::Pairs);
    assert_eq!(tens.relation(&nines), Relation::Greater);
    assert_eq!(nines.relation(&tens), Relation::Less);
    assert_eq!(tens.relation(&tens), Relation::Equal);
    assert!(tens > nines);
    assert_eq!(tens.partial_cmp(&nines), Some(Ordering::Greater));
}

#[test]
fn same_suited_hands_compare_by_second_rank() {
    let t9s = Hand(CardType::Ten, CardType::Nine, SuitedType::Suited);
    let t8s = Hand(CardType::Ten, CardType::Eight, SuitedType::Suited);
    assert_eq!(t9s.group(&t8s), Group::SameSuited);
    assert_eq!(t9s.relation(&t8s), Relation::Greater);
    assert_eq!(t8s.relation(&t9s), Relation::Less);
    assert!(t9s > t8s);
    assert!(t8s <= t9s);
    let t9o = Hand(CardType::Ten, CardType::Nine, SuitedType::Offsuit);
    let t8o = Hand(CardType::Ten, CardType::Eight, SuitedType::Offsuit);
    assert_eq!(t9o.relation(&t8o), Relation::Greater);
}

#[test]
fn generic_hands_compare_with_both_suits() {
    let generic_73 = Hand(CardType::Seven, CardType::Three, SuitedType::Unspecified);
    let generic_72 = Hand(CardType::Seven, CardType::Two, SuitedType::Unspecified);
    let suited_72 = Hand(CardType::Seven, CardType::Two, SuitedType::Suited);
    let offsuit_72 = Hand(CardType::Seven, CardType::Two, SuitedType::Offsuit);
    let suited_74 = Hand(CardType::Seven, CardType::Four, SuitedType::Suited);
    assert_eq!(generic_73.group(&generic_72), Group::Generic);
    assert_eq!(generic_73.relation(&generic_72), Relation::Greater);
    assert_eq!(generic_73.relation(&suited_72), Relation::Greater);
    assert_eq!(generic_73.relation(&offsuit_72), Relation::Greater);
    assert_eq!(suited_72.relation(&generic_73), Relation::Less);
    assert_eq!(suited_74.relation(&generic_73), Relation::Greater);
    assert_eq!(suited_72.relation(&generic_72), Relation::Equal);
    assert_eq!(suited_72.group(&generic_72), Group::Generic);
}

#[test]
fn hands_of_different_groups_are_unordered() {
    let tens = Hand(CardType::Ten, CardType::Ten, SuitedType::Unspecified);
    let t9s = Hand(CardType::Ten, CardType::Nine, SuitedType::Suited);
    let t9o = Hand(CardType::Ten, CardType::Nine, SuitedType::Offsuit);
    let j9s = Hand(CardType::Jack, CardType::Nine, SuitedType::Suited);
    let generic_t9 = Hand(CardType::Ten, CardType::Nine, SuitedType::Unspecified);
    let generic_j9 = Hand(CardType::Jack, CardType::Nine, SuitedType::Unspecified);
    for (a, b) in [
        (tens, t9s),
        (t9s, tens),
        (tens, generic_t9),
        (generic_t9, tens),
        (t9s, t9o),
        (t9o, t9s),
        (t9s, j9s),
        (generic_t9, generic_j9),
        (generic_j9, t9s),
    ] {
        assert_eq!(a.group(&b), Group::Incomparable);
        assert_eq!(a.relation(&b), Relation::Unordered);
        assert_eq!(a.partial_cmp(&b), None);
        assert!(!(a < b));
        assert!(!(a <= b));
        assert!(!(a > b));
        assert!(!(a >= b));
    }
}

#[test]
fn a_pair_written_with_a_suit_is_no_pair() {
    let odd = Hand(CardType::Ten, CardType::Ten, SuitedType::Suited);
    let tens = Hand(CardType::Ten, CardType::Ten, SuitedType::Unspecified);
    let t9s = Hand(CardType::Ten, CardType::Nine, SuitedType::Suited);
    assert_eq!(odd.relation(&tens), Relation::Unordered);
    assert_eq!(tens.relation(&odd), Relation::Unordered);
    assert_eq!(t9s.relation(&odd), Relation::Less);
    assert_eq!(odd.relation(&odd), Relation::Equal);
}

#[test]
fn relation_is_reflexive_and_turns_round_on_the_table() {
    let table = valid_hands();
    for a in table.iter() {
        assert_eq!(a.relation(a), Relation::Equal);
        for b in table.iter() {
            assert_eq!(b.relation(a), converse(a.relation(b)));
            assert_eq!(b.group(a), a.group(b));
            if a.relation(b) == Relation::Equal {
                assert_eq!(a, b);
            }
        }
    }
}

#[test]
fn relation_is_transitive_on_the_table() {
    let table = valid_hands();
    let at_most = |a: &Hand, b: &Hand| matches!(a.relation(b), Relation::Less | Relation::Equal);
    for a in table.iter() {
        for b in table.iter() {
            if !at_most(a, b) {
                continue;
            }
            for c in table.iter() {
                if at_most(b, c) {
                    assert!(at_most(a, c));
                }
            }
        }
    }
}

#[test]
fn partial_cmp_agrees_with_relation() {
    let table = valid_hands();
    for a in table.iter() {
        for b in table.iter() {
            let expected = match a.relation(b) {
                Relation::Less => Some(Ordering::Less),
                Relation::Equal => Some(Ordering::Equal),
                Relation::Greater => Some(Ordering::Greater),
                Relation::Unordered => None,
            };
            assert_eq!(a.partial_cmp(b), expected);
        }
    }
}
