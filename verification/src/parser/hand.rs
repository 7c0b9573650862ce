//! Starting hands and the partial order that range notation puts on them.

use std::cmp::Ordering;
use vstd::prelude::*;
use vstd::std_specs::cmp::PartialOrdSpecImpl;
use crate::parser::card::lemma_strength_names_rank;
use crate::parser::card::CardType;
use crate::parser::card::SuitedType;

verus! {

/// A starting hand: its first rank, its second rank and its suitedness.
///
/// Any triple is a value of this type. A hand read from notation may carry
/// `Unspecified` with two different ranks (a generic hand, which stands for
/// both its suited and its offsuit form).
#[derive(Debug, Clone, Copy, PartialEq, Eq, Structural)]
pub struct Hand(pub CardType, pub CardType, pub SuitedType);

/// The group in which two hands are compared.
#[derive(Debug, Clone, Copy, PartialEq, Eq, Structural)]
pub enum Group {
    /// Both hands are pairs; they compare by the rank of the pair.
    Pairs,
    /// Two non-pairs with the same first rank and the same suitedness, `Suited` or
    /// `Offsuit`; they compare by their second rank.
    SameSuited,
    /// Two non-pairs with the same first rank, one or both of them generic; they
    /// compare by their second rank.
    Generic,
    /// Any other two hands; they have no order.
    Incomparable,
}

/// How one hand stands to another.
#[derive(Debug, Clone, Copy, PartialEq, Eq, Structural)]
pub enum Relation {
    Less,
    Equal,
    Greater,
    Unordered,
}

impl Relation {
    /// The relation seen from the other side.
    pub open spec fn converse(self) -> Relation {
        match self {
            Relation::Less => Relation::Greater,
            Relation::Equal => Relation::Equal,
            Relation::Greater => Relation::Less,
            Relation::Unordered => Relation::Unordered,
        }
    }
}

/// The order of two ranks by their ranking keys.
pub open spec fn by_rank(x: CardType, y: CardType) -> Relation {
    if x.strength() < y.strength() {
        Relation::Less
    } else if x.strength() == y.strength() {
        Relation::Equal
    } else {
        Relation::Greater
    }
}

/// The comparison group of two hands.
pub open spec fn group(a: Hand, b: Hand) -> Group {
    if a.pair() && b.pair() {
        Group::Pairs
    } else if a.pair() || b.pair() || a.0 != b.0 {
        Group::Incomparable
    } else if a.2 is Unspecified || b.2 is Unspecified {
        Group::Generic
    } else if a.2 == b.2 {
        Group::SameSuited
    } else {
        Group::Incomparable
    }
}

/// The partial order on hands: within a group, the order of the deciding ranks;
/// across groups, none.
pub open spec fn relation(a: Hand, b: Hand) -> Relation {
    match group(a, b) {
        Group::Pairs => by_rank(a.0, b.0),
        Group::SameSuited => by_rank(a.1, b.1),
        Group::Generic => by_rank(a.1, b.1),
        Group::Incomparable => Relation::Unordered,
    }
}

/// `a` is at or above `b`.
pub open spec fn at_least(a: Hand, b: Hand) -> bool {
    relation(a, b) is Greater || relation(a, b) is Equal
}

/// `a` is at or below `b`.
pub open spec fn at_most(a: Hand, b: Hand) -> bool {
    relation(a, b) is Less || relation(a, b) is Equal
}

impl Hand {
    /// Two equal ranks, tagged `Unspecified`.
    pub open spec fn pair(self) -> bool {
        self.0 == self.1 && self.2 is Unspecified
    }

    /// Two different ranks, tagged `Unspecified`: a hand written without a suit letter.
    pub open spec fn generic(self) -> bool {
        self.0 != self.1 && self.2 is Unspecified
    }

    /// What a constructed hand satisfies: it is tagged `Unspecified` exactly when
    /// its two ranks are equal.
    pub open spec fn valid(self) -> bool {
        self.0 == self.1 <==> self.2 is Unspecified
    }

    /// The form of an entry of the canonical table: a pair, or a higher rank before
    /// a lower one with a suitedness of `Suited` or `Offsuit`.
    pub open spec fn canonical(self) -> bool {
        if self.0 == self.1 {
            self.2 is Unspecified
        } else {
            self.0.strength() > self.1.strength() && !(self.2 is Unspecified)
        }
    }

    /// The same two ranks with another suitedness.
    pub open spec fn with_suit(self, suited_type: SuitedType) -> Hand {
        Hand(self.0, self.1, suited_type)
    }

    /// The hand in range notation: the characters of its two ranks and the
    /// suffix of its suitedness.
    pub open spec fn notation(self) -> Seq<char> {
        seq![self.0.symbol(), self.1.symbol()] + self.2.suffix()
    }

    /// Builds a hand. A pair takes `Unspecified`, and only a pair does.
    pub fn new(first_card: CardType, second_card: CardType, suited_type: SuitedType) -> (hand: Self)
        requires
            first_card == second_card <==> suited_type is Unspecified,
        ensures
            hand == Hand(first_card, second_card, suited_type),
            hand.valid(),
    {
        Hand(first_card, second_card, suited_type)
    }

    pub fn has_card(&self, card: &CardType) -> (found: bool)
        ensures
            found == (self.0 == *card || self.1 == *card),
    {
        self.0 == *card || self.1 == *card
    }

    pub fn matches_suited_type(&self, suited: &SuitedType) -> (same: bool)
        ensures
            same == (self.2 == *suited),
    {
        self.2 == *suited
    }

    pub fn is_pair(&self) -> (pair: bool)
        ensures
            pair == self.pair(),
    {
        self.0 == self.1 && self.2 == SuitedType::Unspecified
    }

    pub fn suited_type(&self) -> (suited: &SuitedType)
        ensures
            *suited == self.2,
    {
        &self.2
    }

    /// The ranks of `hand` with the suitedness given.
    pub fn from_hand(hand: &Hand, suited_type: SuitedType) -> (made: Self)
        ensures
            made == hand.with_suit(suited_type),
    {
        Hand(hand.0, hand.1, suited_type)
    }

    /// This hand as text, in range notation.
    pub fn to_string(&self) -> (text: String)
        ensures
            text@ == self.notation(),
    {
        let mut text = String::new();
        text.push(self.0.to_char());
        text.push(self.1.to_char());
        let suffix = self.2.to_string();
        text.append(suffix.as_str());
        text
    }

    /// The comparison group of this hand and another.
    pub fn group(&self, other: &Hand) -> (g: Group)
        ensures
            g == group(*self, *other),
    {
        if self.is_pair() && other.is_pair() {
            Group::Pairs
        } else if self.is_pair() || other.is_pair() || self.0 != other.0 {
            Group::Incomparable
        } else if self.2 == SuitedType::Unspecified || other.2 == SuitedType::Unspecified {
            Group::Generic
        } else if self.2 == other.2 {
            Group::SameSuited
        } else {
            Group::Incomparable
        }
    }

    /// How this hand stands to another under the partial order.
    pub fn relation(&self, other: &Hand) -> (r: Relation)
        ensures
            r == relation(*self, *other),
    {
        match self.group(other) {
            Group::Pairs => rank_relation(&self.0, &other.0),
            Group::SameSuited => rank_relation(&self.1, &other.1),
            Group::Generic => rank_relation(&self.1, &other.1),
            Group::Incomparable => Relation::Unordered,
        }
    }
}

/// The order of two ranks.
pub fn rank_relation(x: &CardType, y: &CardType) -> (r: Relation)
    ensures
        r == by_rank(*x, *y),
{
    let a: u8 = x.value();
    let b: u8 = y.value();
    if a < b {
        Relation::Less
    } else if a == b {
        Relation::Equal
    } else {
        Relation::Greater
    }
}

/// `<`, `<=`, `>` and `>=` on hands go by `relation`; two unordered hands
/// satisfy none of them. A generic hand and its suited form compare as equal
/// without being the same hand.
impl PartialOrd for Hand {
    fn partial_cmp(&self, other: &Self) -> (r: Option<Ordering>) {
        match self.relation(other) {
            Relation::Less => Some(Ordering::Less),
            Relation::Equal => Some(Ordering::Equal),
            Relation::Greater => Some(Ordering::Greater),
            Relation::Unordered => None,
        }
    }
}

impl PartialOrdSpecImpl for Hand {
    open spec fn obeys_partial_cmp_spec() -> bool {
        true
    }

    /// The partial order of `relation`, with no result for two unordered hands.
    open spec fn partial_cmp_spec(&self, other: &Self) -> Option<Ordering> {
        match relation(*self, *other) {
            Relation::Less => Some(Ordering::Less),
            Relation::Equal => Some(Ordering::Equal),
            Relation::Greater => Some(Ordering::Greater),
            Relation::Unordered => None,
        }
    }
}

/// Two hands are unordered exactly when their group is `Incomparable`: a pair
/// and a non-pair, two non-pairs with different first ranks, or two non-pairs
/// of which one is `Suited` and the other `Offsuit`.
pub proof fn lemma_unordered_across_groups(a: Hand, b: Hand)
    ensures
        relation(a, b) is Unordered <==> group(a, b) is Incomparable,
        group(a, b) is Incomparable <==> (a.pair() != b.pair() || (!a.pair() && !b.pair() && a.0
            != b.0) || (!a.pair() && !b.pair() && !(a.2 is Unspecified) && !(b.2 is Unspecified)
            && a.2 != b.2)),
{
}

/// Within a group the order is the order of the deciding ranks, the rank of the
/// pair or the second rank: exactly one of less, equal and greater holds, as it
/// does of the two ranking keys.
pub proof fn lemma_order_within_group(a: Hand, b: Hand)
    requires
        !(group(a, b) is Incomparable),
    ensures
        group(a, b) is Pairs ==> relation(a, b) == by_rank(a.0, b.0),
        !(group(a, b) is Pairs) ==> relation(a, b) == by_rank(a.1, b.1),
        ({
            let x = if group(a, b) is Pairs { a.0 } else { a.1 };
            let y = if group(a, b) is Pairs { b.0 } else { b.1 };
            &&& relation(a, b) is Less <==> x.strength() < y.strength()
            &&& relation(a, b) is Equal <==> x.strength() == y.strength()
            &&& relation(a, b) is Greater <==> x.strength() > y.strength()
        }),
{
}

/// Every hand is equal to itself under the order, so none is below itself.
pub proof fn lemma_relation_reflexive(a: Hand)
    ensures
        relation(a, a) is Equal,
        at_least(a, a),
        at_most(a, a),
{
}

/// Swapping the two hands keeps the group and turns the relation round.
pub proof fn lemma_relation_converse(a: Hand, b: Hand)
    ensures
        group(b, a) == group(a, b),
        relation(b, a) == relation(a, b).converse(),
        at_least(a, b) <==> at_most(b, a),
{
}

/// The order is transitive through a hand that is not generic.
pub proof fn lemma_at_most_transitive(a: Hand, b: Hand, c: Hand)
    requires
        at_most(a, b),
        at_most(b, c),
        !b.generic(),
    ensures
        at_most(a, c),
        relation(a, b) is Less || relation(b, c) is Less ==> relation(a, c) is Less,
{
}

/// Two hands in table form that the order holds equal are the same hand.
pub proof fn lemma_equal_canonical_hands(a: Hand, b: Hand)
    requires
        a.canonical(),
        b.canonical(),
        relation(a, b) is Equal,
    ensures
        a == b,
{
    lemma_strength_names_rank(a.0, 0);
    lemma_strength_names_rank(a.1, 0);
    lemma_strength_names_rank(b.0, 0);
    lemma_strength_names_rank(b.1, 0);
}

} // verus!
