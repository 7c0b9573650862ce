//! What a hand stands for, alone or with a `+` or `-` behind it.

use vstd::prelude::*;
use crate::parser::card::lemma_strength_names_rank;
use crate::parser::card::CardType;
use crate::parser::card::SuitedType;
use crate::parser::hand::at_least;
use crate::parser::hand::at_most;
use crate::parser::hand::Hand;
use crate::parser::table::canonical_table;
use crate::parser::table::lemma_table_entry;
use crate::parser::table::lemma_table_index;
use crate::parser::table::lemma_table_length;
use crate::parser::table::position;
use crate::parser::table::TABLE_LEN;

verus! {

/// Whether `reference+` takes the table entry `entry`: the entry is at or above
/// the reference; for a generic reference, at or above its suited or its
/// offsuit form.
pub open spec fn gte_selects(reference: Hand, entry: Hand) -> bool {
    if reference.generic() {
        at_least(entry, reference.with_suit(SuitedType::Suited)) || at_least(
            entry,
            reference.with_suit(SuitedType::Offsuit),
        )
    } else {
        at_least(entry, reference)
    }
}

/// Whether `reference-` takes the table entry `entry`: the entry is at or below
/// the reference and has its suitedness; for a generic reference, at or below
/// its suited or its offsuit form.
pub open spec fn lte_selects(reference: Hand, entry: Hand) -> bool {
    if reference.generic() {
        at_most(entry, reference.with_suit(SuitedType::Suited)) || at_most(
            entry,
            reference.with_suit(SuitedType::Offsuit),
        )
    } else {
        at_most(entry, reference) && entry.2 == reference.2
    }
}

/// `gte_selects` with its reference fixed.
pub open spec fn gte_filter(reference: Hand) -> spec_fn(Hand) -> bool {
    |entry: Hand| gte_selects(reference, entry)
}

/// `lte_selects` with its reference fixed.
pub open spec fn lte_filter(reference: Hand) -> spec_fn(Hand) -> bool {
    |entry: Hand| lte_selects(reference, entry)
}

/// The hands of `reference+`: the entries that `gte_selects` takes, in table order.
pub open spec fn gte_hands(reference: Hand) -> Seq<Hand> {
    canonical_table().filter(gte_filter(reference))
}

/// The hands of `reference-`: the entries that `lte_selects` takes, in table order.
pub open spec fn lte_hands(reference: Hand) -> Seq<Hand> {
    canonical_table().filter(lte_filter(reference))
}

/// The hands of a hand with nothing behind it: the hand itself, or for a generic
/// hand its suited and then its offsuit form.
pub open spec fn bare_hands(hand: Hand) -> Seq<Hand> {
    if hand.generic() {
        seq![hand.with_suit(SuitedType::Suited), hand.with_suit(SuitedType::Offsuit)]
    } else {
        seq![hand]
    }
}

/// The pair of a rank.
pub open spec fn pair_of(rank: CardType) -> Hand {
    Hand(rank, rank, SuitedType::Unspecified)
}

/// How many ranking keys lie between `low` and `high`, both counted.
pub open spec fn span(high: int, low: int) -> nat {
    if high >= low {
        (high - low + 1) as nat
    } else {
        0
    }
}

/// The pairs with ranking keys from `high` down to `low`.
pub open spec fn pairs_between(high: int, low: int) -> Seq<Hand> {
    Seq::new(span(high, low), |i: int| pair_of(CardType::with_strength(high - i)))
}

/// The hands of first rank `first` and suitedness `suited_type` whose second
/// rank has a ranking key from `high` down to `low`.
pub open spec fn suited_between(first: CardType, suited_type: SuitedType, high: int, low: int) -> Seq<
    Hand,
> {
    Seq::new(
        span(high, low),
        |i: int| Hand(first, CardType::with_strength(high - i), suited_type),
    )
}

/// The hands of first rank `first` whose second rank has a ranking key from
/// `high` down to `low`, each suited and then offsuit.
pub open spec fn both_between(first: CardType, high: int, low: int) -> Seq<Hand> {
    Seq::new(
        2 * span(high, low),
        |i: int|
            Hand(
                first,
                CardType::with_strength(high - i / 2),
                if i % 2 == 0 {
                    SuitedType::Suited
                } else {
                    SuitedType::Offsuit
                },
            ),
    )
}

/// The highest ranking key that a second rank at or below `reference` has in the table.
pub open spec fn second_at_most(reference: Hand) -> int {
    if reference.1.strength() < reference.0.strength() {
        reference.1.strength()
    } else {
        reference.0.strength() - 1
    }
}

/// The hands of `reference+`, written out: the pairs from aces down to a pair;
/// else the hands of the same first rank, and of the same suitedness unless
/// the reference is generic, from the highest second rank down to its own.
pub open spec fn gte_list(reference: Hand) -> Seq<Hand> {
    if reference.pair() {
        pairs_between(14, reference.0.strength())
    } else if reference.generic() {
        both_between(reference.0, reference.0.strength() - 1, reference.1.strength())
    } else {
        suited_between(
            reference.0,
            reference.2,
            reference.0.strength() - 1,
            reference.1.strength(),
        )
    }
}

/// The hands of `reference-`, written out: the pairs from a pair down to
/// deuces; else the hands of the same first rank, and of the same suitedness
/// unless the reference is generic, from its own second rank down to `Two`.
pub open spec fn lte_list(reference: Hand) -> Seq<Hand> {
    if reference.pair() {
        pairs_between(reference.0.strength(), 2)
    } else if reference.generic() {
        both_between(reference.0, second_at_most(reference), 2)
    } else {
        suited_between(reference.0, reference.2, second_at_most(reference), 2)
    }
}

/// A filtered sequence is the list `picked` when `picked` holds, in the order
/// of the source, exactly the entries that the filter takes, `at` giving the
/// index of each.
proof fn lemma_filter_picks<A>(
    source: Seq<A>,
    pred: spec_fn(A) -> bool,
    picked: Seq<A>,
    at: spec_fn(int) -> int,
)
    requires
        forall|i: int|
            0 <= i < picked.len() ==> 0 <= #[trigger] at(i) < source.len() && source[at(i)]
                == picked[i] && pred(picked[i]),
        forall|i: int, j: int| 0 <= i < j < picked.len() ==> #[trigger] at(i) < #[trigger] at(j),
        forall|k: int|
            0 <= k < source.len() && pred(#[trigger] source[k]) ==> exists|i: int|
                0 <= i < picked.len() && #[trigger] at(i) == k,
    ensures
        source.filter(pred) == picked,
    decreases source.len(),
{
    reveal(Seq::filter);
    if source.len() == 0 {
        if picked.len() > 0 {
            assert(0 <= at(0) < source.len());
        }
        assert(picked =~= Seq::empty());
    } else {
        let n = source.len() - 1;
        let rest = source.drop_last();
        if pred(source[n]) {
            let i = choose|i: int| 0 <= i < picked.len() && #[trigger] at(i) == n;
            let last = picked.len() - 1;
            if i < last {
                assert(at(i) < at(last));
            }
            assert(i == last);
            let fewer = picked.drop_last();
            assert forall|k: int| 0 <= k < rest.len() && pred(#[trigger] rest[k]) implies exists|
                j: int,
            | 0 <= j < fewer.len() && #[trigger] at(j) == k by {
                assert(rest[k] == source[k]);
                let j = choose|j: int| 0 <= j < picked.len() && #[trigger] at(j) == k;
                assert(j != last);
            }
            assert forall|j: int| 0 <= j < fewer.len() implies 0 <= #[trigger] at(j) < rest.len()
                && rest[at(j)] == fewer[j] && pred(fewer[j]) by {
                assert(at(j) < at(last));
            }
            lemma_filter_picks(rest, pred, fewer, at);
            assert(picked =~= fewer.push(source[n]));
        } else {
            assert forall|j: int| 0 <= j < picked.len() implies 0 <= #[trigger] at(j) < rest.len()
                && rest[at(j)] == picked[j] && pred(picked[j]) by {
                assert(at(j) != n);
            }
            assert forall|k: int| 0 <= k < rest.len() && pred(#[trigger] rest[k]) implies exists|
                j: int,
            | 0 <= j < picked.len() && #[trigger] at(j) == k by {
                assert(rest[k] == source[k]);
            }
            lemma_filter_picks(rest, pred, picked, at);
        }
    }
}

/// The table filtered is the list `picked` when every hand of `picked` is in
/// table form and taken by the filter, the hands of `picked` stand in table
/// order, and every hand in table form that the filter takes is in `picked`.
proof fn lemma_table_filter(pred: spec_fn(Hand) -> bool, picked: Seq<Hand>)
    requires
        forall|i: int| 0 <= i < picked.len() ==> (#[trigger] picked[i]).canonical() && pred(picked[i]),
        forall|i: int, j: int|
            0 <= i < j < picked.len() ==> position(#[trigger] picked[i]) < position(
                #[trigger] picked[j],
            ),
        forall|hand: Hand| hand.canonical() && #[trigger] pred(hand) ==> picked.contains(hand),
    ensures
        canonical_table().filter(pred) == picked,
{
    let at = |i: int| position(picked[i]);
    let table = canonical_table();
    lemma_table_length();
    assert forall|i: int| 0 <= i < picked.len() implies 0 <= #[trigger] at(i) < table.len()
        && table[at(i)] == picked[i] && pred(picked[i]) by {
        lemma_table_entry(picked[i]);
    }
    assert forall|k: int| 0 <= k < table.len() && pred(#[trigger] table[k]) implies exists|i: int|
        0 <= i < picked.len() && #[trigger] at(i) == k by {
        lemma_table_index(k);
        let i = picked.index_of(table[k]);
        assert(at(i) == k);
    }
    lemma_filter_picks(table, pred, picked, at);
}

/// `reference+` denotes the hands of `gte_list`.
pub proof fn lemma_gte_hands(reference: Hand)
    ensures
        gte_hands(reference) == gte_list(reference),
{
    let picked = gte_list(reference);
    let pred = gte_filter(reference);
    assert forall|i: int| 0 <= i < picked.len() implies (#[trigger] picked[i]).canonical() && pred(
        picked[i],
    ) by {
        lemma_strength_names_rank(reference.0, 14 - i);
        lemma_strength_names_rank(reference.0, reference.0.strength() - 1 - i);
        lemma_strength_names_rank(reference.0, reference.0.strength() - 1 - i / 2);
    }
    assert forall|i: int, j: int| 0 <= i < j < picked.len() implies position(#[trigger] picked[i])
        < position(#[trigger] picked[j]) by {
        lemma_strength_names_rank(reference.0, 14 - i);
        lemma_strength_names_rank(reference.0, 14 - j);
        lemma_strength_names_rank(reference.0, reference.0.strength() - 1 - i);
        lemma_strength_names_rank(reference.0, reference.0.strength() - 1 - j);
        lemma_strength_names_rank(reference.0, reference.0.strength() - 1 - i / 2);
        lemma_strength_names_rank(reference.0, reference.0.strength() - 1 - j / 2);
    }
    assert forall|hand: Hand| hand.canonical() && #[trigger] pred(hand) implies picked.contains(
        hand,
    ) by {
        lemma_strength_names_rank(hand.0, 0);
        lemma_strength_names_rank(hand.1, 0);
        let i = if reference.pair() {
            14 - hand.0.strength()
        } else if reference.generic() {
            2 * (reference.0.strength() - 1 - hand.1.strength()) + if hand.2 is Suited {
                0int
            } else {
                1int
            }
        } else {
            reference.0.strength() - 1 - hand.1.strength()
        };
        assert(0 <= i < picked.len());
        assert(picked[i] == hand);
    }
    lemma_table_filter(pred, picked);
}

/// `reference-` denotes the hands of `lte_list`.
pub proof fn lemma_lte_hands(reference: Hand)
    ensures
        lte_hands(reference) == lte_list(reference),
{
    let picked = lte_list(reference);
    let pred = lte_filter(reference);
    let top = second_at_most(reference);
    assert forall|i: int| 0 <= i < picked.len() implies (#[trigger] picked[i]).canonical() && pred(
        picked[i],
    ) by {
        lemma_strength_names_rank(reference.0, reference.0.strength() - i);
        lemma_strength_names_rank(reference.0, top - i);
        lemma_strength_names_rank(reference.0, top - i / 2);
    }
    assert forall|i: int, j: int| 0 <= i < j < picked.len() implies position(#[trigger] picked[i])
        < position(#[trigger] picked[j]) by {
        lemma_strength_names_rank(reference.0, reference.0.strength() - i);
        lemma_strength_names_rank(reference.0, reference.0.strength() - j);
        lemma_strength_names_rank(reference.0, top - i);
        lemma_strength_names_rank(reference.0, top - j);
        lemma_strength_names_rank(reference.0, top - i / 2);
        lemma_strength_names_rank(reference.0, top - j / 2);
    }
    assert forall|hand: Hand| hand.canonical() && #[trigger] pred(hand) implies picked.contains(
        hand,
    ) by {
        lemma_strength_names_rank(hand.0, 0);
        lemma_strength_names_rank(hand.1, 0);
        let i = if reference.pair() {
            reference.0.strength() - hand.0.strength()
        } else if reference.generic() {
            2 * (top - hand.1.strength()) + if hand.2 is Suited {
                0int
            } else {
                1int
            }
        } else {
            top - hand.1.strength()
        };
        assert(0 <= i < picked.len());
        assert(picked[i] == hand);
    }
    lemma_table_filter(pred, picked);
}

/// What a `+` or a `-` denotes is taken from the table: at most 169 hands, each
/// an entry of the table.
pub proof fn lemma_ranges_within_table(reference: Hand)
    ensures
        gte_hands(reference).len() <= TABLE_LEN,
        lte_hands(reference).len() <= TABLE_LEN,
        forall|i: int|
            0 <= i < gte_hands(reference).len() ==> canonical_table().contains(
                #[trigger] gte_hands(reference)[i],
            ),
        forall|i: int|
            0 <= i < lte_hands(reference).len() ==> canonical_table().contains(
                #[trigger] lte_hands(reference)[i],
            ),
{
    lemma_table_length();
    canonical_table().lemma_filter_len(gte_filter(reference));
    canonical_table().lemma_filter_len(lte_filter(reference));
    assert forall|i: int| 0 <= i < gte_hands(reference).len() implies canonical_table().contains(
        #[trigger] gte_hands(reference)[i],
    ) by {
        canonical_table().lemma_filter_contains_rev(gte_filter(reference), gte_hands(reference)[i]);
    }
    assert forall|i: int| 0 <= i < lte_hands(reference).len() implies canonical_table().contains(
        #[trigger] lte_hands(reference)[i],
    ) by {
        canonical_table().lemma_filter_contains_rev(lte_filter(reference), lte_hands(reference)[i]);
    }
}

} // verus!
