//! The canonical table of the 169 starting hands.

use vstd::prelude::*;
use crate::parser::card::lemma_strength_names_rank;
use crate::parser::card::CardType;
use crate::parser::card::SuitedType;
use crate::parser::hand::Hand;

verus! {

/// The number of hands in the canonical table.
pub const TABLE_LEN: usize = 169;

/// The non-pairs of first rank `high` with the `count` ranks next below it as
/// second rank, highest first, each suited and then offsuit.
pub open spec fn kickers(high: CardType, count: nat) -> Seq<Hand>
    decreases count,
{
    if count == 0 {
        Seq::empty()
    } else {
        let low = CardType::with_strength(high.strength() - count);
        kickers(high, (count - 1) as nat).push(Hand(high, low, SuitedType::Suited)).push(
            Hand(high, low, SuitedType::Offsuit),
        )
    }
}

/// The hands of first rank `high`: the pair, then the non-pairs with every lower rank.
pub open spec fn block(high: CardType) -> Seq<Hand> {
    seq![Hand(high, high, SuitedType::Unspecified)] + kickers(high, (high.strength() - 2) as nat)
}

/// The blocks of the `count` highest ranks, `Ace` first.
pub open spec fn blocks(count: nat) -> Seq<Hand>
    decreases count,
{
    if count == 0 {
        Seq::empty()
    } else {
        blocks((count - 1) as nat) + block(CardType::with_strength(15 - count))
    }
}

/// The canonical table: every starting hand once, by first rank from `Ace` down,
/// within a first rank the pair first and then the non-pairs by second rank from
/// the highest down, suited before offsuit.
pub open spec fn canonical_table() -> Seq<Hand> {
    blocks(13)
}

/// Where the block of first rank `high` begins in the table: the number of
/// hands whose first rank is higher.
pub open spec fn block_start(high: CardType) -> int {
    match high {
        CardType::Ace => 0,
        CardType::King => 25,
        CardType::Queen => 48,
        CardType::Jack => 69,
        CardType::Ten => 88,
        CardType::Nine => 105,
        CardType::Eight => 120,
        CardType::Seven => 133,
        CardType::Six => 144,
        CardType::Five => 153,
        CardType::Four => 160,
        CardType::Three => 165,
        CardType::Two => 168,
    }
}

/// Where a hand in table form stands in the table.
pub open spec fn position(hand: Hand) -> int {
    if hand.0 == hand.1 {
        block_start(hand.0)
    } else {
        block_start(hand.0) + 1 + 2 * (hand.0.strength() - 1 - hand.1.strength()) + if hand.2 is Suited {
            0int
        } else {
            1int
        }
    }
}

/// Builds the canonical table.
pub fn valid_hands() -> (hands: Vec<Hand>)
    ensures
        hands@ == canonical_table(),
        hands.len() == TABLE_LEN,
{
    proof {
        lemma_table_length();
    }
    let mut hands: Vec<Hand> = Vec::new();
    let mut high: u8 = 14;
    while high >= 2
        invariant
            1 <= high <= 14,
            hands@ == blocks((14 - high) as nat),
        decreases high,
    {
        let top = rank_of(high);
        hands.push(Hand(top, top, SuitedType::Unspecified));
        let mut low: u8 = high - 1;
        while low >= 2
            invariant
                2 <= high <= 14,
                1 <= low < high,
                top.strength() == high,
                hands@ == blocks((14 - high) as nat) + seq![Hand(top, top, SuitedType::Unspecified)]
                    + kickers(top, (high - 1 - low) as nat),
            decreases low,
        {
            let bottom = rank_of(low);
            hands.push(Hand(top, bottom, SuitedType::Suited));
            hands.push(Hand(top, bottom, SuitedType::Offsuit));
            low = low - 1;
            assert(hands@ == blocks((14 - high) as nat) + seq![
                Hand(top, top, SuitedType::Unspecified),
            ] + kickers(top, (high - 1 - low) as nat));
        }
        assert(hands@ == blocks((14 - high) as nat) + block(top));
        high = high - 1;
    }
    hands
}

/// The rank with ranking key `key`.
fn rank_of(key: u8) -> (rank: CardType)
    requires
        2 <= key <= 14,
    ensures
        rank == CardType::with_strength(key as int),
        rank.strength() == key,
{
    CardType::from_value(key).unwrap()
}

/// The non-pair that stands at index `k` among the non-pairs of first rank `high`.
pub open spec fn kicker_at(high: CardType, k: int) -> Hand {
    Hand(
        high,
        CardType::with_strength(high.strength() - 1 - k / 2),
        if k % 2 == 0 {
            SuitedType::Suited
        } else {
            SuitedType::Offsuit
        },
    )
}

/// Two hands hold the same two ranks, in either order.
pub open spec fn same_ranks(a: Hand, b: Hand) -> bool {
    (a.0 == b.0 && a.1 == b.1) || (a.0 == b.1 && a.1 == b.0)
}

proof fn lemma_kickers(high: CardType, count: nat)
    ensures
        kickers(high, count).len() == 2 * count,
        forall|k: int| 0 <= k < 2 * count ==> #[trigger] kickers(high, count)[k] == kicker_at(high, k),
    decreases count,
{
    if count > 0 {
        lemma_kickers(high, (count - 1) as nat);
    }
}

proof fn lemma_block(high: CardType)
    ensures
        block(high).len() == 2 * high.strength() - 3,
        block(high)[0] == Hand(high, high, SuitedType::Unspecified),
        forall|k: int|
            1 <= k < 2 * high.strength() - 3 ==> #[trigger] block(high)[k] == kicker_at(high, k - 1),
{
    lemma_kickers(high, (high.strength() - 2) as nat);
}

proof fn lemma_blocks_extend(count: nat, total: nat)
    requires
        count <= total,
    ensures
        blocks(count).len() <= blocks(total).len(),
        forall|i: int| 0 <= i < blocks(count).len() ==> #[trigger] blocks(total)[i] == blocks(count)[i],
    decreases total,
{
    if count < total {
        lemma_blocks_extend(count, (total - 1) as nat);
    }
}

proof fn lemma_block_starts()
    ensures
        blocks(0).len() == 0,
        blocks(1).len() == 25,
        blocks(2).len() == 48,
        blocks(3).len() == 69,
        blocks(4).len() == 88,
        blocks(5).len() == 105,
        blocks(6).len() == 120,
        blocks(7).len() == 133,
        blocks(8).len() == 144,
        blocks(9).len() == 153,
        blocks(10).len() == 160,
        blocks(11).len() == 165,
        blocks(12).len() == 168,
        blocks(13).len() == 169,
{
    lemma_block(CardType::Ace);
    lemma_block(CardType::King);
    lemma_block(CardType::Queen);
    lemma_block(CardType::Jack);
    lemma_block(CardType::Ten);
    lemma_block(CardType::Nine);
    lemma_block(CardType::Eight);
    lemma_block(CardType::Seven);
    lemma_block(CardType::Six);
    lemma_block(CardType::Five);
    lemma_block(CardType::Four);
    lemma_block(CardType::Three);
    lemma_block(CardType::Two);
    assert(blocks(0).len() == 0);
    assert(blocks(1).len() == 25);
    assert(blocks(2).len() == 48);
    assert(blocks(3).len() == 69);
    assert(blocks(4).len() == 88);
    assert(blocks(5).len() == 105);
    assert(blocks(6).len() == 120);
    assert(blocks(7).len() == 133);
    assert(blocks(8).len() == 144);
    assert(blocks(9).len() == 153);
    assert(blocks(10).len() == 160);
    assert(blocks(11).len() == 165);
    assert(blocks(12).len() == 168);
    assert(blocks(13).len() == 169);
}

proof fn lemma_block_start(high: CardType)
    ensures
        block_start(high) == blocks((14 - high.strength()) as nat).len(),
        0 <= block_start(high) <= 168,
{
    lemma_block_starts();
}

/// The entry at offset `k` of the block that follows `count` blocks.
proof fn lemma_block_entry(count: nat, k: int)
    requires
        count < 13,
        0 <= k < 25 - 2 * count,
    ensures
        blocks(count).len() + k < blocks(13).len(),
        canonical_table()[blocks(count).len() + k] == block(CardType::with_strength(14 - count))[k],
        canonical_table()[blocks(count).len() + k].canonical(),
        position(canonical_table()[blocks(count).len() + k]) == blocks(count).len() + k,
{
    let high = CardType::with_strength(14 - count);
    let next = (count + 1) as nat;
    let at = blocks(count).len() + k;
    lemma_strength_names_rank(high, 14 - count);
    lemma_block_start(high);
    lemma_block(high);
    lemma_blocks_extend(next, 13);
    assert(blocks(next) == blocks(count) + block(high));
    assert(blocks(next)[at] == block(high)[k]);
    let hand = canonical_table()[at];
    if k > 0 {
        let low = high.strength() - 1 - (k - 1) / 2;
        assert(hand == kicker_at(high, k - 1));
        lemma_strength_names_rank(high, low);
        assert(hand.1.strength() == low);
    }
}

/// The table holds 169 hands.
pub proof fn lemma_table_length()
    ensures
        canonical_table().len() == TABLE_LEN,
{
    lemma_block_starts();
}

/// Every entry of the table is in table form, and `position` gives its index.
pub proof fn lemma_table_index(i: int)
    requires
        0 <= i < TABLE_LEN,
    ensures
        canonical_table()[i].canonical(),
        position(canonical_table()[i]) == i,
{
    lemma_block_starts();
    if i < 25 {
        lemma_block_entry(0, i);
    } else if i < 48 {
        lemma_block_entry(1, i - 25);
    } else if i < 69 {
        lemma_block_entry(2, i - 48);
    } else if i < 88 {
        lemma_block_entry(3, i - 69);
    } else if i < 105 {
        lemma_block_entry(4, i - 88);
    } else if i < 120 {
        lemma_block_entry(5, i - 105);
    } else if i < 133 {
        lemma_block_entry(6, i - 120);
    } else if i < 144 {
        lemma_block_entry(7, i - 133);
    } else if i < 153 {
        lemma_block_entry(8, i - 144);
    } else if i < 160 {
        lemma_block_entry(9, i - 153);
    } else if i < 165 {
        lemma_block_entry(10, i - 160);
    } else if i < 168 {
        lemma_block_entry(11, i - 165);
    } else {
        lemma_block_entry(12, i - 168);
    }
}

/// Every hand in table form stands in the table, at the index that `position` gives.
pub proof fn lemma_table_entry(hand: Hand)
    requires
        hand.canonical(),
    ensures
        0 <= position(hand) < TABLE_LEN,
        canonical_table()[position(hand)] == hand,
        canonical_table().contains(hand),
{
    let count = (14 - hand.0.strength()) as nat;
    let k = position(hand) - blocks(count).len();
    lemma_strength_names_rank(hand.0, hand.1.strength());
    lemma_strength_names_rank(hand.1, 0);
    lemma_block_starts();
    lemma_block_start(hand.0);
    lemma_block_entry(count, k);
    lemma_block(hand.0);
    if k > 0 {
        assert((k - 1) / 2 == hand.0.strength() - 1 - hand.1.strength());
    }
}

/// In the table every pair is tagged `Unspecified` and every non-pair `Suited`
/// or `Offsuit`, with its higher rank first.
pub proof fn lemma_table_entries_wellformed()
    ensures
        forall|i: int|
            0 <= i < canonical_table().len() ==> (#[trigger] canonical_table()[i]).canonical(),
        forall|i: int|
            0 <= i < canonical_table().len() ==> (#[trigger] canonical_table()[i]).valid(),
        forall|i: int|
            0 <= i < canonical_table().len() && canonical_table()[i].0 == canonical_table()[i].1
                ==> (#[trigger] canonical_table()[i]).2 is Unspecified,
        forall|i: int|
            0 <= i < canonical_table().len() && canonical_table()[i].0 != canonical_table()[i].1
                ==> ((#[trigger] canonical_table()[i]).2 is Suited || canonical_table()[i].2 is Offsuit)
                && canonical_table()[i].0.strength() > canonical_table()[i].1.strength(),
{
    lemma_table_length();
    assert forall|i: int| 0 <= i < canonical_table().len() implies (#[trigger] canonical_table()[
        i
    ]).canonical() by {
        lemma_table_index(i);
    }
}

/// No two entries of the table hold the same two ranks with the same suitedness.
pub proof fn lemma_table_no_duplicates()
    ensures
        forall|i: int, j: int|
            0 <= i < canonical_table().len() && 0 <= j < canonical_table().len() && i != j
                ==> #[trigger] canonical_table()[i] != #[trigger] canonical_table()[j],
        forall|i: int, j: int|
            0 <= i < canonical_table().len() && 0 <= j < canonical_table().len() && i != j ==> !(
            same_ranks(#[trigger] canonical_table()[i], #[trigger] canonical_table()[j])
                && canonical_table()[i].2 == canonical_table()[j].2),
        canonical_table().no_duplicates(),
{
    lemma_table_length();
    assert forall|i: int, j: int|
        0 <= i < canonical_table().len() && 0 <= j < canonical_table().len() && i != j implies
        #[trigger] canonical_table()[i] != #[trigger] canonical_table()[j] && !(same_ranks(
        canonical_table()[i],
        canonical_table()[j],
    ) && canonical_table()[i].2 == canonical_table()[j].2) by {
        lemma_table_index(i);
        lemma_table_index(j);
    }
}

/// Whether `a` comes before `b` in the order of the table: by first rank from
/// the highest down; within a first rank the pair first, then by second rank
/// from the highest down; within the same two ranks suited before offsuit.
pub open spec fn precedes(a: Hand, b: Hand) -> bool {
    if a.0 != b.0 {
        a.0.strength() > b.0.strength()
    } else if a.1 != b.1 {
        a.0 == a.1 || (b.0 != b.1 && a.1.strength() > b.1.strength())
    } else {
        a.2 is Suited && b.2 is Offsuit
    }
}

/// The table stands in the order of `precedes`.
pub proof fn lemma_table_order(a: Hand, b: Hand)
    requires
        a.canonical(),
        b.canonical(),
    ensures
        position(a) < position(b) <==> precedes(a, b),
{
    lemma_strength_names_rank(a.0, 0);
    lemma_strength_names_rank(a.1, 0);
    lemma_strength_names_rank(b.0, 0);
    lemma_strength_names_rank(b.1, 0);
}

} // verus!
