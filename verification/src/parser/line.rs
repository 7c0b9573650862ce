//! A line of ranges: range expressions with commas between them.

use vstd::prelude::*;
use crate::parser::error::ParseError;
use crate::parser::grammar::range_at;
use crate::parser::hand::Hand;
use crate::parser::text::chars_of;
use crate::parser::text::trimmed;
use crate::parser::ParseResult;
use crate::parser::Parser;

verus! {

/// The pieces of `s` between its commas, in order: one more than it has
/// commas, empty pieces among them.
pub open spec fn split_commas(s: Seq<char>) -> Seq<Seq<char>>
    decreases s.len(),
{
    if s.len() == 0 {
        seq![Seq::empty()]
    } else {
        let before = split_commas(s.drop_last());
        if s.last() == ',' {
            before.push(Seq::empty())
        } else {
            before.drop_last().push(before.last().push(s.last()))
        }
    }
}

/// The hands of the ranges in `pieces`, one after another: each piece is
/// trimmed and read as a range from its start. The first piece that fails
/// gives its error.
pub open spec fn ranges_of(pieces: Seq<Seq<char>>) -> Result<Seq<Hand>, ParseError>
    decreases pieces.len(),
{
    if pieces.len() == 0 {
        Ok(Seq::empty())
    } else {
        match ranges_of(pieces.drop_last()) {
            Err(e) => Err(e),
            Ok(hands) => match range_at(trimmed(pieces.last()), 0) {
                Err(e) => Err(e),
                Ok(more) => Ok(hands + more),
            },
        }
    }
}

/// The hands that a line of ranges denotes.
pub open spec fn line_hands(line: Seq<char>) -> Result<Seq<Hand>, ParseError> {
    ranges_of(split_commas(line))
}

/// The pieces put together again, with a comma between each two.
pub open spec fn joined(pieces: Seq<Seq<char>>) -> Seq<char>
    decreases pieces.len(),
{
    if pieces.len() == 0 {
        Seq::empty()
    } else if pieces.len() == 1 {
        pieces[0]
    } else {
        joined(pieces.drop_last()) + seq![','] + pieces.last()
    }
}

/// Splitting cuts a text at its commas and nowhere else: there is always a
/// piece, no piece holds a comma, and the pieces with commas between them are
/// the text.
pub proof fn lemma_split_joins(s: Seq<char>)
    ensures
        split_commas(s).len() >= 1,
        joined(split_commas(s)) == s,
        forall|k: int, i: int|
            0 <= k < split_commas(s).len() && 0 <= i < split_commas(s)[k].len()
                ==> #[trigger] split_commas(s)[k][i] != ',',
    decreases s.len(),
{
    if s.len() > 0 {
        let rest = s.drop_last();
        let before = split_commas(rest);
        lemma_split_joins(rest);
        assert(s == rest.push(s.last()));
        if s.last() == ',' {
            assert(before.push(Seq::empty()).drop_last() == before);
            assert(joined(before) + seq![','] + Seq::<char>::empty() == rest.push(','));
        } else {
            let grown = before.last().push(s.last());
            let pieces = before.drop_last().push(grown);
            assert(pieces.drop_last() == before.drop_last());
            if before.len() > 1 {
                assert(joined(before.drop_last()) + seq![','] + grown == (joined(
                    before.drop_last(),
                ) + seq![','] + before.last()).push(s.last()));
            }
            assert forall|k: int, i: int|
                0 <= k < pieces.len() && 0 <= i < pieces[k].len() implies #[trigger] pieces[k][i]
                != ',' by {
                if k < pieces.len() - 1 {
                    assert(pieces[k] == before[k]);
                } else if i < before.last().len() {
                    assert(pieces[k][i] == before[before.len() - 1][i]);
                }
            }
        }
    }
}

/// A line without a comma is one range.
pub proof fn lemma_line_of_one_range(line: Seq<char>)
    requires
        forall|i: int| 0 <= i < line.len() ==> line[i] != ',',
    ensures
        split_commas(line) == seq![line],
        line_hands(line) == range_at(trimmed(line), 0),
    decreases line.len(),
{
    if line.len() > 0 {
        let rest = line.drop_last();
        lemma_line_of_one_range(rest);
        let before = seq![rest];
        assert(before.last() == rest);
        assert(rest.push(line.last()) =~= line);
        assert(before.drop_last().push(line) =~= seq![line]);
    } else {
        assert(line =~= Seq::<char>::empty());
    }
    let pieces = seq![line];
    assert(pieces.drop_last() == Seq::<Seq<char>>::empty());
    assert(ranges_of(pieces.drop_last()) == Ok::<Seq<Hand>, ParseError>(Seq::empty()));
    match range_at(trimmed(line), 0) {
        Ok(more) => {
            assert(Seq::<Hand>::empty() + more == more);
        },
        Err(_) => {},
    }
}

/// An error among the first `n` pieces is the error of all the pieces.
pub proof fn lemma_error_persists(pieces: Seq<Seq<char>>, n: int)
    requires
        0 <= n <= pieces.len(),
        ranges_of(pieces.take(n)) is Err,
    ensures
        ranges_of(pieces) == ranges_of(pieces.take(n)),
    decreases pieces.len(),
{
    if n < pieces.len() {
        assert(pieces.drop_last().take(n) == pieces.take(n));
        lemma_error_persists(pieces.drop_last(), n);
    } else {
        assert(pieces.take(n) == pieces);
    }
}

/// The pieces of a line between its commas.
pub fn split_line<'a>(line: &'a str) -> (pieces: Vec<&'a str>)
    ensures
        pieces@.len() == split_commas(line@).len(),
        forall|k: int| 0 <= k < pieces@.len() ==> (#[trigger] pieces@[k])@ == split_commas(line@)[k],
{
    let characters = chars_of(line);
    let mut pieces: Vec<&'a str> = Vec::new();
    let mut start: usize = 0;
    let mut i: usize = 0;
    while i < characters.len()
        invariant
            start <= i <= characters.len(),
            characters@ == line@,
            split_commas(characters@.take(i as int)).len() == pieces@.len() + 1,
            forall|k: int|
                0 <= k < pieces@.len() ==> (#[trigger] pieces@[k])@ == split_commas(
                    characters@.take(i as int),
                )[k],
            split_commas(characters@.take(i as int)).last() == characters@.subrange(
                start as int,
                i as int,
            ),
        decreases characters.len() - i,
    {
        proof {
            assert(characters@.take(i + 1).drop_last() == characters@.take(i as int));
            assert(characters@.take(i + 1).last() == characters@[i as int]);
        }
        if characters[i] == ',' {
            pieces.push(line.substring_char(start, i));
            start = i + 1;
            proof {
                assert(characters@.subrange(start as int, start as int) == Seq::<char>::empty());
            }
        } else {
            proof {
                assert(characters@.subrange(start as int, i as int).push(characters@[i as int])
                    == characters@.subrange(start as int, i + 1));
            }
        }
        i += 1;
    }
    assert(characters@.take(i as int) == characters@);
    pieces.push(line.substring_char(start, i));
    pieces
}

/// Reads a line of ranges and gives the hands of all of them, in the order of
/// the line; or the error of the first range that fails.
pub fn parse_line(line: &str) -> (hands: ParseResult<Vec<Hand>>)
    ensures
        (match hands {
            Ok(list) => line_hands(line@) == Ok::<Seq<Hand>, ParseError>(list@),
            Err(e) => line_hands(line@) == Err::<Seq<Hand>, ParseError>(e),
        }),
{
    let pieces = split_line(line);
    let ghost texts = split_commas(line@);
    let mut hands: Vec<Hand> = Vec::new();
    let mut k: usize = 0;
    while k < pieces.len()
        invariant
            k <= pieces.len(),
            texts == split_commas(line@),
            pieces@.len() == texts.len(),
            forall|j: int| 0 <= j < pieces@.len() ==> (#[trigger] pieces@[j])@ == texts[j],
            ranges_of(texts.take(k as int)) == Ok::<Seq<Hand>, ParseError>(hands@),
        decreases pieces.len() - k,
    {
        proof {
            assert(texts.take(k + 1).drop_last() == texts.take(k as int));
            assert(texts.take(k + 1).last() == texts[k as int]);
        }
        let mut parser = Parser::new(pieces[k]);
        match parser.parse_range() {
            Ok(mut more) => {
                hands.append(&mut more);
            },
            Err(e) => {
                proof {
                    lemma_error_persists(texts, k + 1);
                }
                return Err(e);
            },
        }
        k += 1;
    }
    assert(texts.take(k as int) == texts);
    Ok(hands)
}

} // verus!
