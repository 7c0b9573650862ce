//! Characters of an input line: white space and trimming.

use vstd::prelude::*;

verus! {

/// The characters that Unicode marks `White_Space`.
pub open spec fn is_white_space(c: char) -> bool {
    let code = c as u32;
    ||| 0x09 <= code <= 0x0d
    ||| code == 0x20
    ||| code == 0x85
    ||| code == 0xa0
    ||| code == 0x1680
    ||| 0x2000 <= code <= 0x200a
    ||| code == 0x2028
    ||| code == 0x2029
    ||| code == 0x202f
    ||| code == 0x205f
    ||| code == 0x3000
}

/// `s` without the white space it begins with.
pub open spec fn trimmed_start(s: Seq<char>) -> Seq<char>
    decreases s.len(),
{
    if s.len() > 0 && is_white_space(s.first()) {
        trimmed_start(s.drop_first())
    } else {
        s
    }
}

/// `s` without the white space it ends with.
pub open spec fn trimmed_end(s: Seq<char>) -> Seq<char>
    decreases s.len(),
{
    if s.len() > 0 && is_white_space(s.last()) {
        trimmed_end(s.drop_last())
    } else {
        s
    }
}

/// `s` without the white space at either end.
pub open spec fn trimmed(s: Seq<char>) -> Seq<char> {
    trimmed_end(trimmed_start(s))
}

/// `str::trim` of std: the slice that is left when the leading and the
/// trailing white space are taken away, white space being the characters that
/// Unicode marks `White_Space`. Believed, not proved.
pub assume_specification[ str::trim ](s: &str) -> (r: &str)
    ensures
        r@ == trimmed(s@),
;

/// `String::push` of std: the character is appended to the end of the string.
/// Believed, not proved.
pub assume_specification[ String::push ](s: &mut String, c: char)
    ensures
        final(s)@ == old(s)@.push(c),
;

/// The characters of a string slice, in order.
pub fn chars_of(s: &str) -> (characters: Vec<char>)
    ensures
        characters@ == s@,
{
    let mut characters: Vec<char> = Vec::new();
    for c in it: s.chars()
        invariant
            characters@ == it.seq().take(it.index()),
            it.seq() == s@,
    {
        characters.push(c);
    }
    characters
}

/// Text in which no character is white space is its own trimmed form.
pub proof fn lemma_trimmed_keeps(s: Seq<char>)
    requires
        s.len() == 0 || (!is_white_space(s.first()) && !is_white_space(s.last())),
    ensures
        trimmed(s) == s,
{
}

/// White space in front of a text is trimmed away with the white space the
/// text begins with.
proof fn lemma_trimmed_start_skips(left: Seq<char>, rest: Seq<char>)
    requires
        forall|i: int| 0 <= i < left.len() ==> is_white_space(#[trigger] left[i]),
    ensures
        trimmed_start(left + rest) == trimmed_start(rest),
    decreases left.len(),
{
    if left.len() == 0 {
        assert(left + rest == rest);
    } else {
        assert((left + rest).first() == left[0]);
        assert((left + rest).drop_first() == left.drop_first() + rest);
        lemma_trimmed_start_skips(left.drop_first(), rest);
    }
}

/// White space behind a text is trimmed away with the white space the text
/// ends with.
proof fn lemma_trimmed_end_skips(rest: Seq<char>, right: Seq<char>)
    requires
        forall|i: int| 0 <= i < right.len() ==> is_white_space(#[trigger] right[i]),
    ensures
        trimmed_end(rest + right) == trimmed_end(rest),
    decreases right.len(),
{
    if right.len() == 0 {
        assert(rest + right == rest);
    } else {
        assert((rest + right).last() == right.last());
        assert((rest + right).drop_last() == rest + right.drop_last());
        lemma_trimmed_end_skips(rest, right.drop_last());
    }
}

/// Trimming takes away the white space on both sides of a text and nothing
/// else: a text that neither begins nor ends with white space, with white
/// space put round it, is trimmed to itself.
pub proof fn lemma_trimmed_padded(left: Seq<char>, core: Seq<char>, right: Seq<char>)
    requires
        forall|i: int| 0 <= i < left.len() ==> is_white_space(#[trigger] left[i]),
        forall|i: int| 0 <= i < right.len() ==> is_white_space(#[trigger] right[i]),
        core.len() == 0 || (!is_white_space(core.first()) && !is_white_space(core.last())),
    ensures
        trimmed(left + core + right) == core,
{
    assert(left + core + right == left + (core + right));
    lemma_trimmed_start_skips(left, core + right);
    if core.len() == 0 {
        assert(core + right == right + core);
        lemma_trimmed_start_skips(right, core);
    } else {
        assert((core + right).first() == core.first());
        lemma_trimmed_end_skips(core, right);
    }
}

} // verus!
