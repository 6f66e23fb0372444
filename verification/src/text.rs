//! Text as sequences of characters: what it means for one text to occur in
//! another.

use vstd::prelude::*;

verus! {

/// Whether `needle` occurs in `hay` as a run of consecutive characters. The
/// empty text occurs in every text.
pub open spec fn is_infix(needle: Seq<char>, hay: Seq<char>) -> bool {
    exists|at: int| occurs_at(needle, hay, at)
}

/// Whether `needle` stands in `hay` from position `at` on.
pub open spec fn occurs_at(needle: Seq<char>, hay: Seq<char>, at: int) -> bool {
    &&& 0 <= at
    &&& at + needle.len() <= hay.len()
    &&& hay.subrange(at, at + needle.len()) == needle
}

/// A text occurs in whatever is written around it.
pub proof fn lemma_infix_of_concat(before: Seq<char>, needle: Seq<char>, after: Seq<char>)
    ensures
        is_infix(needle, before + needle + after),
{
    let hay = before + needle + after;
    assert(hay.subrange(before.len() as int, (before.len() + needle.len()) as int) =~= needle);
    assert(occurs_at(needle, hay, before.len() as int));
}

/// Whether `hay` begins with `head`.
pub open spec fn starts_with(hay: Seq<char>, head: Seq<char>) -> bool {
    head.len() <= hay.len() && hay.subrange(0, head.len() as int) == head
}

/// Whether `hay` ends with `tail`.
pub open spec fn ends_with(hay: Seq<char>, tail: Seq<char>) -> bool {
    tail.len() <= hay.len() && hay.subrange(hay.len() - tail.len(), hay.len() as int) == tail
}

/// Calls `str::contains` with a string pattern.
///
/// Trusted: the result says whether the pattern matches a sub-slice of the
/// text. Both are valid UTF-8, so a match of the bytes begins and ends
/// between characters and is a run of the text's characters.
#[verifier::external_body]
pub(crate) fn str_contains(hay: &str, needle: &str) -> (found: bool)
    ensures
        found == is_infix(needle@, hay@),
{
    hay.contains(needle)
}

} // verus!
