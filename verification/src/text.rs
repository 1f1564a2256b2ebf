//! Text comparison: substring search, with and without regard to case.

use vstd::prelude::*;

verus! {

/// The characters that `str::to_lowercase` gives for `text`.
pub uninterp spec fn lowercase_of(text: Seq<char>) -> Seq<char>;

/// `needle` stands in `hay` at position `start`.
pub open spec fn occurs_at(needle: Seq<char>, hay: Seq<char>, start: int) -> bool {
    &&& 0 <= start
    &&& start + needle.len() <= hay.len()
    &&& hay.subrange(start, start + needle.len()) == needle
}

/// `needle` stands somewhere in `hay` as an unbroken run of characters.
pub open spec fn occurs_in(needle: Seq<char>, hay: Seq<char>) -> bool {
    exists|start: int| occurs_at(needle, hay, start)
}

/// Lower-case form of `text`.
///
/// Trusted: calls `str::to_lowercase`. The Unicode mapping is not written out;
/// the result is only given the name [`lowercase_of`].
#[verifier::external_body]
fn lowercase(text: &str) -> (folded: String)
    ensures
        folded@ == lowercase_of(text@),
{
    text.to_lowercase()
}

/// Substring test.
///
/// Trusted: calls `str::contains` with a string pattern, which is true exactly
/// when the pattern matches a sub-slice of the string.
#[verifier::external_body]
fn contains(hay: &str, needle: &str) -> (found: bool)
    ensures
        found == occurs_in(needle@, hay@),
{
    hay.contains(needle)
}

/// Whether `needle` occurs in `hay`, character for character.
pub fn contains_text(hay: &str, needle: &str) -> (found: bool)
    ensures
        found == occurs_in(needle@, hay@),
{
    contains(hay, needle)
}

/// Whether `needle` occurs in `hay` once both are put in lower case.
pub fn contains_ignoring_case(hay: &str, needle: &str) -> (found: bool)
    ensures
        found == occurs_in(lowercase_of(needle@), lowercase_of(hay@)),
{
    let hay_folded = lowercase(hay);
    let needle_folded = lowercase(needle);
    contains_text(hay_folded.as_str(), needle_folded.as_str())
}

} // verus!
