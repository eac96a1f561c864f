//! Case folding and substring search on character sequences.

use vstd::prelude::*;

verus! {

/// The text that `str::to_lowercase` produces for `text`.
pub uninterp spec fn lowercase_of(text: Seq<char>) -> Seq<char>;

/// The character sequences of a list of strings, in order.
pub open spec fn texts(items: Seq<String>) -> Seq<Seq<char>> {
    items.map_values(|item: String| item@)
}

/// The lowercase forms of a list of character sequences, in order.
pub open spec fn lowered(items: Seq<Seq<char>>) -> Seq<Seq<char>> {
    items.map_values(|item: Seq<char>| lowercase_of(item))
}

/// `needle` fills the positions `start .. start + needle.len()` of `haystack`.
pub open spec fn occurs_at(needle: Seq<char>, haystack: Seq<char>, start: int) -> bool {
    &&& 0 <= start
    &&& start + needle.len() <= haystack.len()
    &&& haystack.subrange(start, start + needle.len()) == needle
}

/// `needle` appears somewhere in `haystack` as an unbroken run of characters.
pub open spec fn occurs_in(needle: Seq<char>, haystack: Seq<char>) -> bool {
    exists|start: int| occurs_at(needle, haystack, start)
}

/// Trusted: `str::to_lowercase` returns the lowercase form of its receiver,
/// which depends on the characters of the receiver alone.
pub assume_specification[ str::to_lowercase ](text: &str) -> (lowercase: String)
    ensures
        lowercase@ == lowercase_of(text@),
;

/// Trusted: `str::contains`, given a string slice as its pattern, reports
/// whether the pattern matches a sub-slice of the receiver.
#[verifier::external_body]
pub(crate) fn contains_text(haystack: &str, needle: &str) -> (found: bool)
    ensures
        found == occurs_in(needle@, haystack@),
{
    haystack.contains(needle)
}

} // verus!
