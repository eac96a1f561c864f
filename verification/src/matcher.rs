//! Keyword matching: a topic is referenced where any of its keywords occurs
//! in the text.

use vstd::prelude::*;
use crate::text::{contains_text, occurs_in, texts};

verus! {

/// Some keyword occurs in `text` as a contiguous run of characters.
pub open spec fn mentions(keywords: Seq<Seq<char>>, text: Seq<char>) -> bool {
    exists|k: int| 0 <= k < keywords.len() && occurs_in(#[trigger] keywords[k], text)
}

/// Whether any of `keywords` occurs in `text`. Both are compared as given, so
/// callers pass lowercased text and lowercased keywords. The search stops at
/// the first keyword found.
pub fn matches(text: &str, keywords: &Vec<String>) -> (found: bool)
    ensures
        found == mentions(texts(keywords@), text@),
{
    let mut k: usize = 0;
    while k < keywords.len()
        invariant
            k <= keywords.len(),
            forall|j: int| 0 <= j < k ==> !occurs_in(#[trigger] texts(keywords@)[j], text@),
        decreases keywords.len() - k,
    {
        if contains_text(text, keywords[k].as_str()) {
            assert(occurs_in(texts(keywords@)[k as int], text@));
            return true;
        }
        k += 1;
    }
    false
}

} // verus!
