//! Grapheme segmentation, done by the `unicode-segmentation` crate.

use unicode_segmentation::UnicodeSegmentation;
use vstd::prelude::*;

verus! {

/// The number of extended grapheme clusters (UAX #29) of `text`, as
/// `unicode-segmentation` splits it.
pub uninterp spec fn extended_grapheme_count(text: Seq<char>) -> nat;

/// Counts the extended grapheme clusters of `text` by calling
/// `UnicodeSegmentation::graphemes(text, true)` and counting what it yields.
/// Trusted: the count is `extended_grapheme_count` of the text, and it is at
/// most the number of chars, since every cluster the iterator yields is a
/// non-empty slice of the text and the slices do not overlap. Nothing else
/// is said of how the clusters are formed.
#[verifier::external_body]
pub(crate) fn count_extended_graphemes(text: &str) -> (count: usize)
    ensures
        count == extended_grapheme_count(text@),
        count <= text@.len(),
{
    text.graphemes(true).count()
}

} // verus!
