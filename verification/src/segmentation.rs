//! Extended grapheme clusters, as the `unicode-segmentation` crate draws them.

use unicode_segmentation::UnicodeSegmentation;
use vstd::prelude::*;

verus! {

/// The extended grapheme clusters of `text`, in order, as
/// `UnicodeSegmentation::graphemes(text, true)` yields them. The boundary
/// rules are those of the crate's Unicode tables and are not restated here.
pub uninterp spec fn extended_graphemes(text: Seq<char>) -> Seq<Seq<char>>;

/// The scalars of each string slice of `clusters`.
pub open spec fn cluster_views(clusters: Seq<&str>) -> Seq<Seq<char>> {
    clusters.map_values(|s: &str| s@)
}

/// `parts` cuts `text` into non-empty consecutive pieces.
pub open spec fn is_segmentation(parts: Seq<Seq<char>>, text: Seq<char>) -> bool {
    &&& forall|i: int| 0 <= i < parts.len() ==> (#[trigger] parts[i]).len() > 0
    &&& parts.flatten() == text
}

/// Calls `UnicodeSegmentation::graphemes(text, true)` of the
/// `unicode-segmentation` crate and collects the clusters that it yields.
///
/// Not proved, but taken from the crate's source: the iterator hands out the
/// slice between one boundary and the next; it starts at offset zero, moves
/// forward by at least one scalar each time and stops at the end of the
/// text. So the clusters are non-empty and, put together in order, give the
/// text back. Where the boundaries fall is left to the crate: the clusters
/// are `extended_graphemes` of the text.
#[verifier::external_body]
pub(crate) fn split_graphemes<'a>(text: &'a str) -> (clusters: Vec<&'a str>)
    ensures
        cluster_views(clusters@) == extended_graphemes(text@),
        is_segmentation(cluster_views(clusters@), text@),
{
    text.graphemes(true).collect()
}

} // verus!
