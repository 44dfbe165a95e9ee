//! Number of terminal columns that a Unicode string takes in a monospace font.
//!
//! A text is cut into extended grapheme clusters by the `unicode-segmentation`
//! crate. Each cluster takes one cell, or two when it holds VARIATION
//! SELECTOR-16 or a scalar that the tables of [`code_point_ranges`] list as
//! double-width; the width of the text is the sum over its clusters.

pub mod bounds;
pub mod classifier;
pub mod code_point_ranges;
pub mod segmentation;

pub use crate::classifier::{get_grapheme_width, is_double_width};

use crate::bounds::{
    lemma_count_at_most_flat_len, lemma_total_width_at_least_count,
    lemma_total_width_at_most_double, lemma_total_width_at_most_encoded_len,
    lemma_total_width_prefix, lemma_total_width_step,
};
use crate::classifier::cluster_width;
use crate::segmentation::{cluster_views, extended_graphemes, split_graphemes};
use vstd::prelude::*;

verus! {

/// The sum of the widths of `clusters`.
pub open spec fn total_width(clusters: Seq<Seq<char>>) -> nat
    decreases clusters.len(),
{
    if clusters.len() == 0 {
        0
    } else {
        total_width(clusters.drop_last()) + cluster_width(clusters.last())
    }
}

/// Sums the widths of the given grapheme clusters.
pub fn clusters_width(clusters: &[&str]) -> (w: u64)
    requires
        total_width(cluster_views(clusters@)) <= u64::MAX,
    ensures
        w == total_width(cluster_views(clusters@)),
        w <= 2 * clusters@.len(),
{
    let ghost parts = cluster_views(clusters@);
    proof {
        lemma_total_width_at_most_double(parts);
    }
    let mut acc: u64 = 0;
    let mut i: usize = 0;
    while i < clusters.len()
        invariant
            parts == cluster_views(clusters@),
            i <= clusters@.len(),
            acc == total_width(parts.take(i as int)),
            total_width(parts) <= u64::MAX,
        decreases clusters@.len() - i,
    {
        let cells: u64 = get_grapheme_width(clusters[i]);
        proof {
            lemma_total_width_step(parts, i as int);
            lemma_total_width_prefix(parts, i + 1);
        }
        acc = acc + cells;
        i = i + 1;
    }
    proof {
        assert(parts.take(i as int) =~= parts);
    }
    acc
}

/// Returns the number of columns that `text` takes in a monospace font: the
/// sum of the widths of its extended grapheme clusters.
///
/// The sum cannot overflow: no cluster has more cells than its encoding has
/// bytes, and the text has at most `usize::MAX` bytes.
#[allow(unused_variables)]
pub fn width(text: &str) -> (w: u64)
    ensures
        w == total_width(extended_graphemes(text@)),
        extended_graphemes(text@).len() <= w <= 2 * extended_graphemes(text@).len(),
        w <= 2 * text@.len(),
        text@.len() == 0 ==> w == 0,
{
    let clusters = split_graphemes(text);
    // Never read: the length of this slice bounds the sum in the proof below.
    let bytes = text.as_bytes();
    proof {
        let parts = cluster_views(clusters@);
        lemma_total_width_at_most_encoded_len(parts);
        lemma_total_width_at_most_double(parts);
        lemma_total_width_at_least_count(parts);
        lemma_count_at_most_flat_len(parts);
        assert(bytes@.len() == bytes.len());
    }
    clusters_width(clusters.as_slice())
}

} // verus!
