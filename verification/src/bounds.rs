//! Bounds on the width of a sequence of clusters.

use crate::classifier::{cluster_width, double_width, widens_cluster};
use crate::code_point_ranges::lemma_doublewide_table_lower_bound;
use crate::total_width;
use vstd::prelude::*;
use vstd::utf8::encode_utf8;

verus! {

/// Taking one more cluster adds its width.
pub proof fn lemma_total_width_step(clusters: Seq<Seq<char>>, n: int)
    requires
        0 <= n < clusters.len(),
    ensures
        total_width(clusters.take(n + 1)) == total_width(clusters.take(n)) + cluster_width(
            clusters[n],
        ),
{
    assert(clusters.take(n + 1).drop_last() =~= clusters.take(n));
}

/// A prefix is no wider than the whole.
pub proof fn lemma_total_width_prefix(clusters: Seq<Seq<char>>, n: int)
    requires
        0 <= n <= clusters.len(),
    ensures
        total_width(clusters.take(n)) <= total_width(clusters),
    decreases clusters.len() - n,
{
    if n < clusters.len() {
        lemma_total_width_step(clusters, n);
        lemma_total_width_prefix(clusters, n + 1);
    } else {
        assert(clusters.take(n) =~= clusters);
    }
}

/// The width of a concatenation is the sum of the widths of its two parts.
pub proof fn lemma_total_width_concat(front: Seq<Seq<char>>, back: Seq<Seq<char>>)
    ensures
        total_width(front + back) == total_width(front) + total_width(back),
    decreases back.len(),
{
    if back.len() == 0 {
        assert(front + back =~= front);
    } else {
        assert((front + back).drop_last() =~= front + back.drop_last());
        lemma_total_width_concat(front, back.drop_last());
    }
}

/// No cluster is wider than two cells, so the sum is at most twice the
/// number of clusters.
pub proof fn lemma_total_width_at_most_double(clusters: Seq<Seq<char>>)
    ensures
        total_width(clusters) <= 2 * clusters.len(),
    decreases clusters.len(),
{
    if clusters.len() > 0 {
        lemma_total_width_at_most_double(clusters.drop_last());
    }
}

/// Non-empty clusters take at least one cell each.
pub proof fn lemma_total_width_at_least_count(clusters: Seq<Seq<char>>)
    requires
        forall|i: int| 0 <= i < clusters.len() ==> (#[trigger] clusters[i]).len() > 0,
    ensures
        clusters.len() <= total_width(clusters),
    decreases clusters.len(),
{
    if clusters.len() > 0 {
        lemma_total_width_at_least_count(clusters.drop_last());
    }
}

/// Non-empty pieces are no more than the scalars that they hold together.
pub proof fn lemma_count_at_most_flat_len(parts: Seq<Seq<char>>)
    requires
        forall|i: int| 0 <= i < parts.len() ==> (#[trigger] parts[i]).len() > 0,
    ensures
        parts.len() <= parts.flatten().len(),
    decreases parts.len(),
{
    if parts.len() > 0 {
        let init = parts.drop_last();
        lemma_count_at_most_flat_len(init);
        init.lemma_flatten_push(parts.last());
        assert(init.push(parts.last()) =~= parts);
    }
}

/// The encoding of a concatenation is as long as the two encodings together.
pub proof fn lemma_encoded_len_concat(a: Seq<char>, b: Seq<char>)
    ensures
        encode_utf8(a + b).len() == encode_utf8(a).len() + encode_utf8(b).len(),
    decreases a.len(),
{
    if a.len() == 0 {
        assert(a + b =~= b);
    } else {
        assert((a + b).drop_first() =~= a.drop_first() + b);
        lemma_encoded_len_concat(a.drop_first(), b);
    }
}

/// Every scalar takes at least one byte.
pub proof fn lemma_encoded_len_at_least_len(s: Seq<char>)
    ensures
        s.len() <= encode_utf8(s).len(),
    decreases s.len(),
{
    if s.len() > 0 {
        lemma_encoded_len_at_least_len(s.drop_first());
    }
}

/// A scalar outside ASCII takes at least two bytes.
pub proof fn lemma_encoded_len_with_non_ascii(s: Seq<char>, i: int)
    requires
        0 <= i < s.len(),
        s[i] as u32 >= 0x80,
    ensures
        2 <= encode_utf8(s).len(),
    decreases s.len(),
{
    if i == 0 {
    } else {
        lemma_encoded_len_with_non_ascii(s.drop_first(), i - 1);
    }
}

/// A scalar that widens its cluster lies outside ASCII.
pub proof fn lemma_widening_scalar_is_non_ascii(c: char)
    requires
        widens_cluster(c),
    ensures
        c as u32 >= 0x80,
{
    if double_width(c) {
        lemma_doublewide_table_lower_bound(c as u32);
    }
}

/// A cluster has no more cells than its encoding has bytes.
pub proof fn lemma_cluster_width_at_most_encoded_len(cluster: Seq<char>)
    ensures
        cluster_width(cluster) <= encode_utf8(cluster).len(),
{
    lemma_encoded_len_at_least_len(cluster);
    if cluster_width(cluster) == 2 {
        let i = choose|i: int| 0 <= i < cluster.len() && widens_cluster(#[trigger] cluster[i]);
        lemma_widening_scalar_is_non_ascii(cluster[i]);
        lemma_encoded_len_with_non_ascii(cluster, i);
    }
}

/// The clusters of a text have no more cells than the text has bytes.
pub proof fn lemma_total_width_at_most_encoded_len(clusters: Seq<Seq<char>>)
    ensures
        total_width(clusters) <= encode_utf8(clusters.flatten()).len(),
    decreases clusters.len(),
{
    if clusters.len() > 0 {
        let init = clusters.drop_last();
        lemma_total_width_at_most_encoded_len(init);
        lemma_cluster_width_at_most_encoded_len(clusters.last());
        init.lemma_flatten_push(clusters.last());
        assert(init.push(clusters.last()) =~= clusters);
        lemma_encoded_len_concat(init.flatten(), clusters.last());
    }
}

} // verus!
