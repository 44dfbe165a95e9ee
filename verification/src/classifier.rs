//! Width classes of single scalar values and of grapheme clusters.

use crate::code_point_ranges::{
    in_table, lemma_ascii_table_is_range_table, lemma_doublewide_table_is_range_table,
    lemma_tables_are_disjoint, table_contains, ASCII_TABLE, DOUBLEWIDE_TABLE,
};
use vstd::prelude::*;

verus! {

/// VARIATION SELECTOR-16, which asks for the emoji presentation of the
/// scalar before it.
pub const VARIATION_SELECTOR_16: char = '\u{FE0F}';

/// The scalar `c` occupies two cells: it is listed as double-width and not
/// as single-width.
pub open spec fn double_width(c: char) -> bool {
    &&& !table_contains(ASCII_TABLE@, c as u32)
    &&& table_contains(DOUBLEWIDE_TABLE@, c as u32)
}

/// The scalar `c` alone makes its cluster two cells wide.
pub open spec fn widens_cluster(c: char) -> bool {
    c == VARIATION_SELECTOR_16 || double_width(c)
}

/// The number of cells of one grapheme cluster: two when any of its scalars
/// widens it, one otherwise; an empty sequence takes no cell.
pub open spec fn cluster_width(cluster: Seq<char>) -> nat {
    if cluster.len() == 0 {
        0
    } else if exists|i: int| 0 <= i < cluster.len() && widens_cluster(#[trigger] cluster[i]) {
        2
    } else {
        1
    }
}

/// Tells whether the scalar `c` occupies two cells.
///
/// The single-width table is consulted first and wins; a scalar in neither
/// table is single-width. The answer depends on `c` alone.
pub fn is_double_width(c: char) -> (wide: bool)
    ensures
        wide == double_width(c),
        table_contains(ASCII_TABLE@, c as u32) ==> !wide,
        table_contains(DOUBLEWIDE_TABLE@, c as u32) && !table_contains(ASCII_TABLE@, c as u32)
            ==> wide,
{
    proof {
        lemma_ascii_table_is_range_table();
        lemma_doublewide_table_is_range_table();
    }
    if in_table(&ASCII_TABLE, c) {
        return false;
    }
    if in_table(&DOUBLEWIDE_TABLE, c) {
        return true;
    }
    false
}

/// Returns the number of cells that the grapheme cluster takes in a
/// monospace font: `1` or `2` for a cluster, `0` for the empty string.
pub fn get_grapheme_width(grapheme_cluster: &str) -> (w: u64)
    ensures
        w == cluster_width(grapheme_cluster@),
        grapheme_cluster@.len() > 0 ==> w == 1 || w == 2,
        grapheme_cluster@.contains(VARIATION_SELECTOR_16) ==> w == 2,
{
    for scalar_value in it: grapheme_cluster.chars()
        invariant
            it.seq() == grapheme_cluster@,
            forall|i: int|
                0 <= i < it.index() ==> !widens_cluster(#[trigger] grapheme_cluster@[i]),
    {
        if scalar_value == VARIATION_SELECTOR_16 || is_double_width(scalar_value) {
            return 2;
        }
    }
    if grapheme_cluster.is_empty() {
        0
    } else {
        1
    }
}

/// The two tables share no scalar, so a scalar is double-width exactly when
/// the double-width table lists it.
pub proof fn lemma_double_width_is_listed(c: char)
    ensures
        double_width(c) == table_contains(DOUBLEWIDE_TABLE@, c as u32),
{
    lemma_tables_are_disjoint(c as u32);
}

/// The width of a cluster does not depend on the order of its scalars, nor
/// on how often each occurs.
pub proof fn lemma_cluster_width_ignores_order(a: Seq<char>, b: Seq<char>)
    requires
        forall|c: char| a.contains(c) <==> b.contains(c),
    ensures
        cluster_width(a) == cluster_width(b),
{
    if cluster_width(a) == 2 {
        lemma_widening_carries_over(a, b);
    }
    if cluster_width(b) == 2 {
        lemma_widening_carries_over(b, a);
    }
    if a.len() > 0 {
        assert(a.contains(a[0]));
    }
    if b.len() > 0 {
        assert(b.contains(b[0]));
    }
}

/// A scalar of `a` that widens its cluster widens every cluster that holds
/// the scalars of `a`.
proof fn lemma_widening_carries_over(a: Seq<char>, b: Seq<char>)
    requires
        forall|c: char| a.contains(c) ==> b.contains(c),
        cluster_width(a) == 2,
    ensures
        cluster_width(b) == 2,
{
    let i = choose|i: int| 0 <= i < a.len() && widens_cluster(#[trigger] a[i]);
    assert(a.contains(a[i]));
    let j = choose|j: int| 0 <= j < b.len() && b[j] == a[i];
    assert(widens_cluster(b[j]));
}

} // verus!
