//! Inclusive code-point ranges and the two static classification tables.

use vstd::prelude::*;

verus! {

/// An inclusive interval of code points, written `(start, end)`.
pub type CodePointRange = (u32, u32);

/// The largest Unicode code point.
pub const MAX_CODE_POINT: u32 = 0x10FFFF;

/// Code points known to occupy a single cell: U+0000..U+007E, followed by
/// the code points whose East Asian Width is Narrow or Halfwidth
/// (Unicode 14.0.0).
pub const ASCII_TABLE: [CodePointRange; 14] = [
    (0x0000, 0x007E), (0x00A2, 0x00A3), (0x00A5, 0x00A6), (0x00AC, 0x00AC),
    (0x00AF, 0x00AF), (0x20A9, 0x20A9), (0x27E6, 0x27ED), (0x2985, 0x2986),
    (0xFF61, 0xFFBE), (0xFFC2, 0xFFC7), (0xFFCA, 0xFFCF), (0xFFD2, 0xFFD7),
    (0xFFDA, 0xFFDC), (0xFFE8, 0xFFEE),
];

/// Code points that occupy two cells: those whose East Asian Width is Wide
/// or Fullwidth (Unicode 14.0.0), together with the unassigned code points
/// of the blocks that default to Wide.
pub const DOUBLEWIDE_TABLE: [CodePointRange; 121] = [
    (0x1100, 0x115F), (0x231A, 0x231B), (0x2329, 0x232A), (0x23E9, 0x23EC),
    (0x23F0, 0x23F0), (0x23F3, 0x23F3), (0x25FD, 0x25FE), (0x2614, 0x2615),
    (0x2648, 0x2653), (0x267F, 0x267F), (0x2693, 0x2693), (0x26A1, 0x26A1),
    (0x26AA, 0x26AB), (0x26BD, 0x26BE), (0x26C4, 0x26C5), (0x26CE, 0x26CE),
    (0x26D4, 0x26D4), (0x26EA, 0x26EA), (0x26F2, 0x26F3), (0x26F5, 0x26F5),
    (0x26FA, 0x26FA), (0x26FD, 0x26FD), (0x2705, 0x2705), (0x270A, 0x270B),
    (0x2728, 0x2728), (0x274C, 0x274C), (0x274E, 0x274E), (0x2753, 0x2755),
    (0x2757, 0x2757), (0x2795, 0x2797), (0x27B0, 0x27B0), (0x27BF, 0x27BF),
    (0x2B1B, 0x2B1C), (0x2B50, 0x2B50), (0x2B55, 0x2B55), (0x2E80, 0x2E99),
    (0x2E9B, 0x2EF3), (0x2F00, 0x2FD5), (0x2FF0, 0x2FFB), (0x3000, 0x303E),
    (0x3041, 0x3096), (0x3099, 0x30FF), (0x3105, 0x312F), (0x3131, 0x318E),
    (0x3190, 0x31E3), (0x31F0, 0x321E), (0x3220, 0x3247), (0x3250, 0x4DBF),
    (0x4E00, 0xA48C), (0xA490, 0xA4C6), (0xA960, 0xA97C), (0xAC00, 0xD7A3),
    (0xF900, 0xFAFF), (0xFE10, 0xFE19), (0xFE30, 0xFE52), (0xFE54, 0xFE66),
    (0xFE68, 0xFE6B), (0xFF01, 0xFF60), (0xFFE0, 0xFFE6), (0x16FE0, 0x16FE4),
    (0x16FF0, 0x16FF1), (0x17000, 0x187F7), (0x18800, 0x18CD5), (0x18D00, 0x18D08),
    (0x1AFF0, 0x1AFF3), (0x1AFF5, 0x1AFFB), (0x1AFFD, 0x1AFFE), (0x1B000, 0x1B122),
    (0x1B150, 0x1B152), (0x1B164, 0x1B167), (0x1B170, 0x1B2FB), (0x1F004, 0x1F004),
    (0x1F0CF, 0x1F0CF), (0x1F18E, 0x1F18E), (0x1F191, 0x1F19A), (0x1F200, 0x1F202),
    (0x1F210, 0x1F23B), (0x1F240, 0x1F248), (0x1F250, 0x1F251), (0x1F260, 0x1F265),
    (0x1F300, 0x1F320), (0x1F32D, 0x1F335), (0x1F337, 0x1F37C), (0x1F37E, 0x1F393),
    (0x1F3A0, 0x1F3CA), (0x1F3CF, 0x1F3D3), (0x1F3E0, 0x1F3F0), (0x1F3F4, 0x1F3F4),
    (0x1F3F8, 0x1F43E), (0x1F440, 0x1F440), (0x1F442, 0x1F4FC), (0x1F4FF, 0x1F53D),
    (0x1F54B, 0x1F54E), (0x1F550, 0x1F567), (0x1F57A, 0x1F57A), (0x1F595, 0x1F596),
    (0x1F5A4, 0x1F5A4), (0x1F5FB, 0x1F64F), (0x1F680, 0x1F6C5), (0x1F6CC, 0x1F6CC),
    (0x1F6D0, 0x1F6D2), (0x1F6D5, 0x1F6D7), (0x1F6DD, 0x1F6DF), (0x1F6EB, 0x1F6EC),
    (0x1F6F4, 0x1F6FC), (0x1F7E0, 0x1F7EB), (0x1F7F0, 0x1F7F0), (0x1F90C, 0x1F93A),
    (0x1F93C, 0x1F945), (0x1F947, 0x1F9FF), (0x1FA70, 0x1FA74), (0x1FA78, 0x1FA7C),
    (0x1FA80, 0x1FA86), (0x1FA90, 0x1FAAC), (0x1FAB0, 0x1FABA), (0x1FAC0, 0x1FAC5),
    (0x1FAD0, 0x1FAD9), (0x1FAE0, 0x1FAE7), (0x1FAF0, 0x1FAF6), (0x20000, 0x2FFFD),
    (0x30000, 0x3FFFD),
];

/// `c` lies in the inclusive interval `r`.
pub open spec fn range_contains(r: CodePointRange, c: u32) -> bool {
    r.0 <= c <= r.1
}

/// Some range of `t` holds `c`.
pub open spec fn table_contains(t: Seq<CodePointRange>, c: u32) -> bool {
    exists|i: int| 0 <= i < t.len() && range_contains(#[trigger] t[i], c)
}

/// Every range of `t` is non-empty and ends inside the code space.
pub open spec fn ranges_bounded(t: Seq<CodePointRange>) -> bool {
    forall|i: int| 0 <= i < t.len() ==> (#[trigger] t[i]).0 <= t[i].1 <= MAX_CODE_POINT
}

/// The ranges of `t` are pairwise disjoint and laid out in ascending order:
/// an earlier range ends before a later one starts.
pub open spec fn ranges_disjoint(t: Seq<CodePointRange>) -> bool {
    forall|i: int, j: int| 0 <= i < j < t.len() ==> (#[trigger] t[i]).1 < (#[trigger] t[j]).0
}

/// The starts of the ranges of `t` strictly ascend.
pub open spec fn starts_ascend(t: Seq<CodePointRange>) -> bool {
    forall|i: int, j: int| 0 <= i < j < t.len() ==> (#[trigger] t[i]).0 < (#[trigger] t[j]).0
}

/// The invariant of a range table.
pub open spec fn is_range_table(t: Seq<CodePointRange>) -> bool {
    &&& ranges_bounded(t)
    &&& ranges_disjoint(t)
    &&& starts_ascend(t)
}

/// Decides whether `c` lies in the inclusive interval `r`.
pub fn contains(r: CodePointRange, c: u32) -> (inside: bool)
    ensures
        inside == range_contains(r, c),
{
    r.0 <= c && c <= r.1
}

/// Decides by binary search whether some range of the table `arr` holds `c`.
///
/// The search keeps a window `lo..hi` of candidate ranges: every range left
/// of the window ends before `c`, every range right of it starts after `c`.
pub fn in_table(arr: &[CodePointRange], c: char) -> (found: bool)
    requires
        is_range_table(arr@),
    ensures
        found == table_contains(arr@, c as u32),
{
    let code: u32 = c as u32;
    let mut lo: usize = 0;
    let mut hi: usize = arr.len();
    while lo < hi
        invariant
            code == c as u32,
            lo <= hi <= arr@.len(),
            is_range_table(arr@),
            forall|i: int| 0 <= i < lo ==> (#[trigger] arr@[i]).1 < code,
            forall|i: int| hi <= i < arr@.len() ==> code < (#[trigger] arr@[i]).0,
        decreases hi - lo,
    {
        let mid: usize = lo + (hi - lo) / 2;
        let range = arr[mid];
        if contains(range, code) {
            return true;
        } else if range.0 < code {
            lo = mid + 1;
        } else {
            hi = mid;
        }
    }
    false
}

/// The first `n` ranges of `t` are bounded and each ends before its
/// successor starts. Unlike `is_range_table` this can be settled range by
/// range, which is how the two tables below are shown to be range tables.
pub open spec fn prefix_in_order(t: Seq<CodePointRange>, n: nat) -> bool
    decreases n,
{
    if n == 0 {
        true
    } else {
        let k = (n - 1) as nat;
        &&& prefix_in_order(t, k)
        &&& t[k as int].0 <= t[k as int].1 <= MAX_CODE_POINT
        &&& (k > 0 ==> t[k - 1].1 < t[k as int].0)
    }
}

/// In an ordered prefix every range is bounded and ends before each later
/// range starts.
proof fn lemma_prefix_in_order(t: Seq<CodePointRange>, n: nat, i: int, j: int)
    requires
        prefix_in_order(t, n),
        0 <= i <= j < n,
    ensures
        t[i].0 <= t[i].1 <= MAX_CODE_POINT,
        i < j ==> t[i].1 < t[j].0,
    decreases n,
{
    if j + 1 < n {
        lemma_prefix_in_order(t, (n - 1) as nat, i, j);
    } else if i < j {
        lemma_prefix_in_order(t, (n - 1) as nat, i, j - 1);
        lemma_prefix_in_order(t, (n - 1) as nat, j - 1, j - 1);
    }
}

/// A table whose neighbours are in order is sorted by start, pairwise
/// disjoint and bounded.
pub proof fn lemma_in_order_is_range_table(t: Seq<CodePointRange>)
    requires
        prefix_in_order(t, t.len()),
    ensures
        is_range_table(t),
{
    assert forall|i: int| 0 <= i < t.len() implies {
        (#[trigger] t[i]).0 <= t[i].1 <= MAX_CODE_POINT
    } by {
        lemma_prefix_in_order(t, t.len(), i, i);
    }
    assert forall|i: int, j: int| 0 <= i < j < t.len() implies {
        (#[trigger] t[i]).1 < (#[trigger] t[j]).0
    } by {
        lemma_prefix_in_order(t, t.len(), i, j);
    }
    assert forall|i: int, j: int| 0 <= i < j < t.len() implies {
        (#[trigger] t[i]).0 < (#[trigger] t[j]).0
    } by {
        lemma_prefix_in_order(t, t.len(), i, i);
        lemma_prefix_in_order(t, t.len(), i, j);
    }
}

/// `ASCII_TABLE` is sorted by start, its ranges are pairwise disjoint, and
/// each satisfies `start <= end <= 0x10FFFF`.
pub proof fn lemma_ascii_table_is_range_table()
    ensures
        is_range_table(ASCII_TABLE@),
{
    assert(prefix_in_order(ASCII_TABLE@, 14)) by {
        reveal_with_fuel(prefix_in_order, 15);
    }
    lemma_in_order_is_range_table(ASCII_TABLE@);
}

/// The neighbours of `DOUBLEWIDE_TABLE` are in order, and it starts at U+1100.
proof fn lemma_doublewide_table_in_order()
    ensures
        DOUBLEWIDE_TABLE@.len() == 121,
        DOUBLEWIDE_TABLE@[0].0 == 0x1100,
        prefix_in_order(DOUBLEWIDE_TABLE@, 121),
{
    let t = DOUBLEWIDE_TABLE@;
    reveal_with_fuel(prefix_in_order, 21);
    assert(prefix_in_order(t, 20));
    assert(prefix_in_order(t, 40));
    assert(prefix_in_order(t, 60));
    assert(prefix_in_order(t, 80));
    assert(prefix_in_order(t, 100));
    assert(prefix_in_order(t, 121));
}

/// `DOUBLEWIDE_TABLE` is sorted by start, its ranges are pairwise disjoint,
/// and each satisfies `start <= end <= 0x10FFFF`.
pub proof fn lemma_doublewide_table_is_range_table()
    ensures
        is_range_table(DOUBLEWIDE_TABLE@),
{
    lemma_doublewide_table_in_order();
    lemma_in_order_is_range_table(DOUBLEWIDE_TABLE@);
}

/// No code point below U+1100 is listed as double-width.
pub proof fn lemma_doublewide_table_lower_bound(c: u32)
    requires
        table_contains(DOUBLEWIDE_TABLE@, c),
    ensures
        c >= 0x1100,
{
    let t = DOUBLEWIDE_TABLE@;
    lemma_doublewide_table_in_order();
    let i = choose|i: int| 0 <= i < t.len() && range_contains(#[trigger] t[i], c);
    lemma_prefix_in_order(t, 121, 0, i);
}

/// A span of code points that fits between two neighbours of an ordered
/// table, before its first range or after its last, meets none of its ranges.
proof fn lemma_gap_is_unlisted(t: Seq<CodePointRange>, k: int, lo: u32, hi: u32, c: u32)
    requires
        prefix_in_order(t, t.len()),
        0 <= k <= t.len(),
        k > 0 ==> t[k - 1].1 < lo,
        k < t.len() ==> hi < t[k].0,
        lo <= c <= hi,
    ensures
        !table_contains(t, c),
{
    assert forall|i: int| 0 <= i < t.len() implies !range_contains(#[trigger] t[i], c) by {
        if i < k {
            lemma_prefix_in_order(t, t.len(), i, k - 1);
            lemma_prefix_in_order(t, t.len(), k - 1, k - 1);
        } else {
            lemma_prefix_in_order(t, t.len(), k, i);
        }
    }
}

/// No code point is listed in both tables.
pub proof fn lemma_tables_are_disjoint(c: u32)
    ensures
        !(table_contains(ASCII_TABLE@, c) && table_contains(DOUBLEWIDE_TABLE@, c)),
{
    let narrow = ASCII_TABLE@;
    if table_contains(narrow, c) {
        let i = choose|i: int| 0 <= i < narrow.len() && range_contains(#[trigger] narrow[i], c);
        // The index of the first double-width range after `narrow[i]`.
        let k: int = if i < 5 {
            0
        } else if i < 6 {
            1
        } else if i < 8 {
            32
        } else if i < 13 {
            58
        } else {
            59
        };
        lemma_doublewide_table_in_order();
        lemma_gap_is_unlisted(DOUBLEWIDE_TABLE@, k, narrow[i].0, narrow[i].1, c);
    }
}

} // verus!
