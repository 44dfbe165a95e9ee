use unicode_display_width::classifier::VARIATION_SELECTOR_16;
use unicode_display_width::code_point_ranges::{
    contains, in_table, CodePointRange, ASCII_TABLE, DOUBLEWIDE_TABLE, MAX_CODE_POINT,
};
use unicode_display_width::{get_grapheme_width, is_double_width};

fn listed(table: &[CodePointRange], c: char) -> bool {
    table.iter().any(|r| r.0 <= c as u32 && c as u32 <= r.1)
}

fn every_scalar() -> impl Iterator<Item = char> {
    (0..=MAX_CODE_POINT).filter_map(char::from_u32)
}

#[test]
fn shield_is_single_width() {
    assert_eq!(is_double_width('\u{1F6E1}'), false);
}

#[test]
fn check_mark_is_double_width() {
    assert_eq!(is_double_width('\u{2705}'), true);
}

#[test]
fn ascii_is_single_width() {
    for c in '\0'..='\u{7F}' {
        assert!(!is_double_width(c), "{:?}", c);
    }
}

#[test]
fn unlisted_scalars_are_single_width() {
    assert!(!is_double_width('\u{7F}'));
    assert!(!is_double_width('\u{E9}'));
    assert!(!is_double_width('\u{200D}'));
    assert!(!is_double_width('\u{FE0F}'));
    assert!(!is_double_width('\u{E000}'));
    assert!(!is_double_width('\u{10FFFF}'));
}

#[test]
fn wide_and_fullwidth_scalars_are_double_width() {
    assert!(is_double_width('\u{1100}'));
    assert!(is_double_width('\u{115F}'));
    assert!(!is_double_width('\u{1160}'));
    assert!(is_double_width('\u{4E2D}'));
    assert!(is_double_width('\u{AC00}'));
    assert!(is_double_width('\u{FF01}'));
    assert!(is_double_width('\u{1F468}'));
    assert!(is_double_width('\u{3FFFD}'));
    assert!(!is_double_width('\u{3FFFE}'));
}

#[test]
fn halfwidth_scalars_are_single_width() {
    assert!(!is_double_width('\u{FF61}'));
    assert!(!is_double_width('\u{FFEE}'));
    assert!(!is_double_width('\u{20A9}'));
}

#[test]
fn classification_follows_the_tables_for_every_scalar() {
    for c in every_scalar() {
        let narrow = listed(&ASCII_TABLE, c);
        let wide = listed(&DOUBLEWIDE_TABLE, c);
        assert_eq!(is_double_width(c), wide && !narrow, "{:?}", c);
    }
}

#[test]
fn classification_is_repeatable() {
    for c in every_scalar() {
        assert_eq!(is_double_width(c), is_double_width(c));
    }
}

#[test]
fn lookup_agrees_with_a_linear_scan() {
    for c in every_scalar() {
        assert_eq!(in_table(&ASCII_TABLE, c), listed(&ASCII_TABLE, c), "{:?}", c);
        assert_eq!(in_table(&DOUBLEWIDE_TABLE, c), listed(&DOUBLEWIDE_TABLE, c), "{:?}", c);
    }
}

#[test]
fn lookup_in_small_tables() {
    let empty: [CodePointRange; 0] = [];
    assert!(!in_table(&empty, 'a'));
    let one = [(0x61, 0x63)];
    assert!(!in_table(&one, '`'));
    assert!(in_table(&one, 'a'));
    assert!(in_table(&one, 'b'));
    assert!(in_table(&one, 'c'));
    assert!(!in_table(&one, 'd'));
    let two = [(0x30, 0x39), (0x61, 0x61)];
    assert!(in_table(&two, '0'));
    assert!(in_table(&two, '9'));
    assert!(!in_table(&two, ':'));
    assert!(in_table(&two, 'a'));
    assert!(!in_table(&two, 'b'));
}

#[test]
fn range_ends_are_inclusive() {
    assert!(contains((0x20, 0x7E), 0x20));
    assert!(contains((0x20, 0x7E), 0x7E));
    assert!(!contains((0x20, 0x7E), 0x1F));
    assert!(!contains((0x20, 0x7E), 0x7F));
    assert!(contains((0x2705, 0x2705), 0x2705));
}

fn assert_range_table(table: &[CodePointRange]) {
    for r in table {
        assert!(r.0 <= r.1, "{:X?}", r);
        assert!(r.1 <= MAX_CODE_POINT, "{:X?}", r);
    }
    for pair in table.windows(2) {
        assert!(pair[0].0 < pair[1].0, "{:X?}", pair);
        assert!(pair[0].1 < pair[1].0, "{:X?}", pair);
    }
}

#[test]
fn ascii_table_is_sorted_and_disjoint() {
    assert_range_table(&ASCII_TABLE);
    assert_eq!(ASCII_TABLE[0], (0x0000, 0x007E));
}

#[test]
fn doublewide_table_is_sorted_and_disjoint() {
    assert_range_table(&DOUBLEWIDE_TABLE);
    assert_eq!(DOUBLEWIDE_TABLE[0], (0x1100, 0x115F));
    assert_eq!(DOUBLEWIDE_TABLE[DOUBLEWIDE_TABLE.len() - 1], (0x30000, 0x3FFFD));
}

#[test]
fn the_two_tables_share_no_scalar() {
    for c in every_scalar() {
        assert!(!(listed(&ASCII_TABLE, c) && listed(&DOUBLEWIDE_TABLE, c)), "{:?}", c);
    }
}

#[test]
fn cluster_of_narrow_scalars_takes_one_cell() {
    assert_eq!(get_grapheme_width("a"), 1);
    assert_eq!(get_grapheme_width("e\u{301}"), 1);
    assert_eq!(get_grapheme_width("\u{2764}"), 1);
    assert_eq!(get_grapheme_width("\u{0924}\u{094D}\u{200C}"), 1);
}

#[test]
fn cluster_with_a_wide_scalar_takes_two_cells() {
    assert_eq!(get_grapheme_width("\u{2705}"), 2);
    let family = "\u{1F468}\u{200D}\u{1F469}\u{200D}\u{1F467}\u{200D}\u{1F467}";
    assert_eq!(get_grapheme_width(family), 2);
    assert_eq!(get_grapheme_width("\u{1F6E1}\u{200D}\u{2705}"), 2);
    assert_eq!(get_grapheme_width("\u{2705}\u{200D}\u{1F6E1}"), 2);
}

#[test]
fn variation_selector_forces_two_cells() {
    assert_eq!(VARIATION_SELECTOR_16, '\u{FE0F}');
    assert_eq!(get_grapheme_width("\u{2764}\u{FE0F}"), 2);
    assert_eq!(get_grapheme_width("\u{FE0F}"), 2);
    assert_eq!(get_grapheme_width("a\u{FE0F}"), 2);
    assert_eq!(get_grapheme_width("\u{FE0F}a"), 2);
    assert_eq!(get_grapheme_width("\u{2705}\u{FE0F}"), 2);
}

#[test]
fn zero_width_joiner_does_not_subtract() {
    assert_eq!(get_grapheme_width("\u{200D}"), 1);
    assert_eq!(get_grapheme_width("a\u{200D}"), 1);
    assert_eq!(get_grapheme_width("\u{2705}\u{200D}"), 2);
}

#[test]
fn empty_cluster_takes_no_cell() {
    assert_eq!(get_grapheme_width(""), 0);
}

#[test]
fn cluster_width_is_one_or_two() {
    for c in every_scalar() {
        let cluster = c.to_string();
        let w = get_grapheme_width(&cluster);
        assert!(w == 1 || w == 2, "{:?}", c);
        assert_eq!(w == 2, c == '\u{FE0F}' || is_double_width(c), "{:?}", c);
    }
}
