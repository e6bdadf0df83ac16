use polars_regex::text::{advance_position, char_width_at, replace_all_literal_from_spans, splice_replacements, str_equal, substring};
use std::borrow::Cow;

#[test]
fn substring_slices_by_bytes() {
    assert_eq!(substring("héllo", 0, 1), "h");
    assert_eq!(substring("héllo", 1, 3), "é");
    assert_eq!(substring("héllo", 3, 6), "llo");
    assert_eq!(substring("abc", 3, 3), "");
}

#[test]
fn char_width_reads_leading_byte() {
    assert_eq!(char_width_at("a", 0), 1);
    assert_eq!(char_width_at("é", 0), 2);
    assert_eq!(char_width_at("€", 0), 3);
    assert_eq!(char_width_at("😀", 0), 4);
}

#[test]
fn advance_after_nonempty_match_is_its_end() {
    assert_eq!(advance_position("abcdef", 1, 4), 4);
}

#[test]
fn advance_after_empty_match_steps_one_character() {
    assert_eq!(advance_position("abc", 1, 1), 2);
    // 'é' takes two bytes, '😀' four.
    assert_eq!(advance_position("aé", 1, 1), 3);
    assert_eq!(advance_position("😀x", 0, 0), 4);
}

#[test]
fn advance_after_empty_match_at_end_passes_the_end() {
    assert_eq!(advance_position("abc", 3, 3), 4);
    assert_eq!(advance_position("", 0, 0), 1);
}

#[test]
fn literal_replacement_without_spans_borrows_the_text() {
    let out = replace_all_literal_from_spans("hello", "X", &vec![]);
    assert!(matches!(out, Cow::Borrowed(_)));
    assert_eq!(out, "hello");
}

#[test]
fn literal_replacement_splices_each_span() {
    let out = replace_all_literal_from_spans("a1b22c", "<$1>", &vec![(1, 2), (3, 5)]);
    assert!(matches!(out, Cow::Owned(_)));
    assert_eq!(out, "a<$1>b<$1>c");
}

#[test]
fn literal_replacement_handles_empty_spans_and_ends() {
    assert_eq!(replace_all_literal_from_spans("ab", "-", &vec![(0, 0), (1, 1), (2, 2)]), "-a-b-");
    assert_eq!(replace_all_literal_from_spans("éa", "", &vec![(0, 2)]), "a");
}

#[test]
fn splicing_each_span_with_its_own_text_changes_nothing() {
    assert_eq!(replace_all_literal_from_spans("xaxbx", "x", &vec![(0, 1), (2, 3), (4, 5)]), "xaxbx");
}

#[test]
fn str_equal_compares_contents() {
    assert!(str_equal("abc", "abc"));
    assert!(!str_equal("abc", "abd"));
    assert!(!str_equal("abc", "ab"));
    assert!(str_equal("", ""));
}

#[test]
fn pieces_replace_their_spans() {
    let pieces = vec![(0, 1, "X".to_string()), (2, 2, "-".to_string()), (3, 5, "".to_string())];
    assert_eq!(splice_replacements("abcé", &pieces), "Xb-c");
    assert_eq!(splice_replacements("abc", &vec![]), "abc");
}

#[test]
fn advance_position_after_a_reversed_span_is_its_end() {
    assert_eq!(advance_position("abc", 2, 1), 1);
    assert_eq!(advance_position("aé", 2, 1), 1);
    assert_eq!(advance_position("abc", 5, 5), 4);
}

#[test]
fn splicing_a_reversed_span_copies_the_text_between_again() {
    assert_eq!(replace_all_literal_from_spans("abcdef", "X", &vec![(3, 1)]), "abcXbcdef");
    assert_eq!(replace_all_literal_from_spans("abcdef", "-", &vec![(2, 1), (4, 4)]), "ab-bcd-ef");
}
