use polars_regex::matches::{build_capture_groups, Match};

#[test]
fn match_reports_text_and_offsets() {
    let m = Match { text: "bc", start: 1, end: 3 };
    assert_eq!(m.as_str(), "bc");
    assert_eq!(m.start(), 1);
    assert_eq!(m.end(), 3);
}

#[test]
fn capture_groups_slice_the_text() {
    let caps = build_capture_groups("2018-04-07", &vec![Some((0, 10)), Some((0, 4)), None, Some((8, 10))]);
    assert_eq!(caps.len(), 4);
    assert!(!caps.is_empty());
    assert_eq!(caps.get_match(), Some("2018-04-07"));
    assert_eq!(caps.get(1), Some("2018"));
    assert_eq!(caps.get(2), None);
    assert_eq!(caps.get(3), Some("07"));
    assert_eq!(caps.get(4), None);
    assert_eq!(caps.groups(), &[Some("2018-04-07"), Some("2018"), None, Some("07")]);
}

#[test]
fn capture_groups_without_group_zero_are_empty() {
    assert!(build_capture_groups("abc", &vec![]).is_empty());
    assert!(build_capture_groups("abc", &vec![None, Some((0, 1))]).is_empty());
    assert_eq!(build_capture_groups("abc", &vec![]).get_match(), None);
}
