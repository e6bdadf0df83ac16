use polars_regex::fancy_engine::{FancyCaptures, FancyRegex};

#[test]
fn fancy_regex_compiles_and_keeps_its_source() {
    let re = FancyRegex::new(r"\w+(?=!)").unwrap();
    assert_eq!(re.as_str(), r"\w+(?=!)");
}

#[test]
fn fancy_regex_reports_rejection() {
    let err = FancyRegex::new("(a").err().unwrap();
    assert!(err.contains("Opening parenthesis without closing parenthesis"));
}

#[test]
fn fancy_regex_searches_with_look_around() {
    let re = FancyRegex::new(r"\w+(?=!)").unwrap();
    assert!(re.is_match("so fancy!"));
    assert!(!re.is_match("so plain"));
    let m = re.find("so fancy!").unwrap();
    assert_eq!((m.start, m.end, m.text), (3, 8, "fancy"));
    assert!(re.find("so plain").is_none());
}

#[test]
fn fancy_find_iter_resumes_after_each_match() {
    let re = FancyRegex::new(r"\d+").unwrap();
    let all: Vec<(usize, usize, &str)> = re.find_iter("ab12c3").iter().map(|m| (m.start, m.end, m.text)).collect();
    assert_eq!(all, vec![(2, 4, "12"), (5, 6, "3")]);
    assert_eq!(re.count_matches("ab12c3"), 2);
}

#[test]
fn fancy_find_iter_steps_over_empty_matches_by_characters() {
    let re = FancyRegex::new("").unwrap();
    let spans: Vec<(usize, usize)> = re.find_iter("aé").iter().map(|m| (m.start, m.end)).collect();
    assert_eq!(spans, vec![(0, 0), (1, 1), (3, 3)]);
    assert_eq!(re.count_matches("aé"), 3);
    assert_eq!(re.count_matches(""), 1);
}

#[test]
fn fancy_find_iter_with_possibly_empty_matches() {
    let re = FancyRegex::new("a*").unwrap();
    let spans: Vec<(usize, usize)> = re.find_iter("baa").iter().map(|m| (m.start, m.end)).collect();
    assert_eq!(spans, vec![(0, 0), (1, 3), (3, 3)]);
}

#[test]
fn fancy_regex_back_references() {
    let re = FancyRegex::new(r"(\w)\1").unwrap();
    assert_eq!(re.count_matches("aabccdd"), 3);
    assert_eq!(re.replace_all("aabccdd", "[$1]"), "[a]b[c][d]");
    assert_eq!(re.replace("aabccdd", "[$1]"), "[a]bccdd");
    assert_eq!(re.replace_all_literal("aabccdd", "[$1]"), "[$1]b[$1][$1]");
}

#[test]
fn fancy_replace_without_match_returns_the_text() {
    let re = FancyRegex::new("z").unwrap();
    assert!(matches!(re.replace("abc", "y"), std::borrow::Cow::Borrowed("abc")));
    assert!(matches!(re.replace_all("abc", "y"), std::borrow::Cow::Borrowed("abc")));
}

#[test]
fn fancy_replace_all_with_empty_matches() {
    let re = FancyRegex::new("").unwrap();
    assert_eq!(re.replace_all("ab", "-"), "-a-b-");
    assert_eq!(re.replace_all_literal("ab", "-"), "-a-b-");
}

#[test]
fn fancy_regex_captures() {
    let re = FancyRegex::new(r"(?P<y>\d{4})-(\d{2})(x)?").unwrap();
    assert_eq!(re.captures_len(), 4);
    assert_eq!(re.capture_names(), vec![None, Some("y".to_string()), None, None]);
    let caps = re.captures("on 2018-04 and 2019-05x").unwrap();
    assert_eq!(caps.groups(), &[Some("2018-04"), Some("2018"), Some("04"), None]);
    let all = re.captures_iter("on 2018-04 and 2019-05x");
    assert_eq!(all.len(), 2);
    assert_eq!(all[1].groups(), &[Some("2019-05x"), Some("2019"), Some("05"), Some("x")]);
    assert!(re.captures("none").is_none());
}

#[test]
fn fancy_capture_scan_yields_each_capture_then_stops() {
    let re = FancyRegex::new(r"(\d)").unwrap();
    let mut scan = FancyCaptures::new(&re, "1a2");
    assert_eq!(scan.next(), Some(vec![Some((0, 1)), Some((0, 1))]));
    assert_eq!(scan.next(), Some(vec![Some((2, 3)), Some((2, 3))]));
    assert_eq!(scan.next(), None);
    assert_eq!(scan.next(), None);
}

#[test]
fn fancy_match_scan_yields_each_match_then_stops() {
    let re = FancyRegex::new("b").unwrap();
    let mut scan = re.matches("abcb");
    assert_eq!(scan.next().map(|m| (m.start, m.end)), Some((1, 2)));
    assert_eq!(scan.next().map(|m| (m.start, m.end)), Some((3, 4)));
    assert!(scan.next().is_none());
    assert!(scan.next().is_none());
}

#[test]
fn fancy_regex_clone_keeps_the_pattern() {
    let re = FancyRegex::new("a+").unwrap();
    let copy = re.clone();
    assert_eq!(copy.as_str(), "a+");
    assert_eq!(copy.count_matches("aa ba"), 2);
}

#[test]
fn fancy_expanding_scan_yields_span_and_expansion() {
    let re = FancyRegex::new(r"(\d)(\w)").unwrap();
    let mut scan = FancyCaptures::new(&re, "1a 2b");
    assert_eq!(scan.next_expanded("$2$1"), Some((0, 2, "a1".to_string())));
    assert_eq!(scan.next_expanded("$2$1"), Some((3, 5, "b2".to_string())));
    assert_eq!(scan.next_expanded("$2$1"), None);
}

#[test]
fn fancy_capture_scan_moves_past_each_whole_match() {
    let re = FancyRegex::new(r"(b?)").unwrap();
    let mut scan = FancyCaptures::new(&re, "ab");
    let mut starts = Vec::new();
    while let Some(groups) = scan.next() {
        let (start, end) = groups[0].unwrap();
        starts.push((start, end));
    }
    assert_eq!(starts, vec![(0, 0), (1, 2), (2, 2)]);
}

#[test]
fn fancy_matches_may_overlap_after_a_reset_start() {
    let re = FancyRegex::new(r"(?<=a\Kb)c|ab").unwrap();
    let spans: Vec<(usize, usize)> = re.find_iter("abc").iter().map(|m| (m.start, m.end)).collect();
    assert_eq!(spans, vec![(0, 2), (1, 3)]);
    assert_eq!(re.count_matches("abc"), 2);
    assert!(re.try_replace_all_literal("abc", "X").is_none());
    assert!(re.try_replace_all("abc", "X").is_none());
    assert_eq!(re.try_replace_all_literal("zz", "X").unwrap(), "zz");
    let plain = FancyRegex::new(r"b").unwrap();
    assert_eq!(plain.try_replace_all_literal("abcb", "$0").unwrap(), "a$0c$0");
    assert_eq!(plain.try_replace_all("abcb", "[$0]").unwrap(), "a[b]c[b]");
}

#[test]
fn a_fancy_scan_that_would_not_move_on_ends() {
    let re = FancyRegex::new(r"(?<=\K.)").unwrap();
    let spans: Vec<(usize, usize)> = re.find_iter("ab").iter().map(|m| (m.start, m.end)).collect();
    assert_eq!(spans, vec![(0, 1)]);
    assert_eq!(re.count_matches("ab"), 1);
    assert_eq!(re.captures_iter("ab").len(), 1);
}

#[test]
fn fancy_captures_agree_with_find() {
    let re = FancyRegex::new(r"(\d)(?=x)").unwrap();
    for text in ["a1x 2x", "none", "3y4x"] {
        let caps = re.captures(text);
        let found = re.find(text);
        assert_eq!(caps.is_some(), found.is_some());
        assert_eq!(re.is_match(text), found.is_some());
        if let (Some(c), Some(m)) = (caps, found) {
            assert_eq!(c.get_match(), Some(m.text));
        }
        let groups: Vec<Option<&str>> = re.captures_iter(text).iter().map(|c| c.get_match()).collect();
        let matches: Vec<Option<&str>> = re.find_iter(text).iter().map(|m| Some(m.text)).collect();
        assert_eq!(groups, matches);
    }
}
