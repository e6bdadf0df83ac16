use polars_regex::std_engine::StdRegex;

#[test]
fn std_regex_compiles_and_keeps_its_source() {
    let re = StdRegex::new(r"\d+").unwrap();
    assert_eq!(re.as_str(), r"\d+");
}

#[test]
fn std_regex_reports_rejection() {
    let err = StdRegex::new("(").err().unwrap();
    assert!(err.contains("unclosed group"));
}

#[test]
fn std_regex_searches() {
    let re = StdRegex::new(r"\d+").unwrap();
    assert!(re.is_match("ab12c3"));
    assert!(!re.is_match("abc"));
    let m = re.find("ab12c3").unwrap();
    assert_eq!((m.start, m.end, m.text), (2, 4, "12"));
    assert!(re.find("abc").is_none());
    let all: Vec<(usize, usize, &str)> = re.find_iter("ab12c3").iter().map(|m| (m.start, m.end, m.text)).collect();
    assert_eq!(all, vec![(2, 4, "12"), (5, 6, "3")]);
    assert_eq!(re.count_matches("ab12c3"), 2);
    assert_eq!(re.count_matches("abc"), 0);
}

#[test]
fn std_regex_replaces() {
    let re = StdRegex::new(r"(\d)(\d)").unwrap();
    assert_eq!(re.replace("a12b34", "$2$1"), "a21b34");
    assert_eq!(re.replace_all("a12b34", "$2$1"), "a21b43");
    assert_eq!(re.replace_all_literal("a12b34", "$2$1"), "a$2$1b$2$1");
    assert_eq!(re.replace_all("xyz", "-"), "xyz");
}

#[test]
fn std_regex_captures() {
    let re = StdRegex::new(r"(?P<y>\d{4})-(\d{2})(x)?").unwrap();
    assert_eq!(re.captures_len(), 4);
    assert_eq!(re.capture_names(), vec![None, Some("y".to_string()), None, None]);
    let caps = re.captures("on 2018-04 and 2019-05x").unwrap();
    assert_eq!(caps.groups(), &[Some("2018-04"), Some("2018"), Some("04"), None]);
    let all = re.captures_iter("on 2018-04 and 2019-05x");
    assert_eq!(all.len(), 2);
    assert_eq!(all[1].groups(), &[Some("2019-05x"), Some("2019"), Some("05"), Some("x")]);
    assert!(re.captures("none").is_none());
}

#[test]
fn std_regex_reads_captures_through_locations() {
    let re = StdRegex::new(r"^([a-z]+)=(\S*)$").unwrap();
    let mut locs = re.capture_locations();
    assert_eq!(re.captures_read(&mut locs, "id=foo123"), Some(vec![Some((0, 9)), Some((0, 2)), Some((3, 9))]));
    assert_eq!(re.captures_read(&mut locs, "no match"), None);
}

#[test]
fn std_regex_matches_empty_pattern_between_characters() {
    let re = StdRegex::new("").unwrap();
    let spans: Vec<(usize, usize)> = re.find_iter("aé").iter().map(|m| (m.start, m.end)).collect();
    assert_eq!(spans, vec![(0, 0), (1, 1), (3, 3)]);
}

#[test]
fn std_regex_clone_keeps_the_pattern() {
    let re = StdRegex::new("a+").unwrap();
    let copy = re.clone();
    assert_eq!(copy.as_str(), "a+");
    assert_eq!(copy.count_matches("aa ba"), 2);
}
