use polars_regex::adapter::{RegexAdapter, RegexError};
use polars_regex::engine::RegexEngine;

fn both(pattern: &str) -> Vec<RegexAdapter> {
    vec![
        RegexAdapter::new(pattern, RegexEngine::Regex).unwrap(),
        RegexAdapter::new(pattern, RegexEngine::Fancy).unwrap(),
    ]
}

#[test]
fn adapter_knows_its_engine_and_source() {
    let re = RegexAdapter::new("a+", RegexEngine::Fancy).unwrap();
    assert_eq!(re.engine(), RegexEngine::Fancy);
    assert_eq!(re.as_str(), "a+");
    let re = RegexAdapter::new("a+", RegexEngine::Regex).unwrap();
    assert_eq!(re.engine(), RegexEngine::Regex);
}

#[test]
fn adapter_rejections_are_compute_errors() {
    match RegexAdapter::new("(", RegexEngine::Regex) {
        Err(RegexError::ComputeError(m)) => assert!(m.contains("unclosed group")),
        Ok(_) => panic!("accepted an invalid pattern"),
    }
    match RegexAdapter::new("(a", RegexEngine::Fancy) {
        Err(RegexError::ComputeError(m)) => assert!(m.contains("Opening parenthesis")),
        Ok(_) => panic!("accepted an invalid pattern"),
    }
    // Look-ahead is only known to the backtracking engine.
    assert!(RegexAdapter::new("a(?=b)", RegexEngine::Regex).is_err());
    assert!(RegexAdapter::new("a(?=b)", RegexEngine::Fancy).is_ok());
}

#[test]
fn both_engines_agree_on_plain_patterns() {
    for re in both(r"(\w)(\d)") {
        assert!(re.is_match("a1 b2"));
        let m = re.find("a1 b2").unwrap();
        assert_eq!((m.start, m.end), (0, 2));
        let spans: Vec<(usize, usize)> = re.find_iter("a1 b2").iter().map(|m| (m.start, m.end)).collect();
        assert_eq!(spans, vec![(0, 2), (3, 5)]);
        assert_eq!(re.count_matches("a1 b2"), 2);
        assert_eq!(re.replace("a1 b2", "$2$1"), "1a b2");
        assert_eq!(re.replace_all("a1 b2", "$2$1"), "1a 2b");
        assert_eq!(re.replace_all_literal("a1 b2", "$2"), "$2 $2");
        assert_eq!(re.captures("a1 b2").unwrap().groups(), &[Some("a1"), Some("a"), Some("1")]);
        assert_eq!(re.captures_iter("a1 b2").len(), 2);
        assert_eq!(re.captures_len(), 3);
        assert_eq!(re.capture_names(), vec![None, None, None]);
    }
}

#[test]
fn clone_keeps_engine_and_source() {
    for re in both("x") {
        let copy = re.clone();
        assert_eq!(copy.engine(), re.engine());
        assert_eq!(copy.as_str(), "x");
    }
}

#[test]
fn captures_through_a_buffer() {
    for re in both(r"(\d+)-(\d+)?") {
        let mut buffer = re.create_locations_buffer();
        let caps = re.captures_with_buffer("ab 12- 3", &mut buffer).unwrap();
        assert_eq!(caps.get(0), Some("12-"));
        assert_eq!(caps.get(1), Some("12"));
        assert_eq!(caps.get(2), None);
        assert_eq!(caps.get(3), None);
        assert!(re.captures_with_buffer("none", &mut buffer).is_none());
        assert_eq!(re.get_group_with_buffer("x 7-8", 2, &mut buffer), Some("8"));
        assert_eq!(re.get_group_with_buffer("x 7-8", 5, &mut buffer), None);
        assert_eq!(re.get_group_with_buffer("none", 1, &mut buffer), None);
    }
}

#[test]
fn an_empty_buffer_finds_nothing_on_the_linear_engine() {
    let re = RegexAdapter::new(r"(\d)", RegexEngine::Regex).unwrap();
    let mut buffer = polars_regex::adapter::CaptureLocationsBuffer::default();
    assert!(re.captures_with_buffer("1", &mut buffer).is_none());
    let fancy = RegexAdapter::new(r"(\d)", RegexEngine::Fancy).unwrap();
    assert_eq!(fancy.get_group_with_buffer("1", 1, &mut buffer), Some("1"));
}

#[test]
fn the_whole_match_group_is_the_match_that_find_gives() {
    for re in both(r"(\d+)([a-z])?") {
        let caps = re.captures("xy 42 7q").unwrap();
        assert!(!caps.is_empty());
        let m = re.find("xy 42 7q").unwrap();
        assert_eq!(caps.get_match(), Some(m.as_str()));
        assert_eq!(caps.get_match(), Some("42"));
        assert!(re.is_match("xy 42 7q"));
        assert!(re.captures("none").is_none());
        assert!(re.find("none").is_none());
        assert!(!re.is_match("none"));
        for c in re.captures_iter("1a 2 3b") {
            assert!(!c.is_empty());
            assert!(c.get_match().is_some());
        }
    }
}

#[test]
fn a_made_buffer_finds_what_captures_finds() {
    for re in both(r"(a)|b") {
        let mut buffer = re.create_locations_buffer();
        for text in ["xxa", "b", "zzz", ""] {
            assert_eq!(re.captures_with_buffer(text, &mut buffer).is_some(), re.captures(text).is_some());
            assert_eq!(re.captures(text).is_some(), re.is_match(text));
        }
    }
}

#[test]
fn checked_replacements_refuse_overlapping_matches() {
    let re = RegexAdapter::new(r"(?<=a\Kb)c|ab", RegexEngine::Fancy).unwrap();
    assert!(re.try_replace_all("abc", "-").is_none());
    assert!(re.try_replace_all_literal("abc", "-").is_none());
    for re in both("b") {
        assert_eq!(re.try_replace_all("abcb", "<$0>").unwrap(), "a<b>c<b>");
        assert_eq!(re.try_replace_all_literal("abcb", "$0").unwrap(), "a$0c$0");
        assert!(matches!(re.try_replace_all("xyz", "-").unwrap(), std::borrow::Cow::Borrowed("xyz")));
        assert!(matches!(re.try_replace_all_literal("xyz", "-").unwrap(), std::borrow::Cow::Borrowed("xyz")));
        assert!(matches!(re.replace("xyz", "-"), std::borrow::Cow::Borrowed("xyz")));
    }
}

#[test]
fn literal_replacement_is_expansion_of_the_escaped_replacement() {
    for re in both(r"\d+") {
        for r in ["$1", "$$", "x$0y", "plain", ""] {
            let escaped = r.replace('$', "$$");
            let text = "a1 22 b333";
            assert_eq!(re.replace_all(text, &escaped), re.replace_all_literal(text, r));
        }
    }
}
