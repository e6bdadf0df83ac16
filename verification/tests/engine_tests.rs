use polars_regex::engine::RegexEngine;

#[test]
fn engine_names_round_trip() {
    assert_eq!(RegexEngine::Regex.as_str(), "regex");
    assert_eq!(RegexEngine::Fancy.as_str(), "fancy");
    assert_eq!(RegexEngine::parse("regex"), Some(RegexEngine::Regex));
    assert_eq!(RegexEngine::parse("fancy"), Some(RegexEngine::Fancy));
    assert_eq!(RegexEngine::parse("Fancy"), None);
    assert_eq!(RegexEngine::default(), RegexEngine::Regex);
}
