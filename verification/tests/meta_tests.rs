use polars_regex::engine::RegexEngine;
use polars_regex::meta::{get_default_regex_engine, get_float_fmt, set_default_regex_engine, set_float_fmt, FloatFmt};

#[test]
fn float_format_by_name() {
    let mut fmt = FloatFmt::Mixed;
    assert_eq!(set_float_fmt(&mut fmt, "full"), Ok(()));
    assert_eq!(fmt, FloatFmt::Full);
    assert_eq!(get_float_fmt(fmt), "full");
    assert_eq!(set_float_fmt(&mut fmt, "mixed"), Ok(()));
    assert_eq!(get_float_fmt(fmt), "mixed");
}

#[test]
fn unknown_float_format_is_refused() {
    let mut fmt = FloatFmt::Mixed;
    assert_eq!(set_float_fmt(&mut fmt, "Full"), Err("fmt must be one of {'full', 'mixed'}, got Full".to_string()));
    assert_eq!(fmt, FloatFmt::Mixed);
}

#[test]
fn default_engine_by_name() {
    let mut engine = RegexEngine::Regex;
    assert_eq!(set_default_regex_engine(&mut engine, Some("fancy")), Ok(()));
    assert_eq!(engine, RegexEngine::Fancy);
    assert_eq!(get_default_regex_engine(engine), "fancy");
    assert_eq!(set_default_regex_engine(&mut engine, None), Ok(()));
    assert_eq!(engine, RegexEngine::Regex);
    assert_eq!(get_default_regex_engine(engine), "regex");
}

#[test]
fn unknown_engine_is_refused() {
    let mut engine = RegexEngine::Fancy;
    assert_eq!(
        set_default_regex_engine(&mut engine, Some("pcre")),
        Err("Regex engine 'pcre' not supported.".to_string())
    );
    assert_eq!(engine, RegexEngine::Fancy);
}
