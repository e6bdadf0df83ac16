use polars_regex::adapter::{RegexAdapter, RegexError};
use polars_regex::cache::{GlobalRegexCache, RegexCache};
use polars_regex::engine::RegexEngine;
use polars_regex::extract::{
    decimal_text, extract_group, extract_group_array_lit, extract_group_binary, extract_group_reg_lit,
    extract_groups, extract_groups_array, full_null, StringColumn,
};
use polars_regex::settings::RegexCacheSettings;

fn col(name: &str, values: &[Option<&str>]) -> StringColumn {
    StringColumn { name: name.to_string(), values: values.iter().map(|v| v.map(|s| s.to_string())).collect() }
}

fn vals(values: &[Option<&str>]) -> Vec<Option<String>> {
    values.iter().map(|v| v.map(|s| s.to_string())).collect()
}

struct Caches {
    settings: RegexCacheSettings,
    global: GlobalRegexCache,
    local: RegexCache,
}

fn caches() -> Caches {
    let settings = RegexCacheSettings::new();
    let global = GlobalRegexCache::new(&settings);
    let local = RegexCache::new(&settings);
    Caches { settings, global, local }
}

#[test]
fn full_null_is_all_nulls() {
    let c = full_null(&"x".to_string(), 3);
    assert_eq!(c.name, "x");
    assert_eq!(c.values, vec![None, None, None]);
}

#[test]
fn group_of_one_pattern_per_row() {
    for engine in [RegexEngine::Regex, RegexEngine::Fancy] {
        let reg = RegexAdapter::new(r"(\d+)-(\d+)", engine).unwrap();
        let out = extract_group_reg_lit(&vals(&[Some("a1-2"), None, Some("none"), Some("33-44")]), &reg, 2);
        assert_eq!(out, vals(&[Some("2"), None, None, Some("44")]));
        let whole = extract_group_reg_lit(&vals(&[Some("a1-2")]), &reg, 0);
        assert_eq!(whole, vals(&[Some("1-2")]));
        let beyond = extract_group_reg_lit(&vals(&[Some("a1-2")]), &reg, 3);
        assert_eq!(beyond, vals(&[None]));
    }
}

#[test]
fn group_of_one_text_per_pattern() {
    let mut c = caches();
    let out = extract_group_array_lit(
        "key=value",
        &vals(&[Some(r"(\w+)="), None, Some(r"=(\w+)"), Some("(zzz)")]),
        1,
        RegexEngine::Regex,
        &mut c.local,
        &mut c.global,
        &c.settings,
    )
    .unwrap();
    assert_eq!(out, vals(&[Some("key"), None, Some("value"), None]));
    let err = extract_group_array_lit(
        "x",
        &vals(&[Some("x"), Some("("), Some("[")]),
        0,
        RegexEngine::Regex,
        &mut c.local,
        &mut c.global,
        &c.settings,
    );
    match err {
        Err(RegexError::ComputeError(m)) => assert!(m.contains("unclosed group")),
        Ok(_) => panic!("accepted an invalid pattern"),
    }
}

#[test]
fn group_of_paired_rows_stops_at_the_shorter_column() {
    let mut c = caches();
    let out = extract_group_binary(
        &vals(&[Some("a1"), Some("b2"), None, Some("d4")]),
        &vals(&[Some(r"[a-z](\d)"), None, Some("(x)")]),
        1,
        RegexEngine::Fancy,
        &mut c.local,
        &mut c.global,
        &c.settings,
    )
    .unwrap();
    assert_eq!(out, vals(&[Some("1"), None, None]));
}

#[test]
fn a_null_text_skips_its_pattern() {
    let mut c = caches();
    let out = extract_group_binary(
        &vals(&[None, Some("b")]),
        &vals(&[Some("("), Some("(b)")]),
        1,
        RegexEngine::Regex,
        &mut c.local,
        &mut c.global,
        &c.settings,
    )
    .unwrap();
    assert_eq!(out, vals(&[None, Some("b")]));
}

#[test]
fn extract_group_broadcasts_a_single_pattern() {
    let mut c = caches();
    let out = extract_group(
        &col("txt", &[Some("a1"), None, Some("b22")]),
        &col("pat", &[Some(r"(\d+)")]),
        1,
        RegexEngine::Regex,
        &mut c.local,
        &mut c.global,
        &c.settings,
    )
    .unwrap();
    assert_eq!(out.name, "txt");
    assert_eq!(out.values, vals(&[Some("1"), None, Some("22")]));
    let nulls = extract_group(
        &col("txt", &[Some("a1"), Some("b")]),
        &col("pat", &[None]),
        1,
        RegexEngine::Regex,
        &mut c.local,
        &mut c.global,
        &c.settings,
    )
    .unwrap();
    assert_eq!(nulls.name, "txt");
    assert_eq!(nulls.values, vals(&[None, None]));
}

#[test]
fn extract_group_broadcasts_a_single_text() {
    let mut c = caches();
    let out = extract_group(
        &col("txt", &[Some("a1b2")]),
        &col("pat", &[Some(r"a(\d)"), Some(r"b(\d)"), None]),
        1,
        RegexEngine::Fancy,
        &mut c.local,
        &mut c.global,
        &c.settings,
    )
    .unwrap();
    assert_eq!(out.name, "pat");
    assert_eq!(out.values, vals(&[Some("1"), Some("2"), None]));
    let nulls = extract_group(
        &col("txt", &[None]),
        &col("pat", &[Some("a"), Some("b")]),
        0,
        RegexEngine::Fancy,
        &mut c.local,
        &mut c.global,
        &c.settings,
    )
    .unwrap();
    assert_eq!(nulls.name, "txt");
    assert_eq!(nulls.values, vals(&[None, None]));
}

#[test]
fn extract_group_pairs_columns_of_equal_length() {
    let mut c = caches();
    let out = extract_group(
        &col("txt", &[Some("a1"), Some("b2")]),
        &col("pat", &[Some(r"(\d)"), Some(r"([a-z])")]),
        1,
        RegexEngine::Regex,
        &mut c.local,
        &mut c.global,
        &c.settings,
    )
    .unwrap();
    assert_eq!(out.name, "txt");
    assert_eq!(out.values, vals(&[Some("1"), Some("b")]));
}

#[test]
fn extract_group_refuses_other_lengths() {
    let mut c = caches();
    let out = extract_group(
        &col("txt", &[Some("a"), Some("b"), Some("c")]),
        &col("pat", &[Some("a"), Some("b")]),
        0,
        RegexEngine::Regex,
        &mut c.local,
        &mut c.global,
        &c.settings,
    );
    match out {
        Err(RegexError::ComputeError(m)) => {
            assert_eq!(m, "ca(len: 3) and pat(len: 2) should either broadcast or have the same length")
        },
        Ok(_) => panic!("accepted mismatched lengths"),
    }
}

#[test]
fn extract_group_reports_a_rejected_pattern() {
    let mut c = caches();
    let out = extract_group(
        &col("txt", &[Some("a")]),
        &col("pat", &[Some("(")]),
        0,
        RegexEngine::Regex,
        &mut c.local,
        &mut c.global,
        &c.settings,
    );
    assert!(matches!(out, Err(RegexError::ComputeError(_))));
}

#[test]
fn all_groups_as_struct_fields() {
    let mut c = caches();
    let names = vec!["y".to_string(), "m".to_string()];
    let out = extract_groups(
        &col("d", &[Some("2018-04"), None, Some("x")]),
        r"(\d{4})-(\d{2})",
        &names,
        RegexEngine::Regex,
        &mut c.local,
        &mut c.global,
        &c.settings,
    )
    .unwrap();
    assert_eq!(out.name, "d");
    assert_eq!(out.validity, vec![true, false, true]);
    assert_eq!(out.fields.len(), 2);
    assert_eq!(out.fields[0].name, "y");
    assert_eq!(out.fields[0].values, vals(&[Some("2018"), None, None]));
    assert_eq!(out.fields[1].name, "m");
    assert_eq!(out.fields[1].values, vals(&[Some("04"), None, None]));
}

#[test]
fn a_pattern_without_groups_gives_one_null_field() {
    let mut c = caches();
    let out = extract_groups(
        &col("d", &[Some("a"), None]),
        "a",
        &vec![],
        RegexEngine::Fancy,
        &mut c.local,
        &mut c.global,
        &c.settings,
    )
    .unwrap();
    assert_eq!(out.fields.len(), 1);
    assert_eq!(out.fields[0].name, "d");
    assert_eq!(out.fields[0].values, vals(&[None, None]));
    assert_eq!(out.validity, vec![true, true]);
}

#[test]
fn extract_groups_reports_a_rejected_pattern() {
    let mut c = caches();
    let out = extract_groups(&col("d", &[Some("a")]), "(a", &vec![], RegexEngine::Fancy, &mut c.local, &mut c.global, &c.settings);
    assert!(matches!(out, Err(RegexError::ComputeError(_))));
}

#[test]
fn groups_array_holds_one_column_per_field() {
    let reg = RegexAdapter::new(r"(a)(b)?", RegexEngine::Regex).unwrap();
    let out = extract_groups_array(&vals(&[Some("ab"), Some("a"), None, Some("zz")]), &reg, 3);
    assert_eq!(out.len(), 3);
    assert_eq!(out[0], vals(&[Some("a"), Some("a"), None, None]));
    assert_eq!(out[1], vals(&[Some("b"), None, None, None]));
    assert_eq!(out[2], vals(&[None, None, None, None]));
}

#[test]
fn decimal_text_writes_every_digit() {
    assert_eq!(decimal_text(0), "0");
    assert_eq!(decimal_text(7), "7");
    assert_eq!(decimal_text(10), "10");
    assert_eq!(decimal_text(9081726354), "9081726354");
    assert_eq!(decimal_text(usize::MAX), usize::MAX.to_string());
}
