//! Extraction of capture groups from nullable string columns: one group per
//! row against one pattern, against one pattern per row, or against a
//! pattern column broadcast or aligned with the text column; and all groups
//! of one pattern as the fields of a struct column.

use vstd::prelude::*;
use vstd::string::*;

use crate::adapter::{capture_group_text, compiles, RegexAdapter, RegexError};
use crate::cache::{compile_regex, GlobalRegexCache, RegexCache};
use crate::engine::RegexEngine;
use crate::settings::RegexCacheSettings;

verus! {

/// A named column of nullable strings.
pub struct StringColumn {
    pub name: String,
    pub values: Vec<Option<String>>,
}

/// A named column of structs: one string column per field, and whether each
/// row is present.
pub struct StructColumn {
    pub name: String,
    pub fields: Vec<StringColumn>,
    pub validity: Vec<bool>,
}

/// The text of a nullable string.
pub open spec fn opt_text(value: Option<String>) -> Option<Seq<char>> {
    match value {
        Some(s) => Some(s@),
        None => None,
    }
}

/// The texts of a column's values.
pub open spec fn texts(values: Seq<Option<String>>) -> Seq<Option<Seq<char>>> {
    values.map_values(|v: Option<String>| opt_text(v))
}

/// What group `index` of `pattern`, compiled by `engine`, extracts from a
/// row: nothing from a null row or a row without a match.
pub open spec fn extracted(engine: RegexEngine, pattern: Seq<char>, row: Option<Seq<char>>, index: int) -> Option<Seq<char>> {
    match row {
        Some(t) => capture_group_text(engine, pattern, t, index),
        None => None,
    }
}

/// The first row, among the first `n` rows of `patterns`, whose pattern
/// `engine` rejects.
pub open spec fn first_rejected(patterns: Seq<Option<Seq<char>>>, n: int, engine: RegexEngine) -> Option<int> {
    if exists|i: int| 0 <= i < n && (#[trigger] patterns[i]) is Some && !compiles(patterns[i].unwrap(), engine) {
        Some(choose|i: int| 0 <= i < n && (#[trigger] patterns[i]) is Some && !compiles(patterns[i].unwrap(), engine)
            && forall|j: int| 0 <= j < i ==> (#[trigger] patterns[j]) is Some ==> compiles(patterns[j].unwrap(), engine))
    } else {
        None
    }
}

/// The engine's message for a pattern it rejects.
pub open spec fn rejection(pattern: Seq<char>, engine: RegexEngine) -> Seq<char> {
    match engine {
        RegexEngine::Regex => crate::std_engine::regex_build_error(pattern).unwrap(),
        RegexEngine::Fancy => crate::fancy_engine::fancy_build_error(pattern).unwrap(),
    }
}

/// The error of a failed compilation: the engine's message.
pub open spec fn compile_error_is(error: RegexError, pattern: Seq<char>, engine: RegexEngine) -> bool {
    match error {
        RegexError::ComputeError(m) => m@ == rejection(pattern, engine),
    }
}

/// The decimal digits of `n`.
pub open spec fn decimal(n: nat) -> Seq<char>
    decreases n,
{
    if n < 10 {
        seq![(48 + n) as char]
    } else {
        decimal(n / 10).push((48 + n % 10) as char)
    }
}

/// The message of a length mismatch between a text column and a pattern column.
pub open spec fn length_mismatch(ca_len: usize, pat_len: usize) -> Seq<char> {
    "ca(len: "@ + decimal(ca_len as nat) + ") and pat(len: "@ + decimal(pat_len as nat)
        + ") should either broadcast or have the same length"@
}

/// The one-character text of the decimal digit `d`.
fn digit_text(d: usize) -> (text: &'static str)
    requires
        d < 10,
    ensures
        text@ == seq![(48 + d) as char],
{
    if d == 0 {
        proof {
            reveal_strlit("0");
        }
        "0"
    } else if d == 1 {
        proof {
            reveal_strlit("1");
        }
        "1"
    } else if d == 2 {
        proof {
            reveal_strlit("2");
        }
        "2"
    } else if d == 3 {
        proof {
            reveal_strlit("3");
        }
        "3"
    } else if d == 4 {
        proof {
            reveal_strlit("4");
        }
        "4"
    } else if d == 5 {
        proof {
            reveal_strlit("5");
        }
        "5"
    } else if d == 6 {
        proof {
            reveal_strlit("6");
        }
        "6"
    } else if d == 7 {
        proof {
            reveal_strlit("7");
        }
        "7"
    } else if d == 8 {
        proof {
            reveal_strlit("8");
        }
        "8"
    } else {
        proof {
            reveal_strlit("9");
        }
        "9"
    }
}

/// The decimal digits of `n`.
pub fn decimal_text(n: usize) -> (text: String)
    ensures
        text@ == decimal(n as nat),
    decreases n,
{
    if n < 10 {
        String::from_str(digit_text(n))
    } else {
        let mut text = decimal_text(n / 10);
        let ghost head = text@;
        text.append(digit_text(n % 10));
        assert(text@ =~= head.push((48 + n % 10) as char));
        text
    }
}

/// The message of a length mismatch between a text column and a pattern column.
fn length_mismatch_message(ca_len: usize, pat_len: usize) -> (message: String)
    ensures
        message@ == length_mismatch(ca_len, pat_len),
{
    let mut message = String::from_str("ca(len: ");
    message.append(decimal_text(ca_len).as_str());
    message.append(") and pat(len: ");
    message.append(decimal_text(pat_len).as_str());
    message.append(") should either broadcast or have the same length");
    message
}

/// A copy of a nullable string.
fn copy_value(value: &Option<String>) -> (copy: Option<String>)
    ensures
        opt_text(copy) == opt_text(*value),
{
    match value {
        Some(s) => Some(s.clone()),
        None => None,
    }
}

/// A column of `len` nulls.
pub fn full_null(name: &String, len: usize) -> (column: StringColumn)
    ensures
        column.name@ == name@,
        column.values@.len() == len,
        forall|i: int| 0 <= i < len ==> (#[trigger] column.values@[i]) is None,
{
    let mut values: Vec<Option<String>> = Vec::new();
    let mut i: usize = 0;
    while i < len
        invariant
            0 <= i <= len,
            values@.len() == i,
            forall|k: int| 0 <= k < i ==> (#[trigger] values@[k]) is None,
        decreases len - i,
    {
        values.push(None);
        i = i + 1;
    }
    StringColumn { name: name.clone(), values }
}

/// Group `group_index` of `reg` in each row of `arr`; null rows and rows
/// without a match give null.
pub fn extract_group_reg_lit(arr: &Vec<Option<String>>, reg: &RegexAdapter, group_index: usize) -> (out: Vec<Option<String>>)
    ensures
        out@.len() == arr@.len(),
        forall|i: int|
            0 <= i < out@.len() ==> opt_text(#[trigger] out@[i]) == extracted(
                reg.engine_of(),
                reg.source(),
                opt_text(arr@[i]),
                group_index as int,
            ),
{
    let mut out: Vec<Option<String>> = Vec::new();
    let mut buffer = reg.create_locations_buffer();
    let mut i: usize = 0;
    while i < arr.len()
        invariant
            buffer.serves(reg),
            buffer.has_locations() <==> reg.engine_of() == RegexEngine::Regex,
            0 <= i <= arr@.len(),
            out@.len() == i,
            forall|k: int|
                0 <= k < i ==> opt_text(#[trigger] out@[k]) == extracted(
                    reg.engine_of(),
                    reg.source(),
                    opt_text(arr@[k]),
                    group_index as int,
                ),
        decreases arr@.len() - i,
    {
        let value = match &arr[i] {
            Some(s) => match reg.get_group_with_buffer(s.as_str(), group_index, &mut buffer) {
                Some(group) => Some(group.to_owned()),
                None => None,
            },
            None => None,
        };
        out.push(value);
        i = i + 1;
    }
    out
}

/// Group `group_index` of the text `s` for each pattern of `pat`, each
/// compiled with `engine` through the caches; null patterns give null. Fails
/// at the first non-null pattern that the engine rejects.
pub fn extract_group_array_lit(
    s: &str,
    pat: &Vec<Option<String>>,
    group_index: usize,
    engine: RegexEngine,
    local: &mut RegexCache,
    global: &mut GlobalRegexCache,
    settings: &RegexCacheSettings,
) -> (out: Result<Vec<Option<String>>, RegexError>)
    requires
        old(local).wf(),
        old(global).wf(),
    ensures
        final(local).wf(),
        final(global).wf(),
        final(global).limit() == old(global).limit(),
        match out {
            Ok(values) => {
                &&& first_rejected(texts(pat@), pat@.len() as int, engine) is None
                &&& values@.len() == pat@.len()
                &&& forall|i: int|
                    0 <= i < values@.len() ==> opt_text(#[trigger] values@[i]) == match opt_text(pat@[i]) {
                        Some(p) => capture_group_text(engine, p, s@, group_index as int),
                        None => None,
                    }
            },
            Err(e) => first_rejected(texts(pat@), pat@.len() as int, engine) matches Some(i)
                && compile_error_is(e, texts(pat@)[i].unwrap(), engine),
        },
{
    let ghost pats = texts(pat@);
    let mut out: Vec<Option<String>> = Vec::new();
    let mut i: usize = 0;
    while i < pat.len()
        invariant
            local.wf(),
            global.wf(),
            global.limit() == old(global).limit(),
            pats == texts(pat@),
            0 <= i <= pat@.len(),
            out@.len() == i,
            forall|k: int| 0 <= k < i ==> (#[trigger] pats[k]) is Some ==> compiles(pats[k].unwrap(), engine),
            forall|k: int|
                0 <= k < i ==> opt_text(#[trigger] out@[k]) == match pats[k] {
                    Some(p) => capture_group_text(engine, p, s@, group_index as int),
                    None => None,
                },
        decreases pat@.len() - i,
    {
        let value = match &pat[i] {
            Some(p) => {
                let reg = match compile_regex(local, global, settings, p.as_str(), engine) {
                    Ok(reg) => reg,
                    Err(e) => {
                        proof {
                            lemma_first_rejected_at(pats, pat@.len() as int, engine, i as int);
                        }
                        return Err(e);
                    },
                };
                let mut buffer = reg.create_locations_buffer();
                match reg.get_group_with_buffer(s, group_index, &mut buffer) {
                    Some(group) => Some(group.to_owned()),
                    None => None,
                }
            },
            None => None,
        };
        out.push(value);
        i = i + 1;
    }
    proof {
        lemma_none_rejected(pats, pat@.len() as int, engine);
    }
    Ok(out)
}

/// When the first `i` patterns compile and pattern `i` does not, pattern `i`
/// is the first rejected one.
pub proof fn lemma_first_rejected_at(patterns: Seq<Option<Seq<char>>>, n: int, engine: RegexEngine, i: int)
    requires
        0 <= i < n <= patterns.len(),
        forall|k: int| 0 <= k < i ==> (#[trigger] patterns[k]) is Some ==> compiles(patterns[k].unwrap(), engine),
        patterns[i] is Some,
        !compiles(patterns[i].unwrap(), engine),
    ensures
        first_rejected(patterns, n, engine) == Some(i),
{
    let j = choose|j: int| 0 <= j < n && (#[trigger] patterns[j]) is Some && !compiles(patterns[j].unwrap(), engine)
        && forall|k: int| 0 <= k < j ==> (#[trigger] patterns[k]) is Some ==> compiles(patterns[k].unwrap(), engine);
    assert(0 <= i < n && patterns[i] is Some && !compiles(patterns[i].unwrap(), engine)
        && forall|k: int| 0 <= k < i ==> (#[trigger] patterns[k]) is Some ==> compiles(patterns[k].unwrap(), engine));
    if j < i {
        assert(patterns[j] is Some ==> compiles(patterns[j].unwrap(), engine));
    } else if i < j {
        assert(patterns[i] is Some ==> compiles(patterns[i].unwrap(), engine));
    }
}

/// When all of the first `n` patterns compile, none is rejected.
pub proof fn lemma_none_rejected(patterns: Seq<Option<Seq<char>>>, n: int, engine: RegexEngine)
    requires
        forall|k: int| 0 <= k < n ==> (#[trigger] patterns[k]) is Some ==> compiles(patterns[k].unwrap(), engine),
    ensures
        first_rejected(patterns, n, engine) is None,
{
}

/// The patterns of the rows, among the first `n`, whose text is not null.
pub open spec fn paired_patterns(arr: Seq<Option<Seq<char>>>, pat: Seq<Option<Seq<char>>>) -> Seq<Option<Seq<char>>> {
    Seq::new(
        pat.len(),
        |i: int|
            if i < arr.len() && arr[i] is Some {
                pat[i]
            } else {
                None
            },
    )
}

/// Group `group_index` of each row of `arr` for the pattern of the same row
/// of `pat`, compiled with `engine` through the caches; the rows are paired
/// up to the shorter column, and a row with a null text or pattern gives
/// null. Fails at the first such pair whose pattern the engine rejects.
pub fn extract_group_binary(
    arr: &Vec<Option<String>>,
    pat: &Vec<Option<String>>,
    group_index: usize,
    engine: RegexEngine,
    local: &mut RegexCache,
    global: &mut GlobalRegexCache,
    settings: &RegexCacheSettings,
) -> (out: Result<Vec<Option<String>>, RegexError>)
    requires
        old(local).wf(),
        old(global).wf(),
    ensures
        final(local).wf(),
        final(global).wf(),
        final(global).limit() == old(global).limit(),
        ({
            let n = if arr@.len() <= pat@.len() { arr@.len() as int } else { pat@.len() as int };
            let pairs = paired_patterns(texts(arr@), texts(pat@));
            match out {
                Ok(values) => {
                    &&& first_rejected(pairs, n, engine) is None
                    &&& values@.len() == n
                    &&& forall|i: int|
                        0 <= i < n ==> opt_text(#[trigger] values@[i]) == match (opt_text(arr@[i]), opt_text(pat@[i])) {
                            (Some(t), Some(p)) => capture_group_text(engine, p, t, group_index as int),
                            _ => None,
                        }
                },
                Err(e) => first_rejected(pairs, n, engine) matches Some(i) && compile_error_is(e, pairs[i].unwrap(), engine),
            }
        }),
{
    let n = if arr.len() <= pat.len() { arr.len() } else { pat.len() };
    let ghost pairs = paired_patterns(texts(arr@), texts(pat@));
    let mut out: Vec<Option<String>> = Vec::new();
    let mut i: usize = 0;
    while i < n
        invariant
            local.wf(),
            global.wf(),
            global.limit() == old(global).limit(),
            pairs == paired_patterns(texts(arr@), texts(pat@)),
            n <= arr@.len(),
            n <= pat@.len(),
            0 <= i <= n,
            out@.len() == i,
            forall|k: int| 0 <= k < i ==> (#[trigger] pairs[k]) is Some ==> compiles(pairs[k].unwrap(), engine),
            forall|k: int|
                0 <= k < i ==> opt_text(#[trigger] out@[k]) == match (opt_text(arr@[k]), opt_text(pat@[k])) {
                    (Some(t), Some(p)) => capture_group_text(engine, p, t, group_index as int),
                    _ => None,
                },
        decreases n - i,
    {
        assert(pairs[i as int] == if texts(arr@)[i as int] is Some { texts(pat@)[i as int] } else { None::<Seq<char>> });
        let value = match (&arr[i], &pat[i]) {
            (Some(s), Some(p)) => {
                let reg = match compile_regex(local, global, settings, p.as_str(), engine) {
                    Ok(reg) => reg,
                    Err(e) => {
                        proof {
                            lemma_first_rejected_at(pairs, n as int, engine, i as int);
                        }
                        return Err(e);
                    },
                };
                let mut buffer = reg.create_locations_buffer();
                match reg.get_group_with_buffer(s.as_str(), group_index, &mut buffer) {
                    Some(group) => Some(group.to_owned()),
                    None => None,
                }
            },
            _ => None,
        };
        out.push(value);
        i = i + 1;
    }
    proof {
        lemma_none_rejected(pairs, n as int, engine);
    }
    Ok(out)
}

/// Group `group_index` of each text of `ca` for the patterns of `pat`,
/// compiled with `engine` through the caches: a single pattern applies to
/// every text (a null pattern gives a column of nulls as long as `ca`); a
/// single text is matched against every pattern (a null text gives a column
/// of nulls as long as `pat`); columns of equal length are paired row by
/// row. Other lengths are an error, as is a pattern the engine rejects.
pub fn extract_group(
    ca: &StringColumn,
    pat: &StringColumn,
    group_index: usize,
    engine: RegexEngine,
    local: &mut RegexCache,
    global: &mut GlobalRegexCache,
    settings: &RegexCacheSettings,
) -> (out: Result<StringColumn, RegexError>)
    requires
        old(local).wf(),
        old(global).wf(),
    ensures
        final(local).wf(),
        final(global).wf(),
        final(global).limit() == old(global).limit(),
        pat.values@.len() == 1 ==> match opt_text(pat.values@[0]) {
            Some(p) => match out {
                Ok(col) => compiles(p, engine) && col.name@ == ca.name@ && col.values@.len() == ca.values@.len()
                    && forall|i: int| 0 <= i < col.values@.len() ==> opt_text(#[trigger] col.values@[i])
                        == extracted(engine, p, opt_text(ca.values@[i]), group_index as int),
                Err(e) => !compiles(p, engine) && compile_error_is(e, p, engine),
            },
            None => out matches Ok(col) && col.name@ == ca.name@ && col.values@.len() == ca.values@.len()
                && forall|i: int| 0 <= i < col.values@.len() ==> (#[trigger] col.values@[i]) is None,
        },
        pat.values@.len() != 1 && ca.values@.len() == 1 ==> match opt_text(ca.values@[0]) {
            Some(t) => match out {
                Ok(col) => first_rejected(texts(pat.values@), pat.values@.len() as int, engine) is None
                    && col.name@ == pat.name@ && col.values@.len() == pat.values@.len()
                    && forall|i: int| 0 <= i < col.values@.len() ==> opt_text(#[trigger] col.values@[i]) == match opt_text(pat.values@[i]) {
                        Some(p) => capture_group_text(engine, p, t, group_index as int),
                        None => None,
                    },
                Err(e) => first_rejected(texts(pat.values@), pat.values@.len() as int, engine) matches Some(i)
                    && compile_error_is(e, texts(pat.values@)[i].unwrap(), engine),
            },
            None => out matches Ok(col) && col.name@ == ca.name@ && col.values@.len() == pat.values@.len()
                && forall|i: int| 0 <= i < col.values@.len() ==> (#[trigger] col.values@[i]) is None,
        },
        pat.values@.len() != 1 && ca.values@.len() != 1 && ca.values@.len() == pat.values@.len() ==> ({
            let pairs = paired_patterns(texts(ca.values@), texts(pat.values@));
            match out {
                Ok(col) => first_rejected(pairs, ca.values@.len() as int, engine) is None
                    && col.name@ == ca.name@ && col.values@.len() == ca.values@.len()
                    && forall|i: int| 0 <= i < col.values@.len() ==> opt_text(#[trigger] col.values@[i])
                        == match (opt_text(ca.values@[i]), opt_text(pat.values@[i])) {
                            (Some(t), Some(p)) => capture_group_text(engine, p, t, group_index as int),
                            _ => None,
                        },
                Err(e) => first_rejected(pairs, ca.values@.len() as int, engine) matches Some(i)
                    && compile_error_is(e, pairs[i].unwrap(), engine),
            }
        }),
        pat.values@.len() != 1 && ca.values@.len() != 1 && ca.values@.len() != pat.values@.len() ==> (out
            matches Err(RegexError::ComputeError(m)) && m@ == length_mismatch(
                ca.values@.len() as usize,
                pat.values@.len() as usize,
            )),
{
    let ca_len = ca.values.len();
    let pat_len = pat.values.len();
    if pat_len == 1 {
        match &pat.values[0] {
            Some(p) => {
                let reg = compile_regex(local, global, settings, p.as_str(), engine)?;
                let values = extract_group_reg_lit(&ca.values, &reg, group_index);
                Ok(StringColumn { name: ca.name.clone(), values })
            },
            None => Ok(full_null(&ca.name, ca_len)),
        }
    } else if ca_len == 1 {
        match &ca.values[0] {
            Some(s) => {
                let values = extract_group_array_lit(s.as_str(), &pat.values, group_index, engine, local, global, settings)?;
                Ok(StringColumn { name: pat.name.clone(), values })
            },
            None => Ok(full_null(&ca.name, pat_len)),
        }
    } else if ca_len == pat_len {
        let values = extract_group_binary(&ca.values, &pat.values, group_index, engine, local, global, settings)?;
        Ok(StringColumn { name: ca.name.clone(), values })
    } else {
        Err(RegexError::ComputeError(length_mismatch_message(ca_len, pat_len)))
    }
}

/// For each of `n_fields` fields, group `field + 1` of `reg` in each row of
/// `arr`; a null row, or a row without a match, gives null in every field.
pub fn extract_groups_array(arr: &Vec<Option<String>>, reg: &RegexAdapter, n_fields: usize) -> (fields: Vec<Vec<Option<String>>>)
    requires
        n_fields < usize::MAX,
    ensures
        fields@.len() == n_fields,
        forall|f: int|
            0 <= f < n_fields ==> (#[trigger] fields@[f])@.len() == arr@.len() && forall|r: int|
                0 <= r < arr@.len() ==> opt_text(#[trigger] fields@[f]@[r]) == extracted(
                    reg.engine_of(),
                    reg.source(),
                    opt_text(arr@[r]),
                    f + 1,
                ),
{
    // The groups of each row first, then one column per field.
    let mut rows: Vec<Vec<Option<String>>> = Vec::new();
    let mut buffer = reg.create_locations_buffer();
    let mut r: usize = 0;
    while r < arr.len()
        invariant
            buffer.serves(reg),
            buffer.has_locations() <==> reg.engine_of() == RegexEngine::Regex,
            n_fields < usize::MAX,
            0 <= r <= arr@.len(),
            rows@.len() == r,
            forall|k: int|
                0 <= k < r ==> (#[trigger] rows@[k])@.len() == n_fields && forall|f: int|
                    0 <= f < n_fields ==> opt_text(#[trigger] rows@[k]@[f]) == extracted(
                        reg.engine_of(),
                        reg.source(),
                        opt_text(arr@[k]),
                        f + 1,
                    ),
        decreases arr@.len() - r,
    {
        let caps = match &arr[r] {
            Some(s) => reg.captures_with_buffer(s.as_str(), &mut buffer),
            None => None,
        };
        let mut row: Vec<Option<String>> = Vec::new();
        let mut f: usize = 0;
        while f < n_fields
            invariant
                n_fields < usize::MAX,
                0 <= f <= n_fields,
                row@.len() == f,
                r < arr@.len(),
                match opt_text(arr@[r as int]) {
                    Some(t) => match caps {
                        Some(c) => c@ == crate::matches::group_texts(
                            crate::text::utf8_of(t),
                            reg.first_captures(t).unwrap(),
                        ) && reg.first_captures(t) is Some,
                        None => reg.first_captures(t) is None,
                    },
                    None => caps is None,
                },
                forall|g: int|
                    0 <= g < f ==> opt_text(#[trigger] row@[g]) == extracted(
                        reg.engine_of(),
                        reg.source(),
                        opt_text(arr@[r as int]),
                        g + 1,
                    ),
            decreases n_fields - f,
        {
            let value = match &caps {
                Some(c) => match c.get(f + 1) {
                    Some(group) => Some(group.to_owned()),
                    None => None,
                },
                None => None,
            };
            row.push(value);
            f = f + 1;
        }
        rows.push(row);
        r = r + 1;
    }
    let mut fields: Vec<Vec<Option<String>>> = Vec::new();
    let mut f: usize = 0;
    while f < n_fields
        invariant
            0 <= f <= n_fields,
            fields@.len() == f,
            rows@.len() == arr@.len(),
            forall|k: int|
                0 <= k < arr@.len() ==> (#[trigger] rows@[k])@.len() == n_fields && forall|g: int|
                    0 <= g < n_fields ==> opt_text(#[trigger] rows@[k]@[g]) == extracted(
                        reg.engine_of(),
                        reg.source(),
                        opt_text(arr@[k]),
                        g + 1,
                    ),
            forall|g: int|
                0 <= g < f ==> (#[trigger] fields@[g])@.len() == arr@.len() && forall|k: int|
                    0 <= k < arr@.len() ==> opt_text(#[trigger] fields@[g]@[k]) == extracted(
                        reg.engine_of(),
                        reg.source(),
                        opt_text(arr@[k]),
                        g + 1,
                    ),
        decreases n_fields - f,
    {
        let mut column: Vec<Option<String>> = Vec::new();
        let mut k: usize = 0;
        while k < rows.len()
            invariant
                0 <= f < n_fields,
                0 <= k <= rows@.len(),
                rows@.len() == arr@.len(),
                column@.len() == k,
                forall|j: int|
                    0 <= j < arr@.len() ==> (#[trigger] rows@[j])@.len() == n_fields && forall|g: int|
                        0 <= g < n_fields ==> opt_text(#[trigger] rows@[j]@[g]) == extracted(
                            reg.engine_of(),
                            reg.source(),
                            opt_text(arr@[j]),
                            g + 1,
                        ),
                forall|j: int|
                    0 <= j < k ==> opt_text(#[trigger] column@[j]) == extracted(
                        reg.engine_of(),
                        reg.source(),
                        opt_text(arr@[j]),
                        f + 1,
                    ),
            decreases rows@.len() - k,
        {
            let ghost row = rows@[k as int]@;
            assert(opt_text(row[f as int]) == extracted(reg.engine_of(), reg.source(), opt_text(arr@[k as int]), f + 1));
            column.push(copy_value(&rows[k][f]));
            k = k + 1;
        }
        fields.push(column);
        f = f + 1;
    }
    fields
}

/// All groups of `pat`, compiled with `engine` through the caches, in each
/// text of `ca`, as a struct column named like `ca` with one field per name
/// of `names` (field `i` holds group `i + 1`), whose rows are null where the
/// text is null. A pattern without groups gives a single field of nulls,
/// named like `ca`, in rows that are all present. Fails when the engine
/// rejects the pattern.
pub fn extract_groups(
    ca: &StringColumn,
    pat: &str,
    names: &Vec<String>,
    engine: RegexEngine,
    local: &mut RegexCache,
    global: &mut GlobalRegexCache,
    settings: &RegexCacheSettings,
) -> (out: Result<StructColumn, RegexError>)
    requires
        old(local).wf(),
        old(global).wf(),
        names@.len() < usize::MAX,
    ensures
        final(local).wf(),
        final(global).wf(),
        final(global).limit() == old(global).limit(),
        out is Ok <==> compiles(pat@, engine),
        out matches Err(e) ==> compile_error_is(e, pat@, engine),
        out matches Ok(col) ==> {
            &&& col.name@ == ca.name@
            &&& col.validity@.len() == ca.values@.len()
            &&& if crate::adapter::group_count_of(engine, pat@) == 1 {
                &&& col.fields@.len() == 1
                &&& col.fields@[0].name@ == ca.name@
                &&& col.fields@[0].values@.len() == ca.values@.len()
                &&& forall|r: int| 0 <= r < ca.values@.len() ==> (#[trigger] col.fields@[0].values@[r]) is None
                &&& forall|r: int| 0 <= r < ca.values@.len() ==> #[trigger] col.validity@[r]
            } else {
                &&& col.fields@.len() == names@.len()
                &&& forall|r: int| 0 <= r < ca.values@.len() ==> #[trigger] col.validity@[r] == ca.values@[r] is Some
                &&& forall|f: int|
                    0 <= f < names@.len() ==> (#[trigger] col.fields@[f]).name@ == names@[f]@
                        && col.fields@[f].values@.len() == ca.values@.len()
                        && forall|r: int|
                            0 <= r < ca.values@.len() ==> opt_text(#[trigger] col.fields@[f].values@[r])
                                == extracted(engine, pat@, opt_text(ca.values@[r]), f + 1)
            }
        },
{
    let reg = compile_regex(local, global, settings, pat, engine)?;
    let n_fields = reg.captures_len();
    let len = ca.values.len();
    if n_fields == 1 {
        let mut fields: Vec<StringColumn> = Vec::new();
        fields.push(full_null(&ca.name, len));
        let mut validity: Vec<bool> = Vec::new();
        let mut r: usize = 0;
        while r < len
            invariant
                0 <= r <= len,
                validity@.len() == r,
                forall|k: int| 0 <= k < r ==> #[trigger] validity@[k],
            decreases len - r,
        {
            validity.push(true);
            r = r + 1;
        }
        return Ok(StructColumn { name: ca.name.clone(), fields, validity });
    }
    let columns = extract_groups_array(&ca.values, &reg, names.len());
    let mut fields: Vec<StringColumn> = Vec::new();
    let mut f: usize = 0;
    while f < names.len()
        invariant
            0 <= f <= names@.len(),
            columns@.len() == names@.len(),
            forall|g: int|
                0 <= g < names@.len() ==> (#[trigger] columns@[g])@.len() == ca.values@.len() && forall|r: int|
                    0 <= r < ca.values@.len() ==> opt_text(#[trigger] columns@[g]@[r]) == extracted(
                        engine,
                        pat@,
                        opt_text(ca.values@[r]),
                        g + 1,
                    ),
            fields@.len() == f,
            forall|g: int|
                0 <= g < f ==> (#[trigger] fields@[g]).name@ == names@[g]@
                    && fields@[g].values@.len() == ca.values@.len()
                    && forall|r: int|
                        0 <= r < ca.values@.len() ==> opt_text(#[trigger] fields@[g].values@[r])
                            == extracted(engine, pat@, opt_text(ca.values@[r]), g + 1),
        decreases names@.len() - f,
    {
        let mut values: Vec<Option<String>> = Vec::new();
        let mut r: usize = 0;
        while r < columns[f].len()
            invariant
                0 <= f < names@.len(),
                columns@.len() == names@.len(),
                columns@[f as int]@.len() == ca.values@.len(),
                0 <= r <= ca.values@.len(),
                values@.len() == r,
                forall|k: int| 0 <= k < r ==> opt_text(#[trigger] values@[k]) == opt_text(columns@[f as int]@[k]),
            decreases ca.values@.len() - r,
        {
            values.push(copy_value(&columns[f][r]));
            r = r + 1;
        }
        fields.push(StringColumn { name: names[f].clone(), values });
        f = f + 1;
    }
    let mut validity: Vec<bool> = Vec::new();
    let mut r: usize = 0;
    while r < len
        invariant
            len == ca.values@.len(),
            0 <= r <= len,
            validity@.len() == r,
            forall|k: int| 0 <= k < r ==> #[trigger] validity@[k] == ca.values@[k] is Some,
        decreases len - r,
    {
        validity.push(ca.values[r].is_some());
        r = r + 1;
    }
    Ok(StructColumn { name: ca.name.clone(), fields, validity })
}

} // verus!
