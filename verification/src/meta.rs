//! The decisions behind the user-facing settings: parsing the float format
//! and the default regex engine from their names, and naming them back.

use vstd::prelude::*;
use vstd::string::*;

use crate::engine::{engine_name, engine_named, RegexEngine};
use crate::text::str_equal;

verus! {

/// How floats are printed.
#[derive(Clone, Copy, Debug, PartialEq, Eq, Structural)]
pub enum FloatFmt {
    /// Every float in full.
    Full,
    /// Floats shortened where that loses nothing relevant.
    Mixed,
}

/// The name of a float format.
pub open spec fn float_fmt_name(fmt: FloatFmt) -> Seq<char> {
    match fmt {
        FloatFmt::Full => "full"@,
        FloatFmt::Mixed => "mixed"@,
    }
}

/// The float format named `name`, if any.
pub open spec fn float_fmt_named(name: Seq<char>) -> Option<FloatFmt> {
    if name == "full"@ {
        Some(FloatFmt::Full)
    } else if name == "mixed"@ {
        Some(FloatFmt::Mixed)
    } else {
        None
    }
}

/// Sets `current` to the float format named `fmt` (`"full"` or `"mixed"`);
/// any other name is refused with a message naming it, and `current` is kept.
pub fn set_float_fmt(current: &mut FloatFmt, fmt: &str) -> (result: Result<(), String>)
    ensures
        match float_fmt_named(fmt@) {
            Some(f) => result is Ok && *final(current) == f,
            None => *final(current) == *old(current) && (result matches Err(m)
                && m@ == "fmt must be one of {'full', 'mixed'}, got "@ + fmt@),
        },
{
    if str_equal(fmt, "full") {
        *current = FloatFmt::Full;
        Ok(())
    } else if str_equal(fmt, "mixed") {
        *current = FloatFmt::Mixed;
        Ok(())
    } else {
        let mut message = String::from_str("fmt must be one of {'full', 'mixed'}, got ");
        message.append(fmt);
        Err(message)
    }
}

/// The name of the float format `current`.
pub fn get_float_fmt(current: FloatFmt) -> (name: String)
    ensures
        name@ == float_fmt_name(current),
{
    match current {
        FloatFmt::Full => String::from_str("full"),
        FloatFmt::Mixed => String::from_str("mixed"),
    }
}

/// Sets `current` to the engine named `engine`, or to the default engine
/// when no name is given; an unknown name is refused with a message naming
/// it, and `current` is kept.
pub fn set_default_regex_engine(current: &mut RegexEngine, engine: Option<&str>) -> (result: Result<(), String>)
    ensures
        match engine {
            None => result is Ok && *final(current) == RegexEngine::Regex,
            Some(name) => match engine_named(name@) {
                Some(e) => result is Ok && *final(current) == e,
                None => *final(current) == *old(current) && (result matches Err(m)
                    && m@ == "Regex engine '"@ + name@ + "' not supported."@),
            },
        },
{
    match engine {
        Some(name) => match RegexEngine::parse(name) {
            Some(e) => {
                *current = e;
                Ok(())
            },
            None => {
                let mut message = String::from_str("Regex engine '");
                message.append(name);
                message.append("' not supported.");
                Err(message)
            },
        },
        None => {
            *current = RegexEngine::default();
            Ok(())
        },
    }
}

/// The name of the engine `current`, in lower case.
pub fn get_default_regex_engine(current: RegexEngine) -> (name: String)
    ensures
        name@ == engine_name(current),
{
    String::from_str(current.as_str())
}

/// Parsing the name of a float format gives the format back.
pub proof fn lemma_float_fmt_name_roundtrip(fmt: FloatFmt)
    ensures
        float_fmt_named(float_fmt_name(fmt)) == Some(fmt),
{
    reveal_strlit("full");
    reveal_strlit("mixed");
    assert("full"@ != "mixed"@) by {
        assert("full"@.len() != "mixed"@.len());
    }
}

} // verus!
