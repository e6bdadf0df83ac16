//! The choice of matching engine, and its textual names.

use vstd::prelude::*;
use vstd::string::*;

use crate::text::str_equal;

verus! {

/// Which regular-expression engine compiles and runs a pattern.
#[derive(Clone, Copy, Debug, PartialEq, Eq, Structural, Hash)]
pub enum RegexEngine {
    /// The linear-time engine of the `regex` crate (the default).
    Regex,
    /// The backtracking engine of the `fancy-regex` crate, which adds
    /// look-around and back-references.
    Fancy,
}

/// The name of an engine, as used in settings: `"regex"` or `"fancy"`.
pub open spec fn engine_name(engine: RegexEngine) -> Seq<char> {
    match engine {
        RegexEngine::Regex => "regex"@,
        RegexEngine::Fancy => "fancy"@,
    }
}

/// The engine whose name is `name`, if any.
pub open spec fn engine_named(name: Seq<char>) -> Option<RegexEngine> {
    if name == "regex"@ {
        Some(RegexEngine::Regex)
    } else if name == "fancy"@ {
        Some(RegexEngine::Fancy)
    } else {
        None
    }
}

impl Default for RegexEngine {
    /// The default engine, [`RegexEngine::Regex`].
    fn default() -> (engine: RegexEngine)
        ensures
            engine == RegexEngine::Regex,
    {
        RegexEngine::Regex
    }
}

impl RegexEngine {
    /// The engine's name in snake case.
    pub fn as_str(&self) -> (name: &'static str)
        ensures
            name@ == engine_name(*self),
    {
        match self {
            RegexEngine::Regex => "regex",
            RegexEngine::Fancy => "fancy",
        }
    }

    /// Parses an engine from its snake-case name; names are case-sensitive.
    pub fn parse(name: &str) -> (engine: Option<RegexEngine>)
        ensures
            engine == engine_named(name@),
    {
        if str_equal(name, "regex") {
            Some(RegexEngine::Regex)
        } else if str_equal(name, "fancy") {
            Some(RegexEngine::Fancy)
        } else {
            None
        }
    }
}

/// Parsing the name of an engine gives the engine back.
pub proof fn lemma_engine_name_roundtrip(engine: RegexEngine)
    ensures
        engine_named(engine_name(engine)) == Some(engine),
{
    reveal_strlit("regex");
    reveal_strlit("fancy");
    assert("regex"@ != "fancy"@) by {
        assert("regex"@[0] != "fancy"@[0]);
    }
}

} // verus!
