//! The program the `fancy-regex` crate builds for a pattern, kept together
//! with the source it was built from. Only the builder and the copier below
//! make one, so that source is always the one the program was built from.

use vstd::prelude::*;

use crate::fancy_engine::fancy_build_error;

verus! {

/// A program built by the `fancy-regex` crate, with the source it was built from.
pub struct FancyAutomaton {
    regex: fancy_regex::Regex,
    source: Ghost<Seq<char>>,
}

impl FancyAutomaton {
    /// The source the program was built from.
    pub closed spec fn source(&self) -> Seq<char> {
        self.source@
    }

    /// The program itself, for a search.
    pub fn regex(&self) -> &fancy_regex::Regex {
        &self.regex
    }
}

/// Builds the pattern with `fancy_regex::RegexBuilder` and the options of
/// [`fancy_build_error`]; the error, if any, is turned into its message.
/// Claimed: success exactly when the name says so, and the message it names;
/// the program is recorded as built from `pattern`.
#[verifier::external_body]
pub fn build_fancy(pattern: &str) -> (compiled: Result<FancyAutomaton, String>)
    ensures
        match compiled {
            Ok(a) => fancy_build_error(pattern@) is None && a.source() == pattern@,
            Err(message) => fancy_build_error(pattern@) == Some(message@),
        },
{
    match fancy_regex::RegexBuilder::new(pattern).case_insensitive(false).multi_line(false)
        .ignore_whitespace(false).dot_matches_new_line(false).verbose_mode(false).unicode_mode(true)
        .build()
    {
        Ok(regex) => Ok(FancyAutomaton { regex, source: Ghost(pattern@) }),
        Err(e) => Err(e.to_string()),
    }
}

/// Calls `Clone::clone` on a `fancy_regex::Regex`, which copies the program.
/// Claimed: the copy is recorded as built from the same source.
#[verifier::external_body]
pub fn copy_compiled(compiled: &FancyAutomaton) -> (copy: FancyAutomaton)
    ensures
        copy.source() == compiled.source(),
{
    FancyAutomaton { regex: compiled.regex.clone(), source: Ghost(compiled.source@) }
}

} // verus!
