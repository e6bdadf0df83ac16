//! The automaton the `regex` crate builds for a pattern, kept together with
//! the source it was built from. Only the builder and the copier below make
//! one, so that source is always the one the automaton was built from.

use vstd::prelude::*;

use crate::std_engine::regex_build_error;

verus! {

/// An automaton built by the `regex` crate, with the source it was built from.
pub struct StdAutomaton {
    regex: regex::Regex,
    source: Ghost<Seq<char>>,
}

impl StdAutomaton {
    /// The source the automaton was built from.
    pub closed spec fn source(&self) -> Seq<char> {
        self.source@
    }

    /// The automaton itself, for a search.
    pub fn regex(&self) -> &regex::Regex {
        &self.regex
    }
}

/// Builds the pattern with `regex::RegexBuilder` and the options of
/// [`regex_build_error`]; the error, if any, is turned into its message.
/// Claimed: success exactly when the name says so, and the message it names;
/// the automaton is recorded as built from `pattern`.
#[verifier::external_body]
pub fn build_regex(pattern: &str) -> (compiled: Result<StdAutomaton, String>)
    ensures
        match compiled {
            Ok(a) => regex_build_error(pattern@) is None && a.source() == pattern@,
            Err(message) => regex_build_error(pattern@) == Some(message@),
        },
{
    match regex::RegexBuilder::new(pattern).unicode(true).case_insensitive(false).multi_line(false)
        .dot_matches_new_line(false).crlf(false).swap_greed(false).ignore_whitespace(false).octal(false)
        .build()
    {
        Ok(regex) => Ok(StdAutomaton { regex, source: Ghost(pattern@) }),
        Err(e) => Err(e.to_string()),
    }
}

/// Calls `Clone::clone` on a `regex::Regex`, which copies the automaton.
/// Claimed: the copy is recorded as built from the same source.
#[verifier::external_body]
pub fn copy_compiled(compiled: &StdAutomaton) -> (copy: StdAutomaton)
    ensures
        copy.source() == compiled.source(),
{
    StdAutomaton { regex: compiled.regex.clone(), source: Ghost(compiled.source@) }
}

/// Storage for the group spans of one automaton's searches, with the source
/// of the automaton that made it.
pub struct StdLocations {
    slots: regex::CaptureLocations,
    source: Ghost<Seq<char>>,
}

impl StdLocations {
    /// The source of the automaton that made this storage.
    pub closed spec fn source(&self) -> Seq<char> {
        self.source@
    }

    /// The storage itself, to read.
    pub fn slots(&self) -> &regex::CaptureLocations {
        &self.slots
    }

    /// The storage itself, for a search to fill.
    pub fn slots_mut(&mut self) -> (slots: &mut regex::CaptureLocations)
        ensures
            final(self).source() == old(self).source(),
    {
        &mut self.slots
    }
}

/// Calls `regex::Regex::capture_locations`, which makes empty storage sized
/// for the automaton's groups. Claimed: the storage is recorded as made by
/// an automaton of that source.
#[verifier::external_body]
pub fn new_capture_locations(compiled: &StdAutomaton) -> (locs: StdLocations)
    ensures
        locs.source() == compiled.source(),
{
    StdLocations { slots: compiled.regex.capture_locations(), source: Ghost(compiled.source@) }
}

} // verus!
