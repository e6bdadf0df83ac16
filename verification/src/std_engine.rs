//! Patterns compiled by the linear-time engine of the `regex` crate.
//!
//! What a search of the engine finds is named here as a function of the
//! pattern and the text (`regex_*`); a compiled [`StdRegex`] always keeps the
//! pattern it was built from, so every search is stated over that pattern.

use vstd::prelude::*;
use vstd::string::*;

mod automaton;

use automaton::{build_regex, copy_compiled, new_capture_locations, StdAutomaton, StdLocations};

use crate::matches::{build_capture_groups, group_texts, span_text, valid_group_spans, valid_span, CaptureGroups, Match};
use crate::text::{dollar_escaped, ordered_spans, splice_spans};
use vstd::utf8::encode_utf8;

verus! {

#[verifier::external_type_specification]
#[verifier::external_body]
pub struct ExStdCompiledRegex(regex::Regex);

#[verifier::external_type_specification]
#[verifier::external_body]
pub struct ExStdCaptureLocations(regex::CaptureLocations);

/// `None` when the `regex` crate compiles `pattern` with the options used
/// here (Unicode on; case-insensitivity, multi-line, dot-all, CRLF, swapped
/// greed, whitespace-insensitivity and octal escapes off); otherwise the
/// message of the error it reports.
pub uninterp spec fn regex_build_error(pattern: Seq<char>) -> Option<Seq<char>>;


/// The byte span of the leftmost-first match of `pattern` in `text`.
pub uninterp spec fn regex_find(pattern: Seq<char>, text: Seq<char>) -> Option<(usize, usize)>;

/// The byte spans of the successive non-overlapping matches of `pattern` in `text`.
pub uninterp spec fn regex_find_all(pattern: Seq<char>, text: Seq<char>) -> Seq<(usize, usize)>;

/// `text` with its leftmost-first match of `pattern` replaced by `replacement`,
/// in which `$name` and `${name}` stand for capture groups.
pub uninterp spec fn regex_replace(pattern: Seq<char>, text: Seq<char>, replacement: Seq<char>) -> Seq<char>;

/// `text` with all its non-overlapping matches of `pattern` replaced by
/// `replacement`, in which `$name` and `${name}` stand for capture groups.
pub uninterp spec fn regex_replace_all(pattern: Seq<char>, text: Seq<char>, replacement: Seq<char>) -> Seq<char>;

/// The group spans of the leftmost-first match of `pattern` in `text`.
pub uninterp spec fn regex_captures(pattern: Seq<char>, text: Seq<char>) -> Option<Seq<Option<(usize, usize)>>>;

/// The group spans of each successive non-overlapping match of `pattern` in `text`.
pub uninterp spec fn regex_captures_all(pattern: Seq<char>, text: Seq<char>) -> Seq<Seq<Option<(usize, usize)>>>;

/// The number of groups of `pattern`, the implicit whole-match group included.
pub uninterp spec fn regex_captures_len(pattern: Seq<char>) -> usize;

/// The names of the groups of `pattern`, in order; unnamed groups have none.
pub uninterp spec fn regex_capture_names(pattern: Seq<char>) -> Seq<Option<Seq<char>>>;

/// The groups of one match are spans of the text, and group 0 spans the whole match.
pub open spec fn well_formed_groups(bytes: Seq<u8>, groups: Seq<Option<(usize, usize)>>) -> bool {
    &&& groups.len() >= 1
    &&& groups[0] is Some
    &&& valid_group_spans(bytes, groups)
}

/// A pattern compiled by the `regex` crate, together with its source.
pub struct StdRegex {
    pattern: String,
    compiled: StdAutomaton,
}

impl View for StdRegex {
    type V = Seq<char>;

    /// The source of the pattern.
    closed spec fn view(&self) -> Seq<char> {
        self.pattern@
    }
}

impl StdRegex {
    /// A compiled regex only exists for a pattern that compiles, and it
    /// searches with the automaton built from that very pattern.
    #[verifier::type_invariant]
    closed spec fn compiles(self) -> bool {
        &&& regex_build_error(self.pattern@) is None
        &&& self.compiled.source() == self.pattern@
    }

    /// The source the automaton this regex searches with was built from.
    pub closed spec fn automaton_source(&self) -> Seq<char> {
        self.compiled.source()
    }

    /// Compiles `pattern`, or reports why the engine rejects it.
    pub fn new(pattern: &str) -> (re: Result<StdRegex, String>)
        ensures
            match re {
                Ok(re) => re@ == pattern@ && regex_build_error(pattern@) is None
                    && re.automaton_source() == pattern@,
                Err(message) => regex_build_error(pattern@) == Some(message@),
            },
    {
        match build_regex(pattern) {
            Ok(compiled) => Ok(StdRegex { pattern: pattern.to_owned(), compiled }),
            Err(message) => Err(message),
        }
    }

    /// The source of the pattern.
    pub fn as_str(&self) -> (source: &str)
        ensures
            source@ == self@,
    {
        self.pattern.as_str()
    }

    /// Whether the pattern matches somewhere in `text`.
    pub fn is_match(&self, text: &str) -> (found: bool)
        ensures
            found == regex_find(self@, text@) is Some,
    {
        regex_is_match_in(self, text)
    }

    /// The leftmost-first match in `text`.
    pub fn find<'t>(&self, text: &'t str) -> (found: Option<Match<'t>>)
        ensures
            regex_find(self@, text@) == match found {
                Some(m) => Some((m.start, m.end)),
                None => None,
            },
            found matches Some(m) ==> valid_span(text.spec_bytes(), m.start as int, m.end as int)
                && m.text@ == span_text(text.spec_bytes(), m.start as int, m.end as int),
    {
        regex_find_in(self, text)
    }

    /// The successive non-overlapping matches in `text`.
    pub fn find_iter<'t>(&self, text: &'t str) -> (found: Vec<Match<'t>>)
        ensures
            regex_find_all(self@, text@) == found@.map_values(|m: Match<'t>| (m.start, m.end)),
            ordered_spans(text.spec_bytes(), found@.map_values(|m: Match<'t>| (m.start, m.end))),
            forall|i: int|
                0 <= i < found@.len() ==> (#[trigger] found@[i]).text@ == span_text(
                    text.spec_bytes(),
                    found@[i].start as int,
                    found@[i].end as int,
                ),
    {
        regex_find_iter_in(self, text)
    }

    /// `text` with its first match replaced by `replacement` (group references expanded).
    pub fn replace<'t>(&self, text: &'t str, replacement: &str) -> (replaced: std::borrow::Cow<'t, str>)
        ensures
            replaced@ == regex_replace(self@, text@, replacement@),
            replaced is Borrowed <==> regex_find_all(self@, text@).len() == 0,
            replaced is Borrowed ==> replaced@ == text@,
    {
        regex_replace_in(self, text, replacement)
    }

    /// `text` with every match replaced by `replacement` (group references expanded).
    pub fn replace_all<'t>(&self, text: &'t str, replacement: &str) -> (replaced: std::borrow::Cow<'t, str>)
        ensures
            replaced@ == regex_replace_all(self@, text@, replacement@),
            forall|r: Seq<char>|
                #[trigger] dollar_escaped(r) == replacement@ ==> encode_utf8(replaced@) == splice_spans(
                    text.spec_bytes(),
                    regex_find_all(self@, text@),
                    encode_utf8(r),
                    0,
                ),
            replaced is Borrowed <==> regex_find_all(self@, text@).len() == 0,
            replaced is Borrowed ==> replaced@ == text@,
    {
        regex_replace_all_in(self, text, replacement)
    }

    /// `text` with every match replaced by `replacement`, taken literally.
    pub fn replace_all_literal<'t>(&self, text: &'t str, replacement: &str) -> (replaced: std::borrow::Cow<'t, str>)
        ensures
            encode_utf8(replaced@) == splice_spans(
                text.spec_bytes(),
                regex_find_all(self@, text@),
                replacement.spec_bytes(),
                0,
            ),
            replaced is Borrowed <==> regex_find_all(self@, text@).len() == 0,
            replaced is Borrowed ==> replaced@ == text@,
    {
        regex_replace_all_literally_in(self, text, replacement)
    }

    /// The groups of the leftmost-first match in `text`.
    pub fn captures<'t>(&self, text: &'t str) -> (caps: Option<CaptureGroups<'t>>)
        ensures
            match regex_captures(self@, text@) {
                Some(groups) => caps matches Some(c) && c@ == group_texts(text.spec_bytes(), groups)
                    && well_formed_groups(text.spec_bytes(), groups),
                None => caps is None,
            },
            caps is Some <==> regex_find(self@, text@) is Some,
            regex_captures(self@, text@) matches Some(groups) ==> groups[0] == regex_find(self@, text@),
    {
        match regex_captures_in(self, text) {
            Some(spans) => Some(build_capture_groups(text, &spans)),
            None => None,
        }
    }

    /// The groups of every successive non-overlapping match in `text`.
    pub fn captures_iter<'t>(&self, text: &'t str) -> (caps: Vec<CaptureGroups<'t>>)
        ensures
            caps@.len() == regex_captures_all(self@, text@).len(),
            forall|i: int|
                0 <= i < caps@.len() ==> (#[trigger] caps@[i])@ == group_texts(
                    text.spec_bytes(),
                    regex_captures_all(self@, text@)[i],
                ),
            forall|i: int|
                0 <= i < caps@.len() ==> well_formed_groups(text.spec_bytes(), #[trigger] regex_captures_all(self@, text@)[i]),
            regex_captures_all(self@, text@).len() == regex_find_all(self@, text@).len(),
            forall|i: int|
                0 <= i < caps@.len() ==> (#[trigger] regex_captures_all(self@, text@)[i])[0] == Some(regex_find_all(self@, text@)[i]),
    {
        let all = regex_captures_iter_in(self, text);
        let mut caps: Vec<CaptureGroups<'t>> = Vec::new();
        let mut i: usize = 0;
        while i < all.len()
            invariant
                all@.len() == regex_captures_all(self@, text@).len(),
                forall|k: int|
                    0 <= k < all@.len() ==> #[trigger] all@[k]@ == regex_captures_all(self@, text@)[k]
                        && well_formed_groups(text.spec_bytes(), all@[k]@),
                0 <= i <= all@.len(),
                caps@.len() == i,
                forall|k: int|
                    0 <= k < i ==> (#[trigger] caps@[k])@ == group_texts(
                        text.spec_bytes(),
                        regex_captures_all(self@, text@)[k],
                    ),
            decreases all@.len() - i,
        {
            assert(well_formed_groups(text.spec_bytes(), all@[i as int]@));
            caps.push(build_capture_groups(text, &all[i]));
            i = i + 1;
        }
        assert forall|i: int| 0 <= i < caps@.len() implies well_formed_groups(
            text.spec_bytes(),
            #[trigger] regex_captures_all(self@, text@)[i],
        ) && regex_captures_all(self@, text@)[i][0] == Some(regex_find_all(self@, text@)[i]) by {
            assert(all@[i]@ == regex_captures_all(self@, text@)[i]);
        }
        caps
    }

    /// The names of the groups, in order; unnamed groups have none.
    pub fn capture_names(&self) -> (names: Vec<Option<String>>)
        ensures
            names@.len() == regex_capture_names(self@).len(),
            forall|i: int|
                0 <= i < names@.len() ==> match #[trigger] names@[i] {
                    Some(n) => regex_capture_names(self@)[i] == Some(n@),
                    None => regex_capture_names(self@)[i] is None,
                },
    {
        regex_capture_names_of(self)
    }

    /// The number of groups, the whole-match group included.
    pub fn captures_len(&self) -> (n: usize)
        ensures
            n == regex_captures_len(self@),
    {
        regex_captures_len_of(self)
    }

    /// The number of successive non-overlapping matches in `text`.
    pub fn count_matches(&self, text: &str) -> (n: usize)
        ensures
            n == regex_find_all(self@, text@).len(),
    {
        self.find_iter(text).len()
    }

    /// A reusable buffer for the group spans of this regex.
    pub fn capture_locations(&self) -> (locs: RegexLocations)
        ensures
            locs.source() == self@,
    {
        proof {
            use_type_invariant(self);
        }
        RegexLocations { slots: new_capture_locations(&self.compiled) }
    }

    /// The group spans of the leftmost-first match in `text`, read through `locs`.
    pub fn captures_read(&self, locs: &mut RegexLocations, text: &str) -> (groups: Option<Vec<Option<(usize, usize)>>>)
        requires
            old(locs).source() == self@,
        ensures
            final(locs).source() == self@,
            match regex_captures(self@, text@) {
                Some(g) => groups matches Some(v) && v@ == g && well_formed_groups(text.spec_bytes(), g),
                None => groups is None,
            },
            groups is Some <==> regex_find(self@, text@) is Some,
            groups matches Some(v) ==> v@[0] == regex_find(self@, text@),
    {
        read_captures(self, locs, text)
    }
}

impl Clone for StdRegex {
    /// A copy of the compiled regex, with the same source.
    fn clone(&self) -> (copy: Self)
        ensures
            copy@ == self@,
            regex_build_error(copy@) is None,
            copy.automaton_source() == self.automaton_source(),
            copy.automaton_source() == copy@,
    {
        proof {
            use_type_invariant(self);
        }
        StdRegex { pattern: self.pattern.clone(), compiled: copy_compiled(&self.compiled) }
    }
}

/// A regex that [`StdRegex::new`] makes from `pattern` keeps `pattern` as its
/// source and searches with the automaton the engine builds from that very
/// pattern, with the documented options: no other pattern (say, the same one
/// made case-insensitive) stands behind its searches.
pub proof fn law_std_new_searches_with_its_pattern(pattern: &str, made: Result<StdRegex, String>)
    requires
        call_ensures(StdRegex::new, (pattern,), made),
    ensures
        made matches Ok(re) ==> re@ == pattern@ && re.automaton_source() == pattern@,
        made is Ok <==> regex_build_error(pattern@) is None,
{
}

/// A copy of a regex has its source and searches with an automaton built
/// from that same source, so it finds what the original finds on every text.
pub proof fn law_std_copy_searches_alike(re: &StdRegex, copy: StdRegex)
    requires
        call_ensures(StdRegex::clone, (re,), copy),
    ensures
        copy@ == re@,
        copy.automaton_source() == re.automaton_source(),
        copy.automaton_source() == copy@,
{
}

/// Reusable storage for the group spans that one regex finds.
pub struct RegexLocations {
    slots: StdLocations,
}

impl RegexLocations {
    /// The source of the regex that made this buffer.
    pub closed spec fn source(&self) -> Seq<char> {
        self.slots.source()
    }
}

/// Calls `regex::Regex::is_match` on the compiled form of `re`. Claimed, as
/// documented: it is true exactly when there is a match, that is when `find`
/// finds one, for the source of `re`, which that compiled form was built from
/// (the type invariant of [`StdRegex`] records it, from what the builder
/// claims); the same holds of every search wrapper below.
#[verifier::external_body]
fn regex_is_match_in(re: &StdRegex, text: &str) -> (found: bool)
    ensures
        found == regex_find(re@, text@) is Some,
{
    re.compiled.regex().is_match(text)
}

/// Calls `regex::Regex::find` and converts the match. Claimed: the span is the
/// named one; as the crate documents, it lies on character boundaries of
/// `text`, and the match's text is that part of `text`.
#[verifier::external_body]
fn regex_find_in<'t>(re: &StdRegex, text: &'t str) -> (found: Option<Match<'t>>)
    ensures
        regex_find(re@, text@) == match found {
            Some(m) => Some((m.start, m.end)),
            None => None,
        },
        found matches Some(m) ==> valid_span(text.spec_bytes(), m.start as int, m.end as int)
            && m.text@ == span_text(text.spec_bytes(), m.start as int, m.end as int),
{
    re.compiled.regex().find(text).map(|m| Match { text: m.as_str(), start: m.start(), end: m.end() })
}

/// Calls `regex::Regex::find_iter` and collects the matches. Claimed: their
/// spans are the named ones; as documented, they are successive and
/// non-overlapping, on character boundaries, and each match's text is that
/// part of `text`.
#[verifier::external_body]
fn regex_find_iter_in<'t>(re: &StdRegex, text: &'t str) -> (found: Vec<Match<'t>>)
    ensures
        regex_find_all(re@, text@) == found@.map_values(|m: Match<'t>| (m.start, m.end)),
        ordered_spans(text.spec_bytes(), found@.map_values(|m: Match<'t>| (m.start, m.end))),
        forall|i: int|
            0 <= i < found@.len() ==> (#[trigger] found@[i]).text@ == span_text(
                text.spec_bytes(),
                found@[i].start as int,
                found@[i].end as int,
            ),
{
    re.compiled.regex().find_iter(text).map(|m| Match { text: m.as_str(), start: m.start(), end: m.end() }).collect()
}

/// Calls `regex::Regex::replace`. Claimed: the text of the result is the
/// named one; and, from the source (`replacen` returns the haystack borrowed
/// exactly when its match iterator yields nothing), the result is borrowed,
/// and then is `text`, exactly when there is no match.
#[verifier::external_body]
fn regex_replace_in<'t>(re: &StdRegex, text: &'t str, replacement: &str) -> (replaced: std::borrow::Cow<'t, str>)
    ensures
        replaced@ == regex_replace(re@, text@, replacement@),
        replaced is Borrowed <==> regex_find_all(re@, text@).len() == 0,
        replaced is Borrowed ==> replaced@ == text@,
{
    re.compiled.regex().replace(text, replacement)
}

/// Calls `regex::Regex::replace_all` with a template replacement. Claimed: the
/// text of the result is the named one, borrowed exactly when there is no
/// match, as for `replace`; and, as documented (every match is replaced by
/// the expanded template, and `$$` expands to a literal `$`), a template
/// that is some text with its `$` doubled puts that text at every match
/// that `find_iter` yields.
#[verifier::external_body]
fn regex_replace_all_in<'t>(re: &StdRegex, text: &'t str, replacement: &str) -> (replaced: std::borrow::Cow<'t, str>)
    ensures
        replaced@ == regex_replace_all(re@, text@, replacement@),
        forall|r: Seq<char>|
            #[trigger] dollar_escaped(r) == replacement@ ==> encode_utf8(replaced@) == splice_spans(
                text.spec_bytes(),
                regex_find_all(re@, text@),
                encode_utf8(r),
                0,
            ),
        replaced is Borrowed <==> regex_find_all(re@, text@).len() == 0,
        replaced is Borrowed ==> replaced@ == text@,
{
    re.compiled.regex().replace_all(text, replacement)
}

/// Calls `regex::Regex::replace_all` with `regex::NoExpand`. Claimed, as
/// documented: every match that `find_iter` yields is replaced by the
/// replacement taken literally, and the rest of `text` is kept; the result is
/// borrowed exactly when there is no match, as for `replace`.
#[verifier::external_body]
fn regex_replace_all_literally_in<'t>(re: &StdRegex, text: &'t str, replacement: &str) -> (replaced: std::borrow::Cow<'t, str>)
    ensures
        encode_utf8(replaced@) == splice_spans(
            text.spec_bytes(),
            regex_find_all(re@, text@),
            replacement.spec_bytes(),
            0,
        ),
        replaced is Borrowed <==> regex_find_all(re@, text@).len() == 0,
        replaced is Borrowed ==> replaced@ == text@,
{
    re.compiled.regex().replace_all(text, regex::NoExpand(replacement))
}

/// Calls `regex::Regex::captures` and converts each group to its span.
/// Claimed: the spans are the named ones; as documented, the search is for
/// the first match, as `find`'s is, so there are groups exactly when `find`
/// finds a match and group 0 is that match; every span lies on character
/// boundaries of `text`.
#[verifier::external_body]
fn regex_captures_in(re: &StdRegex, text: &str) -> (groups: Option<Vec<Option<(usize, usize)>>>)
    ensures
        match regex_captures(re@, text@) {
            Some(g) => groups matches Some(v) && v@ == g && well_formed_groups(text.spec_bytes(), g),
            None => groups is None,
        },
        groups is Some <==> regex_find(re@, text@) is Some,
        groups matches Some(v) ==> v@[0] == regex_find(re@, text@),
{
    re.compiled.regex().captures(text).map(|caps| caps.iter().map(|g| g.map(|m| (m.start(), m.end()))).collect())
}

/// Calls `regex::Regex::captures_iter` and converts each group to its span.
/// Claimed: the spans are the named ones, each capture well formed as for
/// `captures`; and, as documented ("the same as `find_iter`" but with the
/// groups), the whole matches are the matches of `find_iter`, in order.
#[verifier::external_body]
fn regex_captures_iter_in(re: &StdRegex, text: &str) -> (all: Vec<Vec<Option<(usize, usize)>>>)
    ensures
        all@.len() == regex_captures_all(re@, text@).len(),
        forall|k: int|
            0 <= k < all@.len() ==> #[trigger] all@[k]@ == regex_captures_all(re@, text@)[k]
                && well_formed_groups(text.spec_bytes(), all@[k]@),
        all@.len() == regex_find_all(re@, text@).len(),
        forall|k: int| 0 <= k < all@.len() ==> (#[trigger] all@[k])@[0] == Some(regex_find_all(re@, text@)[k]),
{
    re.compiled.regex().captures_iter(text).map(|caps| caps.iter().map(|g| g.map(|m| (m.start(), m.end()))).collect()).collect()
}

/// Calls `regex::Regex::capture_names` and copies the names. Claimed: the
/// names are the named ones.
#[verifier::external_body]
fn regex_capture_names_of(re: &StdRegex) -> (names: Vec<Option<String>>)
    ensures
        names@.len() == regex_capture_names(re@).len(),
        forall|i: int|
            0 <= i < names@.len() ==> match #[trigger] names@[i] {
                Some(n) => regex_capture_names(re@)[i] == Some(n@),
                None => regex_capture_names(re@)[i] is None,
            },
{
    re.compiled.regex().capture_names().map(|n| n.map(|s| s.to_string())).collect()
}

/// Calls `regex::Regex::captures_len`. Claimed: the named count.
#[verifier::external_body]
fn regex_captures_len_of(re: &StdRegex) -> (n: usize)
    ensures
        n == regex_captures_len(re@),
{
    re.compiled.regex().captures_len()
}

/// Calls `regex::Regex::captures_read` with a buffer made by a regex of the
/// same source, and reads back every slot on a match. Claimed, as documented:
/// it finds what `captures` finds, so a match exactly when `find` finds one.
#[verifier::external_body]
fn read_captures(re: &StdRegex, locs: &mut RegexLocations, text: &str) -> (groups: Option<Vec<Option<(usize, usize)>>>)
    requires
        old(locs).source() == re@,
    ensures
        final(locs).source() == old(locs).source(),
        match regex_captures(re@, text@) {
            Some(g) => groups matches Some(v) && v@ == g && well_formed_groups(text.spec_bytes(), g),
            None => groups is None,
        },
        groups is Some <==> regex_find(re@, text@) is Some,
        groups matches Some(v) ==> v@[0] == regex_find(re@, text@),
{
    let found = re.compiled.regex().captures_read(locs.slots.slots_mut(), text);
    found.map(|_| (0..locs.slots.slots().len()).map(|i| locs.slots.slots().get(i)).collect())
}

} // verus!
