//! One interface over both engines: a compiled pattern of either kind, what
//! each search gives for it, and capture reads through a reusable buffer.

use vstd::prelude::*;
use vstd::string::*;
use vstd::utf8::encode_utf8;

use crate::engine::RegexEngine;
use crate::fancy_engine::{
    fancy_capture_names, fancy_capture_scan, fancy_captures, fancy_captures_len, fancy_expansion,
    fancy_expansion_scan, fancy_find, fancy_is_match, fancy_match_scan, FancyRegex,
};
use crate::matches::{group_texts, span_text, valid_group_spans, valid_span, CaptureGroups, Match};
use crate::std_engine::{
    regex_capture_names, regex_captures, regex_captures_all, regex_captures_len, regex_find,
    regex_find_all, regex_replace, regex_replace_all, well_formed_groups, RegexLocations, StdRegex,
};
use crate::text::{dollar_escaped, ordered_spans, piece_spans, spliceable_spans, splice_pieces, splice_spans, substring};

verus! {

/// Why a pattern could not be used.
#[derive(Debug, Clone, PartialEq, Eq)]
pub enum RegexError {
    /// The engine rejected the pattern; the message is the engine's.
    ComputeError(String),
}

/// A compiled pattern of either engine.
pub enum RegexAdapter {
    Regex(StdRegex),
    Fancy(FancyRegex),
}

impl RegexAdapter {
    /// The source of the pattern.
    pub open spec fn source(&self) -> Seq<char> {
        match self {
            RegexAdapter::Regex(re) => re@,
            RegexAdapter::Fancy(re) => re@,
        }
    }

    /// The source the automaton this pattern searches with was built from.
    pub open spec fn automaton_source(&self) -> Seq<char> {
        match self {
            RegexAdapter::Regex(re) => re.automaton_source(),
            RegexAdapter::Fancy(re) => re.automaton_source(),
        }
    }

    /// The engine that compiled the pattern.
    pub open spec fn engine_of(&self) -> RegexEngine {
        match self {
            RegexAdapter::Regex(_) => RegexEngine::Regex,
            RegexAdapter::Fancy(_) => RegexEngine::Fancy,
        }
    }

    /// Whether the pattern matches in `text` (a failed search does not).
    pub open spec fn finds_match(&self, text: Seq<char>) -> bool {
        match self {
            RegexAdapter::Regex(re) => regex_find(re@, text) is Some,
            RegexAdapter::Fancy(re) => fancy_is_match(re@, text) == Some(true),
        }
    }

    /// The span of the first match in `text`.
    pub open spec fn first_match(&self, text: Seq<char>) -> Option<(usize, usize)> {
        match self {
            RegexAdapter::Regex(re) => regex_find(re@, text),
            RegexAdapter::Fancy(re) => match fancy_find(re@, text) {
                Some(Some(span)) => Some(span),
                _ => None,
            },
        }
    }

    /// The spans of the successive matches in `text`.
    pub open spec fn match_spans(&self, text: Seq<char>) -> Seq<(usize, usize)> {
        match self {
            RegexAdapter::Regex(re) => regex_find_all(re@, text),
            RegexAdapter::Fancy(re) => fancy_match_scan(re@, text, 0),
        }
    }

    /// The group spans of the first match in `text`.
    pub open spec fn first_captures(&self, text: Seq<char>) -> Option<Seq<Option<(usize, usize)>>> {
        first_captures_of(self.engine_of(), self.source(), text)
    }

    /// The group spans of the successive matches in `text`.
    pub open spec fn all_captures(&self, text: Seq<char>) -> Seq<Seq<Option<(usize, usize)>>> {
        match self {
            RegexAdapter::Regex(re) => regex_captures_all(re@, text),
            RegexAdapter::Fancy(re) => fancy_capture_scan(re@, text, 0),
        }
    }

    /// The number of groups, the whole-match group included.
    pub open spec fn group_count(&self) -> usize {
        match self {
            RegexAdapter::Regex(re) => regex_captures_len(re@),
            RegexAdapter::Fancy(re) => fancy_captures_len(re@),
        }
    }

    /// The names of the groups.
    pub open spec fn group_names(&self) -> Seq<Option<Seq<char>>> {
        match self {
            RegexAdapter::Regex(re) => regex_capture_names(re@),
            RegexAdapter::Fancy(re) => fancy_capture_names(re@),
        }
    }

    /// The UTF-8 bytes of `text` with its first match replaced by `replacement`.
    pub open spec fn replaced_first(&self, text: Seq<char>, replacement: Seq<char>) -> Seq<u8> {
        match self {
            RegexAdapter::Regex(re) => encode_utf8(regex_replace(re@, text, replacement)),
            RegexAdapter::Fancy(re) => {
                let bytes = encode_utf8(text);
                match fancy_captures(re@, text) {
                    Some(Some(groups)) => if groups.len() > 0 && groups[0] is Some {
                        let span = groups[0].unwrap();
                        bytes.subrange(0, span.0 as int) + encode_utf8(fancy_expansion(re@, text, replacement))
                            + bytes.subrange(span.1 as int, bytes.len() as int)
                    } else {
                        bytes
                    },
                    _ => bytes,
                }
            },
        }
    }

    /// The UTF-8 bytes of `text` with all its matches replaced by `replacement`.
    pub open spec fn replaced_all(&self, text: Seq<char>, replacement: Seq<char>) -> Seq<u8> {
        match self {
            RegexAdapter::Regex(re) => encode_utf8(regex_replace_all(re@, text, replacement)),
            RegexAdapter::Fancy(re) => splice_pieces(encode_utf8(text), fancy_expansion_scan(re@, text, replacement, 0), 0),
        }
    }

    /// Compiles `pattern` with `engine`; the engine's rejection becomes a
    /// [`RegexError::ComputeError`] with its message.
    pub fn new(pattern: &str, engine: RegexEngine) -> (compiled: Result<RegexAdapter, RegexError>)
        ensures
            match compiled {
                Ok(re) => re.source() == pattern@ && re.engine_of() == engine && re.automaton_source() == pattern@,
                Err(RegexError::ComputeError(message)) => match engine {
                    RegexEngine::Regex => crate::std_engine::regex_build_error(pattern@) == Some(message@),
                    RegexEngine::Fancy => crate::fancy_engine::fancy_build_error(pattern@) == Some(message@),
                },
            },
            compiled is Ok <==> compiles(pattern@, engine),
    {
        match engine {
            RegexEngine::Regex => match StdRegex::new(pattern) {
                Ok(re) => Ok(RegexAdapter::Regex(re)),
                Err(message) => Err(RegexError::ComputeError(message)),
            },
            RegexEngine::Fancy => match FancyRegex::new(pattern) {
                Ok(re) => Ok(RegexAdapter::Fancy(re)),
                Err(message) => Err(RegexError::ComputeError(message)),
            },
        }
    }

    /// The engine that compiled the pattern.
    pub fn engine(&self) -> (engine: RegexEngine)
        ensures
            engine == self.engine_of(),
    {
        match self {
            RegexAdapter::Regex(_) => RegexEngine::Regex,
            RegexAdapter::Fancy(_) => RegexEngine::Fancy,
        }
    }

    /// The source of the pattern.
    pub fn as_str(&self) -> (source: &str)
        ensures
            source@ == self.source(),
    {
        match self {
            RegexAdapter::Regex(re) => re.as_str(),
            RegexAdapter::Fancy(re) => re.as_str(),
        }
    }

    /// Whether the pattern matches in `text`.
    pub fn is_match(&self, text: &str) -> (found: bool)
        ensures
            found == self.finds_match(text@),
            found == self.first_match(text@) is Some,
    {
        match self {
            RegexAdapter::Regex(re) => re.is_match(text),
            RegexAdapter::Fancy(re) => re.is_match(text),
        }
    }

    /// The first match in `text`.
    pub fn find<'t>(&self, text: &'t str) -> (found: Option<Match<'t>>)
        ensures
            self.first_match(text@) == match found {
                Some(m) => Some((m.start, m.end)),
                None => None,
            },
            found matches Some(m) ==> valid_span(text.spec_bytes(), m.start as int, m.end as int)
                && m.text@ == span_text(text.spec_bytes(), m.start as int, m.end as int),
    {
        match self {
            RegexAdapter::Regex(re) => re.find(text),
            RegexAdapter::Fancy(re) => re.find(text),
        }
    }

    /// The successive matches in `text`.
    pub fn find_iter<'t>(&self, text: &'t str) -> (found: Vec<Match<'t>>)
        requires
            text.spec_bytes().len() < usize::MAX,
        ensures
            found@.map_values(|m: Match<'t>| (m.start, m.end)) == self.match_spans(text@),
            self.engine_of() == RegexEngine::Regex ==> ordered_spans(text.spec_bytes(), self.match_spans(text@)),
            forall|i: int|
                0 <= i < found@.len() ==> valid_span(text.spec_bytes(), (#[trigger] found@[i]).start as int, found@[i].end as int)
                    && found@[i].text@ == span_text(text.spec_bytes(), found@[i].start as int, found@[i].end as int),
    {
        match self {
            RegexAdapter::Regex(re) => {
                let found = re.find_iter(text);
                proof {
                    let spans = found@.map_values(|m: Match<'t>| (m.start, m.end));
                    assert forall|i: int| 0 <= i < found@.len() implies valid_span(
                        text.spec_bytes(),
                        (#[trigger] found@[i]).start as int,
                        found@[i].end as int,
                    ) by {
                        assert(spans[i] == (found@[i].start, found@[i].end));
                    }
                }
                found
            },
            RegexAdapter::Fancy(re) => re.find_iter(text),
        }
    }

    /// On the backtracking engine, the whole matches of a replace-all of
    /// `text` follow one another without overlapping, so each expansion can be
    /// cut into the text in order; always so on the linear-time engine.
    pub open spec fn expansions_splice(&self, text: &str, replacement: Seq<char>) -> bool {
        match self {
            RegexAdapter::Regex(_) => true,
            RegexAdapter::Fancy(re) => spliceable_spans(
                text.spec_bytes(),
                piece_spans(fancy_expansion_scan(re@, text@, replacement, 0)),
            ),
        }
    }

    /// On the backtracking engine, the successive matches in `text` follow
    /// one another without overlapping; always so on the linear-time engine.
    pub open spec fn matches_splice(&self, text: &str) -> bool {
        match self {
            RegexAdapter::Regex(_) => true,
            RegexAdapter::Fancy(re) => spliceable_spans(text.spec_bytes(), fancy_match_scan(re@, text@, 0)),
        }
    }

    /// `text` with its first match replaced by `replacement` (group references expanded).
    pub fn replace<'t>(&self, text: &'t str, replacement: &str) -> (replaced: std::borrow::Cow<'t, str>)
        ensures
            encode_utf8(replaced@) == self.replaced_first(text@, replacement@),
            replaced is Borrowed ==> replaced@ == text@,
            self.engine_of() == RegexEngine::Regex ==> (replaced is Borrowed <==> self.match_spans(text@).len() == 0),
            self.engine_of() == RegexEngine::Fancy ==> (replaced is Borrowed <==> self.first_captures(text@) is None),
    {
        match self {
            RegexAdapter::Regex(re) => re.replace(text, replacement),
            RegexAdapter::Fancy(re) => re.replace(text, replacement),
        }
    }

    /// `text` with all its matches replaced by `replacement` (group references expanded).
    pub fn replace_all<'t>(&self, text: &'t str, replacement: &str) -> (replaced: std::borrow::Cow<'t, str>)
        requires
            text.spec_bytes().len() < usize::MAX,
            self.expansions_splice(text, replacement@),
        ensures
            encode_utf8(replaced@) == self.replaced_all(text@, replacement@),
            replaced is Borrowed ==> replaced@ == text@,
            self.engine_of() == RegexEngine::Regex ==> (replaced is Borrowed <==> self.match_spans(text@).len() == 0),
            self.engine_of() == RegexEngine::Fancy ==> (replaced is Borrowed <==> self.all_captures(text@).len() == 0),
            forall|r: Seq<char>|
                #[trigger] dollar_escaped(r) == replacement@ ==> encode_utf8(replaced@) == splice_spans(
                    text.spec_bytes(),
                    self.match_spans(text@),
                    encode_utf8(r),
                    0,
                ),
    {
        match self {
            RegexAdapter::Regex(re) => re.replace_all(text, replacement),
            RegexAdapter::Fancy(re) => re.replace_all(text, replacement),
        }
    }

    /// [`RegexAdapter::replace_all`] where its expansions can be cut into the
    /// text in order; `None` where the backtracking engine's matches overlap.
    pub fn try_replace_all<'t>(&self, text: &'t str, replacement: &str) -> (replaced: Option<std::borrow::Cow<'t, str>>)
        requires
            text.spec_bytes().len() < usize::MAX,
        ensures
            replaced is Some <==> self.expansions_splice(text, replacement@),
            replaced matches Some(r) ==> encode_utf8(r@) == self.replaced_all(text@, replacement@),
    {
        match self {
            RegexAdapter::Regex(_) => Some(self.replace_all(text, replacement)),
            RegexAdapter::Fancy(re) => re.try_replace_all(text, replacement),
        }
    }

    /// `text` with every match of [`RegexAdapter::find_iter`] replaced by
    /// `replacement`, taken literally.
    pub fn replace_all_literal<'t>(&self, text: &'t str, replacement: &str) -> (replaced: std::borrow::Cow<'t, str>)
        requires
            text.spec_bytes().len() < usize::MAX,
            self.matches_splice(text),
        ensures
            encode_utf8(replaced@) == splice_spans(
                text.spec_bytes(),
                self.match_spans(text@),
                replacement.spec_bytes(),
                0,
            ),
            replaced is Borrowed ==> replaced@ == text@,
            replaced is Borrowed <==> self.match_spans(text@).len() == 0,
    {
        match self {
            RegexAdapter::Regex(re) => re.replace_all_literal(text, replacement),
            RegexAdapter::Fancy(re) => re.replace_all_literal(text, replacement),
        }
    }

    /// [`RegexAdapter::replace_all_literal`] where the matches can be cut
    /// into the text in order; `None` where the backtracking engine's matches
    /// overlap.
    pub fn try_replace_all_literal<'t>(&self, text: &'t str, replacement: &str) -> (replaced: Option<std::borrow::Cow<'t, str>>)
        requires
            text.spec_bytes().len() < usize::MAX,
        ensures
            replaced is Some <==> self.matches_splice(text),
            replaced matches Some(r) ==> encode_utf8(r@) == splice_spans(
                text.spec_bytes(),
                self.match_spans(text@),
                replacement.spec_bytes(),
                0,
            ),
    {
        match self {
            RegexAdapter::Regex(_) => Some(self.replace_all_literal(text, replacement)),
            RegexAdapter::Fancy(re) => re.try_replace_all_literal(text, replacement),
        }
    }

    /// The groups of the first match in `text`.
    pub fn captures<'t>(&self, text: &'t str) -> (caps: Option<CaptureGroups<'t>>)
        ensures
            match self.first_captures(text@) {
                Some(groups) => caps matches Some(c) && c@ == group_texts(text.spec_bytes(), groups)
                    && well_formed_groups(text.spec_bytes(), groups),
                None => caps is None,
            },
            caps is Some <==> self.first_match(text@) is Some,
            self.first_captures(text@) is Some ==> self.first_captures(text@).unwrap()[0] == self.first_match(text@),
    {
        match self {
            RegexAdapter::Regex(re) => re.captures(text),
            RegexAdapter::Fancy(re) => re.captures(text),
        }
    }

    /// The groups of each successive match in `text`.
    pub fn captures_iter<'t>(&self, text: &'t str) -> (caps: Vec<CaptureGroups<'t>>)
        requires
            text.spec_bytes().len() < usize::MAX,
        ensures
            caps@.len() == self.all_captures(text@).len(),
            forall|i: int|
                0 <= i < caps@.len() ==> (#[trigger] caps@[i])@ == group_texts(
                    text.spec_bytes(),
                    self.all_captures(text@)[i],
                ),
            forall|i: int|
                0 <= i < caps@.len() ==> well_formed_groups(text.spec_bytes(), #[trigger] self.all_captures(text@)[i]),
            self.all_captures(text@).len() == self.match_spans(text@).len(),
            forall|i: int|
                0 <= i < caps@.len() ==> (#[trigger] self.all_captures(text@)[i])[0] == Some(self.match_spans(text@)[i]),
    {
        match self {
            RegexAdapter::Regex(re) => re.captures_iter(text),
            RegexAdapter::Fancy(re) => re.captures_iter(text),
        }
    }

    /// The names of the groups, in order; unnamed groups have none.
    pub fn capture_names(&self) -> (names: Vec<Option<String>>)
        ensures
            names@.len() == self.group_names().len(),
            forall|i: int|
                0 <= i < names@.len() ==> match #[trigger] names@[i] {
                    Some(n) => self.group_names()[i] == Some(n@),
                    None => self.group_names()[i] is None,
                },
    {
        match self {
            RegexAdapter::Regex(re) => re.capture_names(),
            RegexAdapter::Fancy(re) => re.capture_names(),
        }
    }

    /// The number of groups, the whole-match group included.
    pub fn captures_len(&self) -> (n: usize)
        ensures
            n == self.group_count(),
    {
        match self {
            RegexAdapter::Regex(re) => re.captures_len(),
            RegexAdapter::Fancy(re) => re.captures_len(),
        }
    }

    /// The number of successive matches in `text`.
    pub fn count_matches(&self, text: &str) -> (n: usize)
        requires
            text.spec_bytes().len() < usize::MAX,
        ensures
            n == self.match_spans(text@).len(),
    {
        match self {
            RegexAdapter::Regex(re) => re.count_matches(text),
            RegexAdapter::Fancy(re) => re.count_matches(text),
        }
    }
}

impl Clone for RegexAdapter {
    /// A copy of the compiled pattern.
    fn clone(&self) -> (copy: Self)
        ensures
            copy.source() == self.source(),
            copy.engine_of() == self.engine_of(),
            compiles(self.source(), self.engine_of()),
            copy.automaton_source() == self.automaton_source(),
            copy.automaton_source() == copy.source(),
    {
        match self {
            RegexAdapter::Regex(re) => RegexAdapter::Regex(re.clone()),
            RegexAdapter::Fancy(re) => RegexAdapter::Fancy(re.clone()),
        }
    }
}

/// A pattern that [`RegexAdapter::new`] compiles with `engine` searches with
/// the automaton that engine builds from that very pattern.
pub proof fn law_adapter_new_searches_with_its_pattern(
    pattern: &str,
    engine: RegexEngine,
    made: Result<RegexAdapter, RegexError>,
)
    requires
        call_ensures(RegexAdapter::new, (pattern, engine), made),
    ensures
        made matches Ok(re) ==> re.source() == pattern@ && re.engine_of() == engine
            && re.automaton_source() == pattern@,
        made is Ok <==> compiles(pattern@, engine),
{
}

/// A copy of a compiled pattern has its engine and source, and searches with
/// an automaton built from that same source: it finds what the original finds
/// on every text.
pub proof fn law_adapter_copy_searches_alike(re: &RegexAdapter, copy: RegexAdapter)
    requires
        call_ensures(RegexAdapter::clone, (re,), copy),
    ensures
        copy.source() == re.source(),
        copy.engine_of() == re.engine_of(),
        copy.automaton_source() == re.automaton_source(),
        copy.automaton_source() == copy.source(),
{
}

/// The group spans of the first match of `pattern`, compiled by `engine`,
/// in `text`; a failed search counts as no match.
pub open spec fn first_captures_of(engine: RegexEngine, pattern: Seq<char>, text: Seq<char>) -> Option<Seq<Option<(usize, usize)>>> {
    match engine {
        RegexEngine::Regex => regex_captures(pattern, text),
        RegexEngine::Fancy => match fancy_captures(pattern, text) {
            Some(Some(groups)) => Some(groups),
            _ => None,
        },
    }
}

/// The text of group `index` of the first match of `pattern`, compiled by
/// `engine`, in `text`, if the match exists and the group took part in it.
pub open spec fn capture_group_text(engine: RegexEngine, pattern: Seq<char>, text: Seq<char>, index: int) -> Option<Seq<char>> {
    match first_captures_of(engine, pattern, text) {
        Some(groups) => if 0 <= index < groups.len() {
            match groups[index] {
                Some((s, e)) => Some(span_text(encode_utf8(text), s as int, e as int)),
                None => None,
            }
        } else {
            None
        },
        None => None,
    }
}

/// The number of groups of `pattern` compiled by `engine`, the whole-match
/// group included.
pub open spec fn group_count_of(engine: RegexEngine, pattern: Seq<char>) -> usize {
    match engine {
        RegexEngine::Regex => regex_captures_len(pattern),
        RegexEngine::Fancy => fancy_captures_len(pattern),
    }
}

/// Whether `engine` compiles `pattern`.
pub open spec fn compiles(pattern: Seq<char>, engine: RegexEngine) -> bool {
    match engine {
        RegexEngine::Regex => crate::std_engine::regex_build_error(pattern) is None,
        RegexEngine::Fancy => crate::fancy_engine::fancy_build_error(pattern) is None,
    }
}

/// Storage that a regex of the linear-time engine reuses across capture
/// searches; empty for the backtracking engine, which needs none.
pub struct CaptureLocationsBuffer {
    locations: Option<RegexLocations>,
}

impl Default for CaptureLocationsBuffer {
    /// An empty buffer.
    fn default() -> (buffer: CaptureLocationsBuffer)
        ensures
            !buffer.has_locations(),
    {
        CaptureLocationsBuffer { locations: None }
    }
}

impl CaptureLocationsBuffer {
    /// Whether the buffer holds storage.
    pub closed spec fn has_locations(&self) -> bool {
        self.locations is Some
    }

    /// The source of the regex whose storage the buffer holds.
    pub closed spec fn locations_source(&self) -> Seq<char> {
        self.locations.unwrap().source()
    }

    /// The buffer may serve `re`: it is empty, or `re` runs on the
    /// linear-time engine and the storage was made for its pattern.
    pub open spec fn serves(&self, re: &RegexAdapter) -> bool {
        self.has_locations() ==> (re.engine_of() == RegexEngine::Fancy || self.locations_source() == re.source())
    }
}

/// The groups of one match, read through a buffer: the text searched and the
/// span of each group.
pub struct FastCaptureResult<'t> {
    text: &'t str,
    groups: Vec<Option<(usize, usize)>>,
}

impl<'t> View for FastCaptureResult<'t> {
    type V = Seq<Option<Seq<char>>>;

    /// The text of each group.
    closed spec fn view(&self) -> Seq<Option<Seq<char>>> {
        group_texts(self.text.spec_bytes(), self.groups@)
    }
}

impl<'t> FastCaptureResult<'t> {
    /// Every group span is a span of the text searched.
    #[verifier::type_invariant]
    closed spec fn spans_in_text(self) -> bool {
        valid_group_spans(self.text.spec_bytes(), self.groups@)
    }

    /// The text of group `index`, if that group exists and took part in the match.
    pub fn get(&self, index: usize) -> (group: Option<&'t str>)
        ensures
            group is Some <==> (index < self@.len() && self@[index as int] is Some),
            group matches Some(s) ==> s@ == self@[index as int].unwrap(),
    {
        proof {
            use_type_invariant(self);
        }
        if index < self.groups.len() {
            match self.groups[index] {
                Some((start, end)) => {
                    assert(self.groups@[index as int] == Some((start, end)));
                    Some(substring(self.text, start, end))
                },
                None => None,
            }
        } else {
            None
        }
    }
}

impl RegexAdapter {
    /// A buffer for capture searches of this regex: storage for the
    /// linear-time engine, empty for the backtracking one.
    pub fn create_locations_buffer(&self) -> (buffer: CaptureLocationsBuffer)
        ensures
            buffer.serves(self),
            buffer.has_locations() <==> self.engine_of() == RegexEngine::Regex,
    {
        match self {
            RegexAdapter::Regex(re) => CaptureLocationsBuffer { locations: Some(re.capture_locations()) },
            RegexAdapter::Fancy(_) => CaptureLocationsBuffer::default(),
        }
    }

    /// The groups of the first match in `text`, read through `buffer`. On the
    /// linear-time engine an empty buffer yields nothing.
    pub fn captures_with_buffer<'t>(&self, text: &'t str, buffer: &mut CaptureLocationsBuffer) -> (caps: Option<FastCaptureResult<'t>>)
        requires
            old(buffer).serves(self),
        ensures
            final(buffer).serves(self),
            final(buffer).has_locations() == old(buffer).has_locations(),
            caps is Some <==> (self.first_captures(text@) is Some
                && (self.engine_of() == RegexEngine::Fancy || old(buffer).has_locations())),
            caps matches Some(c) ==> c@ == group_texts(text.spec_bytes(), self.first_captures(text@).unwrap()),
            old(buffer).has_locations() == (self.engine_of() == RegexEngine::Regex)
                ==> (caps is Some <==> self.first_captures(text@) is Some)
                && (caps is Some <==> self.first_match(text@) is Some),
            self.engine_of() == RegexEngine::Fancy ==> *final(buffer) == *old(buffer),
    {
        match self {
            RegexAdapter::Regex(re) => match &mut buffer.locations {
                Some(locs) => match re.captures_read(locs, text) {
                    Some(groups) => Some(FastCaptureResult { text, groups }),
                    None => None,
                },
                None => None,
            },
            RegexAdapter::Fancy(re) => match crate::fancy_engine::fancy_groups(re, text) {
                Some(groups) => Some(FastCaptureResult { text, groups }),
                None => None,
            },
        }
    }

    /// The text of group `group_index` of the first match in `text`, read
    /// through `buffer`.
    pub fn get_group_with_buffer<'t>(&self, text: &'t str, group_index: usize, buffer: &mut CaptureLocationsBuffer) -> (group: Option<&'t str>)
        requires
            old(buffer).serves(self),
        ensures
            final(buffer).serves(self),
            final(buffer).has_locations() == old(buffer).has_locations(),
            group is Some <==> ({
                &&& self.first_captures(text@) is Some
                &&& (self.engine_of() == RegexEngine::Fancy || old(buffer).has_locations())
                &&& group_index < self.first_captures(text@).unwrap().len()
                &&& self.first_captures(text@).unwrap()[group_index as int] is Some
            }),
            group matches Some(s) ==> s@ == group_texts(
                text.spec_bytes(),
                self.first_captures(text@).unwrap(),
            )[group_index as int].unwrap(),
            (self.engine_of() == RegexEngine::Fancy || old(buffer).has_locations()) ==> match capture_group_text(
                self.engine_of(),
                self.source(),
                text@,
                group_index as int,
            ) {
                Some(t) => group matches Some(s) && s@ == t,
                None => group is None,
            },
    {
        match self.captures_with_buffer(text, buffer) {
            Some(caps) => caps.get(group_index),
            None => None,
        }
    }
}

} // verus!
