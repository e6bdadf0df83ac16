//! Patterns compiled by the backtracking engine of the `fancy-regex` crate.
//!
//! The engine searches from a given byte position; every scan over a text
//! here (all matches, all captures, replacing all matches, counting) is a
//! loop over such searches that resumes where [`advance_position`] says,
//! and its result is stated by a recursive specification over the named
//! single searches (`fancy_*`).

use vstd::prelude::*;
use vstd::string::*;
use vstd::utf8::encode_utf8;

mod automaton;

use automaton::{build_fancy, copy_compiled, FancyAutomaton};

use crate::matches::{build_capture_groups, group_texts, span_text, valid_span, CaptureGroups, Match};
use crate::std_engine::well_formed_groups;
use crate::text::{
    advance_position, dollar_escaped, next_scan_position, piece_span_list, piece_spans, piece_texts, replace_all_literal_from_spans,
    spans_spliceable, splice_pieces, splice_replacements, splice_spans, spliceable_spans,
};

verus! {

broadcast use vstd::utf8::encode_utf8_valid_utf8, vstd::utf8::encode_utf8_decode_utf8;

#[verifier::external_type_specification]
#[verifier::external_body]
pub struct ExFancyCompiledRegex(fancy_regex::Regex);

/// `None` when the `fancy-regex` crate compiles `pattern` with the options
/// used here (Unicode on; case-insensitivity, multi-line, whitespace-
/// insensitivity, dot-all and verbose mode off); otherwise the message of the
/// error it reports.
pub uninterp spec fn fancy_build_error(pattern: Seq<char>) -> Option<Seq<char>>;

/// Whether the compiled `pattern` matches in `text`; `None` when the search fails.
pub uninterp spec fn fancy_is_match(pattern: Seq<char>, text: Seq<char>) -> Option<bool>;

/// The byte span of the first match of `pattern` in `text`; the outer `None`
/// when the search fails.
pub uninterp spec fn fancy_find(pattern: Seq<char>, text: Seq<char>) -> Option<Option<(usize, usize)>>;

/// The byte span of the first match of `pattern` in `text` that starts at or
/// after byte `pos`; the outer `None` when the search fails.
pub uninterp spec fn fancy_find_from(pattern: Seq<char>, text: Seq<char>, pos: usize) -> Option<Option<(usize, usize)>>;

/// The group spans of the first match of `pattern` in `text`; the outer
/// `None` when the search fails.
pub uninterp spec fn fancy_captures(pattern: Seq<char>, text: Seq<char>) -> Option<Option<Seq<Option<(usize, usize)>>>>;

/// The group spans of the first match of `pattern` in `text` that starts at
/// or after byte `pos`; the outer `None` when the search fails.
pub uninterp spec fn fancy_captures_from(pattern: Seq<char>, text: Seq<char>, pos: usize) -> Option<Option<Seq<Option<(usize, usize)>>>>;

/// `template` with its group references (`$name`, `${name}`) expanded
/// against the groups of the first match of `pattern` in `text`.
pub uninterp spec fn fancy_expansion(pattern: Seq<char>, text: Seq<char>, template: Seq<char>) -> Seq<char>;

/// `template` with its group references expanded against the groups of the
/// first match of `pattern` in `text` that starts at or after byte `pos`.
pub uninterp spec fn fancy_expansion_from(pattern: Seq<char>, text: Seq<char>, pos: usize, template: Seq<char>) -> Seq<char>;

/// The number of groups of `pattern`, the implicit whole-match group included.
pub uninterp spec fn fancy_captures_len(pattern: Seq<char>) -> usize;

/// The names of the groups of `pattern`, in order; unnamed groups have none.
pub uninterp spec fn fancy_capture_names(pattern: Seq<char>) -> Seq<Option<Seq<char>>>;

/// The group-0 span of a successful capture search.
pub open spec fn whole_match(groups: Seq<Option<(usize, usize)>>) -> (usize, usize) {
    groups[0].unwrap()
}

/// The spans of the matches that a scan of `text` meets from byte `pos` on:
/// search from `pos`, then resume at the position that follows the match,
/// until a search finds nothing or fails, the position passes the end, or
/// the position would not move on (a match reported before `pos`, which a
/// `\K` in a look-behind allows, ends the scan without being counted).
/// Successive matches may overlap for the same reason.
pub open spec fn fancy_match_scan(pattern: Seq<char>, text: Seq<char>, pos: int) -> Seq<(usize, usize)>
    decreases encode_utf8(text).len() + 1 - pos,
{
    let bytes = encode_utf8(text);
    if pos < 0 || pos > bytes.len() {
        seq![]
    } else {
        match fancy_find_from(pattern, text, pos as usize) {
            Some(Some(span)) => {
                let next = next_scan_position(bytes, span.0 as int, span.1 as int);
                if pos < next <= bytes.len() + 1 {
                    seq![span] + fancy_match_scan(pattern, text, next)
                } else {
                    seq![]
                }
            },
            _ => seq![],
        }
    }
}

/// The group spans of the captures that a scan of `text` meets from byte
/// `pos` on, resuming after each whole match as [`fancy_match_scan`] does.
pub open spec fn fancy_capture_scan(pattern: Seq<char>, text: Seq<char>, pos: int) -> Seq<Seq<Option<(usize, usize)>>>
    decreases encode_utf8(text).len() + 1 - pos,
{
    let bytes = encode_utf8(text);
    if pos < 0 || pos > bytes.len() {
        seq![]
    } else {
        match fancy_captures_from(pattern, text, pos as usize) {
            Some(Some(groups)) => {
                if groups.len() > 0 && groups[0] is Some {
                    let span = whole_match(groups);
                    let next = next_scan_position(bytes, span.0 as int, span.1 as int);
                    if pos < next <= bytes.len() + 1 {
                        seq![groups] + fancy_capture_scan(pattern, text, next)
                    } else {
                        seq![]
                    }
                } else {
                    seq![]
                }
            },
            _ => seq![],
        }
    }
}

/// Each capture of a capture scan is exactly the group spans that the
/// engine's capture search reports from the scan's position (a group that
/// took no part in the match stays absent): the first from `pos`, the rest
/// from where the scan resumes after that capture's whole match, which lies
/// beyond `pos`.
pub proof fn law_capture_scan_reports_engine_groups(pattern: Seq<char>, text: Seq<char>, pos: int)
    ensures
        fancy_capture_scan(pattern, text, pos).len() > 0 ==> {
            let scan = fancy_capture_scan(pattern, text, pos);
            let bytes = encode_utf8(text);
            let next = next_scan_position(bytes, whole_match(scan[0]).0 as int, whole_match(scan[0]).1 as int);
            &&& 0 <= pos <= bytes.len()
            &&& fancy_captures_from(pattern, text, pos as usize) == Some(Some(scan[0]))
            &&& pos < next
            &&& scan.drop_first() == fancy_capture_scan(pattern, text, next)
        },
{
    let scan = fancy_capture_scan(pattern, text, pos);
    if scan.len() > 0 {
        let bytes = encode_utf8(text);
        let groups = fancy_captures_from(pattern, text, pos as usize)->Some_0->Some_0;
        let next = next_scan_position(bytes, whole_match(groups).0 as int, whole_match(groups).1 as int);
        assert(scan == seq![groups] + fancy_capture_scan(pattern, text, next));
        assert(scan.drop_first() =~= fancy_capture_scan(pattern, text, next));
    }
}

/// The whole-match span of each capture that a scan of `text` meets from
/// byte `pos` on, with the expansion of `template` against its groups.
pub open spec fn fancy_expansion_scan(pattern: Seq<char>, text: Seq<char>, template: Seq<char>, pos: int) -> Seq<(usize, usize, Seq<char>)>
    decreases encode_utf8(text).len() + 1 - pos,
{
    let bytes = encode_utf8(text);
    if pos < 0 || pos > bytes.len() {
        seq![]
    } else {
        match fancy_captures_from(pattern, text, pos as usize) {
            Some(Some(groups)) => {
                if groups.len() > 0 && groups[0] is Some {
                    let span = whole_match(groups);
                    let next = next_scan_position(bytes, span.0 as int, span.1 as int);
                    if pos < next <= bytes.len() + 1 {
                        seq![(span.0, span.1, fancy_expansion_from(pattern, text, pos as usize, template))]
                            + fancy_expansion_scan(pattern, text, template, next)
                    } else {
                        seq![]
                    }
                } else {
                    seq![]
                }
            },
            _ => seq![],
        }
    }
}

/// A pattern compiled by the `fancy-regex` crate, together with its source.
pub struct FancyRegex {
    pattern: String,
    compiled: FancyAutomaton,
}

impl View for FancyRegex {
    type V = Seq<char>;

    /// The source of the pattern.
    closed spec fn view(&self) -> Seq<char> {
        self.pattern@
    }
}

impl Clone for FancyRegex {
    /// A copy of the compiled regex, with the same source.
    fn clone(&self) -> (copy: Self)
        ensures
            copy@ == self@,
            fancy_build_error(copy@) is None,
            copy.automaton_source() == self.automaton_source(),
            copy.automaton_source() == copy@,
    {
        proof {
            use_type_invariant(self);
        }
        FancyRegex { pattern: self.pattern.clone(), compiled: copy_compiled(&self.compiled) }
    }
}

/// A regex that [`FancyRegex::new`] makes from `pattern` keeps `pattern` as
/// its source and searches with the program the engine builds from that very
/// pattern, with the documented options: no other pattern (say, the same one
/// in verbose mode, where spaces are ignored) stands behind its searches.
pub proof fn law_fancy_new_searches_with_its_pattern(pattern: &str, made: Result<FancyRegex, String>)
    requires
        call_ensures(FancyRegex::new, (pattern,), made),
    ensures
        made matches Ok(re) ==> re@ == pattern@ && re.automaton_source() == pattern@,
        made is Ok <==> fancy_build_error(pattern@) is None,
{
}

/// A copy of a regex has its source and searches with a program built from
/// that same source, so it finds what the original finds on every text.
pub proof fn law_fancy_copy_searches_alike(re: &FancyRegex, copy: FancyRegex)
    requires
        call_ensures(FancyRegex::clone, (re,), copy),
    ensures
        copy@ == re@,
        copy.automaton_source() == re.automaton_source(),
        copy.automaton_source() == copy@,
{
}

/// A scan for the successive matches of a pattern in a text.
pub struct FancyMatches<'r, 't> {
    re: &'r FancyRegex,
    text: &'t str,
    pos: usize,
    text_len: usize,
}

impl<'r, 't> FancyMatches<'r, 't> {
    /// The well-formedness of a scan: the position is a resumption point of
    /// the text (a character boundary, or one past the end).
    pub closed spec fn wf(&self) -> bool {
        &&& self.text_len == self.text.spec_bytes().len()
        &&& self.text_len < usize::MAX
        &&& self.pos <= self.text_len + 1
        &&& self.pos <= self.text_len ==> vstd::utf8::is_char_boundary(self.text.spec_bytes(), self.pos as int)
    }

    /// The pattern scanned for.
    pub closed spec fn pattern(&self) -> Seq<char> {
        self.re@
    }

    /// The text scanned.
    pub closed spec fn haystack(&self) -> Seq<char> {
        self.text@
    }

    /// The byte position the next search starts from.
    pub closed spec fn position(&self) -> int {
        self.pos as int
    }

    /// The spans of the matches still to come.
    pub closed spec fn remaining(&self) -> Seq<(usize, usize)> {
        fancy_match_scan(self.re@, self.text@, self.pos as int)
    }

    /// The next match of the scan, if any.
    pub fn next(&mut self) -> (found: Option<Match<'t>>)
        requires
            old(self).wf(),
        ensures
            final(self).wf(),
            final(self).pattern() == old(self).pattern(),
            final(self).haystack() == old(self).haystack(),
            found is Some ==> old(self).position() < final(self).position(),
            final(self).position() <= encode_utf8(final(self).haystack()).len() + 1,
            found is None ==> final(self).position() == encode_utf8(final(self).haystack()).len() + 1,
            match found {
                Some(m) => old(self).remaining() == seq![(m.start, m.end)] + final(self).remaining()
                    && m.end <= final(self).position()
                    && m.start < final(self).position()
                    && final(self).position() == next_scan_position(
                        encode_utf8(old(self).haystack()),
                        m.start as int,
                        m.end as int,
                    )
                    && valid_span(encode_utf8(old(self).haystack()), m.start as int, m.end as int)
                    && m.text@ == span_text(encode_utf8(old(self).haystack()), m.start as int, m.end as int),
                None => old(self).remaining().len() == 0 && final(self).remaining().len() == 0,
            },
    {
        if self.pos > self.text_len {
            return None;
        }
        match fancy_find_from_pos(self.re, self.text, self.pos) {
            Some(Some(m)) => {
                let next = advance_position(self.text, m.start, m.end);
                proof {
                    assert(fancy_find_from(self.re@, self.text@, self.pos) == Some(Some((m.start, m.end))));
                }
                if next <= self.pos {
                    // The match lies before the position (a `\K` in a
                    // look-behind can do that); resuming after it would
                    // search from here again, so the scan ends.
                    self.pos = self.text_len + 1;
                    return None;
                }
                self.pos = next;
                Some(m)
            },
            _ => {
                self.pos = self.text_len + 1;
                None
            },
        }
    }
}


/// A scan for the successive captures of a pattern in a text.
pub struct FancyCaptures<'r, 't> {
    re: &'r FancyRegex,
    text: &'t str,
    pos: usize,
    text_len: usize,
}

impl<'r, 't> FancyCaptures<'r, 't> {
    /// The well-formedness of a scan, as for [`FancyMatches::wf`].
    pub closed spec fn wf(&self) -> bool {
        &&& self.text_len == self.text.spec_bytes().len()
        &&& self.text_len < usize::MAX
        &&& self.pos <= self.text_len + 1
        &&& self.pos <= self.text_len ==> vstd::utf8::is_char_boundary(self.text.spec_bytes(), self.pos as int)
    }

    /// The pattern scanned for.
    pub closed spec fn pattern(&self) -> Seq<char> {
        self.re@
    }

    /// The text scanned.
    pub closed spec fn haystack(&self) -> Seq<char> {
        self.text@
    }

    /// The byte position the next search starts from.
    pub closed spec fn position(&self) -> int {
        self.pos as int
    }

    /// The group spans of the captures still to come.
    pub closed spec fn remaining(&self) -> Seq<Seq<Option<(usize, usize)>>> {
        fancy_capture_scan(self.re@, self.text@, self.pos as int)
    }

    /// The spans of the matches a match scan would still find from the same
    /// position.
    pub closed spec fn matches_remaining(&self) -> Seq<(usize, usize)> {
        fancy_match_scan(self.re@, self.text@, self.pos as int)
    }

    /// The whole-match spans of the captures still to come, with the
    /// expansions of `template` against their groups.
    pub closed spec fn expansions_remaining(&self, template: Seq<char>) -> Seq<(usize, usize, Seq<char>)> {
        fancy_expansion_scan(self.re@, self.text@, template, self.pos as int)
    }

    /// A scan of `text` for the captures of `re`, from the start.
    pub fn new(re: &'r FancyRegex, text: &'t str) -> (scan: Self)
        requires
            text.spec_bytes().len() < usize::MAX,
        ensures
            scan.wf(),
            scan.pattern() == re@,
            scan.haystack() == text@,
            scan.position() == 0,
            scan.matches_remaining() == fancy_match_scan(re@, text@, 0),
    {
        proof {
            vstd::utf8::is_char_boundary_start_end_of_seq(text.spec_bytes());
        }
        let text_len = text.as_bytes().len();
        FancyCaptures { re, text, pos: 0, text_len }
    }

    /// The group spans of the next capture of the scan, if any.
    pub fn next(&mut self) -> (found: Option<Vec<Option<(usize, usize)>>>)
        requires
            old(self).wf(),
        ensures
            final(self).wf(),
            final(self).pattern() == old(self).pattern(),
            final(self).haystack() == old(self).haystack(),
            found is Some ==> old(self).position() < final(self).position(),
            final(self).position() <= encode_utf8(final(self).haystack()).len() + 1,
            found is None ==> final(self).position() == encode_utf8(final(self).haystack()).len() + 1,
            match found {
                Some(g) => old(self).matches_remaining() == seq![whole_match(g@)] + final(self).matches_remaining(),
                None => old(self).matches_remaining().len() == 0,
            },
            found matches Some(g) ==> fancy_captures_from(
                old(self).pattern(),
                old(self).haystack(),
                old(self).position() as usize,
            ) == Some(Some(g@)),
            match found {
                Some(g) => old(self).remaining() == seq![g@] + final(self).remaining()
                    && well_formed_groups(encode_utf8(old(self).haystack()), g@)
                    && whole_match(g@).0 < final(self).position()
                    && final(self).position() == next_scan_position(
                        encode_utf8(old(self).haystack()),
                        whole_match(g@).0 as int,
                        whole_match(g@).1 as int,
                    ),
                None => old(self).remaining().len() == 0 && final(self).remaining().len() == 0,
            },
    {
        if self.pos > self.text_len {
            return None;
        }
        match fancy_captures_from_pos(self.re, self.text, self.pos, "") {
            Some(Some((groups, _))) => {
                let (start, end) = match groups[0] {
                    Some(span) => span,
                    None => (0, 0),
                };
                assert(groups@[0] == Some((start, end)));
                let next = advance_position(self.text, start, end);
                if next <= self.pos {
                    // As for `FancyMatches::next`: the scan would not move on.
                    self.pos = self.text_len + 1;
                    return None;
                }
                self.pos = next;
                Some(groups)
            },
            _ => {
                self.pos = self.text_len + 1;
                None
            },
        }
    }

    /// The whole-match span of the next capture of the scan, with `template`
    /// expanded against its groups, if there is a next capture.
    pub fn next_expanded(&mut self, template: &str) -> (found: Option<(usize, usize, String)>)
        requires
            old(self).wf(),
        ensures
            final(self).wf(),
            final(self).pattern() == old(self).pattern(),
            final(self).haystack() == old(self).haystack(),
            found is Some ==> old(self).position() < final(self).position(),
            final(self).position() <= encode_utf8(final(self).haystack()).len() + 1,
            match found {
                Some(piece) => {
                    &&& old(self).matches_remaining() == seq![(piece.0, piece.1)] + final(self).matches_remaining()
                    &&& forall|r: Seq<char>| #[trigger] dollar_escaped(r) == template@ ==> piece.2@ == r
                    &&& old(self).expansions_remaining(template@) == seq![(piece.0, piece.1, piece.2@)]
                        + final(self).expansions_remaining(template@)
                    &&& piece.1 <= final(self).position()
                    &&& piece.0 < final(self).position()
                    &&& final(self).position() == next_scan_position(
                        encode_utf8(old(self).haystack()),
                        piece.0 as int,
                        piece.1 as int,
                    )
                    &&& valid_span(encode_utf8(old(self).haystack()), piece.0 as int, piece.1 as int)
                    &&& old(self).remaining().len() > 0
                },
                None => {
                    &&& old(self).remaining().len() == 0
                    &&& old(self).matches_remaining().len() == 0
                    &&& old(self).expansions_remaining(template@).len() == 0
                    &&& final(self).position() == encode_utf8(old(self).haystack()).len() + 1
                },
            },
    {
        if self.pos > self.text_len {
            return None;
        }
        match fancy_captures_from_pos(self.re, self.text, self.pos, template) {
            Some(Some((groups, expansion))) => {
                let (start, end) = match groups[0] {
                    Some(span) => span,
                    None => (0, 0),
                };
                assert(groups@[0] == Some((start, end)));
                let next = advance_position(self.text, start, end);
                if next <= self.pos {
                    // As for `FancyMatches::next`: the scan would not move on.
                    self.pos = self.text_len + 1;
                    return None;
                }
                self.pos = next;
                Some((start, end, expansion))
            },
            _ => {
                self.pos = self.text_len + 1;
                None
            },
        }
    }
}

impl FancyRegex {
    /// A compiled regex only exists for a pattern that compiles, and it
    /// searches with the program built from that very pattern.
    #[verifier::type_invariant]
    closed spec fn compiles(self) -> bool {
        &&& fancy_build_error(self.pattern@) is None
        &&& self.compiled.source() == self.pattern@
    }

    /// The source the program this regex searches with was built from.
    pub closed spec fn automaton_source(&self) -> Seq<char> {
        self.compiled.source()
    }

    /// Compiles `pattern`, or reports why the engine rejects it.
    pub fn new(pattern: &str) -> (re: Result<FancyRegex, String>)
        ensures
            match re {
                Ok(re) => re@ == pattern@ && fancy_build_error(pattern@) is None
                    && re.automaton_source() == pattern@,
                Err(message) => fancy_build_error(pattern@) == Some(message@),
            },
    {
        match build_fancy(pattern) {
            Ok(compiled) => Ok(FancyRegex { pattern: pattern.to_owned(), compiled }),
            Err(message) => Err(message),
        }
    }

    /// The source of the pattern.
    pub fn as_str(&self) -> (source: &str)
        ensures
            source@ == self@,
    {
        self.pattern.as_str()
    }

    /// Whether the pattern matches in `text`; a failed search counts as no match.
    pub fn is_match(&self, text: &str) -> (found: bool)
        ensures
            found == (fancy_is_match(self@, text@) == Some(true)),
            found == fancy_find(self@, text@) matches Some(Some(_)),
    {
        match fancy_is_match_in(self, text) {
            Some(found) => found,
            None => false,
        }
    }

    /// The first match in `text`; a failed search counts as no match.
    pub fn find<'t>(&self, text: &'t str) -> (found: Option<Match<'t>>)
        ensures
            match fancy_find(self@, text@) {
                Some(Some(span)) => found matches Some(m) && span == (m.start, m.end)
                    && valid_span(text.spec_bytes(), m.start as int, m.end as int)
                    && m.text@ == span_text(text.spec_bytes(), m.start as int, m.end as int),
                _ => found is None,
            },
    {
        match fancy_find_in(self, text) {
            Some(Some(m)) => Some(m),
            _ => None,
        }
    }

    /// A scan for the successive matches in `text`.
    pub fn matches<'r, 't>(&'r self, text: &'t str) -> (scan: FancyMatches<'r, 't>)
        requires
            text.spec_bytes().len() < usize::MAX,
        ensures
            scan.wf(),
            scan.pattern() == self@,
            scan.haystack() == text@,
            scan.remaining() == fancy_match_scan(self@, text@, 0),
    {
        proof {
            vstd::utf8::is_char_boundary_start_end_of_seq(text.spec_bytes());
        }
        let text_len = text.as_bytes().len();
        FancyMatches { re: self, text, pos: 0, text_len }
    }

    /// The successive matches in `text`, each search resuming where the
    /// previous match ends (one character further after an empty match).
    pub fn find_iter<'t>(&self, text: &'t str) -> (found: Vec<Match<'t>>)
        requires
            text.spec_bytes().len() < usize::MAX,
        ensures
            found@.map_values(|m: Match<'t>| (m.start, m.end)) == fancy_match_scan(self@, text@, 0),
            forall|i: int|
                0 <= i < found@.len() ==> valid_span(text.spec_bytes(), (#[trigger] found@[i]).start as int, found@[i].end as int)
                    && found@[i].text@ == span_text(text.spec_bytes(), found@[i].start as int, found@[i].end as int),
    {
        let mut scan = self.matches(text);
        let mut found: Vec<Match<'t>> = Vec::new();
        let ghost all = fancy_match_scan(self@, text@, 0);
        loop
            invariant
                scan.wf(),
                scan.pattern() == self@,
                scan.haystack() == text@,
                found@.map_values(|m: Match<'t>| (m.start, m.end)) + scan.remaining() == all,
                all == fancy_match_scan(self@, text@, 0),
                forall|i: int|
                    0 <= i < found@.len() ==> valid_span(text.spec_bytes(), (#[trigger] found@[i]).start as int, found@[i].end as int)
                        && found@[i].text@ == span_text(text.spec_bytes(), found@[i].start as int, found@[i].end as int),
            ensures
                found@.map_values(|m: Match<'t>| (m.start, m.end)) == all,
                forall|i: int|
                    0 <= i < found@.len() ==> valid_span(text.spec_bytes(), (#[trigger] found@[i]).start as int, found@[i].end as int)
                        && found@[i].text@ == span_text(text.spec_bytes(), found@[i].start as int, found@[i].end as int),
            decreases text.spec_bytes().len() + 1 - scan.position(),
        {
            let ghost old_found = found@;
            match scan.next() {
                Some(m) => {
                    found.push(m);
                    proof {
                        let spans = found@.map_values(|m: Match<'t>| (m.start, m.end));
                        let old_spans = old_found.map_values(|m: Match<'t>| (m.start, m.end));
                        assert(spans =~= old_spans.push((m.start, m.end)));
                        assert forall|i: int| 0 <= i < found@.len() implies valid_span(
                            text.spec_bytes(),
                            (#[trigger] found@[i]).start as int,
                            found@[i].end as int,
                        ) && found@[i].text@ == span_text(text.spec_bytes(), found@[i].start as int, found@[i].end as int) by {
                            if i < found@.len() - 1 {
                                assert(found@[i] == old_found[i]);
                            }
                        }
                        assert(found@.map_values(|m: Match<'t>| (m.start, m.end)) + scan.remaining() =~= all);
                    }
                },
                None => {
                    break;
                },
            }
        }
        found
    }

    /// The number of successive matches in `text`, counted as
    /// [`FancyRegex::find_iter`] finds them.
    pub fn count_matches(&self, text: &str) -> (count: usize)
        requires
            text.spec_bytes().len() < usize::MAX,
        ensures
            count == fancy_match_scan(self@, text@, 0).len(),
            count <= text.spec_bytes().len() + 1,
    {
        let mut scan = self.matches(text);
        let mut count: usize = 0;
        let ghost all = fancy_match_scan(self@, text@, 0);
        loop
            invariant
                scan.wf(),
                scan.pattern() == self@,
                scan.haystack() == text@,
                count + scan.remaining().len() == all.len(),
                all == fancy_match_scan(self@, text@, 0),
                count <= scan.position(),
                scan.position() <= text.spec_bytes().len() + 1,
                text.spec_bytes().len() < usize::MAX,
            ensures
                count == all.len(),
                count <= text.spec_bytes().len() + 1,
            decreases text.spec_bytes().len() + 1 - scan.position(),
        {
            match scan.next() {
                Some(_) => {
                    count = count + 1;
                },
                None => {
                    break;
                },
            }
        }
        count
    }

    /// The spans of the successive matches in `text`.
    fn match_span_list(&self, text: &str) -> (spans: Vec<(usize, usize)>)
        requires
            text.spec_bytes().len() < usize::MAX,
        ensures
            spans@ == fancy_match_scan(self@, text@, 0),
    {
        let found = self.find_iter(text);
        let mut spans: Vec<(usize, usize)> = Vec::new();
        let mut i: usize = 0;
        while i < found.len()
            invariant
                0 <= i <= found@.len(),
                spans@ == found@.map_values(|m: Match| (m.start, m.end)).take(i as int),
            decreases found@.len() - i,
        {
            spans.push((found[i].start, found[i].end));
            i = i + 1;
            assert(spans@ =~= found@.map_values(|m: Match| (m.start, m.end)).take(i as int));
        }
        assert(spans@ =~= found@.map_values(|m: Match| (m.start, m.end)));
        spans
    }

    /// `text` with every match of [`FancyRegex::find_iter`] replaced by
    /// `replacement`, taken literally. The matches must follow one another
    /// without overlapping (a `\K` in a look-behind can make them overlap,
    /// and then the text between them cannot be cut out); see
    /// [`FancyRegex::try_replace_all_literal`] for a version that checks.
    pub fn replace_all_literal<'t>(&self, text: &'t str, replacement: &str) -> (replaced: std::borrow::Cow<'t, str>)
        requires
            text.spec_bytes().len() < usize::MAX,
            spliceable_spans(text.spec_bytes(), fancy_match_scan(self@, text@, 0)),
        ensures
            encode_utf8(replaced@) == splice_spans(
                text.spec_bytes(),
                fancy_match_scan(self@, text@, 0),
                replacement.spec_bytes(),
                0,
            ),
            replaced is Borrowed <==> fancy_match_scan(self@, text@, 0).len() == 0,
            replaced is Borrowed ==> replaced@ == text@,
    {
        let spans = self.match_span_list(text);
        replace_all_literal_from_spans(text, replacement, &spans)
    }

    /// [`FancyRegex::replace_all_literal`] where the matches can be spliced
    /// into the text in order; `None` where they overlap.
    pub fn try_replace_all_literal<'t>(&self, text: &'t str, replacement: &str) -> (replaced: Option<std::borrow::Cow<'t, str>>)
        requires
            text.spec_bytes().len() < usize::MAX,
        ensures
            replaced is Some <==> spliceable_spans(text.spec_bytes(), fancy_match_scan(self@, text@, 0)),
            replaced matches Some(r) ==> encode_utf8(r@) == splice_spans(
                text.spec_bytes(),
                fancy_match_scan(self@, text@, 0),
                replacement.spec_bytes(),
                0,
            ) && (r is Borrowed <==> fancy_match_scan(self@, text@, 0).len() == 0),
    {
        let spans = self.match_span_list(text);
        if spans_spliceable(text, &spans) {
            Some(self.replace_all_literal(text, replacement))
        } else {
            None
        }
    }

    /// The groups of the first match in `text`; a failed search counts as no match.
    pub fn captures<'t>(&self, text: &'t str) -> (caps: Option<CaptureGroups<'t>>)
        ensures
            match fancy_captures(self@, text@) {
                Some(Some(groups)) => caps matches Some(c) && c@ == group_texts(text.spec_bytes(), groups)
                    && well_formed_groups(text.spec_bytes(), groups),
                _ => caps is None,
            },
            caps is Some <==> fancy_find(self@, text@) matches Some(Some(_)),
            fancy_captures(self@, text@) matches Some(Some(groups))
                ==> fancy_find(self@, text@) == Some(Some(whole_match(groups))),
    {
        match fancy_groups(self, text) {
            Some(spans) => Some(build_capture_groups(text, &spans)),
            None => None,
        }
    }

    /// The groups of the successive captures in `text`, each search resuming
    /// after the previous whole match as [`FancyRegex::find_iter`] does.
    pub fn captures_iter<'t>(&self, text: &'t str) -> (caps: Vec<CaptureGroups<'t>>)
        requires
            text.spec_bytes().len() < usize::MAX,
        ensures
            caps@.len() == fancy_capture_scan(self@, text@, 0).len(),
            forall|i: int|
                0 <= i < caps@.len() ==> (#[trigger] caps@[i])@ == group_texts(
                    text.spec_bytes(),
                    fancy_capture_scan(self@, text@, 0)[i],
                ),
            forall|i: int|
                0 <= i < caps@.len() ==> well_formed_groups(text.spec_bytes(), #[trigger] fancy_capture_scan(self@, text@, 0)[i]),
            fancy_capture_scan(self@, text@, 0).len() == fancy_match_scan(self@, text@, 0).len(),
            forall|i: int|
                0 <= i < caps@.len() ==> whole_match(#[trigger] fancy_capture_scan(self@, text@, 0)[i])
                    == fancy_match_scan(self@, text@, 0)[i],
    {
        let mut scan = FancyCaptures::new(self, text);
        let mut caps: Vec<CaptureGroups<'t>> = Vec::new();
        let ghost all = fancy_capture_scan(self@, text@, 0);
        let ghost spans_all = fancy_match_scan(self@, text@, 0);
        let ghost mut seen: Seq<Seq<Option<(usize, usize)>>> = seq![];
        let ghost mut seen_spans: Seq<(usize, usize)> = seq![];
        loop
            invariant
                scan.wf(),
                scan.pattern() == self@,
                scan.haystack() == text@,
                all == fancy_capture_scan(self@, text@, 0),
                spans_all == fancy_match_scan(self@, text@, 0),
                seen_spans + scan.matches_remaining() == spans_all,
                seen_spans.len() == seen.len(),
                forall|k: int| 0 <= k < seen.len() ==> whole_match(#[trigger] seen[k]) == seen_spans[k],
                seen + scan.remaining() == all,
                caps@.len() == seen.len(),
                forall|k: int|
                    0 <= k < caps@.len() ==> (#[trigger] caps@[k])@ == group_texts(text.spec_bytes(), seen[k]),
                forall|k: int| 0 <= k < seen.len() ==> well_formed_groups(text.spec_bytes(), #[trigger] seen[k]),
                scan.position() <= text.spec_bytes().len() + 1,
            ensures
                caps@.len() == all.len(),
                forall|k: int|
                    0 <= k < caps@.len() ==> (#[trigger] caps@[k])@ == group_texts(text.spec_bytes(), all[k]),
                forall|k: int| 0 <= k < all.len() ==> well_formed_groups(text.spec_bytes(), #[trigger] all[k]),
                all.len() == spans_all.len(),
                forall|k: int| 0 <= k < all.len() ==> whole_match(#[trigger] all[k]) == spans_all[k],
            decreases text.spec_bytes().len() + 1 - scan.position(),
        {
            match scan.next() {
                Some(groups) => {
                    proof {
                        assert(seen_spans.push(whole_match(groups@)) + scan.matches_remaining() =~= spans_all);
                        seen = seen.push(groups@);
                        seen_spans = seen_spans.push(whole_match(groups@));
                    }
                    caps.push(build_capture_groups(text, &groups));
                },
                None => {
                    assert(seen =~= all);
                    assert(seen_spans =~= spans_all);
                    break;
                },
            }
        }
        caps
    }

    /// `text` with its first match replaced by the expansion of `replacement`
    /// against the match's groups; `text` itself, borrowed, when nothing matches.
    pub fn replace<'t>(&self, text: &'t str, replacement: &str) -> (replaced: std::borrow::Cow<'t, str>)
        ensures
            match fancy_captures(self@, text@) {
                Some(Some(groups)) => {
                    &&& groups.len() > 0
                    &&& groups[0] matches Some(span) && encode_utf8(replaced@) == text.spec_bytes().subrange(0, span.0 as int)
                        + encode_utf8(fancy_expansion(self@, text@, replacement@))
                        + text.spec_bytes().subrange(span.1 as int, text.spec_bytes().len() as int)
                    &&& replaced is Owned
                },
                _ => replaced@ == text@ && replaced is Borrowed,
            },
    {
        match fancy_captures_in(self, text, replacement) {
            Some(Some((groups, expansion))) => {
                let (start, end) = match groups[0] {
                    Some(span) => span,
                    None => (0, 0),
                };
                assert(groups@[0] == Some((start, end)));
                let pieces = vec![(start, end, expansion)];
                proof {
                    let all = piece_texts(pieces@);
                    assert(all.drop_first() =~= Seq::<(usize, usize, Seq<char>)>::empty());
                    assert(piece_spans(all) =~= seq![(pieces@[0].0, pieces@[0].1)]);
                }
                let replaced = splice_replacements(text, &pieces);
                proof {
                    let all = piece_texts(pieces@);
                    let bytes = text.spec_bytes();
                    assert(splice_pieces(bytes, all.drop_first(), all[0].1 as int) == bytes.subrange(all[0].1 as int, bytes.len() as int));
                }
                std::borrow::Cow::Owned(replaced)
            },
            _ => std::borrow::Cow::Borrowed(text),
        }
    }

    /// The whole-match span of each successive capture in `text`, with the
    /// expansion of `replacement` against its groups.
    fn expansion_pieces(&self, text: &str, replacement: &str) -> (pieces: Vec<(usize, usize, String)>)
        requires
            text.spec_bytes().len() < usize::MAX,
        ensures
            piece_texts(pieces@) == fancy_expansion_scan(self@, text@, replacement@, 0),
            pieces@.len() == 0 <==> fancy_capture_scan(self@, text@, 0).len() == 0,
            piece_spans(piece_texts(pieces@)) == fancy_match_scan(self@, text@, 0),
            forall|r: Seq<char>|
                #[trigger] dollar_escaped(r) == replacement@ ==> forall|i: int|
                    0 <= i < pieces@.len() ==> (#[trigger] pieces@[i]).2@ == r,
    {
        let ghost all = fancy_expansion_scan(self@, text@, replacement@, 0);
        let ghost spans_all = fancy_match_scan(self@, text@, 0);
        let mut scan = FancyCaptures::new(self, text);
        let mut pieces: Vec<(usize, usize, String)> = Vec::new();
        loop
            invariant_except_break
                pieces@.len() == 0 ==> scan.position() == 0,
            invariant
                scan.wf(),
                scan.pattern() == self@,
                scan.haystack() == text@,
                all == fancy_expansion_scan(self@, text@, replacement@, 0),
                piece_texts(pieces@) + scan.expansions_remaining(replacement@) == all,
                spans_all == fancy_match_scan(self@, text@, 0),
                piece_spans(piece_texts(pieces@)) + scan.matches_remaining() == spans_all,
                forall|r: Seq<char>|
                    #[trigger] dollar_escaped(r) == replacement@ ==> forall|i: int|
                        0 <= i < pieces@.len() ==> (#[trigger] pieces@[i]).2@ == r,
                pieces@.len() > 0 ==> fancy_capture_scan(self@, text@, 0).len() > 0,
                0 <= scan.position() <= text.spec_bytes().len() + 1,
            ensures
                piece_texts(pieces@) == all,
                pieces@.len() == 0 <==> fancy_capture_scan(self@, text@, 0).len() == 0,
                piece_spans(piece_texts(pieces@)) == spans_all,
                forall|r: Seq<char>|
                    #[trigger] dollar_escaped(r) == replacement@ ==> forall|i: int|
                        0 <= i < pieces@.len() ==> (#[trigger] pieces@[i]).2@ == r,
            decreases text.spec_bytes().len() + 1 - scan.position(),
        {
            let ghost old_pieces = pieces@;
            let ghost old_pos = scan.position();
            match scan.next_expanded(replacement) {
                Some(piece) => {
                    pieces.push(piece);
                    proof {
                        assert(piece_texts(pieces@) =~= piece_texts(old_pieces).push((piece.0, piece.1, piece.2@)));
                        assert(piece_texts(pieces@) + scan.expansions_remaining(replacement@) =~= all);
                        assert(piece_spans(piece_texts(pieces@)) =~= piece_spans(piece_texts(old_pieces)).push((piece.0, piece.1)));
                        assert(piece_spans(piece_texts(pieces@)) + scan.matches_remaining() =~= spans_all);
                        assert forall|r: Seq<char>|
                            #[trigger] dollar_escaped(r) == replacement@ implies forall|i: int|
                                0 <= i < pieces@.len() ==> (#[trigger] pieces@[i]).2@ == r by {
                            assert forall|i: int| 0 <= i < pieces@.len() implies (#[trigger] pieces@[i]).2@ == r by {
                                if i < pieces@.len() - 1 {
                                    assert(pieces@[i] == old_pieces[i]);
                                }
                            }
                        }
                        if old_pieces.len() == 0 {
                            assert(old_pos == 0);
                        }
                    }
                },
                None => {
                    proof {
                        assert(piece_texts(pieces@) =~= all);
                        assert(piece_spans(piece_texts(pieces@)) =~= spans_all);
                    }
                    break;
                },
            }
        }
        pieces
    }

    /// `text` with each successive capture's whole match replaced by the
    /// expansion of `replacement` against its groups; `text` itself, borrowed,
    /// when nothing matches. The whole matches must follow one another without
    /// overlapping; see [`FancyRegex::try_replace_all`] for a version that checks.
    pub fn replace_all<'t>(&self, text: &'t str, replacement: &str) -> (replaced: std::borrow::Cow<'t, str>)
        requires
            text.spec_bytes().len() < usize::MAX,
            spliceable_spans(text.spec_bytes(), piece_spans(fancy_expansion_scan(self@, text@, replacement@, 0))),
        ensures
            encode_utf8(replaced@) == splice_pieces(text.spec_bytes(), fancy_expansion_scan(self@, text@, replacement@, 0), 0),
            replaced is Borrowed <==> fancy_capture_scan(self@, text@, 0).len() == 0,
            replaced is Borrowed ==> replaced@ == text@,
            piece_spans(fancy_expansion_scan(self@, text@, replacement@, 0)) == fancy_match_scan(self@, text@, 0),
            forall|r: Seq<char>|
                #[trigger] dollar_escaped(r) == replacement@ ==> encode_utf8(replaced@) == splice_spans(
                    text.spec_bytes(),
                    fancy_match_scan(self@, text@, 0),
                    encode_utf8(r),
                    0,
                ),
    {
        let pieces = self.expansion_pieces(text, replacement);
        proof {
            assert forall|r: Seq<char>| #[trigger] dollar_escaped(r) == replacement@ implies splice_pieces(
                text.spec_bytes(),
                piece_texts(pieces@),
                0,
            ) == splice_spans(text.spec_bytes(), fancy_match_scan(self@, text@, 0), encode_utf8(r), 0) by {
                let all = piece_texts(pieces@);
                assert forall|i: int| 0 <= i < all.len() implies (#[trigger] all[i]).2 == r by {
                    assert(all[i].2 == pieces@[i].2@);
                }
                crate::text::lemma_splice_uniform_pieces(text.spec_bytes(), all, r, 0);
            }
        }
        if pieces.len() == 0 {
            proof {
                let bytes = text.spec_bytes();
                assert(bytes.subrange(0, bytes.len() as int) =~= bytes);
            }
            return std::borrow::Cow::Borrowed(text);
        }
        std::borrow::Cow::Owned(splice_replacements(text, &pieces))
    }

    /// [`FancyRegex::replace_all`] where the whole matches can be spliced into
    /// the text in order; `None` where they overlap.
    pub fn try_replace_all<'t>(&self, text: &'t str, replacement: &str) -> (replaced: Option<std::borrow::Cow<'t, str>>)
        requires
            text.spec_bytes().len() < usize::MAX,
        ensures
            replaced is Some <==> spliceable_spans(
                text.spec_bytes(),
                piece_spans(fancy_expansion_scan(self@, text@, replacement@, 0)),
            ),
            replaced matches Some(r) ==> encode_utf8(r@) == splice_pieces(
                text.spec_bytes(),
                fancy_expansion_scan(self@, text@, replacement@, 0),
                0,
            ) && (r is Borrowed <==> fancy_capture_scan(self@, text@, 0).len() == 0),
    {
        let pieces = self.expansion_pieces(text, replacement);
        let spans = piece_span_list(&pieces);
        if spans_spliceable(text, &spans) {
            Some(self.replace_all(text, replacement))
        } else {
            None
        }
    }

    /// The names of the groups, in order; unnamed groups have none.
    pub fn capture_names(&self) -> (names: Vec<Option<String>>)
        ensures
            names@.len() == fancy_capture_names(self@).len(),
            forall|i: int|
                0 <= i < names@.len() ==> match #[trigger] names@[i] {
                    Some(n) => fancy_capture_names(self@)[i] == Some(n@),
                    None => fancy_capture_names(self@)[i] is None,
                },
    {
        fancy_capture_names_of(self)
    }

    /// The number of groups, the whole-match group included.
    pub fn captures_len(&self) -> (n: usize)
        ensures
            n == fancy_captures_len(self@),
    {
        fancy_captures_len_of(self)
    }
}

/// The group spans of the first match of `re` in `text`; a failed search
/// counts as no match.
pub fn fancy_groups(re: &FancyRegex, text: &str) -> (groups: Option<Vec<Option<(usize, usize)>>>)
    ensures
        match fancy_captures(re@, text@) {
            Some(Some(g)) => groups matches Some(v) && v@ == g && well_formed_groups(text.spec_bytes(), g),
            _ => groups is None,
        },
        groups is Some <==> fancy_find(re@, text@) matches Some(Some(_)),
        fancy_captures(re@, text@) matches Some(Some(g)) ==> fancy_find(re@, text@) == Some(Some(whole_match(g))),
{
    match fancy_captures_in(re, text, "") {
        Some(Some((spans, _))) => Some(spans),
        _ => None,
    }
}

/// Calls `fancy_regex::Regex::is_match`, a failure becoming `None`. Claimed:
/// the named outcome for the source of `re`; and, from the source, that it
/// is the outcome of `find` reduced to whether a match was found (a pattern
/// the engine runs itself is tested by the search `find` runs; one it hands
/// to the `regex` crate is tested there, where neither call can fail).
#[verifier::external_body]
fn fancy_is_match_in(re: &FancyRegex, text: &str) -> (found: Option<bool>)
    ensures
        found == fancy_is_match(re@, text@),
        found == match fancy_find(re@, text@) {
            Some(m) => Some(m is Some),
            None => None,
        },
{
    re.compiled.regex().is_match(text).ok()
}

/// Calls `fancy_regex::Regex::find` and converts the match, a failure
/// becoming `None`. Claimed: the named span; the match lies on character
/// boundaries of `text` (its text is sliced from `text` at its span). Also
/// claimed, from the source: `find` is `find_from_pos` from 0 (both search
/// the whole text from its start).
#[verifier::external_body]
fn fancy_find_in<'t>(re: &FancyRegex, text: &'t str) -> (found: Option<Option<Match<'t>>>)
    ensures
        fancy_find(re@, text@) == match found {
            Some(Some(m)) => Some(Some((m.start, m.end))),
            Some(None) => Some(None),
            None => None,
        },
        fancy_find_from(re@, text@, 0) == match found {
            Some(Some(m)) => Some(Some((m.start, m.end))),
            Some(None) => Some(None),
            None => None,
        },
        found matches Some(Some(m)) ==> valid_span(text.spec_bytes(), m.start as int, m.end as int)
            && m.text@ == span_text(text.spec_bytes(), m.start as int, m.end as int),
{
    re.compiled.regex().find(text).ok().map(|o| o.map(|m| Match { text: m.as_str(), start: m.start(), end: m.end() }))
}

/// Calls `fancy_regex::Regex::find_from_pos` and converts the match, a
/// failure becoming `None`. Claimed: the named span, which lies on character
/// boundaries of `text`. Nothing is claimed of where it starts relative to
/// `pos`: a `\K` inside a look-behind can report a start before `pos`.
#[verifier::external_body]
fn fancy_find_from_pos<'t>(re: &FancyRegex, text: &'t str, pos: usize) -> (found: Option<Option<Match<'t>>>)
    requires
        pos <= text.spec_bytes().len(),
        vstd::utf8::is_char_boundary(text.spec_bytes(), pos as int),
    ensures
        fancy_find_from(re@, text@, pos) == match found {
            Some(Some(m)) => Some(Some((m.start, m.end))),
            Some(None) => Some(None),
            None => None,
        },
        found matches Some(Some(m)) ==> valid_span(text.spec_bytes(), m.start as int, m.end as int)
            && m.text@ == span_text(text.spec_bytes(), m.start as int, m.end as int),
{
    re.compiled.regex().find_from_pos(text, pos).ok().map(|o| o.map(|m| Match { text: m.as_str(), start: m.start(), end: m.end() }))
}

/// Calls `fancy_regex::Regex::captures` and, on a match, converts each group
/// to its span and expands `template` against the groups with
/// `fancy_regex::Captures::expand`; a failed search becomes `None`. Claimed:
/// the named spans and expansion; on a match group 0 is the whole match and
/// every span lies on character boundaries of `text`. Also claimed, from the
/// source: the search is the one `find` runs, so it fails, finds nothing, or
/// finds a whole match exactly as `find` does.
#[verifier::external_body]
fn fancy_captures_in(re: &FancyRegex, text: &str, template: &str) -> (found: Option<Option<(Vec<Option<(usize, usize)>>, String)>>)
    ensures
        fancy_captures(re@, text@) == match found {
            Some(Some((g, _))) => Some(Some(g@)),
            Some(None) => Some(None),
            None => None,
        },
        found matches Some(Some((g, x))) ==> well_formed_groups(text.spec_bytes(), g@)
            && x@ == fancy_expansion(re@, text@, template@),
        fancy_find(re@, text@) == match found {
            Some(Some((g, _))) => Some(Some(whole_match(g@))),
            Some(None) => Some(None),
            None => None,
        },
{
    match re.compiled.regex().captures(text) {
        Ok(Some(caps)) => {
            let mut expansion = String::new();
            caps.expand(template, &mut expansion);
            Some(Some((caps.iter().map(|g| g.map(|m| (m.start(), m.end()))).collect(), expansion)))
        },
        Ok(None) => Some(None),
        Err(_) => None,
    }
}

/// Calls `fancy_regex::Regex::captures_from_pos` and, on a match, converts
/// each group to its span and expands `template` against the groups with
/// `fancy_regex::Captures::expand`; a failed search becomes `None`. Claimed:
/// the named spans and expansion, as for `captures`. Also claimed, from the
/// source: the search is the one `find_from_pos` runs from `pos` (the same
/// program on the same input and options), so it fails, finds nothing, or
/// finds a whole match exactly as `find_from_pos` does; and, as documented,
/// `$$` expands to a literal `$`, so a template that is some text with its
/// `$` doubled expands to that text.
#[verifier::external_body]
fn fancy_captures_from_pos(re: &FancyRegex, text: &str, pos: usize, template: &str) -> (found: Option<Option<(Vec<Option<(usize, usize)>>, String)>>)
    requires
        pos <= text.spec_bytes().len(),
        vstd::utf8::is_char_boundary(text.spec_bytes(), pos as int),
    ensures
        fancy_captures_from(re@, text@, pos) == match found {
            Some(Some((g, _))) => Some(Some(g@)),
            Some(None) => Some(None),
            None => None,
        },
        found matches Some(Some((g, x))) ==> well_formed_groups(text.spec_bytes(), g@)
            && x@ == fancy_expansion_from(re@, text@, pos, template@),
        found matches Some(Some((g, x))) ==> forall|r: Seq<char>| #[trigger] dollar_escaped(r) == template@ ==> x@ == r,
        fancy_find_from(re@, text@, pos) == match found {
            Some(Some((g, _))) => Some(Some(whole_match(g@))),
            Some(None) => Some(None),
            None => None,
        },
{
    match re.compiled.regex().captures_from_pos(text, pos) {
        Ok(Some(caps)) => {
            let mut expansion = String::new();
            caps.expand(template, &mut expansion);
            Some(Some((caps.iter().map(|g| g.map(|m| (m.start(), m.end()))).collect(), expansion)))
        },
        Ok(None) => Some(None),
        Err(_) => None,
    }
}

/// Calls `fancy_regex::Regex::captures_len`. Claimed: the named count.
#[verifier::external_body]
fn fancy_captures_len_of(re: &FancyRegex) -> (n: usize)
    ensures
        n == fancy_captures_len(re@),
{
    re.compiled.regex().captures_len()
}

/// Calls `fancy_regex::Regex::capture_names` and copies the names. Claimed:
/// the named names.
#[verifier::external_body]
fn fancy_capture_names_of(re: &FancyRegex) -> (names: Vec<Option<String>>)
    ensures
        names@.len() == fancy_capture_names(re@).len(),
        forall|i: int|
            0 <= i < names@.len() ==> match #[trigger] names@[i] {
                Some(n) => fancy_capture_names(re@)[i] == Some(n@),
                None => fancy_capture_names(re@)[i] is None,
            },
{
    re.compiled.regex().capture_names().map(|n| n.map(|s| s.to_string())).collect()
}

} // verus!
