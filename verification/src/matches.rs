//! What a search reports: a single match, and the groups of one capture.

use vstd::prelude::*;
use vstd::string::*;
use vstd::utf8::*;

use crate::text::substring;

verus! {

/// The text of `bytes` between the byte offsets `start` and `end`.
pub open spec fn span_text(bytes: Seq<u8>, start: int, end: int) -> Seq<char> {
    decode_utf8(bytes.subrange(start, end))
}

/// `start..end` is a span of `bytes` that begins and ends at character boundaries.
pub open spec fn valid_span(bytes: Seq<u8>, start: int, end: int) -> bool {
    &&& 0 <= start <= end <= bytes.len()
    &&& is_char_boundary(bytes, start)
    &&& is_char_boundary(bytes, end)
}

/// Every group that took part in the match has a valid span of `bytes`.
pub open spec fn valid_group_spans(bytes: Seq<u8>, groups: Seq<Option<(usize, usize)>>) -> bool {
    forall|i: int|
        0 <= i < groups.len() ==> match #[trigger] groups[i] {
            Some((s, e)) => valid_span(bytes, s as int, e as int),
            None => true,
        }
}

/// The texts of the groups whose spans are `groups`.
pub open spec fn group_texts(bytes: Seq<u8>, groups: Seq<Option<(usize, usize)>>) -> Seq<Option<Seq<char>>> {
    groups.map_values(
        |g: Option<(usize, usize)>|
            match g {
                Some((s, e)) => Some(span_text(bytes, s as int, e as int)),
                None => None,
            },
    )
}

/// One match of a pattern in a text: its byte span and the matched text.
#[derive(Debug, Clone, Copy)]
pub struct Match<'t> {
    pub text: &'t str,
    pub start: usize,
    pub end: usize,
}

impl<'t> Match<'t> {
    /// The matched text.
    pub fn as_str(&self) -> (s: &'t str)
        ensures
            s@ == self.text@,
    {
        self.text
    }

    /// The byte offset where the match begins.
    pub fn start(&self) -> (start: usize)
        ensures
            start == self.start,
    {
        self.start
    }

    /// The byte offset just past the end of the match.
    pub fn end(&self) -> (end: usize)
        ensures
            end == self.end,
    {
        self.end
    }
}

/// The groups of one capture: group 0 is the whole match, the others are the
/// parenthesised groups of the pattern; a group that took no part in the match
/// is absent.
#[derive(Debug, Clone)]
pub struct CaptureGroups<'t> {
    groups: Vec<Option<&'t str>>,
}

impl<'t> View for CaptureGroups<'t> {
    type V = Seq<Option<Seq<char>>>;

    closed spec fn view(&self) -> Seq<Option<Seq<char>>> {
        self.groups@.map_values(|g: Option<&'t str>| match g {
            Some(s) => Some(s@),
            None => None,
        })
    }
}

impl<'t> CaptureGroups<'t> {
    /// The number of groups, group 0 included.
    pub fn len(&self) -> (n: usize)
        ensures
            n == self@.len(),
    {
        self.groups.len()
    }

    /// True when there is no group 0, that is when nothing was matched.
    pub fn is_empty(&self) -> (empty: bool)
        ensures
            empty == !(self@.len() > 0 && self@[0] is Some),
    {
        if self.groups.len() == 0 {
            true
        } else {
            self.groups[0].is_none()
        }
    }

    /// The text of group `index`, if that group exists and took part in the match.
    pub fn get(&self, index: usize) -> (group: Option<&'t str>)
        ensures
            group is Some <==> (index < self@.len() && self@[index as int] is Some),
            group matches Some(s) ==> s@ == self@[index as int].unwrap(),
    {
        if index < self.groups.len() {
            self.groups[index]
        } else {
            None
        }
    }

    /// The text of the whole match (group 0).
    pub fn get_match(&self) -> (group: Option<&'t str>)
        ensures
            group is Some <==> (self@.len() > 0 && self@[0] is Some),
            group matches Some(s) ==> s@ == self@[0].unwrap(),
    {
        self.get(0)
    }

    /// All groups, in order.
    pub fn groups(&self) -> (groups: &[Option<&'t str>])
        ensures
            groups@.len() == self@.len(),
            forall|i: int|
                0 <= i < groups@.len() ==> match #[trigger] groups@[i] {
                    Some(s) => self@[i] == Some(s@),
                    None => self@[i] is None,
                },
    {
        self.groups.as_slice()
    }
}

/// The capture groups of `text` whose spans are `spans`.
pub fn build_capture_groups<'t>(text: &'t str, spans: &Vec<Option<(usize, usize)>>) -> (caps: CaptureGroups<'t>)
    requires
        valid_group_spans(text.spec_bytes(), spans@),
    ensures
        caps@ == group_texts(text.spec_bytes(), spans@),
{
    let mut groups: Vec<Option<&'t str>> = Vec::new();
    let mut i: usize = 0;
    while i < spans.len()
        invariant
            valid_group_spans(text.spec_bytes(), spans@),
            0 <= i <= spans@.len(),
            groups@.len() == i,
            forall|k: int|
                0 <= k < i ==> match #[trigger] groups@[k] {
                    Some(s) => group_texts(text.spec_bytes(), spans@)[k] == Some(s@),
                    None => group_texts(text.spec_bytes(), spans@)[k] is None,
                },
        decreases spans@.len() - i,
    {
        let g = match spans[i] {
            Some((s, e)) => {
                assert(spans@[i as int] == Some((s, e)));
                Some(substring(text, s, e))
            },
            None => None,
        };
        groups.push(g);
        i = i + 1;
    }
    let caps = CaptureGroups { groups };
    assert(caps@ =~= group_texts(text.spec_bytes(), spans@));
    caps
}

} // verus!
