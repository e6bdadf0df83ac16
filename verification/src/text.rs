//! Byte-offset arithmetic on UTF-8 text: slicing at character boundaries,
//! stepping past zero-width matches, and splicing a literal replacement into
//! a sequence of match spans.

use vstd::prelude::*;
use vstd::string::*;
use vstd::utf8::*;

verus! {

broadcast use vstd::utf8::encode_utf8_valid_utf8, vstd::utf8::encode_utf8_decode_utf8;

/// The UTF-8 encoding of a concatenation is the concatenation of the encodings.
pub proof fn lemma_encode_utf8_concat(a: Seq<char>, b: Seq<char>)
    ensures
        encode_utf8(a + b) == encode_utf8(a) + encode_utf8(b),
    decreases a.len(),
{
    if a.len() == 0 {
        assert(a + b =~= b);
        assert(encode_utf8(a) + encode_utf8(b) =~= encode_utf8(b));
    } else {
        assert((a + b).drop_first() =~= a.drop_first() + b);
        lemma_encode_utf8_concat(a.drop_first(), b);
        assert(encode_utf8(a + b) =~= encode_utf8(a) + encode_utf8(b));
    }
}

/// The UTF-8 bytes of a text.
pub open spec fn utf8_of(text: Seq<char>) -> Seq<u8> {
    encode_utf8(text)
}

/// A character boundary of `bytes` that lies before a boundary `end` is also a
/// character boundary of the prefix of `bytes` that ends at `end`.
pub proof fn lemma_boundary_in_prefix(bytes: Seq<u8>, start: int, end: int)
    requires
        valid_utf8(bytes),
        0 <= start <= end <= bytes.len(),
        is_char_boundary(bytes, start),
        is_char_boundary(bytes, end),
    ensures
        valid_utf8(bytes.subrange(0, end)),
        is_char_boundary(bytes.subrange(0, end), start),
{
    valid_utf8_split(bytes, end);
    let prefix = bytes.subrange(0, end);
    if start == end {
        is_char_boundary_start_end_of_seq(prefix);
    } else {
        is_char_boundary_iff_not_is_continuation_byte(bytes, start);
        is_char_boundary_iff_not_is_continuation_byte(prefix, start);
    }
}

/// The part of `text` between the byte offsets `start` and `end`, which must
/// both be character boundaries.
pub fn substring<'a>(text: &'a str, start: usize, end: usize) -> (piece: &'a str)
    requires
        start <= end <= text.spec_bytes().len(),
        is_char_boundary(text.spec_bytes(), start as int),
        is_char_boundary(text.spec_bytes(), end as int),
    ensures
        piece.spec_bytes() == text.spec_bytes().subrange(start as int, end as int),
        piece@ == decode_utf8(text.spec_bytes().subrange(start as int, end as int)),
{
    proof {
        lemma_boundary_in_prefix(text.spec_bytes(), start as int, end as int);
    }
    let (head, _) = text.split_at(end);
    let (_, piece) = head.split_at(start);
    assert(piece.spec_bytes() =~= text.spec_bytes().subrange(start as int, end as int));
    piece
}


/// Where a scan resumes after a match that spans the bytes `start..end` of
/// `bytes`: right after a non-empty match; one character further after an
/// empty match inside the text; and one past the end after an empty match at
/// the end, which ends the scan.
pub open spec fn next_scan_position(bytes: Seq<u8>, start: int, end: int) -> int {
    if end == start {
        if start < bytes.len() {
            start + length_of_first_scalar(bytes.subrange(start, bytes.len() as int))
        } else {
            bytes.len() + 1int
        }
    } else {
        end
    }
}

/// The byte length of the character that starts at byte `pos` of a valid
/// UTF-8 text, read off its leading byte.
pub fn char_width_at(text: &str, pos: usize) -> (width: usize)
    requires
        pos < text.spec_bytes().len(),
        is_char_boundary(text.spec_bytes(), pos as int),
    ensures
        width == length_of_first_scalar(text.spec_bytes().subrange(pos as int, text.spec_bytes().len() as int)),
        1 <= width <= 4,
        pos + width <= text.spec_bytes().len(),
{
    let bytes = text.as_bytes();
    let ghost all = text.spec_bytes();
    let ghost rest = all.subrange(pos as int, all.len() as int);
    proof {
        valid_utf8_split(all, pos as int);
        assert(rest.len() > 0);
        assert(valid_first_scalar(rest));
        assert(rest[0] == all[pos as int]);
    }
    let lead = bytes[pos];
    if lead <= 0x7f {
        1
    } else if lead <= 0xdf {
        2
    } else if lead <= 0xef {
        3
    } else {
        4
    }
}

/// The position where a scan for the next match continues after a match
/// spanning `match_start..match_end`; see [`next_scan_position`].
pub fn advance_position(text: &str, match_start: usize, match_end: usize) -> (next: usize)
    requires
        text.spec_bytes().len() < usize::MAX,
        match_start == match_end && match_start < text.spec_bytes().len()
            ==> is_char_boundary(text.spec_bytes(), match_start as int),
    ensures
        next == next_scan_position(text.spec_bytes(), match_start as int, match_end as int),
        match_start <= match_end <= text.spec_bytes().len() ==> {
            &&& match_start < next <= text.spec_bytes().len() + 1
            &&& match_end <= next
            &&& next <= text.spec_bytes().len() ==> is_char_boundary(text.spec_bytes(), next as int)
                || next == match_end
        },
{
    if match_end == match_start {
        if match_start < text.len() {
            let width = char_width_at(text, match_start);
            proof {
                let all = text.spec_bytes();
                lemma_boundary_after_first_char(all, match_start as int);
            }
            match_start + width
        } else {
            text.len() + 1
        }
    } else {
        match_end
    }
}

/// The byte offset that follows the character starting at a boundary is a
/// boundary too.
pub proof fn lemma_boundary_after_first_char(bytes: Seq<u8>, pos: int)
    requires
        valid_utf8(bytes),
        0 <= pos < bytes.len(),
        is_char_boundary(bytes, pos),
    ensures
        is_char_boundary(bytes, pos + length_of_first_scalar(bytes.subrange(pos, bytes.len() as int))),
{
    let rest = bytes.subrange(pos, bytes.len() as int);
    valid_utf8_split(bytes, pos);
    let w = length_of_first_scalar(rest);
    let next = pos + w;
    if next < bytes.len() {
        // `rest` is valid UTF-8, so the byte after its first scalar is a leading byte.
        let tail = pop_first_scalar(rest);
        assert(valid_utf8(tail));
        assert(tail.len() > 0);
        assert(tail[0] == bytes[next]);
        assert(valid_first_scalar(tail));
        is_char_boundary_iff_not_is_continuation_byte(bytes, next);
    } else {
        is_char_boundary_start_end_of_seq(bytes);
    }
}


/// `spans` are match spans of `bytes` in text order: each lies within the
/// text and starts and ends at character boundaries, and none overlaps the
/// next one.
pub open spec fn ordered_spans(bytes: Seq<u8>, spans: Seq<(usize, usize)>) -> bool {
    &&& forall|i: int|
        0 <= i < spans.len() ==> {
            &&& (#[trigger] spans[i]).0 <= spans[i].1 <= bytes.len()
            &&& is_char_boundary(bytes, spans[i].0 as int)
            &&& is_char_boundary(bytes, spans[i].1 as int)
        }
    &&& forall|i: int, j: int| 0 <= i < j < spans.len() ==> (#[trigger] spans[i]).1 <= (#[trigger] spans[j]).0
}

/// `spans` can be spliced into `bytes` in order: every start and end lies
/// within the text on a character boundary, and each span ends no later than
/// the next one starts. A span may end before it starts.
pub open spec fn spliceable_spans(bytes: Seq<u8>, spans: Seq<(usize, usize)>) -> bool {
    &&& forall|i: int|
        0 <= i < spans.len() ==> {
            &&& (#[trigger] spans[i]).0 <= bytes.len()
            &&& spans[i].1 <= bytes.len()
            &&& is_char_boundary(bytes, spans[i].0 as int)
            &&& is_char_boundary(bytes, spans[i].1 as int)
        }
    &&& forall|i: int, j: int| 0 <= i && j == i + 1 && j < spans.len() ==> (#[trigger] spans[i]).1 <= (#[trigger] spans[j]).0
}

/// Whether `spans` can be spliced into `text` in order; see [`spliceable_spans`].
pub fn spans_spliceable(text: &str, spans: &Vec<(usize, usize)>) -> (ok: bool)
    ensures
        ok == spliceable_spans(text.spec_bytes(), spans@),
{
    let len = text.as_bytes().len();
    let mut i: usize = 0;
    while i < spans.len()
        invariant
            len == text.spec_bytes().len(),
            0 <= i <= spans@.len(),
            forall|k: int|
                0 <= k < i ==> {
                    &&& (#[trigger] spans@[k]).0 <= len
                    &&& spans@[k].1 <= len
                    &&& is_char_boundary(text.spec_bytes(), spans@[k].0 as int)
                    &&& is_char_boundary(text.spec_bytes(), spans@[k].1 as int)
                },
            forall|k: int, j: int| 0 <= k && j == k + 1 && j < i ==> (#[trigger] spans@[k]).1 <= (#[trigger] spans@[j]).0,
        decreases spans@.len() - i,
    {
        let (start, end) = spans[i];
        if start > len || end > len || !text.is_char_boundary(start) || !text.is_char_boundary(end) {
            return false;
        }
        if i > 0 && spans[i - 1].1 > start {
            return false;
        }
        i = i + 1;
    }
    true
}

/// The spans of the pieces `pieces`, in order.
pub fn piece_span_list(pieces: &Vec<(usize, usize, String)>) -> (spans: Vec<(usize, usize)>)
    ensures
        spans@ == piece_spans(piece_texts(pieces@)),
{
    let mut spans: Vec<(usize, usize)> = Vec::new();
    let mut i: usize = 0;
    while i < pieces.len()
        invariant
            0 <= i <= pieces@.len(),
            spans@ == piece_spans(piece_texts(pieces@)).take(i as int),
        decreases pieces@.len() - i,
    {
        spans.push((pieces[i].0, pieces[i].1));
        i = i + 1;
        assert(spans@ =~= piece_spans(piece_texts(pieces@)).take(i as int));
    }
    assert(spans@ =~= piece_spans(piece_texts(pieces@)));
    spans
}

/// The bytes of `bytes` from offset `from` on, with each span of `spans`
/// replaced by `replacement`.
pub open spec fn splice_spans(bytes: Seq<u8>, spans: Seq<(usize, usize)>, replacement: Seq<u8>, from: int) -> Seq<u8>
    decreases spans.len(),
{
    if spans.len() == 0 {
        bytes.subrange(from, bytes.len() as int)
    } else {
        bytes.subrange(from, spans[0].0 as int) + replacement
            + splice_spans(bytes, spans.drop_first(), replacement, spans[0].1 as int)
    }
}

/// Replacing each span by its own text changes nothing: when every span of
/// `spans` covers exactly the bytes `replacement`, splicing `replacement`
/// into them gives the text back.
pub proof fn lemma_splice_of_own_text_is_identity(bytes: Seq<u8>, spans: Seq<(usize, usize)>, replacement: Seq<u8>, from: int)
    requires
        0 <= from <= bytes.len(),
        spans.len() > 0 ==> from <= spans[0].0,
        forall|i: int| 0 <= i < spans.len() ==> (#[trigger] spans[i]).0 <= spans[i].1 <= bytes.len(),
        forall|i: int, j: int| 0 <= i < j < spans.len() ==> (#[trigger] spans[i]).1 <= (#[trigger] spans[j]).0,
        forall|i: int|
            0 <= i < spans.len() ==> bytes.subrange((#[trigger] spans[i]).0 as int, spans[i].1 as int) == replacement,
    ensures
        splice_spans(bytes, spans, replacement, from) == bytes.subrange(from, bytes.len() as int),
    decreases spans.len(),
{
    if spans.len() > 0 {
        let rest = spans.drop_first();
        assert forall|i: int| 0 <= i < rest.len() implies (#[trigger] rest[i]).0 <= rest[i].1 <= bytes.len() by {
            assert(rest[i] == spans[i + 1]);
        }
        assert forall|i: int, j: int| 0 <= i < j < rest.len() implies (#[trigger] rest[i]).1 <= (#[trigger] rest[j]).0 by {
            assert(rest[i] == spans[i + 1] && rest[j] == spans[j + 1]);
        }
        assert forall|i: int| 0 <= i < rest.len() implies bytes.subrange((#[trigger] rest[i]).0 as int, rest[i].1 as int) == replacement by {
            assert(rest[i] == spans[i + 1]);
        }
        if rest.len() > 0 {
            assert(spans[0].1 <= spans[1].0);
            assert(rest[0] == spans[1]);
        }
        lemma_splice_of_own_text_is_identity(bytes, rest, replacement, spans[0].1 as int);
        let s = spans[0].0 as int;
        let e = spans[0].1 as int;
        assert(bytes.subrange(from, s) + bytes.subrange(s, e) + bytes.subrange(e, bytes.len() as int)
            =~= bytes.subrange(from, bytes.len() as int));
    }
}

/// Replaces each of the match spans `spans` of `text` by `replacement`, taken
/// literally. Without any span the text itself is handed back, borrowed.
pub fn replace_all_literal_from_spans<'t>(
    text: &'t str,
    replacement: &str,
    spans: &Vec<(usize, usize)>,
) -> (result: std::borrow::Cow<'t, str>)
    requires
        spliceable_spans(text.spec_bytes(), spans@),
    ensures
        encode_utf8(result@) == splice_spans(text.spec_bytes(), spans@, replacement.spec_bytes(), 0),
        result is Borrowed <==> spans@.len() == 0,
        result is Borrowed ==> result@ == text@,
{
    let ghost bytes = text.spec_bytes();
    let ghost rep = replacement.spec_bytes();
    if spans.len() == 0 {
        assert(bytes.subrange(0, bytes.len() as int) =~= bytes);
        return std::borrow::Cow::Borrowed(text);
    }
    let mut result = String::new();
    let mut last_end: usize = 0;
    let mut i: usize = 0;
    proof {
        is_char_boundary_start_end_of_seq(bytes);
        assert(spans@.skip(0) =~= spans@);
    }
    while i < spans.len()
        invariant
            bytes == text.spec_bytes(),
            rep == replacement.spec_bytes(),
            spliceable_spans(bytes, spans@),
            0 <= i <= spans@.len(),
            last_end <= bytes.len(),
            is_char_boundary(bytes, last_end as int),
            i > 0 ==> last_end == spans@[i - 1].1,
            i == 0 ==> last_end == 0,
            encode_utf8(result@) + splice_spans(bytes, spans@.skip(i as int), rep, last_end as int)
                == splice_spans(bytes, spans@, rep, 0),
        decreases spans@.len() - i,
    {
        let (start, end) = spans[i];
        proof {
            if i > 0 {
                assert(spans@[i - 1].1 <= spans@[i as int].0);
            }
            assert(spans@[i as int] == spans@.skip(i as int)[0]);
            assert(spans@.skip(i as int).drop_first() =~= spans@.skip(i + 1));
        }
        let piece = substring(text, last_end, start);
        let ghost before = result@;
        result.append(piece);
        result.append(replacement);
        proof {
            lemma_encode_utf8_concat(before, piece@);
            lemma_encode_utf8_concat(before + piece@, replacement@);
            assert(before + piece@ + replacement@ == result@);
            assert(encode_utf8(result@) == encode_utf8(before) + bytes.subrange(last_end as int, start as int) + rep);
        }
        last_end = end;
        i = i + 1;
    }
    proof {
        is_char_boundary_start_end_of_seq(bytes);
    }
    let text_len = text.as_bytes().len();
    let tail = substring(text, last_end, text_len);
    let ghost before = result@;
    result.append(tail);
    proof {
        lemma_encode_utf8_concat(before, tail@);
        assert(spans@.skip(i as int).len() == 0);
    }
    std::borrow::Cow::Owned(result)
}


/// Whether two strings hold the same characters, compared byte by byte.
pub fn str_equal(a: &str, b: &str) -> (equal: bool)
    ensures
        equal == (a@ == b@),
{
    let x = a.as_bytes();
    let y = b.as_bytes();
    proof {
        if a@ == b@ {
            assert(x@ == y@);
        }
    }
    if x.len() != y.len() {
        return false;
    }
    let mut i: usize = 0;
    while i < x.len()
        invariant
            x@ == a.spec_bytes(),
            y@ == b.spec_bytes(),
            x@.len() == y@.len(),
            0 <= i <= x@.len(),
            forall|k: int| 0 <= k < i ==> x@[k] == y@[k],
        decreases x@.len() - i,
    {
        if x[i] != y[i] {
            return false;
        }
        i = i + 1;
    }
    proof {
        assert(x@ =~= y@);
        assert(decode_utf8(encode_utf8(a@)) == a@);
        assert(decode_utf8(encode_utf8(b@)) == b@);
    }
    true
}

/// The spans of replacement pieces.
pub open spec fn piece_spans(pieces: Seq<(usize, usize, Seq<char>)>) -> Seq<(usize, usize)> {
    pieces.map_values(|p: (usize, usize, Seq<char>)| (p.0, p.1))
}

/// The texts of replacement pieces.
pub open spec fn piece_texts(pieces: Seq<(usize, usize, String)>) -> Seq<(usize, usize, Seq<char>)> {
    pieces.map_values(|p: (usize, usize, String)| (p.0, p.1, p.2@))
}

/// The bytes of `bytes` from offset `from` on, with the span of each piece
/// replaced by the piece's own text.
pub open spec fn splice_pieces(bytes: Seq<u8>, pieces: Seq<(usize, usize, Seq<char>)>, from: int) -> Seq<u8>
    decreases pieces.len(),
{
    if pieces.len() == 0 {
        bytes.subrange(from, bytes.len() as int)
    } else {
        bytes.subrange(from, pieces[0].0 as int) + encode_utf8(pieces[0].2)
            + splice_pieces(bytes, pieces.drop_first(), pieces[0].1 as int)
    }
}

/// `text` with every `$` doubled: the replacement template that expands to
/// `text` itself, since both engines expand `$$` to a literal `$`.
pub open spec fn dollar_escaped(text: Seq<char>) -> Seq<char>
    decreases text.len(),
{
    if text.len() == 0 {
        seq![]
    } else {
        (if text[0] == '$' { seq!['$', '$'] } else { seq![text[0]] }) + dollar_escaped(text.drop_first())
    }
}

/// Splicing pieces that all carry the same text is splicing that text into
/// their spans.
pub proof fn lemma_splice_uniform_pieces(bytes: Seq<u8>, pieces: Seq<(usize, usize, Seq<char>)>, text: Seq<char>, from: int)
    requires
        forall|i: int| 0 <= i < pieces.len() ==> (#[trigger] pieces[i]).2 == text,
    ensures
        splice_pieces(bytes, pieces, from) == splice_spans(bytes, piece_spans(pieces), encode_utf8(text), from),
    decreases pieces.len(),
{
    if pieces.len() > 0 {
        let rest = pieces.drop_first();
        assert forall|i: int| 0 <= i < rest.len() implies (#[trigger] rest[i]).2 == text by {
            assert(rest[i] == pieces[i + 1]);
        }
        lemma_splice_uniform_pieces(bytes, rest, text, pieces[0].1 as int);
        assert(piece_spans(pieces).drop_first() =~= piece_spans(rest));
        assert(piece_spans(pieces)[0] == (pieces[0].0, pieces[0].1));
    }
}

/// `text` with the span of each piece of `pieces` replaced by the piece's text.
pub fn splice_replacements(text: &str, pieces: &Vec<(usize, usize, String)>) -> (result: String)
    requires
        spliceable_spans(text.spec_bytes(), piece_spans(piece_texts(pieces@))),
    ensures
        encode_utf8(result@) == splice_pieces(text.spec_bytes(), piece_texts(pieces@), 0),
{
    let ghost bytes = text.spec_bytes();
    let ghost all = piece_texts(pieces@);
    let ghost spans = piece_spans(all);
    let mut result = String::new();
    let mut last_end: usize = 0;
    let mut i: usize = 0;
    proof {
        is_char_boundary_start_end_of_seq(bytes);
        assert(all.skip(0) =~= all);
    }
    while i < pieces.len()
        invariant
            bytes == text.spec_bytes(),
            all == piece_texts(pieces@),
            spans == piece_spans(all),
            spliceable_spans(bytes, spans),
            0 <= i <= pieces@.len(),
            last_end <= bytes.len(),
            is_char_boundary(bytes, last_end as int),
            i > 0 ==> last_end == spans[i - 1].1,
            i == 0 ==> last_end == 0,
            encode_utf8(result@) + splice_pieces(bytes, all.skip(i as int), last_end as int)
                == splice_pieces(bytes, all, 0),
        decreases pieces@.len() - i,
    {
        let start = pieces[i].0;
        let end = pieces[i].1;
        proof {
            assert(spans[i as int] == (start, end));
            if i > 0 {
                assert(spans[i - 1].1 <= spans[i as int].0);
            }
            assert(all[i as int] == all.skip(i as int)[0]);
            assert(all.skip(i as int).drop_first() =~= all.skip(i + 1));
        }
        let piece = substring(text, last_end, start);
        let ghost before = result@;
        result.append(piece);
        result.append(pieces[i].2.as_str());
        proof {
            lemma_encode_utf8_concat(before, piece@);
            lemma_encode_utf8_concat(before + piece@, pieces@[i as int].2@);
            assert(before + piece@ + pieces@[i as int].2@ == result@);
        }
        last_end = end;
        i = i + 1;
    }
    proof {
        is_char_boundary_start_end_of_seq(bytes);
        assert(all.skip(i as int).len() == 0);
    }
    let text_len = text.as_bytes().len();
    let tail = substring(text, last_end, text_len);
    let ghost before = result@;
    result.append(tail);
    proof {
        lemma_encode_utf8_concat(before, tail@);
    }
    result
}

} // verus!
