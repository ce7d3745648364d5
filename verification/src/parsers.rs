//! Parsers for the segments of a file name, each of which reads one segment
//! at the start of its input and leaves the rest.

use vstd::prelude::*;
use vstd::string::StrSliceExecFns;
use crate::config::FilenameSegment;
use crate::filename::{
    find_value_end, marker_at, marker_width, string_of_range, timestamp_at, value_end,
};
use crate::sanitise::{is_segment_separator, is_separator, texts};
use crate::text::chars_of;

verus! {

/// Why a segment could not be read.
#[derive(Clone, Copy, Debug, PartialEq, Eq, Structural)]
pub enum SegmentError {
    /// The input does not begin with the marker of the segment.
    MissingMarker,
    /// No value of the segment stands where one is looked for.
    MissingValue,
}

/// What reading a segment gives: its value without the marker, and how many
/// characters of the input were read.
pub open spec fn segment_read(text: Seq<char>, segment: FilenameSegment) -> Result<
    (Seq<char>, int),
    SegmentError,
> {
    let width = marker_width(segment);
    let end = value_end(text, segment, width);
    if !marker_at(text, segment, 0) {
        Err(SegmentError::MissingMarker)
    } else if end == width {
        Err(SegmentError::MissingValue)
    } else {
        Ok((text.subrange(width, end), end))
    }
}

/// What reading an identifier gives: the identifier, before which its
/// marker may stand, and how many characters were read.
pub open spec fn identifier_read(text: Seq<char>) -> Result<(Seq<char>, int), SegmentError> {
    let start = if marker_at(text, FilenameSegment::Identifier, 0) {
        2int
    } else {
        0int
    };
    if timestamp_at(text, start) {
        Ok((text.subrange(start, start + 15), start + 15))
    } else {
        Err(SegmentError::MissingValue)
    }
}

/// Where the word that begins at `from` ends: at the first separator, or at
/// the end of the text.
pub open spec fn word_end(text: Seq<char>, from: int) -> int
    decreases text.len() - from,
{
    if from < 0 || from >= text.len() || is_separator(text[from]) {
        from
    } else {
        word_end(text, from + 1)
    }
}

/// Whether another keyword follows the one that ends at `end`: an
/// underscore and at least one character of a word.
pub open spec fn has_next_word(text: Seq<char>, end: int) -> bool {
    0 <= end < text.len() && text[end] == '_' && word_end(text, end + 1) > end + 1
}

/// The keywords that stand from `from` on, with single underscores between
/// them.
pub open spec fn words_from(text: Seq<char>, from: int) -> Seq<Seq<char>>
    decreases text.len() - from,
{
    let end = word_end(text, from);
    if from < 0 || end <= from {
        Seq::empty()
    } else if has_next_word(text, end) {
        seq![text.subrange(from, end)] + words_from(text, end + 1)
    } else {
        seq![text.subrange(from, end)]
    }
}

/// Where the keywords that stand from `from` on end.
pub open spec fn words_end(text: Seq<char>, from: int) -> int
    decreases text.len() - from,
{
    let end = word_end(text, from);
    if from < 0 || end <= from {
        from
    } else if has_next_word(text, end) {
        words_end(text, end + 1)
    } else {
        end
    }
}

/// What reading keywords gives: the words behind the marker, and how many
/// characters were read.
pub open spec fn keywords_read(text: Seq<char>) -> Result<(Seq<Seq<char>>, int), SegmentError> {
    if !marker_at(text, FilenameSegment::Keywords, 0) {
        Err(SegmentError::MissingMarker)
    } else if word_end(text, 2) == 2 {
        Err(SegmentError::MissingValue)
    } else {
        Ok((words_from(text, 2), words_end(text, 2)))
    }
}

proof fn lemma_word_end_bounds(text: Seq<char>, from: int)
    requires
        0 <= from <= text.len(),
    ensures
        from <= word_end(text, from) <= text.len(),
    decreases text.len() - from,
{
    if from < text.len() && !is_separator(text[from]) {
        lemma_word_end_bounds(text, from + 1);
    }
}

fn has_marker(chars: &Vec<char>, marker: char, width: usize) -> (yes: bool)
    requires
        1 <= width <= 2,
    ensures
        yes == (width <= chars.len() && chars@[0] == marker && chars@[width - 1] == marker),
{
    chars.len() >= width && chars[0] == marker && chars[width - 1] == marker
}

fn find_word_end(chars: &Vec<char>, from: usize) -> (end: usize)
    requires
        from <= chars.len(),
    ensures
        end == word_end(chars@, from as int),
        from <= end <= chars.len(),
{
    let mut end: usize = from;
    while end < chars.len() && !is_segment_separator(chars[end])
        invariant
            from <= end <= chars.len(),
            word_end(chars@, from as int) == word_end(chars@, end as int),
        decreases chars.len() - end,
    {
        end += 1;
    }
    end
}

fn advance<'a>(input: &mut &'a str, Ghost(text): Ghost<Seq<char>>, by: usize)
    requires
        old(input)@ == text,
        by <= text.len(),
    ensures
        final(input)@ == text.skip(by as int),
{
    let whole: &'a str = *input;
    let length = whole.unicode_len();
    assert(text.subrange(by as int, text.len() as int) =~= text.skip(by as int));
    *input = whole.substring_char(by, length);
}

fn read_segment(input: &mut &str, segment: FilenameSegment) -> (token: Result<String, SegmentError>)
    requires
        segment != FilenameSegment::Identifier,
    ensures
        match segment_read(old(input)@, segment) {
            Ok((value, read)) => token matches Ok(t) && t@ == value && final(input)@ == old(
                input,
            )@.skip(read),
            Err(e) => token == Err::<String, SegmentError>(e) && final(input)@ == old(input)@,
        },
{
    let chars = chars_of(*input);
    let marker = crate::filename::segment_marker(segment);
    let width: usize = match segment {
        FilenameSegment::Extension => 1,
        _ => 2,
    };
    if !has_marker(&chars, marker, width) {
        return Err(SegmentError::MissingMarker);
    }
    let end = find_value_end(&chars, segment, width);
    if end == width {
        return Err(SegmentError::MissingValue);
    }
    let token = string_of_range(&chars, width, end);
    advance(input, Ghost(chars@), end);
    Ok(token)
}

/// Reads the identifier at the start of the input, with or without its
/// marker, and leaves what follows it. Fails, and leaves the input as it
/// is, where no identifier stands there.
pub fn segment_identifier(input: &mut &str) -> (token: Result<String, SegmentError>)
    ensures
        match identifier_read(old(input)@) {
            Ok((value, read)) => token matches Ok(t) && t@ == value && final(input)@ == old(
                input,
            )@.skip(read),
            Err(e) => token == Err::<String, SegmentError>(e) && final(input)@ == old(input)@,
        },
{
    let chars = chars_of(*input);
    let start: usize = if has_marker(&chars, '@', 2) {
        2
    } else {
        0
    };
    if chars.len() < 15 || start > chars.len() - 15 {
        return Err(SegmentError::MissingValue);
    }
    if !crate::filename::has_timestamp_at(&chars, start) {
        return Err(SegmentError::MissingValue);
    }
    let token = string_of_range(&chars, start, start + 15);
    advance(input, Ghost(chars@), start + 15);
    Ok(token)
}

/// Reads the signature at the start of the input: `==` and the longest
/// value behind it, which must not be empty. Leaves what follows it. Fails,
/// and leaves the input as it is, where no signature stands there.
pub fn segment_signature(input: &mut &str) -> (token: Result<String, SegmentError>)
    ensures
        match segment_read(old(input)@, FilenameSegment::Signature) {
            Ok((value, read)) => token matches Ok(t) && t@ == value && final(input)@ == old(
                input,
            )@.skip(read),
            Err(e) => token == Err::<String, SegmentError>(e) && final(input)@ == old(input)@,
        },
{
    read_segment(input, FilenameSegment::Signature)
}

/// Reads the title at the start of the input: `--` and the longest value
/// behind it, which must not be empty. Leaves what follows it. Fails, and
/// leaves the input as it is, where no title stands there.
pub fn segment_title(input: &mut &str) -> (token: Result<String, SegmentError>)
    ensures
        match segment_read(old(input)@, FilenameSegment::Title) {
            Ok((value, read)) => token matches Ok(t) && t@ == value && final(input)@ == old(
                input,
            )@.skip(read),
            Err(e) => token == Err::<String, SegmentError>(e) && final(input)@ == old(input)@,
        },
{
    read_segment(input, FilenameSegment::Title)
}

/// Reads the extension at the start of the input: a full stop and the
/// longest value behind it, which must not be empty. Leaves what follows
/// it. Fails, and leaves the input as it is, where no extension stands
/// there.
pub fn segment_extension(input: &mut &str) -> (token: Result<String, SegmentError>)
    ensures
        match segment_read(old(input)@, FilenameSegment::Extension) {
            Ok((value, read)) => token matches Ok(t) && t@ == value && final(input)@ == old(
                input,
            )@.skip(read),
            Err(e) => token == Err::<String, SegmentError>(e) && final(input)@ == old(input)@,
        },
{
    read_segment(input, FilenameSegment::Extension)
}

/// Reads the keywords at the start of the input: `__` and one or more words
/// with single underscores between them. Leaves what follows them. Fails,
/// and leaves the input as it is, where no keywords stand there.
pub fn segment_keywords(input: &mut &str) -> (token: Result<Vec<String>, SegmentError>)
    ensures
        match keywords_read(old(input)@) {
            Ok((found, read)) => token matches Ok(t) && texts(t@) == found && final(input)@
                == old(input)@.skip(read),
            Err(e) => token == Err::<Vec<String>, SegmentError>(e) && final(input)@ == old(
                input,
            )@,
        },
{
    let chars = chars_of(*input);
    if !has_marker(&chars, '_', 2) {
        return Err(SegmentError::MissingMarker);
    }
    let mut from: usize = 2;
    let mut end = find_word_end(&chars, from);
    if end == from {
        return Err(SegmentError::MissingValue);
    }
    let mut found: Vec<String> = Vec::new();
    let mut more = true;
    assert(texts(found@) =~= Seq::<Seq<char>>::empty());
    while more
        invariant
            2 <= from < end <= chars.len(),
            more ==> end == word_end(chars@, from as int),
            more ==> words_from(chars@, 2) == texts(found@) + words_from(chars@, from as int),
            more ==> words_end(chars@, 2) == words_end(chars@, from as int),
            !more ==> words_from(chars@, 2) == texts(found@),
            !more ==> words_end(chars@, 2) == end,
        decreases chars.len() - from + if more { 1int } else { 0int },
    {
        let word = string_of_range(&chars, from, end);
        let ghost before = found@;
        found.push(word);
        assert(texts(found@) =~= texts(before).push(word@));
        let next = if end < chars.len() && chars[end] == '_' {
            find_word_end(&chars, end + 1)
        } else {
            end
        };
        proof {
            if end < chars.len() {
                lemma_word_end_bounds(chars@, end + 1);
            }
        }
        if end < chars.len() && next > end + 1 {
            assert(has_next_word(chars@, end as int));
            assert(texts(before) + (seq![word@] + words_from(chars@, end + 1)) =~= texts(found@)
                + words_from(chars@, end + 1));
            from = end + 1;
            end = next;
        } else {
            assert(!has_next_word(chars@, end as int));
            assert(texts(before) + seq![word@] =~= texts(found@));
            more = false;
        }
    }
    advance(input, Ghost(chars@), end);
    Ok(found)
}

} // verus!
