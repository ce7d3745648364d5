//! File names: how metadata is written into one, and how the segments of an
//! existing name are found again.

use vstd::prelude::*;
use vstd::string::StringExecFns;
use crate::clock::{current_identifier, ends_in_timestamp};
use crate::config::{text_of, FileConfig, FileConfigView, FilenameSegment};
use crate::metadata::{FileMetadata, MetadataView};
use crate::sanitise::{
    extension_of, is_segment_separator, is_separator, join_words, joined, keywords_of,
    parse_extension, parse_keywords, parse_signature, parse_title, signature_of, title_of,
};
use crate::text::chars_of;
use crate::word::{is_word, is_word_character};

verus! {

/// The segments of a file name as they are written, each with its marker,
/// and the order in which they are concatenated.
#[derive(Debug, PartialEq, Clone)]
pub struct Filename {
    pub identifier: String,
    pub signature: Option<String>,
    pub title: Option<String>,
    pub keywords: Option<String>,
    pub extension: String,
    pub segment_order: [FilenameSegment; 5],
}

/// The written segments of a file name as plain values.
pub struct FilenameView {
    pub identifier: Seq<char>,
    pub signature: Option<Seq<char>>,
    pub title: Option<Seq<char>>,
    pub keywords: Option<Seq<char>>,
    pub extension: Seq<char>,
    pub segment_order: Seq<FilenameSegment>,
}

impl View for Filename {
    type V = FilenameView;

    open spec fn view(&self) -> FilenameView {
        FilenameView {
            identifier: self.identifier@,
            signature: text_of(self.signature),
            title: text_of(self.title),
            keywords: text_of(self.keywords),
            extension: self.extension@,
            segment_order: self.segment_order@,
        }
    }
}

/// Conversion of a value to a `Filename`.
pub trait ToFilename {
    /// Converts the value to a `Filename`.
    fn to_filename(&self, config: &FileConfig) -> Filename;
}

/// The character that marks a segment.
pub open spec fn marker_of(segment: FilenameSegment) -> char {
    match segment {
        FilenameSegment::Identifier => '@',
        FilenameSegment::Signature => '=',
        FilenameSegment::Title => '-',
        FilenameSegment::Keywords => '_',
        FilenameSegment::Extension => '.',
    }
}

/// How often the marker is written before a segment: once before the
/// extension, twice before the others.
pub open spec fn marker_width(segment: FilenameSegment) -> int {
    match segment {
        FilenameSegment::Extension => 1,
        _ => 2,
    }
}

/// The text that is written before the value of a segment.
pub open spec fn prefix_of(segment: FilenameSegment) -> Seq<char> {
    Seq::new(marker_width(segment) as nat, |i: int| marker_of(segment))
}

/// The order that a decoded name carries, which tells nothing.
pub open spec fn unknown_order() -> Seq<FilenameSegment> {
    Seq::new(5, |i: int| FilenameSegment::Title)
}

/// The values of metadata as a file name holds them: signature, title,
/// keywords and extension normalised once more under the configuration, so
/// that whatever the metadata holds, no value is written that the grammar
/// of file names does not carry. A value of which nothing is left is
/// absent; in place of such an extension stands the default one.
pub open spec fn written_values(metadata: MetadataView, config: FileConfigView) -> MetadataView {
    let illegal = config.illegal_characters.to_set();
    MetadataView {
        signature: match metadata.signature {
            Some(s) => signature_of(s, illegal),
            None => None,
        },
        title: match metadata.title {
            Some(t) => title_of(t, illegal),
            None => None,
        },
        keywords: match metadata.keywords {
            Some(ks) => keywords_of(joined(ks, Some('_')), illegal),
            None => None,
        },
        extension: match extension_of(metadata.extension, illegal) {
            Some(e) => e,
            None => config.default_extension,
        },
        ..metadata
    }
}

/// The written segments of metadata under a configuration: each normalised
/// value behind its marker, in the configured order.
pub open spec fn filename_of(metadata: MetadataView, config: FileConfigView) -> FilenameView {
    marked(written_values(metadata, config), config.segment_order)
}

/// Values behind their markers, as they are, under an order of segments. The
/// identifier stands bare where it comes first and has its marker elsewhere.
pub open spec fn marked(metadata: MetadataView, order: Seq<FilenameSegment>) -> FilenameView {
    FilenameView {
        identifier: if order.len() > 0 && order[0] == FilenameSegment::Identifier {
            metadata.identifier
        } else {
            prefix_of(FilenameSegment::Identifier) + metadata.identifier
        },
        signature: match metadata.signature {
            Some(s) => Some(prefix_of(FilenameSegment::Signature) + s),
            None => None,
        },
        title: match metadata.title {
            Some(t) => Some(prefix_of(FilenameSegment::Title) + t),
            None => None,
        },
        keywords: match metadata.keywords {
            Some(ks) => Some(prefix_of(FilenameSegment::Keywords) + joined(ks, Some('_'))),
            None => None,
        },
        extension: prefix_of(FilenameSegment::Extension) + metadata.extension,
        segment_order: order,
    }
}

/// The text that a file name holds for a segment, empty where it has none.
pub open spec fn slot(name: FilenameView, segment: FilenameSegment) -> Seq<char> {
    match segment {
        FilenameSegment::Identifier => name.identifier,
        FilenameSegment::Signature => match name.signature {
            Some(s) => s,
            None => Seq::empty(),
        },
        FilenameSegment::Title => match name.title {
            Some(t) => t,
            None => Seq::empty(),
        },
        FilenameSegment::Keywords => match name.keywords {
            Some(k) => k,
            None => Seq::empty(),
        },
        FilenameSegment::Extension => name.extension,
    }
}

/// The first `count` segments of the order, written one after another.
pub open spec fn slots(name: FilenameView, count: int) -> Seq<char>
    decreases count,
{
    if count <= 0 {
        Seq::empty()
    } else {
        slots(name, count - 1) + slot(name, name.segment_order[count - 1])
    }
}

/// The file name as one string.
pub open spec fn rendered(name: FilenameView) -> Seq<char> {
    slots(name, name.segment_order.len() as int)
}

/// Whether `c` is an ASCII digit.
pub open spec fn is_digit(c: char) -> bool {
    '0' <= c && c <= '9'
}

/// Whether the fifteen characters from `at` on are eight digits, `T` and six
/// digits.
pub open spec fn timestamp_at(text: Seq<char>, at: int) -> bool {
    &&& 0 <= at
    &&& at + 15 <= text.len()
    &&& forall|k: int|
        0 <= k < 15 ==> if k == 8 {
            #[trigger] text[at + k] == 'T'
        } else {
            is_digit(#[trigger] text[at + k])
        }
}

/// Whether a word character stands at `at`.
pub open spec fn is_word_at(text: Seq<char>, at: int) -> bool {
    0 <= at < text.len() && is_word(text[at])
}

/// Whether a word begins or ends between `at - 1` and `at`.
pub open spec fn is_word_boundary(text: Seq<char>, at: int) -> bool {
    is_word_at(text, at - 1) != is_word_at(text, at)
}

/// Whether an identifier stands at `at`: a timestamp with a word boundary on
/// either side.
pub open spec fn identifier_at(text: Seq<char>, at: int) -> bool {
    timestamp_at(text, at) && is_word_boundary(text, at) && is_word_boundary(text, at + 15)
}

/// Where the first identifier at or behind `from` stands.
pub open spec fn identifier_from(text: Seq<char>, from: int) -> Option<int>
    decreases text.len() - from,
{
    if from < 0 || from + 15 > text.len() {
        None
    } else if identifier_at(text, from) {
        Some(from)
    } else {
        identifier_from(text, from + 1)
    }
}

/// Whether the marker of `segment` stands at `at`.
pub open spec fn marker_at(text: Seq<char>, segment: FilenameSegment, at: int) -> bool {
    &&& 0 <= at
    &&& at + marker_width(segment) <= text.len()
    &&& text[at] == marker_of(segment)
    &&& text[at + marker_width(segment) - 1] == marker_of(segment)
}

/// Where the first marker of `segment` at or behind `from` stands.
pub open spec fn marker_from(text: Seq<char>, segment: FilenameSegment, from: int) -> Option<int>
    decreases text.len() - from,
{
    if from < 0 || from + marker_width(segment) > text.len() {
        None
    } else if marker_at(text, segment, from) {
        Some(from)
    } else {
        marker_from(text, segment, from + 1)
    }
}

/// Whether `c` ends the value of `segment`: every separator but the
/// segment's own marker does.
pub open spec fn ends_value(c: char, segment: FilenameSegment) -> bool {
    is_separator(c) && c != marker_of(segment)
}

/// Where the value that runs from `from` ends: at the first character that
/// ends it, or at the end of the text.
pub open spec fn value_end(text: Seq<char>, segment: FilenameSegment, from: int) -> int
    decreases text.len() - from,
{
    if from < 0 || from >= text.len() || ends_value(text[from], segment) {
        from
    } else {
        value_end(text, segment, from + 1)
    }
}

/// The first occurrence of a segment in a name: its marker and the longest
/// value behind it.
pub open spec fn fragment_of(text: Seq<char>, segment: FilenameSegment) -> Option<Seq<char>> {
    match marker_from(text, segment, 0) {
        Some(at) => Some(
            text.subrange(at, value_end(text, segment, at + marker_width(segment))),
        ),
        None => None,
    }
}

/// The name up to its first full stop.
pub open spec fn stem_of(text: Seq<char>) -> Seq<char> {
    match marker_from(text, FilenameSegment::Extension, 0) {
        Some(at) => text.take(at),
        None => text,
    }
}

/// The identifier of a name, where it has one.
pub open spec fn identifier_of(text: Seq<char>) -> Option<Seq<char>> {
    match identifier_from(text, 0) {
        Some(at) => Some(text.subrange(at, at + 15)),
        None => None,
    }
}

/// The segments that a name holds. A name without an identifier is taken as
/// foreign: it gets the identifier `fresh`, and all of it up to the first
/// full stop is its title. A name without an extension gets the default one.
pub open spec fn decoded(text: Seq<char>, fresh: Seq<char>, default_extension: Seq<char>)
    -> FilenameView {
    let extension = match fragment_of(text, FilenameSegment::Extension) {
        Some(e) => e,
        None => default_extension,
    };
    match identifier_of(text) {
        Some(identifier) => FilenameView {
            identifier,
            signature: fragment_of(text, FilenameSegment::Signature),
            title: fragment_of(text, FilenameSegment::Title),
            keywords: fragment_of(text, FilenameSegment::Keywords),
            extension,
            segment_order: unknown_order(),
        },
        None => FilenameView {
            identifier: fresh,
            signature: None,
            title: Some(stem_of(text)),
            keywords: None,
            extension,
            segment_order: unknown_order(),
        },
    }
}

/// The marker of a segment.
pub fn segment_marker(segment: FilenameSegment) -> (marker: char)
    ensures
        marker == marker_of(segment),
{
    match segment {
        FilenameSegment::Identifier => '@',
        FilenameSegment::Signature => '=',
        FilenameSegment::Title => '-',
        FilenameSegment::Keywords => '_',
        FilenameSegment::Extension => '.',
    }
}

fn width_of(segment: FilenameSegment) -> (width: usize)
    ensures
        width == marker_width(segment),
{
    match segment {
        FilenameSegment::Extension => 1,
        _ => 2,
    }
}

/// Puts the marker of `segment` before `value`.
pub fn prefix_segment(value: &str, segment: FilenameSegment) -> (out: String)
    ensures
        out@ == prefix_of(segment) + value@,
{
    let marker = segment_marker(segment);
    let mut out = String::new();
    out.push(marker);
    if width_of(segment) == 2 {
        out.push(marker);
    }
    assert(out@ =~= prefix_of(segment));
    out.append(value);
    out
}

/// The string made of the characters from `from` up to `to`.
pub(crate) fn string_of_range(chars: &Vec<char>, from: usize, to: usize) -> (out: String)
    requires
        from <= to <= chars.len(),
    ensures
        out@ == chars@.subrange(from as int, to as int),
{
    let mut out = String::new();
    let mut i: usize = from;
    while i < to
        invariant
            from <= i <= to,
            to <= chars.len(),
            out@ == chars@.subrange(from as int, i as int),
        decreases to - i,
    {
        out.push(chars[i]);
        assert(chars@.subrange(from as int, i + 1) =~= chars@.subrange(from as int, i as int).push(
            chars@[i as int],
        ));
        i += 1;
    }
    out
}

pub(crate) fn has_timestamp_at(chars: &Vec<char>, at: usize) -> (yes: bool)
    requires
        at + 15 <= chars.len(),
    ensures
        yes == timestamp_at(chars@, at as int),
{
    let mut k: usize = 0;
    while k < 15
        invariant
            k <= 15,
            at + 15 <= chars.len(),
            forall|j: int|
                0 <= j < k ==> if j == 8 {
                    #[trigger] chars@[at + j] == 'T'
                } else {
                    is_digit(#[trigger] chars@[at + j])
                },
        decreases 15 - k,
    {
        let c = chars[at + k];
        let fits = if k == 8 {
            c == 'T'
        } else {
            '0' <= c && c <= '9'
        };
        if !fits {
            return false;
        }
        k += 1;
    }
    true
}

fn has_word_boundary(chars: &Vec<char>, at: usize) -> (yes: bool)
    requires
        at <= chars.len(),
    ensures
        yes == is_word_boundary(chars@, at as int),
{
    let before = at > 0 && is_word_character(chars[at - 1]);
    let behind = at < chars.len() && is_word_character(chars[at]);
    before != behind
}

/// Finds the first identifier in `chars`.
pub fn find_identifier(chars: &Vec<char>) -> (found: Option<usize>)
    ensures
        match found {
            Some(at) => identifier_from(chars@, 0) == Some(at as int) && at + 15 <= chars.len(),
            None => identifier_from(chars@, 0) is None,
        },
{
    if chars.len() < 15 {
        return None;
    }
    let mut at: usize = 0;
    while at <= chars.len() - 15
        invariant
            chars.len() >= 15,
            at <= chars.len() - 14,
            identifier_from(chars@, 0) == identifier_from(chars@, at as int),
        decreases chars.len() - at,
    {
        if has_timestamp_at(chars, at) && has_word_boundary(chars, at) && has_word_boundary(
            chars,
            at + 15,
        ) {
            return Some(at);
        }
        at += 1;
    }
    None
}

/// Finds the first marker of `segment` in `chars`.
pub fn find_marker(chars: &Vec<char>, segment: FilenameSegment) -> (found: Option<usize>)
    ensures
        match found {
            Some(at) => marker_from(chars@, segment, 0) == Some(at as int) && at + marker_width(
                segment,
            ) <= chars.len(),
            None => marker_from(chars@, segment, 0) is None,
        },
{
    let marker = segment_marker(segment);
    let width = width_of(segment);
    if chars.len() < width {
        return None;
    }
    let mut at: usize = 0;
    while at <= chars.len() - width
        invariant
            width == marker_width(segment),
            marker == marker_of(segment),
            chars.len() >= width,
            at <= chars.len() - width + 1,
            marker_from(chars@, segment, 0) == marker_from(chars@, segment, at as int),
        decreases chars.len() - at,
    {
        if chars[at] == marker && chars[at + width - 1] == marker {
            return Some(at);
        }
        at += 1;
    }
    None
}

/// Finds where the value that starts at `from` ends.
pub(crate) fn find_value_end(chars: &Vec<char>, segment: FilenameSegment, from: usize) -> (end: usize)
    requires
        from <= chars.len(),
    ensures
        end == value_end(chars@, segment, from as int),
        from <= end <= chars.len(),
{
    let marker = segment_marker(segment);
    let mut end: usize = from;
    while end < chars.len() && !(is_segment_separator(chars[end]) && chars[end] != marker)
        invariant
            marker == marker_of(segment),
            from <= end <= chars.len(),
            value_end(chars@, segment, from as int) == value_end(chars@, segment, end as int),
        decreases chars.len() - end,
    {
        end += 1;
    }
    end
}

/// Finds the first occurrence of a segment other than the identifier: its
/// marker with the longest value behind it.
pub fn find_fragment(chars: &Vec<char>, segment: FilenameSegment) -> (found: Option<String>)
    ensures
        text_of(found) == fragment_of(chars@, segment),
{
    match find_marker(chars, segment) {
        Some(at) => {
            let end = find_value_end(chars, segment, at + width_of(segment));
            Some(string_of_range(chars, at, end))
        },
        None => None,
    }
}

/// The text of a segment in a name.
pub open spec fn segment_in(text: Seq<char>, segment: FilenameSegment) -> Option<Seq<char>> {
    match segment {
        FilenameSegment::Identifier => identifier_of(text),
        _ => fragment_of(text, segment),
    }
}

/// Attempts to find a segment in a file name: for the identifier the first
/// timestamp that stands between word boundaries, for every other segment
/// the first occurrence of its marker with the longest value behind it.
pub fn parse_segment(filename: &str, segment: FilenameSegment) -> (found: Option<String>)
    ensures
        text_of(found) == segment_in(filename@, segment),
{
    let chars = chars_of(filename);
    match segment {
        FilenameSegment::Identifier => match find_identifier(&chars) {
            Some(at) => Some(string_of_range(&chars, at, at + 15)),
            None => None,
        },
        _ => find_fragment(&chars, segment),
    }
}

fn unknown_segment_order() -> (order: [FilenameSegment; 5])
    ensures
        order@ == unknown_order(),
{
    let order = [
        FilenameSegment::Title,
        FilenameSegment::Title,
        FilenameSegment::Title,
        FilenameSegment::Title,
        FilenameSegment::Title,
    ];
    assert(order@ =~= unknown_order());
    order
}

fn decode_chars(chars: &Vec<char>, at: Option<usize>, fresh: String, config: &FileConfig) -> (name:
    Filename)
    requires
        match at {
            Some(i) => identifier_from(chars@, 0) == Some(i as int) && i + 15 <= chars.len(),
            None => identifier_from(chars@, 0) is None,
        },
    ensures
        name@ == decoded(chars@, fresh@, config@.default_extension),
{
    let extension = match find_fragment(chars, FilenameSegment::Extension) {
        Some(e) => e,
        None => config.default_extension.clone(),
    };
    match at {
        Some(i) => Filename {
            identifier: string_of_range(chars, i, i + 15),
            signature: find_fragment(chars, FilenameSegment::Signature),
            title: find_fragment(chars, FilenameSegment::Title),
            keywords: find_fragment(chars, FilenameSegment::Keywords),
            extension,
            segment_order: unknown_segment_order(),
        },
        None => {
            let stem = match find_marker(chars, FilenameSegment::Extension) {
                Some(dot) => {
                    assert(chars@.subrange(0, dot as int) =~= chars@.take(dot as int));
                    string_of_range(chars, 0, dot)
                },
                None => {
                    assert(chars@.subrange(0, chars.len() as int) =~= chars@);
                    string_of_range(chars, 0, chars.len())
                },
            };
            Filename {
                identifier: fresh,
                signature: None,
                title: Some(stem),
                keywords: None,
                extension,
                segment_order: unknown_segment_order(),
            }
        },
    }
}

/// Reads the segments of an existing file name, with `fresh` as the
/// identifier of a name that has none.
pub fn decode_filename(filename: &str, fresh: &str, config: &FileConfig) -> (name: Filename)
    ensures
        name@ == decoded(filename@, fresh@, config@.default_extension),
{
    let chars = chars_of(filename);
    let at = find_identifier(&chars);
    decode_chars(&chars, at, fresh.to_owned(), config)
}

impl ToFilename for String {
    /// Reads the segments of an existing file name. A name without an
    /// identifier gets one from the clock.
    fn to_filename(&self, config: &FileConfig) -> (name: Filename)
        ensures
            name@ == decoded(self@, name@.identifier, config@.default_extension),
            identifier_of(self@) is None ==> ends_in_timestamp(name@.identifier),
    {
        let chars = chars_of(self.as_str());
        let at = find_identifier(&chars);
        let fresh = if at.is_none() {
            current_identifier()
        } else {
            String::new()
        };
        decode_chars(&chars, at, fresh, config)
    }
}

fn prefixed(value: &Option<String>, segment: FilenameSegment) -> (out: Option<String>)
    ensures
        text_of(out) == match text_of(*value) {
            Some(v) => Some(prefix_of(segment) + v),
            None => None,
        },
{
    match value {
        Some(v) => Some(prefix_segment(v.as_str(), segment)),
        None => None,
    }
}

impl ToFilename for FileMetadata {
    /// Writes the metadata as the segments of a file name, in the order of
    /// the configuration. Signature, title, keywords and extension are
    /// normalised before they are written, whatever the metadata holds.
    fn to_filename(&self, config: &FileConfig) -> (name: Filename)
        ensures
            name@ == filename_of(self@, config@),
    {
        let illegal = &config.illegal_characters;
        let identifier = match config.segment_order[0] {
            FilenameSegment::Identifier => self.identifier.clone(),
            _ => prefix_segment(self.identifier.as_str(), FilenameSegment::Identifier),
        };
        let signature = match &self.signature {
            Some(s) => parse_signature(s.as_str(), illegal),
            None => None,
        };
        let title = match &self.title {
            Some(t) => parse_title(t.as_str(), illegal),
            None => None,
        };
        let keywords = match &self.keywords {
            Some(ks) => {
                let all = join_words(ks, Some('_'));
                match parse_keywords(all.as_str(), illegal) {
                    Some(found) => {
                        let written = join_words(&found, Some('_'));
                        Some(prefix_segment(written.as_str(), FilenameSegment::Keywords))
                    },
                    None => None,
                }
            },
            None => None,
        };
        let extension = match parse_extension(self.extension.as_str(), illegal) {
            Some(e) => prefix_segment(e.as_str(), FilenameSegment::Extension),
            None => prefix_segment(config.default_extension.as_str(), FilenameSegment::Extension),
        };
        Filename {
            identifier,
            signature: prefixed(&signature, FilenameSegment::Signature),
            title: prefixed(&title, FilenameSegment::Title),
            keywords,
            extension,
            segment_order: config.segment_order,
        }
    }
}

impl Filename {
    /// The file name as one string: its segments in their order, absent ones
    /// left out.
    pub fn to_string(&self) -> (out: String)
        ensures
            out@ == rendered(self@),
    {
        let mut out = String::new();
        let mut i: usize = 0;
        while i < 5
            invariant
                i <= 5,
                out@ == slots(self@, i as int),
            decreases 5 - i,
        {
            match self.segment_order[i] {
                FilenameSegment::Identifier => out.append(self.identifier.as_str()),
                FilenameSegment::Signature => match &self.signature {
                    Some(s) => out.append(s.as_str()),
                    None => {
                        assert(out@ + Seq::<char>::empty() =~= out@);
                    },
                },
                FilenameSegment::Title => match &self.title {
                    Some(t) => out.append(t.as_str()),
                    None => {
                        assert(out@ + Seq::<char>::empty() =~= out@);
                    },
                },
                FilenameSegment::Keywords => match &self.keywords {
                    Some(k) => out.append(k.as_str()),
                    None => {
                        assert(out@ + Seq::<char>::empty() =~= out@);
                    },
                },
                FilenameSegment::Extension => out.append(self.extension.as_str()),
            }
            i += 1;
        }
        out
    }
}

/// Writes the file name of a note: its metadata as segments in the order of
/// the configuration, as one string.
pub fn render_filename(metadata: &FileMetadata, config: &FileConfig) -> (name: String)
    ensures
        name@ == rendered(filename_of(metadata@, config@)),
{
    metadata.to_filename(config).to_string()
}

impl Default for Filename {
    fn default() -> (name: Self)
        ensures
            name@ == (FilenameView {
                identifier: Seq::empty(),
                signature: None,
                title: None,
                keywords: None,
                extension: Seq::empty(),
                segment_order: unknown_order(),
            }),
    {
        Filename {
            identifier: String::new(),
            signature: None,
            title: None,
            keywords: None,
            extension: String::new(),
            segment_order: unknown_segment_order(),
        }
    }
}

} // verus!
