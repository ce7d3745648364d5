//! Reading the details of a note from its file name.

use vstd::prelude::*;
use crate::clock::{derive_creation_time, parsed_date_and_time, Timestamp, DN_IDENTIFIER_FORMAT};
use crate::config::{text_of, FilenameSegment};
use crate::config::copy_optional_text;
use crate::metadata::{FileMetadata, MetadataView};
use crate::sanitise::{join_words, joined};
use crate::filename::{
    find_fragment, find_identifier, find_marker, fragment_of, identifier_of, stem_of,
    string_of_range,
};
use crate::text::chars_of;

verus! {

/// What a file name tells of a note: the time at which it was made, and its
/// segments as they are written, each with its marker.
#[derive(Debug, Clone, PartialEq)]
pub struct FilenameDetails {
    pub creation_time: Timestamp,
    pub identifier_arg: Option<String>,
    pub signature_arg: Option<String>,
    pub title_arg: Option<String>,
    pub keywords_arg: Option<String>,
    pub extension_arg: Option<String>,
}

/// The details of a note as plain values.
pub struct FilenameDetailsView {
    pub creation_time: Timestamp,
    pub identifier_arg: Option<Seq<char>>,
    pub signature_arg: Option<Seq<char>>,
    pub title_arg: Option<Seq<char>>,
    pub keywords_arg: Option<Seq<char>>,
    pub extension_arg: Option<Seq<char>>,
}

impl View for FilenameDetails {
    type V = FilenameDetailsView;

    open spec fn view(&self) -> FilenameDetailsView {
        FilenameDetailsView {
            creation_time: self.creation_time,
            identifier_arg: text_of(self.identifier_arg),
            signature_arg: text_of(self.signature_arg),
            title_arg: text_of(self.title_arg),
            keywords_arg: text_of(self.keywords_arg),
            extension_arg: text_of(self.extension_arg),
        }
    }
}

/// The details that a file name holds, where `creation_time` is the time at
/// which the note was made. The title of a name without an identifier is
/// all of the name up to its first full stop.
pub open spec fn details_of(text: Seq<char>, creation_time: Timestamp) -> FilenameDetailsView {
    FilenameDetailsView {
        creation_time,
        identifier_arg: identifier_of(text),
        signature_arg: fragment_of(text, FilenameSegment::Signature),
        title_arg: if identifier_of(text) is Some {
            fragment_of(text, FilenameSegment::Title)
        } else {
            Some(stem_of(text))
        },
        keywords_arg: fragment_of(text, FilenameSegment::Keywords),
        extension_arg: fragment_of(text, FilenameSegment::Extension),
    }
}

/// Reads the details of a note from its file name. The note was made at the
/// date and the time of day that its identifier names, or now where the
/// identifier names none, and at `parse_time` where it has no identifier.
pub fn parse_filename_details(filename: &str, parse_time: Timestamp) -> (details: FilenameDetails)
    ensures
        details@ == details_of(filename@, details@.creation_time),
        identifier_of(filename@) is None ==> details@.creation_time == parse_time,
        identifier_of(filename@) is Some ==> details@.creation_time.is_reading(),
        identifier_of(filename@) matches Some(identifier) ==> (parsed_date_and_time(
            identifier,
            DN_IDENTIFIER_FORMAT@,
        ) matches Some(found) ==> details@.creation_time.date_and_time() == found),
{
    let chars = chars_of(filename);
    let identifier_arg = match find_identifier(&chars) {
        Some(at) => Some(string_of_range(&chars, at, at + 15)),
        None => None,
    };
    let title_arg = if identifier_arg.is_some() {
        find_fragment(&chars, FilenameSegment::Title)
    } else {
        match find_marker(&chars, FilenameSegment::Extension) {
            Some(dot) => {
                assert(chars@.subrange(0, dot as int) =~= chars@.take(dot as int));
                Some(string_of_range(&chars, 0, dot))
            },
            None => {
                assert(chars@.subrange(0, chars.len() as int) =~= chars@);
                Some(string_of_range(&chars, 0, chars.len()))
            },
        }
    };
    let creation_time = match &identifier_arg {
        Some(identifier) => derive_creation_time(identifier.as_str()),
        None => parse_time,
    };
    FilenameDetails {
        creation_time,
        identifier_arg,
        signature_arg: find_fragment(&chars, FilenameSegment::Signature),
        title_arg,
        keywords_arg: find_fragment(&chars, FilenameSegment::Keywords),
        extension_arg: find_fragment(&chars, FilenameSegment::Extension),
    }
}

/// The details of a note as its metadata gives them, for its front matter:
/// the title as it was given, or the normalised title where none was kept,
/// and the keywords joined with underscores.
pub open spec fn details_of_metadata(metadata: MetadataView) -> FilenameDetailsView {
    FilenameDetailsView {
        creation_time: metadata.creation_time,
        identifier_arg: Some(metadata.identifier),
        signature_arg: metadata.signature,
        title_arg: match metadata.title_raw {
            Some(raw) => Some(raw),
            None => metadata.title,
        },
        keywords_arg: match metadata.keywords {
            Some(ks) => Some(joined(ks, Some('_'))),
            None => None,
        },
        extension_arg: Some(metadata.extension),
    }
}

/// Gathers the details of a note from its metadata, for its front matter.
pub fn details_from_metadata(metadata: &FileMetadata) -> (details: FilenameDetails)
    ensures
        details@ == details_of_metadata(metadata@),
{
    FilenameDetails {
        creation_time: metadata.creation_time,
        identifier_arg: Some(metadata.identifier.clone()),
        signature_arg: copy_optional_text(&metadata.signature),
        title_arg: match &metadata.title_raw {
            Some(raw) => Some(raw.clone()),
            None => copy_optional_text(&metadata.title),
        },
        keywords_arg: match &metadata.keywords {
            Some(ks) => Some(join_words(ks, Some('_'))),
            None => None,
        },
        extension_arg: Some(metadata.extension.clone()),
    }
}

} // verus!
