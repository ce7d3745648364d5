//! Where the values of a note come from: what its file name holds, what its
//! front matter holds, and what is given explicitly. Each source replaces
//! what the sources before it gave.

use vstd::prelude::*;
use crate::config::text_of;
use crate::filename::{Filename, FilenameView};
use crate::frontmatter_parse::{PartialMetadata, PartialMetadataView};
use crate::metadata::{
    empty_metadata_builder, slice_of, FileMetadata, FileMetadataBuilder, MetadataBuilderView,
};

verus! {

/// The values that are given explicitly for a note. A value that is given
/// replaces what is known of the note; added and removed keywords change the
/// keywords that the note has or is given.
#[derive(Debug, Clone, PartialEq)]
pub struct ExplicitValues {
    pub identifier: Option<String>,
    pub signature: Option<String>,
    pub title: Option<String>,
    pub keywords: Option<String>,
    pub added_keywords: Option<String>,
    pub removed_keywords: Option<String>,
    pub extension: Option<String>,
}

impl View for ExplicitValues {
    type V = MetadataBuilderView;

    open spec fn view(&self) -> MetadataBuilderView {
        MetadataBuilderView {
            identifier: text_of(self.identifier),
            signature: text_of(self.signature),
            title: text_of(self.title),
            keywords: text_of(self.keywords),
            added_keywords: text_of(self.added_keywords),
            removed_keywords: text_of(self.removed_keywords),
            extension: text_of(self.extension),
        }
    }
}

/// `new` where there is one, else `current`.
pub open spec fn replaced(current: Option<Seq<char>>, new: Option<Seq<char>>) -> Option<
    Seq<char>,
> {
    match new {
        Some(n) => Some(n),
        None => current,
    }
}

/// The raw values that an existing file name gives.
pub open spec fn values_of_name(name: FilenameView) -> MetadataBuilderView {
    MetadataBuilderView {
        identifier: Some(name.identifier),
        signature: name.signature,
        title: name.title,
        keywords: name.keywords,
        added_keywords: None,
        removed_keywords: None,
        extension: Some(name.extension),
    }
}

/// The values with title, keywords and identifier replaced by those that
/// front matter holds.
pub open spec fn with_frontmatter_values(values: MetadataBuilderView, fields: PartialMetadataView)
    -> MetadataBuilderView {
    MetadataBuilderView {
        identifier: replaced(values.identifier, fields.identifier),
        title: replaced(values.title, fields.title),
        keywords: replaced(values.keywords, fields.keywords),
        ..values
    }
}

/// The values with each replaced by the explicit one, where there is one.
pub open spec fn with_explicit_values(values: MetadataBuilderView, explicit: MetadataBuilderView)
    -> MetadataBuilderView {
    MetadataBuilderView {
        identifier: replaced(values.identifier, explicit.identifier),
        signature: replaced(values.signature, explicit.signature),
        title: replaced(values.title, explicit.title),
        keywords: replaced(values.keywords, explicit.keywords),
        added_keywords: replaced(values.added_keywords, explicit.added_keywords),
        removed_keywords: replaced(values.removed_keywords, explicit.removed_keywords),
        extension: replaced(values.extension, explicit.extension),
    }
}

/// The raw values of a note that is renamed: those of its file name,
/// replaced by those of its front matter where that is asked for, replaced
/// by the explicit ones.
pub open spec fn renamed_values(
    name: FilenameView,
    frontmatter: Option<PartialMetadataView>,
    explicit: MetadataBuilderView,
) -> MetadataBuilderView {
    let known = match frontmatter {
        Some(fields) => with_frontmatter_values(values_of_name(name), fields),
        None => values_of_name(name),
    };
    with_explicit_values(known, explicit)
}

fn slice(value: &Option<String>) -> (out: Option<&str>)
    ensures
        slice_of(out) == text_of(*value),
{
    match value {
        Some(s) => Some(s.as_str()),
        None => None,
    }
}

/// A builder with the raw values that an existing file name gives.
pub fn builder_from_filename(name: &Filename) -> (builder: FileMetadataBuilder)
    ensures
        builder@ == values_of_name(name@),
{
    FileMetadata::builder().with_identifier(Some(name.identifier.as_str())).with_signature(
        slice(&name.signature),
    ).with_title(slice(&name.title)).with_keywords(slice(&name.keywords)).with_extension(
        Some(name.extension.as_str()),
    )
}

/// Replaces title, keywords and identifier by those that front matter
/// holds.
pub fn overlay_frontmatter(builder: FileMetadataBuilder, fields: &PartialMetadata) -> (updated:
    FileMetadataBuilder)
    ensures
        updated@ == with_frontmatter_values(builder@, fields@),
{
    let mut updated = builder;
    if fields.title.is_some() {
        updated = updated.with_title(slice(&fields.title));
    }
    if fields.keywords.is_some() {
        updated = updated.with_keywords(slice(&fields.keywords));
    }
    if fields.identifier.is_some() {
        updated = updated.with_identifier(slice(&fields.identifier));
    }
    updated
}

/// Replaces each value by the explicit one, where there is one.
pub fn overlay_explicit(builder: FileMetadataBuilder, explicit: &ExplicitValues) -> (updated:
    FileMetadataBuilder)
    ensures
        updated@ == with_explicit_values(builder@, explicit@),
{
    let mut updated = builder;
    if explicit.identifier.is_some() {
        updated = updated.with_identifier(slice(&explicit.identifier));
    }
    if explicit.signature.is_some() {
        updated = updated.with_signature(slice(&explicit.signature));
    }
    if explicit.title.is_some() {
        updated = updated.with_title(slice(&explicit.title));
    }
    if explicit.keywords.is_some() {
        updated = updated.with_keywords(slice(&explicit.keywords));
    }
    if explicit.added_keywords.is_some() {
        updated = updated.with_added_keywords(slice(&explicit.added_keywords));
    }
    if explicit.removed_keywords.is_some() {
        updated = updated.with_removed_keywords(slice(&explicit.removed_keywords));
    }
    if explicit.extension.is_some() {
        updated = updated.with_extension(slice(&explicit.extension));
    }
    updated
}

/// A builder with the raw values of a new note: the explicit ones.
pub fn builder_for_new(explicit: &ExplicitValues) -> (builder: FileMetadataBuilder)
    ensures
        builder@ == with_explicit_values(empty_metadata_builder(), explicit@),
{
    overlay_explicit(FileMetadata::builder(), explicit)
}

/// A builder with the raw values of a note that is renamed: those of its
/// file name, then those of its front matter where that is given, then the
/// explicit ones, each replacing what came before.
pub fn builder_for_rename(
    name: &Filename,
    frontmatter: Option<&PartialMetadata>,
    explicit: &ExplicitValues,
) -> (builder: FileMetadataBuilder)
    ensures
        builder@ == renamed_values(
            name@,
            match frontmatter {
                Some(fields) => Some(fields@),
                None => None,
            },
            explicit@,
        ),
{
    let known = match frontmatter {
        Some(fields) => overlay_frontmatter(builder_from_filename(name), fields),
        None => builder_from_filename(name),
    };
    overlay_explicit(known, explicit)
}

} // verus!
