//! Reading the fields of existing front matter.

use vstd::prelude::*;
use crate::config::{text_of, FrontmatterFormat};
use crate::format::{frontmatter_format_of, get_frontmatter_format};

verus! {

/// The title line of front matter in plain text.
pub const TEXT_TITLE_PATTERN: &'static str = r"(?m)^\s*title\s*:\s*(.+)\s*$";

/// The tags line of front matter in plain text.
pub const TEXT_KEYWORDS_PATTERN: &'static str = r"(?m)^\s*tags\s*:\s*((?:\S+\s+)*\S+)\s*$";

/// The identifier line of front matter in plain text.
pub const TEXT_IDENTIFIER_PATTERN: &'static str = r"(?m)^\s*identifier\s*:\s*(\d{8}T\d{6})\s*$";

/// The title line of front matter in YAML.
pub const YAML_TITLE_PATTERN: &'static str = r"(?m)^\s*title\s*:\s+(.+)\s*$";

/// The tags line of front matter in YAML.
pub const YAML_KEYWORDS_PATTERN: &'static str =
    r#"(?m)^\s*tags\s*:\s+\[\s*((?:.+,\s+).*".+")\s*\]\s*$"#;

/// The identifier line of front matter in YAML.
pub const YAML_IDENTIFIER_PATTERN: &'static str =
    r#"(?m)^\s*identifier\s*:\s+("\d{8}T\d{6}")\s*$"#;

/// The title line of front matter in TOML.
pub const TOML_TITLE_PATTERN: &'static str = r#"(?m)^\s*title\s*=\s*(".+")\s*$"#;

/// The tags line of front matter in TOML.
pub const TOML_KEYWORDS_PATTERN: &'static str =
    r#"(?m)^\s*tags\s*=\s*\[\s*((?:".+",\s+).*".+",{0,1})\s*\]\s*$"#;

/// The identifier line of front matter in TOML.
pub const TOML_IDENTIFIER_PATTERN: &'static str =
    r#"(?m)^\s*identifier\s*=\s*("\d{8}T\d{6}")\s*$"#;

/// The title line of front matter in JSON.
pub const JSON_TITLE_PATTERN: &'static str = r"(?m)^\s*title:\s+(.+)\s*$";

/// The tags line of front matter in JSON.
pub const JSON_KEYWORDS_PATTERN: &'static str =
    r#"(?m)^\s*tags:\s+\[\s*((?:".+",\s+).*".+")\s*\]\s*$"#;

/// The identifier line of front matter in JSON.
pub const JSON_IDENTIFIER_PATTERN: &'static str = r#"(?m)^\s*identifier:\s+(\"\d{8}T\d{6}\")\s*$"#;

/// The title line of front matter in Org.
pub const ORG_TITLE_PATTERN: &'static str = r"(?m)^\#\+title:\s*(.*)\n?";

/// The tags line of front matter in Org.
pub const ORG_KEYWORDS_PATTERN: &'static str = r"(?m)^\#\+filetags:\s*(.*)\n?";

/// The identifier line of front matter in Org.
pub const ORG_IDENTIFIER_PATTERN: &'static str = r"(?m)^\#\+identifier:\s*(.*)\n?";

/// What the first group of a regular expression captures at the first match
/// of the expression in a text. `None` where the pattern is no regular
/// expression, where it matches nowhere, and where it matches without its
/// first group.
pub uninterp spec fn first_capture_of(pattern: Seq<char>, text: Seq<char>) -> Option<Seq<char>>;

/// `Regex::new`, `Regex::captures` and `Captures::get` of the regex crate:
/// compiles the pattern, looks for its first match in the text and hands out
/// what the first group captured there. Which text that is, is left to the
/// regex crate; the same pattern and text always give the same.
#[verifier::external_body]
fn first_capture(pattern: &str, text: &str) -> (captured: Option<String>)
    ensures
        text_of(captured) == first_capture_of(pattern@, text@),
{
    regex::Regex::new(pattern).ok()?.captures(text)?.get(1).map(|found| found.as_str().to_owned())
}

/// The title of front matter in plain text.
pub fn text_frontmatter_title(input: &str) -> (title: Option<String>)
    ensures
        text_of(title) == first_capture_of(TEXT_TITLE_PATTERN@, input@),
{
    first_capture(TEXT_TITLE_PATTERN, input)
}

/// The keywords of front matter in plain text, as they are written.
pub fn text_frontmatter_keywords(input: &str) -> (keywords: Option<String>)
    ensures
        text_of(keywords) == first_capture_of(TEXT_KEYWORDS_PATTERN@, input@),
{
    first_capture(TEXT_KEYWORDS_PATTERN, input)
}

/// The identifier of front matter in plain text.
pub fn text_frontmatter_identifier(input: &str) -> (identifier: Option<String>)
    ensures
        text_of(identifier) == first_capture_of(TEXT_IDENTIFIER_PATTERN@, input@),
{
    first_capture(TEXT_IDENTIFIER_PATTERN, input)
}

/// The title of front matter in YAML, in its quotes.
pub fn yaml_frontmatter_title(input: &str) -> (title: Option<String>)
    ensures
        text_of(title) == first_capture_of(YAML_TITLE_PATTERN@, input@),
{
    first_capture(YAML_TITLE_PATTERN, input)
}

/// The keywords of front matter in YAML, as they are written between the
/// brackets.
pub fn yaml_frontmatter_keywords(input: &str) -> (keywords: Option<String>)
    ensures
        text_of(keywords) == first_capture_of(YAML_KEYWORDS_PATTERN@, input@),
{
    first_capture(YAML_KEYWORDS_PATTERN, input)
}

/// The identifier of front matter in YAML, in its quotes.
pub fn yaml_frontmatter_identifier(input: &str) -> (identifier: Option<String>)
    ensures
        text_of(identifier) == first_capture_of(YAML_IDENTIFIER_PATTERN@, input@),
{
    first_capture(YAML_IDENTIFIER_PATTERN, input)
}

/// The title of front matter in TOML, in its quotes.
pub fn toml_frontmatter_title(input: &str) -> (title: Option<String>)
    ensures
        text_of(title) == first_capture_of(TOML_TITLE_PATTERN@, input@),
{
    first_capture(TOML_TITLE_PATTERN, input)
}

/// The keywords of front matter in TOML, as they are written between the
/// brackets.
pub fn toml_frontmatter_keywords(input: &str) -> (keywords: Option<String>)
    ensures
        text_of(keywords) == first_capture_of(TOML_KEYWORDS_PATTERN@, input@),
{
    first_capture(TOML_KEYWORDS_PATTERN, input)
}

/// The identifier of front matter in TOML, in its quotes.
pub fn toml_frontmatter_identifier(input: &str) -> (identifier: Option<String>)
    ensures
        text_of(identifier) == first_capture_of(TOML_IDENTIFIER_PATTERN@, input@),
{
    first_capture(TOML_IDENTIFIER_PATTERN, input)
}

/// The title of front matter in JSON, in its quotes.
pub fn json_frontmatter_title(input: &str) -> (title: Option<String>)
    ensures
        text_of(title) == first_capture_of(JSON_TITLE_PATTERN@, input@),
{
    first_capture(JSON_TITLE_PATTERN, input)
}

/// The keywords of front matter in JSON, as they are written between the
/// brackets.
pub fn json_frontmatter_keywords(input: &str) -> (keywords: Option<String>)
    ensures
        text_of(keywords) == first_capture_of(JSON_KEYWORDS_PATTERN@, input@),
{
    first_capture(JSON_KEYWORDS_PATTERN, input)
}

/// The identifier of front matter in JSON, in its quotes.
pub fn json_frontmatter_identifier(input: &str) -> (identifier: Option<String>)
    ensures
        text_of(identifier) == first_capture_of(JSON_IDENTIFIER_PATTERN@, input@),
{
    first_capture(JSON_IDENTIFIER_PATTERN, input)
}

/// The title of front matter in Org.
pub fn org_frontmatter_title(input: &str) -> (title: Option<String>)
    ensures
        text_of(title) == first_capture_of(ORG_TITLE_PATTERN@, input@),
{
    first_capture(ORG_TITLE_PATTERN, input)
}

/// The keywords of front matter in Org, as they are written.
pub fn org_frontmatter_keywords(input: &str) -> (keywords: Option<String>)
    ensures
        text_of(keywords) == first_capture_of(ORG_KEYWORDS_PATTERN@, input@),
{
    first_capture(ORG_KEYWORDS_PATTERN, input)
}

/// The identifier of front matter in Org.
pub fn org_frontmatter_identifier(input: &str) -> (identifier: Option<String>)
    ensures
        text_of(identifier) == first_capture_of(ORG_IDENTIFIER_PATTERN@, input@),
{
    first_capture(ORG_IDENTIFIER_PATTERN, input)
}

/// The fields that were found in existing front matter, each as it is
/// written there.
#[derive(Debug, Clone, PartialEq)]
pub struct PartialMetadata {
    pub format: FrontmatterFormat,
    pub title: Option<String>,
    pub keywords: Option<String>,
    pub identifier: Option<String>,
}

/// The fields of front matter as plain values.
pub struct PartialMetadataView {
    pub format: FrontmatterFormat,
    pub title: Option<Seq<char>>,
    pub keywords: Option<Seq<char>>,
    pub identifier: Option<Seq<char>>,
}

impl View for PartialMetadata {
    type V = PartialMetadataView;

    open spec fn view(&self) -> PartialMetadataView {
        PartialMetadataView {
            format: self.format,
            title: text_of(self.title),
            keywords: text_of(self.keywords),
            identifier: text_of(self.identifier),
        }
    }
}

/// The pattern that finds the title in front matter of a format.
pub open spec fn title_pattern(format: FrontmatterFormat) -> Seq<char> {
    match format {
        FrontmatterFormat::Text => TEXT_TITLE_PATTERN@,
        FrontmatterFormat::Yaml => YAML_TITLE_PATTERN@,
        FrontmatterFormat::Toml => TOML_TITLE_PATTERN@,
        FrontmatterFormat::Org => ORG_TITLE_PATTERN@,
    }
}

/// The pattern that finds the keywords in front matter of a format.
pub open spec fn keywords_pattern(format: FrontmatterFormat) -> Seq<char> {
    match format {
        FrontmatterFormat::Text => TEXT_KEYWORDS_PATTERN@,
        FrontmatterFormat::Yaml => YAML_KEYWORDS_PATTERN@,
        FrontmatterFormat::Toml => TOML_KEYWORDS_PATTERN@,
        FrontmatterFormat::Org => ORG_KEYWORDS_PATTERN@,
    }
}

/// The pattern that finds the identifier in front matter of a format.
pub open spec fn identifier_pattern(format: FrontmatterFormat) -> Seq<char> {
    match format {
        FrontmatterFormat::Text => TEXT_IDENTIFIER_PATTERN@,
        FrontmatterFormat::Yaml => YAML_IDENTIFIER_PATTERN@,
        FrontmatterFormat::Toml => TOML_IDENTIFIER_PATTERN@,
        FrontmatterFormat::Org => ORG_IDENTIFIER_PATTERN@,
    }
}

/// The fields of a block that is written in `format`: each is what the
/// pattern of its key captures, and absent where the pattern matches
/// nowhere.
pub open spec fn fields_of(text: Seq<char>, format: FrontmatterFormat) -> PartialMetadataView {
    PartialMetadataView {
        format,
        title: first_capture_of(title_pattern(format), text),
        keywords: first_capture_of(keywords_pattern(format), text),
        identifier: first_capture_of(identifier_pattern(format), text),
    }
}

/// Reads the fields of a block that is written in `format`.
pub fn read_fields(file_head: &str, format: FrontmatterFormat) -> (fields: PartialMetadata)
    ensures
        fields@ == fields_of(file_head@, format),
{
    match format {
        FrontmatterFormat::Text => PartialMetadata {
            format,
            title: text_frontmatter_title(file_head),
            keywords: text_frontmatter_keywords(file_head),
            identifier: text_frontmatter_identifier(file_head),
        },
        FrontmatterFormat::Yaml => PartialMetadata {
            format,
            title: yaml_frontmatter_title(file_head),
            keywords: yaml_frontmatter_keywords(file_head),
            identifier: yaml_frontmatter_identifier(file_head),
        },
        FrontmatterFormat::Toml => PartialMetadata {
            format,
            title: toml_frontmatter_title(file_head),
            keywords: toml_frontmatter_keywords(file_head),
            identifier: toml_frontmatter_identifier(file_head),
        },
        FrontmatterFormat::Org => PartialMetadata {
            format,
            title: org_frontmatter_title(file_head),
            keywords: org_frontmatter_keywords(file_head),
            identifier: org_frontmatter_identifier(file_head),
        },
    }
}

/// Reads existing front matter: `None` where the block is written in none of
/// the four formats, else its format and the fields that are found in it.
pub fn parse_frontmatter(file_head: &str) -> (fields: Option<PartialMetadata>)
    ensures
        match frontmatter_format_of(file_head@) {
            Some(format) => fields matches Some(f) && f@ == fields_of(file_head@, format),
            None => fields is None,
        },
{
    match get_frontmatter_format(file_head) {
        Some(format) => Some(read_fields(file_head, format)),
        None => None,
    }
}

} // verus!
