//! Writing front matter: the details of a note, each on a line under its
//! key, between the delimiters of the chosen format.

use vstd::prelude::*;
use vstd::string::StringExecFns;
use crate::clock::{format_time, formatted_time, Timestamp};
use crate::config::{
    text_of, FileConfig, FrontmatterConfig, FrontmatterConfigView, FrontmatterFormat,
    FrontmatterSegment, FrontmatterTimeFormat,
};
use crate::metadata::FileMetadata;
use crate::parse::{details_from_metadata, details_of_metadata, FilenameDetails, FilenameDetailsView};
use crate::sanitise::{sanitise, sanitised, split_words, texts, words};
use crate::text::{chars_of, lowercase_of};

verus! {

/// What opens and what closes front matter of a format.
pub open spec fn delimiters_of(format: FrontmatterFormat) -> (Seq<char>, Seq<char>) {
    match format {
        FrontmatterFormat::Text => (""@, "---------------------------\n\n"@),
        FrontmatterFormat::Yaml => ("---\n"@, "---\n\n"@),
        FrontmatterFormat::Toml => ("+++\n"@, "+++\n\n"@),
        FrontmatterFormat::Org => (""@, ""@),
    }
}

/// The key of a segment as it is written in a format, with the space that
/// stands before the value.
pub open spec fn key_of(format: FrontmatterFormat, segment: FrontmatterSegment) -> Seq<char> {
    match format {
        FrontmatterFormat::Text | FrontmatterFormat::Yaml => match segment {
            FrontmatterSegment::Title => "title:      "@,
            FrontmatterSegment::Date => "date:       "@,
            FrontmatterSegment::Keywords => "keywords:   "@,
            FrontmatterSegment::Identifier => "identifier: "@,
        },
        FrontmatterFormat::Toml => match segment {
            FrontmatterSegment::Title => "title =      "@,
            FrontmatterSegment::Date => "date =       "@,
            FrontmatterSegment::Keywords => "keywords =   "@,
            FrontmatterSegment::Identifier => "identifier = "@,
        },
        FrontmatterFormat::Org => match segment {
            FrontmatterSegment::Title => "#+title:      "@,
            FrontmatterSegment::Date => "#+date:       "@,
            FrontmatterSegment::Keywords => "#+keywords:   "@,
            FrontmatterSegment::Identifier => "#+identifier: "@,
        },
    }
}

/// The pattern after which chrono writes the date in a format and a time
/// style.
pub open spec fn date_pattern_of(format: FrontmatterFormat, style: FrontmatterTimeFormat) -> Seq<
    char,
> {
    match format {
        FrontmatterFormat::Org => match style {
            FrontmatterTimeFormat::Hour24 => "[%Y-%m-%d %a %H:%M]"@,
            FrontmatterTimeFormat::Hour12 => "[%Y-%m-%d %a %I:%M %p]"@,
            FrontmatterTimeFormat::DateOnly => "[%Y-%m-%d %a]"@,
        },
        _ => match style {
            FrontmatterTimeFormat::Hour24 => "%Y-%m-%dT%H:%M:%S%:z"@,
            FrontmatterTimeFormat::Hour12 => "%Y-%m-%d %I:%M:%S %p %:z"@,
            FrontmatterTimeFormat::DateOnly => "%Y-%m-%d"@,
        },
    }
}

/// A title or an identifier as a value on its line: bare in plain text and
/// Org, in double quotes in YAML and TOML.
pub open spec fn value_line(value: Seq<char>, format: FrontmatterFormat) -> Seq<char> {
    match format {
        FrontmatterFormat::Text | FrontmatterFormat::Org => value + "\n"@,
        FrontmatterFormat::Yaml | FrontmatterFormat::Toml => "\""@ + value + "\"\n"@,
    }
}

/// The date as a value on its line, where chrono writes it.
pub open spec fn date_line(time: Timestamp, format: FrontmatterFormat, style: FrontmatterTimeFormat)
    -> Option<Seq<char>> {
    match formatted_time(time, date_pattern_of(format, style)) {
        Some(text) => Some(text + "\n"@),
        None => None,
    }
}

/// The parts written one after another with `between` between them.
pub open spec fn joined_with(parts: Seq<Seq<char>>, between: Seq<char>) -> Seq<char>
    decreases parts.len(),
{
    if parts.len() == 0 {
        Seq::<char>::empty()
    } else if parts.len() == 1 {
        parts[0]
    } else {
        joined_with(parts.drop_last(), between) + between + parts.last()
    }
}

/// `text` in double quotes.
pub open spec fn quoted(text: Seq<char>) -> Seq<char> {
    "\""@ + text + "\""@
}

/// Keywords as a value: in plain text with two spaces between them, in YAML
/// and TOML as a list of quoted words in brackets, in Org as tags between
/// colons.
pub open spec fn keyword_list(found: Seq<Seq<char>>, format: FrontmatterFormat) -> Seq<char> {
    match format {
        FrontmatterFormat::Text => joined_with(found, "  "@),
        FrontmatterFormat::Yaml | FrontmatterFormat::Toml => "["@ + joined_with(
            found.map_values(|word: Seq<char>| quoted(word)),
            ", "@,
        ) + "]"@,
        FrontmatterFormat::Org => ":"@ + joined_with(found, ":"@) + ":"@,
    }
}

/// Raw keywords as a value: their sanitised words, written as a list.
pub open spec fn keywords_value(raw: Seq<char>, format: FrontmatterFormat, illegal: Set<char>)
    -> Seq<char> {
    keyword_list(words(lowercase_of(raw), Some('_'), illegal), format)
}

/// What is written for a segment: its key and its value on one line, or
/// nothing where the note has no such detail or chrono does not write the
/// date.
pub open spec fn segment_text(
    segment: FrontmatterSegment,
    details: FilenameDetailsView,
    config: FrontmatterConfigView,
    illegal: Set<char>,
) -> Seq<char> {
    let key = key_of(config.format, segment);
    match segment {
        FrontmatterSegment::Title => match details.title_arg {
            Some(title) => key + value_line(title, config.format),
            None => Seq::empty(),
        },
        FrontmatterSegment::Date => match date_line(
            details.creation_time,
            config.format,
            config.time_style,
        ) {
            Some(date) => key + date,
            None => Seq::empty(),
        },
        FrontmatterSegment::Keywords => match details.keywords_arg {
            Some(keywords) => key + keywords_value(keywords, config.format, illegal) + "\n"@,
            None => Seq::empty(),
        },
        FrontmatterSegment::Identifier => match details.identifier_arg {
            Some(identifier) => key + value_line(identifier, config.format),
            None => Seq::empty(),
        },
    }
}

/// What is written for the first `count` segments of the configured order.
pub open spec fn segments_text(
    details: FilenameDetailsView,
    config: FrontmatterConfigView,
    illegal: Set<char>,
    count: int,
) -> Seq<char>
    decreases count,
{
    if count <= 0 {
        Seq::empty()
    } else {
        segments_text(details, config, illegal, count - 1) + segment_text(
            config.order[count - 1],
            details,
            config,
            illegal,
        )
    }
}

/// The front matter of a note: the segments in their configured order
/// between the delimiters of the format.
pub open spec fn frontmatter_of(
    details: FilenameDetailsView,
    config: FrontmatterConfigView,
    illegal: Set<char>,
) -> Seq<char> {
    delimiters_of(config.format).0 + segments_text(
        details,
        config,
        illegal,
        config.order.len() as int,
    ) + delimiters_of(config.format).1
}

/// What opens and what closes front matter of a format.
pub fn get_format_delimiters(format: &FrontmatterFormat) -> (delimiters: (
    &'static str,
    &'static str,
))
    ensures
        (delimiters.0@, delimiters.1@) == delimiters_of(*format),
{
    match format {
        FrontmatterFormat::Text => ("", "---------------------------\n\n"),
        FrontmatterFormat::Yaml => ("---\n", "---\n\n"),
        FrontmatterFormat::Toml => ("+++\n", "+++\n\n"),
        FrontmatterFormat::Org => ("", ""),
    }
}

/// The key of a segment as it is written in a format.
pub fn get_segment_prefix(format: &FrontmatterFormat, segment: &FrontmatterSegment) -> (key:
    &'static str)
    ensures
        key@ == key_of(*format, *segment),
{
    match format {
        FrontmatterFormat::Text | FrontmatterFormat::Yaml => match segment {
            FrontmatterSegment::Title => "title:      ",
            FrontmatterSegment::Date => "date:       ",
            FrontmatterSegment::Keywords => "keywords:   ",
            FrontmatterSegment::Identifier => "identifier: ",
        },
        FrontmatterFormat::Toml => match segment {
            FrontmatterSegment::Title => "title =      ",
            FrontmatterSegment::Date => "date =       ",
            FrontmatterSegment::Keywords => "keywords =   ",
            FrontmatterSegment::Identifier => "identifier = ",
        },
        FrontmatterFormat::Org => match segment {
            FrontmatterSegment::Title => "#+title:      ",
            FrontmatterSegment::Date => "#+date:       ",
            FrontmatterSegment::Keywords => "#+keywords:   ",
            FrontmatterSegment::Identifier => "#+identifier: ",
        },
    }
}

fn date_pattern(format: &FrontmatterFormat, style: &FrontmatterTimeFormat) -> (pattern:
    &'static str)
    ensures
        pattern@ == date_pattern_of(*format, *style),
{
    match format {
        FrontmatterFormat::Org => match style {
            FrontmatterTimeFormat::Hour24 => "[%Y-%m-%d %a %H:%M]",
            FrontmatterTimeFormat::Hour12 => "[%Y-%m-%d %a %I:%M %p]",
            FrontmatterTimeFormat::DateOnly => "[%Y-%m-%d %a]",
        },
        _ => match style {
            FrontmatterTimeFormat::Hour24 => "%Y-%m-%dT%H:%M:%S%:z",
            FrontmatterTimeFormat::Hour12 => "%Y-%m-%d %I:%M:%S %p %:z",
            FrontmatterTimeFormat::DateOnly => "%Y-%m-%d",
        },
    }
}

/// Writes a title or an identifier as a value on its line.
pub fn format_title_or_identifier(segment: &str, format: &FrontmatterFormat) -> (line: String)
    ensures
        line@ == value_line(segment@, *format),
{
    let mut line = String::new();
    match format {
        FrontmatterFormat::Text | FrontmatterFormat::Org => {
            line.append(segment);
            line.append("\n");
            assert(line@ =~= value_line(segment@, *format));
        },
        FrontmatterFormat::Yaml | FrontmatterFormat::Toml => {
            line.append("\"");
            line.append(segment);
            line.append("\"\n");
            assert(line@ =~= value_line(segment@, *format));
        },
    }
    line
}

/// Writes the date as a value on its line, after the pattern of the format
/// and the time style. `None` where chrono does not write the time.
pub fn format_date(date: Timestamp, format: &FrontmatterFormat, time_format: &FrontmatterTimeFormat)
    -> (line: Option<String>)
    ensures
        text_of(line) == date_line(date, *format, *time_format),
{
    match format_time(&date, date_pattern(format, time_format)) {
        Some(text) => {
            let mut line = text;
            line.append("\n");
            Some(line)
        },
        None => None,
    }
}

/// Writes `parts` one after another with `between` between them.
pub fn join_with(parts: &Vec<String>, between: &str) -> (out: String)
    ensures
        out@ == joined_with(texts(parts@), between@),
{
    let mut out = String::new();
    let mut i: usize = 0;
    assert(texts(parts@).take(0) =~= Seq::<Seq<char>>::empty());
    while i < parts.len()
        invariant
            i <= parts.len(),
            out@ == joined_with(texts(parts@).take(i as int), between@),
        decreases parts.len() - i,
    {
        proof {
            let upto = texts(parts@).take(i + 1);
            assert(upto.drop_last() =~= texts(parts@).take(i as int));
            assert(upto.last() == parts@[i as int]@);
            if i == 0 {
                assert(out@ + parts@[i as int]@ =~= parts@[i as int]@);
            }
        }
        if i > 0 {
            out.append(between);
        }
        out.append(parts[i].as_str());
        i += 1;
    }
    assert(texts(parts@).take(parts.len() as int) =~= texts(parts@));
    out
}

fn quote_each(parts: &Vec<String>) -> (out: Vec<String>)
    ensures
        texts(out@) == texts(parts@).map_values(|word: Seq<char>| quoted(word)),
{
    let mut out: Vec<String> = Vec::new();
    let mut i: usize = 0;
    while i < parts.len()
        invariant
            i <= parts.len(),
            texts(out@) == texts(parts@).take(i as int).map_values(|word: Seq<char>| quoted(word)),
        decreases parts.len() - i,
    {
        let mut word = String::new();
        word.append("\"");
        word.append(parts[i].as_str());
        word.append("\"");
        let ghost before = out@;
        out.push(word);
        proof {
            assert(word@ =~= quoted(parts@[i as int]@));
            assert(texts(out@) =~= texts(before).push(word@));
            assert(texts(parts@).take(i + 1) =~= texts(parts@).take(i as int).push(
                parts@[i as int]@,
            ));
        }
        i += 1;
    }
    assert(texts(parts@).take(parts.len() as int) =~= texts(parts@));
    out
}

/// Writes raw keywords as a value: lower-cased, split on `_` and space,
/// sanitised as in a file name, and listed as the format lists keywords.
pub fn format_keywords(keywords: &str, format: FrontmatterFormat, illegal_characters: &Vec<char>)
    -> (list: String)
    ensures
        list@ == keywords_value(keywords@, format, illegal_characters@.to_set()),
{
    let lowered = keywords.to_lowercase();
    let chars = chars_of(lowered.as_str());
    let processed = split_words(&chars, Some('_'), illegal_characters);
    match format {
        FrontmatterFormat::Text => join_with(&processed, "  "),
        FrontmatterFormat::Yaml | FrontmatterFormat::Toml => {
            let formatted = join_with(&quote_each(&processed), ", ");
            let mut list = String::new();
            list.append("[");
            list.append(formatted.as_str());
            list.append("]");
            assert(list@ =~= "["@ + formatted@ + "]"@);
            list
        },
        FrontmatterFormat::Org => {
            let tags = join_with(&processed, ":");
            let mut list = String::new();
            list.append(":");
            list.append(tags.as_str());
            list.append(":");
            assert(list@ =~= ":"@ + tags@ + ":"@);
            list
        },
    }
}

/// Removes segment separators and illegal characters from a word, as the
/// file name does.
pub fn sanitise_segment(segment: &str, illegal_characters: &Vec<char>) -> (clean: String)
    ensures
        clean@ == sanitised(segment@, illegal_characters@.to_set()),
{
    sanitise(segment, illegal_characters)
}

fn keyed(key: &str, value: &str) -> (out: String)
    ensures
        out@ == key@ + value@,
{
    let mut out = String::new();
    out.append(key);
    out.append(value);
    assert(out@ =~= key@ + value@);
    out
}

/// Writes one segment of the front matter: its key and its value on one
/// line. Nothing is written where the note has no such detail, or where
/// chrono does not write the date.
pub fn process_segment(
    segment: &FrontmatterSegment,
    filename_details: &FilenameDetails,
    frontmatter_config: &FrontmatterConfig,
    filename_config: &FileConfig,
) -> (text: String)
    ensures
        text@ == segment_text(
            *segment,
            filename_details@,
            frontmatter_config@,
            filename_config@.illegal_characters.to_set(),
        ),
{
    let format = &frontmatter_config.format;
    let key = get_segment_prefix(format, segment);
    let value = match segment {
        FrontmatterSegment::Title => match &filename_details.title_arg {
            Some(title) => Some(format_title_or_identifier(title.as_str(), format)),
            None => None,
        },
        FrontmatterSegment::Date => format_date(
            filename_details.creation_time,
            format,
            &frontmatter_config.time_style,
        ),
        FrontmatterSegment::Keywords => match &filename_details.keywords_arg {
            Some(keywords) => {
                let mut list = format_keywords(
                    keywords.as_str(),
                    frontmatter_config.format,
                    &filename_config.illegal_characters,
                );
                list.append("\n");
                Some(list)
            },
            None => None,
        },
        FrontmatterSegment::Identifier => match &filename_details.identifier_arg {
            Some(identifier) => Some(format_title_or_identifier(identifier.as_str(), format)),
            None => None,
        },
    };
    match value {
        Some(value) => {
            let text = keyed(key, value.as_str());
            assert(text@ =~= segment_text(
                *segment,
                filename_details@,
                frontmatter_config@,
                filename_config@.illegal_characters.to_set(),
            ));
            text
        },
        None => String::new(),
    }
}

/// Writes the front matter of a note: its segments in the configured order
/// between the delimiters of the configured format.
pub fn get_frontmatter(
    filename_details: &FilenameDetails,
    frontmatter_config: &FrontmatterConfig,
    filename_config: &FileConfig,
) -> (text: String)
    ensures
        text@ == frontmatter_of(
            filename_details@,
            frontmatter_config@,
            filename_config@.illegal_characters.to_set(),
        ),
{
    let (open, close) = get_format_delimiters(&frontmatter_config.format);
    let mut content = String::new();
    let mut i: usize = 0;
    while i < frontmatter_config.order.len()
        invariant
            i <= frontmatter_config.order.len(),
            content@ == segments_text(
                filename_details@,
                frontmatter_config@,
                filename_config@.illegal_characters.to_set(),
                i as int,
            ),
        decreases frontmatter_config.order.len() - i,
    {
        let segment = process_segment(
            &frontmatter_config.order[i],
            filename_details,
            frontmatter_config,
            filename_config,
        );
        content.append(segment.as_str());
        i += 1;
    }
    let mut text = String::new();
    text.append(open);
    text.append(content.as_str());
    text.append(close);
    assert(text@ =~= open@ + content@ + close@);
    text
}

/// Writes the front matter of a note from its metadata where the
/// configuration asks for front matter, and nothing where it does not.
pub fn render_frontmatter(
    metadata: &FileMetadata,
    frontmatter_config: &FrontmatterConfig,
    filename_config: &FileConfig,
) -> (text: Option<String>)
    ensures
        text_of(text) == if frontmatter_config.enabled {
            Some(
                frontmatter_of(
                    details_of_metadata(metadata@),
                    frontmatter_config@,
                    filename_config@.illegal_characters.to_set(),
                ),
            )
        } else {
            None
        },
{
    if frontmatter_config.enabled {
        let details = details_from_metadata(metadata);
        Some(get_frontmatter(&details, frontmatter_config, filename_config))
    } else {
        None
    }
}

} // verus!
