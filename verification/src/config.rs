//! The settings that shape file names and front matter, and the builder that
//! merges explicit values over a base configuration.

use vstd::prelude::*;
use crate::sanitise::{contains_char, is_separator};
use vstd::string::StringExecFns;
use crate::text::{copy_chars, debug_form, debug_form_of, lowercase_of, same_text};

verus! {

/// The segments which comprise a file name.
#[derive(Clone, Copy, Debug, PartialEq, Eq, Structural)]
pub enum FilenameSegment {
    Identifier,
    Signature,
    Title,
    Keywords,
    Extension,
}

/// The possible formats of front matter.
#[derive(Clone, Copy, Debug, PartialEq, Eq, Structural)]
pub enum FrontmatterFormat {
    Text,
    Yaml,
    Toml,
    Org,
}

/// The front matter segments that are written and read.
#[derive(Clone, Copy, Debug, PartialEq, Eq, Structural)]
pub enum FrontmatterSegment {
    Title,
    Date,
    Keywords,
    Identifier,
}

/// How the time of day is written in the date of front matter.
#[derive(Clone, Copy, Debug, PartialEq, Eq, Structural)]
pub enum FrontmatterTimeFormat {
    Hour24,
    Hour12,
    DateOnly,
}

/// The configuration values for the file name, directory and template.
#[derive(Clone, Debug, PartialEq)]
pub struct FileConfig {
    /// The directory in which notes will be created.
    pub directory: String,
    /// The order in which file name segments will appear.
    pub segment_order: [FilenameSegment; 5],
    /// The file extension used when none is provided.
    pub default_extension: String,
    /// Whether to replace an existing identifier on a renamed note.
    pub regenerate_identifier: bool,
    /// The path of the template whose contents go into a new note.
    pub template_path: Option<String>,
    /// Characters to be sanitised out of the metadata.
    pub illegal_characters: Vec<char>,
}

/// The configuration values for the front matter.
#[derive(Clone, Debug, PartialEq)]
pub struct FrontmatterConfig {
    /// Whether to generate front matter on file creation.
    pub enabled: bool,
    /// Which format to use for generated front matter.
    pub format: FrontmatterFormat,
    /// Which time style to use in the date segment.
    pub time_style: FrontmatterTimeFormat,
    /// The order in which generated segments appear.
    pub order: Vec<FrontmatterSegment>,
}

/// The configuration as a whole.
#[derive(Clone, Debug, PartialEq)]
pub struct Config {
    pub file: FileConfig,
    pub frontmatter: FrontmatterConfig,
}

/// Why a configuration could not be built.
#[derive(Clone, Debug, PartialEq)]
pub enum ConfigError {
    /// The named front matter format is none of text, yaml, toml, org.
    InvalidFrontmatterFormat(String),
}

/// Gathers explicit values that override those of a base configuration.
#[derive(Debug)]
pub struct ConfigBuilder {
    base_config: Option<Config>,
    file_directory: Option<String>,
    file_default_extension: Option<String>,
    file_regenerate_identifier: bool,
    file_template_path: Option<String>,
    frontmatter_enabled: bool,
    frontmatter_format: Option<String>,
}

/// The file configuration as plain values.
pub struct FileConfigView {
    pub directory: Seq<char>,
    pub segment_order: Seq<FilenameSegment>,
    pub default_extension: Seq<char>,
    pub regenerate_identifier: bool,
    pub template_path: Option<Seq<char>>,
    pub illegal_characters: Seq<char>,
}

/// The front matter configuration as plain values.
pub struct FrontmatterConfigView {
    pub enabled: bool,
    pub format: FrontmatterFormat,
    pub time_style: FrontmatterTimeFormat,
    pub order: Seq<FrontmatterSegment>,
}

/// The configuration as plain values.
pub struct ConfigView {
    pub file: FileConfigView,
    pub frontmatter: FrontmatterConfigView,
}

/// What has been set on a builder, as plain values.
pub struct ConfigBuilderView {
    pub base_config: Option<ConfigView>,
    pub file_directory: Option<Seq<char>>,
    pub file_default_extension: Option<Seq<char>>,
    pub file_regenerate_identifier: bool,
    pub file_template_path: Option<Seq<char>>,
    pub frontmatter_enabled: bool,
    pub frontmatter_format: Option<Seq<char>>,
}

/// The view of an optional string.
pub open spec fn text_of(value: Option<String>) -> Option<Seq<char>> {
    match value {
        Some(s) => Some(s@),
        None => None,
    }
}

impl View for FileConfig {
    type V = FileConfigView;

    open spec fn view(&self) -> FileConfigView {
        FileConfigView {
            directory: self.directory@,
            segment_order: self.segment_order@,
            default_extension: self.default_extension@,
            regenerate_identifier: self.regenerate_identifier,
            template_path: text_of(self.template_path),
            illegal_characters: self.illegal_characters@,
        }
    }
}

impl View for FrontmatterConfig {
    type V = FrontmatterConfigView;

    open spec fn view(&self) -> FrontmatterConfigView {
        FrontmatterConfigView {
            enabled: self.enabled,
            format: self.format,
            time_style: self.time_style,
            order: self.order@,
        }
    }
}

impl View for Config {
    type V = ConfigView;

    open spec fn view(&self) -> ConfigView {
        ConfigView { file: self.file@, frontmatter: self.frontmatter@ }
    }
}

impl View for ConfigBuilder {
    type V = ConfigBuilderView;

    closed spec fn view(&self) -> ConfigBuilderView {
        ConfigBuilderView {
            base_config: match self.base_config {
                Some(c) => Some(c@),
                None => None,
            },
            file_directory: text_of(self.file_directory),
            file_default_extension: text_of(self.file_default_extension),
            file_regenerate_identifier: self.file_regenerate_identifier,
            file_template_path: text_of(self.file_template_path),
            frontmatter_enabled: self.frontmatter_enabled,
            frontmatter_format: text_of(self.frontmatter_format),
        }
    }
}

/// The order of segments that is used where none is configured.
pub open spec fn default_order() -> Seq<FilenameSegment> {
    seq![
        FilenameSegment::Identifier,
        FilenameSegment::Signature,
        FilenameSegment::Title,
        FilenameSegment::Keywords,
        FilenameSegment::Extension,
    ]
}

/// The characters that are illegal where none are configured.
pub open spec fn default_illegal() -> Seq<char> {
    seq![
        '[', ']', '{', '}', '(', ')', '!', '#', '$', '%', '^', '&', '*', '+', '\'', '\\', '"',
        '?', ',', '|', ';', ':', '~', '`', '\u{2018}', '\u{2019}', '\u{201c}', '\u{201d}', '/',
        ' ', '@', '=', '-', '_', '.',
    ]
}

/// The file configuration where nothing is configured.
pub open spec fn default_file_config() -> FileConfigView {
    FileConfigView {
        directory: seq!['.'],
        segment_order: default_order(),
        default_extension: seq!['t', 'x', 't'],
        regenerate_identifier: false,
        template_path: None,
        illegal_characters: default_illegal(),
    }
}

/// The front matter configuration where nothing is configured.
pub open spec fn default_frontmatter_config() -> FrontmatterConfigView {
    FrontmatterConfigView {
        enabled: false,
        format: FrontmatterFormat::Text,
        time_style: FrontmatterTimeFormat::Hour24,
        order: Seq::empty(),
    }
}

/// The configuration where nothing is configured.
pub open spec fn default_config() -> ConfigView {
    ConfigView { file: default_file_config(), frontmatter: default_frontmatter_config() }
}

/// The format that a lower-cased name stands for.
pub open spec fn format_named(lowered: Seq<char>) -> Option<FrontmatterFormat> {
    if lowered == seq!['t', 'e', 'x', 't'] {
        Some(FrontmatterFormat::Text)
    } else if lowered == seq!['y', 'a', 'm', 'l'] {
        Some(FrontmatterFormat::Yaml)
    } else if lowered == seq!['t', 'o', 'm', 'l'] {
        Some(FrontmatterFormat::Toml)
    } else if lowered == seq!['o', 'r', 'g'] {
        Some(FrontmatterFormat::Org)
    } else {
        None
    }
}

/// `illegal` together with the five separators.
pub open spec fn with_separators(illegal: Set<char>) -> Set<char> {
    Set::new(|c: char| illegal.contains(c) || is_separator(c))
}

/// `chars`, and `c` behind them unless it is among them.
pub open spec fn with_missing(chars: Seq<char>, c: char) -> Seq<char> {
    if chars.contains(c) {
        chars
    } else {
        chars.push(c)
    }
}

/// `chars`, and behind them those of the five separators that are not among
/// them, in the order `@ = - _ .`.
pub open spec fn separators_added(chars: Seq<char>) -> Seq<char> {
    with_missing(with_missing(with_missing(with_missing(with_missing(chars, '@'), '='), '-'), '_'), '.')
}

/// The illegal characters from which a builder starts: those of its base
/// configuration, or the default ones.
pub open spec fn base_illegal(builder: ConfigBuilderView) -> Seq<char> {
    match builder.base_config {
        Some(c) => c.file.illegal_characters,
        None => default_illegal(),
    }
}

/// The configuration that a builder stands for: each explicit value wins
/// over the base, the two flags can only switch on, the separators are
/// always illegal, and an unknown format name leaves no configuration.
pub open spec fn built(builder: ConfigBuilderView) -> Option<ConfigView> {
    let base = match builder.base_config {
        Some(c) => c,
        None => default_config(),
    };
    let format = match builder.frontmatter_format {
        Some(name) => format_named(lowercase_of(name)),
        None => Some(base.frontmatter.format),
    };
    match format {
        None => None,
        Some(format) => Some(
            ConfigView {
                file: FileConfigView {
                    directory: match builder.file_directory {
                        Some(d) => d,
                        None => base.file.directory,
                    },
                    segment_order: base.file.segment_order,
                    default_extension: match builder.file_default_extension {
                        Some(e) => e,
                        None => base.file.default_extension,
                    },
                    regenerate_identifier: builder.file_regenerate_identifier
                        || base.file.regenerate_identifier,
                    template_path: match builder.file_template_path {
                        Some(p) => Some(p),
                        None => base.file.template_path,
                    },
                    illegal_characters: separators_added(base.file.illegal_characters),
                },
                frontmatter: FrontmatterConfigView {
                    enabled: builder.frontmatter_enabled || base.frontmatter.enabled,
                    format,
                    time_style: base.frontmatter.time_style,
                    order: base.frontmatter.order,
                },
            },
        ),
    }
}

/// The default order of file name segments.
pub fn default_segment_order() -> (order: [FilenameSegment; 5])
    ensures
        order@ == default_order(),
{
    let order = [
        FilenameSegment::Identifier,
        FilenameSegment::Signature,
        FilenameSegment::Title,
        FilenameSegment::Keywords,
        FilenameSegment::Extension,
    ];
    assert(order@ =~= default_order());
    order
}

/// The default file extension, `txt`.
pub fn default_file_extension() -> (extension: String)
    ensures
        extension@ == seq!['t', 'x', 't'],
{
    let mut extension = String::new();
    extension.push('t');
    extension.push('x');
    extension.push('t');
    assert(extension@ =~= seq!['t', 'x', 't']);
    extension
}

/// The default front matter format, plain text.
pub fn default_frontmatter_format() -> (format: FrontmatterFormat)
    ensures
        format == FrontmatterFormat::Text,
{
    FrontmatterFormat::Text
}

/// The default time style of the front matter date, the 24-hour clock.
pub fn default_frontmatter_time_format() -> (style: FrontmatterTimeFormat)
    ensures
        style == FrontmatterTimeFormat::Hour24,
{
    FrontmatterTimeFormat::Hour24
}

/// The default order of front matter segments.
pub fn default_frontmatter_segment_order() -> (order: Vec<FrontmatterSegment>)
    ensures
        order@ == seq![
            FrontmatterSegment::Title,
            FrontmatterSegment::Date,
            FrontmatterSegment::Keywords,
            FrontmatterSegment::Identifier,
        ],
{
    let order = vec![
        FrontmatterSegment::Title,
        FrontmatterSegment::Date,
        FrontmatterSegment::Keywords,
        FrontmatterSegment::Identifier,
    ];
    assert(order@ =~= seq![
        FrontmatterSegment::Title,
        FrontmatterSegment::Date,
        FrontmatterSegment::Keywords,
        FrontmatterSegment::Identifier,
    ]);
    order
}

/// The default illegal characters, none of which occurs twice.
pub fn default_illegal_characters() -> (illegal: Vec<char>)
    ensures
        illegal@ == default_illegal(),
        illegal@.no_duplicates(),
{
    let illegal = vec![
        '[', ']', '{', '}', '(', ')', '!', '#', '$', '%', '^', '&', '*', '+', '\'', '\\', '"',
        '?', ',', '|', ';', ':', '~', '`', '\u{2018}', '\u{2019}', '\u{201c}', '\u{201d}', '/',
        ' ', '@', '=', '-', '_', '.',
    ];
    assert(illegal@ =~= default_illegal());
    illegal
}

impl Default for FilenameSegment {
    fn default() -> (segment: Self)
        ensures
            segment == FilenameSegment::Title,
    {
        FilenameSegment::Title
    }
}

impl Default for FileConfig {
    fn default() -> (config: Self)
        ensures
            config@ == default_file_config(),
    {
        let mut directory = String::new();
        directory.push('.');
        assert(directory@ =~= seq!['.']);
        FileConfig {
            directory,
            segment_order: default_segment_order(),
            default_extension: default_file_extension(),
            regenerate_identifier: false,
            template_path: None,
            illegal_characters: default_illegal_characters(),
        }
    }
}

impl Default for FrontmatterConfig {
    fn default() -> (config: Self)
        ensures
            config@ == default_frontmatter_config(),
    {
        FrontmatterConfig {
            enabled: false,
            format: default_frontmatter_format(),
            time_style: default_frontmatter_time_format(),
            order: Vec::new(),
        }
    }
}

impl Default for Config {
    fn default() -> (config: Self)
        ensures
            config@ == default_config(),
    {
        Config { file: FileConfig::default(), frontmatter: FrontmatterConfig::default() }
    }
}

/// A builder in which nothing has been set.
pub open spec fn empty_builder() -> ConfigBuilderView {
    ConfigBuilderView {
        base_config: None,
        file_directory: None,
        file_default_extension: None,
        file_regenerate_identifier: false,
        file_template_path: None,
        frontmatter_enabled: false,
        frontmatter_format: None,
    }
}

impl Config {
    /// Creates a new builder in which nothing is set.
    pub fn builder() -> (builder: ConfigBuilder)
        ensures
            builder@ == empty_builder(),
    {
        ConfigBuilder {
            base_config: None,
            file_directory: None,
            file_default_extension: None,
            file_regenerate_identifier: false,
            file_template_path: None,
            frontmatter_enabled: false,
            frontmatter_format: None,
        }
    }
}

/// What is said of a front matter format that is not known, before the name
/// that was given.
pub const INVALID_FORMAT_MESSAGE: &'static str =
    "Invalid frontmatter format provided, must be one of: text, yaml, toml, org.\nGot: ";

impl ConfigError {
    /// The name that was given for the front matter format.
    pub open spec fn given(&self) -> Seq<char> {
        match self {
            ConfigError::InvalidFrontmatterFormat(name) => name@,
        }
    }

    /// The error in words: what is wrong, and the name that was given, as
    /// the standard library prints it for a programmer.
    pub fn message(&self) -> (text: String)
        ensures
            text@ == INVALID_FORMAT_MESSAGE@ + debug_form_of(self.given()),
    {
        match self {
            ConfigError::InvalidFrontmatterFormat(name) => {
                let mut text = String::new();
                text.append(INVALID_FORMAT_MESSAGE);
                text.append(debug_form(name.as_str()).as_str());
                assert(text@ =~= INVALID_FORMAT_MESSAGE@ + debug_form_of(name@));
                text
            },
        }
    }
}

/// Attempts to read a front matter format from its name, in any letter case.
pub fn determine_frontmatter_format(format_arg: &str) -> (format: Result<
    FrontmatterFormat,
    ConfigError,
>)
    ensures
        match format {
            Ok(f) => format_named(lowercase_of(format_arg@)) == Some(f),
            Err(e) => format_named(lowercase_of(format_arg@)) is None && e.given() == format_arg@,
        },
{
    let lowered = format_arg.to_lowercase();
    proof {
        reveal_strlit("text");
        reveal_strlit("yaml");
        reveal_strlit("toml");
        reveal_strlit("org");
        assert("text"@ =~= seq!['t', 'e', 'x', 't']);
        assert("yaml"@ =~= seq!['y', 'a', 'm', 'l']);
        assert("toml"@ =~= seq!['t', 'o', 'm', 'l']);
        assert("org"@ =~= seq!['o', 'r', 'g']);
    }
    if same_text(lowered.as_str(), "text") {
        Ok(FrontmatterFormat::Text)
    } else if same_text(lowered.as_str(), "yaml") {
        Ok(FrontmatterFormat::Yaml)
    } else if same_text(lowered.as_str(), "toml") {
        Ok(FrontmatterFormat::Toml)
    } else if same_text(lowered.as_str(), "org") {
        Ok(FrontmatterFormat::Org)
    } else {
        Err(ConfigError::InvalidFrontmatterFormat(format_arg.to_owned()))
    }
}

/// Where no character occurs twice, none does after a missing one is added.
pub proof fn lemma_with_missing_has_no_duplicates(chars: Seq<char>, c: char)
    requires
        chars.no_duplicates(),
    ensures
        with_missing(chars, c).no_duplicates(),
{
    if !chars.contains(c) {
        let all = chars.push(c);
        assert forall|i: int, j: int| 0 <= i < all.len() && 0 <= j < all.len() && i != j implies all[i]
            != all[j] by {
            if i < chars.len() && j < chars.len() {
                assert(chars[i] != chars[j]);
            } else if i < chars.len() {
                assert(chars.contains(chars[i]));
            } else {
                assert(chars.contains(chars[j]));
            }
        }
    }
}

/// Where no character occurs twice, none does after the separators are
/// added.
pub proof fn lemma_separators_added_has_no_duplicates(chars: Seq<char>)
    requires
        chars.no_duplicates(),
    ensures
        separators_added(chars).no_duplicates(),
{
    let first = with_missing(chars, '@');
    let second = with_missing(first, '=');
    let third = with_missing(second, '-');
    let fourth = with_missing(third, '_');
    lemma_with_missing_has_no_duplicates(chars, '@');
    lemma_with_missing_has_no_duplicates(first, '=');
    lemma_with_missing_has_no_duplicates(second, '-');
    lemma_with_missing_has_no_duplicates(third, '_');
    lemma_with_missing_has_no_duplicates(fourth, '.');
}

/// As a set, the characters with the separators added are the characters
/// together with the five separators: whatever is configured, the
/// separators are illegal.
pub proof fn lemma_separators_are_always_illegal(chars: Seq<char>)
    ensures
        separators_added(chars).to_set() == with_separators(chars.to_set()),
{
    let first = with_missing(chars, '@');
    let second = with_missing(first, '=');
    let third = with_missing(second, '-');
    let fourth = with_missing(third, '_');
    chars.lemma_push_to_set_commute('@');
    first.lemma_push_to_set_commute('=');
    second.lemma_push_to_set_commute('-');
    third.lemma_push_to_set_commute('_');
    fourth.lemma_push_to_set_commute('.');
    assert(separators_added(chars).to_set() =~= with_separators(chars.to_set()));
}

/// Appends `c` unless it is there already.
fn add_missing(chars: &mut Vec<char>, c: char)
    ensures
        final(chars)@ == with_missing(old(chars)@, c),
        final(chars)@.to_set() == old(chars)@.to_set().insert(c),
{
    if !contains_char(chars, c) {
        proof {
            chars@.lemma_push_to_set_commute(c);
        }
        chars.push(c);
    } else {
        assert(chars@.to_set().insert(c) =~= chars@.to_set());
    }
}

/// The characters of `illegal`, and behind them the separators that are not
/// among them: as a set, `illegal` together with the five separators. Where
/// no character occurs twice in `illegal`, none occurs twice in the result.
pub fn with_segment_separators(illegal: &Vec<char>) -> (all: Vec<char>)
    ensures
        all@ == separators_added(illegal@),
        all@.to_set() == with_separators(illegal@.to_set()),
        illegal@.no_duplicates() ==> all@.no_duplicates(),
{
    proof {
        if illegal@.no_duplicates() {
            lemma_separators_added_has_no_duplicates(illegal@);
        }
    }
    let mut all = copy_chars(illegal);
    add_missing(&mut all, '@');
    add_missing(&mut all, '=');
    add_missing(&mut all, '-');
    add_missing(&mut all, '_');
    add_missing(&mut all, '.');
    assert(all@.to_set() =~= with_separators(illegal@.to_set()));
    all
}

pub(crate) fn copy_optional_text(value: &Option<String>) -> (out: Option<String>)
    ensures
        text_of(out) == text_of(*value),
{
    match value {
        Some(s) => Some(s.clone()),
        None => None,
    }
}

fn copy_segments(order: &Vec<FrontmatterSegment>) -> (out: Vec<FrontmatterSegment>)
    ensures
        out@ == order@,
{
    let mut out: Vec<FrontmatterSegment> = Vec::new();
    let mut i: usize = 0;
    while i < order.len()
        invariant
            i <= order.len(),
            out@ == order@.take(i as int),
        decreases order.len() - i,
    {
        out.push(order[i]);
        i += 1;
    }
    assert(out@ =~= order@);
    out
}

impl ConfigBuilder {
    /// Sets the configuration whose values are used where none is set here.
    pub fn with_base_config(self, value: Config) -> (updated: Self)
        ensures
            updated@ == (ConfigBuilderView { base_config: Some(value@), ..self@ }),
    {
        let mut builder = self;
        builder.base_config = Some(value);
        builder
    }

    /// Sets the output directory.
    pub fn with_file_directory(self, value: String) -> (updated: Self)
        ensures
            updated@ == (ConfigBuilderView { file_directory: Some(value@), ..self@ }),
    {
        let mut builder = self;
        builder.file_directory = Some(value);
        builder
    }

    /// Sets the default file extension.
    pub fn with_file_default_extension(self, value: String) -> (updated: Self)
        ensures
            updated@ == (ConfigBuilderView { file_default_extension: Some(value@), ..self@ }),
    {
        let mut builder = self;
        builder.file_default_extension = Some(value);
        builder
    }

    /// Sets whether to regenerate the identifier of a renamed file.
    pub fn with_file_regenerate_identifier(self, value: bool) -> (updated: Self)
        ensures
            updated@ == (ConfigBuilderView { file_regenerate_identifier: value, ..self@ }),
    {
        let mut builder = self;
        builder.file_regenerate_identifier = value;
        builder
    }

    /// Sets the path of the template file.
    pub fn with_file_template_path(self, value: String) -> (updated: Self)
        ensures
            updated@ == (ConfigBuilderView { file_template_path: Some(value@), ..self@ }),
    {
        let mut builder = self;
        builder.file_template_path = Some(value);
        builder
    }

    /// Sets whether to generate front matter.
    pub fn with_frontmatter_enabled(self, value: bool) -> (updated: Self)
        ensures
            updated@ == (ConfigBuilderView { frontmatter_enabled: value, ..self@ }),
    {
        let mut builder = self;
        builder.frontmatter_enabled = value;
        builder
    }

    /// Sets the name of the front matter format.
    pub fn with_frontmatter_format(self, value: String) -> (updated: Self)
        ensures
            updated@ == (ConfigBuilderView { frontmatter_format: Some(value@), ..self@ }),
    {
        let mut builder = self;
        builder.frontmatter_format = Some(value);
        builder
    }

    /// Builds the configuration: a value set on the builder wins over the
    /// base configuration, which wins over the defaults. Fails exactly when
    /// a front matter format was named that is not known. Where no illegal
    /// character of the base occurs twice, none of the result does.
    pub fn build(&self) -> (config: Result<Config, ConfigError>)
        ensures
            match config {
                Ok(c) => built(self@) == Some(c@),
                Err(e) => built(self@) is None && Some(e.given()) == self@.frontmatter_format,
            },
            config matches Ok(c) ==> (base_illegal(self@).no_duplicates()
                ==> c@.file.illegal_characters.no_duplicates()),
    {
        proof {
            if base_illegal(self@).no_duplicates() {
                lemma_separators_added_has_no_duplicates(base_illegal(self@));
            }
        }
        let format = match &self.frontmatter_format {
            Some(name) => match determine_frontmatter_format(name.as_str()) {
                Ok(format) => Some(format),
                Err(e) => {
                    return Err(e);
                },
            },
            None => None,
        };
        let base = match &self.base_config {
            Some(c) => Config {
                file: FileConfig {
                    directory: c.file.directory.clone(),
                    segment_order: c.file.segment_order,
                    default_extension: c.file.default_extension.clone(),
                    regenerate_identifier: c.file.regenerate_identifier,
                    template_path: copy_optional_text(&c.file.template_path),
                    illegal_characters: copy_chars(&c.file.illegal_characters),
                },
                frontmatter: FrontmatterConfig {
                    enabled: c.frontmatter.enabled,
                    format: c.frontmatter.format,
                    time_style: c.frontmatter.time_style,
                    order: copy_segments(&c.frontmatter.order),
                },
            },
            None => Config::default(),
        };
        let directory = match &self.file_directory {
            Some(d) => d.clone(),
            None => base.file.directory,
        };
        let default_extension = match &self.file_default_extension {
            Some(e) => e.clone(),
            None => base.file.default_extension,
        };
        let template_path = match &self.file_template_path {
            Some(p) => Some(p.clone()),
            None => base.file.template_path,
        };
        let illegal_characters = with_segment_separators(&base.file.illegal_characters);
        let config = Config {
            file: FileConfig {
                directory,
                segment_order: base.file.segment_order,
                default_extension,
                regenerate_identifier: self.file_regenerate_identifier
                    || base.file.regenerate_identifier,
                template_path,
                illegal_characters,
            },
            frontmatter: FrontmatterConfig {
                enabled: self.frontmatter_enabled || base.frontmatter.enabled,
                format: match format {
                    Some(f) => f,
                    None => base.frontmatter.format,
                },
                time_style: base.frontmatter.time_style,
                order: base.frontmatter.order,
            },
        };
        Ok(config)
    }
}

} // verus!
