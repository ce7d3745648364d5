use std::collections::HashSet;

use dn::config::{
    default_file_extension, default_frontmatter_format, default_frontmatter_segment_order,
    default_frontmatter_time_format, default_illegal_characters, default_segment_order,
    determine_frontmatter_format, with_segment_separators, Config, ConfigError, FileConfig,
    FilenameSegment, FrontmatterConfig, FrontmatterFormat, FrontmatterSegment,
    FrontmatterTimeFormat,
};

#[test]
fn builder_builds_defaults_if_unconfigured() {
    // Arrange
    let input = Config::builder();
    let expected = Config::default();

    // Act
    let result = input.build().unwrap();

    // Assert
    assert_eq!(
        expected, result,
        "Input: {input:#?}\nExpected: {expected:#?}\nReceived: {result:#?}"
    );
}

#[test]
fn builder_builds_base_config_defaults_if_provided() {
    // Arrange
    let base_config = Config {
        file: FileConfig {
            default_extension: "dj".to_owned(),
            regenerate_identifier: true,
            illegal_characters: vec!['a', '2', '@'],
            ..FileConfig::default()
        },
        frontmatter: FrontmatterConfig {
            enabled: true,
            format: FrontmatterFormat::Toml,
            ..FrontmatterConfig::default()
        },
    };
    let input = Config::builder().with_base_config(base_config.clone());
    let expected_illegal_characters = vec!['a', '2', '@', '=', '-', '_', '.'];
    let expected = Config {
        file: FileConfig {
            illegal_characters: expected_illegal_characters,
            ..base_config.file
        },
        ..base_config
    };

    // Act
    let result = input.build().unwrap();

    // Assert
    assert_eq!(
        expected, result,
        "Input: {input:#?}\nExpected: {expected:#?}\nReceived: {result:#?}"
    );
}

#[test]
fn builder_builds_with_supplied_values() {
    // Arrange
    let default_extension = "dj".to_string();
    let directory = ".".to_string();
    let regenerate_identifier = true;
    let template_path = "./template.txt".to_string();
    let enabled = true;
    let format = "org".into();

    let input = Config::builder()
        .with_file_default_extension(default_extension.clone())
        .with_file_directory(directory.clone())
        .with_file_regenerate_identifier(regenerate_identifier)
        .with_file_template_path(template_path.clone())
        .with_frontmatter_enabled(enabled)
        .with_frontmatter_format(format);

    let expected = Config {
        file: FileConfig {
            directory,
            default_extension,
            regenerate_identifier,
            template_path: Some(template_path),
            ..Default::default()
        },
        frontmatter: FrontmatterConfig {
            enabled,
            format: FrontmatterFormat::Org,
            ..Default::default()
        },
    };

    // Act
    let result = input.build().unwrap();

    // Assert
    assert_eq!(
        expected, result,
        "Input: {input:#?}\nExpected: {expected:#?}\nReceived: {result:#?}",
    );
}

#[test]
fn built_config_illegal_characters_always_contains_path_separators() {
    // Arrange
    let base_config = Config {
        file: FileConfig {
            illegal_characters: vec!['a', '2', '@'],
            ..FileConfig::default()
        },
        ..Config::default()
    };
    let input = Config::builder().with_base_config(base_config.clone());
    let expected = HashSet::from(['a', '2', '@', '=', '-', '_', '.']);

    // Act
    let result = input
        .build()
        .unwrap()
        .file
        .illegal_characters
        .into_iter()
        .collect::<HashSet<char>>();

    // Assert
    assert_eq!(
        expected, result,
        "Input: {input:#?}\nExpected: {expected:#?}\nReceived: {result:#?}"
    );
}

#[test]
fn build_config_fails_with_invalid_frontmatter_format() {
    // Arrange
    let format = "scaml";
    let input = Config::builder().with_frontmatter_format(format.to_owned());

    // Act
    let result = input.build();

    // Assert
    assert!(
        result
            .as_ref()
            .is_err_and(|e| e.message().contains("Invalid frontmatter format")),
        "Input: {input:#?}\nExpected an error.\nReceived: {result:#?}",
    );
}

#[test]
fn invalid_frontmatter_format_is_reported_with_the_name_that_was_given() {
    let result = Config::builder()
        .with_frontmatter_format("scaml".to_owned())
        .build();

    assert_eq!(
        Err(ConfigError::InvalidFrontmatterFormat("scaml".to_owned())),
        result
    );
    assert_eq!(
        "Invalid frontmatter format provided, must be one of: text, yaml, toml, org.\nGot: \"scaml\"",
        result.unwrap_err().message()
    );
}

#[test]
fn frontmatter_format_is_read_in_any_letter_case() {
    assert_eq!(Ok(FrontmatterFormat::Text), determine_frontmatter_format("text"));
    assert_eq!(Ok(FrontmatterFormat::Yaml), determine_frontmatter_format("YAML"));
    assert_eq!(Ok(FrontmatterFormat::Toml), determine_frontmatter_format("Toml"));
    assert_eq!(Ok(FrontmatterFormat::Org), determine_frontmatter_format("oRg"));
    assert_eq!(
        Err(ConfigError::InvalidFrontmatterFormat("json".to_owned())),
        determine_frontmatter_format("json")
    );
    assert_eq!(
        Err(ConfigError::InvalidFrontmatterFormat("".to_owned())),
        determine_frontmatter_format("")
    );
}

#[test]
fn defaults_have_their_documented_values() {
    assert_eq!(
        [
            FilenameSegment::Identifier,
            FilenameSegment::Signature,
            FilenameSegment::Title,
            FilenameSegment::Keywords,
            FilenameSegment::Extension,
        ],
        default_segment_order()
    );
    assert_eq!("txt", default_file_extension());
    assert_eq!(FrontmatterFormat::Text, default_frontmatter_format());
    assert_eq!(FrontmatterTimeFormat::Hour24, default_frontmatter_time_format());
    assert_eq!(
        vec![
            FrontmatterSegment::Title,
            FrontmatterSegment::Date,
            FrontmatterSegment::Keywords,
            FrontmatterSegment::Identifier,
        ],
        default_frontmatter_segment_order()
    );
    let expected = HashSet::from([
        '[', ']', '{', '}', '(', ')', '!', '#', '$', '%', '^', '&', '*', '+', '\'', '\\', '"', '?',
        ',', '|', ';', ':', '~', '`', '‘', '’', '“', '”', '/', '*', ' ', '@', '=', '-', '_', '.',
    ]);
    let illegal = default_illegal_characters();
    assert_eq!(expected.len(), illegal.len());
    assert_eq!(expected, illegal.into_iter().collect::<HashSet<char>>());
}

#[test]
fn default_configuration_has_no_front_matter_and_keeps_identifiers() {
    let config = Config::default();

    assert_eq!(".", config.file.directory);
    assert_eq!("txt", config.file.default_extension);
    assert!(!config.file.regenerate_identifier);
    assert_eq!(None, config.file.template_path);
    assert!(!config.frontmatter.enabled);
    assert_eq!(FrontmatterFormat::Text, config.frontmatter.format);
    assert_eq!(FrontmatterTimeFormat::Hour24, config.frontmatter.time_style);
    assert!(config.frontmatter.order.is_empty());
    assert_eq!(FilenameSegment::Title, FilenameSegment::default());
}

#[test]
fn flags_of_the_builder_only_switch_on() {
    let base = Config {
        file: FileConfig {
            regenerate_identifier: true,
            ..FileConfig::default()
        },
        frontmatter: FrontmatterConfig {
            enabled: true,
            ..FrontmatterConfig::default()
        },
    };

    let result = Config::builder()
        .with_base_config(base)
        .with_file_regenerate_identifier(false)
        .with_frontmatter_enabled(false)
        .build()
        .unwrap();

    assert!(result.file.regenerate_identifier);
    assert!(result.frontmatter.enabled);
}

#[test]
fn separators_are_added_once_and_nothing_is_lost() {
    assert_eq!(vec!['@', '=', '-', '_', '.'], with_segment_separators(&vec![]));
    assert_eq!(
        vec!['.', 'x', '-', '@', '=', '_'],
        with_segment_separators(&vec!['.', 'x', '-'])
    );
}
