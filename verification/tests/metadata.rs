use dn::clock::Timestamp;
use dn::collation::{deduplicate, sort_collated};
use dn::config::FileConfig;
use dn::filename::ToFilename;
use dn::metadata::{contains_text, resolve_keywords, FileMetadata};
use dn::sanitise::{
    contains_char, is_segment_separator, join_words, normalise_segment, parse_extension,
    parse_keywords, parse_signature, parse_title, sanitise, split_words,
};

fn setup_config() -> FileConfig {
    FileConfig {
        illegal_characters: vec!['#', '@', '!'],
        default_extension: String::from("md"),
        ..Default::default()
    }
}

fn new_year() -> Timestamp {
    Timestamp {
        year: 2025,
        month: 1,
        day: 1,
        hour: 0,
        minute: 0,
        second: 0,
        offset_seconds: 3600,
    }
}

fn strings(words: &[&str]) -> Vec<String> {
    words.iter().map(|w| w.to_string()).collect()
}

#[test]
fn parse_signature_with_multiple_parts() {
    // Arrange
    let config = setup_config();
    let input = "Test=Signature!";
    let expected = Some("testsignature".to_owned());

    // Act
    let result = parse_signature(input, &config.illegal_characters);

    // Assert
    assert_eq!(expected, result);
}

#[test]
fn parse_signature_with_illegal_chars() {
    // Arrange
    let config = setup_config();
    let input = "Test@Signature!-";
    let expected = Some("testsignature".to_owned());

    // Act
    let result = parse_signature(input, &config.illegal_characters);

    // Assert
    assert_eq!(expected, result);
}

#[test]
fn parse_signature_with_only_illegal_chars() {
    // Arrange
    let config = setup_config();
    let input = "@!#";
    let expected = None;

    // Act
    let result = parse_signature(input, &config.illegal_characters);

    // Assert
    assert_eq!(expected, result);
}

#[test]
fn parse_title_with_multiple_parts() {
    // Arrange
    let config = setup_config();
    let input = "My-teST Title";
    let expected = Some("my-test-title".to_owned());

    // Act
    let result = parse_title(input, &config.illegal_characters);

    // Assert
    assert_eq!(expected, result);
}

#[test]
fn parse_keywords_with_multiple_parts() {
    // Arrange
    let config = setup_config();
    let input = "_dn_tags test";
    let expected = Some(vec!["dn".to_owned(), "tags".to_owned(), "test".to_owned()]);

    // Act
    let result = parse_keywords(input, &config.illegal_characters);

    // Assert
    assert_eq!(expected, result);
}

#[test]
fn parse_extension_with_multiple_parts() {
    // Arrange
    let config = setup_config();
    let input = ".tar.gz";
    let expected = Some("tar.gz".to_owned());

    // Act
    let result = parse_extension(input, &config.illegal_characters);

    // Assert
    assert_eq!(expected, result);
}

#[test]
fn parse_extension_with_uppercase() {
    // Arrange
    let config = setup_config();
    let input = "MD";
    let expected = Some("md".to_owned());

    // Act
    let result = parse_extension(input, &config.illegal_characters);

    // Assert
    assert_eq!(expected, result);
}

#[test]
fn new_metadata_full_integration() {
    // Arrange
    let config = setup_config();
    let args = FileMetadata::builder()
        .with_identifier(Some("20241212T121212"))
        .with_signature(Some("test@signature"))
        .with_title(Some("My T3ST Title!"))
        .with_keywords(Some("dn testing"))
        .with_added_keywords(Some("dn_testing_changes"))
        .with_removed_keywords(Some("dn"))
        .with_extension(Some("DJ"));

    let expected = FileMetadata {
        identifier: "20241212T121212".to_owned(),
        signature: Some("testsignature".to_owned()),
        title: Some("my-t3st-title".to_owned()),
        keywords: Some(vec!["changes".to_owned(), "testing".to_owned()]),
        extension: "dj".to_owned(),
        ..Default::default()
    };

    // Act
    let result = args.build(&config).unwrap();

    // Assert
    assert_eq!(
        expected.identifier,
        result.identifier,
        "Local now is: {}",
        dn::clock::current_identifier()
    );
    assert_eq!(expected.signature, result.signature,);
    assert_eq!(expected.title, result.title,);
    assert_eq!(expected.keywords, result.keywords,);
    assert_eq!(expected.extension, result.extension,);
}

#[test]
fn sanitise_with_illegal_chars() {
    // Arrange
    let config = setup_config();
    let input = "hello@world!";
    let expected = "helloworld".to_owned();

    // Act
    let result = sanitise(input, &config.illegal_characters);

    // Assert
    assert_eq!(expected, result);
}

#[test]
fn sanitise_always_removes_the_five_separators() {
    assert_eq!("MyString", sanitise("My@-String!", &vec!['!']));
    assert_eq!("abcde", sanitise("a@b=c-d_e.", &vec![]));
    assert_eq!("", sanitise("@=-_.", &vec![]));
    assert_eq!("", sanitise("", &vec!['x']));
    for c in ['@', '=', '-', '_', '.'] {
        assert!(is_segment_separator(c));
    }
    assert!(!is_segment_separator('a'));
    assert!(!is_segment_separator(' '));
    assert!(contains_char(&vec!['a', 'b'], 'b'));
    assert!(!contains_char(&vec!['a', 'b'], 'c'));
}

#[test]
fn signature_keeps_a_space_where_it_is_not_illegal() {
    assert_eq!(Some("1a3".to_owned()), parse_signature("1A!3", &vec!['!']));
    assert_eq!(Some("a b".to_owned()), parse_signature("A b", &vec![]));
    assert_eq!(Some(" a  b ".to_owned()), parse_signature(" a  b ", &vec![]));
    assert_eq!(Some("ab".to_owned()), parse_signature(" a  b ", &vec![' ']));
    assert_eq!(None, parse_signature("   ", &vec![' ']));
    assert_eq!(None, parse_signature("@=-_.", &vec![]));
    assert_eq!(None, parse_signature("", &vec![]));
}

#[test]
fn words_that_are_emptied_by_sanitising_are_dropped() {
    assert_eq!(Some("a-b".to_owned()), parse_title("a-!-b", &vec!['!']));
    assert_eq!(Some("a-b".to_owned()), parse_title("--a -- b--", &vec![]));
    assert_eq!(None, parse_title("- - !", &vec!['!']));
    assert_eq!(Some("tar.gz".to_owned()), parse_extension(".tar gz", &vec![]));
    assert_eq!(
        Some(strings(&["tag", "one", "tagtwo"])),
        parse_keywords("tag_ONE! tagtwo", &vec!['!'])
    );
    assert_eq!(None, parse_keywords("_ _", &vec![]));
}

#[test]
fn splitting_and_joining_words() {
    let chars: Vec<char> = "a_b c__d".chars().collect();

    assert_eq!(
        strings(&["a", "b", "c", "d"]),
        split_words(&chars, Some('_'), &vec![])
    );
    assert_eq!(strings(&["ab", "cd"]), split_words(&chars, Some('-'), &vec!['x']));
    assert_eq!(strings(&["a", "c", "d"]), split_words(&chars, Some('_'), &vec!['b']));
    assert_eq!(strings(&["ab", "cd"]), split_words(&chars, None, &vec![]));
    assert_eq!("a-b-c", join_words(&strings(&["a", "b", "c"]), Some('-')));
    assert_eq!("abc", join_words(&strings(&["a", "b", "c"]), None));
    assert_eq!("a", join_words(&strings(&["a"]), Some('-')));
    assert_eq!("", join_words(&strings(&[]), Some('-')));
}

#[test]
fn normalising_twice_changes_nothing() {
    let illegal = vec!['!', '#', ' '];
    for raw in [
        "My-teST Title",
        "  --Übung--macht den_Meister!! ",
        "a.b-c_d@e=f",
        "ΣΊΣΥΦΟΣ ΟΔΟΣ",
        "!!!",
        "",
    ] {
        for delimiter in [None, Some('-'), Some('_'), Some('.')] {
            let once = normalise_segment(raw, delimiter, &illegal);
            if let Some(text) = &once {
                assert_eq!(once, normalise_segment(text, delimiter, &illegal));
            }
        }
    }
}

#[test]
fn keyword_set_algebra() {
    let result = resolve_keywords(
        &strings(&["a", "b"]),
        &strings(&["b", "c"]),
        &strings(&["a"]),
    );

    assert_eq!(Ok(Some(strings(&["b", "c"]))), result);
}

#[test]
fn keywords_resolve_to_none_only_without_base_and_added_keywords() {
    assert_eq!(
        Ok(None),
        resolve_keywords(&strings(&[]), &strings(&[]), &strings(&["a"]))
    );
    assert_eq!(
        Ok(Some(strings(&[]))),
        resolve_keywords(&strings(&["a"]), &strings(&[]), &strings(&["a"]))
    );
    assert_eq!(
        Ok(Some(strings(&["a"]))),
        resolve_keywords(&strings(&[]), &strings(&["a", "a"]), &strings(&[]))
    );
}

#[test]
fn keywords_are_sorted_by_collation_and_not_by_code_point() {
    assert_eq!(
        Ok(strings(&["a", "b", "c"])),
        sort_collated(strings(&["c", "a", "b"]))
    );
    assert_eq!(
        Ok(strings(&["apfel", "äpfel", "zebra"])),
        sort_collated(strings(&["zebra", "äpfel", "apfel"]))
    );
    assert_eq!(
        Ok(strings(&["e", "E", "f"])),
        sort_collated(strings(&["f", "E", "e"]))
    );
    assert_eq!(Ok(strings(&[])), sort_collated(strings(&[])));
}

#[test]
fn only_neighbours_that_repeat_are_dropped() {
    assert_eq!(
        strings(&["a", "b", "a"]),
        deduplicate(strings(&["a", "a", "b", "b", "b", "a"]))
    );
    assert_eq!(strings(&[]), deduplicate(strings(&[])));
    assert!(contains_text(&strings(&["a", "b"]), "b"));
    assert!(!contains_text(&strings(&["a", "b"]), "ab"));
}

#[test]
fn builder_keeps_an_identifier_unless_a_new_one_is_asked_for() {
    let keep = setup_config();
    let renew = FileConfig {
        regenerate_identifier: true,
        ..setup_config()
    };
    let builder = FileMetadata::builder().with_identifier(Some("20241212T121212"));

    let kept = builder
        .build_with(&keep, "20250101T000000", new_year())
        .unwrap();
    let renewed = builder
        .build_with(&renew, "20250101T000000", new_year())
        .unwrap();
    let fresh = FileMetadata::builder()
        .build_with(&keep, "20250101T000000", new_year())
        .unwrap();

    assert_eq!("20241212T121212", kept.identifier);
    assert_eq!("20250101T000000", renewed.identifier);
    assert_eq!("20250101T000000", fresh.identifier);
    assert_eq!(new_year(), kept.creation_time);
}

#[test]
fn builder_without_values_gives_the_defaults() {
    let config = setup_config();

    let result = FileMetadata::builder().build(&config).unwrap();

    assert_eq!(15, result.identifier.chars().count());
    assert_eq!(Some('T'), result.identifier.chars().nth(8));
    assert!(result
        .identifier
        .chars()
        .enumerate()
        .all(|(i, c)| i == 8 || c.is_ascii_digit()));
    assert_eq!(None, result.signature);
    assert_eq!(None, result.title);
    assert_eq!(None, result.keywords);
    assert_eq!("md", result.extension);
}

#[test]
fn builder_falls_back_to_the_default_extension() {
    let config = setup_config();

    let result = FileMetadata::builder()
        .with_identifier(Some("20241212T121212"))
        .with_extension(Some("!!"))
        .build(&config)
        .unwrap();

    assert_eq!("md", result.extension);
}

#[test]
fn full_metadata_renders_in_default_order() {
    let config = FileConfig::default();
    let metadata = FileMetadata::builder()
        .with_identifier(Some("20240101T120000"))
        .with_title(Some("Test Title"))
        .with_signature(Some("123"))
        .with_keywords(Some("key1 key2"))
        .with_extension(Some("md"))
        .build(&config)
        .unwrap();

    let result = metadata.to_filename(&config).to_string();

    assert_eq!("20240101T120000==123--test-title__key1_key2.md", result);
}

#[test]
fn default_metadata_is_empty() {
    let metadata = FileMetadata::default();

    assert_eq!("", metadata.identifier);
    assert_eq!(None, metadata.signature);
    assert_eq!(None, metadata.title);
    assert_eq!(None, metadata.title_raw);
    assert_eq!(None, metadata.keywords);
    assert_eq!("", metadata.extension);
    assert_eq!(Timestamp::default(), metadata.creation_time);
    assert_eq!((1970, 1, 1), (
        metadata.creation_time.year,
        metadata.creation_time.month,
        metadata.creation_time.day
    ));
}

#[test]
fn metadata_keeps_the_title_as_it_was_given_and_the_time_of_its_identifier() {
    let config = setup_config();

    let result = FileMetadata::builder()
        .with_identifier(Some("20241201T121212"))
        .with_title(Some("My T3ST Title!"))
        .build(&config)
        .unwrap();
    let emptied = FileMetadata::builder()
        .with_identifier(Some("20241201T121212"))
        .with_title(Some("!!!"))
        .build(&config)
        .unwrap();

    assert_eq!(Some("my-t3st-title".to_owned()), result.title);
    assert_eq!(Some("My T3ST Title!".to_owned()), result.title_raw);
    assert_eq!(None, emptied.title);
    assert_eq!(Some("!!!".to_owned()), emptied.title_raw);
    assert_eq!(
        (2024, 12, 1, 12, 12, 12),
        (
            result.creation_time.year,
            result.creation_time.month,
            result.creation_time.day,
            result.creation_time.hour,
            result.creation_time.minute,
            result.creation_time.second
        )
    );
}

#[test]
fn renaming_without_new_values_keeps_the_name() {
    let config = FileConfig::default();
    let name = "20240101T120000==123--test-title__key1_key2.tar.gz".to_owned();
    let nothing = dn::resolve::ExplicitValues {
        identifier: None,
        signature: None,
        title: None,
        keywords: None,
        added_keywords: None,
        removed_keywords: None,
        extension: None,
    };

    let existing = name.to_filename(&config);
    let metadata = dn::resolve::builder_for_rename(&existing, None, &nothing)
        .build(&config)
        .unwrap();

    assert_eq!(name, dn::filename::render_filename(&metadata, &config));
}

#[test]
fn explicit_values_replace_those_of_front_matter_which_replace_those_of_the_name() {
    let config = FileConfig::default();
    let existing = "20240101T120000==123--old-title__key1.md"
        .to_owned()
        .to_filename(&config);
    let fields = dn::frontmatter_parse::PartialMetadata {
        format: dn::config::FrontmatterFormat::Yaml,
        title: Some("\"Title of the Front Matter\"".to_owned()),
        keywords: Some("\"key2\", \"key3\"".to_owned()),
        identifier: None,
    };
    let explicit = dn::resolve::ExplicitValues {
        identifier: None,
        signature: Some("9".to_owned()),
        title: None,
        keywords: None,
        added_keywords: Some("key0 key3".to_owned()),
        removed_keywords: Some("key2".to_owned()),
        extension: Some("ORG".to_owned()),
    };

    let from_name = dn::resolve::builder_for_rename(&existing, None, &explicit)
        .build(&config)
        .unwrap();
    let from_frontmatter = dn::resolve::builder_for_rename(&existing, Some(&fields), &explicit)
        .build(&config)
        .unwrap();
    let new = dn::resolve::builder_for_new(&explicit)
        .build_with(&config, "20250101T000000", new_year())
        .unwrap();

    assert_eq!(
        "20240101T120000==9--old-title__key0_key1_key3.org",
        dn::filename::render_filename(&from_name, &config)
    );
    assert_eq!(
        "20240101T120000==9--title-of-the-front-matter__key0_key3.org",
        dn::filename::render_filename(&from_frontmatter, &config)
    );
    assert_eq!(
        "20250101T000000==9__key0_key3.org",
        dn::filename::render_filename(&new, &config)
    );
}

#[test]
fn what_a_name_holds_normalises_to_what_was_written() {
    let illegal = vec!['!', ' '];

    assert_eq!(
        Some("my-title".to_owned()),
        parse_title("--my-title", &illegal)
    );
    assert_eq!(Some("tar.gz".to_owned()), parse_extension(".tar.gz", &illegal));
    assert_eq!(
        Some(strings(&["key1", "key2"])),
        parse_keywords("__key1_key2", &illegal)
    );
    assert_eq!(Some("1a3".to_owned()), parse_signature("==1a3", &illegal));
}
