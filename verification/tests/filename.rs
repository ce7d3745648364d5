use dn::clock::{current_identifier, DN_IDENTIFIER_FORMAT};
use dn::config::{FileConfig, FilenameSegment};
use dn::filename::{
    decode_filename, find_fragment, find_identifier, find_marker, parse_segment, prefix_segment,
    render_filename, segment_marker, Filename, ToFilename,
};
use dn::metadata::FileMetadata;

fn chars(text: &str) -> Vec<char> {
    text.chars().collect()
}

fn full_metadata() -> FileMetadata {
    FileMetadata {
        identifier: "20240101T120000".to_owned(),
        signature: Some("123".to_owned()),
        title: Some("test-title".to_owned()),
        keywords: Some(vec!["key1".to_owned(), "key2".to_owned()]),
        extension: "tar.gz".to_owned(),
        ..Default::default()
    }
}

fn config_with_order(segment_order: [FilenameSegment; 5]) -> FileConfig {
    FileConfig {
        segment_order,
        ..FileConfig::default()
    }
}

#[test]
fn string_to_filename_with_all_segments() {
    // Arrange
    let input = "20240101T120000==signature--title__keywords.txt".to_owned();
    let config = FileConfig::default();
    let expected = Filename {
        identifier: "20240101T120000".to_owned(),
        signature: Some("==signature".to_owned()),
        title: Some("--title".to_owned()),
        keywords: Some("__keywords".to_owned()),
        extension: ".txt".to_owned(),
        segment_order: Default::default(),
    };

    // Act
    let result = input.to_filename(&config);

    // Assert
    assert_eq!(expected, result);
}

#[test]
fn string_to_filename_non_dn_format() {
    // Arrange
    let input = "@@I am a nau==ghty __STR1NG!.txt".to_owned();
    let config = FileConfig::default();
    let before = chrono::Local::now().format(DN_IDENTIFIER_FORMAT).to_string();

    // Act
    let result = input.to_filename(&config);

    // Assert
    let after = chrono::Local::now().format(DN_IDENTIFIER_FORMAT).to_string();
    assert!(before <= result.identifier && result.identifier <= after);
    let expected = Filename {
        identifier: result.identifier.clone(),
        signature: None,
        title: Some("@@I am a nau==ghty __STR1NG!".to_owned()),
        keywords: None,
        extension: ".txt".to_owned(),
        segment_order: Default::default(),
    };
    assert_eq!(expected, result);
}

#[test]
fn metadata_to_filename_full() {
    // Arrange
    let config = FileConfig::default();
    let metadata = FileMetadata {
        identifier: "20240101T120000".to_owned(),
        signature: Some("test-sig".to_owned()),
        title: Some("test-title".to_owned()),
        keywords: Some(vec!["key1".to_owned(), "key2".to_owned()]),
        extension: "txt".to_owned(),
        ..Default::default()
    };
    let expected = Filename {
        identifier: "20240101T120000".to_owned(),
        signature: Some("==testsig".to_owned()),
        title: Some("--test-title".to_owned()),
        keywords: Some("__key1_key2".to_owned()),
        extension: ".txt".to_owned(),
        segment_order: config.segment_order,
    };

    let expected_keywords = vec!["key1", "key2"];

    // Act
    let result = metadata.to_filename(&config);
    let result_keywords = result
        .keywords
        .as_ref()
        .unwrap()
        .split('_')
        .filter(|&w| !w.is_empty())
        .collect::<Vec<_>>();

    // Assert
    assert_eq!(expected.identifier, result.identifier);
    assert_eq!(expected.signature, result.signature);
    assert_eq!(expected.title, result.title);
    assert_eq!(expected_keywords, result_keywords);
    assert_eq!(expected.extension, result.extension);
    assert_eq!(expected, result);
}

#[test]
fn filename_display_format() {
    // Arrange
    let filename = Filename {
        identifier: "20240101T120000".to_owned(),
        signature: Some("==signature".to_owned()),
        title: Some("--title".to_owned()),
        keywords: Some("__keywords".to_owned()),
        extension: ".txt".to_owned(),
        segment_order: [
            FilenameSegment::Identifier,
            FilenameSegment::Signature,
            FilenameSegment::Title,
            FilenameSegment::Keywords,
            FilenameSegment::Extension,
        ],
    };
    let expected = "20240101T120000==signature--title__keywords.txt";

    // Act
    let result = filename.to_string();

    // Assert
    assert_eq!(expected, result);
}

#[test]
fn parse_segment_extracts_correct_parts() {
    // Arrange
    let filename = "20240101T120000==signature--title__keywords.txt";
    let test_cases = [
        (
            FilenameSegment::Identifier,
            Some("20240101T120000".to_owned()),
        ),
        (FilenameSegment::Signature, Some("==signature".to_owned())),
        (FilenameSegment::Title, Some("--title".to_owned())),
        (FilenameSegment::Keywords, Some("__keywords".to_owned())),
        (FilenameSegment::Extension, Some(".txt".to_owned())),
    ];

    for (segment, expected) in test_cases {
        // Act
        let result = parse_segment(filename, segment);

        // Assert
        assert_eq!(expected, result);
    }
}

#[test]
fn prefix_segment_adds_correct_prefix() {
    // Arrange
    let test_cases = [
        (FilenameSegment::Identifier, "@@test"),
        (FilenameSegment::Signature, "==test"),
        (FilenameSegment::Title, "--test"),
        (FilenameSegment::Keywords, "__test"),
        (FilenameSegment::Extension, ".test"),
    ];
    let input = "test";

    for (segment, expected) in test_cases {
        // Act
        let result = prefix_segment(input, segment);

        // Assert
        assert_eq!(expected, result);
    }
}

#[test]
fn segment_markers() {
    assert_eq!('@', segment_marker(FilenameSegment::Identifier));
    assert_eq!('=', segment_marker(FilenameSegment::Signature));
    assert_eq!('-', segment_marker(FilenameSegment::Title));
    assert_eq!('_', segment_marker(FilenameSegment::Keywords));
    assert_eq!('.', segment_marker(FilenameSegment::Extension));
    assert_eq!("..", prefix_segment(".", FilenameSegment::Extension));
    assert_eq!("==", prefix_segment("", FilenameSegment::Signature));
}

#[test]
fn absent_segments_are_left_out_of_the_name() {
    let filename = Filename {
        identifier: "20240101T120000".to_owned(),
        signature: None,
        title: Some("--title".to_owned()),
        keywords: None,
        extension: ".txt".to_owned(),
        segment_order: [
            FilenameSegment::Title,
            FilenameSegment::Signature,
            FilenameSegment::Keywords,
            FilenameSegment::Identifier,
            FilenameSegment::Extension,
        ],
    };

    assert_eq!("--title20240101T120000.txt", filename.to_string());
    assert_eq!("", Filename::default().to_string().as_str());
}

#[test]
fn identifier_has_its_marker_unless_it_comes_first() {
    let metadata = full_metadata();
    let config = config_with_order([
        FilenameSegment::Title,
        FilenameSegment::Identifier,
        FilenameSegment::Keywords,
        FilenameSegment::Signature,
        FilenameSegment::Extension,
    ]);

    let result = metadata.to_filename(&config);

    assert_eq!("@@20240101T120000", result.identifier);
    assert_eq!(
        "--test-title@@20240101T120000__key1_key2==123.tar.gz",
        result.to_string()
    );
    assert_eq!(result.to_string(), render_filename(&metadata, &config));
}

#[test]
fn rendered_metadata_is_found_again_under_every_order_that_the_grammar_carries() {
    let metadata = full_metadata();
    let segments = [
        FilenameSegment::Identifier,
        FilenameSegment::Signature,
        FilenameSegment::Title,
        FilenameSegment::Keywords,
        FilenameSegment::Extension,
    ];
    let mut tried = 0;
    for a in 0..5 {
        for b in 0..5 {
            for c in 0..5 {
                for d in 0..5 {
                    for e in 0..5 {
                        let picks = [a, b, c, d, e];
                        if (0..5).any(|s| picks.iter().filter(|&&p| p == s).count() != 1) {
                            continue;
                        }
                        let order = [
                            segments[a],
                            segments[b],
                            segments[c],
                            segments[d],
                            segments[e],
                        ];
                        let keywords_follow_identifier = (0..4).any(|i| {
                            order[i] == FilenameSegment::Identifier
                                && order[i + 1] == FilenameSegment::Keywords
                        });
                        let config = config_with_order(order);
                        let written = metadata.to_filename(&config);
                        let found = decode_filename(&written.to_string(), "fresh", &config);
                        if keywords_follow_identifier {
                            assert_eq!("fresh", found.identifier);
                        } else {
                            tried += 1;
                            assert_eq!("20240101T120000", found.identifier);
                            assert_eq!(written.signature, found.signature);
                            assert_eq!(written.title, found.title);
                            assert_eq!(written.keywords, found.keywords);
                            assert_eq!(written.extension, found.extension);
                        }
                    }
                }
            }
        }
    }
    assert_eq!(96, tried);
}

#[test]
fn a_value_is_not_taken_for_the_identifier() {
    let metadata = FileMetadata {
        title: Some("20230101T000000".to_owned()),
        ..full_metadata()
    };
    let config = config_with_order([
        FilenameSegment::Title,
        FilenameSegment::Identifier,
        FilenameSegment::Signature,
        FilenameSegment::Keywords,
        FilenameSegment::Extension,
    ]);

    let written = metadata.to_filename(&config).to_string();
    let found = decode_filename(&written, "fresh", &config);

    assert_eq!(
        "--20230101t000000@@20240101T120000==123__key1_key2.tar.gz",
        written
    );
    assert_eq!("20240101T120000", found.identifier);
    assert_eq!(Some("--20230101t000000".to_owned()), found.title);
}

#[test]
fn values_are_normalised_when_they_are_written() {
    let config = FileConfig::default();
    let metadata = FileMetadata {
        identifier: "20240101T120000".to_owned(),
        signature: Some("123".to_owned()),
        title: Some("Test Title".to_owned()),
        keywords: Some(vec!["key1".to_owned(), "key2".to_owned()]),
        extension: "md".to_owned(),
        ..Default::default()
    };
    let untidy = FileMetadata {
        identifier: "20240101T120000".to_owned(),
        signature: Some("Test-Sig".to_owned()),
        title: Some("a.b  C_d!".to_owned()),
        keywords: Some(vec!["KEY one".to_owned(), "".to_owned(), "two.three".to_owned()]),
        extension: ".Tar.GZ".to_owned(),
        ..Default::default()
    };
    let emptied = FileMetadata {
        identifier: "20240101T120000".to_owned(),
        signature: Some("@=".to_owned()),
        title: Some("- -".to_owned()),
        keywords: Some(vec!["_".to_owned()]),
        extension: "..".to_owned(),
        ..Default::default()
    };

    assert_eq!(
        "20240101T120000==123--test-title__key1_key2.md",
        render_filename(&metadata, &config)
    );
    assert_eq!(
        "20240101T120000==testsig--ab-cd__key_one_twothree.tar.gz",
        render_filename(&untidy, &config)
    );
    assert_eq!("20240101T120000.txt", render_filename(&emptied, &config));
    assert_eq!(None, emptied.to_filename(&config).signature);
    assert_eq!(None, emptied.to_filename(&config).title);
    assert_eq!(None, emptied.to_filename(&config).keywords);
}

#[test]
fn foreign_filename_fallback() {
    let config = FileConfig::default();

    let result = decode_filename("My File!.txt", "20250101T000000", &config);

    assert_eq!("20250101T000000", result.identifier);
    assert_eq!(None, result.signature);
    assert_eq!(Some("My File!".to_owned()), result.title);
    assert_eq!(None, result.keywords);
    assert_eq!(".txt", result.extension);
    assert_eq!(None, parse_segment("My File!.txt", FilenameSegment::Identifier));
    assert_eq!(
        Some("txt".to_owned()),
        dn::sanitise::parse_extension(&result.extension, &config.illegal_characters)
    );
}

#[test]
fn values_of_built_metadata_hold_no_foreign_separator() {
    let segments = [
        FilenameSegment::Extension,
        FilenameSegment::Keywords,
        FilenameSegment::Title,
        FilenameSegment::Signature,
        FilenameSegment::Identifier,
    ];
    let config = config_with_order(segments);
    let metadata = FileMetadata::builder()
        .with_identifier(Some("20240101T120000"))
        .with_signature(Some("a=b-c_d.e@f g"))
        .with_title(Some("A=b-c_d.e@f g"))
        .with_keywords(Some("a=b-c_d.e@f g"))
        .with_extension(Some("a=b-c_d.e@f g"))
        .build(&config)
        .unwrap();

    let name = metadata.to_filename(&config);

    assert_eq!(Some("==abcdefg".to_owned()), name.signature);
    assert_eq!(Some("--ab-cdef-g".to_owned()), name.title);
    assert_eq!(Some("__abc_def_g".to_owned()), name.keywords);
    assert_eq!(".abcd.ef.g", name.extension);
    assert_eq!(
        ".abcd.ef.g__abc_def_g--ab-cdef-g==abcdefg@@20240101T120000",
        name.to_string()
    );
}

#[test]
fn name_without_extension_gets_the_default_one() {
    let config = FileConfig {
        default_extension: "org".to_owned(),
        ..FileConfig::default()
    };

    let foreign = decode_filename("notes", "20250101T000000", &config);
    let native = decode_filename("20240101T120000--title", "20250101T000000", &config);

    assert_eq!("org", foreign.extension);
    assert_eq!(Some("notes".to_owned()), foreign.title);
    assert_eq!("org", native.extension);
    assert_eq!("20240101T120000", native.identifier);
    assert_eq!(Some("--title".to_owned()), native.title);
}

#[test]
fn identifier_needs_word_boundaries() {
    assert_eq!(Some(0), find_identifier(&chars("20240101T120000")));
    assert_eq!(Some(2), find_identifier(&chars("@@20240101T120000--a")));
    assert_eq!(Some(1), find_identifier(&chars(" 20240101T120000 ")));
    assert_eq!(None, find_identifier(&chars("x20240101T120000")));
    assert_eq!(None, find_identifier(&chars("20240101T120000x")));
    assert_eq!(None, find_identifier(&chars("20240101T1200001")));
    assert_eq!(None, find_identifier(&chars("20240101T120000__a")));
    assert_eq!(None, find_identifier(&chars("é20240101T120000")));
    assert_eq!(None, find_identifier(&chars("20240101T120000é")));
    assert_eq!(Some(3), find_identifier(&chars("→→→20240101T120000→")));
    assert_eq!(None, find_identifier(&chars("20240101t120000")));
    assert_eq!(None, find_identifier(&chars("2024011T120000")));
    assert_eq!(None, find_identifier(&chars("")));
    assert_eq!(
        Some(17),
        find_identifier(&chars("x20240101T120000 20250101T000000"))
    );
}

#[test]
fn segments_are_found_anywhere_in_a_name() {
    let name = chars("a==b=c--d-e__f_g.h.i@@j");

    assert_eq!(Some(1), find_marker(&name, FilenameSegment::Signature));
    assert_eq!(Some(6), find_marker(&name, FilenameSegment::Title));
    assert_eq!(Some(11), find_marker(&name, FilenameSegment::Keywords));
    assert_eq!(Some(16), find_marker(&name, FilenameSegment::Extension));
    assert_eq!(Some(20), find_marker(&name, FilenameSegment::Identifier));
    assert_eq!(
        Some("==b=c".to_owned()),
        find_fragment(&name, FilenameSegment::Signature)
    );
    assert_eq!(
        Some("--d-e".to_owned()),
        find_fragment(&name, FilenameSegment::Title)
    );
    assert_eq!(
        Some("__f_g".to_owned()),
        find_fragment(&name, FilenameSegment::Keywords)
    );
    assert_eq!(
        Some(".h.i".to_owned()),
        find_fragment(&name, FilenameSegment::Extension)
    );
    assert_eq!(None, find_fragment(&chars("a=b-c_d"), FilenameSegment::Title));
    assert_eq!(
        Some("--".to_owned()),
        find_fragment(&chars("a--"), FilenameSegment::Title)
    );
}

#[test]
fn fresh_identifiers_have_the_shape_of_an_identifier() {
    let identifier = current_identifier();

    assert_eq!(
        Some(identifier.clone()),
        parse_segment(&identifier, FilenameSegment::Identifier)
    );
}
