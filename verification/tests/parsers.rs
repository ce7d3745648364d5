use std::vec;

use dn::parsers::{
    segment_extension, segment_identifier, segment_keywords, segment_signature, segment_title,
    SegmentError,
};

#[test]
fn identifier() {
    // Arrange
    let mut input_valid_1 = "20241212T121212";
    let mut input_valid_2 = "@@20241212T121212";
    let mut input_invalid = "20241212@121212";
    let expected = "20241212T121212".to_owned();

    // Act
    let result_1 = segment_identifier(&mut input_valid_1);
    let result_2 = segment_identifier(&mut input_valid_2);
    let result_3 = segment_identifier(&mut input_invalid);

    // Assert
    assert_eq!(expected, result_1.unwrap());
    assert_eq!(expected, result_2.unwrap());
    assert!(result_3.is_err());
}

#[test]
fn signature() {
    // Arrange
    let mut input_valid = "==1ab";
    let mut input_invalid = "1ab";
    let expected = "1ab".to_owned();

    // Act
    let result_1 = segment_signature(&mut input_valid);
    let result_2 = segment_signature(&mut input_invalid);

    // Assert
    assert_eq!(expected, result_1.unwrap());
    assert!(result_2.is_err());
}

#[test]
fn title() {
    // Arrange
    let mut input_valid = "--this-title";
    let mut input_invalid = "this-title";
    let expected = "this-title".to_owned();

    // Act
    let result_1 = segment_title(&mut input_valid);
    let result_2 = segment_title(&mut input_invalid);

    // Assert
    assert_eq!(expected, result_1.unwrap());
    assert!(result_2.is_err());
}

#[test]
fn keywords() {
    // Arrange
    let mut input_valid = "__foo_bar";
    let mut input_invalid = "foo_bar";
    let expected = vec!["foo", "bar"];

    // Act
    let result_1 = segment_keywords(&mut input_valid);
    let result_2 = segment_keywords(&mut input_invalid);

    // Assert
    assert_eq!(expected, result_1.unwrap());
    assert!(result_2.is_err());
}

#[test]
fn extension() {
    // Arrange
    let mut input_valid = ".txt";
    let mut input_invalid = "__some_keys";
    let expected = "txt".to_owned();

    // Act
    let result_1 = segment_extension(&mut input_valid);
    let result_2 = segment_extension(&mut input_invalid);

    // Assert
    assert_eq!(expected, result_1.unwrap());
    assert!(result_2.is_err());
}

#[test]
fn segments_are_read_one_after_another() {
    let mut input = "@@20241212T121212==1=2--a-title__foo_bar.tar.gz";

    assert_eq!(Ok("20241212T121212".to_owned()), segment_identifier(&mut input));
    assert_eq!("==1=2--a-title__foo_bar.tar.gz", input);
    assert_eq!(Ok("1=2".to_owned()), segment_signature(&mut input));
    assert_eq!("--a-title__foo_bar.tar.gz", input);
    assert_eq!(Ok("a-title".to_owned()), segment_title(&mut input));
    assert_eq!("__foo_bar.tar.gz", input);
    assert_eq!(
        Ok(vec!["foo".to_owned(), "bar".to_owned()]),
        segment_keywords(&mut input)
    );
    assert_eq!(".tar.gz", input);
    assert_eq!(Ok("tar.gz".to_owned()), segment_extension(&mut input));
    assert_eq!("", input);
}

#[test]
fn failing_parsers_say_why_and_leave_the_input() {
    let mut no_marker = "1ab";
    let mut no_value = "==--title";
    let mut at_end = "--";
    let mut no_timestamp = "@@2024";
    let mut no_word = "___a";
    let mut one_dot = "..";

    assert_eq!(Err(SegmentError::MissingMarker), segment_signature(&mut no_marker));
    assert_eq!("1ab", no_marker);
    assert_eq!(Err(SegmentError::MissingValue), segment_signature(&mut no_value));
    assert_eq!("==--title", no_value);
    assert_eq!(Err(SegmentError::MissingMarker), segment_signature(&mut at_end));
    assert_eq!(Err(SegmentError::MissingValue), segment_title(&mut at_end));
    assert_eq!("--", at_end);
    assert_eq!(Err(SegmentError::MissingValue), segment_identifier(&mut no_timestamp));
    assert_eq!("@@2024", no_timestamp);
    assert_eq!(Err(SegmentError::MissingValue), segment_keywords(&mut no_word));
    assert_eq!("___a", no_word);
    assert_eq!(Err(SegmentError::MissingMarker), segment_keywords(&mut one_dot));
    assert_eq!(Ok(".".to_owned()), segment_extension(&mut one_dot));
    assert_eq!("", one_dot);
}

#[test]
fn keywords_end_where_no_word_follows_an_underscore() {
    let mut trailing = "__foo_";
    let mut doubled = "__foo__bar";
    let mut hyphen = "__foo-bar";
    let mut umlaut = "__größe_maß.txt";

    assert_eq!(Ok(vec!["foo".to_owned()]), segment_keywords(&mut trailing));
    assert_eq!("_", trailing);
    assert_eq!(Ok(vec!["foo".to_owned()]), segment_keywords(&mut doubled));
    assert_eq!("__bar", doubled);
    assert_eq!(Ok(vec!["foo".to_owned()]), segment_keywords(&mut hyphen));
    assert_eq!("-bar", hyphen);
    assert_eq!(
        Ok(vec!["größe".to_owned(), "maß".to_owned()]),
        segment_keywords(&mut umlaut)
    );
    assert_eq!(".txt", umlaut);
}
