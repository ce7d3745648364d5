use chrono::{Datelike, Local, Offset, TimeZone, Timelike};
use dn::clock::{creation_time_from, current_time, derive_creation_time, DateAndTime, Timestamp};
use dn::parse::parse_filename_details;

fn timestamp_of(time: chrono::DateTime<Local>) -> Timestamp {
    Timestamp {
        year: time.year(),
        month: time.month(),
        day: time.day(),
        hour: time.hour(),
        minute: time.minute(),
        second: time.second(),
        offset_seconds: time.offset().fix().local_minus_utc(),
    }
}

#[test]
fn test_non_dn_filename_parsing() {
    let parse_time = current_time();
    let filename = "My File!.txt";

    let expected_title_arg = "My File!".to_string();

    let result = parse_filename_details(filename, parse_time);

    assert_eq!(
        result.creation_time, parse_time,
        "Creation time should match parse time for non-DN files (ignoring subseconds). Expected {:?}, got {:?}",
        parse_time, result.creation_time
    );
    assert!(
        result.identifier_arg.is_none(),
        "Identifier should be None for non-DN files, got {:?}",
        result.identifier_arg
    );
    assert!(
        result.signature_arg.is_none(),
        "Signature should be None for non-DN files, got {:?}",
        result.signature_arg
    );
    assert_eq!(
        result.title_arg,
        Some(expected_title_arg.clone()),
        "Title should be the full filename (without the file extension) for non-DN files. Expected {:?}, got {:?}",
        Some(expected_title_arg.clone()),
        result.title_arg
    );
    assert!(
        result.keywords_arg.is_none(),
        "Keywords should be None for non-DN files, got {:?}",
        result.keywords_arg
    );
    assert_eq!(
        result.extension_arg,
        Some(".txt".to_string()),
        "Extension should be .txt. Expected {:?}, got {:?}",
        Some(".txt".to_string()),
        result.extension_arg
    );
}

#[test]
fn test_dn_filename_parsing() {
    let filename = "20241201T121212==123=4--my-t171e-__test_key.temp.txt";
    let parse_time = current_time();
    let expected_datetime = timestamp_of(Local.with_ymd_and_hms(2024, 12, 1, 12, 12, 12).unwrap());

    let result = parse_filename_details(filename, parse_time);

    assert_eq!(
        result.creation_time, expected_datetime,
        "Creation time should match the datetime encoded in the filename (ignoring subseconds). Expected {:?}, got {:?}",
        expected_datetime, result.creation_time
    );
    assert_eq!(
        result.identifier_arg,
        Some("20241201T121212".to_string()),
        "Identifier should match the datetime string. Expected {:?}, got {:?}",
        Some("20241201T121212".to_string()),
        result.identifier_arg
    );
    assert_eq!(
        result.signature_arg,
        Some("==123=4".to_string()),
        "Signature should match the == segment. Expected {:?}, got {:?}",
        Some("==123=4".to_string()),
        result.signature_arg
    );
    assert_eq!(
        result.title_arg,
        Some("--my-t171e-".to_string()),
        "Title should match the -- segment. Expected {:?}, got {:?}",
        Some("--my-t171e-".to_string()),
        result.title_arg
    );
    assert_eq!(
        result.keywords_arg,
        Some("__test_key".to_string()),
        "Keywords should match the __ segment. Expected {:?}, got {:?}",
        Some("__test_key".to_string()),
        result.keywords_arg
    );
    assert_eq!(
        result.extension_arg,
        Some(".temp.txt".to_string()),
        "Extension should match the full extension string. Expected {:?}, got {:?}",
        Some(".temp.txt".to_string()),
        result.extension_arg
    );
}

#[test]
fn test_derive_creation_time() {
    let identifier = "20241201T121212";
    let result = derive_creation_time(identifier);
    let expected = timestamp_of(Local.with_ymd_and_hms(2024, 12, 1, 12, 12, 12).unwrap());

    assert_eq!(
        result, expected,
        "DateTime parsing failed. Input: {}, Format: {}, Expected: {:?}, Got: {:?}",
        identifier,
        dn::clock::DN_IDENTIFIER_FORMAT,
        expected,
        result
    );
    assert_eq!((2024, 12, 1), (result.year, result.month, result.day));
    assert_eq!((12, 12, 12), (result.hour, result.minute, result.second));
}

#[test]
fn creation_time_falls_back_to_the_present() {
    let before = timestamp_of(Local::now());

    let result = derive_creation_time("20241301T121212");

    let after = timestamp_of(Local::now());
    let key = |t: &Timestamp| (t.year, t.month, t.day, t.hour, t.minute, t.second);
    assert!(key(&before) <= key(&result) || before.offset_seconds != result.offset_seconds);
    assert!(key(&result) <= key(&after) || after.offset_seconds != result.offset_seconds);
    assert_ne!((2024, 13), (result.year, result.month));
}

#[test]
fn foreign_name_has_no_segments_but_title_and_extension() {
    let parse_time = Timestamp {
        year: 2020,
        month: 2,
        day: 29,
        hour: 23,
        minute: 59,
        second: 58,
        offset_seconds: -3600,
    };

    let result = parse_filename_details("archive.tar.gz", parse_time);

    assert_eq!(parse_time, result.creation_time);
    assert_eq!(None, result.identifier_arg);
    assert_eq!(Some("archive".to_owned()), result.title_arg);
    assert_eq!(Some(".tar.gz".to_owned()), result.extension_arg);
}

fn is_reading(time: &Timestamp) -> bool {
    (1..=12).contains(&time.month)
        && (1..=31).contains(&time.day)
        && time.hour <= 23
        && time.minute <= 59
        && time.second <= 59
        && -86_400 < time.offset_seconds
        && time.offset_seconds < 86_400
}

#[test]
fn times_of_the_clock_have_their_fields_in_range() {
    assert!(is_reading(&current_time()));
    assert!(is_reading(&derive_creation_time("20241201T121212")));
    assert!(is_reading(&derive_creation_time("20240229T235959")));
    assert!(is_reading(&derive_creation_time("20230229T000000")));
    assert!(is_reading(&derive_creation_time("no identifier")));
    assert!(is_reading(&derive_creation_time("")));
}

#[test]
fn identifiers_of_the_clock_end_in_a_timestamp() {
    let identifier: Vec<char> = dn::clock::current_identifier().chars().collect();

    assert!(identifier.len() >= 15);
    let tail = &identifier[identifier.len() - 15..];
    for (at, c) in tail.iter().enumerate() {
        if at == 8 {
            assert_eq!('T', *c);
        } else {
            assert!(c.is_ascii_digit());
        }
    }
    let now = current_time();
    if (0..=9999).contains(&now.year) {
        assert_eq!(15, identifier.len());
        let year: String = tail[..4].iter().collect();
        let written = (now.year - 1..=now.year).map(|y| format!("{y:04}"));
        assert!(written.into_iter().any(|y| y == year));
    }
}

#[test]
fn creation_time_has_the_date_and_time_of_day_of_the_identifier() {
    let found = derive_creation_time("20241201T121212");
    let leap = derive_creation_time("20240229T235959");
    let none = derive_creation_time("20230229T000000");

    assert_eq!((2024, 12, 1), (found.year, found.month, found.day));
    assert_eq!((12, 12, 12), (found.hour, found.minute, found.second));
    assert_eq!((2024, 2, 29), (leap.year, leap.month, leap.day));
    assert_eq!((23, 59, 59), (leap.hour, leap.minute, leap.second));
    assert_ne!((2023, 2, 29), (none.year, none.month, none.day));
}

#[test]
fn creation_time_from_what_was_read_and_the_clock() {
    let read = DateAndTime {
        year: 2024,
        month: 3,
        day: 31,
        hour: 2,
        minute: 30,
        second: 0,
    };
    let now = Timestamp {
        year: 2025,
        month: 1,
        day: 1,
        hour: 0,
        minute: 0,
        second: 0,
        offset_seconds: 3600,
    };
    let then = Timestamp {
        year: 2024,
        month: 3,
        day: 31,
        hour: 2,
        minute: 30,
        second: 0,
        offset_seconds: 7200,
    };

    assert_eq!(then, creation_time_from(Some((read, Some(7200))), now));
    assert_eq!(
        Timestamp {
            offset_seconds: 3600,
            ..then
        },
        creation_time_from(Some((read, None)), now)
    );
    assert_eq!(now, creation_time_from(None, now));
}
