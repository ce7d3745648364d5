use dn::config::{FilenameSegment, FrontmatterFormat};
use dn::filename::parse_segment;
use dn::format::{
    get_frontmatter_format, is_white_space, json_frontmatter_prefix, json_frontmatter_suffix,
    text_frontmatter_suffix, toml_frontmatter_container, yaml_frontmatter_container,
};
use regex::Regex;

/// A sequence of numbers that looks random and is the same in every run.
struct Numbers(u64);

impl Numbers {
    fn next(&mut self, below: usize) -> usize {
        self.0 = self
            .0
            .wrapping_mul(6364136223846793005)
            .wrapping_add(1442695040888963407);
        ((self.0 >> 33) as usize) % below
    }

    fn text(&mut self, alphabet: &[&str], longest: usize) -> String {
        let length = self.next(longest + 1);
        (0..length)
            .map(|_| alphabet[self.next(alphabet.len())])
            .collect()
    }
}

fn found(pattern: &str, text: &str) -> Option<String> {
    Regex::new(pattern)
        .unwrap()
        .find(text)
        .map(|m| m.as_str().to_owned())
}

#[test]
fn segments_are_found_as_their_patterns_find_them() {
    let patterns = [
        (FilenameSegment::Identifier, r"(\b[0-9]{8}T[0-9]{6}\b)"),
        (FilenameSegment::Signature, r"(==[^\@\-\_\.]*)"),
        (FilenameSegment::Title, r"(--[^\@\=\_\.]*)"),
        (FilenameSegment::Keywords, r"(__[^\@\=\-\.]*)"),
        (FilenameSegment::Extension, r"(\.[^\@\=\-\_]*)"),
    ];
    let names = [
        "",
        "20240101T120000==signature--title__keywords.txt",
        "20241201T121212==123=4--my-t171e-__test_key.temp.txt",
        "@@I am a nau==ghty __STR1NG!.txt",
        "My File!.txt",
        "--title@@20240101T120000==1__a_b.tar.gz",
        "20240101T120000__a.md",
        "x20240101T120000.md",
        "é20240101T120000.md",
        "20240101T120000é.md",
        "١20240101T120000.md",
        "20240101T120000\u{301}.md",
        "\u{200d}20240101T120000",
        "☃20240101T120000☃",
        "20240101T1200002",
        "020240101T120000",
        "20240101T12000",
        "=a=-b-_c_..",
        "===---___...@@@",
        "a.b==c--d__e@@f.g==h--i__j",
    ];
    for name in names {
        for (segment, pattern) in patterns {
            assert_eq!(
                found(pattern, name),
                parse_segment(name, segment),
                "{segment:?} in {name:?}"
            );
        }
    }

    let alphabet = [
        "@", "=", "-", "_", ".", "a", "T", "é", " ", "20240101T120000", "2024", "1",
    ];
    let mut numbers = Numbers(1);
    for _ in 0..400 {
        let name = numbers.text(&alphabet, 8);
        for (segment, pattern) in patterns {
            assert_eq!(
                found(pattern, &name),
                parse_segment(&name, segment),
                "{segment:?} in {name:?}"
            );
        }
    }
}

#[test]
fn marker_lines_are_found_as_their_patterns_find_them() {
    let rule = Regex::new(r"(?m)^\s*---------------------------\s*$").unwrap();
    let yaml = Regex::new(r"(?m)^\s*---\s*$").unwrap();
    let toml = Regex::new(r"(?m)^\s*\+\+\+\s*$").unwrap();
    let opening = Regex::new(r"(?m)^\s*\{\s*$").unwrap();
    let closing = Regex::new(r"(?m)^\s*\}\s*$").unwrap();
    let alphabet = [
        "-",
        "---",
        "+++",
        "+",
        "{",
        "}",
        " ",
        "\t",
        "\n",
        "\r",
        "\r\n",
        "\u{a0}",
        "\u{2028}",
        "a",
        "---------------------------",
        "--------------------------",
    ];
    let mut numbers = Numbers(2);
    for _ in 0..2000 {
        let text = numbers.text(&alphabet, 6);
        assert_eq!(rule.is_match(&text), text_frontmatter_suffix(&text), "{text:?}");
        assert_eq!(yaml.is_match(&text), yaml_frontmatter_container(&text), "{text:?}");
        assert_eq!(toml.is_match(&text), toml_frontmatter_container(&text), "{text:?}");
        assert_eq!(opening.is_match(&text), json_frontmatter_prefix(&text), "{text:?}");
        assert_eq!(closing.is_match(&text), json_frontmatter_suffix(&text), "{text:?}");
    }
}

#[test]
fn formats_are_told_by_the_first_and_the_last_line() {
    let rule = Regex::new(r"(?m)^\s*---------------------------\s*$").unwrap();
    let yaml = Regex::new(r"(?m)^\s*---\s*$").unwrap();
    let toml = Regex::new(r"(?m)^\s*\+\+\+\s*$").unwrap();
    let alphabet = [
        "---",
        "+++",
        "#+",
        "#+title: a",
        " ",
        "\n",
        "\r\n",
        "\r",
        "a",
        "---------------------------",
    ];
    let mut numbers = Numbers(3);
    let mut seen = [0; 5];
    for _ in 0..4000 {
        let text = numbers.text(&alphabet, 6);
        let lines: Vec<&str> = text.lines().collect();
        let first = lines.first();
        let last = lines.last();
        let is_text = last.map_or(false, |l| rule.is_match(l));
        let is_yaml =
            first.map_or(false, |l| yaml.is_match(l)) && last.map_or(false, |l| yaml.is_match(l));
        let is_toml =
            first.map_or(false, |l| toml.is_match(l)) && last.map_or(false, |l| toml.is_match(l));
        let is_org = lines.iter().any(|l| !l.is_empty())
            && lines.iter().all(|l| l.is_empty() || l.starts_with("#+"));
        let expected = match (is_text, is_yaml, is_toml, is_org) {
            (true, _, _, _) => Some(FrontmatterFormat::Text),
            (_, true, _, _) => Some(FrontmatterFormat::Yaml),
            (_, _, true, _) => Some(FrontmatterFormat::Toml),
            (_, _, _, true) => Some(FrontmatterFormat::Org),
            _ => None,
        };
        let formats = [is_text, is_yaml, is_toml, is_org];
        assert!(formats.iter().filter(|&&f| f).count() <= 1, "{text:?}");
        assert_eq!(expected, get_frontmatter_format(&text), "{text:?}");
        seen[formats.iter().position(|&f| f).unwrap_or(4)] += 1;
    }
    assert!(seen.iter().all(|&count| count > 0), "{seen:?}");
}

#[test]
fn white_space_is_that_of_unicode() {
    let space = Regex::new(r"^\s$").unwrap();
    for c in '\0'..=char::MAX {
        assert_eq!(c.is_whitespace(), is_white_space(c), "{c:?}");
    }
    for c in '\0'..='\u{3100}' {
        assert_eq!(space.is_match(&c.to_string()), is_white_space(c), "{c:?}");
    }
}
