//! Recognition of front matter: where the first paragraph of a note ends,
//! and which of the four formats a block of text is written in.

use vstd::prelude::*;
use crate::config::{text_of, FrontmatterFormat};
use crate::filename::string_of_range;
use crate::text::chars_of;

verus! {

/// Whether `c` is white space of Unicode.
pub open spec fn is_space(c: char) -> bool {
    ('\u{9}' <= c && c <= '\u{d}') || c == ' ' || c == '\u{85}' || c == '\u{a0}' || c
        == '\u{1680}' || ('\u{2000}' <= c && c <= '\u{200a}') || c == '\u{2028}' || c
        == '\u{2029}' || c == '\u{202f}' || c == '\u{205f}' || c == '\u{3000}'
}

/// Whether `pattern` stands in `text` at `at`.
pub open spec fn occurs_at(text: Seq<char>, pattern: Seq<char>, at: int) -> bool {
    0 <= at && at + pattern.len() <= text.len() && text.subrange(at, at + pattern.len())
        == pattern
}

/// Where `pattern` first stands in `text` at or behind `from`.
pub open spec fn first_occurrence(text: Seq<char>, pattern: Seq<char>, from: int) -> Option<int>
    decreases text.len() + 1 - from,
{
    if from < 0 || from + pattern.len() > text.len() {
        None
    } else if occurs_at(text, pattern, from) {
        Some(from)
    } else {
        first_occurrence(text, pattern, from + 1)
    }
}

/// An empty line between two lines that end in a line feed.
pub open spec fn blank_line() -> Seq<char> {
    seq!['\n', '\n']
}

/// An empty line between two lines that end in carriage return and line
/// feed.
pub open spec fn blank_line_with_returns() -> Seq<char> {
    seq!['\r', '\n', '\r', '\n']
}

/// Where the first blank line of `text` begins and where it ends. A blank
/// line of line feeds is looked for first, anywhere in the text; one with
/// carriage returns only where there is none of the former.
pub open spec fn first_blank_line(text: Seq<char>) -> Option<(int, int)> {
    match first_occurrence(text, blank_line(), 0) {
        Some(at) => Some((at, at + 2)),
        None => match first_occurrence(text, blank_line_with_returns(), 0) {
            Some(at) => Some((at, at + 4)),
            None => None,
        },
    }
}

/// The text before the first blank line, where there is a blank line and
/// something before it.
pub open spec fn first_paragraph(text: Seq<char>) -> Option<Seq<char>> {
    match first_blank_line(text) {
        Some((start, end)) => if start > 0 {
            Some(text.take(start))
        } else {
            None
        },
        None => None,
    }
}

/// The stretches of `text` between line feeds.
pub open spec fn split_lines(text: Seq<char>) -> Seq<Seq<char>>
    decreases text.len(),
{
    if text.len() == 0 {
        seq![Seq::<char>::empty()]
    } else {
        let before = split_lines(text.drop_last());
        if text.last() == '\n' {
            before.push(Seq::<char>::empty())
        } else {
            before.drop_last().push(before.last().push(text.last()))
        }
    }
}

/// `line` without a carriage return at its end.
pub open spec fn without_return(line: Seq<char>) -> Seq<char> {
    if line.len() > 0 && line.last() == '\r' {
        line.drop_last()
    } else {
        line
    }
}

/// The lines of `text`, without their line endings: a line ends in a line
/// feed, which a carriage return may precede; what stands behind the last
/// line feed is a line if it is not empty.
pub open spec fn lines_of(text: Seq<char>) -> Seq<Seq<char>> {
    let parts = split_lines(text);
    let ended = parts.drop_last().map_values(|line: Seq<char>| without_return(line));
    if parts.last().len() == 0 {
        ended
    } else {
        ended.push(parts.last())
    }
}

/// Whether, going left from `at` over white space, one comes to the start of
/// a line.
pub open spec fn reaches_line_start(text: Seq<char>, at: int) -> bool
    decreases at,
{
    at <= 0 || at > text.len() || text[at - 1] == '\n' || (is_space(text[at - 1])
        && reaches_line_start(text, at - 1))
}

/// Whether, going right from `at` over white space, one comes to the end of
/// a line.
pub open spec fn reaches_line_end(text: Seq<char>, at: int) -> bool
    decreases text.len() - at,
{
    at < 0 || at >= text.len() || text[at] == '\n' || (is_space(text[at]) && reaches_line_end(
        text,
        at + 1,
    ))
}

/// Whether `marker` stands at `at` with nothing but white space beside it on
/// its line.
pub open spec fn marker_line_at(text: Seq<char>, marker: Seq<char>, at: int) -> bool {
    occurs_at(text, marker, at) && reaches_line_start(text, at) && reaches_line_end(
        text,
        at + marker.len(),
    )
}

/// Whether some line of `text` holds `marker` and nothing but white space
/// beside it.
pub open spec fn has_marker_line(text: Seq<char>, marker: Seq<char>) -> bool {
    exists|at: int| marker_line_at(text, marker, at)
}

/// The rule that closes front matter in plain text: 27 hyphens.
pub open spec fn text_rule() -> Seq<char> {
    Seq::new(27, |i: int| '-')
}

/// The line that opens and closes front matter in YAML.
pub open spec fn yaml_fence() -> Seq<char> {
    seq!['-', '-', '-']
}

/// The line that opens and closes front matter in TOML.
pub open spec fn toml_fence() -> Seq<char> {
    seq!['+', '+', '+']
}

/// What every line of front matter in Org begins with.
pub open spec fn org_key_start() -> Seq<char> {
    seq!['#', '+']
}

/// Whether `line` begins with `start`.
pub open spec fn begins_with(line: Seq<char>, start: Seq<char>) -> bool {
    occurs_at(line, start, 0)
}

/// Whether the last line of `text` is the rule of plain-text front matter.
pub open spec fn is_text_block(text: Seq<char>) -> bool {
    let lines = lines_of(text);
    lines.len() > 0 && has_marker_line(lines.last(), text_rule())
}

/// Whether the first and the last line of `text` are both `fence`.
pub open spec fn is_fenced_block(text: Seq<char>, fence: Seq<char>) -> bool {
    let lines = lines_of(text);
    lines.len() > 0 && has_marker_line(lines.first(), fence) && has_marker_line(
        lines.last(),
        fence,
    )
}

/// Whether `text` has a line that is not empty, and every such line begins
/// with `#+`.
pub open spec fn is_org_block(text: Seq<char>) -> bool {
    let lines = lines_of(text);
    &&& exists|j: int| 0 <= j < lines.len() && (#[trigger] lines[j]).len() > 0
    &&& forall|j: int|
        0 <= j < lines.len() && (#[trigger] lines[j]).len() > 0 ==> begins_with(
            lines[j],
            org_key_start(),
        )
}

/// The format of front matter that a block of text is written in, if any.
pub open spec fn frontmatter_format_of(text: Seq<char>) -> Option<FrontmatterFormat> {
    if is_text_block(text) {
        Some(FrontmatterFormat::Text)
    } else if is_fenced_block(text, yaml_fence()) {
        Some(FrontmatterFormat::Yaml)
    } else if is_fenced_block(text, toml_fence()) {
        Some(FrontmatterFormat::Toml)
    } else if is_org_block(text) {
        Some(FrontmatterFormat::Org)
    } else {
        None
    }
}

/// `text`, or `None` where it is empty.
pub open spec fn unless_empty(text: Seq<char>) -> Option<Seq<char>> {
    if text.len() == 0 {
        None
    } else {
        Some(text)
    }
}

/// Front matter and body of a note. The text before the first blank line is
/// front matter if it is written in one of the four formats, and the body is
/// what follows the blank line. Otherwise all of the text is body. An empty
/// body is `None`.
pub open spec fn separated(text: Seq<char>) -> (Option<Seq<char>>, Option<Seq<char>>) {
    match first_blank_line(text) {
        Some((start, end)) => if start > 0 && frontmatter_format_of(text.take(start)) is Some {
            (Some(text.take(start)), unless_empty(text.skip(end)))
        } else {
            (None, unless_empty(text))
        },
        None => (None, unless_empty(text)),
    }
}

/// The views of a sequence of character vectors.
pub open spec fn line_views(lines: Seq<Vec<char>>) -> Seq<Seq<char>> {
    Seq::new(lines.len(), |i: int| lines[i]@)
}

/// Tells whether `c` is white space of Unicode.
pub fn is_white_space(c: char) -> (yes: bool)
    ensures
        yes == is_space(c),
{
    ('\u{9}' <= c && c <= '\u{d}') || c == ' ' || c == '\u{85}' || c == '\u{a0}' || c
        == '\u{1680}' || ('\u{2000}' <= c && c <= '\u{200a}') || c == '\u{2028}' || c
        == '\u{2029}' || c == '\u{202f}' || c == '\u{205f}' || c == '\u{3000}'
}

fn stands_at(chars: &Vec<char>, pattern: &Vec<char>, at: usize) -> (yes: bool)
    requires
        at + pattern.len() <= chars.len(),
    ensures
        yes == occurs_at(chars@, pattern@, at as int),
{
    let mut k: usize = 0;
    while k < pattern.len()
        invariant
            k <= pattern.len(),
            at + pattern.len() <= chars.len(),
            forall|j: int| 0 <= j < k ==> chars@[at + j] == pattern@[j],
        decreases pattern.len() - k,
    {
        if chars[at + k] != pattern[k] {
            assert(chars@.subrange(at as int, at + pattern.len())[k as int] != pattern@[k as int]);
            return false;
        }
        k += 1;
    }
    assert(chars@.subrange(at as int, at + pattern.len()) =~= pattern@);
    true
}

/// Finds where `pattern` first stands in `chars`.
fn find_first(chars: &Vec<char>, pattern: &Vec<char>) -> (found: Option<usize>)
    requires
        pattern.len() > 0,
    ensures
        match found {
            Some(at) => first_occurrence(chars@, pattern@, 0) == Some(at as int) && at
                + pattern.len() <= chars.len(),
            None => first_occurrence(chars@, pattern@, 0) is None,
        },
{
    if chars.len() < pattern.len() {
        return None;
    }
    let mut at: usize = 0;
    while at <= chars.len() - pattern.len()
        invariant
            chars.len() >= pattern.len() > 0,
            at <= chars.len() - pattern.len() + 1,
            first_occurrence(chars@, pattern@, 0) == first_occurrence(chars@, pattern@, at as int),
        decreases chars.len() - at,
    {
        if stands_at(chars, pattern, at) {
            return Some(at);
        }
        at += 1;
    }
    None
}

fn blank_line_chars() -> (pattern: Vec<char>)
    ensures
        pattern@ == blank_line(),
{
    let pattern = vec!['\n', '\n'];
    assert(pattern@ =~= blank_line());
    pattern
}

fn blank_line_with_returns_chars() -> (pattern: Vec<char>)
    ensures
        pattern@ == blank_line_with_returns(),
{
    let pattern = vec!['\r', '\n', '\r', '\n'];
    assert(pattern@ =~= blank_line_with_returns());
    pattern
}

/// Finds the first blank line: where it begins and where it ends.
pub fn find_blank_line(chars: &Vec<char>) -> (found: Option<(usize, usize)>)
    ensures
        match found {
            Some((start, end)) => first_blank_line(chars@) == Some((start as int, end as int))
                && start <= end <= chars.len(),
            None => first_blank_line(chars@) is None,
        },
{
    match find_first(chars, &blank_line_chars()) {
        Some(at) => Some((at, at + 2)),
        None => match find_first(chars, &blank_line_with_returns_chars()) {
            Some(at) => Some((at, at + 4)),
            None => None,
        },
    }
}

/// The first paragraph of a text: what stands before its first blank line.
/// `None` where there is no blank line or nothing before it.
pub fn get_first_paragraph(input_content: &str) -> (paragraph: Option<String>)
    ensures
        text_of(paragraph) == first_paragraph(input_content@),
{
    let chars = chars_of(input_content);
    match find_blank_line(&chars) {
        Some((start, end)) => {
            if start > 0 {
                assert(chars@.subrange(0, start as int) =~= chars@.take(start as int));
                Some(string_of_range(&chars, 0, start))
            } else {
                None
            }
        },
        None => None,
    }
}

proof fn lemma_split_lines_len(text: Seq<char>)
    ensures
        split_lines(text).len() >= 1,
    decreases text.len(),
{
    if text.len() > 0 {
        lemma_split_lines_len(text.drop_last());
    }
}

/// Splits `chars` into its lines, without their line endings.
pub fn split_into_lines(chars: &Vec<char>) -> (lines: Vec<Vec<char>>)
    ensures
        line_views(lines@) == lines_of(chars@),
{
    let mut done: Vec<Vec<char>> = Vec::new();
    let mut current: Vec<char> = Vec::new();
    let mut i: usize = 0;
    proof {
        assert(chars@.take(0) =~= Seq::<char>::empty());
        assert(line_views(done@) =~= split_lines(chars@.take(0)).drop_last().map_values(
            |line: Seq<char>| without_return(line),
        ));
    }
    while i < chars.len()
        invariant
            i <= chars.len(),
            line_views(done@) == split_lines(chars@.take(i as int)).drop_last().map_values(
                |line: Seq<char>| without_return(line),
            ),
            current@ == split_lines(chars@.take(i as int)).last(),
        decreases chars.len() - i,
    {
        let c = chars[i];
        let ghost before = split_lines(chars@.take(i as int));
        proof {
            lemma_split_lines_len(chars@.take(i as int));
            assert(chars@.take(i + 1).drop_last() =~= chars@.take(i as int));
        }
        if c == '\n' {
            let mut line = current;
            if line.len() > 0 && line[line.len() - 1] == '\r' {
                line.pop();
            }
            let ghost earlier = done@;
            done.push(line);
            current = Vec::new();
            proof {
                let after = before.push(Seq::<char>::empty());
                assert(after.drop_last() =~= before);
                assert(before =~= before.drop_last().push(before.last()));
                assert(line_views(done@) =~= line_views(earlier).push(line@));
                assert(before.map_values(|line: Seq<char>| without_return(line))
                    =~= before.drop_last().map_values(
                    |line: Seq<char>| without_return(line),
                ).push(without_return(before.last())));
            }
        } else {
            current.push(c);
            proof {
                let after = before.drop_last().push(before.last().push(c));
                assert(after.drop_last() =~= before.drop_last());
            }
        }
        i += 1;
    }
    assert(chars@.take(chars.len() as int) =~= chars@);
    if current.len() > 0 {
        let ghost earlier = done@;
        done.push(current);
        assert(line_views(done@) =~= line_views(earlier).push(current@));
    }
    done
}

fn comes_from_line_start(chars: &Vec<char>, at: usize) -> (yes: bool)
    requires
        at <= chars.len(),
    ensures
        yes == reaches_line_start(chars@, at as int),
{
    let mut j: usize = at;
    while j > 0 && chars[j - 1] != '\n'
        invariant
            j <= at <= chars.len(),
            reaches_line_start(chars@, at as int) == reaches_line_start(chars@, j as int),
        decreases j,
    {
        if !is_white_space(chars[j - 1]) {
            return false;
        }
        j -= 1;
    }
    true
}

fn goes_to_line_end(chars: &Vec<char>, at: usize) -> (yes: bool)
    requires
        at <= chars.len(),
    ensures
        yes == reaches_line_end(chars@, at as int),
{
    let mut j: usize = at;
    while j < chars.len() && chars[j] != '\n'
        invariant
            at <= j <= chars.len(),
            reaches_line_end(chars@, at as int) == reaches_line_end(chars@, j as int),
        decreases chars.len() - j,
    {
        if !is_white_space(chars[j]) {
            return false;
        }
        j += 1;
    }
    true
}

/// Tells whether some line of `chars` holds `marker` and nothing but white
/// space beside it.
pub(crate) fn holds_marker_line(chars: &Vec<char>, marker: &Vec<char>) -> (yes: bool)
    requires
        marker.len() > 0,
    ensures
        yes == has_marker_line(chars@, marker@),
{
    if chars.len() < marker.len() {
        return false;
    }
    let mut at: usize = 0;
    while at <= chars.len() - marker.len()
        invariant
            chars.len() >= marker.len() > 0,
            at <= chars.len() - marker.len() + 1,
            forall|k: int| 0 <= k < at ==> !marker_line_at(chars@, marker@, k),
        decreases chars.len() - at,
    {
        if stands_at(chars, marker, at) && comes_from_line_start(chars, at) && goes_to_line_end(
            chars,
            at + marker.len(),
        ) {
            assert(marker_line_at(chars@, marker@, at as int));
            return true;
        }
        at += 1;
    }
    false
}

fn repeated(c: char, count: usize) -> (out: Vec<char>)
    ensures
        out@ == Seq::new(count as nat, |i: int| c),
{
    let mut out: Vec<char> = Vec::new();
    let mut i: usize = 0;
    while i < count
        invariant
            i <= count,
            out@ == Seq::new(i as nat, |k: int| c),
        decreases count - i,
    {
        out.push(c);
        assert(out@ =~= Seq::new((i + 1) as nat, |k: int| c));
        i += 1;
    }
    out
}

fn yaml_fence_chars() -> (fence: Vec<char>)
    ensures
        fence@ == yaml_fence(),
{
    let fence = repeated('-', 3);
    assert(fence@ =~= yaml_fence());
    fence
}

fn toml_fence_chars() -> (fence: Vec<char>)
    ensures
        fence@ == toml_fence(),
{
    let fence = repeated('+', 3);
    assert(fence@ =~= toml_fence());
    fence
}

/// Tells whether `input` has a line that holds the rule of plain-text front
/// matter, 27 hyphens, and nothing but white space beside it.
pub fn text_frontmatter_suffix(input: &str) -> (yes: bool)
    ensures
        yes == has_marker_line(input@, text_rule()),
{
    holds_marker_line(&chars_of(input), &repeated('-', 27))
}

/// Tells whether `input` has a line that holds `---` and nothing but white
/// space beside it.
pub fn yaml_frontmatter_container(input: &str) -> (yes: bool)
    ensures
        yes == has_marker_line(input@, yaml_fence()),
{
    holds_marker_line(&chars_of(input), &yaml_fence_chars())
}

/// Tells whether `input` has a line that holds `+++` and nothing but white
/// space beside it.
pub fn toml_frontmatter_container(input: &str) -> (yes: bool)
    ensures
        yes == has_marker_line(input@, toml_fence()),
{
    holds_marker_line(&chars_of(input), &toml_fence_chars())
}

/// Tells whether `input` has a line that holds an opening brace and nothing
/// but white space beside it.
pub fn json_frontmatter_prefix(input: &str) -> (yes: bool)
    ensures
        yes == has_marker_line(input@, seq!['{']),
{
    let brace = repeated('{', 1);
    assert(brace@ =~= seq!['{']);
    holds_marker_line(&chars_of(input), &brace)
}

/// Tells whether `input` has a line that holds a closing brace and nothing
/// but white space beside it.
pub fn json_frontmatter_suffix(input: &str) -> (yes: bool)
    ensures
        yes == has_marker_line(input@, seq!['}']),
{
    let brace = repeated('}', 1);
    assert(brace@ =~= seq!['}']);
    holds_marker_line(&chars_of(input), &brace)
}

fn is_org_lines(lines: &Vec<Vec<char>>) -> (yes: bool)
    ensures
        yes == ({
            &&& exists|j: int|
                0 <= j < lines.len() && (#[trigger] line_views(lines@)[j]).len() > 0
            &&& forall|j: int|
                0 <= j < lines.len() && (#[trigger] line_views(lines@)[j]).len() > 0
                    ==> begins_with(line_views(lines@)[j], org_key_start())
        }),
{
    let mut any = false;
    let mut j: usize = 0;
    while j < lines.len()
        invariant
            j <= lines.len(),
            any == exists|k: int| 0 <= k < j && (#[trigger] line_views(lines@)[k]).len() > 0,
            forall|k: int|
                0 <= k < j && (#[trigger] line_views(lines@)[k]).len() > 0 ==> begins_with(
                    line_views(lines@)[k],
                    org_key_start(),
                ),
        decreases lines.len() - j,
    {
        let line = &lines[j];
        if line.len() > 0 {
            let keyed = line.len() >= 2 && line[0] == '#' && line[1] == '+';
            proof {
                let view = line_views(lines@)[j as int];
                assert(view == line@);
                if keyed {
                    assert(view.subrange(0, 2) =~= org_key_start());
                } else if view.len() >= 2 {
                    assert(view.subrange(0, 2)[0] == view[0]);
                    assert(view.subrange(0, 2)[1] == view[1]);
                }
            }
            if !keyed {
                return false;
            }
            any = true;
        }
        j += 1;
    }
    any
}

/// Tells which format of front matter a block of text is written in: plain
/// text where its last line is the rule of 27 hyphens; YAML or TOML where
/// its first and its last line are the fence of that format; Org where it
/// has a line that is not empty and every such line begins with `#+`. A
/// block that is none of these is no front matter.
pub fn get_frontmatter_format(text: &str) -> (format: Option<FrontmatterFormat>)
    ensures
        format == frontmatter_format_of(text@),
{
    let chars = chars_of(text);
    let lines = split_into_lines(&chars);
    if lines.len() > 0 {
        let first = &lines[0];
        let last = &lines[lines.len() - 1];
        assert(line_views(lines@).first() == first@);
        assert(line_views(lines@).last() == last@);
        if holds_marker_line(last, &repeated('-', 27)) {
            return Some(FrontmatterFormat::Text);
        }
        let yaml = yaml_fence_chars();
        if holds_marker_line(first, &yaml) && holds_marker_line(last, &yaml) {
            return Some(FrontmatterFormat::Yaml);
        }
        let toml = toml_fence_chars();
        if holds_marker_line(first, &toml) && holds_marker_line(last, &toml) {
            return Some(FrontmatterFormat::Toml);
        }
    }
    if is_org_lines(&lines) {
        Some(FrontmatterFormat::Org)
    } else {
        None
    }
}

fn text_unless_empty(chars: &Vec<char>, from: usize) -> (out: Option<String>)
    requires
        from <= chars.len(),
    ensures
        text_of(out) == unless_empty(chars@.skip(from as int)),
{
    assert(chars@.subrange(from as int, chars.len() as int) =~= chars@.skip(from as int));
    if from < chars.len() {
        Some(string_of_range(chars, from, chars.len()))
    } else {
        None
    }
}

/// Separates a note into front matter and body. The text before the first
/// blank line is front matter if it is written in one of the four formats;
/// the body is then what follows the blank line. Otherwise the whole note
/// is body. An empty body is `None`.
pub fn separate_existing_content(content: &str) -> (parts: (Option<String>, Option<String>))
    ensures
        (text_of(parts.0), text_of(parts.1)) == separated(content@),
{
    let chars = chars_of(content);
    match find_blank_line(&chars) {
        Some((start, end)) => {
            if start > 0 {
                assert(chars@.subrange(0, start as int) =~= chars@.take(start as int));
                let head = string_of_range(&chars, 0, start);
                if get_frontmatter_format(head.as_str()).is_some() {
                    return (Some(head), text_unless_empty(&chars, end));
                }
            }
        },
        None => {},
    }
    assert(chars@.skip(0) =~= chars@);
    (None, text_unless_empty(&chars, 0))
}

/// Whether `line` holds no line feed.
pub open spec fn is_one_line(line: Seq<char>) -> bool {
    forall|i: int| 0 <= i < line.len() ==> #[trigger] line[i] != '\n'
}

/// Whether everything from `from` up to `to` is white space.
pub open spec fn is_all_space(line: Seq<char>, from: int, to: int) -> bool {
    forall|i: int| from <= i < to ==> is_space(#[trigger] line[i])
}

proof fn lemma_split_lines_are_lines(text: Seq<char>)
    ensures
        forall|j: int|
            0 <= j < split_lines(text).len() ==> is_one_line(#[trigger] split_lines(text)[j]),
    decreases text.len(),
{
    if text.len() > 0 {
        lemma_split_lines_are_lines(text.drop_last());
        lemma_split_lines_len(text.drop_last());
    }
}

/// No line holds a line feed.
proof fn lemma_lines_are_lines(text: Seq<char>)
    ensures
        forall|j: int| 0 <= j < lines_of(text).len() ==> is_one_line(#[trigger] lines_of(text)[j]),
{
    lemma_split_lines_are_lines(text);
    lemma_split_lines_len(text);
    let parts = split_lines(text);
    let lines = lines_of(text);
    assert forall|j: int| 0 <= j < lines.len() implies is_one_line(#[trigger] lines[j]) by {
        if j < parts.len() - 1 {
            assert(is_one_line(parts[j]));
            assert(lines[j] == without_return(parts[j]));
            assert forall|i: int| 0 <= i < lines[j].len() implies #[trigger] lines[j][i]
                != '\n' by {
                assert(lines[j][i] == parts[j][i]);
            }
        } else {
            assert(is_one_line(parts[parts.len() - 1]));
        }
    }
}

proof fn lemma_space_before(line: Seq<char>, at: int)
    requires
        is_one_line(line),
        0 <= at <= line.len(),
        reaches_line_start(line, at),
    ensures
        is_all_space(line, 0, at),
    decreases at,
{
    if at > 0 {
        lemma_space_before(line, at - 1);
    }
}

proof fn lemma_space_behind(line: Seq<char>, at: int)
    requires
        is_one_line(line),
        0 <= at <= line.len(),
        reaches_line_end(line, at),
    ensures
        is_all_space(line, at, line.len() as int),
    decreases line.len() - at,
{
    if at < line.len() {
        lemma_space_behind(line, at + 1);
    }
}

/// Two markers that stand alone on one line, and neither begins or ends in
/// white space, stand at the same place and are equally long.
proof fn lemma_marker_lines_agree(
    line: Seq<char>,
    first: Seq<char>,
    first_at: int,
    second: Seq<char>,
    second_at: int,
)
    requires
        is_one_line(line),
        marker_line_at(line, first, first_at),
        marker_line_at(line, second, second_at),
        first.len() > 0 && !is_space(first.first()) && !is_space(first.last()),
        second.len() > 0 && !is_space(second.first()) && !is_space(second.last()),
    ensures
        first_at == second_at,
        first.len() == second.len(),
{
    lemma_space_before(line, first_at);
    lemma_space_before(line, second_at);
    lemma_space_behind(line, first_at + first.len());
    lemma_space_behind(line, second_at + second.len());
    let first_found = line.subrange(first_at, first_at + first.len());
    let second_found = line.subrange(second_at, second_at + second.len());
    assert(first_found[0] == line[first_at]);
    assert(second_found[0] == line[second_at]);
    assert(first_found[first.len() - 1] == line[first_at + first.len() - 1]);
    assert(second_found[second.len() - 1] == line[second_at + second.len() - 1]);
    if first_at < second_at {
        assert(is_space(line[first_at]));
    }
    if second_at < first_at {
        assert(is_space(line[second_at]));
    }
    if first.len() < second.len() {
        assert(is_space(line[second_at + second.len() - 1]));
    }
    if second.len() < first.len() {
        assert(is_space(line[first_at + first.len() - 1]));
    }
}

/// A line that holds a marker alone does not begin with `#+`, if the marker
/// does not begin with `#` or white space.
proof fn lemma_marker_line_has_no_key(line: Seq<char>, marker: Seq<char>)
    requires
        is_one_line(line),
        has_marker_line(line, marker),
        marker.len() > 0 && marker.first() != '#',
    ensures
        line.len() > 0,
        !begins_with(line, org_key_start()),
{
    let at = choose|at: int| marker_line_at(line, marker, at);
    lemma_space_before(line, at);
    let found = line.subrange(at, at + marker.len());
    assert(found[0] == line[at]);
    if begins_with(line, org_key_start()) {
        assert(line.subrange(0, 2)[0] == line[0]);
        if at > 0 {
            assert(is_space(line[0]));
        }
    }
}

/// A block of text is written in at most one of the four formats.
pub proof fn lemma_formats_exclude_each_other(text: Seq<char>)
    ensures
        !(is_text_block(text) && is_fenced_block(text, yaml_fence())),
        !(is_text_block(text) && is_fenced_block(text, toml_fence())),
        !(is_text_block(text) && is_org_block(text)),
        !(is_fenced_block(text, yaml_fence()) && is_fenced_block(text, toml_fence())),
        !(is_fenced_block(text, yaml_fence()) && is_org_block(text)),
        !(is_fenced_block(text, toml_fence()) && is_org_block(text)),
{
    let lines = lines_of(text);
    lemma_lines_are_lines(text);
    if lines.len() > 0 {
        let last = lines.last();
        assert(is_one_line(lines[lines.len() - 1]));
        let rule = text_rule();
        let yaml = yaml_fence();
        let toml = toml_fence();
        if has_marker_line(last, rule) && has_marker_line(last, yaml) {
            let a = choose|at: int| marker_line_at(last, rule, at);
            let b = choose|at: int| marker_line_at(last, yaml, at);
            lemma_marker_lines_agree(last, rule, a, yaml, b);
        }
        if has_marker_line(last, rule) && has_marker_line(last, toml) {
            let a = choose|at: int| marker_line_at(last, rule, at);
            let b = choose|at: int| marker_line_at(last, toml, at);
            lemma_marker_lines_agree(last, rule, a, toml, b);
        }
        if has_marker_line(last, yaml) && has_marker_line(last, toml) {
            let a = choose|at: int| marker_line_at(last, yaml, at);
            let b = choose|at: int| marker_line_at(last, toml, at);
            lemma_marker_lines_agree(last, yaml, a, toml, b);
            assert(last.subrange(a, a + 3)[0] == yaml[0]);
            assert(last.subrange(b, b + 3)[0] == toml[0]);
        }
        if has_marker_line(last, rule) {
            lemma_marker_line_has_no_key(last, rule);
        }
        if has_marker_line(last, yaml) {
            lemma_marker_line_has_no_key(last, yaml);
        }
        if has_marker_line(last, toml) {
            lemma_marker_line_has_no_key(last, toml);
        }
    }
}

/// A note whose first paragraph is written in none of the four formats is
/// all body.
pub proof fn lemma_unrecognised_block_is_body(text: Seq<char>)
    requires
        first_paragraph(text) matches Some(block) ==> frontmatter_format_of(block) is None,
    ensures
        separated(text) == (None::<Seq<char>>, unless_empty(text)),
{
}

} // verus!
