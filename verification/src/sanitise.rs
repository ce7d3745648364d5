//! Normalisation of the text that goes into a file name: characters that are
//! reserved or configured as illegal are removed, words are split on the
//! delimiters of their segment and joined again in one canonical way.

use vstd::prelude::*;
use vstd::string::StringExecFns;
use crate::config::text_of;
use crate::text::{chars_of, lowercase_of, string_of};

verus! {

/// Whether `c` is one of the five characters that mark segments in a file name.
pub open spec fn is_separator(c: char) -> bool {
    c == '@' || c == '=' || c == '-' || c == '_' || c == '.'
}

/// Whether sanitising keeps `c`.
pub open spec fn is_kept(c: char, illegal: Set<char>) -> bool {
    !is_separator(c) && !illegal.contains(c)
}

/// `text` without separators and without the characters in `illegal`.
pub open spec fn sanitised(text: Seq<char>, illegal: Set<char>) -> Seq<char> {
    text.filter(|c: char| is_kept(c, illegal))
}

/// Whether `c` ends a word: a space always does, and so does the word
/// delimiter of the segment where it has one.
pub open spec fn is_word_delimiter(c: char, delimiter: Option<char>) -> bool {
    c == ' ' || delimiter == Some(c)
}

/// The stretches of `text` between word delimiters, empty ones included.
pub open spec fn pieces(text: Seq<char>, delimiter: Option<char>) -> Seq<Seq<char>>
    decreases text.len(),
{
    if text.len() == 0 {
        seq![Seq::<char>::empty()]
    } else {
        let before = pieces(text.drop_last(), delimiter);
        if is_word_delimiter(text.last(), delimiter) {
            before.push(Seq::<char>::empty())
        } else {
            before.drop_last().push(before.last().push(text.last()))
        }
    }
}

/// Each piece sanitised, and those that are left empty dropped.
pub open spec fn cleaned(parts: Seq<Seq<char>>, illegal: Set<char>) -> Seq<Seq<char>> {
    parts.map_values(|p: Seq<char>| sanitised(p, illegal)).filter(|w: Seq<char>| w.len() > 0)
}

/// The sanitised, non-empty words of `text`.
pub open spec fn words(text: Seq<char>, delimiter: Option<char>, illegal: Set<char>) -> Seq<
    Seq<char>,
> {
    cleaned(pieces(text, delimiter), illegal)
}

/// What stands between two joined words.
pub open spec fn glue(delimiter: Option<char>) -> Seq<char> {
    match delimiter {
        Some(c) => seq![c],
        None => Seq::<char>::empty(),
    }
}

/// The words written one after another with the delimiter between them.
pub open spec fn joined(parts: Seq<Seq<char>>, delimiter: Option<char>) -> Seq<char>
    decreases parts.len(),
{
    if parts.len() == 0 {
        Seq::<char>::empty()
    } else if parts.len() == 1 {
        parts[0]
    } else {
        joined(parts.drop_last(), delimiter) + glue(delimiter) + parts.last()
    }
}

/// The canonical form of already lower-cased text, or `None` where nothing
/// is left of it.
pub open spec fn normalised(lowered: Seq<char>, delimiter: Option<char>, illegal: Set<char>)
    -> Option<Seq<char>> {
    let text = joined(words(lowered, delimiter, illegal), delimiter);
    if text.len() == 0 {
        None
    } else {
        Some(text)
    }
}

/// The views of a sequence of strings.
pub open spec fn texts(strings: Seq<String>) -> Seq<Seq<char>> {
    Seq::new(strings.len(), |i: int| strings[i]@)
}

proof fn lemma_cleaned_push(parts: Seq<Seq<char>>, last: Seq<char>, illegal: Set<char>)
    ensures
        cleaned(parts.push(last), illegal) == if sanitised(last, illegal).len() > 0 {
            cleaned(parts, illegal).push(sanitised(last, illegal))
        } else {
            cleaned(parts, illegal)
        },
{
    reveal(Seq::filter);
    let mapped = parts.push(last).map_values(|p: Seq<char>| sanitised(p, illegal));
    assert(mapped.drop_last() =~= parts.map_values(|p: Seq<char>| sanitised(p, illegal)));
    assert(mapped.last() == sanitised(last, illegal));
}

proof fn lemma_sanitised_push(text: Seq<char>, c: char, illegal: Set<char>)
    ensures
        sanitised(text.push(c), illegal) == if is_kept(c, illegal) {
            sanitised(text, illegal).push(c)
        } else {
            sanitised(text, illegal)
        },
{
    reveal(Seq::filter);
    assert(text.push(c).drop_last() =~= text);
}

/// Tells whether `c` occurs in `set`.
pub fn contains_char(set: &Vec<char>, c: char) -> (found: bool)
    ensures
        found == set@.to_set().contains(c),
{
    let mut i: usize = 0;
    while i < set.len()
        invariant
            i <= set.len(),
            forall|k: int| 0 <= k < i ==> set@[k] != c,
        decreases set.len() - i,
    {
        if set[i] == c {
            return true;
        }
        i += 1;
    }
    false
}

/// Tells whether `c` is one of `@ = - _ .`.
pub fn is_segment_separator(c: char) -> (yes: bool)
    ensures
        yes == is_separator(c),
{
    c == '@' || c == '=' || c == '-' || c == '_' || c == '.'
}

/// Removes the separators and the characters in `illegal` from `text`.
pub fn sanitise_chars(text: &Vec<char>, illegal: &Vec<char>) -> (out: Vec<char>)
    ensures
        out@ == sanitised(text@, illegal@.to_set()),
{
    let mut out: Vec<char> = Vec::new();
    let mut i: usize = 0;
    while i < text.len()
        invariant
            i <= text.len(),
            out@ == sanitised(text@.take(i as int), illegal@.to_set()),
        decreases text.len() - i,
    {
        let c = text[i];
        proof {
            assert(text@.take(i + 1) =~= text@.take(i as int).push(c));
            lemma_sanitised_push(text@.take(i as int), c, illegal@.to_set());
        }
        if !is_segment_separator(c) && !contains_char(illegal, c) {
            out.push(c);
        }
        i += 1;
    }
    assert(text@.take(text.len() as int) =~= text@);
    out
}

/// Removes segment separators and illegal characters from a dirty string.
pub fn sanitise(dirty: &str, illegal_characters: &Vec<char>) -> (clean: String)
    ensures
        clean@ == sanitised(dirty@, illegal_characters@.to_set()),
{
    let chars = chars_of(dirty);
    let kept = sanitise_chars(&chars, illegal_characters);
    string_of(&kept)
}

/// The views of optional strings.
pub open spec fn texts_of(value: Option<Vec<String>>) -> Option<Seq<Seq<char>>> {
    match value {
        Some(v) => Some(texts(v@)),
        None => None,
    }
}

proof fn lemma_pieces_len(text: Seq<char>, delimiter: Option<char>)
    ensures
        pieces(text, delimiter).len() >= 1,
    decreases text.len(),
{
    if text.len() > 0 {
        lemma_pieces_len(text.drop_last(), delimiter);
    }
}

fn ends_word(c: char, delimiter: Option<char>) -> (yes: bool)
    ensures
        yes == is_word_delimiter(c, delimiter),
{
    c == ' ' || match delimiter {
        Some(d) => d == c,
        None => false,
    }
}

/// Splits `text` on spaces and on `delimiter`, sanitises each piece and
/// keeps those of which something is left.
pub fn split_words(text: &Vec<char>, delimiter: Option<char>, illegal: &Vec<char>) -> (out: Vec<
    String,
>)
    ensures
        texts(out@) == words(text@, delimiter, illegal@.to_set()),
{
    let ghost bad = illegal@.to_set();
    let mut done: Vec<String> = Vec::new();
    let mut current: Vec<char> = Vec::new();
    let mut i: usize = 0;
    proof {
        reveal(Seq::filter);
        assert(text@.take(0) =~= Seq::<char>::empty());
        assert(pieces(text@.take(0), delimiter).drop_last() =~= Seq::<Seq<char>>::empty());
        assert(texts(done@) =~= cleaned(Seq::<Seq<char>>::empty(), bad));
    }
    while i < text.len()
        invariant
            i <= text.len(),
            bad == illegal@.to_set(),
            texts(done@) == cleaned(pieces(text@.take(i as int), delimiter).drop_last(), bad),
            current@ == sanitised(pieces(text@.take(i as int), delimiter).last(), bad),
        decreases text.len() - i,
    {
        let c = text[i];
        let ghost before = pieces(text@.take(i as int), delimiter);
        proof {
            lemma_pieces_len(text@.take(i as int), delimiter);
            assert(text@.take(i + 1).drop_last() =~= text@.take(i as int));
            assert(before =~= before.drop_last().push(before.last()));
            lemma_cleaned_push(before.drop_last(), before.last(), bad);
            lemma_sanitised_push(before.last(), c, bad);
        }
        if ends_word(c, delimiter) {
            proof {
                assert(before.push(Seq::<char>::empty()).drop_last() =~= before);
                reveal(Seq::filter);
            }
            if current.len() > 0 {
                let word = string_of(&current);
                let ghost old_done = done@;
                done.push(word);
                assert(texts(done@) =~= texts(old_done).push(word@));
            }
            current = Vec::new();
        } else {
            proof {
                let grown = before.drop_last().push(before.last().push(c));
                assert(grown.drop_last() =~= before.drop_last());
            }
            if !is_segment_separator(c) && !contains_char(illegal, c) {
                current.push(c);
            }
        }
        i += 1;
    }
    proof {
        let all = pieces(text@, delimiter);
        lemma_pieces_len(text@, delimiter);
        assert(text@.take(text.len() as int) =~= text@);
        assert(all =~= all.drop_last().push(all.last()));
        lemma_cleaned_push(all.drop_last(), all.last(), bad);
    }
    if current.len() > 0 {
        let word = string_of(&current);
        let ghost old_done = done@;
        done.push(word);
        assert(texts(done@) =~= texts(old_done).push(word@));
    }
    done
}

/// Writes `parts` one after another with `delimiter` between them.
pub fn join_words(parts: &Vec<String>, delimiter: Option<char>) -> (out: String)
    ensures
        out@ == joined(texts(parts@), delimiter),
{
    let mut out = String::new();
    let mut i: usize = 0;
    assert(texts(parts@).take(0) =~= Seq::<Seq<char>>::empty());
    while i < parts.len()
        invariant
            i <= parts.len(),
            out@ == joined(texts(parts@).take(i as int), delimiter),
        decreases parts.len() - i,
    {
        proof {
            let upto = texts(parts@).take(i + 1);
            assert(upto.drop_last() =~= texts(parts@).take(i as int));
            assert(upto.last() == parts@[i as int]@);
            if i == 0 {
                assert(out@ + parts@[i as int]@ =~= parts@[i as int]@);
            }
        }
        if i > 0 {
            match delimiter {
                Some(d) => {
                    out.push(d);
                    assert(out@ =~= joined(texts(parts@).take(i as int), delimiter) + glue(
                        delimiter,
                    ));
                },
                None => {
                    assert(out@ =~= joined(texts(parts@).take(i as int), delimiter) + glue(
                        delimiter,
                    ));
                },
            }
        }
        out.append(parts[i].as_str());
        i += 1;
    }
    assert(texts(parts@).take(parts.len() as int) =~= texts(parts@));
    out
}

/// Brings raw text into the canonical form of a segment: lower-cased, split
/// on spaces and on `delimiter`, each word sanitised, empty words dropped,
/// the rest joined with `delimiter`. `None` where nothing is left.
pub fn normalise_segment(raw: &str, delimiter: Option<char>, illegal_characters: &Vec<char>) -> (out:
    Option<String>)
    ensures
        text_of(out) == normalised(lowercase_of(raw@), delimiter, illegal_characters@.to_set()),
{
    let lowered = raw.to_lowercase();
    let chars = chars_of(lowered.as_str());
    let parts = split_words(&chars, delimiter, illegal_characters);
    let text = join_words(&parts, delimiter);
    if text.as_str().is_empty() {
        None
    } else {
        Some(text)
    }
}

/// What is left of already lower-cased text as a signature: the text
/// without separators and illegal characters, or `None` where nothing is
/// left of it. A space stays where it is not illegal.
pub open spec fn signature_text(lowered: Seq<char>, illegal: Set<char>) -> Option<Seq<char>> {
    let text = sanitised(lowered, illegal);
    if text.len() == 0 {
        None
    } else {
        Some(text)
    }
}

/// The signature that `raw` stands for.
pub open spec fn signature_of(raw: Seq<char>, illegal: Set<char>) -> Option<Seq<char>> {
    signature_text(lowercase_of(raw), illegal)
}

/// The title that `raw` stands for.
pub open spec fn title_of(raw: Seq<char>, illegal: Set<char>) -> Option<Seq<char>> {
    normalised(lowercase_of(raw), Some('-'), illegal)
}

/// The extension that `raw` stands for.
pub open spec fn extension_of(raw: Seq<char>, illegal: Set<char>) -> Option<Seq<char>> {
    normalised(lowercase_of(raw), Some('.'), illegal)
}

/// The keywords that `raw` stands for.
pub open spec fn keywords_of(raw: Seq<char>, illegal: Set<char>) -> Option<Seq<Seq<char>>> {
    let found = words(lowercase_of(raw), Some('_'), illegal);
    if found.len() == 0 {
        None
    } else {
        Some(found)
    }
}

/// Parses a signature: lower-cased, without separators and illegal
/// characters. `None` if nothing is left.
pub fn parse_signature(signature_arg: &str, illegal_characters: &Vec<char>) -> (out: Option<String>)
    ensures
        text_of(out) == signature_of(signature_arg@, illegal_characters@.to_set()),
{
    let lowered = signature_arg.to_lowercase();
    let text = sanitise(lowered.as_str(), illegal_characters);
    if text.as_str().is_empty() {
        None
    } else {
        Some(text)
    }
}

/// Parses a title: lower-cased words, split on `-` and space, sanitised and
/// joined with `-`. `None` if nothing is left.
pub fn parse_title(title_arg: &str, illegal_characters: &Vec<char>) -> (out: Option<String>)
    ensures
        text_of(out) == title_of(title_arg@, illegal_characters@.to_set()),
{
    normalise_segment(title_arg, Some('-'), illegal_characters)
}

/// Parses keywords: lower-cased words, split on `_` and space and sanitised.
/// `None` if there is none.
pub fn parse_keywords(keywords_arg: &str, illegal_characters: &Vec<char>) -> (out: Option<
    Vec<String>,
>)
    ensures
        texts_of(out) == keywords_of(keywords_arg@, illegal_characters@.to_set()),
{
    let lowered = keywords_arg.to_lowercase();
    let chars = chars_of(lowered.as_str());
    let parts = split_words(&chars, Some('_'), illegal_characters);
    if parts.len() == 0 {
        None
    } else {
        Some(parts)
    }
}

/// Parses an extension: lower-cased parts, split on `.` and space, sanitised
/// and joined with `.`. `None` if nothing is left.
pub fn parse_extension(extension_arg: &str, illegal_characters: &Vec<char>) -> (out: Option<
    String,
>)
    ensures
        text_of(out) == extension_of(extension_arg@, illegal_characters@.to_set()),
{
    normalise_segment(extension_arg, Some('.'), illegal_characters)
}

/// Whether `word` is what normalising leaves of a word: not empty, and made
/// of characters that are kept and end no word.
pub open spec fn is_clean_word(word: Seq<char>, delimiter: Option<char>, illegal: Set<char>)
    -> bool {
    &&& word.len() > 0
    &&& forall|i: int|
        0 <= i < word.len() ==> is_kept(#[trigger] word[i], illegal) && !is_word_delimiter(
            word[i],
            delimiter,
        )
}

/// Whether every entry is a clean word.
pub open spec fn all_clean(parts: Seq<Seq<char>>, delimiter: Option<char>, illegal: Set<char>)
    -> bool {
    forall|j: int| 0 <= j < parts.len() ==> is_clean_word(#[trigger] parts[j], delimiter, illegal)
}

/// Whether `text` holds no word delimiter.
pub open spec fn has_no_delimiter(text: Seq<char>, delimiter: Option<char>) -> bool {
    forall|i: int| 0 <= i < text.len() ==> !is_word_delimiter(#[trigger] text[i], delimiter)
}

/// Whether sanitising keeps every character of `text`.
pub open spec fn is_all_kept(text: Seq<char>, illegal: Set<char>) -> bool {
    forall|i: int| 0 <= i < text.len() ==> is_kept(#[trigger] text[i], illegal)
}

proof fn lemma_pieces_have_no_delimiter(text: Seq<char>, delimiter: Option<char>)
    ensures
        forall|j: int|
            0 <= j < pieces(text, delimiter).len() ==> has_no_delimiter(
                #[trigger] pieces(text, delimiter)[j],
                delimiter,
            ),
    decreases text.len(),
{
    if text.len() > 0 {
        lemma_pieces_have_no_delimiter(text.drop_last(), delimiter);
        lemma_pieces_len(text.drop_last(), delimiter);
    }
}

proof fn lemma_sanitised_chars(text: Seq<char>, illegal: Set<char>)
    ensures
        is_all_kept(sanitised(text, illegal), illegal),
        forall|i: int|
            0 <= i < sanitised(text, illegal).len() ==> text.contains(
                #[trigger] sanitised(text, illegal)[i],
            ),
    decreases text.len(),
{
    reveal(Seq::filter);
    if text.len() > 0 {
        lemma_sanitised_chars(text.drop_last(), illegal);
        let rest = sanitised(text.drop_last(), illegal);
        assert forall|i: int| 0 <= i < sanitised(text, illegal).len() implies text.contains(
            #[trigger] sanitised(text, illegal)[i],
        ) by {
            if i < rest.len() {
                let k = choose|k: int|
                    0 <= k < text.drop_last().len() && text.drop_last()[k] == rest[i];
                assert(text[k] == rest[i]);
            } else {
                assert(text[text.len() - 1] == text.last());
            }
        }
    }
}

proof fn lemma_sanitised_identity(text: Seq<char>, illegal: Set<char>)
    requires
        is_all_kept(text, illegal),
    ensures
        sanitised(text, illegal) == text,
    decreases text.len(),
{
    reveal(Seq::filter);
    if text.len() > 0 {
        lemma_sanitised_identity(text.drop_last(), illegal);
        assert(text.drop_last().push(text.last()) =~= text);
    }
}

proof fn lemma_cleaned_is_clean(parts: Seq<Seq<char>>, delimiter: Option<char>, illegal: Set<
    char,
>)
    requires
        forall|j: int| 0 <= j < parts.len() ==> has_no_delimiter(#[trigger] parts[j], delimiter),
    ensures
        all_clean(cleaned(parts, illegal), delimiter, illegal),
    decreases parts.len(),
{
    reveal(Seq::filter);
    if parts.len() > 0 {
        let init = parts.drop_last();
        let last = parts.last();
        lemma_cleaned_is_clean(init, delimiter, illegal);
        assert(init.push(last) =~= parts);
        lemma_cleaned_push(init, last, illegal);
        lemma_sanitised_chars(last, illegal);
        let word = sanitised(last, illegal);
        assert forall|i: int| 0 <= i < word.len() implies !is_word_delimiter(
            #[trigger] word[i],
            delimiter,
        ) by {
            let k = choose|k: int| 0 <= k < last.len() && last[k] == word[i];
            assert(!is_word_delimiter(last[k], delimiter));
        }
    }
}

/// Every word that normalising finds is clean.
pub proof fn lemma_words_are_clean(text: Seq<char>, delimiter: Option<char>, illegal: Set<char>)
    ensures
        all_clean(words(text, delimiter, illegal), delimiter, illegal),
{
    lemma_pieces_have_no_delimiter(text, delimiter);
    lemma_cleaned_is_clean(pieces(text, delimiter), delimiter, illegal);
}

proof fn lemma_cleaned_identity(parts: Seq<Seq<char>>, delimiter: Option<char>, illegal: Set<
    char,
>)
    requires
        all_clean(parts, delimiter, illegal),
    ensures
        cleaned(parts, illegal) == parts,
    decreases parts.len(),
{
    reveal(Seq::filter);
    if parts.len() > 0 {
        let init = parts.drop_last();
        let last = parts.last();
        lemma_cleaned_identity(init, delimiter, illegal);
        assert(init.push(last) =~= parts);
        lemma_cleaned_push(init, last, illegal);
        lemma_sanitised_identity(last, illegal);
    } else {
        assert(cleaned(parts, illegal) =~= parts);
    }
}

proof fn lemma_pieces_of_word(word: Seq<char>, delimiter: Option<char>)
    requires
        has_no_delimiter(word, delimiter),
    ensures
        pieces(word, delimiter) == seq![word],
    decreases word.len(),
{
    if word.len() > 0 {
        lemma_pieces_of_word(word.drop_last(), delimiter);
        assert(word.drop_last().push(word.last()) =~= word);
        assert(seq![word.drop_last()].drop_last().push(word) =~= seq![word]);
    } else {
        assert(word =~= Seq::<char>::empty());
    }
}

proof fn lemma_pieces_after_delimiter(
    text: Seq<char>,
    c: char,
    word: Seq<char>,
    delimiter: Option<char>,
)
    requires
        is_word_delimiter(c, delimiter),
        has_no_delimiter(word, delimiter),
    ensures
        pieces(text + seq![c] + word, delimiter) == pieces(text, delimiter).push(word),
    decreases word.len(),
{
    let whole = text + seq![c] + word;
    if word.len() == 0 {
        assert(whole.drop_last() =~= text);
        assert(whole.last() == c);
        assert(word =~= Seq::<char>::empty());
    } else {
        lemma_pieces_after_delimiter(text, c, word.drop_last(), delimiter);
        assert(whole.drop_last() =~= text + seq![c] + word.drop_last());
        assert(whole.last() == word.last());
        let before = pieces(text, delimiter).push(word.drop_last());
        assert(before.drop_last() =~= pieces(text, delimiter));
        assert(word.drop_last().push(word.last()) =~= word);
    }
}

proof fn lemma_pieces_of_joined(parts: Seq<Seq<char>>, c: char, illegal: Set<char>)
    requires
        parts.len() > 0,
        all_clean(parts, Some(c), illegal),
    ensures
        pieces(joined(parts, Some(c)), Some(c)) == parts,
    decreases parts.len(),
{
    if parts.len() == 1 {
        lemma_pieces_of_word(parts[0], Some(c));
        assert(seq![parts[0]] =~= parts);
    } else {
        let init = parts.drop_last();
        assert(all_clean(init, Some(c), illegal)) by {
            assert forall|j: int| 0 <= j < init.len() implies is_clean_word(
                #[trigger] init[j],
                Some(c),
                illegal,
            ) by {
                assert(init[j] == parts[j]);
            }
        }
        lemma_pieces_of_joined(init, c, illegal);
        lemma_pieces_after_delimiter(joined(init, Some(c)), c, parts.last(), Some(c));
        assert(init.push(parts.last()) =~= parts);
    }
}

proof fn lemma_joined_without_delimiter(parts: Seq<Seq<char>>, illegal: Set<char>)
    requires
        all_clean(parts, None, illegal),
    ensures
        has_no_delimiter(joined(parts, None), None),
        is_all_kept(joined(parts, None), illegal),
        parts.len() > 0 ==> joined(parts, None).len() > 0,
    decreases parts.len(),
{
    if parts.len() >= 2 {
        let init = parts.drop_last();
        assert(all_clean(init, None, illegal)) by {
            assert forall|j: int| 0 <= j < init.len() implies is_clean_word(
                #[trigger] init[j],
                None,
                illegal,
            ) by {
                assert(init[j] == parts[j]);
            }
        }
        lemma_joined_without_delimiter(init, illegal);
        assert(is_clean_word(parts[parts.len() - 1], None, illegal));
    } else if parts.len() == 1 {
        assert(is_clean_word(parts[0], None, illegal));
    }
}

/// Whether the only separator in `text`, if any, is `own`.
pub open spec fn has_no_foreign_separator(text: Seq<char>, own: Option<char>) -> bool {
    forall|i: int| 0 <= i < text.len() && is_separator(#[trigger] text[i]) ==> own == Some(text[i])
}

proof fn lemma_joined_separators(parts: Seq<Seq<char>>, delimiter: Option<char>, illegal: Set<
    char,
>)
    requires
        all_clean(parts, delimiter, illegal),
    ensures
        has_no_foreign_separator(joined(parts, delimiter), delimiter),
    decreases parts.len(),
{
    if parts.len() >= 2 {
        let init = parts.drop_last();
        assert(all_clean(init, delimiter, illegal)) by {
            assert forall|j: int| 0 <= j < init.len() implies is_clean_word(
                #[trigger] init[j],
                delimiter,
                illegal,
            ) by {
                assert(init[j] == parts[j]);
            }
        }
        lemma_joined_separators(init, delimiter, illegal);
        assert(is_clean_word(parts[parts.len() - 1], delimiter, illegal));
    } else if parts.len() == 1 {
        assert(is_clean_word(parts[0], delimiter, illegal));
    }
}

/// Whether `text` is made of characters that sanitising keeps and of the
/// character that joins its words.
pub open spec fn is_canonical_text(text: Seq<char>, joiner: Option<char>, illegal: Set<char>)
    -> bool {
    forall|i: int|
        0 <= i < text.len() ==> is_kept(#[trigger] text[i], illegal) || joiner == Some(text[i])
}

proof fn lemma_joined_is_canonical(parts: Seq<Seq<char>>, delimiter: Option<char>, illegal: Set<
    char,
>)
    requires
        all_clean(parts, delimiter, illegal),
    ensures
        is_canonical_text(joined(parts, delimiter), delimiter, illegal),
    decreases parts.len(),
{
    if parts.len() >= 2 {
        let init = parts.drop_last();
        assert(all_clean(init, delimiter, illegal)) by {
            assert forall|j: int| 0 <= j < init.len() implies is_clean_word(
                #[trigger] init[j],
                delimiter,
                illegal,
            ) by {
                assert(init[j] == parts[j]);
            }
        }
        lemma_joined_is_canonical(init, delimiter, illegal);
        assert(is_clean_word(parts[parts.len() - 1], delimiter, illegal));
    } else if parts.len() == 1 {
        assert(is_clean_word(parts[0], delimiter, illegal));
    }
}

/// A canonical form is made of characters that sanitising keeps and of the
/// delimiter of its segment.
pub proof fn lemma_normalised_is_canonical(lowered: Seq<char>, delimiter: Option<char>, illegal: Set<
    char,
>)
    ensures
        normalised(lowered, delimiter, illegal) matches Some(text) ==> is_canonical_text(
            text,
            delimiter,
            illegal,
        ),
{
    lemma_words_are_clean(lowered, delimiter, illegal);
    lemma_joined_is_canonical(words(lowered, delimiter, illegal), delimiter, illegal);
}

/// A canonical form holds no separator but the delimiter of its segment.
pub proof fn lemma_normalised_separators(lowered: Seq<char>, delimiter: Option<char>, illegal: Set<
    char,
>)
    ensures
        normalised(lowered, delimiter, illegal) matches Some(text) ==> has_no_foreign_separator(
            text,
            delimiter,
        ),
{
    lemma_words_are_clean(lowered, delimiter, illegal);
    lemma_joined_separators(words(lowered, delimiter, illegal), delimiter, illegal);
}

/// A signature is not empty, holds no separator and no illegal character,
/// and stays as it is when it is sanitised again.
pub proof fn lemma_signature_is_clean(lowered: Seq<char>, illegal: Set<char>)
    ensures
        signature_text(lowered, illegal) matches Some(text) ==> {
            &&& text.len() > 0
            &&& has_no_foreign_separator(text, None)
            &&& is_canonical_text(text, None, illegal)
            &&& signature_text(text, illegal) == Some(text)
        },
{
    lemma_sanitised_chars(lowered, illegal);
    lemma_sanitised_identity(sanitised(lowered, illegal), illegal);
}

/// Text that is already in canonical form stays as it is.
pub proof fn lemma_normalised_is_fixed(lowered: Seq<char>, delimiter: Option<char>, illegal: Set<
    char,
>)
    ensures
        normalised(lowered, delimiter, illegal) matches Some(text) ==> normalised(
            text,
            delimiter,
            illegal,
        ) == Some(text),
{
    let found = words(lowered, delimiter, illegal);
    let text = joined(found, delimiter);
    lemma_words_are_clean(lowered, delimiter, illegal);
    if text.len() > 0 {
        assert(found.len() > 0);
        match delimiter {
            Some(c) => {
                lemma_pieces_of_joined(found, c, illegal);
                lemma_cleaned_identity(found, delimiter, illegal);
            },
            None => {
                lemma_joined_without_delimiter(found, illegal);
                lemma_pieces_of_word(text, None);
                assert(is_clean_word(text, None, illegal));
                lemma_cleaned_identity(seq![text], None, illegal);
            },
        }
    }
}

/// Normalising raw text twice gives what normalising it once gives,
/// wherever lower-casing leaves the canonical form as it is.
pub proof fn lemma_normalise_segment_idempotent(
    raw: Seq<char>,
    delimiter: Option<char>,
    illegal: Set<char>,
)
    ensures
        normalised(lowercase_of(raw), delimiter, illegal) matches Some(text) ==> (lowercase_of(text)
            == text ==> normalised(lowercase_of(text), delimiter, illegal) == Some(text)),
{
    lemma_normalised_is_fixed(lowercase_of(raw), delimiter, illegal);
}

/// The words of canonical keywords, joined with underscores and split
/// again, are the same words.
pub proof fn lemma_words_are_fixed(lowered: Seq<char>, illegal: Set<char>)
    ensures
        ({
            let found = words(lowered, Some('_'), illegal);
            words(joined(found, Some('_')), Some('_'), illegal) == found
        }),
{
    let found = words(lowered, Some('_'), illegal);
    lemma_words_are_clean(lowered, Some('_'), illegal);
    if found.len() > 0 {
        lemma_pieces_of_joined(found, '_', illegal);
        lemma_cleaned_identity(found, Some('_'), illegal);
    } else {
        reveal(Seq::filter);
        assert(joined(found, Some('_')) =~= Seq::<char>::empty());
        assert(pieces(Seq::<char>::empty(), Some('_')) =~= seq![Seq::<char>::empty()]);
        lemma_cleaned_push(Seq::<Seq<char>>::empty(), Seq::<char>::empty(), illegal);
        assert(seq![Seq::<char>::empty()] =~= Seq::<Seq<char>>::empty().push(
            Seq::<char>::empty(),
        ));
        assert(cleaned(Seq::<Seq<char>>::empty(), illegal) =~= Seq::<Seq<char>>::empty());
    }
}

proof fn lemma_pieces_behind_text(text: Seq<char>, parts: Seq<Seq<char>>, c: char, illegal: Set<
    char,
>)
    requires
        parts.len() > 0,
        all_clean(parts, Some(c), illegal),
    ensures
        pieces(text + seq![c] + joined(parts, Some(c)), Some(c)) == pieces(text, Some(c)) + parts,
    decreases parts.len(),
{
    if parts.len() == 1 {
        lemma_pieces_after_delimiter(text, c, parts[0], Some(c));
        assert(pieces(text, Some(c)).push(parts[0]) =~= pieces(text, Some(c)) + parts);
    } else {
        let init = parts.drop_last();
        assert(all_clean(init, Some(c), illegal)) by {
            assert forall|j: int| 0 <= j < init.len() implies is_clean_word(
                #[trigger] init[j],
                Some(c),
                illegal,
            ) by {
                assert(init[j] == parts[j]);
            }
        }
        lemma_pieces_behind_text(text, init, c, illegal);
        let front = text + seq![c] + joined(init, Some(c));
        lemma_pieces_after_delimiter(front, c, parts.last(), Some(c));
        assert(front + seq![c] + parts.last() =~= text + seq![c] + joined(parts, Some(c)));
        assert((pieces(text, Some(c)) + init).push(parts.last()) =~= pieces(text, Some(c))
            + parts);
    }
}

proof fn lemma_cleaned_behind_empty(front: Seq<Seq<char>>, parts: Seq<Seq<char>>, illegal: Set<char>)
    requires
        cleaned(front, illegal).len() == 0,
    ensures
        cleaned(front + parts, illegal) == cleaned(parts, illegal),
    decreases parts.len(),
{
    reveal(Seq::filter);
    if parts.len() == 0 {
        assert(front + parts =~= front);
        assert(cleaned(parts, illegal) =~= Seq::<Seq<char>>::empty());
        assert(cleaned(front, illegal) =~= Seq::<Seq<char>>::empty());
    } else {
        let init = parts.drop_last();
        lemma_cleaned_behind_empty(front, init, illegal);
        assert(front + parts =~= (front + init).push(parts.last()));
        assert(parts =~= init.push(parts.last()));
        lemma_cleaned_push(front + init, parts.last(), illegal);
        lemma_cleaned_push(init, parts.last(), illegal);
    }
}

/// Whether `text` is nothing but the character `c`, any number of times.
pub open spec fn is_repeated(text: Seq<char>, c: char) -> bool {
    forall|i: int| 0 <= i < text.len() ==> #[trigger] text[i] == c
}

proof fn lemma_markers_leave_no_word(text: Seq<char>, c: char, illegal: Set<char>)
    requires
        is_repeated(text, c),
    ensures
        cleaned(pieces(text, Some(c)), illegal).len() == 0,
    decreases text.len(),
{
    reveal(Seq::filter);
    if text.len() == 0 {
        let only = seq![Seq::<char>::empty()];
        assert(only =~= Seq::<Seq<char>>::empty().push(Seq::<char>::empty()));
        assert(cleaned(Seq::<Seq<char>>::empty(), illegal) =~= Seq::<Seq<char>>::empty());
        lemma_cleaned_push(Seq::<Seq<char>>::empty(), Seq::<char>::empty(), illegal);
    } else {
        lemma_markers_leave_no_word(text.drop_last(), c, illegal);
        assert(text.last() == c);
        lemma_cleaned_push(pieces(text.drop_last(), Some(c)), Seq::<char>::empty(), illegal);
    }
}

/// A canonical form that stands behind the marker of its segment, written
/// once or more often, is read as the same canonical form: what a file name
/// holds of a title, of keywords or of an extension normalises to the value
/// that was written.
pub proof fn lemma_marked_value_is_read_again(
    lowered: Seq<char>,
    c: char,
    markers: Seq<char>,
    illegal: Set<char>,
)
    requires
        markers.len() > 0,
        is_repeated(markers, c),
    ensures
        normalised(lowered, Some(c), illegal) matches Some(text) ==> normalised(
            markers + text,
            Some(c),
            illegal,
        ) == Some(text) && words(markers + text, Some(c), illegal) == words(
            lowered,
            Some(c),
            illegal,
        ),
{
    let found = words(lowered, Some(c), illegal);
    let text = joined(found, Some(c));
    lemma_words_are_clean(lowered, Some(c), illegal);
    if text.len() > 0 {
        assert(found.len() > 0);
        let front = markers.drop_last();
        assert(markers.last() == c);
        assert(front + seq![c] + text =~= markers + text);
        lemma_pieces_behind_text(front, found, c, illegal);
        lemma_markers_leave_no_word(front, c, illegal);
        lemma_cleaned_behind_empty(pieces(front, Some(c)), found, illegal);
        lemma_cleaned_identity(found, Some(c), illegal);
    }
}

/// A signature that stands behind its marker is read as the same signature.
pub proof fn lemma_marked_signature_is_read_again(lowered: Seq<char>, illegal: Set<char>)
    ensures
        signature_text(lowered, illegal) matches Some(text) ==> signature_text(
            seq!['=', '='] + text,
            illegal,
        ) == Some(text),
{
    let text = sanitised(lowered, illegal);
    let keep = |c: char| is_kept(c, illegal);
    lemma_signature_is_clean(lowered, illegal);
    if text.len() > 0 {
        reveal_with_fuel(Seq::filter, 3);
        let markers = seq!['=', '='];
        Seq::filter_distributes_over_add(markers, text, keep);
        assert(markers.drop_last() =~= seq!['=']);
        assert(seq!['='].drop_last() =~= Seq::<char>::empty());
        assert(markers.filter(keep) =~= Seq::<char>::empty());
        lemma_sanitised_identity(text, illegal);
        assert(Seq::<char>::empty() + text =~= text);
    }
}

} // verus!
