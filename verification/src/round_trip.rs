//! What is written into a file name is found in it again.

use vstd::prelude::*;
use crate::config::{FileConfigView, FilenameSegment};
use crate::filename::{
    decoded, ends_value, filename_of, fragment_of, identifier_at, identifier_from, identifier_of,
    is_digit, is_word_at, marked, marker_at, marker_from, marker_of, marker_width, prefix_of,
    rendered, slot, slots, timestamp_at, unknown_order, value_end, written_values, FilenameView,
};
use crate::metadata::MetadataView;
use crate::sanitise::{
    extension_of, glue, has_no_foreign_separator, is_clean_word, is_separator, joined,
    lemma_normalised_separators, lemma_signature_is_clean, lemma_words_are_clean, words,
};
use crate::text::lowercase_of;

verus! {

/// Whether `order` names each of the five segments once.
pub open spec fn is_segment_order(order: Seq<FilenameSegment>) -> bool {
    &&& order.len() == 5
    &&& order.no_duplicates()
    &&& order.contains(FilenameSegment::Identifier)
    &&& order.contains(FilenameSegment::Signature)
    &&& order.contains(FilenameSegment::Title)
    &&& order.contains(FilenameSegment::Keywords)
    &&& order.contains(FilenameSegment::Extension)
}

/// Whether `second` comes directly behind `first` in `order`.
pub open spec fn comes_next(order: Seq<FilenameSegment>, first: FilenameSegment, second: FilenameSegment)
    -> bool {
    exists|k: int|
        0 <= k && k + 1 < order.len() && #[trigger] order[k] == first && order[k + 1] == second
}

/// Whether `text` is an identifier: eight digits, `T`, six digits.
pub open spec fn is_timestamp(text: Seq<char>) -> bool {
    text.len() == 15 && timestamp_at(text, 0)
}

/// Whether `c` nowhere occurs in `text`.
pub open spec fn is_free_of(text: Seq<char>, c: char) -> bool {
    forall|i: int| 0 <= i < text.len() ==> #[trigger] text[i] != c
}

/// Whether the metadata has every segment, the identifier is a timestamp,
/// and no value holds a separator other than the one that joins its words.
pub open spec fn fits_grammar(metadata: MetadataView) -> bool {
    &&& is_timestamp(metadata.identifier)
    &&& metadata.signature matches Some(s) && has_no_foreign_separator(s, None)
    &&& metadata.title matches Some(t) && has_no_foreign_separator(t, Some('-'))
    &&& metadata.keywords matches Some(ks) && forall|j: int|
        0 <= j < ks.len() ==> has_no_foreign_separator(#[trigger] ks[j], None)
    &&& has_no_foreign_separator(metadata.extension, Some('.'))
}

/// Whether no value of the metadata holds the letter that stands in the
/// middle of an identifier.
pub open spec fn has_no_timestamp_letter(metadata: MetadataView) -> bool {
    &&& metadata.signature matches Some(s) ==> is_free_of(s, 'T')
    &&& metadata.title matches Some(t) ==> is_free_of(t, 'T')
    &&& metadata.keywords matches Some(ks) ==> forall|j: int|
        0 <= j < ks.len() ==> is_free_of(#[trigger] ks[j], 'T')
    &&& is_free_of(metadata.extension, 'T')
}

/// The segments from position `low` up to position `high` of the order,
/// written one after another.
pub open spec fn slots_between(name: FilenameView, low: int, high: int) -> Seq<char>
    decreases high - low,
{
    if high <= low {
        Seq::empty()
    } else {
        slots_between(name, low, high - 1) + slot(name, name.segment_order[high - 1])
    }
}

proof fn lemma_slots_are_between(name: FilenameView, count: int)
    ensures
        slots(name, count) == slots_between(name, 0, count),
    decreases count,
{
    if count > 0 {
        lemma_slots_are_between(name, count - 1);
    }
}

proof fn lemma_between_split(name: FilenameView, low: int, mid: int, high: int)
    requires
        low <= mid <= high,
    ensures
        slots_between(name, low, high) == slots_between(name, low, mid) + slots_between(
            name,
            mid,
            high,
        ),
    decreases high - mid,
{
    if high > mid {
        lemma_between_split(name, low, mid, high - 1);
        assert(slots_between(name, low, high) =~= slots_between(name, low, mid) + slots_between(
            name,
            mid,
            high,
        ));
    } else {
        assert(slots_between(name, low, high) =~= slots_between(name, low, mid) + slots_between(
            name,
            mid,
            high,
        ));
    }
}

proof fn lemma_between_free(name: FilenameView, low: int, high: int, c: char)
    requires
        0 <= low,
        high <= name.segment_order.len(),
        forall|j: int| low <= j < high ==> is_free_of(slot(name, #[trigger] name.segment_order[j]), c),
    ensures
        is_free_of(slots_between(name, low, high), c),
    decreases high - low,
{
    if high > low {
        lemma_between_free(name, low, high - 1, c);
        assert(is_free_of(slot(name, name.segment_order[high - 1]), c));
    }
}

proof fn lemma_between_head(name: FilenameView, low: int, high: int)
    requires
        low < high,
        slot(name, name.segment_order[low]).len() > 0,
    ensures
        slots_between(name, low, high).len() > 0,
        slots_between(name, low, high)[0] == slot(name, name.segment_order[low])[0],
    decreases high - low,
{
    if high - 1 > low {
        lemma_between_head(name, low, high - 1);
    } else {
        assert(slots_between(name, low, low) =~= Seq::<char>::empty());
    }
}

/// Joined words hold only what the words and the delimiter hold.
proof fn lemma_joined_chars(parts: Seq<Seq<char>>, delimiter: Option<char>, allowed: spec_fn(
    char,
) -> bool)
    requires
        forall|j: int, i: int|
            0 <= j < parts.len() && 0 <= i < parts[j].len() ==> allowed(#[trigger] parts[j][i]),
        delimiter matches Some(d) ==> allowed(d),
    ensures
        forall|i: int|
            0 <= i < joined(parts, delimiter).len() ==> allowed(#[trigger] joined(parts, delimiter)[i]),
    decreases parts.len(),
{
    if parts.len() >= 2 {
        let init = parts.drop_last();
        assert forall|j: int, i: int| 0 <= j < init.len() && 0 <= i < init[j].len() implies allowed(
            #[trigger] init[j][i],
        ) by {
            assert(init[j][i] == parts[j][i]);
        }
        lemma_joined_chars(init, delimiter, allowed);
        let whole = joined(parts, delimiter);
        let head = joined(init, delimiter);
        assert forall|i: int| 0 <= i < whole.len() implies allowed(#[trigger] whole[i]) by {
            if i < head.len() {
                assert(whole[i] == head[i]);
            } else if i < head.len() + glue(delimiter).len() {
                assert(whole[i] == glue(delimiter)[i - head.len()]);
            } else {
                let last = parts.len() - 1;
                assert(whole[i] == parts[last][i - head.len() - glue(delimiter).len()]);
            }
        }
    } else if parts.len() == 1 {
        assert forall|i: int| 0 <= i < parts[0].len() implies allowed(
            #[trigger] joined(parts, delimiter)[i],
        ) by {
            assert(joined(parts, delimiter)[i] == parts[0][i]);
        }
    }
}

/// The value that the metadata has for a segment, as it is written behind
/// the marker.
pub open spec fn value_of(metadata: MetadataView, segment: FilenameSegment) -> Seq<char> {
    match segment {
        FilenameSegment::Identifier => metadata.identifier,
        FilenameSegment::Signature => match metadata.signature {
            Some(s) => s,
            None => Seq::empty(),
        },
        FilenameSegment::Title => match metadata.title {
            Some(t) => t,
            None => Seq::empty(),
        },
        FilenameSegment::Keywords => match metadata.keywords {
            Some(ks) => joined(ks, Some('_')),
            None => Seq::empty(),
        },
        FilenameSegment::Extension => metadata.extension,
    }
}

/// Each value holds no separator but the marker of its own segment.
proof fn lemma_value_separators(metadata: MetadataView, segment: FilenameSegment)
    requires
        fits_grammar(metadata),
    ensures
        forall|i: int|
            0 <= i < value_of(metadata, segment).len() && is_separator(
                #[trigger] value_of(metadata, segment)[i],
            ) ==> value_of(metadata, segment)[i] == marker_of(segment),
{
    let value = value_of(metadata, segment);
    match segment {
        FilenameSegment::Identifier => {
            assert forall|i: int| 0 <= i < value.len() implies !is_separator(#[trigger] value[i]) by {
                assert(value[0 + i] == value[i]);
                if i == 8 {
                    assert(value[0 + i] == 'T');
                } else {
                    assert(is_digit(value[0 + i]));
                }
            }
        },
        FilenameSegment::Keywords => {
            let ks = metadata.keywords->Some_0;
            let allowed = |c: char| !is_separator(c) || c == '_';
            assert forall|j: int, i: int| 0 <= j < ks.len() && 0 <= i < ks[j].len() implies allowed(
                #[trigger] ks[j][i],
            ) by {
                assert(has_no_foreign_separator(ks[j], None));
            }
            lemma_joined_chars(ks, Some('_'), allowed);
            assert forall|i: int| 0 <= i < value.len() && is_separator(#[trigger] value[i]) implies value[i]
                == '_' by {
                assert(allowed(value[i]));
            }
        },
        _ => {},
    }
}

/// Where the identifier does not come first, no value holds its letter.
proof fn lemma_value_letters(metadata: MetadataView, segment: FilenameSegment)
    requires
        fits_grammar(metadata),
        has_no_timestamp_letter(metadata),
        segment != FilenameSegment::Identifier,
    ensures
        is_free_of(value_of(metadata, segment), 'T'),
{
    if segment == FilenameSegment::Keywords {
        let ks = metadata.keywords->Some_0;
        let allowed = |c: char| c != 'T';
        assert forall|j: int, i: int| 0 <= j < ks.len() && 0 <= i < ks[j].len() implies allowed(
            #[trigger] ks[j][i],
        ) by {
            assert(is_free_of(ks[j], 'T'));
        }
        lemma_joined_chars(ks, Some('_'), allowed);
        let value = value_of(metadata, segment);
        assert forall|i: int| 0 <= i < value.len() implies #[trigger] value[i] != 'T' by {
            assert(allowed(value[i]));
        }
    }
}

/// What a written name holds for the segment at a position of its order:
/// the value behind its marker, but for an identifier that comes first,
/// which stands bare.
proof fn lemma_slot_shape(metadata: MetadataView, order: Seq<FilenameSegment>, at: int)
    requires
        fits_grammar(metadata),
        is_segment_order(order),
        0 <= at < 5,
    ensures
        slot(marked(metadata, order), order[at]) == if at == 0 && order[at]
            == FilenameSegment::Identifier {
            value_of(metadata, order[at])
        } else {
            prefix_of(order[at]) + value_of(metadata, order[at])
        },
{
    if order[at] == FilenameSegment::Identifier && at != 0 {
        assert(order[0] != order[at]);
    }
}

/// A written segment holds no separator but its own marker.
proof fn lemma_slot_separators(metadata: MetadataView, order: Seq<FilenameSegment>, at: int)
    requires
        fits_grammar(metadata),
        is_segment_order(order),
        0 <= at < 5,
    ensures
        forall|i: int|
            0 <= i < slot(marked(metadata, order), order[at]).len() && is_separator(
                #[trigger] slot(marked(metadata, order), order[at])[i],
            ) ==> slot(marked(metadata, order), order[at])[i] == marker_of(order[at]),
{
    lemma_slot_shape(metadata, order, at);
    lemma_value_separators(metadata, order[at]);
    let text = slot(marked(metadata, order), order[at]);
    let value = value_of(metadata, order[at]);
    let prefix = prefix_of(order[at]);
    assert forall|i: int| 0 <= i < text.len() && is_separator(#[trigger] text[i]) implies text[i]
        == marker_of(order[at]) by {
        if text == value {
            assert(is_separator(value[i]));
        } else if i >= prefix.len() {
            assert(text[i] == value[i - prefix.len()]);
        }
    }
}

/// A marker is where the first of its characters is, if the marker is
/// complete there.
proof fn lemma_marker_found(text: Seq<char>, segment: FilenameSegment, from: int, at: int)
    requires
        0 <= from <= at,
        marker_at(text, segment, at),
        forall|i: int| from <= i < at ==> #[trigger] text[i] != marker_of(segment),
    ensures
        marker_from(text, segment, from) == Some(at),
    decreases at - from,
{
    if from < at {
        lemma_marker_found(text, segment, from + 1, at);
    }
}

/// A marker that nowhere occurs is not found.
proof fn lemma_marker_absent(text: Seq<char>, segment: FilenameSegment, from: int)
    requires
        0 <= from,
        is_free_of(text, marker_of(segment)),
    ensures
        marker_from(text, segment, from) is None,
    decreases text.len() - from,
{
    if from + marker_width(segment) <= text.len() {
        assert(text[from] != marker_of(segment));
        lemma_marker_absent(text, segment, from + 1);
    }
}

/// A value runs up to the first character that ends it.
proof fn lemma_value_runs(text: Seq<char>, segment: FilenameSegment, from: int, end: int)
    requires
        0 <= from <= end <= text.len(),
        forall|i: int| from <= i < end ==> !ends_value(#[trigger] text[i], segment),
        end < text.len() ==> ends_value(text[end], segment),
    ensures
        value_end(text, segment, from) == end,
    decreases end - from,
{
    if from < end {
        assert(!ends_value(text[from], segment));
        lemma_value_runs(text, segment, from + 1, end);
    }
}

/// An identifier is found where the first one stands.
proof fn lemma_identifier_found(text: Seq<char>, from: int, at: int)
    requires
        0 <= from <= at,
        identifier_at(text, at),
        forall|i: int| from <= i < at ==> !#[trigger] timestamp_at(text, i),
    ensures
        identifier_from(text, from) == Some(at),
    decreases at - from,
{
    if from < at {
        assert(!timestamp_at(text, from));
        lemma_identifier_found(text, from + 1, at);
    }
}

/// The written name, cut at the segment that stands at a position.
proof fn lemma_rendered_parts(name: FilenameView, at: int)
    requires
        name.segment_order.len() == 5,
        0 <= at < 5,
    ensures
        rendered(name) == slots_between(name, 0, at) + slot(name, name.segment_order[at])
            + slots_between(name, at + 1, 5),
{
    lemma_slots_are_between(name, 5);
    lemma_between_split(name, 0, at + 1, 5);
    assert(slots_between(name, 0, at + 1) == slots_between(name, 0, at) + slot(
        name,
        name.segment_order[at],
    ));
}

/// What stands behind a written segment begins with the marker of the next
/// segment.
proof fn lemma_rest_begins_with_marker(metadata: MetadataView, order: Seq<FilenameSegment>, at: int)
    requires
        fits_grammar(metadata),
        is_segment_order(order),
        0 <= at < 4,
    ensures
        slots_between(marked(metadata, order), at + 1, 5).len() > 0,
        slots_between(marked(metadata, order), at + 1, 5)[0] == marker_of(order[at + 1]),
{
    let name = marked(metadata, order);
    lemma_slot_shape(metadata, order, at + 1);
    let next = prefix_of(order[at + 1]) + value_of(metadata, order[at + 1]);
    assert(next[0] == marker_of(order[at + 1]));
    lemma_between_head(name, at + 1, 5);
}

/// The segments before a position hold nothing of the marker of the segment
/// at that position.
proof fn lemma_front_has_no_marker(metadata: MetadataView, order: Seq<FilenameSegment>, at: int)
    requires
        fits_grammar(metadata),
        is_segment_order(order),
        0 <= at < 5,
    ensures
        is_free_of(slots_between(marked(metadata, order), 0, at), marker_of(order[at])),
{
    let name = marked(metadata, order);
    let c = marker_of(order[at]);
    assert forall|j: int| 0 <= j < at implies is_free_of(slot(name, #[trigger] order[j]), c) by {
        lemma_slot_separators(metadata, order, j);
        assert(order[j] != order[at]);
        let text = slot(name, order[j]);
        assert forall|i: int| 0 <= i < text.len() implies #[trigger] text[i] != c by {
            if text[i] == c {
                assert(is_separator(text[i]));
            }
        }
    }
    lemma_between_free(name, 0, at, c);
}

/// A segment other than the identifier is found in the written name as it
/// was written.
proof fn lemma_fragment_round_trip(
    metadata: MetadataView,
    order: Seq<FilenameSegment>,
    segment: FilenameSegment,
)
    requires
        fits_grammar(metadata),
        is_segment_order(order),
        segment != FilenameSegment::Identifier,
    ensures
        fragment_of(rendered(marked(metadata, order)), segment) == Some(
            prefix_of(segment) + value_of(metadata, segment),
        ),
{
    let name = marked(metadata, order);
    let at = choose|at: int| 0 <= at < order.len() && order[at] == segment;
    let front = slots_between(name, 0, at);
    let own = slot(name, segment);
    let rest = slots_between(name, at + 1, 5);
    let whole = rendered(name);
    let value = value_of(metadata, segment);
    let width = marker_width(segment);
    lemma_rendered_parts(name, at);
    lemma_slot_shape(metadata, order, at);
    lemma_front_has_no_marker(metadata, order, at);
    lemma_value_separators(metadata, segment);
    assert(own == prefix_of(segment) + value);
    assert(whole == front + own + rest);
    let start = front.len() as int;
    let end = start + own.len();
    assert(whole[start] == own[0]);
    assert(whole[start + width - 1] == own[width - 1]);
    assert forall|i: int| 0 <= i < start implies #[trigger] whole[i] != marker_of(segment) by {
        assert(whole[i] == front[i]);
    }
    lemma_marker_found(whole, segment, 0, start);
    assert forall|i: int| start + width <= i < end implies !ends_value(
        #[trigger] whole[i],
        segment,
    ) by {
        assert(whole[i] == value[i - start - width]);
    }
    if at < 4 {
        lemma_rest_begins_with_marker(metadata, order, at);
        assert(whole[end] == rest[0]);
        assert(order[at + 1] != order[at]);
    } else {
        assert(rest =~= Seq::<char>::empty());
    }
    lemma_value_runs(whole, segment, start + width, end);
    assert(whole.subrange(start, end) =~= own);
}

/// The identifier is found in the written name.
proof fn lemma_identifier_round_trip(metadata: MetadataView, order: Seq<FilenameSegment>)
    requires
        fits_grammar(metadata),
        is_segment_order(order),
        !comes_next(order, FilenameSegment::Identifier, FilenameSegment::Keywords),
        order[0] == FilenameSegment::Identifier || has_no_timestamp_letter(metadata),
    ensures
        identifier_of(rendered(marked(metadata, order))) == Some(metadata.identifier),
{
    let name = marked(metadata, order);
    let segment = FilenameSegment::Identifier;
    let at = choose|at: int| 0 <= at < order.len() && order[at] == segment;
    let front = slots_between(name, 0, at);
    let own = slot(name, segment);
    let rest = slots_between(name, at + 1, 5);
    let whole = rendered(name);
    let id = metadata.identifier;
    lemma_rendered_parts(name, at);
    lemma_slot_shape(metadata, order, at);
    assert(whole == front + own + rest);
    let start = front.len() + own.len() - 15;
    assert(own.subrange(own.len() - 15, own.len() as int) =~= id);
    assert forall|k: int| 0 <= k < 15 implies #[trigger] whole[start + k] == id[0 + k] by {
        assert(whole[start + k] == own[own.len() - 15 + k]);
    }
    assert(timestamp_at(whole, start));
    assert(is_digit(id[0int + 0]));
    assert(is_digit(id[0int + 14]));
    assert(is_word_at(whole, start));
    assert(is_word_at(whole, start + 14));
    if at == 0 {
        assert(front =~= Seq::<char>::empty());
    } else {
        assert(order[0] != order[at]);
        assert(own[1] == '@');
        assert(whole[start - 1] == own[1]);
        assert(!is_word_at(whole, start - 1));
    }
    if at < 4 {
        lemma_rest_begins_with_marker(metadata, order, at);
        assert(whole[start + 15] == rest[0]);
        assert(order[at + 1] != order[at]);
        assert(order[at + 1] != FilenameSegment::Keywords);
        assert(!is_word_at(whole, start + 15));
    } else {
        assert(rest =~= Seq::<char>::empty());
        assert(!is_word_at(whole, start + 15));
    }
    assert(identifier_at(whole, start));
    assert forall|i: int| 0 <= i < start implies !#[trigger] timestamp_at(whole, i) by {
        if timestamp_at(whole, i) {
            assert(whole[i + 8] == 'T');
            assert(at > 0);
            let j = i + 8;
            if j < front.len() {
                assert forall|p: int| 0 <= p < at implies is_free_of(
                    slot(name, #[trigger] order[p]),
                    'T',
                ) by {
                    lemma_slot_shape(metadata, order, p);
                    assert(order[p] != order[at]);
                    lemma_value_letters(metadata, order[p]);
                    let text = slot(name, order[p]);
                    let prefix = prefix_of(order[p]);
                    let value = value_of(metadata, order[p]);
                    assert forall|q: int| 0 <= q < text.len() implies #[trigger] text[q] != 'T' by {
                        if q >= prefix.len() {
                            assert(text[q] == value[q - prefix.len()]);
                        }
                    }
                }
                lemma_between_free(name, 0, at, 'T');
                assert(whole[j] == front[j]);
            } else if j < front.len() + 2 {
                assert(whole[j] == own[j - front.len()]);
            } else {
                assert(whole[j] == id[0 + (j - start)]);
                assert(is_digit(id[0 + (j - start)]));
            }
        }
    }
    lemma_identifier_found(whole, 0, start);
    assert(whole.subrange(start, start + 15) =~= id);
}

/// Values that fit the grammar are found again in the name that holds them
/// behind their markers.
proof fn lemma_marked_round_trip(
    metadata: MetadataView,
    order: Seq<FilenameSegment>,
    fresh: Seq<char>,
    default_extension: Seq<char>,
)
    requires
        fits_grammar(metadata),
        is_segment_order(order),
        !comes_next(order, FilenameSegment::Identifier, FilenameSegment::Keywords),
        order[0] == FilenameSegment::Identifier || has_no_timestamp_letter(metadata),
    ensures
        decoded(rendered(marked(metadata, order)), fresh, default_extension) == (FilenameView {
            identifier: metadata.identifier,
            segment_order: unknown_order(),
            ..marked(metadata, order)
        }),
{
    lemma_identifier_round_trip(metadata, order);
    lemma_fragment_round_trip(metadata, order, FilenameSegment::Signature);
    lemma_fragment_round_trip(metadata, order, FilenameSegment::Title);
    lemma_fragment_round_trip(metadata, order, FilenameSegment::Keywords);
    lemma_fragment_round_trip(metadata, order, FilenameSegment::Extension);
}

/// Whether the metadata is written with every segment: its identifier is a
/// timestamp, and of signature, title, keywords and extension something is
/// left when they are normalised.
pub open spec fn is_written_in_full(metadata: MetadataView, config: FileConfigView) -> bool {
    let written = written_values(metadata, config);
    &&& is_timestamp(metadata.identifier)
    &&& written.signature is Some
    &&& written.title is Some
    &&& written.keywords is Some
    &&& extension_of(metadata.extension, config.illegal_characters.to_set()) is Some
}

/// The values that are written hold no separator but the one that joins
/// their words, whatever the metadata holds.
pub proof fn lemma_written_values_fit(metadata: MetadataView, config: FileConfigView)
    ensures
        ({
            let written = written_values(metadata, config);
            let illegal = config.illegal_characters.to_set();
            &&& written.signature matches Some(s) ==> has_no_foreign_separator(s, None)
            &&& written.title matches Some(t) ==> has_no_foreign_separator(t, Some('-'))
            &&& written.keywords matches Some(ks) ==> forall|j: int|
                0 <= j < ks.len() ==> has_no_foreign_separator(#[trigger] ks[j], None)
            &&& extension_of(metadata.extension, illegal) is Some ==> has_no_foreign_separator(
                written.extension,
                Some('.'),
            )
        }),
{
    let illegal = config.illegal_characters.to_set();
    let written = written_values(metadata, config);
    if let Some(s) = metadata.signature {
        lemma_signature_is_clean(lowercase_of(s), illegal);
    }
    if let Some(t) = metadata.title {
        lemma_normalised_separators(lowercase_of(t), Some('-'), illegal);
    }
    if let Some(ks) = metadata.keywords {
        let lowered = lowercase_of(joined(ks, Some('_')));
        lemma_words_are_clean(lowered, Some('_'), illegal);
        let found = words(lowered, Some('_'), illegal);
        assert forall|j: int| 0 <= j < found.len() implies has_no_foreign_separator(
            #[trigger] found[j],
            None,
        ) by {
            assert(is_clean_word(found[j], Some('_'), illegal));
        }
    }
    lemma_normalised_separators(lowercase_of(metadata.extension), Some('.'), illegal);
}

/// Metadata that is written with every segment is found again in the file
/// name that was written from it: the identifier bare, every other segment
/// as it was written, marker and normalised value. This holds whatever the
/// values of the metadata are, under every order of the segments but those
/// that put the keywords directly behind the identifier, where the
/// underscore leaves the identifier without a word boundary. Where the
/// identifier does not come first, the written values must not hold the
/// letter `T`, so that none of them can be taken for an identifier.
pub proof fn lemma_filename_round_trip(
    metadata: MetadataView,
    config: FileConfigView,
    fresh: Seq<char>,
)
    requires
        is_written_in_full(metadata, config),
        is_segment_order(config.segment_order),
        !comes_next(config.segment_order, FilenameSegment::Identifier, FilenameSegment::Keywords),
        config.segment_order[0] == FilenameSegment::Identifier || has_no_timestamp_letter(
            written_values(metadata, config),
        ),
    ensures
        decoded(rendered(filename_of(metadata, config)), fresh, config.default_extension) == (
        FilenameView {
            identifier: metadata.identifier,
            segment_order: unknown_order(),
            ..filename_of(metadata, config)
        }),
{
    lemma_written_values_fit(metadata, config);
    lemma_marked_round_trip(
        written_values(metadata, config),
        config.segment_order,
        fresh,
        config.default_extension,
    );
}

/// Signature, title, keywords and extension of metadata that is written
/// with every segment are found again in the file name under every order of
/// the segments, also where the keywords stand directly behind the
/// identifier: each as it was written, marker and normalised value.
pub proof fn lemma_segment_round_trip(
    metadata: MetadataView,
    config: FileConfigView,
    segment: FilenameSegment,
)
    requires
        is_written_in_full(metadata, config),
        is_segment_order(config.segment_order),
        segment != FilenameSegment::Identifier,
    ensures
        fragment_of(rendered(filename_of(metadata, config)), segment) == Some(
            slot(filename_of(metadata, config), segment),
        ),
{
    lemma_written_values_fit(metadata, config);
    lemma_fragment_round_trip(written_values(metadata, config), config.segment_order, segment);
}

/// The extension of metadata that is written with every segment is read
/// again from the file name under every order of the segments: whole, with
/// all its parts, and never the default extension in its place.
pub proof fn lemma_extension_round_trip(
    metadata: MetadataView,
    config: FileConfigView,
    fresh: Seq<char>,
    default_extension: Seq<char>,
)
    requires
        is_written_in_full(metadata, config),
        is_segment_order(config.segment_order),
    ensures
        decoded(rendered(filename_of(metadata, config)), fresh, default_extension).extension
            == filename_of(metadata, config).extension,
        extension_of(metadata.extension, config.illegal_characters.to_set()) matches Some(e)
            && filename_of(metadata, config).extension == prefix_of(FilenameSegment::Extension) + e,
{
    lemma_segment_round_trip(metadata, config, FilenameSegment::Extension);
}

/// In a file name that is written from metadata, whatever the metadata
/// holds and whatever the order of its segments, the value behind the
/// marker of the signature holds no separator, that of the title none but
/// the hyphens that join its words, and that of the keywords none but the
/// underscores that join them.
pub proof fn lemma_written_values_hold_no_foreign_separator(
    metadata: MetadataView,
    config: FileConfigView,
)
    ensures
        ({
            let name = filename_of(metadata, config);
            &&& name.signature matches Some(s) ==> has_no_foreign_separator(s.skip(2), None)
            &&& name.title matches Some(t) ==> has_no_foreign_separator(t.skip(2), Some('-'))
            &&& name.keywords matches Some(k) ==> has_no_foreign_separator(k.skip(2), Some('_'))
        }),
{
    let written = written_values(metadata, config);
    let name = filename_of(metadata, config);
    lemma_written_values_fit(metadata, config);
    if let Some(s) = written.signature {
        assert(name.signature->Some_0.skip(2) =~= s);
    }
    if let Some(t) = written.title {
        assert(name.title->Some_0.skip(2) =~= t);
    }
    if let Some(ks) = written.keywords {
        let all = joined(ks, Some('_'));
        assert(name.keywords->Some_0.skip(2) =~= all);
        let allowed = |c: char| !is_separator(c) || c == '_';
        assert forall|j: int, i: int| 0 <= j < ks.len() && 0 <= i < ks[j].len() implies allowed(
            #[trigger] ks[j][i],
        ) by {
            assert(has_no_foreign_separator(ks[j], None));
        }
        lemma_joined_chars(ks, Some('_'), allowed);
        assert forall|i: int| 0 <= i < all.len() && is_separator(#[trigger] all[i]) implies Some('_')
            == Some(all[i]) by {
            assert(allowed(all[i]));
        }
    }
}

} // verus!
