//! The metadata of a note, and the builder that resolves raw values into it.

use vstd::prelude::*;
use crate::clock::{
    current_identifier, derive_creation_time, ends_in_timestamp, parsed_date_and_time, Timestamp,
    DN_IDENTIFIER_FORMAT,
};
use crate::collation::{
    can_collate, collated, deduplicate, deduplicated, lemma_collated_members,
    lemma_deduplicated_members, sort_collated, CollationError,
};
use crate::config::{text_of, FileConfig, FileConfigView};
use crate::sanitise::{
    extension_of, has_no_foreign_separator, keywords_of, lemma_normalised_separators,
    lemma_words_are_clean, parse_extension, parse_keywords, parse_signature, parse_title,
    is_canonical_text, is_clean_word, lemma_normalised_is_canonical, lemma_signature_is_clean,
    signature_of, texts, texts_of, title_of,
};
use crate::text::{lowercase_of, same_text};

verus! {

/// The metadata of a note that is written into its file name and its front
/// matter.
#[derive(Debug, Clone)]
pub struct FileMetadata {
    pub identifier: String,
    pub signature: Option<String>,
    pub title: Option<String>,
    /// The title as it was given, before it was normalised.
    pub title_raw: Option<String>,
    pub keywords: Option<Vec<String>>,
    pub extension: String,
    /// The time at which the note was made.
    pub creation_time: Timestamp,
}

/// Gathers raw values for a `FileMetadata`.
#[derive(Debug)]
pub struct FileMetadataBuilder {
    identifier: Option<String>,
    signature: Option<String>,
    title: Option<String>,
    keywords: Option<String>,
    added_keywords: Option<String>,
    removed_keywords: Option<String>,
    extension: Option<String>,
}

/// The metadata of a note as plain values.
pub struct MetadataView {
    pub identifier: Seq<char>,
    pub signature: Option<Seq<char>>,
    pub title: Option<Seq<char>>,
    pub title_raw: Option<Seq<char>>,
    pub keywords: Option<Seq<Seq<char>>>,
    pub extension: Seq<char>,
    pub creation_time: Timestamp,
}

/// The raw values that have been set on a builder, as plain values.
pub struct MetadataBuilderView {
    pub identifier: Option<Seq<char>>,
    pub signature: Option<Seq<char>>,
    pub title: Option<Seq<char>>,
    pub keywords: Option<Seq<char>>,
    pub added_keywords: Option<Seq<char>>,
    pub removed_keywords: Option<Seq<char>>,
    pub extension: Option<Seq<char>>,
}

impl View for FileMetadata {
    type V = MetadataView;

    open spec fn view(&self) -> MetadataView {
        MetadataView {
            identifier: self.identifier@,
            signature: text_of(self.signature),
            title: text_of(self.title),
            title_raw: text_of(self.title_raw),
            keywords: texts_of(self.keywords),
            extension: self.extension@,
            creation_time: self.creation_time,
        }
    }
}

impl View for FileMetadataBuilder {
    type V = MetadataBuilderView;

    closed spec fn view(&self) -> MetadataBuilderView {
        MetadataBuilderView {
            identifier: text_of(self.identifier),
            signature: text_of(self.signature),
            title: text_of(self.title),
            keywords: text_of(self.keywords),
            added_keywords: text_of(self.added_keywords),
            removed_keywords: text_of(self.removed_keywords),
            extension: text_of(self.extension),
        }
    }
}

impl MetadataView {
    /// Whether signature, title and keywords hold no separator but the
    /// hyphens that join the words of the title.
    pub open spec fn values_are_clean(self) -> bool {
        &&& self.signature matches Some(s) ==> has_no_foreign_separator(s, None)
        &&& self.title matches Some(t) ==> has_no_foreign_separator(t, Some('-'))
        &&& self.keywords matches Some(ks) ==> forall|j: int|
            0 <= j < ks.len() ==> has_no_foreign_separator(#[trigger] ks[j], None)
    }

    /// Whether signature, title and keywords hold no separator and no
    /// character of `illegal`, but the hyphens that join the words of the
    /// title, and no keyword is empty.
    pub open spec fn values_are_legal(self, illegal: Set<char>) -> bool {
        &&& self.signature matches Some(s) ==> s.len() > 0 && is_canonical_text(s, None, illegal)
        &&& self.title matches Some(t) ==> t.len() > 0 && is_canonical_text(
            t,
            Some('-'),
            illegal,
        )
        &&& self.keywords matches Some(ks) ==> forall|j: int|
            0 <= j < ks.len() ==> (#[trigger] ks[j]).len() > 0 && is_canonical_text(
                ks[j],
                None,
                illegal,
            )
    }
}

/// The view of an optional string slice.
pub open spec fn slice_of(value: Option<&str>) -> Option<Seq<char>> {
    match value {
        Some(s) => Some(s@),
        None => None,
    }
}

/// The keywords that optional raw text lists.
pub open spec fn listed(raw: Option<Seq<char>>, illegal: Set<char>) -> Seq<Seq<char>> {
    match raw {
        Some(r) => match keywords_of(r, illegal) {
            Some(found) => found,
            None => Seq::empty(),
        },
        None => Seq::empty(),
    }
}

/// The base keywords and the added ones, without those that are removed.
pub open spec fn kept_keywords(
    base: Seq<Seq<char>>,
    added: Seq<Seq<char>>,
    removed: Seq<Seq<char>>,
) -> Seq<Seq<char>> {
    (base + added).filter(|k: Seq<char>| !removed.contains(k))
}

/// The keywords of the metadata: none where neither base nor added keywords
/// are given; else those that are kept, in collation order, each once.
pub open spec fn resolved_keywords(
    base: Seq<Seq<char>>,
    added: Seq<Seq<char>>,
    removed: Seq<Seq<char>>,
) -> Option<Seq<Seq<char>>> {
    if base.len() == 0 && added.len() == 0 {
        None
    } else {
        Some(deduplicated(collated(kept_keywords(base, added, removed))))
    }
}

/// How many keywords a builder keeps under a configuration: its base
/// keywords and its added ones, without the removed ones.
pub open spec fn kept_count(builder: MetadataBuilderView, config: FileConfigView) -> nat {
    let illegal = config.illegal_characters.to_set();
    kept_keywords(
        listed(builder.keywords, illegal),
        listed(builder.added_keywords, illegal),
        listed(builder.removed_keywords, illegal),
    ).len()
}

/// The metadata that a builder stands for under a configuration, where
/// `fresh` is the identifier to use if none is kept, and `created` the time
/// at which the note was made.
pub open spec fn resolved(
    builder: MetadataBuilderView,
    config: FileConfigView,
    fresh: Seq<char>,
    created: Timestamp,
) -> MetadataView {
    let illegal = config.illegal_characters.to_set();
    MetadataView {
        identifier: match builder.identifier {
            Some(i) if !config.regenerate_identifier => i,
            _ => fresh,
        },
        signature: match builder.signature {
            Some(s) => signature_of(s, illegal),
            None => None,
        },
        title: match builder.title {
            Some(t) => title_of(t, illegal),
            None => None,
        },
        title_raw: builder.title,
        keywords: resolved_keywords(
            listed(builder.keywords, illegal),
            listed(builder.added_keywords, illegal),
            listed(builder.removed_keywords, illegal),
        ),
        extension: match builder.extension {
            Some(e) => match extension_of(e, illegal) {
                Some(e) => e,
                None => config.default_extension,
            },
            None => config.default_extension,
        },
        creation_time: created,
    }
}

/// A builder in which nothing has been set.
pub open spec fn empty_metadata_builder() -> MetadataBuilderView {
    MetadataBuilderView {
        identifier: None,
        signature: None,
        title: None,
        keywords: None,
        added_keywords: None,
        removed_keywords: None,
        extension: None,
    }
}

impl Default for FileMetadata {
    fn default() -> (metadata: Self)
        ensures
            metadata@ == (MetadataView {
                identifier: Seq::empty(),
                signature: None,
                title: None,
                title_raw: None,
                keywords: None,
                extension: Seq::empty(),
                creation_time: Timestamp {
                    year: 1970,
                    month: 1,
                    day: 1,
                    hour: 0,
                    minute: 0,
                    second: 0,
                    offset_seconds: 0,
                },
            }),
    {
        FileMetadata {
            identifier: String::new(),
            signature: None,
            title: None,
            title_raw: None,
            keywords: None,
            extension: String::new(),
            creation_time: Timestamp::default(),
        }
    }
}

fn owned(value: Option<&str>) -> (out: Option<String>)
    ensures
        text_of(out) == slice_of(value),
{
    match value {
        Some(s) => Some(s.to_owned()),
        None => None,
    }
}

/// Tells whether `list` holds `item`.
pub fn contains_text(list: &Vec<String>, item: &str) -> (found: bool)
    ensures
        found == texts(list@).contains(item@),
{
    let mut i: usize = 0;
    while i < list.len()
        invariant
            i <= list.len(),
            forall|k: int| 0 <= k < i ==> texts(list@)[k] != item@,
        decreases list.len() - i,
    {
        if same_text(list[i].as_str(), item) {
            assert(texts(list@)[i as int] == item@);
            return true;
        }
        i += 1;
    }
    false
}

proof fn lemma_kept_push(items: Seq<Seq<char>>, item: Seq<char>, removed: Seq<Seq<char>>)
    ensures
        items.push(item).filter(|k: Seq<char>| !removed.contains(k)) == if removed.contains(item) {
            items.filter(|k: Seq<char>| !removed.contains(k))
        } else {
            items.filter(|k: Seq<char>| !removed.contains(k)).push(item)
        },
{
    reveal(Seq::filter);
    assert(items.push(item).drop_last() =~= items);
}

/// Appends to `out` the entries of `from` that `removed` does not hold.
fn keep_unless_removed(out: &mut Vec<String>, from: &Vec<String>, removed: &Vec<String>, Ghost(before): Ghost<Seq<Seq<char>>>)
    requires
        texts(old(out)@) == before.filter(|k: Seq<char>| !texts(removed@).contains(k)),
    ensures
        texts(final(out)@) == (before + texts(from@)).filter(
            |k: Seq<char>| !texts(removed@).contains(k),
        ),
{
    let mut i: usize = 0;
    assert(before + texts(from@).take(0) =~= before);
    while i < from.len()
        invariant
            i <= from.len(),
            texts(out@) == (before + texts(from@).take(i as int)).filter(
                |k: Seq<char>| !texts(removed@).contains(k),
            ),
        decreases from.len() - i,
    {
        proof {
            assert(before + texts(from@).take(i + 1) =~= (before + texts(from@).take(
                i as int,
            )).push(from@[i as int]@));
            lemma_kept_push(
                before + texts(from@).take(i as int),
                from@[i as int]@,
                texts(removed@),
            );
        }
        if !contains_text(removed, from[i].as_str()) {
            let item = from[i].clone();
            let ghost earlier = out@;
            out.push(item);
            assert(texts(out@) =~= texts(earlier).push(item@));
        }
        i += 1;
    }
    assert(texts(from@).take(from.len() as int) =~= texts(from@));
}

/// Merges keyword lists: the base keywords and the added ones, without the
/// removed ones, sorted by collation and each kept once. `None` where both
/// base and added are empty. Fails exactly where two keywords or more are
/// kept and the collation library makes no collator.
pub fn resolve_keywords(base: &Vec<String>, added: &Vec<String>, removed: &Vec<String>) -> (out:
    Result<Option<Vec<String>>, CollationError>)
    ensures
        out is Ok <==> can_collate(
            kept_keywords(texts(base@), texts(added@), texts(removed@)).len(),
        ),
        out matches Ok(keywords) ==> texts_of(keywords) == resolved_keywords(
            texts(base@),
            texts(added@),
            texts(removed@),
        ),
{
    if base.len() == 0 && added.len() == 0 {
        proof {
            reveal(Seq::filter);
            assert(texts(base@) + texts(added@) =~= Seq::<Seq<char>>::empty());
        }
        return Ok(None);
    }
    let mut kept: Vec<String> = Vec::new();
    proof {
        reveal(Seq::filter);
        assert(texts(kept@) =~= Seq::<Seq<char>>::empty());
    }
    keep_unless_removed(&mut kept, base, removed, Ghost(Seq::empty()));
    assert(Seq::<Seq<char>>::empty() + texts(base@) =~= texts(base@));
    keep_unless_removed(&mut kept, added, removed, Ghost(texts(base@)));
    match sort_collated(kept) {
        Ok(sorted) => Ok(Some(deduplicate(sorted))),
        Err(e) => Err(e),
    }
}

fn listed_keywords(raw: &Option<String>, illegal: &Vec<char>) -> (out: Vec<String>)
    ensures
        texts(out@) == listed(text_of(*raw), illegal@.to_set()),
{
    match raw {
        Some(r) => match parse_keywords(r.as_str(), illegal) {
            Some(found) => found,
            None => {
                let none: Vec<String> = Vec::new();
                assert(texts(none@) =~= Seq::<Seq<char>>::empty());
                none
            },
        },
        None => {
            let none: Vec<String> = Vec::new();
            assert(texts(none@) =~= Seq::<Seq<char>>::empty());
            none
        },
    }
}

impl FileMetadata {
    /// Creates a new builder in which nothing is set.
    pub fn builder() -> (builder: FileMetadataBuilder)
        ensures
            builder@ == empty_metadata_builder(),
    {
        FileMetadataBuilder {
            identifier: None,
            signature: None,
            title: None,
            keywords: None,
            added_keywords: None,
            removed_keywords: None,
            extension: None,
        }
    }
}

impl FileMetadataBuilder {
    /// Sets or clears the identifier that is kept.
    pub fn with_identifier(self, value: Option<&str>) -> (updated: Self)
        ensures
            updated@ == (MetadataBuilderView { identifier: slice_of(value), ..self@ }),
    {
        let mut builder = self;
        builder.identifier = owned(value);
        builder
    }

    /// Sets or clears the raw signature.
    pub fn with_signature(self, value: Option<&str>) -> (updated: Self)
        ensures
            updated@ == (MetadataBuilderView { signature: slice_of(value), ..self@ }),
    {
        let mut builder = self;
        builder.signature = owned(value);
        builder
    }

    /// Sets or clears the raw title.
    pub fn with_title(self, value: Option<&str>) -> (updated: Self)
        ensures
            updated@ == (MetadataBuilderView { title: slice_of(value), ..self@ }),
    {
        let mut builder = self;
        builder.title = owned(value);
        builder
    }

    /// Sets or clears the raw base keywords.
    pub fn with_keywords(self, value: Option<&str>) -> (updated: Self)
        ensures
            updated@ == (MetadataBuilderView { keywords: slice_of(value), ..self@ }),
    {
        let mut builder = self;
        builder.keywords = owned(value);
        builder
    }

    /// Sets or clears the raw keywords to add to the base keywords.
    pub fn with_added_keywords(self, value: Option<&str>) -> (updated: Self)
        ensures
            updated@ == (MetadataBuilderView { added_keywords: slice_of(value), ..self@ }),
    {
        let mut builder = self;
        builder.added_keywords = owned(value);
        builder
    }

    /// Sets or clears the raw keywords to take out of base and added ones.
    pub fn with_removed_keywords(self, value: Option<&str>) -> (updated: Self)
        ensures
            updated@ == (MetadataBuilderView { removed_keywords: slice_of(value), ..self@ }),
    {
        let mut builder = self;
        builder.removed_keywords = owned(value);
        builder
    }

    /// Sets or clears the raw extension.
    pub fn with_extension(self, value: Option<&str>) -> (updated: Self)
        ensures
            updated@ == (MetadataBuilderView { extension: slice_of(value), ..self@ }),
    {
        let mut builder = self;
        builder.extension = owned(value);
        builder
    }

    /// Resolves the raw values into metadata, with `fresh` as the identifier
    /// where none is kept or the configuration asks for a new one, and
    /// `created` as the time at which the note was made. Fails exactly
    /// where two keywords or more are kept and the collation library makes
    /// no collator.
    pub fn build_with(&self, config: &FileConfig, fresh: &str, created: Timestamp) -> (metadata:
        Result<FileMetadata, CollationError>)
        ensures
            metadata matches Ok(m) ==> m@ == resolved(self@, config@, fresh@, created)
                && m@.values_are_clean() && m@.values_are_legal(
                config@.illegal_characters.to_set(),
            ),
            metadata is Ok <==> can_collate(kept_count(self@, config@)),
    {
        let illegal = &config.illegal_characters;
        let identifier = match &self.identifier {
            Some(i) => if config.regenerate_identifier {
                fresh.to_owned()
            } else {
                i.clone()
            },
            None => fresh.to_owned(),
        };
        let signature = match &self.signature {
            Some(s) => parse_signature(s.as_str(), illegal),
            None => None,
        };
        let title = match &self.title {
            Some(t) => parse_title(t.as_str(), illegal),
            None => None,
        };
        let title_raw = match &self.title {
            Some(t) => Some(t.clone()),
            None => None,
        };
        let base = listed_keywords(&self.keywords, illegal);
        let added = listed_keywords(&self.added_keywords, illegal);
        let removed = listed_keywords(&self.removed_keywords, illegal);
        let keywords = match resolve_keywords(&base, &added, &removed) {
            Ok(k) => k,
            Err(e) => {
                return Err(e);
            },
        };
        let extension = match &self.extension {
            Some(e) => match parse_extension(e.as_str(), illegal) {
                Some(e) => e,
                None => config.default_extension.clone(),
            },
            None => config.default_extension.clone(),
        };
        let metadata = FileMetadata {
            identifier,
            signature,
            title,
            title_raw,
            keywords,
            extension,
            creation_time: created,
        };
        proof {
            lemma_resolved_is_clean(self@, config@, fresh@, created);
        }
        Ok(metadata)
    }

    /// Resolves the raw values into metadata. Where no identifier is kept,
    /// or the configuration asks for a new one, the identifier is taken from
    /// the clock and ends in a timestamp. The note was made at the date and
    /// the time of day that its identifier names, or now where it names
    /// none. Everything else is as `build_with` says.
    pub fn build(&self, config: &FileConfig) -> (metadata: Result<FileMetadata, CollationError>)
        ensures
            metadata matches Ok(m) ==> m@ == resolved(
                self@,
                config@,
                m@.identifier,
                m@.creation_time,
            )
                && m@.values_are_clean() && m@.values_are_legal(
                config@.illegal_characters.to_set(),
            ),
            metadata is Ok <==> can_collate(kept_count(self@, config@)),
            metadata matches Ok(m) ==> m@.creation_time.is_reading(),
            metadata matches Ok(m) ==> (parsed_date_and_time(
                m@.identifier,
                DN_IDENTIFIER_FORMAT@,
            ) matches Some(found) ==> m@.creation_time.date_and_time() == found),
            metadata matches Ok(m) ==> (self@.identifier is None || config.regenerate_identifier
                ==> ends_in_timestamp(m@.identifier)),
    {
        match &self.identifier {
            Some(kept) if !config.regenerate_identifier => {
                let created = derive_creation_time(kept.as_str());
                self.build_with(config, "", created)
            },
            _ => {
                let fresh = current_identifier();
                let created = derive_creation_time(fresh.as_str());
                self.build_with(config, fresh.as_str(), created)
            },
        }
    }
}

/// The keywords that are kept are exactly those that are base or added
/// keywords and not removed ones.
pub proof fn lemma_kept_keywords_members(
    base: Seq<Seq<char>>,
    added: Seq<Seq<char>>,
    removed: Seq<Seq<char>>,
)
    ensures
        kept_keywords(base, added, removed).to_set() == (base.to_set() + added.to_set()).difference(
            removed.to_set(),
        ),
{
    let all = base + added;
    let keep = |k: Seq<char>| !removed.contains(k);
    let kept = all.filter(keep);
    vstd::seq_lib::seq_to_set_distributes_over_add(base, added);
    assert forall|x: Seq<char>| kept.to_set().contains(x) <==> all.to_set().difference(
        removed.to_set(),
    ).contains(x) by {
        if kept.contains(x) {
            all.lemma_filter_contains_rev(keep, x);
            let i = choose|i: int| 0 <= i < kept.len() && kept[i] == x;
            all.lemma_filter_pred(keep, i);
        }
        if all.contains(x) && !removed.contains(x) {
            let i = choose|i: int| 0 <= i < all.len() && all[i] == x;
            all.lemma_filter_contains(keep, i);
        }
    }
    assert(kept.to_set() =~= all.to_set().difference(removed.to_set()));
}

/// As a set, the resolved keywords are the base keywords and the added ones
/// without the removed ones.
pub proof fn lemma_keyword_set_algebra(
    base: Seq<Seq<char>>,
    added: Seq<Seq<char>>,
    removed: Seq<Seq<char>>,
)
    requires
        base.len() > 0 || added.len() > 0,
    ensures
        resolved_keywords(base, added, removed) matches Some(keywords) && keywords.to_set() == (
        base.to_set() + added.to_set()).difference(removed.to_set()),
{
    let kept = kept_keywords(base, added, removed);
    lemma_kept_keywords_members(base, added, removed);
    lemma_collated_members(kept);
    lemma_deduplicated_members(collated(kept));
}

/// The words of a keyword list are not empty and hold neither a separator
/// nor an illegal character.
proof fn lemma_listed_is_clean(raw: Option<Seq<char>>, illegal: Set<char>)
    ensures
        forall|j: int|
            0 <= j < listed(raw, illegal).len() ==> has_no_foreign_separator(
                #[trigger] listed(raw, illegal)[j],
                None,
            ) && listed(raw, illegal)[j].len() > 0 && is_canonical_text(
                listed(raw, illegal)[j],
                None,
                illegal,
            ),
{
    match raw {
        Some(r) => {
            lemma_words_are_clean(lowercase_of(r), Some('_'), illegal);
            let found = crate::sanitise::words(lowercase_of(r), Some('_'), illegal);
            assert forall|j: int| 0 <= j < found.len() implies has_no_foreign_separator(
                #[trigger] found[j],
                None,
            ) && found[j].len() > 0 && is_canonical_text(found[j], None, illegal) by {
                assert(is_clean_word(found[j], Some('_'), illegal));
            }
        },
        None => {},
    }
}

/// Resolved metadata holds no separator and no illegal character inside
/// signature, title and keywords, but the hyphens that join the words of the
/// title.
pub proof fn lemma_resolved_is_clean(
    builder: MetadataBuilderView,
    config: FileConfigView,
    fresh: Seq<char>,
    created: Timestamp,
)
    ensures
        resolved(builder, config, fresh, created).values_are_clean(),
        resolved(builder, config, fresh, created).values_are_legal(
            config.illegal_characters.to_set(),
        ),
{
    let illegal = config.illegal_characters.to_set();
    let m = resolved(builder, config, fresh, created);
    if let Some(s) = builder.signature {
        lemma_signature_is_clean(lowercase_of(s), illegal);
    }
    if let Some(t) = builder.title {
        lemma_normalised_separators(lowercase_of(t), Some('-'), illegal);
        lemma_normalised_is_canonical(lowercase_of(t), Some('-'), illegal);
    }
    let base = listed(builder.keywords, illegal);
    let added = listed(builder.added_keywords, illegal);
    let removed = listed(builder.removed_keywords, illegal);
    if let Some(ks) = m.keywords {
        let kept = kept_keywords(base, added, removed);
        lemma_listed_is_clean(builder.keywords, illegal);
        lemma_listed_is_clean(builder.added_keywords, illegal);
        lemma_collated_members(kept);
        lemma_deduplicated_members(collated(kept));
        assert forall|j: int| 0 <= j < ks.len() implies has_no_foreign_separator(
            #[trigger] ks[j],
            None,
        ) && ks[j].len() > 0 && is_canonical_text(ks[j], None, illegal) by {
            assert(deduplicated(collated(kept)).contains(ks[j]));
            assert(deduplicated(collated(kept)).to_set().contains(ks[j]));
            assert(collated(kept).to_set().contains(ks[j]));
            assert(kept.to_set().contains(ks[j]));
            assert(kept.contains(ks[j]));
            (base + added).lemma_filter_contains_rev(|k: Seq<char>| !removed.contains(k), ks[j]);
            let at = choose|at: int| 0 <= at < (base + added).len() && (base + added)[at] == ks[j];
            if at < base.len() {
                assert(base[at] == ks[j]);
            } else {
                assert(added[at - base.len()] == ks[j]);
            }
        }
    }
}

} // verus!
