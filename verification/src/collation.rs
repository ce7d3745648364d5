//! Ordering of keywords by the collation of the Unicode root locale.

use vstd::prelude::*;
use icu_collator::{Collator, CollatorError, CollatorOptions, Strength};
use crate::sanitise::texts;

verus! {

/// The error with which the collation library declines to make a collator.
#[verifier::external_type_specification]
#[verifier::external_body]
pub struct ExCollatorError(CollatorError);

/// How closely a collation looks at two texts: at the base letters only,
/// also at accents, also at letter case and other variants of a letter, and
/// so on up to the code points themselves.
#[derive(Clone, Copy, Debug, PartialEq, Eq, Structural)]
pub enum CollationStrength {
    Primary,
    Secondary,
    Tertiary,
    Quaternary,
    Identical,
}

/// How the root collation of Unicode orders two texts at a strength: `-1`
/// where `left` sorts first, `1` where `right` does, `0` where neither
/// does.
pub uninterp spec fn collation_of(strength: CollationStrength, left: Seq<char>, right: Seq<char>)
    -> int;

/// Whether the collation library makes a collator of the root locale at a
/// strength from the data that is compiled into it.
pub uninterp spec fn collator_made(strength: CollationStrength) -> bool;

/// `Collator::try_new` with the default locale and the given strength, then
/// `Collator::compare` on the two texts. Only making the collator can fail,
/// and whether it does lies with the strength and the compiled data alone,
/// not with the texts. The result of the comparison is given as a number;
/// which one it is for given texts is left to the collation data.
#[verifier::external_body]
fn collate(strength: CollationStrength, left: &str, right: &str) -> (order: Result<
    i8,
    CollatorError,
>)
    ensures
        order is Ok <==> collator_made(strength),
        order matches Ok(o) ==> o == collation_of(strength, left@, right@) && -1 <= o <= 1,
{
    let mut options = CollatorOptions::new();
    options.strength = Some(match strength {
        CollationStrength::Primary => Strength::Primary,
        CollationStrength::Secondary => Strength::Secondary,
        CollationStrength::Tertiary => Strength::Tertiary,
        CollationStrength::Quaternary => Strength::Quaternary,
        CollationStrength::Identical => Strength::Identical,
    });
    let collator = Collator::try_new(Default::default(), options)?;
    Ok(match collator.compare(left, right) {
        std::cmp::Ordering::Less => -1,
        std::cmp::Ordering::Equal => 0,
        std::cmp::Ordering::Greater => 1,
    })
}

/// Whether the collation that orders keywords, which looks as closely as
/// letter case, puts `left` strictly before `right`.
pub open spec fn sorts_before(left: Seq<char>, right: Seq<char>) -> bool {
    collation_of(CollationStrength::Tertiary, left, right) < 0
}

/// `sorted` with `item` placed behind the last entry that it does not sort
/// strictly before.
pub open spec fn inserted(sorted: Seq<Seq<char>>, item: Seq<char>) -> Seq<Seq<char>>
    decreases sorted.len(),
{
    if sorted.len() > 0 && sorts_before(item, sorted.last()) {
        inserted(sorted.drop_last(), item).push(sorted.last())
    } else {
        sorted.push(item)
    }
}

/// The items in collation order, equal ones in the order in which they came.
pub open spec fn collated(items: Seq<Seq<char>>) -> Seq<Seq<char>>
    decreases items.len(),
{
    if items.len() == 0 {
        items
    } else {
        inserted(collated(items.drop_last()), items.last())
    }
}

/// `items` without those that repeat the entry just before them.
pub open spec fn deduplicated(items: Seq<Seq<char>>) -> Seq<Seq<char>>
    decreases items.len(),
{
    if items.len() == 0 {
        items
    } else if items.len() >= 2 && items[items.len() - 2] == items.last() {
        deduplicated(items.drop_last())
    } else {
        deduplicated(items.drop_last()).push(items.last())
    }
}

/// Inserting puts the item at the place that a scan from the end finds.
proof fn lemma_inserted_at(sorted: Seq<Seq<char>>, item: Seq<char>, at: int)
    requires
        0 <= at <= sorted.len(),
        forall|k: int| at <= k < sorted.len() ==> sorts_before(item, #[trigger] sorted[k]),
        at > 0 ==> !sorts_before(item, sorted[at - 1]),
    ensures
        inserted(sorted, item) == sorted.insert(at, item),
    decreases sorted.len() - at,
{
    if at == sorted.len() {
        assert(sorted.insert(at, item) =~= sorted.push(item));
    } else {
        lemma_inserted_at(sorted.drop_last(), item, at);
        assert(sorted.insert(at, item) =~= sorted.drop_last().insert(at, item).push(
            sorted.last(),
        ));
    }
}

/// Inserting adds the item and nothing else.
proof fn lemma_inserted_members(sorted: Seq<Seq<char>>, item: Seq<char>)
    ensures
        inserted(sorted, item).to_set() == sorted.to_set().insert(item),
    decreases sorted.len(),
{
    if sorted.len() > 0 && sorts_before(item, sorted.last()) {
        let init = sorted.drop_last();
        lemma_inserted_members(init, item);
        inserted(init, item).lemma_push_to_set_commute(sorted.last());
        init.lemma_push_to_set_commute(sorted.last());
        assert(init.push(sorted.last()) =~= sorted);
        assert(inserted(sorted, item).to_set() =~= sorted.to_set().insert(item));
    } else {
        sorted.lemma_push_to_set_commute(item);
    }
}

/// Collation order holds the items that went in, and no others.
pub proof fn lemma_collated_members(items: Seq<Seq<char>>)
    ensures
        collated(items).to_set() == items.to_set(),
    decreases items.len(),
{
    if items.len() > 0 {
        let init = items.drop_last();
        lemma_collated_members(init);
        lemma_inserted_members(collated(init), items.last());
        init.lemma_push_to_set_commute(items.last());
        assert(init.push(items.last()) =~= items);
    }
}

/// Dropping repeats leaves the items that went in, and no others.
pub proof fn lemma_deduplicated_members(items: Seq<Seq<char>>)
    ensures
        deduplicated(items).to_set() == items.to_set(),
    decreases items.len(),
{
    if items.len() > 0 {
        let init = items.drop_last();
        lemma_deduplicated_members(init);
        init.lemma_push_to_set_commute(items.last());
        deduplicated(init).lemma_push_to_set_commute(items.last());
        assert(init.push(items.last()) =~= items);
        if items.len() >= 2 && items[items.len() - 2] == items.last() {
            assert(init[init.len() - 1] == items.last());
            assert(init.contains(items.last()));
            assert(init.to_set().insert(items.last()) =~= init.to_set());
        }
    }
}

/// Whether no entry sorts strictly before the entry in front of it.
pub open spec fn is_in_order(items: Seq<Seq<char>>) -> bool {
    forall|k: int|
        0 <= k && k + 1 < items.len() ==> !sorts_before(#[trigger] items[k + 1], items[k])
}

/// Whether the collation never puts each of two texts before the other.
pub open spec fn is_one_sided() -> bool {
    forall|left: Seq<char>, right: Seq<char>|
        !(#[trigger] sorts_before(left, right) && sorts_before(right, left))
}

proof fn lemma_inserted_is_in_order(sorted: Seq<Seq<char>>, item: Seq<char>)
    requires
        is_one_sided(),
        is_in_order(sorted),
    ensures
        is_in_order(inserted(sorted, item)),
        inserted(sorted, item).len() == sorted.len() + 1,
        inserted(sorted, item).last() == if sorted.len() > 0 && sorts_before(item, sorted.last()) {
            sorted.last()
        } else {
            item
        },
    decreases sorted.len(),
{
    if sorted.len() > 0 && sorts_before(item, sorted.last()) {
        let init = sorted.drop_last();
        assert(is_in_order(init)) by {
            assert forall|k: int| 0 <= k && k + 1 < init.len() implies !sorts_before(
                #[trigger] init[k + 1],
                init[k],
            ) by {
                assert(init[k + 1] == sorted[k + 1]);
                assert(init[k] == sorted[k]);
            }
        }
        lemma_inserted_is_in_order(init, item);
        let front = inserted(init, item);
        let all = front.push(sorted.last());
        assert forall|k: int| 0 <= k && k + 1 < all.len() implies !sorts_before(
            #[trigger] all[k + 1],
            all[k],
        ) by {
            if k + 1 < front.len() {
                assert(all[k + 1] == front[k + 1]);
                assert(all[k] == front[k]);
            } else {
                assert(all[k] == front.last());
                if init.len() > 0 && sorts_before(item, init.last()) {
                    assert(init.last() == sorted[sorted.len() - 2]);
                    assert(sorted.last() == sorted[(sorted.len() - 2) + 1]);
                }
            }
        }
    } else {
        let all = sorted.push(item);
        assert forall|k: int| 0 <= k && k + 1 < all.len() implies !sorts_before(
            #[trigger] all[k + 1],
            all[k],
        ) by {
            if k + 1 < sorted.len() {
                assert(all[k + 1] == sorted[k + 1]);
                assert(all[k] == sorted[k]);
            }
        }
    }
}

/// Where the collation never puts each of two texts before the other, no
/// entry of the collation order sorts strictly before the entry in front of
/// it.
pub proof fn lemma_collated_is_in_order(items: Seq<Seq<char>>)
    ensures
        is_one_sided() ==> is_in_order(collated(items)),
    decreases items.len(),
{
    if is_one_sided() && items.len() > 0 {
        lemma_collated_is_in_order(items.drop_last());
        lemma_inserted_is_in_order(collated(items.drop_last()), items.last());
    }
}

/// Why keywords could not be brought into order.
#[derive(Clone, Copy, Debug, PartialEq, Eq, Structural)]
pub enum CollationError {
    /// The collation library did not provide a collator.
    Unavailable,
}

/// Whether items can be brought into collation order: fewer than two need
/// no collator, more need the collation library to make one.
pub open spec fn can_collate(count: nat) -> bool {
    count < 2 || collator_made(CollationStrength::Tertiary)
}

/// Brings `items` into collation order. Items that the collation does not
/// tell apart stay in the order in which they came. Fails exactly where
/// there are two items or more and the collation library makes no collator.
pub fn sort_collated(items: Vec<String>) -> (out: Result<Vec<String>, CollationError>)
    ensures
        out is Ok <==> can_collate(items@.len()),
        out matches Ok(sorted) ==> texts(sorted@) == collated(texts(items@)),
        out matches Err(e) ==> e == CollationError::Unavailable,
{
    let mut sorted: Vec<String> = Vec::new();
    let mut i: usize = 0;
    assert(texts(items@).take(0) =~= Seq::<Seq<char>>::empty());
    while i < items.len()
        invariant
            i <= items.len(),
            texts(sorted@) == collated(texts(items@).take(i as int)),
            sorted@.len() == i,
            i >= 2 ==> collator_made(CollationStrength::Tertiary),
        decreases items.len() - i,
    {
        let item = items[i].clone();
        let mut at: usize = sorted.len();
        let mut placed = false;
        while at > 0 && !placed
            invariant
                at <= sorted.len(),
                placed ==> at > 0 && !sorts_before(item@, texts(sorted@)[at - 1]),
                at < sorted.len() || placed ==> collator_made(CollationStrength::Tertiary),
                sorted@.len() == i,
                i < items.len(),
                item@ == items@[i as int]@,
                forall|k: int|
                    at <= k < sorted.len() ==> sorts_before(item@, #[trigger] texts(sorted@)[k]),
            decreases at + if placed { 0int } else { 1int },
        {
            match collate(CollationStrength::Tertiary, item.as_str(), sorted[at - 1].as_str()) {
                Ok(order) => {
                    if order < 0 {
                        at -= 1;
                    } else {
                        placed = true;
                    }
                },
                Err(_) => {
                    return Err(CollationError::Unavailable);
                },
            }
        }
        proof {
            let upto = texts(items@).take(i + 1);
            assert(upto.drop_last() =~= texts(items@).take(i as int));
            assert(upto.last() == item@);
            lemma_inserted_at(texts(sorted@), item@, at as int);
        }
        let ghost before = sorted@;
        sorted.insert(at, item);
        assert(texts(sorted@) =~= texts(before).insert(at as int, item@));
        i += 1;
    }
    assert(texts(items@).take(items.len() as int) =~= texts(items@));
    Ok(sorted)
}

/// Drops every item that repeats the one just before it.
pub fn deduplicate(items: Vec<String>) -> (out: Vec<String>)
    ensures
        texts(out@) == deduplicated(texts(items@)),
{
    let mut out: Vec<String> = Vec::new();
    let mut i: usize = 0;
    assert(texts(items@).take(0) =~= Seq::<Seq<char>>::empty());
    while i < items.len()
        invariant
            i <= items.len(),
            texts(out@) == deduplicated(texts(items@).take(i as int)),
        decreases items.len() - i,
    {
        proof {
            let upto = texts(items@).take(i + 1);
            assert(upto.drop_last() =~= texts(items@).take(i as int));
            assert(upto.last() == items@[i as int]@);
            if i > 0 {
                assert(upto[upto.len() - 2] == items@[i - 1]@);
            }
        }
        if i == 0 || !crate::text::same_text(items[i - 1].as_str(), items[i].as_str()) {
            let item = items[i].clone();
            let ghost before = out@;
            out.push(item);
            assert(texts(out@) =~= texts(before).push(item@));
        }
        i += 1;
    }
    assert(texts(items@).take(items.len() as int) =~= texts(items@));
    out
}

} // verus!
