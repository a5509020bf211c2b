//! Narrowing a list of sticker sets down to the ones a person ticked, and
//! saying which ones those are.

use vstd::prelude::*;
use crate::bot::StickerSet;

verus! {

/// The items whose position is among `selection`, in the order they came in.
/// A position that is listed twice, or that no item has, changes nothing.
pub open spec fn picked<T>(items: Seq<T>, selection: Seq<usize>) -> Seq<T>
    decreases items.len(),
{
    if items.len() == 0 {
        Seq::empty()
    } else {
        let rest = picked(items.drop_last(), selection);
        if selection.contains((items.len() - 1) as usize) {
            rest.push(items.last())
        } else {
            rest
        }
    }
}

/// Nothing is picked that was not there, and nothing is picked twice: the
/// result is never longer than the list it is taken from.
pub proof fn lemma_picked_len<T>(items: Seq<T>, selection: Seq<usize>)
    ensures
        picked(items, selection).len() <= items.len(),
    decreases items.len(),
{
    if items.len() > 0 {
        lemma_picked_len(items.drop_last(), selection);
    }
}

/// With every position selected, every item is kept.
pub proof fn lemma_picked_all<T>(items: Seq<T>, selection: Seq<usize>)
    requires
        items.len() <= usize::MAX,
        forall|position: usize| position < items.len() ==> selection.contains(position),
    ensures
        picked(items, selection) == items,
    decreases items.len(),
{
    if items.len() > 0 {
        lemma_picked_all(items.drop_last(), selection);
        assert(items.drop_last().push(items.last()) =~= items);
    }
}

/// With no position selected, no item is kept.
pub proof fn lemma_picked_none<T>(items: Seq<T>)
    ensures
        picked(items, Seq::<usize>::empty()).len() == 0,
    decreases items.len(),
{
    if items.len() > 0 {
        lemma_picked_none(items.drop_last());
    }
}

/// Whether `position` is listed in `selection`.
pub fn is_selected(selection: &[usize], position: usize) -> (found: bool)
    ensures
        found == selection@.contains(position),
{
    let mut at: usize = 0;
    while at < selection.len()
        invariant
            at <= selection@.len(),
            forall|i: int| 0 <= i < at ==> selection@[i] != position,
        decreases selection@.len() - at,
    {
        if selection[at] == position {
            return true;
        }
        at = at + 1;
    }
    false
}

/// Keeps the items whose position is listed in `selection` and drops the
/// others. The kept items stay in the order they came in.
pub fn retain_selected<T>(items: Vec<T>, selection: &[usize]) -> (kept: Vec<T>)
    ensures
        kept@ == picked(items@, selection@),
{
    let ghost all = items@;
    let total = items.len();
    let mut kept: Vec<T> = Vec::new();
    let mut position: usize = 0;
    for item in it: items
        invariant
            it.seq() == all,
            all.len() == total,
            position == it.index(),
            kept@ == picked(all.take(position as int), selection@),
    {
        proof {
            let prefix = all.take(position + 1);
            assert(prefix.drop_last() =~= all.take(position as int));
            assert(prefix.last() == item);
        }
        if is_selected(selection, position) {
            kept.push(item);
        }
        position = position + 1;
    }
    proof {
        assert(all.take(position as int) =~= all);
    }
    kept
}

/// The texts, with `separator` between each two neighbours.
pub open spec fn joined(texts: Seq<Seq<char>>, separator: Seq<char>) -> Seq<char>
    decreases texts.len(),
{
    if texts.len() == 0 {
        Seq::empty()
    } else if texts.len() == 1 {
        texts[0]
    } else {
        joined(texts.drop_last(), separator) + separator + texts.last()
    }
}

/// The titles of the sets, in order.
pub open spec fn titles_of(sets: Seq<StickerSet>) -> Seq<Seq<char>> {
    sets.map_values(|set: StickerSet| set.title@)
}

/// Names the sets that were chosen: their titles, separated by `, `.
pub fn selection_summary(sets: &Vec<StickerSet>) -> (summary: String)
    ensures
        summary@ == joined(titles_of(sets@), ", "@),
{
    let mut summary = String::new();
    let mut at: usize = 0;
    while at < sets.len()
        invariant
            at <= sets@.len(),
            summary@ == joined(titles_of(sets@).take(at as int), ", "@),
        decreases sets@.len() - at,
    {
        proof {
            let prefix = titles_of(sets@).take(at + 1);
            assert(prefix.drop_last() =~= titles_of(sets@).take(at as int));
            assert(prefix.last() == sets@[at as int].title@);
            if at == 0 {
                assert(prefix[0] == prefix.last());
                assert(summary@ + prefix[0] =~= prefix[0]);
            }
        }
        if at > 0 {
            summary.append(", ");
        }
        summary.append(sets[at].title.as_str());
        at = at + 1;
    }
    proof {
        assert(titles_of(sets@).take(at as int) =~= titles_of(sets@));
    }
    summary
}

} // verus!
