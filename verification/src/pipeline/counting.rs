//! Counting the items that are in a given state, the workers that are busy
//! and the outcomes that are successes, with the facts about these counts
//! that the invariant of the pipeline rests on.

use vstd::prelude::*;
use super::types::DownloadOutcomeView;
use super::types::ItemState;

verus! {

/// One where `condition` holds, zero where it does not.
pub open spec fn one_if(condition: bool) -> nat {
    if condition {
        1
    } else {
        0
    }
}

/// How many of `states` are `state`.
pub open spec fn count_state(states: Seq<ItemState>, state: ItemState) -> nat
    decreases states.len(),
{
    if states.len() == 0 {
        0
    } else {
        count_state(states.drop_last(), state) + one_if(states.last() == state)
    }
}

/// How many of the slots hold something.
pub open spec fn busy<T>(slots: Seq<Option<T>>) -> nat
    decreases slots.len(),
{
    if slots.len() == 0 {
        0
    } else {
        busy(slots.drop_last()) + one_if(slots.last() is Some)
    }
}

/// How many of the outcomes are successes.
pub open spec fn successes(outcomes: Seq<DownloadOutcomeView>) -> nat
    decreases outcomes.len(),
{
    if outcomes.len() == 0 {
        0
    } else {
        successes(outcomes.drop_last()) + one_if(outcomes.last().result is Success)
    }
}

/// How many of the outcomes are failures.
pub open spec fn failures(outcomes: Seq<DownloadOutcomeView>) -> nat
    decreases outcomes.len(),
{
    if outcomes.len() == 0 {
        0
    } else {
        failures(outcomes.drop_last()) + one_if(outcomes.last().result is Failure)
    }
}

/// Changing the state of one item moves one unit from the count of its old
/// state to the count of its new one.
pub proof fn lemma_count_update(states: Seq<ItemState>, at: int, next: ItemState, state: ItemState)
    requires
        0 <= at < states.len(),
    ensures
        count_state(states.update(at, next), state) + one_if(states[at] == state)
            == count_state(states, state) + one_if(next == state),
    decreases states.len(),
{
    let updated = states.update(at, next);
    if at == states.len() - 1 {
        assert(updated.drop_last() =~= states.drop_last());
    } else {
        lemma_count_update(states.drop_last(), at, next, state);
        assert(updated.drop_last() =~= states.drop_last().update(at, next));
    }
}

/// A state that no item is in has the count 0.
pub proof fn lemma_count_absent(states: Seq<ItemState>, state: ItemState)
    requires
        forall|i: int| 0 <= i < states.len() ==> states[i] != state,
    ensures
        count_state(states, state) == 0,
    decreases states.len(),
{
    if states.len() > 0 {
        lemma_count_absent(states.drop_last(), state);
    }
}

/// A state that some item is in has a positive count.
pub proof fn lemma_count_present(states: Seq<ItemState>, state: ItemState, at: int)
    requires
        0 <= at < states.len(),
        states[at] == state,
    ensures
        count_state(states, state) > 0,
    decreases states.len(),
{
    if at < states.len() - 1 {
        lemma_count_present(states.drop_last(), state, at);
    }
}

/// Where exactly the items from `from` on are in `state`, their number is
/// the count of that state.
pub proof fn lemma_count_tail(states: Seq<ItemState>, state: ItemState, from: int)
    requires
        0 <= from <= states.len(),
        forall|i: int| 0 <= i < from ==> states[i] != state,
        forall|i: int| from <= i < states.len() ==> states[i] == state,
    ensures
        count_state(states, state) == states.len() - from,
    decreases states.len(),
{
    if from == states.len() {
        lemma_count_absent(states, state);
    } else {
        lemma_count_tail(states.drop_last(), state, from);
    }
}

/// Every item is in exactly one state: the six counts add up to the number
/// of items.
pub proof fn lemma_count_partition(states: Seq<ItemState>)
    ensures
        count_state(states, ItemState::Pending)
            + count_state(states, ItemState::Resolving)
            + count_state(states, ItemState::Resolved)
            + count_state(states, ItemState::Downloading)
            + count_state(states, ItemState::Completed)
            + count_state(states, ItemState::Failed)
            == states.len(),
    decreases states.len(),
{
    if states.len() > 0 {
        lemma_count_partition(states.drop_last());
    }
}

/// Filling or emptying one slot changes the number of busy slots by as much.
pub proof fn lemma_busy_update<T>(slots: Seq<Option<T>>, at: int, next: Option<T>)
    requires
        0 <= at < slots.len(),
    ensures
        busy(slots.update(at, next)) + one_if(slots[at] is Some)
            == busy(slots) + one_if(next is Some),
    decreases slots.len(),
{
    let updated = slots.update(at, next);
    if at == slots.len() - 1 {
        assert(updated.drop_last() =~= slots.drop_last());
    } else {
        lemma_busy_update(slots.drop_last(), at, next);
        assert(updated.drop_last() =~= slots.drop_last().update(at, next));
    }
}

/// No more slots are busy than there are slots.
pub proof fn lemma_busy_bound<T>(slots: Seq<Option<T>>)
    ensures
        busy(slots) <= slots.len(),
    decreases slots.len(),
{
    if slots.len() > 0 {
        lemma_busy_bound(slots.drop_last());
    }
}

/// Where every slot is empty, none is busy.
pub proof fn lemma_busy_idle<T>(slots: Seq<Option<T>>)
    requires
        forall|w: int| 0 <= w < slots.len() ==> slots[w] is None,
    ensures
        busy(slots) == 0,
    decreases slots.len(),
{
    if slots.len() > 0 {
        lemma_busy_idle(slots.drop_last());
    }
}

/// Every outcome is a success or a failure.
pub proof fn lemma_outcomes_split(outcomes: Seq<DownloadOutcomeView>)
    ensures
        successes(outcomes) + failures(outcomes) == outcomes.len(),
    decreases outcomes.len(),
{
    if outcomes.len() > 0 {
        lemma_outcomes_split(outcomes.drop_last());
    }
}

/// One more outcome adds one to the count of its kind.
pub proof fn lemma_outcomes_push(outcomes: Seq<DownloadOutcomeView>, outcome: DownloadOutcomeView)
    ensures
        successes(outcomes.push(outcome))
            == successes(outcomes) + one_if(outcome.result is Success),
        failures(outcomes.push(outcome))
            == failures(outcomes) + one_if(outcome.result is Failure),
{
    assert(outcomes.push(outcome).drop_last() =~= outcomes);
}

/// How many events an item in `state` can still take part in before it
/// reaches the end of its life.
pub open spec fn steps_left(state: ItemState) -> nat {
    match state {
        ItemState::Pending => 4,
        ItemState::Resolving => 3,
        ItemState::Resolved => 2,
        ItemState::Downloading => 1,
        ItemState::Completed => 0,
        ItemState::Failed => 0,
    }
}

/// The steps that all items together still have before them.
pub open spec fn work_left(states: Seq<ItemState>) -> nat
    decreases states.len(),
{
    if states.len() == 0 {
        0
    } else {
        work_left(states.drop_last()) + steps_left(states.last())
    }
}

/// Changing the state of one item changes the work that is left by the
/// difference between the steps that its old and its new state leave.
pub proof fn lemma_work_update(states: Seq<ItemState>, at: int, next: ItemState)
    requires
        0 <= at < states.len(),
    ensures
        work_left(states.update(at, next)) + steps_left(states[at]) == work_left(states)
            + steps_left(next),
    decreases states.len(),
{
    let updated = states.update(at, next);
    if at == states.len() - 1 {
        assert(updated.drop_last() =~= states.drop_last());
    } else {
        lemma_work_update(states.drop_last(), at, next);
        assert(updated.drop_last() =~= states.drop_last().update(at, next));
    }
}

/// No item has more than four steps before it.
pub proof fn lemma_work_bound(states: Seq<ItemState>)
    ensures
        work_left(states) <= 4 * states.len(),
    decreases states.len(),
{
    if states.len() > 0 {
        lemma_work_bound(states.drop_last());
    }
}

} // verus!
