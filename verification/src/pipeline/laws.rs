//! What holds of every run of the pipeline.
//!
//! The first part shows that the invariant of the model holds at the start
//! and is kept by every event. The second part draws the conclusions: every
//! item gets exactly one outcome, the queue and the pool stay within their
//! bounds, an aborted run queues nothing more, and a failure touches no item
//! but the one that failed.

use vstd::prelude::*;
use super::counting::busy;
use super::counting::count_state;
use super::counting::failures;
use super::counting::lemma_busy_bound;
use super::counting::lemma_busy_idle;
use super::counting::lemma_busy_update;
use super::counting::lemma_count_absent;
use super::counting::lemma_count_partition;
use super::counting::lemma_count_present;
use super::counting::lemma_count_tail;
use super::counting::lemma_count_update;
use super::counting::lemma_outcomes_push;
use super::counting::lemma_outcomes_split;
use super::counting::lemma_work_bound;
use super::counting::lemma_work_update;
use super::counting::one_if;
use super::counting::work_left;
use super::counting::successes;
use super::model::Event;
use super::model::PipelineView;
use super::types::resolution_failure;
use super::types::DownloadReport;
use super::types::DownloadResultView;
use super::types::FailurePolicy;
use super::types::ItemState;
use super::types::ItemView;
use super::types::ResolverAction;
use super::types::Stage;

verus! {

/// The counts of the four states that the invariant keeps books on, after
/// the state of the item at `at` has changed to `next`.
proof fn lemma_counts_after_update(states: Seq<ItemState>, at: int, next: ItemState)
    requires
        0 <= at < states.len(),
    ensures
        forall|state: ItemState|
            #![trigger count_state(states.update(at, next), state)]
            count_state(states.update(at, next), state) + one_if(states[at] == state)
                == count_state(states, state) + one_if(next == state),
{
    assert forall|state: ItemState|
        #![trigger count_state(states.update(at, next), state)]
        count_state(states.update(at, next), state) + one_if(states[at] == state)
            == count_state(states, state) + one_if(next == state) by {
        lemma_count_update(states, at, next, state);
    }
}

/// An item that has an outcome keeps it while outcomes are only added.
proof fn lemma_outcome_persists(s: PipelineView, next: PipelineView, position: int)
    requires
        s.has_outcome(position),
        s.outcomes.len() <= next.outcomes.len(),
        forall|j: int| 0 <= j < s.outcomes.len() ==> next.outcomes[j] == s.outcomes[j],
    ensures
        next.has_outcome(position),
{
    let j = choose|j: int|
        0 <= j < s.outcomes.len() && (#[trigger] s.outcomes[j]).position == position;
    assert(next.outcomes[j].position == position);
}

/// A pipeline starts in a state that satisfies the invariant.
pub proof fn lemma_init_inv(
    items: Seq<ItemView>,
    output_dir: Seq<char>,
    policy: FailurePolicy,
    capacity: nat,
    parallelism: nat,
)
    requires
        capacity >= 1,
        parallelism >= 1,
        forall|i: int| 0 <= i < items.len() ==> (#[trigger] items[i]).sticker.has_valid_media(),
    ensures
        PipelineView::init(items, output_dir, policy, capacity, parallelism).inv(),
{
    let s = PipelineView::init(items, output_dir, policy, capacity, parallelism);
    lemma_count_absent(s.states, ItemState::Resolved);
    lemma_count_absent(s.states, ItemState::Downloading);
    lemma_count_absent(s.states, ItemState::Completed);
    lemma_count_absent(s.states, ItemState::Failed);
    lemma_busy_idle(s.workers);
}

/// Asking what to resolve next keeps the invariant.
pub proof fn lemma_begin_resolution_inv(s: PipelineView)
    requires
        s.inv(),
    ensures
        s.begin_resolution().inv(),
{
    let next = s.begin_resolution();
    if next != s {
        let c = s.cursor as int;
        lemma_counts_after_update(s.states, c, ItemState::Resolving);
        assert(next.waiting() == s.waiting());
        assert forall|j: int| 0 <= j < next.waiting().len()
        implies next.holds(#[trigger] next.waiting()[j], ItemState::Resolved) by {
            assert(s.holds(s.waiting()[j], ItemState::Resolved));
        }
        assert forall|j: int| 0 <= j < next.outcomes.len()
        implies next.records(#[trigger] next.outcomes[j]) by {
            assert(s.records(s.outcomes[j]));
        }
        assert forall|i: int| 0 <= i < next.states.len() && #[trigger] next.is_settled(i)
        implies next.has_outcome(i) by {
            assert(s.is_settled(i));
            lemma_outcome_persists(s, next, i);
        }
    }
}

/// Taking in a resolved location keeps the invariant.
pub proof fn lemma_resolved_inv(s: PipelineView, remote_path: Seq<char>)
    requires
        s.inv(),
    ensures
        s.resolved(remote_path).inv(),
{
    let next = s.resolved(remote_path);
    if s.is_resolving() {
        let c = s.cursor as int;
        let location = s.location(s.cursor, remote_path);
        lemma_counts_after_update(s.states, c, ItemState::Resolved);
        assert(s.held is None);
        assert(next.waiting() =~= s.waiting().push(location));
        assert forall|j: int| 0 <= j < next.waiting().len()
        implies next.holds(#[trigger] next.waiting()[j], ItemState::Resolved) by {
            if j < s.waiting().len() {
                assert(s.holds(s.waiting()[j], ItemState::Resolved));
            }
        }
        assert forall|j: int, k: int| 0 <= j < k < next.waiting().len()
        implies (#[trigger] next.waiting()[j]).position
            < (#[trigger] next.waiting()[k]).position by {
            assert(s.holds(s.waiting()[j], ItemState::Resolved));
        }
        assert forall|w: int| 0 <= w < next.workers.len() && (#[trigger] next.workers[w]) is Some
        implies next.holds(next.workers[w]->0, ItemState::Downloading) by {
            assert(s.holds(s.workers[w]->0, ItemState::Downloading));
        }
        assert forall|j: int| 0 <= j < next.outcomes.len()
        implies next.records(#[trigger] next.outcomes[j]) by {
            assert(s.records(s.outcomes[j]));
        }
        assert forall|i: int| 0 <= i < next.states.len() && #[trigger] next.is_settled(i)
        implies next.has_outcome(i) by {
            assert(s.is_settled(i));
            lemma_outcome_persists(s, next, i);
        }
    }
}

/// Recording a failure to resolve keeps the invariant, under either policy.
pub proof fn lemma_resolution_failed_inv(s: PipelineView)
    requires
        s.inv(),
    ensures
        s.resolution_failed().inv(),
{
    let next = s.resolution_failed();
    if s.is_resolving() {
        let c = s.cursor as int;
        lemma_counts_after_update(s.states, c, ItemState::Failed);
        assert(s.held is None);
        assert(next.waiting() == s.waiting());
        assert forall|j: int| 0 <= j < next.waiting().len()
        implies next.holds(#[trigger] next.waiting()[j], ItemState::Resolved) by {
            assert(s.holds(s.waiting()[j], ItemState::Resolved));
        }
        assert forall|w: int| 0 <= w < next.workers.len() && (#[trigger] next.workers[w]) is Some
        implies next.holds(next.workers[w]->0, ItemState::Downloading) by {
            assert(s.holds(s.workers[w]->0, ItemState::Downloading));
        }
        match s.policy {
            FailurePolicy::SkipAndContinue => {
                let outcome = s.outcome(s.cursor, resolution_failure());
                lemma_outcomes_push(s.outcomes, outcome);
                assert forall|j: int| 0 <= j < next.outcomes.len()
                implies next.records(#[trigger] next.outcomes[j]) by {
                    if j < s.outcomes.len() {
                        assert(s.records(s.outcomes[j]));
                    }
                }
                assert forall|j: int, k: int| 0 <= j < k < next.outcomes.len()
                implies (#[trigger] next.outcomes[j]).position
                    != (#[trigger] next.outcomes[k]).position by {
                    assert(s.records(s.outcomes[j]));
                }
                assert forall|i: int| 0 <= i < next.states.len() && #[trigger] next.is_settled(i)
                implies next.has_outcome(i) by {
                    if i == c {
                        assert(next.outcomes[s.outcomes.len() as int].position == i);
                    } else {
                        assert(s.is_settled(i));
                        lemma_outcome_persists(s, next, i);
                    }
                }
            },
            FailurePolicy::Abort => {
                assert forall|j: int| 0 <= j < next.outcomes.len()
                implies next.records(#[trigger] next.outcomes[j]) by {
                    assert(s.records(s.outcomes[j]));
                }
                assert forall|i: int| 0 <= i < next.states.len() && #[trigger] next.is_settled(i)
                implies next.has_outcome(i) by {
                    assert(s.is_settled(i));
                    lemma_outcome_persists(s, next, i);
                }
            },
        }
    }
}

/// Handing the oldest queued item to a worker keeps the invariant.
pub proof fn lemma_take_inv(s: PipelineView, worker: nat)
    requires
        s.inv(),
    ensures
        s.take(worker).inv(),
{
    let next = s.take(worker);
    if s.is_idle(worker) && s.queue.len() > 0 {
        let location = s.queue[0];
        let p = location.position as int;
        assert(location == s.waiting()[0]);
        assert(s.holds(s.waiting()[0], ItemState::Resolved));
        lemma_counts_after_update(s.states, p, ItemState::Downloading);
        lemma_busy_update(s.workers, worker as int, Some(location));
        assert(next.waiting() =~= s.waiting().drop_first());
        assert forall|j: int| 0 <= j < next.waiting().len()
        implies next.holds(#[trigger] next.waiting()[j], ItemState::Resolved) by {
            assert(next.waiting()[j] == s.waiting()[j + 1]);
            assert(s.holds(s.waiting()[j + 1], ItemState::Resolved));
            assert(s.waiting()[0].position < s.waiting()[j + 1].position);
        }
        assert forall|j: int, k: int| 0 <= j < k < next.waiting().len()
        implies (#[trigger] next.waiting()[j]).position
            < (#[trigger] next.waiting()[k]).position by {
            assert(next.waiting()[j] == s.waiting()[j + 1]);
            assert(next.waiting()[k] == s.waiting()[k + 1]);
        }
        assert forall|w: int| 0 <= w < next.workers.len() && (#[trigger] next.workers[w]) is Some
        implies next.holds(next.workers[w]->0, ItemState::Downloading) by {
            if w != worker {
                assert(s.holds(s.workers[w]->0, ItemState::Downloading));
            }
        }
        assert forall|v: int, w: int|
            0 <= v < w < next.workers.len()
                && (#[trigger] next.workers[v]) is Some
                && (#[trigger] next.workers[w]) is Some
        implies next.workers[v]->0.position != next.workers[w]->0.position by {
            if v != worker {
                assert(s.holds(s.workers[v]->0, ItemState::Downloading));
            }
            if w != worker {
                assert(s.holds(s.workers[w]->0, ItemState::Downloading));
            }
        }
        assert forall|j: int| 0 <= j < next.outcomes.len()
        implies next.records(#[trigger] next.outcomes[j]) by {
            assert(s.records(s.outcomes[j]));
        }
        assert(s.fatal is Some ==> s.held is None);
        assert forall|i: int| 0 <= i < next.states.len() && #[trigger] next.is_settled(i)
        implies next.has_outcome(i) by {
            assert(s.is_settled(i));
            lemma_outcome_persists(s, next, i);
        }
    }
}

/// Recording the end of a download keeps the invariant.
pub proof fn lemma_complete_inv(s: PipelineView, worker: nat, report: DownloadReport)
    requires
        s.inv(),
    ensures
        s.complete(worker, report).inv(),
{
    let next = s.complete(worker, report);
    if s.is_downloading(worker) {
        let location = s.workers[worker as int]->0;
        let p = location.position as int;
        assert(s.holds(location, ItemState::Downloading));
        let state = match report {
            DownloadReport::Saved => ItemState::Completed,
            DownloadReport::FailedAt(_) => ItemState::Failed,
        };
        let outcome = s.outcome(location.position, s.result_of(location.position, report));
        lemma_counts_after_update(s.states, p, state);
        lemma_busy_update(s.workers, worker as int, None);
        lemma_outcomes_push(s.outcomes, outcome);
        assert(next.waiting() == s.waiting());
        assert forall|j: int| 0 <= j < next.waiting().len()
        implies next.holds(#[trigger] next.waiting()[j], ItemState::Resolved) by {
            assert(s.holds(s.waiting()[j], ItemState::Resolved));
        }
        assert forall|w: int| 0 <= w < next.workers.len() && (#[trigger] next.workers[w]) is Some
        implies next.holds(next.workers[w]->0, ItemState::Downloading) by {
            assert(s.holds(s.workers[w]->0, ItemState::Downloading));
            if w < worker {
                assert(s.workers[w]->0.position != s.workers[worker as int]->0.position);
            } else {
                assert(s.workers[worker as int]->0.position != s.workers[w]->0.position);
            }
        }
        assert forall|j: int| 0 <= j < next.outcomes.len()
        implies next.records(#[trigger] next.outcomes[j]) by {
            if j < s.outcomes.len() {
                assert(s.records(s.outcomes[j]));
            }
        }
        assert forall|j: int, k: int| 0 <= j < k < next.outcomes.len()
        implies (#[trigger] next.outcomes[j]).position
            != (#[trigger] next.outcomes[k]).position by {
            assert(s.records(s.outcomes[j]));
        }
        assert forall|i: int| 0 <= i < next.states.len() && #[trigger] next.is_settled(i)
        implies next.has_outcome(i) by {
            if i == p {
                assert(next.outcomes[s.outcomes.len() as int].position == i);
            } else {
                assert(s.is_settled(i));
                lemma_outcome_persists(s, next, i);
            }
        }
    }
}

/// Every event keeps the invariant.
pub proof fn lemma_step_inv(s: PipelineView, event: Event)
    requires
        s.inv(),
    ensures
        s.step(event).inv(),
{
    match event {
        Event::BeginResolution => lemma_begin_resolution_inv(s),
        Event::Resolved { remote_path } => lemma_resolved_inv(s, remote_path),
        Event::ResolutionFailed => lemma_resolution_failed_inv(s),
        Event::Take { worker } => lemma_take_inv(s, worker),
        Event::Complete { worker, report } => lemma_complete_inv(s, worker, report),
    }
}

/// Whatever happens, and in whatever order, the invariant holds.
pub proof fn lemma_run_inv(s: PipelineView, events: Seq<Event>)
    requires
        s.inv(),
    ensures
        s.run(events).inv(),
    decreases events.len(),
{
    if events.len() > 0 {
        lemma_run_inv(s, events.drop_last());
        lemma_step_inv(s.run(events.drop_last()), events.last());
    }
}

/// At every moment of every run the queue is within its capacity, no more
/// downloads are under way than there are workers, and no item has more
/// than one outcome.
pub proof fn lemma_every_run_stays_within_bounds(
    items: Seq<ItemView>,
    output_dir: Seq<char>,
    policy: FailurePolicy,
    capacity: nat,
    parallelism: nat,
    events: Seq<Event>,
) -> (now: PipelineView)
    requires
        capacity >= 1,
        parallelism >= 1,
        forall|i: int| 0 <= i < items.len() ==> (#[trigger] items[i]).sticker.has_valid_media(),
    ensures
        now == PipelineView::init(items, output_dir, policy, capacity, parallelism).run(events),
        now.inv(),
        now.items == items,
        now.capacity == capacity,
        now.parallelism() == parallelism,
        now.queue.len() <= capacity,
        now.in_flight() <= parallelism,
        now.outcomes.len() <= items.len(),
{
    let start = PipelineView::init(items, output_dir, policy, capacity, parallelism);
    lemma_init_inv(items, output_dir, policy, capacity, parallelism);
    lemma_run_inv(start, events);
    lemma_run_keeps_the_setup(start, events);
    let now = start.run(events);
    lemma_in_flight_within_pool(now);
    lemma_no_item_has_two_outcomes(now);
    now
}

/// What is fixed at the start of a run stays fixed throughout.
pub proof fn lemma_run_keeps_the_setup(s: PipelineView, events: Seq<Event>)
    requires
        s.inv(),
    ensures
        s.run(events).items == s.items,
        s.run(events).output_dir == s.output_dir,
        s.run(events).policy == s.policy,
        s.run(events).capacity == s.capacity,
        s.run(events).workers.len() == s.workers.len(),
    decreases events.len(),
{
    if events.len() > 0 {
        lemma_run_keeps_the_setup(s, events.drop_last());
        lemma_run_inv(s, events.drop_last());
        lemma_step_touches_one_item(s.run(events.drop_last()), events.last());
    }
}

/// Once a run has been aborted it stays aborted, and however long it goes
/// on, not one more item is queued.
pub proof fn lemma_nothing_is_queued_after_abort(s: PipelineView, events: Seq<Event>)
    requires
        s.inv(),
        s.is_aborted(),
    ensures
        s.run(events).is_aborted(),
        s.run(events).fatal == s.fatal,
        s.run(events).enqueued == s.enqueued,
        s.run(events).cursor == s.cursor,
        s.run(events).held is None,
        s.run(events).queue.len() <= s.queue.len(),
    decreases events.len(),
{
    if events.len() > 0 {
        lemma_nothing_is_queued_after_abort(s, events.drop_last());
        lemma_run_inv(s, events.drop_last());
        lemma_aborted_run_queues_nothing(s.run(events.drop_last()), events.last());
    }
}

/// A run that ends without having been aborted leaves exactly one outcome
/// for every item: as many outcomes as items, one about each position, and
/// no two about the same.
pub proof fn lemma_every_item_has_one_outcome(s: PipelineView)
    requires
        s.inv(),
        s.is_finished(),
        !s.is_aborted(),
    ensures
        s.outcomes.len() == s.total(),
        forall|i: int| 0 <= i < s.items.len() ==> #[trigger] s.has_outcome(i),
        forall|j: int, k: int|
            0 <= j < k < s.outcomes.len()
                ==> (#[trigger] s.outcomes[j]).position != (#[trigger] s.outcomes[k]).position,
        forall|i: int| 0 <= i < s.items.len() ==> (#[trigger] s.states[i]).is_terminal(),
{
    assert(s.waiting().len() == 0);
    lemma_busy_idle(s.workers);
    lemma_count_absent(s.states, ItemState::Pending);
    lemma_count_absent(s.states, ItemState::Resolving);
    lemma_count_partition(s.states);
    lemma_outcomes_split(s.outcomes);
    assert forall|i: int| 0 <= i < s.items.len()
    implies (#[trigger] s.states[i]).is_terminal() by {
        if s.states[i] == ItemState::Resolved {
            lemma_count_present(s.states, ItemState::Resolved, i);
        }
        if s.states[i] == ItemState::Downloading {
            lemma_count_present(s.states, ItemState::Downloading, i);
        }
    }
    assert forall|i: int| 0 <= i < s.items.len() implies #[trigger] s.has_outcome(i) by {
        assert(s.states[i].is_terminal());
        assert(s.is_settled(i));
    }
}

/// An aborted run that has drained leaves exactly the outcomes of the items
/// that were resolved before the one that failed: one for each of them, all
/// of them results of downloads, none for the item that failed, and none
/// for any item behind it, which has not even been looked at.
pub proof fn lemma_aborted_run_keeps_what_was_resolved(s: PipelineView)
    requires
        s.inv(),
        s.is_finished(),
        s.is_aborted(),
    ensures
        s.policy == FailurePolicy::Abort,
        s.outcomes.len() == s.fatal->0,
        s.enqueued == s.fatal->0,
        forall|i: int| 0 <= i < s.fatal->0 ==> #[trigger] s.has_outcome(i),
        forall|j: int|
            0 <= j < s.outcomes.len() ==> {
                &&& (#[trigger] s.outcomes[j]).position < s.fatal->0
                &&& s.outcomes[j].result matches DownloadResultView::Failure { stage, error_kind }
                    ==> stage == Stage::Downloading
            },
        !s.has_outcome(s.fatal->0 as int),
        forall|i: int|
            s.fatal->0 < i < s.items.len() ==> #[trigger] s.states[i] == ItemState::Pending,
{
    let failed = s.fatal->0 as int;
    assert(s.waiting().len() == 0);
    lemma_busy_idle(s.workers);
    lemma_count_absent(s.states, ItemState::Resolving);
    lemma_count_tail(s.states, ItemState::Pending, failed + 1);
    lemma_count_partition(s.states);
    lemma_outcomes_split(s.outcomes);
    assert forall|i: int| 0 <= i < failed implies #[trigger] s.has_outcome(i) by {
        if s.states[i] == ItemState::Resolved {
            lemma_count_present(s.states, ItemState::Resolved, i);
        }
        if s.states[i] == ItemState::Downloading {
            lemma_count_present(s.states, ItemState::Downloading, i);
        }
        assert(s.is_settled(i));
    }
    assert forall|j: int| 0 <= j < s.outcomes.len() implies {
        &&& (#[trigger] s.outcomes[j]).position < failed
        &&& s.outcomes[j].result matches DownloadResultView::Failure { stage, error_kind }
            ==> stage == Stage::Downloading
    } by {
        assert(s.records(s.outcomes[j]));
    }
    if s.has_outcome(failed) {
        let j = choose|j: int|
            0 <= j < s.outcomes.len() && (#[trigger] s.outcomes[j]).position == failed;
        assert(s.records(s.outcomes[j]));
    }
}

/// However a run ends, it leaves at most one outcome for an item, and every
/// outcome is about an item of the input.
pub proof fn lemma_no_item_has_two_outcomes(s: PipelineView)
    requires
        s.inv(),
    ensures
        s.outcomes.len() <= s.items.len(),
        forall|j: int, k: int|
            0 <= j < k < s.outcomes.len()
                ==> (#[trigger] s.outcomes[j]).position != (#[trigger] s.outcomes[k]).position,
        forall|j: int|
            0 <= j < s.outcomes.len() ==> (#[trigger] s.outcomes[j]).position < s.items.len(),
{
    lemma_count_partition(s.states);
    lemma_outcomes_split(s.outcomes);
    assert forall|j: int| 0 <= j < s.outcomes.len()
    implies (#[trigger] s.outcomes[j]).position < s.items.len() by {
        assert(s.records(s.outcomes[j]));
    }
}

/// The queue never holds more items than its capacity, and at most one more
/// resolved item waits behind it.
pub proof fn lemma_queue_within_capacity(s: PipelineView)
    requires
        s.inv(),
    ensures
        s.queue.len() <= s.capacity,
        s.waiting().len() <= s.capacity + 1,
{
}

/// Never are more downloads under way than there are workers.
pub proof fn lemma_in_flight_within_pool(s: PipelineView)
    requires
        s.inv(),
    ensures
        s.in_flight() <= s.parallelism(),
        s.in_flight() == busy(s.workers),
{
    lemma_busy_bound(s.workers);
}

/// Under `Abort`, a failure to resolve aborts the run on the spot: the item
/// that failed is not queued and gets no outcome, the queue is closed, and
/// what waits or is under way is left as it is.
pub proof fn lemma_abort_on_failure(s: PipelineView) -> (next: PipelineView)
    requires
        s.inv(),
        s.policy == FailurePolicy::Abort,
        s.is_resolving(),
    ensures
        next == s.resolution_failed(),
        next.is_aborted(),
        next.fatal == Some(s.cursor),
        next.closed,
        next.enqueued == s.enqueued,
        next.queue == s.queue,
        next.held == s.held,
        next.workers == s.workers,
        next.outcomes == s.outcomes,
{
    s.resolution_failed()
}

/// Once a run has been aborted, no event queues anything: the resolver is
/// told to stop, the count of queued items stands still, nothing is held
/// back, the queue changes only by losing its oldest item to a worker, and
/// the items that had not been resolved stay as they are.
pub proof fn lemma_aborted_run_queues_nothing(s: PipelineView, event: Event) -> (next: PipelineView)
    requires
        s.inv(),
        s.is_aborted(),
    ensures
        next == s.step(event),
        next.is_aborted(),
        next.fatal == s.fatal,
        next.resolver_action() == ResolverAction::Aborted,
        next.enqueued == s.enqueued,
        next.cursor == s.cursor,
        next.held is None,
        next.queue == s.queue || (s.queue.len() > 0 && next.queue == s.queue.drop_first()),
        forall|i: int| s.cursor <= i < s.states.len() ==> #[trigger] next.states[i] == s.states[i],
{
    match event {
        Event::Take { worker } => {
            if s.is_idle(worker) && s.queue.len() > 0 {
                assert(s.holds(s.waiting()[0], ItemState::Resolved));
            }
        },
        Event::Complete { worker, report } => {
            if s.is_downloading(worker) {
                assert(s.holds(s.workers[worker as int]->0, ItemState::Downloading));
            }
        },
        _ => {},
    }
    s.step(event)
}

/// An event changes the state of at most one item, the one it is about, and
/// moves that item one step along its life. What is fixed at the start
/// stays fixed, and outcomes are only ever added.
pub proof fn lemma_step_touches_one_item(s: PipelineView, event: Event) -> (next: PipelineView)
    requires
        s.inv(),
    ensures
        next == s.step(event),
        next.items == s.items,
        next.output_dir == s.output_dir,
        next.policy == s.policy,
        next.capacity == s.capacity,
        next.workers.len() == s.workers.len(),
        next.states.len() == s.states.len(),
        forall|i: int|
            0 <= i < s.states.len() && s.subject(event) != Some(i as nat)
                ==> #[trigger] next.states[i] == s.states[i],
        forall|i: int|
            0 <= i < s.states.len()
                ==> (#[trigger] next.states[i]) == s.states[i]
                    || s.states[i].can_become(next.states[i]),
        next.outcomes == s.outcomes
            || (next.outcomes.len() == s.outcomes.len() + 1
                && next.outcomes.drop_last() == s.outcomes),
{
    let next = s.step(event);
    match event {
        Event::Take { worker } => {
            if s.is_idle(worker) && s.queue.len() > 0 {
                assert(s.holds(s.waiting()[0], ItemState::Resolved));
            }
        },
        Event::Complete { worker, report } => {
            if s.is_downloading(worker) {
                assert(s.holds(s.workers[worker as int]->0, ItemState::Downloading));
                assert(next.outcomes.drop_last() =~= s.outcomes);
            }
        },
        Event::ResolutionFailed => {
            if s.is_resolving() && s.policy == FailurePolicy::SkipAndContinue {
                assert(next.outcomes.drop_last() =~= s.outcomes);
            }
        },
        _ => {},
    }
    next
}

/// Under `SkipAndContinue` a failure stays with the item that failed. The
/// run is not aborted, no other item changes its state, what waits in the
/// queue keeps waiting, every other worker keeps its download, and no
/// success is taken back. After a failure to resolve the resolver goes on
/// with the next item.
pub proof fn lemma_failure_is_isolated(s: PipelineView, event: Event) -> (next: PipelineView)
    requires
        s.inv(),
        s.policy == FailurePolicy::SkipAndContinue,
        event.is_failure(),
    ensures
        next == s.step(event),
        !s.is_aborted(),
        !next.is_aborted(),
        forall|i: int|
            0 <= i < s.states.len() && s.subject(event) != Some(i as nat)
                ==> #[trigger] next.states[i] == s.states[i],
        next.queue == s.queue,
        next.held == s.held,
        next.enqueued == s.enqueued,
        forall|w: int|
            0 <= w < s.workers.len() && s.workers[w] is Some
                && s.subject(event) != Some(s.workers[w]->0.position)
                ==> #[trigger] next.workers[w] == s.workers[w],
        successes(next.outcomes) == successes(s.outcomes),
        event is ResolutionFailed && s.is_resolving() ==> {
            &&& next.cursor == s.cursor + 1
            &&& next.resolver_action() != ResolverAction::Aborted
        },
{
    match event {
        Event::Complete { worker, report } => {
            if s.is_downloading(worker) {
                let location = s.workers[worker as int]->0;
                assert(s.holds(location, ItemState::Downloading));
                lemma_outcomes_push(
                    s.outcomes,
                    s.outcome(location.position, s.result_of(location.position, report)),
                );
            }
        },
        Event::ResolutionFailed => {
            if s.is_resolving() {
                lemma_outcomes_push(s.outcomes, s.outcome(s.cursor, resolution_failure()));
            }
        },
        _ => {},
    }
    s.step(event)
}

/// In a run that ends without having been aborted, every item that did not
/// fail has been downloaded: the successes are all items but the failures.
/// One failure among `n` items leaves `n - 1` successes.
pub proof fn lemma_failures_cost_nothing_else(s: PipelineView)
    requires
        s.inv(),
        s.is_finished(),
        !s.is_aborted(),
    ensures
        successes(s.outcomes) + failures(s.outcomes) == s.items.len(),
        successes(s.outcomes) == count_state(s.states, ItemState::Completed),
        failures(s.outcomes) == count_state(s.states, ItemState::Failed),
        failures(s.outcomes) == 1 ==> successes(s.outcomes) == s.items.len() - 1,
{
    lemma_every_item_has_one_outcome(s);
    lemma_outcomes_split(s.outcomes);
}

/// A run that has not ended is never stuck: the resolver has an item to
/// resolve, or a worker is busy with a download, or an idle worker finds an
/// item in the queue.
pub proof fn lemma_never_stuck(s: PipelineView)
    requires
        s.inv(),
        !s.is_finished(),
    ensures
        s.resolver_action() == ResolverAction::Resolve
            || (exists|w: nat| #[trigger] s.is_downloading(w))
            || (exists|w: nat| #[trigger] s.is_idle(w) && s.queue.len() > 0),
{
    if !(forall|w: int| 0 <= w < s.workers.len() ==> s.workers[w] is None) {
        let w = choose|w: int| 0 <= w < s.workers.len() && !(s.workers[w] is None);
        assert(s.is_downloading(w as nat));
    } else if s.queue.len() > 0 {
        assert(s.is_idle(0nat));
    }
}

/// Every event that changes anything brings the run closer to its end: the
/// steps that the items still have before them become fewer. There are at
/// most four such steps for each item, so a run ends after at most four
/// effective events per item.
pub proof fn lemma_step_makes_progress(s: PipelineView, event: Event) -> (next: PipelineView)
    requires
        s.inv(),
    ensures
        next == s.step(event),
        next == s || work_left(next.states) < work_left(s.states),
        work_left(s.states) <= 4 * s.items.len(),
{
    lemma_work_bound(s.states);
    match event {
        Event::BeginResolution => {
            if s.resolver_action() == ResolverAction::Resolve {
                let c = s.cursor as int;
                lemma_work_update(s.states, c, ItemState::Resolving);
                if s.states[c] == ItemState::Resolving {
                    assert(s.states.update(c, ItemState::Resolving) =~= s.states);
                }
            }
        },
        Event::Resolved { remote_path } => {
            if s.is_resolving() {
                lemma_work_update(s.states, s.cursor as int, ItemState::Resolved);
            }
        },
        Event::ResolutionFailed => {
            if s.is_resolving() {
                lemma_work_update(s.states, s.cursor as int, ItemState::Failed);
            }
        },
        Event::Take { worker } => {
            if s.is_idle(worker) && s.queue.len() > 0 {
                assert(s.holds(s.waiting()[0], ItemState::Resolved));
                lemma_work_update(s.states, s.queue[0].position as int, ItemState::Downloading);
            }
        },
        Event::Complete { worker, report } => {
            if s.is_downloading(worker) {
                let location = s.workers[worker as int]->0;
                assert(s.holds(location, ItemState::Downloading));
                lemma_work_update(s.states, location.position as int, ItemState::Completed);
                lemma_work_update(s.states, location.position as int, ItemState::Failed);
            }
        },
    }
    s.step(event)
}

} // verus!
