//! The pipeline as a state machine over mathematical values.
//!
//! The resolver walks the items in input order, one request at a time. An
//! item that it resolves enters the bounded queue, or is held back while the
//! queue is full. Workers take items from the queue, one per worker, and
//! report how each download ended. Every item that reaches the end of its
//! life leaves exactly one outcome.
//!
//! When resolution fails under [`FailurePolicy::Abort`] the run is aborted:
//! the failing item is recorded as the fatal failure and gets no outcome,
//! nothing more is resolved or queued, and the queue is closed. What had
//! been queued or was being downloaded by then still runs to its end.

use vstd::prelude::*;
use crate::bot::StickerSetView;
use crate::bot::StickerView;
use crate::naming::collection_directory;
use crate::naming::destination_path;
use super::counting::busy;
use super::counting::count_state;
use super::counting::failures;
use super::counting::one_if;
use super::counting::successes;
use super::types::download_failure;
use super::types::resolution_failure;
use super::types::DownloadOutcomeView;
use super::types::DownloadReport;
use super::types::DownloadResultView;
use super::types::ErrorKind;
use super::types::FailurePolicy;
use super::types::ItemState;
use super::types::ItemView;
use super::types::ResolverAction;
use super::types::Stage;
use super::types::ResolvedLocationView;

verus! {

/// The items of one set, each with the title of the set.
pub open spec fn items_of(set: StickerSetView) -> Seq<ItemView> {
    set.stickers.map_values(
        |sticker: StickerView| ItemView { sticker, collection_title: set.title },
    )
}

/// The items of all sets in input order: set after set, and within a set in
/// the order of its stickers.
pub open spec fn flatten(sets: Seq<StickerSetView>) -> Seq<ItemView>
    decreases sets.len(),
{
    if sets.len() == 0 {
        Seq::empty()
    } else {
        flatten(sets.drop_last()) + items_of(sets.last())
    }
}

/// The number of stickers in all sets together.
pub open spec fn total_items(sets: Seq<StickerSetView>) -> nat
    decreases sets.len(),
{
    if sets.len() == 0 {
        0
    } else {
        total_items(sets.drop_last()) + sets.last().stickers.len()
    }
}

/// Whether the sticker at `index` of the set at `collection` is the first
/// in input order whose media flags describe no file.
pub open spec fn is_first_invalid(sets: Seq<StickerSetView>, collection: int, index: int) -> bool {
    &&& 0 <= collection < sets.len()
    &&& 0 <= index < sets[collection].stickers.len()
    &&& !sets[collection].stickers[index].has_valid_media()
    &&& forall|i: int|
        0 <= i < index ==> (#[trigger] sets[collection].stickers[i]).has_valid_media()
    &&& forall|c: int, i: int|
        0 <= c < collection && 0 <= i < sets[c].stickers.len()
            ==> (#[trigger] sets[c].stickers[i]).has_valid_media()
}

/// Whether the media flags of every sticker describe a file.
pub open spec fn all_media_valid(sets: Seq<StickerSetView>) -> bool {
    forall|c: int, i: int|
        0 <= c < sets.len() && 0 <= i < sets[c].stickers.len()
            ==> (#[trigger] sets[c].stickers[i]).has_valid_media()
}

/// The flattened list has one item for each sticker.
pub proof fn lemma_flatten_len(sets: Seq<StickerSetView>)
    ensures
        flatten(sets).len() == total_items(sets),
    decreases sets.len(),
{
    if sets.len() > 0 {
        lemma_flatten_len(sets.drop_last());
    }
}

/// Where every sticker of every set is valid, so is every item of the
/// flattened list.
pub proof fn lemma_flatten_valid(sets: Seq<StickerSetView>)
    requires
        all_media_valid(sets),
    ensures
        forall|k: int|
            0 <= k < flatten(sets).len()
                ==> (#[trigger] flatten(sets)[k]).sticker.has_valid_media(),
    decreases sets.len(),
{
    if sets.len() > 0 {
        let front = sets.drop_last();
        assert forall|c: int, i: int|
            0 <= c < front.len() && 0 <= i < front[c].stickers.len()
        implies (#[trigger] front[c].stickers[i]).has_valid_media() by {
            assert(front[c] == sets[c]);
        }
        lemma_flatten_valid(front);
        let last = sets.last();
        assert forall|k: int| 0 <= k < flatten(sets).len()
        implies (#[trigger] flatten(sets)[k]).sticker.has_valid_media() by {
            if k >= flatten(front).len() {
                let i = k - flatten(front).len();
                assert(flatten(sets)[k] == items_of(last)[i]);
                assert(sets[sets.len() - 1].stickers[i].has_valid_media());
            } else {
                assert(flatten(sets)[k] == flatten(front)[k]);
            }
        }
    }
}

/// What a worker that asks for work is told, in mathematical terms.
pub enum WorkerActionView {
    /// Fetch this item.
    Download(DownloadJobView),
    /// Wait: nothing is queued, but more may come.
    Wait,
    /// Stop: nothing is queued and nothing will come.
    EndOfStream,
    /// The request makes no sense: there is no such worker, or it has not
    /// reported the end of its current download.
    Rejected,
}

/// The content of a download job.
pub struct DownloadJobView {
    pub worker: nat,
    pub position: nat,
    pub remote_path: Seq<char>,
    pub directory: Seq<char>,
    pub local_path: Seq<char>,
}

/// What can happen to a pipeline.
pub enum Event {
    /// The resolver asks what to do.
    BeginResolution,
    /// The item under the cursor has been resolved to `remote_path`.
    Resolved { remote_path: Seq<char> },
    /// The item under the cursor could not be resolved.
    ResolutionFailed,
    /// The worker asks for work.
    Take { worker: nat },
    /// The worker reports the end of its download.
    Complete { worker: nat, report: DownloadReport },
}

impl Event {
    /// Whether the event reports a failure.
    pub open spec fn is_failure(self) -> bool {
        match self {
            Event::ResolutionFailed => true,
            Event::Complete { worker, report } => report is FailedAt,
            _ => false,
        }
    }
}

/// The state of a pipeline.
pub struct PipelineView {
    /// The items in input order. Never changes.
    pub items: Seq<ItemView>,
    /// The directory below which the files are stored. Never changes.
    pub output_dir: Seq<char>,
    /// What a failure to resolve does to the run. Never changes.
    pub policy: FailurePolicy,
    /// The capacity of the queue. Never changes.
    pub capacity: nat,
    /// The state of each item.
    pub states: Seq<ItemState>,
    /// The position of the next item to resolve.
    pub cursor: nat,
    /// The resolved items that wait for a worker, oldest first.
    pub queue: Seq<ResolvedLocationView>,
    /// Whether the queue has been closed.
    pub closed: bool,
    /// A resolved item that found the queue full.
    pub held: Option<ResolvedLocationView>,
    /// What each worker is fetching.
    pub workers: Seq<Option<ResolvedLocationView>>,
    /// The outcomes so far, in the order in which they arrived.
    pub outcomes: Seq<DownloadOutcomeView>,
    /// The position of the item whose failure aborted the run.
    pub fatal: Option<nat>,
    /// How many items have been resolved and handed on so far.
    pub enqueued: nat,
}

impl PipelineView {
    /// The state before anything has happened.
    pub open spec fn init(
        items: Seq<ItemView>,
        output_dir: Seq<char>,
        policy: FailurePolicy,
        capacity: nat,
        parallelism: nat,
    ) -> PipelineView {
        PipelineView {
            items,
            output_dir,
            policy,
            capacity,
            states: Seq::new(items.len(), |i: int| ItemState::Pending),
            cursor: 0,
            queue: Seq::empty(),
            closed: items.len() == 0,
            held: None,
            workers: Seq::new(parallelism, |w: int| None),
            outcomes: Seq::empty(),
            fatal: None,
            enqueued: 0,
        }
    }

    /// The number of items.
    pub open spec fn total(self) -> nat {
        self.items.len()
    }

    /// The number of workers.
    pub open spec fn parallelism(self) -> nat {
        self.workers.len()
    }

    /// The resolved items that no worker has taken yet: the queue, and
    /// behind it the item that is held back.
    pub open spec fn waiting(self) -> Seq<ResolvedLocationView> {
        match self.held {
            Some(location) => self.queue.push(location),
            None => self.queue,
        }
    }

    /// The number of downloads that are under way.
    pub open spec fn in_flight(self) -> nat {
        count_state(self.states, ItemState::Downloading)
    }

    /// Whether the run has been aborted.
    pub open spec fn is_aborted(self) -> bool {
        self.fatal is Some
    }

    /// Whether nothing is left to do: every item has been looked at, nothing
    /// waits and no worker is busy; or the run has been aborted and what was
    /// under way has drained.
    pub open spec fn is_finished(self) -> bool {
        &&& self.closed
        &&& self.queue.len() == 0
        &&& forall|w: int| 0 <= w < self.workers.len() ==> self.workers[w] is None
    }

    /// The item at `position`, with the place that it was resolved to.
    pub open spec fn location(self, position: nat, remote_path: Seq<char>) -> ResolvedLocationView {
        ResolvedLocationView {
            position,
            item: self.items[position as int].sticker,
            collection_title: self.items[position as int].collection_title,
            remote_path,
        }
    }

    /// The outcome of the item at `position`.
    pub open spec fn outcome(
        self,
        position: nat,
        result: DownloadResultView,
    ) -> DownloadOutcomeView {
        DownloadOutcomeView {
            position,
            item: self.items[position as int].sticker,
            collection_title: self.items[position as int].collection_title,
            result,
        }
    }

    /// The path of the file that the item at `position` is stored in.
    pub open spec fn local_path(self, position: nat) -> Seq<char> {
        destination_path(
            self.output_dir,
            self.items[position as int].collection_title,
            self.items[position as int].sticker,
        )
    }

    /// The result that a report of a worker stands for.
    pub open spec fn result_of(self, position: nat, report: DownloadReport) -> DownloadResultView {
        match report {
            DownloadReport::Saved => DownloadResultView::Success {
                local_path: self.local_path(position),
            },
            DownloadReport::FailedAt(step) => download_failure(step),
        }
    }

    /// Whether the queue is to be closed: the run has been aborted, or the
    /// last item has been dealt with and nothing is held back.
    pub open spec fn should_close(self) -> bool {
        self.fatal is Some || (self.cursor >= self.items.len() && self.held is None)
    }

    /// What the resolver has to do next.
    pub open spec fn resolver_action(self) -> ResolverAction {
        if self.fatal is Some {
            ResolverAction::Aborted
        } else if self.held is Some {
            ResolverAction::Blocked
        } else if self.cursor >= self.items.len() {
            ResolverAction::Finished
        } else {
            ResolverAction::Resolve
        }
    }

    /// The resolver asks what to do. Where the answer is to resolve, the
    /// item under the cursor is marked as being resolved.
    pub open spec fn begin_resolution(self) -> PipelineView {
        if self.resolver_action() == ResolverAction::Resolve {
            PipelineView {
                states: self.states.update(self.cursor as int, ItemState::Resolving),
                ..self
            }
        } else {
            self
        }
    }

    /// Whether the resolver has a request under way, so that its result is
    /// expected.
    pub open spec fn is_resolving(self) -> bool {
        &&& self.fatal is None
        &&& self.cursor < self.items.len()
        &&& self.states[self.cursor as int] == ItemState::Resolving
    }

    /// The item under the cursor has been resolved. It enters the queue, or
    /// is held back where the queue is full, and the cursor moves on. A
    /// result that is not expected changes nothing.
    pub open spec fn resolved(self, remote_path: Seq<char>) -> PipelineView {
        if self.is_resolving() {
            let location = self.location(self.cursor, remote_path);
            let room = self.queue.len() < self.capacity;
            let moved = PipelineView {
                states: self.states.update(self.cursor as int, ItemState::Resolved),
                cursor: self.cursor + 1,
                queue: if room {
                    self.queue.push(location)
                } else {
                    self.queue
                },
                held: if room {
                    None
                } else {
                    Some(location)
                },
                enqueued: self.enqueued + 1,
                ..self
            };
            PipelineView { closed: moved.should_close(), ..moved }
        } else {
            self
        }
    }

    /// The item under the cursor could not be resolved. Under
    /// `SkipAndContinue` it gets a failure as its outcome and the cursor
    /// moves on; under `Abort` the run is aborted. A result that is not
    /// expected changes nothing.
    pub open spec fn resolution_failed(self) -> PipelineView {
        if self.is_resolving() {
            let failed = self.states.update(self.cursor as int, ItemState::Failed);
            match self.policy {
                FailurePolicy::SkipAndContinue => {
                    let moved = PipelineView {
                        states: failed,
                        cursor: self.cursor + 1,
                        outcomes: self.outcomes.push(
                            self.outcome(self.cursor, resolution_failure()),
                        ),
                        ..self
                    };
                    PipelineView { closed: moved.should_close(), ..moved }
                },
                FailurePolicy::Abort => PipelineView {
                    states: failed,
                    fatal: Some(self.cursor),
                    closed: true,
                    ..self
                },
            }
        } else {
            self
        }
    }

    /// Whether `worker` exists and is idle.
    pub open spec fn is_idle(self, worker: nat) -> bool {
        worker < self.workers.len() && self.workers[worker as int] is None
    }

    /// The job that `worker` gets when it takes the oldest item in the
    /// queue.
    pub open spec fn next_job(self, worker: nat) -> DownloadJobView {
        let location = self.queue[0];
        DownloadJobView {
            worker,
            position: location.position,
            remote_path: location.remote_path,
            directory: collection_directory(self.output_dir, location.collection_title),
            local_path: destination_path(
                self.output_dir,
                location.collection_title,
                location.item,
            ),
        }
    }

    /// What `worker` is told when it asks for work.
    pub open spec fn worker_action(self, worker: nat) -> WorkerActionView {
        if !self.is_idle(worker) {
            WorkerActionView::Rejected
        } else if self.queue.len() > 0 {
            WorkerActionView::Download(self.next_job(worker))
        } else if self.closed {
            WorkerActionView::EndOfStream
        } else {
            WorkerActionView::Wait
        }
    }

    /// The worker asks for work. Where something is queued, the oldest item
    /// leaves the queue and becomes the download of this worker, and an item
    /// that was held back takes the place that has become free.
    pub open spec fn take(self, worker: nat) -> PipelineView {
        if self.is_idle(worker) && self.queue.len() > 0 {
            let location = self.queue[0];
            let rest = self.queue.drop_first();
            let moved = PipelineView {
                states: self.states.update(location.position as int, ItemState::Downloading),
                workers: self.workers.update(worker as int, Some(location)),
                queue: match self.held {
                    Some(waiting) => rest.push(waiting),
                    None => rest,
                },
                held: None,
                ..self
            };
            PipelineView { closed: moved.should_close(), ..moved }
        } else {
            self
        }
    }

    /// Whether `worker` exists and has a download under way.
    pub open spec fn is_downloading(self, worker: nat) -> bool {
        worker < self.workers.len() && self.workers[worker as int] is Some
    }

    /// The worker reports the end of its download. The item gets its
    /// outcome and the worker is idle again. A report that is not expected
    /// changes nothing.
    pub open spec fn complete(self, worker: nat, report: DownloadReport) -> PipelineView {
        if self.is_downloading(worker) {
            let location = self.workers[worker as int]->0;
            let state = match report {
                DownloadReport::Saved => ItemState::Completed,
                DownloadReport::FailedAt(_) => ItemState::Failed,
            };
            PipelineView {
                states: self.states.update(location.position as int, state),
                workers: self.workers.update(worker as int, None),
                outcomes: self.outcomes.push(
                    self.outcome(location.position, self.result_of(location.position, report)),
                ),
                ..self
            }
        } else {
            self
        }
    }

    /// The position of the item that `event` is about, if it will be taken
    /// in and is about one.
    pub open spec fn subject(self, event: Event) -> Option<nat> {
        match event {
            Event::BeginResolution => {
                if self.resolver_action() == ResolverAction::Resolve {
                    Some(self.cursor)
                } else {
                    None
                }
            },
            Event::Resolved { remote_path } => {
                if self.is_resolving() {
                    Some(self.cursor)
                } else {
                    None
                }
            },
            Event::ResolutionFailed => {
                if self.is_resolving() {
                    Some(self.cursor)
                } else {
                    None
                }
            },
            Event::Take { worker } => {
                if self.is_idle(worker) && self.queue.len() > 0 {
                    Some(self.queue[0].position)
                } else {
                    None
                }
            },
            Event::Complete { worker, report } => {
                if self.is_downloading(worker) {
                    Some(self.workers[worker as int]->0.position)
                } else {
                    None
                }
            },
        }
    }

    /// The state after `event`.
    pub open spec fn step(self, event: Event) -> PipelineView {
        match event {
            Event::BeginResolution => self.begin_resolution(),
            Event::Resolved { remote_path } => self.resolved(remote_path),
            Event::ResolutionFailed => self.resolution_failed(),
            Event::Take { worker } => self.take(worker),
            Event::Complete { worker, report } => self.complete(worker, report),
        }
    }

    /// The state after a sequence of events, the first of them first.
    pub open spec fn run(self, events: Seq<Event>) -> PipelineView
        decreases events.len(),
    {
        if events.len() == 0 {
            self
        } else {
            self.run(events.drop_last()).step(events.last())
        }
    }

    /// The parts of the state fit together: one state per item, a queue
    /// that can hold something, at least one worker, stickers that describe
    /// a file, and a queue that is closed exactly when it should be. Under
    /// `Abort` the resolver never passes an item that it could not resolve,
    /// so every item before the cursor has been handed on.
    pub open spec fn shape_inv(self) -> bool {
        &&& self.states.len() == self.items.len()
        &&& self.enqueued <= self.cursor <= self.items.len()
        &&& self.policy == FailurePolicy::Abort ==> self.enqueued == self.cursor
        &&& self.capacity >= 1
        &&& self.workers.len() >= 1
        &&& forall|i: int|
            0 <= i < self.items.len() ==> (#[trigger] self.items[i]).sticker.has_valid_media()
        &&& self.closed == self.should_close()
    }

    /// The resolver works in input order: what lies before the cursor has
    /// been resolved or has failed, what lies behind it has not been looked
    /// at, and the item under it is untouched or being resolved, unless its
    /// failure aborted the run.
    pub open spec fn resolver_inv(self) -> bool {
        &&& forall|i: int|
            0 <= i < self.cursor && i < self.states.len() ==> {
                let state = #[trigger] self.states[i];
                state != ItemState::Pending && state != ItemState::Resolving
            }
        &&& forall|i: int|
            self.cursor < i < self.states.len()
                ==> #[trigger] self.states[i] == ItemState::Pending
        &&& match self.fatal {
            Some(position) => {
                &&& position == self.cursor
                &&& position < self.items.len()
                &&& self.states[position as int] == ItemState::Failed
                &&& self.policy == FailurePolicy::Abort
                &&& self.held is None
            },
            None => self.cursor < self.items.len() ==> {
                let state = self.states[self.cursor as int];
                &&& state == ItemState::Pending || state == ItemState::Resolving
                &&& self.held is Some ==> state == ItemState::Pending
            },
        }
    }

    /// Whether `location` is a true copy of the item at its position, and
    /// that item lies before the cursor and is in `state`.
    pub open spec fn holds(self, location: ResolvedLocationView, state: ItemState) -> bool {
        &&& location.position < self.cursor
        &&& location.position < self.items.len()
        &&& self.states[location.position as int] == state
        &&& location.item == self.items[location.position as int].sticker
        &&& location.collection_title == self.items[location.position as int].collection_title
    }

    /// The queue is within its capacity, an item is held back only while the
    /// queue is full, and what waits is what has been resolved, in input
    /// order.
    pub open spec fn waiting_inv(self) -> bool {
        &&& self.queue.len() <= self.capacity
        &&& self.held is Some ==> self.queue.len() == self.capacity
        &&& forall|j: int|
            0 <= j < self.waiting().len()
                ==> self.holds(#[trigger] self.waiting()[j], ItemState::Resolved)
        &&& forall|j: int, k: int|
            0 <= j < k < self.waiting().len()
                ==> (#[trigger] self.waiting()[j]).position
                    < (#[trigger] self.waiting()[k]).position
    }

    /// Each busy worker fetches an item that is being downloaded, and no two
    /// workers fetch the same item.
    pub open spec fn workers_inv(self) -> bool {
        &&& forall|w: int|
            0 <= w < self.workers.len() && (#[trigger] self.workers[w]) is Some
                ==> self.holds(self.workers[w]->0, ItemState::Downloading)
        &&& forall|v: int, w: int|
            0 <= v < w < self.workers.len()
                && (#[trigger] self.workers[v]) is Some
                && (#[trigger] self.workers[w]) is Some
                ==> self.workers[v]->0.position != self.workers[w]->0.position
    }

    /// Whether `outcome` is the true record of an item that has reached the
    /// end of its life.
    pub open spec fn records(self, outcome: DownloadOutcomeView) -> bool {
        &&& outcome.position < self.cursor
        &&& outcome.position < self.items.len()
        &&& outcome.item == self.items[outcome.position as int].sticker
        &&& outcome.collection_title == self.items[outcome.position as int].collection_title
        &&& match outcome.result {
            DownloadResultView::Success { local_path } => {
                &&& self.states[outcome.position as int] == ItemState::Completed
                &&& local_path == self.local_path(outcome.position)
            },
            DownloadResultView::Failure { stage, error_kind } => {
                &&& self.states[outcome.position as int] == ItemState::Failed
                &&& self.fatal != Some(outcome.position)
                &&& stage == Stage::Resolving <==> error_kind == ErrorKind::Resolution
                &&& stage == Stage::Resolving ==> self.policy == FailurePolicy::SkipAndContinue
            },
        }
    }

    /// Whether some outcome is about the item at `position`.
    pub open spec fn has_outcome(self, position: int) -> bool {
        exists|j: int|
            0 <= j < self.outcomes.len() && (#[trigger] self.outcomes[j]).position == position
    }

    /// Whether the item at `position` is owed an outcome: it has reached the
    /// end of its life, and it is not the one whose failure aborted the run.
    pub open spec fn is_settled(self, position: int) -> bool {
        self.states[position].is_terminal() && self.fatal != Some(position as nat)
    }

    /// Each outcome records an item that has ended as the outcome says, no
    /// item has two outcomes, and every item that is owed an outcome has
    /// one.
    pub open spec fn outcomes_inv(self) -> bool {
        &&& forall|j: int|
            0 <= j < self.outcomes.len() ==> self.records(#[trigger] self.outcomes[j])
        &&& forall|j: int, k: int|
            0 <= j < k < self.outcomes.len()
                ==> (#[trigger] self.outcomes[j]).position
                    != (#[trigger] self.outcomes[k]).position
        &&& forall|i: int|
            0 <= i < self.states.len() && #[trigger] self.is_settled(i) ==> self.has_outcome(i)
    }

    /// The books balance: as many items are resolved as wait, as many are
    /// being downloaded as workers are busy, and as many have ended as there
    /// are outcomes, the fatal failure apart.
    pub open spec fn counts_inv(self) -> bool {
        &&& count_state(self.states, ItemState::Resolved) == self.waiting().len()
        &&& count_state(self.states, ItemState::Downloading) == busy(self.workers)
        &&& count_state(self.states, ItemState::Completed) == successes(self.outcomes)
        &&& count_state(self.states, ItemState::Failed)
            == failures(self.outcomes) + one_if(self.fatal is Some)
    }

    /// What holds of every state that a pipeline can reach.
    pub open spec fn inv(self) -> bool {
        &&& self.shape_inv()
        &&& self.resolver_inv()
        &&& self.waiting_inv()
        &&& self.workers_inv()
        &&& self.outcomes_inv()
        &&& self.counts_inv()
    }
}

} // verus!
