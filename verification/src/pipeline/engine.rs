//! The executable pipeline.
//!
//! A [`Pipeline`] holds the whole state of a run. The code that talks to the
//! network and to the disk drives it: the resolver asks what to resolve and
//! reports what came of it, each worker asks for work and reports how its
//! download ended. Every operation does to the state exactly what the model
//! says, so all that is proved of the model holds of every run.

use vstd::prelude::*;
use crate::bot::StickerSet;
use crate::bot::StickerSetView;
use crate::bot::TelegramFilePath;
use crate::naming::destination_for;
use crate::queue::Popped;
use crate::queue::WorkQueue;
use super::aggregate::FailureRecord;
use super::aggregate::ResultAggregator;
use super::aggregate::Tally;
use super::aggregate::failure_records;
use super::aggregate::lemma_failure_records_len;
use super::aggregate::outcome_views;
use super::counting::busy;
use super::counting::failures;
use super::counting::successes;
use super::laws::lemma_begin_resolution_inv;
use super::laws::lemma_complete_inv;
use super::laws::lemma_failures_cost_nothing_else;
use super::laws::lemma_init_inv;
use super::laws::lemma_no_item_has_two_outcomes;
use super::laws::lemma_resolution_failed_inv;
use super::laws::lemma_resolved_inv;
use super::laws::lemma_take_inv;
use super::model::all_media_valid;
use super::model::flatten;
use super::model::is_first_invalid;
use super::model::items_of;
use super::model::lemma_flatten_len;
use super::model::lemma_flatten_valid;
use super::model::total_items;
use super::model::DownloadJobView;
use super::model::PipelineView;
use super::model::WorkerActionView;
use super::types::resolution_failure;
use super::types::DownloadOutcome;
use super::types::DownloadReport;
use super::types::DownloadResult;
use super::types::ErrorKind;
use super::types::FailurePolicy;
use super::types::Item;
use super::types::ItemState;
use super::types::ItemView;
use super::types::ResolvedLocation;
use super::types::ResolverAction;
use super::types::ResolvedLocationView;
use super::types::Stage;

verus! {

/// The views of the sets.
pub open spec fn set_views(sets: Seq<StickerSet>) -> Seq<StickerSetView> {
    sets.map_values(|set: StickerSet| set@)
}

/// The views of the items.
pub open spec fn item_views(items: Seq<Item>) -> Seq<ItemView> {
    items.map_values(|item: Item| item@)
}

/// The views of the resolved locations.
pub open spec fn location_views(locations: Seq<ResolvedLocation>) -> Seq<ResolvedLocationView> {
    locations.map_values(|location: ResolvedLocation| location@)
}

/// The view of what a worker holds.
pub open spec fn slot_view(slot: Option<ResolvedLocation>) -> Option<ResolvedLocationView> {
    match slot {
        Some(location) => Some(location@),
        None => None,
    }
}

/// The views of what the workers hold.
pub open spec fn slot_views(
    slots: Seq<Option<ResolvedLocation>>,
) -> Seq<Option<ResolvedLocationView>> {
    slots.map_values(|slot: Option<ResolvedLocation>| slot_view(slot))
}

/// The views of a list with one more location at its end.
proof fn lemma_views_push(locations: Seq<ResolvedLocation>, location: ResolvedLocation)
    ensures
        location_views(locations.push(location)) == location_views(locations).push(location@),
{
    assert(location_views(locations.push(location)) =~= location_views(locations).push(location@));
}

/// The views of a list without its first location.
proof fn lemma_views_drop_first(locations: Seq<ResolvedLocation>)
    requires
        locations.len() > 0,
    ensures
        location_views(locations.drop_first()) == location_views(locations).drop_first(),
{
    assert(location_views(locations.drop_first()) =~= location_views(locations).drop_first());
}

/// The views of the slots after one of them has changed.
proof fn lemma_slot_views_update(
    slots: Seq<Option<ResolvedLocation>>,
    at: int,
    slot: Option<ResolvedLocation>,
)
    requires
        0 <= at < slots.len(),
    ensures
        slot_views(slots.update(at, slot)) == slot_views(slots).update(at, slot_view(slot)),
{
    assert(slot_views(slots.update(at, slot)) =~= slot_views(slots).update(at, slot_view(slot)));
}

/// Why a pipeline could not be set up.
#[derive(Debug, Clone, Copy, PartialEq, Eq, Structural)]
pub enum SetupError {
    /// The queue would have no room for any item.
    NoCapacity,
    /// The pool would have no worker.
    NoWorkers,
    /// The sticker at `index` of the set at `collection` claims to be both
    /// an animation and a video.
    InvalidMedia { collection: usize, index: usize },
}

/// What a worker has to fetch, and where to store it.
#[derive(Debug)]
pub struct DownloadJob {
    /// The worker that the job was given to.
    pub worker: usize,
    /// The place of the item in the input.
    pub position: usize,
    /// Where the file service serves the file.
    pub remote_path: TelegramFilePath,
    /// The directory that has to exist before the file is written.
    pub directory: String,
    /// The path of the file to write.
    pub local_path: String,
}

impl View for DownloadJob {
    type V = DownloadJobView;

    open spec fn view(&self) -> DownloadJobView {
        DownloadJobView {
            worker: self.worker as nat,
            position: self.position as nat,
            remote_path: self.remote_path@,
            directory: self.directory@,
            local_path: self.local_path@,
        }
    }
}

/// What a worker that asks for work is told.
#[derive(Debug)]
pub enum WorkerAction {
    /// Fetch this item.
    Download(DownloadJob),
    /// Wait: nothing is queued, but more may come.
    Wait,
    /// Stop: nothing is queued and nothing will come.
    EndOfStream,
    /// The request makes no sense: there is no such worker, or it has not
    /// reported the end of its current download.
    Rejected,
}

impl View for WorkerAction {
    type V = WorkerActionView;

    open spec fn view(&self) -> WorkerActionView {
        match self {
            WorkerAction::Download(job) => WorkerActionView::Download(job@),
            WorkerAction::Wait => WorkerActionView::Wait,
            WorkerAction::EndOfStream => WorkerActionView::EndOfStream,
            WorkerAction::Rejected => WorkerActionView::Rejected,
        }
    }
}

/// What a run has come to: the counts, the list of failures, and the
/// position of the item whose failure aborted the run, if one did.
#[derive(Debug)]
pub struct Summary {
    /// How many items the run was given.
    pub total: usize,
    /// How many items were downloaded.
    pub succeeded: usize,
    /// How many items failed and were recorded.
    pub failed: usize,
    /// One line for each recorded failure.
    pub failures: Vec<FailureRecord>,
    /// The position of the item whose failure aborted the run.
    pub aborted_at: Option<usize>,
}

/// How many resolved items may wait for a worker, unless told otherwise.
pub const DEFAULT_QUEUE_CAPACITY: usize = 8;

/// How many downloads run at once, unless told otherwise.
pub const DEFAULT_PARALLELISM: usize = 16;

/// The exit status of a program whose run was not ended by a fatal error.
pub const EXIT_SUCCESS: i32 = 0;

/// The exit status of a program that a fatal error has ended.
pub const EXIT_FATAL: i32 = -1;

impl Summary {
    /// Whether the run was aborted by a failure to resolve.
    pub open spec fn is_aborted(&self) -> bool {
        self.aborted_at is Some
    }

    /// The status that the program exits with after this run: failures of
    /// single items are part of the summary and do not fail the program, an
    /// aborted run does.
    pub fn exit_code(&self) -> (code: i32)
        ensures
            code == if self.is_aborted() { EXIT_FATAL } else { EXIT_SUCCESS },
            code != 0 <==> self.is_aborted(),
    {
        if self.aborted_at.is_some() {
            EXIT_FATAL
        } else {
            EXIT_SUCCESS
        }
    }
}

/// Finds the first sticker, in input order, whose media flags describe no
/// file.
pub fn first_invalid_media(sets: &Vec<StickerSet>) -> (found: Option<(usize, usize)>)
    ensures
        match found {
            Some((collection, index)) => {
                is_first_invalid(set_views(sets@), collection as int, index as int)
            },
            None => all_media_valid(set_views(sets@)),
        },
{
    let mut collection: usize = 0;
    while collection < sets.len()
        invariant
            collection <= sets@.len(),
            forall|c: int, i: int|
                0 <= c < collection && 0 <= i < set_views(sets@)[c].stickers.len()
                    ==> (#[trigger] set_views(sets@)[c].stickers[i]).has_valid_media(),
        decreases sets@.len() - collection,
    {
        let set = &sets[collection];
        let mut index: usize = 0;
        while index < set.stickers.len()
            invariant
                collection < sets@.len(),
                set == sets@[collection as int],
                index <= set.stickers@.len(),
                forall|c: int, i: int|
                    0 <= c < collection && 0 <= i < set_views(sets@)[c].stickers.len()
                        ==> (#[trigger] set_views(sets@)[c].stickers[i]).has_valid_media(),
                forall|i: int|
                    0 <= i < index
                        ==> (#[trigger] set_views(sets@)[collection as int].stickers[i])
                            .has_valid_media(),
            decreases set.stickers@.len() - index,
        {
            assert(set_views(sets@)[collection as int].stickers[index as int]
                == set.stickers@[index as int]@);
            if !set.stickers[index].has_valid_media() {
                return Some((collection, index));
            }
            index = index + 1;
        }
        collection = collection + 1;
    }
    None
}

/// Lays the stickers of all sets out in input order, each with the title of
/// its set.
pub fn flatten_sets(sets: Vec<StickerSet>) -> (items: Vec<Item>)
    ensures
        item_views(items@) == flatten(set_views(sets@)),
{
    let ghost all = sets@;
    let mut items: Vec<Item> = Vec::new();
    proof {
        assert(set_views(all).take(0) =~= Seq::empty());
        assert(item_views(items@) =~= Seq::empty());
    }
    for set in outer: sets
        invariant
            outer.seq() == all,
            item_views(items@) == flatten(set_views(all).take(outer.index() as int)),
    {
        let ghost done = outer.index() as int;
        let ghost before = item_views(items@);
        let StickerSet { name: _, title, sticker_type: _, stickers } = set;
        let ghost members = stickers@;
        proof {
            let prefix = set_views(all).take(done + 1);
            assert(prefix.drop_last() =~= set_views(all).take(done));
            assert(prefix.last() == set@);
            assert(items_of(set@).take(0) =~= Seq::empty());
            assert(before + Seq::<ItemView>::empty() =~= before);
        }
        for sticker in inner: stickers
            invariant
                inner.seq() == members,
                members.len() == items_of(set@).len(),
                forall|i: int|
                    0 <= i < members.len()
                        ==> items_of(set@)[i] == (ItemView {
                            sticker: (#[trigger] members[i])@,
                            collection_title: title@,
                        }),
                item_views(items@) == before + items_of(set@).take(inner.index() as int),
        {
            let ghost at = inner.index() as int;
            let item = Item { sticker, collection_title: title.clone() };
            proof {
                assert(item@ == items_of(set@)[at]);
                assert(item_views(items@.push(item)) =~= item_views(items@).push(item@));
                let added = items_of(set@).take(at);
                assert(items_of(set@).take(at + 1) =~= added.push(items_of(set@)[at]));
                assert(before + added.push(items_of(set@)[at])
                    =~= (before + added).push(items_of(set@)[at]));
            }
            items.push(item);
        }
        proof {
            assert(items_of(set@).take(members.len() as int) =~= items_of(set@));
        }
    }
    proof {
        assert(set_views(all).take(all.len() as int) =~= set_views(all));
    }
    items
}

/// The state of a run of the pipeline.
pub struct Pipeline {
    items: Vec<Item>,
    output_dir: String,
    policy: FailurePolicy,
    states: Vec<ItemState>,
    cursor: usize,
    queue: WorkQueue<ResolvedLocation>,
    held: Option<ResolvedLocation>,
    workers: Vec<Option<ResolvedLocation>>,
    aggregator: ResultAggregator,
    fatal: Option<usize>,
    enqueued: usize,
}

impl View for Pipeline {
    type V = PipelineView;

    closed spec fn view(&self) -> PipelineView {
        PipelineView {
            items: item_views(self.items@),
            output_dir: self.output_dir@,
            policy: self.policy,
            capacity: self.queue@.capacity,
            states: self.states@,
            cursor: self.cursor as nat,
            queue: location_views(self.queue@.items),
            closed: self.queue@.closed,
            held: slot_view(self.held),
            workers: slot_views(self.workers@),
            outcomes: self.aggregator@,
            fatal: match self.fatal {
                Some(position) => Some(position as nat),
                None => None,
            },
            enqueued: self.enqueued as nat,
        }
    }
}

impl Pipeline {
    /// Whether the pipeline is in a state that a run can reach.
    pub closed spec fn wf(&self) -> bool {
        &&& self.queue.wf()
        &&& self.aggregator.wf()
        &&& self@.inv()
    }

    /// A well-formed pipeline is in a state that satisfies the invariant of
    /// the model, so every law of the model holds of it.
    pub proof fn lemma_wf(&self)
        requires
            self.wf(),
        ensures
            self@.inv(),
    {
    }

    /// Sets up a run over `sets`, storing below `output_dir`, with a queue
    /// of `capacity` places and `parallelism` workers.
    ///
    /// A queue without a place, a pool without a worker, and a sticker that
    /// claims to be both an animation and a video are refused, in this
    /// order.
    pub fn new(
        sets: Vec<StickerSet>,
        output_dir: String,
        policy: FailurePolicy,
        capacity: usize,
        parallelism: usize,
    ) -> (made: Result<Pipeline, SetupError>)
        ensures
            match made {
                Ok(pipeline) => {
                    &&& capacity >= 1
                    &&& parallelism >= 1
                    &&& all_media_valid(set_views(sets@))
                    &&& pipeline.wf()
                    &&& pipeline@ == PipelineView::init(
                        flatten(set_views(sets@)),
                        output_dir@,
                        policy,
                        capacity as nat,
                        parallelism as nat,
                    )
                    &&& pipeline@.total() == total_items(set_views(sets@))
                },
                Err(SetupError::NoCapacity) => capacity == 0,
                Err(SetupError::NoWorkers) => capacity >= 1 && parallelism == 0,
                Err(SetupError::InvalidMedia { collection, index }) => {
                    &&& capacity >= 1
                    &&& parallelism >= 1
                    &&& is_first_invalid(set_views(sets@), collection as int, index as int)
                },
            },
    {
        if capacity == 0 {
            return Err(SetupError::NoCapacity);
        }
        if parallelism == 0 {
            return Err(SetupError::NoWorkers);
        }
        match first_invalid_media(&sets) {
            Some((collection, index)) => {
                return Err(SetupError::InvalidMedia { collection, index });
            },
            None => {},
        }
        let ghost views = set_views(sets@);
        let items = flatten_sets(sets);
        let total = items.len();
        let mut states: Vec<ItemState> = Vec::new();
        let mut at: usize = 0;
        while at < total
            invariant
                at <= total,
                states@.len() == at,
                forall|i: int| 0 <= i < at ==> states@[i] == ItemState::Pending,
            decreases total - at,
        {
            states.push(ItemState::Pending);
            at = at + 1;
        }
        let mut workers: Vec<Option<ResolvedLocation>> = Vec::new();
        let mut slot: usize = 0;
        while slot < parallelism
            invariant
                slot <= parallelism,
                workers@.len() == slot,
                forall|w: int| 0 <= w < slot ==> workers@[w] is None,
            decreases parallelism - slot,
        {
            workers.push(None);
            slot = slot + 1;
        }
        let mut queue: WorkQueue<ResolvedLocation> = WorkQueue::new(capacity);
        if total == 0 {
            queue.close();
        }
        let pipeline = Pipeline {
            items,
            output_dir,
            policy,
            states,
            cursor: 0,
            queue,
            held: None,
            workers,
            aggregator: ResultAggregator::new(),
            fatal: None,
            enqueued: 0,
        };
        proof {
            let start = PipelineView::init(
                flatten(views),
                output_dir@,
                policy,
                capacity as nat,
                parallelism as nat,
            );
            lemma_flatten_valid(views);
            lemma_flatten_len(views);
            lemma_init_inv(
                flatten(views),
                output_dir@,
                policy,
                capacity as nat,
                parallelism as nat,
            );
            assert(pipeline@.states =~= start.states);
            assert(pipeline@.workers =~= start.workers);
            assert(pipeline@.queue =~= start.queue);
            assert(pipeline@ == start);
        }
        Ok(pipeline)
    }

    /// The number of items of the run.
    pub fn total(&self) -> (total: usize)
        ensures
            total == self@.items.len(),
    {
        self.items.len()
    }

    /// The directory below which the files are stored.
    pub fn output_dir(&self) -> (output_dir: &str)
        ensures
            output_dir@ == self@.output_dir,
    {
        self.output_dir.as_str()
    }

    /// What a failure to resolve does to the run.
    pub fn policy(&self) -> (policy: FailurePolicy)
        ensures
            policy == self@.policy,
    {
        self.policy
    }

    /// The capacity of the queue.
    pub fn capacity(&self) -> (capacity: usize)
        ensures
            capacity == self@.capacity,
    {
        self.queue.capacity()
    }

    /// The number of workers.
    pub fn parallelism(&self) -> (parallelism: usize)
        ensures
            parallelism == self@.workers.len(),
    {
        self.workers.len()
    }

    /// How many resolved items wait in the queue. Never more than the
    /// capacity.
    pub fn queue_depth(&self) -> (depth: usize)
        requires
            self.wf(),
        ensures
            depth == self@.queue.len(),
            depth <= self@.capacity,
    {
        self.queue.len()
    }

    /// How many downloads are under way. Never more than there are workers.
    pub fn in_flight(&self) -> (count: usize)
        requires
            self.wf(),
        ensures
            count == self@.in_flight(),
            count <= self@.workers.len(),
    {
        let mut count: usize = 0;
        let mut at: usize = 0;
        while at < self.workers.len()
            invariant
                at <= self.workers@.len(),
                count == busy(slot_views(self.workers@).take(at as int)),
                count <= at,
            decreases self.workers@.len() - at,
        {
            proof {
                let prefix = slot_views(self.workers@).take(at + 1);
                assert(prefix.drop_last() =~= slot_views(self.workers@).take(at as int));
                assert(prefix.last() == slot_view(self.workers@[at as int]));
            }
            if self.workers[at].is_some() {
                count = count + 1;
            }
            at = at + 1;
        }
        proof {
            assert(slot_views(self.workers@).take(at as int) =~= slot_views(self.workers@));
        }
        count
    }

    /// How many items have been resolved and handed on so far.
    pub fn resolved_count(&self) -> (count: usize)
        ensures
            count == self@.enqueued,
    {
        self.enqueued
    }

    /// The position of the item that the resolver looks at next.
    pub fn cursor(&self) -> (cursor: usize)
        ensures
            cursor == self@.cursor,
    {
        self.cursor
    }

    /// The position of the item whose failure aborted the run.
    pub fn aborted_at(&self) -> (position: Option<usize>)
        ensures
            match position {
                Some(p) => self@.fatal == Some(p as nat),
                None => self@.fatal is None,
            },
    {
        self.fatal
    }

    /// Whether the run has been aborted.
    pub fn is_aborted(&self) -> (aborted: bool)
        ensures
            aborted == self@.is_aborted(),
    {
        self.fatal.is_some()
    }

    /// Whether nothing is left to do.
    pub fn is_finished(&self) -> (finished: bool)
        requires
            self.wf(),
        ensures
            finished == self@.is_finished(),
    {
        if !self.queue.is_closed() || !self.queue.is_empty() {
            return false;
        }
        let mut at: usize = 0;
        while at < self.workers.len()
            invariant
                at <= self.workers@.len(),
                forall|w: int| 0 <= w < at ==> slot_views(self.workers@)[w] is None,
            decreases self.workers@.len() - at,
        {
            if self.workers[at].is_some() {
                assert(slot_views(self.workers@)[at as int] is Some);
                return false;
            }
            at = at + 1;
        }
        true
    }

    /// The item at `position`.
    pub fn item(&self, position: usize) -> (item: Option<&Item>)
        ensures
            match item {
                Some(found) => {
                    &&& position < self@.items.len()
                    &&& found@ == self@.items[position as int]
                },
                None => position >= self@.items.len(),
            },
    {
        if position < self.items.len() {
            Some(&self.items[position])
        } else {
            None
        }
    }

    /// The state of the item at `position`.
    pub fn state(&self, position: usize) -> (state: Option<ItemState>)
        requires
            self.wf(),
        ensures
            match state {
                Some(found) => {
                    &&& position < self@.items.len()
                    &&& found == self@.states[position as int]
                },
                None => position >= self@.items.len(),
            },
    {
        if position < self.states.len() {
            Some(self.states[position])
        } else {
            None
        }
    }

    /// The item that the resolver has a request under way for.
    pub fn resolving(&self) -> (item: Option<&Item>)
        requires
            self.wf(),
        ensures
            match item {
                Some(found) => self@.is_resolving() && found@ == self@.items[self@.cursor as int],
                None => !self@.is_resolving(),
            },
    {
        if self.expects_resolution() {
            Some(&self.items[self.cursor])
        } else {
            None
        }
    }

    /// The outcomes so far, in the order in which they arrived.
    pub fn outcomes(&self) -> (outcomes: &Vec<DownloadOutcome>)
        ensures
            outcome_views(outcomes@) == self@.outcomes,
    {
        self.aggregator.outcomes()
    }

    /// The counts of the outcomes so far.
    pub fn tally(&self) -> (tally: Tally)
        requires
            self.wf(),
        ensures
            tally.total == self@.outcomes.len(),
            tally.succeeded == successes(self@.outcomes),
            tally.failed == failures(self@.outcomes),
            tally.total == tally.succeeded + tally.failed,
            tally.total <= self@.items.len(),
    {
        proof {
            lemma_no_item_has_two_outcomes(self@);
        }
        self.aggregator.tally()
    }

    /// What the run has come to so far. Once the run is finished this is its
    /// result.
    pub fn summary(&self) -> (summary: Summary)
        requires
            self.wf(),
        ensures
            summary.total == self@.items.len(),
            summary.succeeded == successes(self@.outcomes),
            summary.failed == failures(self@.outcomes),
            summary.failures@ == failure_records(self@.outcomes),
            summary.failures@.len() == summary.failed,
            match summary.aborted_at {
                Some(p) => self@.fatal == Some(p as nat),
                None => self@.fatal is None,
            },
            self@.is_finished() && !self@.is_aborted() ==> summary.succeeded + summary.failed
                == summary.total,
    {
        proof {
            if self@.is_finished() && !self@.is_aborted() {
                lemma_failures_cost_nothing_else(self@);
            }
            lemma_failure_records_len(self@.outcomes);
        }
        let tally = self.aggregator.tally();
        Summary {
            total: self.items.len(),
            succeeded: tally.succeeded,
            failed: tally.failed,
            failures: self.aggregator.failures(),
            aborted_at: self.fatal,
        }
    }

    /// Whether the resolver has a request under way.
    fn expects_resolution(&self) -> (expected: bool)
        requires
            self.wf(),
        ensures
            expected == self@.is_resolving(),
    {
        self.fatal.is_none() && self.cursor < self.items.len() && self.states[self.cursor]
            == ItemState::Resolving
    }

    /// Closes the queue if the resolver has nothing more to add to it.
    fn close_if_done(&mut self)
        requires
            old(self).queue.wf(),
            old(self).queue@.closed ==> old(self)@.should_close(),
        ensures
            final(self).queue.wf(),
            final(self)@ == (PipelineView { closed: old(self)@.should_close(), ..old(self)@ }),
            final(self).aggregator == old(self).aggregator,
    {
        if self.fatal.is_some() || (self.cursor >= self.items.len() && self.held.is_none()) {
            self.queue.close();
        }
    }

    /// Tells the resolver what to do next. Where the answer is
    /// [`ResolverAction::Resolve`], the item under the cursor is marked as
    /// being resolved, and the result of the request is expected.
    pub fn next_resolution(&mut self) -> (action: ResolverAction)
        requires
            old(self).wf(),
        ensures
            final(self).wf(),
            action == old(self)@.resolver_action(),
            final(self)@ == old(self)@.begin_resolution(),
    {
        proof {
            lemma_begin_resolution_inv(self@);
        }
        if self.fatal.is_some() {
            ResolverAction::Aborted
        } else if self.held.is_some() {
            ResolverAction::Blocked
        } else if self.cursor >= self.items.len() {
            ResolverAction::Finished
        } else {
            self.states.set(self.cursor, ItemState::Resolving);
            ResolverAction::Resolve
        }
    }

    /// Takes in the location that the item under the cursor was resolved
    /// to. The item enters the queue, or is held back while the queue is
    /// full. Returns whether a result was expected; one that was not changes
    /// nothing.
    pub fn resolution_succeeded(&mut self, remote_path: TelegramFilePath) -> (accepted: bool)
        requires
            old(self).wf(),
        ensures
            final(self).wf(),
            accepted == old(self)@.is_resolving(),
            final(self)@ == old(self)@.resolved(remote_path@),
    {
        if !self.expects_resolution() {
            return false;
        }
        proof {
            lemma_resolved_inv(self@, remote_path@);
        }
        let ghost before = self@;
        let position = self.cursor;
        let total = self.items.len();
        let location = ResolvedLocation {
            position,
            item: self.items[position].sticker.clone(),
            collection_title: self.items[position].collection_title.clone(),
            remote_path,
        };
        assert(location@ == before.location(before.cursor, remote_path@));
        self.states.set(position, ItemState::Resolved);
        self.cursor = position + 1;
        self.enqueued = self.enqueued + 1;
        if self.queue.is_full() {
            self.held = Some(location);
        } else {
            proof {
                lemma_views_push(self.queue@.items, location);
            }
            let pushed = self.queue.push(location);
            assert(pushed is Ok);
        }
        self.close_if_done();
        true
    }

    /// Takes in that the item under the cursor could not be resolved. Under
    /// `SkipAndContinue` the item gets a failure as its outcome and the
    /// resolver goes on; under `Abort` the run is aborted. Returns whether a
    /// result was expected; one that was not changes nothing.
    pub fn resolution_failed(&mut self) -> (accepted: bool)
        requires
            old(self).wf(),
        ensures
            final(self).wf(),
            accepted == old(self)@.is_resolving(),
            final(self)@ == old(self)@.resolution_failed(),
    {
        if !self.expects_resolution() {
            return false;
        }
        proof {
            lemma_resolution_failed_inv(self@);
        }
        let ghost before = self@;
        let position = self.cursor;
        let total = self.items.len();
        self.states.set(position, ItemState::Failed);
        match self.policy {
            FailurePolicy::SkipAndContinue => {
                let outcome = DownloadOutcome {
                    position,
                    item: self.items[position].sticker.clone(),
                    collection_title: self.items[position].collection_title.clone(),
                    result: DownloadResult::Failure {
                        stage: Stage::Resolving,
                        error_kind: ErrorKind::Resolution,
                    },
                };
                assert(outcome@ == before.outcome(before.cursor, resolution_failure()));
                self.aggregator.record(outcome);
                self.cursor = position + 1;
                self.close_if_done();
            },
            FailurePolicy::Abort => {
                self.fatal = Some(position);
                self.queue.close();
            },
        }
        true
    }

    /// Gives `worker` the oldest item in the queue to fetch, if there is
    /// one, and tells it to wait or to stop if there is none. An item that
    /// was held back moves into the place that has become free.
    pub fn take(&mut self, worker: usize) -> (action: WorkerAction)
        requires
            old(self).wf(),
        ensures
            final(self).wf(),
            action@ == old(self)@.worker_action(worker as nat),
            final(self)@ == old(self)@.take(worker as nat),
    {
        if worker >= self.workers.len() {
            return WorkerAction::Rejected;
        }
        assert(slot_views(self.workers@)[worker as int] == slot_view(self.workers@[worker as int]));
        if self.workers[worker].is_some() {
            return WorkerAction::Rejected;
        }
        proof {
            lemma_take_inv(self@, worker as nat);
        }
        let ghost before = self@;
        let ghost queued = self.queue@.items;
        match self.queue.pop() {
            Popped::Item(location) => {
                proof {
                    assert(location@ == before.queue[0]);
                    assert(before.waiting()[0] == before.queue[0]);
                    assert(before.holds(before.waiting()[0], ItemState::Resolved));
                    assert(before.items[location.position as int].sticker.has_valid_media());
                    lemma_views_drop_first(queued);
                }
                let destination = destination_for(
                    self.output_dir.as_str(),
                    location.collection_title.as_str(),
                    &location.item,
                );
                let job = DownloadJob {
                    worker,
                    position: location.position,
                    remote_path: location.remote_path.clone(),
                    directory: destination.directory,
                    local_path: destination.path,
                };
                self.states.set(location.position, ItemState::Downloading);
                proof {
                    lemma_slot_views_update(self.workers@, worker as int, Some(location));
                }
                self.workers.set(worker, Some(location));
                match self.held.take() {
                    Some(waiting) => {
                        proof {
                            lemma_views_push(self.queue@.items, waiting);
                        }
                        let pushed = self.queue.push(waiting);
                        assert(pushed is Ok);
                    },
                    None => {},
                }
                self.close_if_done();
                WorkerAction::Download(job)
            },
            Popped::Empty => WorkerAction::Wait,
            Popped::EndOfStream => WorkerAction::EndOfStream,
        }
    }

    /// Takes in how the download of `worker` ended. The item gets its
    /// outcome and the worker is idle again. Returns whether a report was
    /// expected; one that was not changes nothing.
    pub fn complete(&mut self, worker: usize, report: DownloadReport) -> (accepted: bool)
        requires
            old(self).wf(),
        ensures
            final(self).wf(),
            accepted == old(self)@.is_downloading(worker as nat),
            final(self)@ == old(self)@.complete(worker as nat, report),
    {
        if worker >= self.workers.len() {
            return false;
        }
        assert(slot_views(self.workers@)[worker as int] == slot_view(self.workers@[worker as int]));
        proof {
            lemma_complete_inv(self@, worker as nat, report);
        }
        let ghost before = self@;
        let ghost slots = self.workers@;
        let slot = self.workers[worker].take();
        match slot {
            None => {
                assert(self.workers@ =~= slots);
                false
            },
            Some(location) => {
                proof {
                    assert(self.workers@ =~= slots.update(worker as int, None));
                    lemma_slot_views_update(slots, worker as int, None);
                    assert(location@ == before.workers[worker as int]->0);
                    assert(before.holds(location@, ItemState::Downloading));
                }
                let position = location.position;
                let (state, result) = match report {
                    DownloadReport::Saved => {
                        let destination = destination_for(
                            self.output_dir.as_str(),
                            location.collection_title.as_str(),
                            &location.item,
                        );
                        (
                            ItemState::Completed,
                            DownloadResult::Success { local_path: destination.path },
                        )
                    },
                    DownloadReport::FailedAt(step) => (
                        ItemState::Failed,
                        DownloadResult::Failure {
                            stage: Stage::Downloading,
                            error_kind: step.error_kind(),
                        },
                    ),
                };
                self.states.set(position, state);
                let outcome = DownloadOutcome {
                    position,
                    item: location.item,
                    collection_title: location.collection_title,
                    result,
                };
                assert(outcome@
                    == before.outcome(position as nat, before.result_of(position as nat, report)));
                self.aggregator.record(outcome);
                true
            },
        }
    }
}

} // verus!
