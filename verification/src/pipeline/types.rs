//! The values that flow through the pipeline.

use vstd::prelude::*;
use crate::bot::Sticker;
use crate::bot::StickerView;
use crate::bot::TelegramFilePath;

verus! {

/// What happens to the run when the location of an item cannot be resolved.
#[derive(Debug, Clone, Copy, PartialEq, Eq, Structural)]
pub enum FailurePolicy {
    /// The run ends: nothing more is resolved or queued.
    Abort,
    /// The item is recorded as failed and the run goes on with the next.
    SkipAndContinue,
}

impl FailurePolicy {
    /// The policy that a run has when failing fast was asked for or not.
    pub open spec fn spec_from_fast_failure(fast_failure: bool) -> FailurePolicy {
        if fast_failure {
            FailurePolicy::Abort
        } else {
            FailurePolicy::SkipAndContinue
        }
    }

    /// Failing fast means aborting at the first item that cannot be
    /// resolved; otherwise such an item is skipped.
    #[verifier::when_used_as_spec(spec_from_fast_failure)]
    pub fn from_fast_failure(fast_failure: bool) -> (policy: FailurePolicy)
        ensures
            policy == Self::spec_from_fast_failure(fast_failure),
    {
        if fast_failure {
            FailurePolicy::Abort
        } else {
            FailurePolicy::SkipAndContinue
        }
    }
}

/// Where in its life an item is.
#[derive(Debug, Clone, Copy, PartialEq, Eq, Structural)]
pub enum ItemState {
    /// Not yet looked at.
    Pending,
    /// The request for its location is under way.
    Resolving,
    /// Its location is known and it waits for a worker.
    Resolved,
    /// A worker is fetching it.
    Downloading,
    /// Its file has been written.
    Completed,
    /// It could not be resolved or fetched.
    Failed,
}

impl ItemState {
    /// Whether nothing more happens to an item in this state.
    pub open spec fn is_terminal(self) -> bool {
        self == ItemState::Completed || self == ItemState::Failed
    }

    /// The moves that the life of an item consists of. A failure to resolve
    /// leads straight to `Failed`, without a download in between.
    pub open spec fn can_become(self, next: ItemState) -> bool {
        match self {
            ItemState::Pending => next == ItemState::Resolving,
            ItemState::Resolving => next == ItemState::Resolved || next == ItemState::Failed,
            ItemState::Resolved => next == ItemState::Downloading,
            ItemState::Downloading => next == ItemState::Completed || next == ItemState::Failed,
            ItemState::Completed => false,
            ItemState::Failed => false,
        }
    }
}

/// The phase in which an item failed.
#[derive(Debug, Clone, Copy, PartialEq, Eq, Structural)]
pub enum Stage {
    Resolving,
    Downloading,
}

/// The kind of failure, by where it comes from.
#[derive(Debug, Clone, Copy, PartialEq, Eq, Structural)]
pub enum ErrorKind {
    /// The remote service could not say where the item is.
    Resolution,
    /// The network failed while the item was requested or received.
    Transport,
    /// The directory or the file could not be created or written.
    Filesystem,
}

/// The steps of one download, in the order in which a worker takes them.
#[derive(Debug, Clone, Copy, PartialEq, Eq, Structural)]
pub enum DownloadStep {
    /// Sending the request for the file.
    Request,
    /// Making sure that the directory of the set exists.
    CreateDirectory,
    /// Creating or truncating the local file.
    CreateFile,
    /// Receiving the next chunk of the body.
    ReceiveChunk,
    /// Writing a received chunk to the local file.
    WriteChunk,
}

impl DownloadStep {
    /// The kind of failure that a failure of this step is.
    pub open spec fn spec_error_kind(self) -> ErrorKind {
        match self {
            DownloadStep::Request => ErrorKind::Transport,
            DownloadStep::CreateDirectory => ErrorKind::Filesystem,
            DownloadStep::CreateFile => ErrorKind::Filesystem,
            DownloadStep::ReceiveChunk => ErrorKind::Transport,
            DownloadStep::WriteChunk => ErrorKind::Filesystem,
        }
    }

    /// Classifies a failure of this step: the network steps fail as
    /// transport errors, the directory and file steps as filesystem errors.
    #[verifier::when_used_as_spec(spec_error_kind)]
    pub fn error_kind(self) -> (kind: ErrorKind)
        ensures
            kind == self.spec_error_kind(),
    {
        match self {
            DownloadStep::Request => ErrorKind::Transport,
            DownloadStep::CreateDirectory => ErrorKind::Filesystem,
            DownloadStep::CreateFile => ErrorKind::Filesystem,
            DownloadStep::ReceiveChunk => ErrorKind::Transport,
            DownloadStep::WriteChunk => ErrorKind::Filesystem,
        }
    }
}

/// What the resolver has to do next.
#[derive(Debug, Clone, Copy, PartialEq, Eq, Structural)]
pub enum ResolverAction {
    /// Ask the remote service where the item under the cursor is.
    Resolve,
    /// Wait: a resolved item is held back because the queue is full.
    Blocked,
    /// Stop: every item has been resolved or skipped.
    Finished,
    /// Stop: the run has been aborted.
    Aborted,
}

/// How a download ended, as the worker that ran it reports.
#[derive(Debug, Clone, Copy, PartialEq, Eq, Structural)]
pub enum DownloadReport {
    /// Every chunk was received and written.
    Saved,
    /// The given step failed; the download was given up.
    FailedAt(DownloadStep),
}

/// One input of the pipeline: a sticker and the title of the set it is in.
#[derive(Debug)]
pub struct Item {
    pub sticker: Sticker,
    pub collection_title: String,
}

/// The content of an [`Item`].
pub struct ItemView {
    pub sticker: StickerView,
    pub collection_title: Seq<char>,
}

impl View for Item {
    type V = ItemView;

    open spec fn view(&self) -> ItemView {
        ItemView { sticker: self.sticker@, collection_title: self.collection_title@ }
    }
}

/// An item whose remote location is known. The resolver makes one for each
/// item that it resolves, and exactly one worker consumes it.
#[derive(Debug)]
pub struct ResolvedLocation {
    /// The place of the item in the input, sets first, then items.
    pub position: usize,
    pub item: Sticker,
    pub collection_title: String,
    pub remote_path: TelegramFilePath,
}

/// The content of a [`ResolvedLocation`].
pub struct ResolvedLocationView {
    pub position: nat,
    pub item: StickerView,
    pub collection_title: Seq<char>,
    pub remote_path: Seq<char>,
}

impl View for ResolvedLocation {
    type V = ResolvedLocationView;

    open spec fn view(&self) -> ResolvedLocationView {
        ResolvedLocationView {
            position: self.position as nat,
            item: self.item@,
            collection_title: self.collection_title@,
            remote_path: self.remote_path@,
        }
    }
}

/// How an item ended.
#[derive(Debug)]
pub enum DownloadResult {
    /// The file was written to `local_path`.
    Success { local_path: String },
    /// The item was given up in `stage`, for a reason of `error_kind`.
    Failure { stage: Stage, error_kind: ErrorKind },
}

/// The content of a [`DownloadResult`].
pub enum DownloadResultView {
    Success { local_path: Seq<char> },
    Failure { stage: Stage, error_kind: ErrorKind },
}

impl View for DownloadResult {
    type V = DownloadResultView;

    open spec fn view(&self) -> DownloadResultView {
        match self {
            DownloadResult::Success { local_path } => DownloadResultView::Success {
                local_path: local_path@,
            },
            DownloadResult::Failure { stage, error_kind } => DownloadResultView::Failure {
                stage: *stage,
                error_kind: *error_kind,
            },
        }
    }
}

impl DownloadResult {
    pub fn is_success(&self) -> (success: bool)
        ensures
            success == (self@ is Success),
    {
        match self {
            DownloadResult::Success { .. } => true,
            DownloadResult::Failure { .. } => false,
        }
    }
}

/// The one record that the pipeline produces for an item.
#[derive(Debug)]
pub struct DownloadOutcome {
    /// The place of the item in the input, sets first, then items.
    pub position: usize,
    pub item: Sticker,
    pub collection_title: String,
    pub result: DownloadResult,
}

/// The content of a [`DownloadOutcome`].
pub struct DownloadOutcomeView {
    pub position: nat,
    pub item: StickerView,
    pub collection_title: Seq<char>,
    pub result: DownloadResultView,
}

impl View for DownloadOutcome {
    type V = DownloadOutcomeView;

    open spec fn view(&self) -> DownloadOutcomeView {
        DownloadOutcomeView {
            position: self.position as nat,
            item: self.item@,
            collection_title: self.collection_title@,
            result: self.result@,
        }
    }
}

/// The record of a failed download: what a failure of `step` is filed as.
pub open spec fn download_failure(step: DownloadStep) -> DownloadResultView {
    DownloadResultView::Failure { stage: Stage::Downloading, error_kind: step.spec_error_kind() }
}

/// The record of a failure to resolve.
pub open spec fn resolution_failure() -> DownloadResultView {
    DownloadResultView::Failure { stage: Stage::Resolving, error_kind: ErrorKind::Resolution }
}

} // verus!
