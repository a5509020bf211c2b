//! The aggregator: the one place where outcomes are collected and counted.

use vstd::prelude::*;
use super::counting::failures;
use super::counting::lemma_outcomes_push;
use super::counting::lemma_outcomes_split;
use super::counting::successes;
use super::types::DownloadOutcome;
use super::types::DownloadOutcomeView;
use super::types::DownloadResult;
use super::types::DownloadResultView;
use super::types::ErrorKind;
use super::types::Stage;

verus! {

/// The running counts of a run.
#[derive(Debug, Clone, Copy, PartialEq, Eq, Structural)]
pub struct Tally {
    /// How many outcomes have arrived.
    pub total: usize,
    /// How many of them are successes.
    pub succeeded: usize,
    /// How many of them are failures.
    pub failed: usize,
}

/// One line of the list of failures: which item failed, where, and how.
#[derive(Debug, Clone, Copy, PartialEq, Eq, Structural)]
pub struct FailureRecord {
    pub position: usize,
    pub stage: Stage,
    pub error_kind: ErrorKind,
}

/// The failures among the outcomes, in the order in which they arrived.
pub open spec fn failure_records(outcomes: Seq<DownloadOutcomeView>) -> Seq<FailureRecord>
    decreases outcomes.len(),
{
    if outcomes.len() == 0 {
        Seq::empty()
    } else {
        let before = failure_records(outcomes.drop_last());
        match outcomes.last().result {
            DownloadResultView::Failure { stage, error_kind } => before.push(
                FailureRecord { position: outcomes.last().position as usize, stage, error_kind },
            ),
            DownloadResultView::Success { local_path } => before,
        }
    }
}

/// There is one line in the list of failures for each failure.
pub proof fn lemma_failure_records_len(outcomes: Seq<DownloadOutcomeView>)
    ensures
        failure_records(outcomes).len() == failures(outcomes),
    decreases outcomes.len(),
{
    if outcomes.len() > 0 {
        lemma_failure_records_len(outcomes.drop_last());
    }
}

/// The views of the outcomes.
pub open spec fn outcome_views(outcomes: Seq<DownloadOutcome>) -> Seq<DownloadOutcomeView> {
    outcomes.map_values(|outcome: DownloadOutcome| outcome@)
}

/// Collects the outcomes of a run and keeps count of successes and
/// failures.
pub struct ResultAggregator {
    outcomes: Vec<DownloadOutcome>,
    succeeded: usize,
    failed: usize,
}

impl View for ResultAggregator {
    type V = Seq<DownloadOutcomeView>;

    closed spec fn view(&self) -> Seq<DownloadOutcomeView> {
        outcome_views(self.outcomes@)
    }
}

impl ResultAggregator {
    /// The counts agree with what has been collected.
    pub closed spec fn wf(&self) -> bool {
        &&& self.succeeded == successes(self@)
        &&& self.failed == failures(self@)
    }

    /// An aggregator that has seen nothing.
    pub fn new() -> (aggregator: ResultAggregator)
        ensures
            aggregator.wf(),
            aggregator@ == Seq::<DownloadOutcomeView>::empty(),
    {
        let aggregator = ResultAggregator { outcomes: Vec::new(), succeeded: 0, failed: 0 };
        assert(aggregator@ =~= Seq::empty());
        aggregator
    }

    /// Takes in one outcome and counts it.
    pub fn record(&mut self, outcome: DownloadOutcome)
        requires
            old(self).wf(),
        ensures
            final(self).wf(),
            final(self)@ == old(self)@.push(outcome@),
    {
        let success = outcome.result.is_success();
        proof {
            lemma_outcomes_push(self@, outcome@);
            lemma_outcomes_split(self@);
            assert(outcome_views(self.outcomes@.push(outcome)) =~= self@.push(outcome@));
        }
        self.outcomes.push(outcome);
        let collected = self.outcomes.len();
        if success {
            self.succeeded = self.succeeded + 1;
        } else {
            self.failed = self.failed + 1;
        }
    }

    /// The outcomes so far, in the order in which they arrived.
    pub fn outcomes(&self) -> (outcomes: &Vec<DownloadOutcome>)
        ensures
            outcome_views(outcomes@) == self@,
    {
        &self.outcomes
    }

    /// How many outcomes have arrived.
    pub fn len(&self) -> (len: usize)
        ensures
            len == self@.len(),
    {
        self.outcomes.len()
    }

    /// The counts so far.
    pub fn tally(&self) -> (tally: Tally)
        requires
            self.wf(),
        ensures
            tally.total == self@.len(),
            tally.succeeded == successes(self@),
            tally.failed == failures(self@),
            tally.total == tally.succeeded + tally.failed,
    {
        proof {
            lemma_outcomes_split(self@);
        }
        Tally { total: self.outcomes.len(), succeeded: self.succeeded, failed: self.failed }
    }

    /// The list of failures: for each failed item its position, the stage in
    /// which it failed and the kind of the failure.
    pub fn failures(&self) -> (records: Vec<FailureRecord>)
        ensures
            records@ == failure_records(self@),
    {
        let mut records: Vec<FailureRecord> = Vec::new();
        let mut at: usize = 0;
        while at < self.outcomes.len()
            invariant
                at <= self.outcomes@.len(),
                records@ == failure_records(self@.take(at as int)),
            decreases self.outcomes@.len() - at,
        {
            proof {
                let prefix = self@.take(at + 1);
                assert(prefix.drop_last() =~= self@.take(at as int));
                assert(prefix.last() == self.outcomes@[at as int]@);
            }
            let outcome = &self.outcomes[at];
            match &outcome.result {
                DownloadResult::Failure { stage, error_kind } => {
                    records.push(
                        FailureRecord {
                            position: outcome.position,
                            stage: *stage,
                            error_kind: *error_kind,
                        },
                    );
                },
                DownloadResult::Success { .. } => {},
            }
            at = at + 1;
        }
        proof {
            assert(self@.take(at as int) =~= self@);
        }
        records
    }
}

} // verus!
