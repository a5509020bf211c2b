use std::collections::{BTreeMap, BTreeSet};

use tsticker::bot::{Sticker, StickerSet, TelegramFilePath, ThumbFile};
use tsticker::pipeline::aggregate::{FailureRecord, ResultAggregator};
use tsticker::pipeline::engine::{
    first_invalid_media, flatten_sets, DownloadJob, Pipeline, SetupError, WorkerAction,
    DEFAULT_PARALLELISM, DEFAULT_QUEUE_CAPACITY, EXIT_FATAL, EXIT_SUCCESS,
};
use tsticker::pipeline::types::{
    DownloadOutcome, DownloadReport, DownloadResult, DownloadStep, ErrorKind, FailurePolicy,
    ItemState, ResolverAction, Stage,
};

fn thumb(id: &str) -> ThumbFile {
    ThumbFile::new(id.to_string(), format!("u{id}"), 10, 128, 128)
}

fn sticker(file_id: &str) -> Sticker {
    Sticker {
        width: 512,
        height: 512,
        emoji: "🚀".to_string(),
        is_animated: false,
        is_video: false,
        ty: "regular".to_string(),
        thumbnail: thumb("t1"),
        thumb: thumb("t2"),
        file_id: file_id.to_string(),
        file_unique_id: format!("u{file_id}"),
        file_size: 1234,
    }
}

fn set(title: &str, size: usize) -> StickerSet {
    StickerSet {
        name: title.to_lowercase(),
        title: title.to_string(),
        sticker_type: "regular".to_string(),
        stickers: (0..size).map(|i| sticker(&format!("{title}{i}"))).collect(),
    }
}

fn three_sets() -> Vec<StickerSet> {
    vec![set("Alpha", 2), set("Beta", 3), set("Gamma", 1)]
}

/// What the simulated remote service and disk do to each item.
struct World {
    unresolvable: BTreeSet<usize>,
    failing: BTreeMap<usize, DownloadStep>,
}

impl World {
    fn fine() -> World {
        World { unresolvable: BTreeSet::new(), failing: BTreeMap::new() }
    }
}

/// What a simulated run saw.
struct Seen {
    directories: BTreeSet<String>,
    written: Vec<String>,
    started: Vec<usize>,
    deepest_queue: usize,
    most_in_flight: usize,
}

fn check_bounds(pipeline: &Pipeline, seen: &mut Seen) {
    let depth = pipeline.queue_depth();
    let in_flight = pipeline.in_flight();
    assert!(depth <= pipeline.capacity());
    assert!(in_flight <= pipeline.parallelism());
    seen.deepest_queue = seen.deepest_queue.max(depth);
    seen.most_in_flight = seen.most_in_flight.max(in_flight);
}

fn perform(job: &DownloadJob, world: &World, seen: &mut Seen) -> DownloadReport {
    seen.started.push(job.position);
    match world.failing.get(&job.position) {
        Some(DownloadStep::Request) => DownloadReport::FailedAt(DownloadStep::Request),
        Some(DownloadStep::CreateDirectory) => {
            DownloadReport::FailedAt(DownloadStep::CreateDirectory)
        }
        Some(step) => {
            seen.directories.insert(job.directory.clone());
            DownloadReport::FailedAt(*step)
        }
        None => {
            seen.directories.insert(job.directory.clone());
            seen.written.push(job.local_path.clone());
            DownloadReport::Saved
        }
    }
}

/// Runs the pipeline to its end. With `eager` set the resolver runs as far
/// as it can before any worker gets a turn, and all workers start before
/// any of them ends.
fn run(pipeline: &mut Pipeline, world: &World, eager: bool) -> Seen {
    let mut seen = Seen {
        directories: BTreeSet::new(),
        written: Vec::new(),
        started: Vec::new(),
        deepest_queue: 0,
        most_in_flight: 0,
    };
    let workers = pipeline.parallelism();
    let mut jobs: Vec<Option<DownloadJob>> = (0..workers).map(|_| None).collect();
    loop {
        let mut progress = false;
        loop {
            match pipeline.next_resolution() {
                ResolverAction::Resolve => {
                    let position = pipeline.cursor();
                    assert!(pipeline.resolving().is_some());
                    if world.unresolvable.contains(&position) {
                        assert!(pipeline.resolution_failed());
                    } else {
                        let path = TelegramFilePath::new(format!("remote/{position}"));
                        assert!(pipeline.resolution_succeeded(path));
                    }
                    progress = true;
                    check_bounds(pipeline, &mut seen);
                    if !eager {
                        break;
                    }
                }
                _ => break,
            }
        }
        for worker in 0..workers {
            if jobs[worker].is_some() {
                continue;
            }
            if let WorkerAction::Download(job) = pipeline.take(worker) {
                assert_eq!(job.worker, worker);
                jobs[worker] = Some(job);
                progress = true;
                check_bounds(pipeline, &mut seen);
                if !eager {
                    break;
                }
            }
        }
        for worker in 0..workers {
            if let Some(job) = jobs[worker].take() {
                let report = perform(&job, world, &mut seen);
                assert!(pipeline.complete(worker, report));
                progress = true;
                check_bounds(pipeline, &mut seen);
            }
        }
        if !progress {
            break;
        }
    }
    assert!(pipeline.is_finished());
    seen
}

fn successes(outcomes: &[DownloadOutcome]) -> usize {
    outcomes.iter().filter(|o| matches!(o.result, DownloadResult::Success { .. })).count()
}

fn positions(outcomes: &[DownloadOutcome]) -> BTreeSet<usize> {
    outcomes.iter().map(|o| o.position).collect()
}

fn new_pipeline(
    sets: Vec<StickerSet>,
    policy: FailurePolicy,
    capacity: usize,
    parallelism: usize,
) -> Pipeline {
    match Pipeline::new(sets, "out".to_string(), policy, capacity, parallelism) {
        Ok(pipeline) => pipeline,
        Err(error) => panic!("setup failed: {error:?}"),
    }
}

#[test]
fn skipped_resolution_failure_leaves_the_rest() {
    // Three sets of 2, 3 and 1 items; the second item of the second set
    // cannot be resolved.
    let mut pipeline = new_pipeline(three_sets(), FailurePolicy::SkipAndContinue, 8, 16);
    let mut world = World::fine();
    world.unresolvable.insert(3);
    let seen = run(&mut pipeline, &world, false);

    let outcomes = pipeline.outcomes();
    assert_eq!(outcomes.len(), 6);
    assert_eq!(successes(outcomes), 5);
    let failed: Vec<&DownloadOutcome> =
        outcomes.iter().filter(|o| !o.result.is_success()).collect();
    assert_eq!(failed.len(), 1);
    assert_eq!(failed[0].position, 3);
    assert_eq!(failed[0].item.file_id, "Beta1");
    assert_eq!(failed[0].collection_title, "Beta");
    assert!(matches!(
        failed[0].result,
        DownloadResult::Failure { stage: Stage::Resolving, error_kind: ErrorKind::Resolution }
    ));
    let directories: Vec<&str> = seen.directories.iter().map(|d| d.as_str()).collect();
    assert_eq!(directories, vec!["out/Alpha", "out/Beta", "out/Gamma"]);
    assert_eq!(seen.written.len(), 5);
    assert!(!seen.started.contains(&3));
    assert!(!pipeline.is_aborted());
    assert_eq!(positions(outcomes), (0..6).collect::<BTreeSet<usize>>());
}

#[test]
fn abort_keeps_only_what_was_resolved_before() {
    let mut pipeline = new_pipeline(three_sets(), FailurePolicy::Abort, 8, 16);
    let mut world = World::fine();
    world.unresolvable.insert(3);
    let seen = run(&mut pipeline, &world, false);

    let outcomes = pipeline.outcomes();
    assert_eq!(positions(outcomes), [0usize, 1, 2].into_iter().collect::<BTreeSet<usize>>());
    assert_eq!(outcomes.len(), 3);
    assert_eq!(successes(outcomes), 3);
    assert!(pipeline.is_aborted());
    assert_eq!(pipeline.aborted_at(), Some(3));
    assert_eq!(pipeline.resolved_count(), 3);
    let mut started = seen.started.clone();
    started.sort();
    assert_eq!(started, vec![0, 1, 2]);
    assert_eq!(
        seen.written,
        vec!["out/Alpha/rocket_Alpha0.webp", "out/Alpha/rocket_Alpha1.webp", "out/Beta/rocket_Beta0.webp"]
    );
    assert_eq!(pipeline.state(3), Some(ItemState::Failed));
    assert_eq!(pipeline.state(4), Some(ItemState::Pending));
    assert_eq!(pipeline.state(5), Some(ItemState::Pending));
    assert_eq!(pipeline.next_resolution(), ResolverAction::Aborted);
}

#[test]
fn abort_with_eager_resolver_gives_the_same_outcomes() {
    let mut pipeline = new_pipeline(three_sets(), FailurePolicy::Abort, 8, 16);
    let mut world = World::fine();
    world.unresolvable.insert(3);
    run(&mut pipeline, &world, true);
    assert_eq!(
        positions(pipeline.outcomes()),
        [0usize, 1, 2].into_iter().collect::<BTreeSet<usize>>()
    );
    assert_eq!(pipeline.summary().aborted_at, Some(3));
}

#[test]
fn mid_stream_error_fails_one_item_of_sixteen() {
    let mut pipeline =
        new_pipeline(vec![set("Big", 16)], FailurePolicy::SkipAndContinue, 16, 16);
    let mut world = World::fine();
    world.failing.insert(9, DownloadStep::ReceiveChunk);
    let seen = run(&mut pipeline, &world, true);

    assert_eq!(seen.most_in_flight, 16);
    let outcomes = pipeline.outcomes();
    assert_eq!(outcomes.len(), 16);
    assert_eq!(successes(outcomes), 15);
    let failed: Vec<&DownloadOutcome> =
        outcomes.iter().filter(|o| !o.result.is_success()).collect();
    assert_eq!(failed.len(), 1);
    assert_eq!(failed[0].position, 9);
    assert!(matches!(
        failed[0].result,
        DownloadResult::Failure { stage: Stage::Downloading, error_kind: ErrorKind::Transport }
    ));
    assert!(!seen.written.contains(&"out/Big/rocket_Big9.webp".to_string()));
    assert_eq!(seen.written.len(), 15);
    let summary = pipeline.summary();
    assert_eq!(summary.total, 16);
    assert_eq!(summary.succeeded, 15);
    assert_eq!(summary.failed, 1);
    assert_eq!(
        summary.failures,
        vec![FailureRecord {
            position: 9,
            stage: Stage::Downloading,
            error_kind: ErrorKind::Transport
        }]
    );
    assert_eq!(summary.aborted_at, None);
}

#[test]
fn download_failure_never_aborts_even_under_abort() {
    let mut pipeline = new_pipeline(three_sets(), FailurePolicy::Abort, 2, 2);
    let mut world = World::fine();
    world.failing.insert(1, DownloadStep::CreateFile);
    world.failing.insert(4, DownloadStep::Request);
    run(&mut pipeline, &world, false);
    assert!(!pipeline.is_aborted());
    let tally = pipeline.tally();
    assert_eq!(tally.total, 6);
    assert_eq!(tally.succeeded, 4);
    assert_eq!(tally.failed, 2);
}

#[test]
fn every_item_gets_one_outcome_whatever_the_schedule() {
    for eager in [false, true] {
        for capacity in [1usize, 2, 8] {
            for parallelism in [1usize, 3, 16] {
                let mut pipeline = new_pipeline(
                    three_sets(),
                    FailurePolicy::SkipAndContinue,
                    capacity,
                    parallelism,
                );
                let mut world = World::fine();
                world.unresolvable.insert(0);
                world.unresolvable.insert(5);
                world.failing.insert(2, DownloadStep::WriteChunk);
                let seen = run(&mut pipeline, &world, eager);
                assert_eq!(pipeline.outcomes().len(), pipeline.total());
                assert_eq!(positions(pipeline.outcomes()).len(), 6);
                assert_eq!(successes(pipeline.outcomes()), 3);
                assert!(seen.deepest_queue <= capacity);
                assert!(seen.most_in_flight <= parallelism);
            }
        }
    }
}

#[test]
fn full_queue_holds_the_resolver_back() {
    let mut pipeline = new_pipeline(vec![set("S", 5)], FailurePolicy::SkipAndContinue, 2, 1);
    for position in 0..3 {
        assert_eq!(pipeline.next_resolution(), ResolverAction::Resolve);
        assert_eq!(pipeline.cursor(), position);
        assert!(pipeline.resolution_succeeded(TelegramFilePath::new(format!("r{position}"))));
    }
    // Two items are queued, the third waits behind the full queue.
    assert_eq!(pipeline.queue_depth(), 2);
    assert_eq!(pipeline.resolved_count(), 3);
    assert_eq!(pipeline.next_resolution(), ResolverAction::Blocked);
    assert_eq!(pipeline.next_resolution(), ResolverAction::Blocked);
    assert_eq!(pipeline.cursor(), 3);
    assert_eq!(pipeline.state(3), Some(ItemState::Pending));

    // A worker frees a place, and the waiting item moves in.
    match pipeline.take(0) {
        WorkerAction::Download(job) => {
            assert_eq!(job.position, 0);
            assert_eq!(job.remote_path.as_str(), "r0");
        }
        other => panic!("unexpected action: {other:?}"),
    }
    assert_eq!(pipeline.queue_depth(), 2);
    assert_eq!(pipeline.in_flight(), 1);
    assert_eq!(pipeline.next_resolution(), ResolverAction::Resolve);
    assert_eq!(pipeline.cursor(), 3);
}

#[test]
fn items_leave_the_queue_in_input_order() {
    let mut pipeline = new_pipeline(three_sets(), FailurePolicy::SkipAndContinue, 8, 1);
    let mut world = World::fine();
    world.unresolvable.insert(1);
    let seen = run(&mut pipeline, &world, true);
    assert_eq!(seen.started, vec![0, 2, 3, 4, 5]);
}

#[test]
fn job_says_what_to_fetch_and_where_to_store_it() {
    let mut pipeline = new_pipeline(three_sets(), FailurePolicy::SkipAndContinue, 8, 2);
    assert_eq!(pipeline.next_resolution(), ResolverAction::Resolve);
    assert!(pipeline.resolution_succeeded(TelegramFilePath::new("stickers/f0.webp".to_string())));
    match pipeline.take(1) {
        WorkerAction::Download(job) => {
            assert_eq!(job.worker, 1);
            assert_eq!(job.position, 0);
            assert_eq!(job.remote_path.as_str(), "stickers/f0.webp");
            assert_eq!(job.directory, "out/Alpha");
            assert_eq!(job.local_path, "out/Alpha/rocket_Alpha0.webp");
        }
        other => panic!("unexpected action: {other:?}"),
    }
    assert_eq!(pipeline.state(0), Some(ItemState::Downloading));
    assert!(pipeline.complete(1, DownloadReport::Saved));
    assert_eq!(pipeline.state(0), Some(ItemState::Completed));
    let outcome = &pipeline.outcomes()[0];
    assert_eq!(outcome.position, 0);
    assert_eq!(outcome.item.file_id, "Alpha0");
    assert_eq!(outcome.collection_title, "Alpha");
    match &outcome.result {
        DownloadResult::Success { local_path } => {
            assert_eq!(local_path, "out/Alpha/rocket_Alpha0.webp")
        }
        other => panic!("unexpected result: {other:?}"),
    }
}

#[test]
fn item_states_follow_the_life_of_an_item() {
    let mut pipeline = new_pipeline(vec![set("S", 2)], FailurePolicy::SkipAndContinue, 1, 1);
    assert_eq!(pipeline.state(0), Some(ItemState::Pending));
    assert_eq!(pipeline.next_resolution(), ResolverAction::Resolve);
    assert_eq!(pipeline.state(0), Some(ItemState::Resolving));
    assert_eq!(pipeline.resolving().map(|item| item.sticker.file_id.clone()), Some("S0".to_string()));
    assert!(pipeline.resolution_succeeded(TelegramFilePath::new("p".to_string())));
    assert_eq!(pipeline.state(0), Some(ItemState::Resolved));
    assert!(pipeline.resolving().is_none());
    assert!(matches!(pipeline.take(0), WorkerAction::Download(_)));
    assert_eq!(pipeline.state(0), Some(ItemState::Downloading));
    assert!(pipeline.complete(0, DownloadReport::FailedAt(DownloadStep::CreateDirectory)));
    assert_eq!(pipeline.state(0), Some(ItemState::Failed));
    assert_eq!(pipeline.next_resolution(), ResolverAction::Resolve);
    assert!(pipeline.resolution_failed());
    assert_eq!(pipeline.state(1), Some(ItemState::Failed));
    assert_eq!(pipeline.state(2), None);
    assert!(pipeline.is_finished());
    assert_eq!(
        pipeline.summary().failures,
        vec![
            FailureRecord { position: 0, stage: Stage::Downloading, error_kind: ErrorKind::Filesystem },
            FailureRecord { position: 1, stage: Stage::Resolving, error_kind: ErrorKind::Resolution },
        ]
    );
}

#[test]
fn unexpected_events_change_nothing() {
    let mut pipeline = new_pipeline(vec![set("S", 2)], FailurePolicy::SkipAndContinue, 1, 2);
    // No request is under way yet.
    assert!(!pipeline.resolution_succeeded(TelegramFilePath::new("p".to_string())));
    assert!(!pipeline.resolution_failed());
    assert_eq!(pipeline.cursor(), 0);
    assert_eq!(pipeline.resolved_count(), 0);
    // No worker has a download.
    assert!(!pipeline.complete(0, DownloadReport::Saved));
    assert!(!pipeline.complete(7, DownloadReport::Saved));
    assert!(pipeline.outcomes().is_empty());
    // There is no worker 2.
    assert!(matches!(pipeline.take(2), WorkerAction::Rejected));
    // Nothing is queued, but the resolver is not done.
    assert!(matches!(pipeline.take(0), WorkerAction::Wait));

    assert_eq!(pipeline.next_resolution(), ResolverAction::Resolve);
    assert!(pipeline.resolution_succeeded(TelegramFilePath::new("p".to_string())));
    assert!(matches!(pipeline.take(0), WorkerAction::Download(_)));
    // A busy worker cannot take a second item.
    assert!(matches!(pipeline.take(0), WorkerAction::Rejected));
    assert_eq!(pipeline.in_flight(), 1);
    // The result of a request can be reported only once.
    assert!(!pipeline.resolution_succeeded(TelegramFilePath::new("q".to_string())));
    assert!(pipeline.complete(0, DownloadReport::Saved));
    assert!(!pipeline.complete(0, DownloadReport::Saved));
    assert_eq!(pipeline.outcomes().len(), 1);
}

#[test]
fn asking_twice_resolves_the_same_item() {
    let mut pipeline = new_pipeline(vec![set("S", 2)], FailurePolicy::SkipAndContinue, 1, 1);
    assert_eq!(pipeline.next_resolution(), ResolverAction::Resolve);
    assert_eq!(pipeline.next_resolution(), ResolverAction::Resolve);
    assert_eq!(pipeline.cursor(), 0);
    assert_eq!(pipeline.state(0), Some(ItemState::Resolving));
    assert_eq!(pipeline.state(1), Some(ItemState::Pending));
}

#[test]
fn empty_input_is_finished_at_once() {
    let mut pipeline = new_pipeline(Vec::new(), FailurePolicy::Abort, 8, 16);
    assert_eq!(pipeline.total(), 0);
    assert!(pipeline.is_finished());
    assert_eq!(pipeline.next_resolution(), ResolverAction::Finished);
    assert!(matches!(pipeline.take(0), WorkerAction::EndOfStream));
    let summary = pipeline.summary();
    assert_eq!((summary.total, summary.succeeded, summary.failed), (0, 0, 0));
}

#[test]
fn sets_without_stickers_are_finished_at_once() {
    let pipeline = new_pipeline(vec![set("A", 0), set("B", 0)], FailurePolicy::Abort, 1, 1);
    assert_eq!(pipeline.total(), 0);
    assert!(pipeline.is_finished());
}

#[test]
fn workers_stop_only_after_the_queue_is_drained() {
    let mut pipeline = new_pipeline(vec![set("S", 1)], FailurePolicy::SkipAndContinue, 4, 2);
    assert!(matches!(pipeline.take(0), WorkerAction::Wait));
    assert_eq!(pipeline.next_resolution(), ResolverAction::Resolve);
    assert!(pipeline.resolution_succeeded(TelegramFilePath::new("p".to_string())));
    assert_eq!(pipeline.next_resolution(), ResolverAction::Finished);
    assert!(!pipeline.is_finished());
    assert!(matches!(pipeline.take(0), WorkerAction::Download(_)));
    assert!(matches!(pipeline.take(1), WorkerAction::EndOfStream));
    assert!(!pipeline.is_finished());
    assert!(pipeline.complete(0, DownloadReport::Saved));
    assert!(pipeline.is_finished());
    assert!(matches!(pipeline.take(0), WorkerAction::EndOfStream));
}

#[test]
fn aborted_run_drains_what_was_queued() {
    let mut pipeline = new_pipeline(vec![set("S", 4)], FailurePolicy::Abort, 4, 1);
    for _ in 0..2 {
        assert_eq!(pipeline.next_resolution(), ResolverAction::Resolve);
        assert!(pipeline.resolution_succeeded(TelegramFilePath::new("p".to_string())));
    }
    assert_eq!(pipeline.next_resolution(), ResolverAction::Resolve);
    assert!(pipeline.resolution_failed());
    assert!(pipeline.is_aborted());
    assert!(!pipeline.is_finished());
    assert_eq!(pipeline.queue_depth(), 2);
    assert_eq!(pipeline.resolved_count(), 2);
    assert_eq!(pipeline.next_resolution(), ResolverAction::Aborted);
    assert!(!pipeline.resolution_succeeded(TelegramFilePath::new("late".to_string())));
    assert_eq!(pipeline.queue_depth(), 2);
    assert_eq!(pipeline.resolved_count(), 2);
    for expected in 0..2 {
        match pipeline.take(0) {
            WorkerAction::Download(job) => assert_eq!(job.position, expected),
            other => panic!("unexpected action: {other:?}"),
        }
        assert!(pipeline.complete(0, DownloadReport::Saved));
    }
    assert!(matches!(pipeline.take(0), WorkerAction::EndOfStream));
    assert!(pipeline.is_finished());
    let summary = pipeline.summary();
    assert_eq!(summary.total, 4);
    assert_eq!(summary.succeeded, 2);
    assert_eq!(summary.failed, 0);
    assert!(summary.failures.is_empty());
    assert_eq!(summary.aborted_at, Some(2));
}

#[test]
fn setup_refuses_a_queue_without_room() {
    let made = Pipeline::new(three_sets(), "out".to_string(), FailurePolicy::Abort, 0, 16);
    assert!(matches!(made, Err(SetupError::NoCapacity)));
    let made = Pipeline::new(three_sets(), "out".to_string(), FailurePolicy::Abort, 0, 0);
    assert!(matches!(made, Err(SetupError::NoCapacity)));
}

#[test]
fn setup_refuses_a_pool_without_workers() {
    let made = Pipeline::new(three_sets(), "out".to_string(), FailurePolicy::Abort, 8, 0);
    assert!(matches!(made, Err(SetupError::NoWorkers)));
}

#[test]
fn setup_refuses_a_sticker_that_is_both_animated_and_video() {
    let mut sets = three_sets();
    sets[1].stickers[2].is_animated = true;
    sets[1].stickers[2].is_video = true;
    sets[2].stickers[0].is_animated = true;
    sets[2].stickers[0].is_video = true;
    assert_eq!(first_invalid_media(&sets), Some((1, 2)));
    let made = Pipeline::new(sets, "out".to_string(), FailurePolicy::SkipAndContinue, 8, 16);
    assert!(matches!(made, Err(SetupError::InvalidMedia { collection: 1, index: 2 })));
}

#[test]
fn valid_sets_have_no_invalid_sticker() {
    assert_eq!(first_invalid_media(&three_sets()), None);
    assert_eq!(first_invalid_media(&Vec::new()), None);
}

#[test]
fn sets_are_flattened_in_input_order() {
    let items = flatten_sets(three_sets());
    let ids: Vec<&str> = items.iter().map(|item| item.sticker.file_id.as_str()).collect();
    assert_eq!(ids, vec!["Alpha0", "Alpha1", "Beta0", "Beta1", "Beta2", "Gamma0"]);
    let titles: Vec<&str> = items.iter().map(|item| item.collection_title.as_str()).collect();
    assert_eq!(titles, vec!["Alpha", "Alpha", "Beta", "Beta", "Beta", "Gamma"]);
}

#[test]
fn pipeline_knows_its_items() {
    let pipeline = new_pipeline(three_sets(), FailurePolicy::Abort, 8, 16);
    assert_eq!(pipeline.total(), 6);
    assert_eq!(pipeline.capacity(), 8);
    assert_eq!(pipeline.parallelism(), 16);
    assert_eq!(pipeline.policy(), FailurePolicy::Abort);
    assert_eq!(pipeline.output_dir(), "out");
    assert_eq!(pipeline.item(3).map(|item| item.sticker.file_id.as_str()), Some("Beta1"));
    assert_eq!(pipeline.item(3).map(|item| item.collection_title.as_str()), Some("Beta"));
    assert!(pipeline.item(6).is_none());
}

#[test]
fn failed_steps_are_classified() {
    assert_eq!(DownloadStep::Request.error_kind(), ErrorKind::Transport);
    assert_eq!(DownloadStep::ReceiveChunk.error_kind(), ErrorKind::Transport);
    assert_eq!(DownloadStep::CreateDirectory.error_kind(), ErrorKind::Filesystem);
    assert_eq!(DownloadStep::CreateFile.error_kind(), ErrorKind::Filesystem);
    assert_eq!(DownloadStep::WriteChunk.error_kind(), ErrorKind::Filesystem);
}

#[test]
fn every_failing_step_gives_a_download_failure() {
    let steps = [
        DownloadStep::Request,
        DownloadStep::CreateDirectory,
        DownloadStep::CreateFile,
        DownloadStep::ReceiveChunk,
        DownloadStep::WriteChunk,
    ];
    let mut pipeline = new_pipeline(vec![set("S", 5)], FailurePolicy::Abort, 8, 1);
    let mut world = World::fine();
    for (position, step) in steps.iter().enumerate() {
        world.failing.insert(position, *step);
    }
    run(&mut pipeline, &world, false);
    let failures = pipeline.summary().failures;
    assert_eq!(failures.len(), 5);
    for (position, step) in steps.iter().enumerate() {
        assert_eq!(
            failures[position],
            FailureRecord { position, stage: Stage::Downloading, error_kind: step.error_kind() }
        );
    }
}

#[test]
fn aggregator_counts_what_it_is_given() {
    let mut aggregator = ResultAggregator::new();
    assert_eq!(aggregator.len(), 0);
    aggregator.record(DownloadOutcome {
        position: 4,
        item: sticker("a"),
        collection_title: "T".to_string(),
        result: DownloadResult::Success { local_path: "out/T/a".to_string() },
    });
    aggregator.record(DownloadOutcome {
        position: 2,
        item: sticker("b"),
        collection_title: "T".to_string(),
        result: DownloadResult::Failure {
            stage: Stage::Downloading,
            error_kind: ErrorKind::Filesystem,
        },
    });
    aggregator.record(DownloadOutcome {
        position: 0,
        item: sticker("c"),
        collection_title: "T".to_string(),
        result: DownloadResult::Failure {
            stage: Stage::Resolving,
            error_kind: ErrorKind::Resolution,
        },
    });
    let tally = aggregator.tally();
    assert_eq!((tally.total, tally.succeeded, tally.failed), (3, 1, 2));
    assert_eq!(aggregator.len(), 3);
    assert_eq!(aggregator.outcomes()[0].position, 4);
    assert_eq!(
        aggregator.failures(),
        vec![
            FailureRecord { position: 2, stage: Stage::Downloading, error_kind: ErrorKind::Filesystem },
            FailureRecord { position: 0, stage: Stage::Resolving, error_kind: ErrorKind::Resolution },
        ]
    );
}

#[test]
fn held_back_last_item_closes_the_queue_once_it_moves_in() {
    let mut pipeline = new_pipeline(vec![set("S", 2)], FailurePolicy::SkipAndContinue, 1, 1);
    for _ in 0..2 {
        assert_eq!(pipeline.next_resolution(), ResolverAction::Resolve);
        assert!(pipeline.resolution_succeeded(TelegramFilePath::new("p".to_string())));
    }
    // Every item has been resolved, but the last one still waits for a place.
    assert_eq!(pipeline.cursor(), 2);
    assert_eq!(pipeline.queue_depth(), 1);
    assert_eq!(pipeline.next_resolution(), ResolverAction::Blocked);
    match pipeline.take(0) {
        WorkerAction::Download(job) => assert_eq!(job.position, 0),
        other => panic!("unexpected action: {other:?}"),
    }
    assert_eq!(pipeline.queue_depth(), 1);
    assert_eq!(pipeline.next_resolution(), ResolverAction::Finished);
    assert!(pipeline.complete(0, DownloadReport::Saved));
    assert!(!pipeline.is_finished());
    match pipeline.take(0) {
        WorkerAction::Download(job) => assert_eq!(job.position, 1),
        other => panic!("unexpected action: {other:?}"),
    }
    assert!(pipeline.complete(0, DownloadReport::Saved));
    assert!(pipeline.is_finished());
    assert_eq!(pipeline.tally().succeeded, 2);
}

#[test]
fn one_failure_among_many_leaves_all_others_successful() {
    for failing in 0..6 {
        let mut pipeline = new_pipeline(three_sets(), FailurePolicy::SkipAndContinue, 2, 3);
        let mut world = World::fine();
        if failing % 2 == 0 {
            world.unresolvable.insert(failing);
        } else {
            world.failing.insert(failing, DownloadStep::Request);
        }
        run(&mut pipeline, &world, failing % 3 == 0);
        let summary = pipeline.summary();
        assert_eq!(summary.total, 6);
        assert_eq!(summary.succeeded, 5);
        assert_eq!(summary.failed, 1);
        assert_eq!(summary.failures.len(), 1);
        assert_eq!(summary.failures[0].position, failing);
        for outcome in pipeline.outcomes() {
            assert_eq!(outcome.result.is_success(), outcome.position != failing);
        }
    }
}

#[test]
fn only_an_aborted_run_fails_the_program() {
    let mut world = World::fine();
    world.unresolvable.insert(3);
    world.failing.insert(0, DownloadStep::WriteChunk);

    let mut skipping = new_pipeline(three_sets(), FailurePolicy::SkipAndContinue, 8, 16);
    run(&mut skipping, &world, false);
    assert_eq!(skipping.summary().failed, 2);
    assert_eq!(skipping.summary().exit_code(), EXIT_SUCCESS);
    assert_eq!(skipping.summary().exit_code(), 0);

    let mut aborting = new_pipeline(three_sets(), FailurePolicy::Abort, 8, 16);
    run(&mut aborting, &world, false);
    assert_eq!(aborting.summary().exit_code(), EXIT_FATAL);
    assert_eq!(aborting.summary().exit_code(), -1);
}

#[test]
fn failing_fast_means_aborting() {
    assert_eq!(FailurePolicy::from_fast_failure(true), FailurePolicy::Abort);
    assert_eq!(FailurePolicy::from_fast_failure(false), FailurePolicy::SkipAndContinue);
}

#[test]
fn defaults_are_a_small_queue_and_sixteen_workers() {
    assert_eq!(DEFAULT_QUEUE_CAPACITY, 8);
    assert_eq!(DEFAULT_PARALLELISM, 16);
    let pipeline = new_pipeline(
        three_sets(),
        FailurePolicy::SkipAndContinue,
        DEFAULT_QUEUE_CAPACITY,
        DEFAULT_PARALLELISM,
    );
    assert_eq!(pipeline.capacity(), 8);
    assert_eq!(pipeline.parallelism(), 16);
}
