//! Starting the engine and taking a submission: where the store lies, the
//! order of the steps, and which failure ends them.

use crate::error::{EngineError, ErrorKind, ErrorView};
use crate::queue::{result_view, SubmitOutcome};
use crate::text::{chars_of, occurs_at, starts_with};
use vstd::prelude::*;

verus! {

/// The location without its scheme: what follows `sqlite://` or `sqlite:`,
/// or the location itself where it has neither.
pub open spec fn without_scheme(location: Seq<char>) -> Seq<char> {
    if occurs_at(location, "sqlite://"@, 0) {
        location.skip("sqlite://"@.len() as int)
    } else if occurs_at(location, "sqlite:"@, 0) {
        location.skip("sqlite:"@.len() as int)
    } else {
        location
    }
}

/// The query string of `path` starts at `cut`: there stands the first `?`,
/// or the path ends there without one.
pub open spec fn is_query_start(path: Seq<char>, cut: int) -> bool {
    &&& 0 <= cut <= path.len()
    &&& forall|i: int| 0 <= i < cut ==> path[i] != '?'
    &&& cut == path.len() || path[cut] == '?'
}

/// The path without its query string.
pub open spec fn without_query(path: Seq<char>) -> Seq<char> {
    path.take(choose|cut: int| is_query_start(path, cut))
}

/// The file that a store location names: the location without its scheme
/// and without its query string.
pub open spec fn store_path(location: Seq<char>) -> Seq<char> {
    without_query(without_scheme(location))
}

proof fn lemma_query_start_is_unique(path: Seq<char>, a: int, b: int)
    requires
        is_query_start(path, a),
        is_query_start(path, b),
    ensures
        a == b,
{
    if a < b {
        assert(path[a] != '?');
    } else if b < a {
        assert(path[b] != '?');
    }
}

/// The file that a store location names, for the sake of creating its
/// directory: `sqlite://<path>`, `sqlite:<path>` and a bare path all give
/// the path, up to the first `?`.
pub fn store_file_path(location: &str) -> (path: String)
    ensures
        path@ == store_path(location@),
{
    proof {
        reveal_strlit("sqlite://");
        reveal_strlit("sqlite:");
    }
    let chars = chars_of(location);
    let start: usize = if starts_with(location, "sqlite://") {
        9
    } else if starts_with(location, "sqlite:") {
        7
    } else {
        0
    };
    assert(location@.skip(0) =~= location@);
    let ghost rest = without_scheme(location@);
    assert(rest == location@.skip(start as int));
    let mut end: usize = start;
    while end < chars.len() && chars[end] != '?'
        invariant
            start <= end <= chars.len(),
            chars@ == location@,
            forall|i: int| start <= i < end ==> chars@[i] != '?',
        decreases chars.len() - end,
    {
        end += 1;
    }
    proof {
        let cut = end - start;
        assert(is_query_start(rest, cut));
        lemma_query_start_is_unique(rest, cut, choose|c: int| is_query_start(rest, c));
        assert(rest.take(cut) =~= location@.subrange(start as int, end as int));
    }
    String::from_str(location.substring_char(start, end))
}

/// How the store keeps its journal.
#[derive(Clone, Copy, Debug, PartialEq, Eq, Structural)]
pub enum JournalMode {
    /// A write-ahead log, which lets readers go on while one writer writes.
    WriteAhead,
    /// A rollback journal.
    Rollback,
}

/// What the store is opened with.
#[derive(Debug, PartialEq, Eq)]
pub struct StoreSettings {
    /// The location, as it was given.
    pub location: String,
    /// The file that the location names; its directory is created if it
    /// does not exist.
    pub file_path: String,
    /// Whether the file is created if it does not exist.
    pub create_if_missing: bool,
    pub journal_mode: JournalMode,
}

/// [`StoreSettings`] as a mathematical value.
pub struct StoreSettingsView {
    pub location: Seq<char>,
    pub file_path: Seq<char>,
    pub create_if_missing: bool,
    pub journal_mode: JournalMode,
}

impl View for StoreSettings {
    type V = StoreSettingsView;

    open spec fn view(&self) -> StoreSettingsView {
        StoreSettingsView {
            location: self.location@,
            file_path: self.file_path@,
            create_if_missing: self.create_if_missing,
            journal_mode: self.journal_mode,
        }
    }
}

/// What the store at `location` is opened with: the file is created if it
/// is missing, and the journal is a write-ahead log.
pub fn store_settings(location: &str) -> (settings: StoreSettings)
    ensures
        settings@ == (StoreSettingsView {
            location: location@,
            file_path: store_path(location@),
            create_if_missing: true,
            journal_mode: JournalMode::WriteAhead,
        }),
{
    StoreSettings {
        location: String::from_str(location),
        file_path: store_file_path(location),
        create_if_missing: true,
        journal_mode: JournalMode::WriteAhead,
    }
}

/// A step of the engine's start.
#[derive(Clone, Copy, Debug, PartialEq, Eq, Structural)]
pub enum StartStep {
    /// Create the store's directory if need be and open the store, with
    /// write-ahead journaling.
    OpenStore,
    /// Create the table `sms_queue` unless it exists.
    CreateTable,
    /// Add the column `last_attempt_at` to a table that lacks it.
    AddAttemptColumn,
    /// Add the column `last_error` to a table that lacks it.
    AddErrorColumn,
    /// Fail every record that a crash left in process.
    ResetStuck,
    /// Read the modem descriptors and the strategy, and refuse an empty
    /// list.
    ReadModems,
    /// Launch the worker.
    LaunchWorker,
}

/// What follows a step of the start.
#[derive(Debug, PartialEq, Eq)]
pub enum StartAction {
    /// Take this step.
    Do(StartStep),
    /// The engine is started: hand the marker to the caller.
    Started,
    /// Give up with this failure. No further step is taken, and no worker
    /// runs.
    Abort(EngineError),
}

/// A [`StartAction`] as a mathematical value.
pub enum StartActionView {
    Do(StartStep),
    Started,
    Abort(ErrorView),
}

impl View for StartAction {
    type V = StartActionView;

    open spec fn view(&self) -> StartActionView {
        match *self {
            StartAction::Do(step) => StartActionView::Do(step),
            StartAction::Started => StartActionView::Started,
            StartAction::Abort(error) => StartActionView::Abort(error@),
        }
    }
}

/// The steps of the engine's start, in order.
pub open spec fn start_order() -> Seq<StartStep> {
    seq![
        StartStep::OpenStore,
        StartStep::CreateTable,
        StartStep::AddAttemptColumn,
        StartStep::AddErrorColumn,
        StartStep::ResetStuck,
        StartStep::ReadModems,
        StartStep::LaunchWorker,
    ]
}

/// The place of a step in the order of the start.
pub open spec fn place_of(step: StartStep) -> int {
    match step {
        StartStep::OpenStore => 0,
        StartStep::CreateTable => 1,
        StartStep::AddAttemptColumn => 2,
        StartStep::AddErrorColumn => 3,
        StartStep::ResetStuck => 4,
        StartStep::ReadModems => 5,
        StartStep::LaunchWorker => 6,
    }
}

/// The step is one of the additive upgrades of the table. Such a step may
/// fail: on a table that has the column already it always does.
pub open spec fn is_upgrade(step: StartStep) -> bool {
    step == StartStep::AddAttemptColumn || step == StartStep::AddErrorColumn
}

/// The failure that ends the start when `step` fails for `reason`, if it
/// ends it. Every failure does but that of an upgrade: a store that cannot
/// be opened is a failure of store I/O; a table that cannot be created, a
/// recovery that fails and a worker that cannot be launched are runtime
/// failures; descriptors that cannot be read are an invalid configuration.
pub open spec fn start_failure(step: StartStep, reason: Seq<char>) -> Option<ErrorView> {
    match step {
        StartStep::OpenStore => Some(ErrorView { kind: ErrorKind::StoreIo, message: reason }),
        StartStep::CreateTable => Some(
            ErrorView { kind: ErrorKind::StoreRuntime, message: reason },
        ),
        StartStep::AddAttemptColumn => None,
        StartStep::AddErrorColumn => None,
        StartStep::ResetStuck => Some(
            ErrorView { kind: ErrorKind::StoreRuntime, message: reason },
        ),
        StartStep::ReadModems => Some(
            ErrorView {
                kind: ErrorKind::InvalidConfig,
                message: "Invalid Modem Config JSON: "@ + reason,
            },
        ),
        StartStep::LaunchWorker => Some(
            ErrorView { kind: ErrorKind::StoreRuntime, message: reason },
        ),
    }
}

/// What follows `step`, given how it ended: a failure ends the start,
/// unless the step is an upgrade; otherwise the step that is next in order
/// is taken, and after the last one the engine is started.
pub open spec fn after_start_step(
    step: StartStep,
    result: Result<(), Seq<char>>,
) -> StartActionView {
    match result {
        Err(reason) if start_failure(step, reason) is Some => StartActionView::Abort(
            start_failure(step, reason)->0,
        ),
        _ => if place_of(step) + 1 < start_order().len() {
            StartActionView::Do(start_order()[place_of(step) + 1])
        } else {
            StartActionView::Started
        },
    }
}

/// The view of how a step ended.
pub open spec fn step_result_view(result: Result<(), String>) -> Result<(), Seq<char>> {
    match result {
        Ok(_) => Ok(()),
        Err(reason) => Err(reason@),
    }
}

/// The first step of the start.
pub fn first_start_step() -> (step: StartStep)
    ensures
        step == start_order()[0],
{
    StartStep::OpenStore
}

/// What follows `step` of the start, given how it ended.
pub fn next_start_action(step: StartStep, result: &Result<(), String>) -> (action: StartAction)
    ensures
        action@ == after_start_step(step, step_result_view(*result)),
{
    if let Err(reason) = result {
        match step {
            StartStep::OpenStore => {
                return StartAction::Abort(
                    EngineError { kind: ErrorKind::StoreIo, message: reason.clone() },
                );
            },
            StartStep::CreateTable | StartStep::ResetStuck | StartStep::LaunchWorker => {
                return StartAction::Abort(
                    EngineError { kind: ErrorKind::StoreRuntime, message: reason.clone() },
                );
            },
            StartStep::ReadModems => {
                let mut message = String::from_str("Invalid Modem Config JSON: ");
                message.append(reason.as_str());
                return StartAction::Abort(
                    EngineError { kind: ErrorKind::InvalidConfig, message },
                );
            },
            StartStep::AddAttemptColumn | StartStep::AddErrorColumn => {},
        }
    }
    match step {
        StartStep::OpenStore => StartAction::Do(StartStep::CreateTable),
        StartStep::CreateTable => StartAction::Do(StartStep::AddAttemptColumn),
        StartStep::AddAttemptColumn => StartAction::Do(StartStep::AddErrorColumn),
        StartStep::AddErrorColumn => StartAction::Do(StartStep::ResetStuck),
        StartStep::ResetStuck => StartAction::Do(StartStep::ReadModems),
        StartStep::ReadModems => StartAction::Do(StartStep::LaunchWorker),
        StartStep::LaunchWorker => StartAction::Started,
    }
}

/// What the caller gets once the engine is started.
pub fn started_marker() -> (marker: &'static str)
    ensures
        marker@ == "ENGINE_STARTED_WITH_HA"@,
{
    "ENGINE_STARTED_WITH_HA"
}

/// The steps are taken in order, and the start goes on only over a step
/// that succeeded or an upgrade: the engine counts as started only after
/// the worker was launched, and the worker is launched only after the
/// records that a crash left in process were recovered.
pub proof fn lemma_start_keeps_order(step: StartStep, result: Result<(), Seq<char>>)
    ensures
        start_order()[place_of(step)] == step,
        after_start_step(step, result) matches StartActionView::Do(next) ==> place_of(next)
            == place_of(step) + 1,
        after_start_step(step, result) is Started ==> step == StartStep::LaunchWorker,
        after_start_step(step, result) is Abort <==> result is Err && !is_upgrade(step),
        place_of(StartStep::ResetStuck) < place_of(StartStep::LaunchWorker),
{
}

/// The failure to report when the store cannot be opened for a
/// submission.
pub open spec fn store_open_error(reason: Seq<char>) -> ErrorView {
    ErrorView { kind: ErrorKind::StoreIo, message: reason }
}

/// What a submission comes to, given how its conditional insert ended: a
/// failure of the store, or queued where a row was added and ignored as a
/// duplicate where none was.
pub open spec fn submission_result(inserted: Result<u64, Seq<char>>) -> Result<
    SubmitOutcome,
    ErrorView,
> {
    match inserted {
        Ok(rows_affected) => Ok(
            if rows_affected == 0 {
                SubmitOutcome::DuplicateIgnored
            } else {
                SubmitOutcome::Queued
            },
        ),
        Err(reason) => Err(ErrorView { kind: ErrorKind::StoreRuntime, message: reason }),
    }
}

/// The failure to report when the store cannot be opened for a
/// submission.
pub fn store_open_failure(reason: &str) -> (error: EngineError)
    ensures
        error@ == store_open_error(reason@),
{
    EngineError::new(ErrorKind::StoreIo, reason)
}

/// What a submission comes to, given how many rows its conditional insert
/// added or why it failed.
pub fn submission_outcome(inserted: &Result<u64, String>) -> (outcome: Result<
    SubmitOutcome,
    EngineError,
>)
    ensures
        result_view(outcome) == submission_result(
            match *inserted {
                Ok(rows_affected) => Ok(rows_affected),
                Err(reason) => Err(reason@),
            },
        ),
{
    match inserted {
        Ok(rows_affected) => Ok(SubmitOutcome::from_rows_affected(*rows_affected)),
        Err(reason) => Err(
            EngineError { kind: ErrorKind::StoreRuntime, message: reason.clone() },
        ),
    }
}

} // verus!
