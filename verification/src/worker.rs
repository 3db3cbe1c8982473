//! The background worker's decisions. The worker keeps nothing between two
//! steps but its retry limit: what it does next follows from what just
//! happened.

use crate::dispatch::delivery_view;
use crate::error::{EngineError, ErrorView};
use crate::queue::{claim_view, ClaimView, ClaimedSms};
use vstd::prelude::*;

verus! {

/// How long the worker sleeps between two claims, in milliseconds.
pub const IDLE_MILLIS: u64 = 5000;

/// What just happened.
#[derive(Debug, PartialEq, Eq)]
pub enum WorkerEvent {
    /// The worker was started, or its sleep is over.
    Awake,
    /// The claim returned, with a record or without.
    Claimed(Option<ClaimedSms>),
    /// The delivery of the record `id` ended.
    Delivered { id: i64, outcome: Result<String, EngineError> },
    /// The outcome was written to the store.
    Recorded,
    /// The store failed on the claim or on writing the outcome. The caller
    /// has logged it.
    StoreFailed,
}

/// What the worker does next.
#[derive(Debug, PartialEq, Eq)]
pub enum WorkerAction {
    /// Claim the next record.
    Claim { retry_limit: i32 },
    /// Deliver the record and report how it ended.
    Deliver(ClaimedSms),
    /// Mark the record as sent.
    MarkSent { id: i64 },
    /// Mark the record as failed, with the reason.
    MarkFailed { id: i64, error: String },
    /// Sleep, then wake.
    Sleep { millis: u64 },
}

/// A [`WorkerEvent`] as a mathematical value.
pub enum WorkerEventView {
    Awake,
    Claimed(Option<ClaimView>),
    Delivered { id: i64, outcome: Result<Seq<char>, ErrorView> },
    Recorded,
    StoreFailed,
}

/// A [`WorkerAction`] as a mathematical value.
pub enum WorkerActionView {
    Claim { retry_limit: i32 },
    Deliver(ClaimView),
    MarkSent { id: i64 },
    MarkFailed { id: i64, error: Seq<char> },
    Sleep { millis: u64 },
}

impl View for WorkerEvent {
    type V = WorkerEventView;

    open spec fn view(&self) -> WorkerEventView {
        match *self {
            WorkerEvent::Awake => WorkerEventView::Awake,
            WorkerEvent::Claimed(claim) => WorkerEventView::Claimed(claim_view(claim)),
            WorkerEvent::Delivered { id, outcome } => WorkerEventView::Delivered {
                id,
                outcome: delivery_view(outcome),
            },
            WorkerEvent::Recorded => WorkerEventView::Recorded,
            WorkerEvent::StoreFailed => WorkerEventView::StoreFailed,
        }
    }
}

impl View for WorkerAction {
    type V = WorkerActionView;

    open spec fn view(&self) -> WorkerActionView {
        match *self {
            WorkerAction::Claim { retry_limit } => WorkerActionView::Claim { retry_limit },
            WorkerAction::Deliver(claim) => WorkerActionView::Deliver(claim@),
            WorkerAction::MarkSent { id } => WorkerActionView::MarkSent { id },
            WorkerAction::MarkFailed { id, error } => WorkerActionView::MarkFailed {
                id,
                error: error@,
            },
            WorkerAction::Sleep { millis } => WorkerActionView::Sleep { millis },
        }
    }
}

/// What the worker does after `event`: awake, it claims; a claimed record
/// is delivered; a delivery's outcome is written to the store, sent or
/// failed with the reason; and after that, as after a claim that found
/// nothing and after any failure of the store, the worker sleeps.
pub open spec fn worker_step(retry_limit: i32, event: WorkerEventView) -> WorkerActionView {
    match event {
        WorkerEventView::Awake => WorkerActionView::Claim { retry_limit },
        WorkerEventView::Claimed(Some(claim)) => WorkerActionView::Deliver(claim),
        WorkerEventView::Claimed(None) => WorkerActionView::Sleep { millis: IDLE_MILLIS },
        WorkerEventView::Delivered { id, outcome: Ok(_) } => WorkerActionView::MarkSent { id },
        WorkerEventView::Delivered { id, outcome: Err(error) } => WorkerActionView::MarkFailed {
            id,
            error: error.message,
        },
        WorkerEventView::Recorded => WorkerActionView::Sleep { millis: IDLE_MILLIS },
        WorkerEventView::StoreFailed => WorkerActionView::Sleep { millis: IDLE_MILLIS },
    }
}

/// What the worker does after `event`. There is always a next action: no
/// failure ends the worker.
pub fn next_action(retry_limit: i32, event: WorkerEvent) -> (action: WorkerAction)
    ensures
        action@ == worker_step(retry_limit, event@),
{
    match event {
        WorkerEvent::Awake => WorkerAction::Claim { retry_limit },
        WorkerEvent::Claimed(Some(claim)) => WorkerAction::Deliver(claim),
        WorkerEvent::Claimed(None) => WorkerAction::Sleep { millis: IDLE_MILLIS },
        WorkerEvent::Delivered { id, outcome: Ok(_) } => WorkerAction::MarkSent { id },
        WorkerEvent::Delivered { id, outcome: Err(error) } => WorkerAction::MarkFailed {
            id,
            error: error.message,
        },
        WorkerEvent::Recorded => WorkerAction::Sleep { millis: IDLE_MILLIS },
        WorkerEvent::StoreFailed => WorkerAction::Sleep { millis: IDLE_MILLIS },
    }
}

/// The event that the caller reports once it has done what `action` asked
/// and nothing went wrong, as far as the action alone tells it.
pub open spec fn follows(action: WorkerActionView, event: WorkerEventView) -> bool {
    match action {
        WorkerActionView::Claim { .. } => event is Claimed || event is StoreFailed,
        WorkerActionView::Deliver(claim) => event matches WorkerEventView::Delivered { id, .. }
            && id == claim.id,
        WorkerActionView::MarkSent { .. } => event is Recorded || event is StoreFailed,
        WorkerActionView::MarkFailed { .. } => event is Recorded || event is StoreFailed,
        WorkerActionView::Sleep { .. } => event is Awake,
    }
}

/// The worker claims only when it has just woken, and it wakes only from
/// its sleep: between two claims it always sleeps for the idle time,
/// whether or not the first found work. And the outcome it writes is for
/// the record it delivered.
pub proof fn lemma_worker_sleeps_between_claims(
    retry_limit: i32,
    event: WorkerEventView,
    next: WorkerEventView,
)
    requires
        follows(worker_step(retry_limit, event), next),
    ensures
        worker_step(retry_limit, next) is Claim ==> worker_step(retry_limit, event)
            == (WorkerActionView::Sleep { millis: IDLE_MILLIS }),
        worker_step(retry_limit, event) matches WorkerActionView::Deliver(claim) ==> (
        worker_step(retry_limit, next) matches WorkerActionView::MarkSent { id } && id
            == claim.id) || (worker_step(retry_limit, next) matches WorkerActionView::MarkFailed {
            id,
            ..
        } && id == claim.id),
{
}

} // verus!
