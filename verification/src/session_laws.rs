//! What holds of every modem session, proved from the steps in
//! [`crate::session`]: it ends, and the waits it asks for are bounded.

use crate::session::{
    session_step, ActionView, EventView, Progress, SessionView, Stage, REGISTRATION_MILLIS,
    REGISTRATION_PAUSE_MILLIS, REGISTRATION_ROUNDS,
};
use vstd::prelude::*;

verus! {

/// An upper bound on the number of reports that a session which waits at
/// `stage` still takes in before it is over.
pub open spec fn reports_at(stage: Stage) -> nat {
    match stage {
        Stage::Clearing => 31,
        Stage::WarmupPause => 30,
        Stage::Escape => 29,
        Stage::AliveProbe { attempt } => (26 + if attempt < 3 {
            3 - attempt
        } else {
            0
        }) as nat,
        Stage::EchoOff => 25,
        Stage::Registration { round, probe } => (5 + (if probe < 2 {
            3 - probe
        } else {
            1
        }) + 4 * (if round < 4 {
            4 - round
        } else {
            0
        })) as nat,
        Stage::RegistrationPause { round } => (5 + 4 * (if round < 4 {
            4 - round
        } else {
            0
        })) as nat,
        Stage::Charset => 5,
        Stage::Params => 4,
        Stage::TextMode => 3,
        Stage::Recipient => 2,
        Stage::Payload => 1,
    }
}

/// An upper bound on the number of reports that a session still takes in
/// before it is over.
pub open spec fn reports_left(progress: Progress) -> nat {
    match progress {
        Progress::Waiting(stage) => reports_at(stage),
        Progress::Over(_) => 0,
    }
}

/// The time that an action makes the caller wait, in milliseconds, not
/// counting the reads of a drain.
pub open spec fn wait_of(action: ActionView) -> nat {
    match action {
        ActionView::Pause { millis } => millis as nat,
        ActionView::Command { settle_millis, .. } => settle_millis as nat,
        _ => 0,
    }
}

/// An upper bound on the time that a session which waits at `stage` still
/// makes the caller wait, in milliseconds.
pub open spec fn wait_at(stage: Stage) -> nat {
    match stage {
        Stage::Clearing => 28100,
        Stage::WarmupPause => 27900,
        Stage::Escape => 27400,
        Stage::AliveProbe { attempt } => (25900 + 500 * (if attempt < 3 {
            3 - attempt
        } else {
            0
        })) as nat,
        Stage::EchoOff => 25400,
        Stage::Registration { round, probe } => (7400 + 800 * (if probe < 2 {
            2 - probe
        } else {
            0
        }) + 3900 * (if round < 4 {
            4 - round
        } else {
            0
        })) as nat,
        Stage::RegistrationPause { round } => if round < 4 {
            (9800 + 3900 * (3 - round)) as nat
        } else {
            0
        },
        Stage::Charset => 7100,
        Stage::Params => 6800,
        Stage::TextMode => 6500,
        Stage::Recipient => 5000,
        Stage::Payload => 0,
    }
}

/// An upper bound on the time that a session still makes the caller wait,
/// in milliseconds.
pub open spec fn wait_left(progress: Progress) -> nat {
    match progress {
        Progress::Waiting(stage) => wait_at(stage),
        Progress::Over(_) => 0,
    }
}

/// Every session ends: each report brings it closer to its end, which
/// comes after 31 reports at the latest; it is over exactly when it says
/// so, and it is over with the outcome that it gives.
pub proof fn lemma_session_ends(session: SessionView, event: EventView)
    ensures
        reports_at(Stage::Clearing) == 31,
        session.progress is Waiting ==> reports_left(session_step(session, event).0.progress)
            < reports_left(session.progress),
        session_step(session, event).1 matches ActionView::Finish(outcome) ==> session_step(
            session,
            event,
        ).0.progress == Progress::Over(outcome),
        session_step(session, event).0.progress is Over ==> session_step(session, event).1
            is Finish,
{
}

/// The waits of a session are bounded: whatever is reported, the wait that
/// the next action asks for is within what was left, and what is left
/// shrinks by it. A whole session waits 28.1 seconds at most; the five
/// rounds of three registration queries and a pause take 19.5 of them.
pub proof fn lemma_session_waits_are_bounded(session: SessionView, event: EventView)
    ensures
        wait_at(Stage::Clearing) == 28100,
        wait_of(session_step(session, event).1) + wait_left(
            session_step(session, event).0.progress,
        ) <= wait_left(session.progress),
        REGISTRATION_ROUNDS * (3 * REGISTRATION_MILLIS + REGISTRATION_PAUSE_MILLIS) == 19500,
{
}

} // verus!
