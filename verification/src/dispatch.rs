//! Dispatch: the modems that the strategy allows are tried one after the
//! other until one delivers. The caller runs each attempt and reports how
//! it ended.

use crate::error::{EngineError, ErrorKind, ErrorView};
use crate::modem::{candidate_order, modem_views, ModemConfig, ModemManager, ModemView};
use vstd::prelude::*;

verus! {

/// The wait after a failed attempt, in milliseconds.
pub const RETRY_PAUSE_MILLIS: u64 = 500;

/// What the caller does next.
#[derive(Debug, PartialEq, Eq)]
pub enum DispatchAction {
    /// Wait `after_millis`, run a session through `modem`, and report how it
    /// ended.
    Attempt { modem: ModemConfig, after_millis: u64 },
    /// Wait `after_millis`. The dispatch is over: the message went out
    /// through the modem named, or every modem failed.
    Finish { outcome: Result<String, EngineError>, after_millis: u64 },
}

/// A [`DispatchAction`] as a mathematical value.
pub enum DispatchActionView {
    Attempt { modem: ModemView, after_millis: u64 },
    Finish { outcome: Result<Seq<char>, ErrorView>, after_millis: u64 },
}

/// The view of a dispatch's outcome.
pub open spec fn delivery_view(outcome: Result<String, EngineError>) -> Result<
    Seq<char>,
    ErrorView,
> {
    match outcome {
        Ok(modem_id) => Ok(modem_id@),
        Err(error) => Err(error@),
    }
}

/// The view of an attempt's outcome.
pub open spec fn attempt_view(outcome: Result<(), EngineError>) -> Result<(), ErrorView> {
    match outcome {
        Ok(_) => Ok(()),
        Err(error) => Err(error@),
    }
}

impl View for DispatchAction {
    type V = DispatchActionView;

    open spec fn view(&self) -> DispatchActionView {
        match *self {
            DispatchAction::Attempt { modem, after_millis } => DispatchActionView::Attempt {
                modem: modem@,
                after_millis,
            },
            DispatchAction::Finish { outcome, after_millis } => DispatchActionView::Finish {
                outcome: delivery_view(outcome),
                after_millis,
            },
        }
    }
}

/// A dispatch as a mathematical value.
pub enum DispatchView {
    /// The attempt through `current` is under way; `rest` are the modems to
    /// try after it, in order.
    Trying { current: ModemView, rest: Seq<ModemView>, trace: Seq<char> },
    /// The dispatch is over.
    Over { outcome: Result<Seq<char>, ErrorView>, trace: Seq<char> },
}

/// What failed so far, and why.
pub open spec fn trace_of(dispatch: DispatchView) -> Seq<char> {
    match dispatch {
        DispatchView::Trying { trace, .. } => trace,
        DispatchView::Over { trace, .. } => trace,
    }
}

/// What the trace says of one failed attempt.
pub open spec fn trace_entry(modem_id: Seq<char>, reason: Seq<char>) -> Seq<char> {
    "["@ + modem_id + ": "@ + reason + "]"@ + "; "@
}

/// The failure when every modem has failed.
pub open spec fn all_failed_error(trace: Seq<char>) -> ErrorView {
    ErrorView {
        kind: ErrorKind::AllCarriersFailed,
        message: "All allowed carriers failed. Trace: "@ + trace,
    }
}

/// A dispatch that is over with `outcome`, and the action that says so.
pub open spec fn finished(
    outcome: Result<Seq<char>, ErrorView>,
    trace: Seq<char>,
    after_millis: u64,
) -> (DispatchView, DispatchActionView) {
    (DispatchView::Over { outcome, trace }, DispatchActionView::Finish { outcome, after_millis })
}

/// The dispatch as it starts for the given candidates, of which there is at
/// least one, and its first action: the first candidate is tried at once.
pub open spec fn dispatch_start(candidates: Seq<ModemView>) -> (DispatchView, DispatchActionView)
    recommends
        candidates.len() > 0,
{
    (
        DispatchView::Trying {
            current: candidates[0],
            rest: candidates.skip(1),
            trace: Seq::empty(),
        },
        DispatchActionView::Attempt { modem: candidates[0], after_millis: 0 },
    )
}

/// The dispatch's next state and the next action, given how the attempt
/// under way ended.
///
/// A success ends the dispatch with the modem's label. A failure is added
/// to the trace, and after a wait the next modem is tried; when none is
/// left the dispatch ends with the trace. A dispatch that is over stays as
/// it is and gives its outcome again.
pub open spec fn dispatch_step(dispatch: DispatchView, attempt: Result<(), ErrorView>) -> (
    DispatchView,
    DispatchActionView,
) {
    match dispatch {
        DispatchView::Over { outcome, .. } => (
            dispatch,
            DispatchActionView::Finish { outcome, after_millis: 0 },
        ),
        DispatchView::Trying { current, rest, trace } => match attempt {
            Ok(_) => finished(Ok(current.id), trace, 0),
            Err(error) => {
                let trace = trace + trace_entry(current.id, error.message);
                if rest.len() > 0 {
                    (
                        DispatchView::Trying { current: rest[0], rest: rest.skip(1), trace },
                        DispatchActionView::Attempt {
                            modem: rest[0],
                            after_millis: RETRY_PAUSE_MILLIS,
                        },
                    )
                } else {
                    finished(Err(all_failed_error(trace)), trace, RETRY_PAUSE_MILLIS)
                }
            },
        },
    }
}

/// The delivery of one record, modem by modem.
#[derive(Debug)]
pub struct Dispatch {
    candidates: Vec<ModemConfig>,
    position: usize,
    trace: String,
    outcome: Option<Result<String, EngineError>>,
}

impl View for Dispatch {
    type V = DispatchView;

    closed spec fn view(&self) -> DispatchView {
        match self.outcome {
            Some(outcome) => DispatchView::Over {
                outcome: delivery_view(outcome),
                trace: self.trace@,
            },
            None => DispatchView::Trying {
                current: modem_views(self.candidates@)[self.position as int],
                rest: modem_views(self.candidates@).skip(self.position + 1),
                trace: self.trace@,
            },
        }
    }
}

fn copy_delivery(outcome: &Result<String, EngineError>) -> (copy: Result<String, EngineError>)
    ensures
        delivery_view(copy) == delivery_view(*outcome),
{
    match outcome {
        Ok(modem_id) => Ok(modem_id.clone()),
        Err(error) => Err(error.clone()),
    }
}

impl Dispatch {
    #[verifier::type_invariant]
    spec fn has_a_modem_under_way(self) -> bool {
        self.outcome is None ==> self.position < self.candidates.len()
    }

    /// Starts the delivery of the record `record_id`: the candidates are
    /// those that the manager's strategy gives for it, and the first of them
    /// is tried at once.
    pub fn begin(manager: &ModemManager, record_id: i64) -> (started: (Dispatch, DispatchAction))
        ensures
            (started.0@, started.1@) == dispatch_start(
                candidate_order(manager@.modems, manager@.strategy, record_id as int),
            ),
    {
        let candidates = manager.candidates(record_id);
        let first = candidates[0].clone();
        assert(modem_views(candidates@)[0] == candidates@[0]@);
        let dispatch = Dispatch { candidates, position: 0, trace: String::new(), outcome: None };
        (dispatch, DispatchAction::Attempt { modem: first, after_millis: 0 })
    }

    /// Whether the dispatch is over.
    pub fn is_finished(&self) -> (over: bool)
        ensures
            over == (self@ is Over),
    {
        self.outcome.is_some()
    }

    /// What failed so far, and why.
    pub fn trace(&self) -> (trace: &str)
        ensures
            trace@ == trace_of(self@),
    {
        self.trace.as_str()
    }

    fn end(&mut self, outcome: Result<String, EngineError>, after_millis: u64) -> (action:
        DispatchAction)
        ensures
            (final(self)@, action@) == finished(
                delivery_view(outcome),
                trace_of(old(self)@),
                after_millis,
            ),
    {
        proof {
            use_type_invariant(&*self);
        }
        self.outcome = Some(copy_delivery(&outcome));
        DispatchAction::Finish { outcome, after_millis }
    }

    fn end_in_failure(&mut self, after_millis: u64) -> (action: DispatchAction)
        ensures
            (final(self)@, action@) == finished(
                Err(all_failed_error(trace_of(old(self)@))),
                trace_of(old(self)@),
                after_millis,
            ),
    {
        let mut message = String::from_str("All allowed carriers failed. Trace: ");
        message.append(self.trace.as_str());
        self.end(Err(EngineError { kind: ErrorKind::AllCarriersFailed, message }), after_millis)
    }

    /// Takes in how the attempt under way ended and says what to do next.
    pub fn attempt_ended(&mut self, attempt: &Result<(), EngineError>) -> (action: DispatchAction)
        ensures
            (final(self)@, action@) == dispatch_step(old(self)@, attempt_view(*attempt)),
    {
        proof {
            use_type_invariant(&*self);
        }
        if let Some(outcome) = &self.outcome {
            return DispatchAction::Finish { outcome: copy_delivery(outcome), after_millis: 0 };
        }
        let ghost all = modem_views(self.candidates@);
        assert(all[self.position as int] == self.candidates@[self.position as int]@);
        match attempt {
            Ok(_) => {
                let winner = self.candidates[self.position].id.clone();
                self.end(Ok(winner), 0)
            },
            Err(error) => {
                let mut trace = self.trace.clone();
                trace.append("[");
                trace.append(self.candidates[self.position].id.as_str());
                trace.append(": ");
                trace.append(error.message.as_str());
                trace.append("]");
                trace.append("; ");
                assert(trace@ =~= self.trace@ + trace_entry(
                    all[self.position as int].id,
                    error.message@,
                ));
                self.trace = trace;
                if self.position + 1 < self.candidates.len() {
                    self.position = self.position + 1;
                    assert(all[self.position as int] == self.candidates@[self.position as int]@);
                    assert(all.skip(self.position as int)[0] == all[self.position as int]);
                    assert(all.skip(self.position as int).skip(1) =~= all.skip(
                        self.position + 1,
                    ));
                    DispatchAction::Attempt {
                        modem: self.candidates[self.position].clone(),
                        after_millis: RETRY_PAUSE_MILLIS,
                    }
                } else {
                    assert(all.skip(self.position + 1).len() == 0);
                    self.end_in_failure(RETRY_PAUSE_MILLIS)
                }
            },
        }
    }
}

/// One modem and how the attempt through it ends.
pub struct Try {
    pub modem: ModemView,
    pub attempt: Result<(), ErrorView>,
}

/// What a dispatch comes to when it tries the modems of `tries` in order and
/// each attempt ends as `tries` says: the first modem whose attempt
/// succeeds, or the failure that holds the whole trace.
pub open spec fn first_success(tries: Seq<Try>, trace: Seq<char>) -> Result<Seq<char>, ErrorView>
    decreases tries.len(),
{
    if tries.len() == 0 {
        Err(all_failed_error(trace))
    } else {
        match tries[0].attempt {
            Ok(_) => Ok(tries[0].modem.id),
            Err(error) => first_success(
                tries.skip(1),
                trace + trace_entry(tries[0].modem.id, error.message),
            ),
        }
    }
}

/// The modems of `tries`, in order.
pub open spec fn modems_of(tries: Seq<Try>) -> Seq<ModemView> {
    tries.map_values(|t: Try| t.modem)
}

/// The dispatch after the attempt of each of `tries` was reported in turn.
pub open spec fn run_dispatch(dispatch: DispatchView, tries: Seq<Try>) -> DispatchView
    decreases tries.len(),
{
    if tries.len() == 0 {
        dispatch
    } else {
        run_dispatch(dispatch_step(dispatch, tries[0].attempt).0, tries.skip(1))
    }
}

proof fn lemma_over_stays_over(dispatch: DispatchView, tries: Seq<Try>)
    requires
        dispatch is Over,
    ensures
        run_dispatch(dispatch, tries) == dispatch,
    decreases tries.len(),
{
    if tries.len() > 0 {
        lemma_over_stays_over(dispatch, tries.skip(1));
    }
}

/// A dispatch tries its candidates in order and stops at the first that
/// delivers: once the attempt through each candidate has ended, the
/// dispatch is over, with the label of the first modem whose attempt
/// succeeded, and where none did, with the failure that lists every modem
/// and its reason in order.
pub proof fn lemma_dispatch_outcome(tries: Seq<Try>, trace: Seq<char>)
    requires
        tries.len() > 0,
    ensures
        run_dispatch(
            DispatchView::Trying {
                current: tries[0].modem,
                rest: modems_of(tries).skip(1),
                trace,
            },
            tries,
        ) matches DispatchView::Over { outcome, .. } && outcome == first_success(tries, trace),
    decreases tries.len(),
{
    let rest = modems_of(tries).skip(1);
    let dispatch = DispatchView::Trying { current: tries[0].modem, rest, trace };
    let next = dispatch_step(dispatch, tries[0].attempt).0;
    let later = tries.skip(1);
    assert(rest =~= modems_of(later));
    assert(run_dispatch(dispatch, tries) == run_dispatch(next, later));
    match tries[0].attempt {
        Ok(_) => {
            lemma_over_stays_over(next, later);
        },
        Err(error) => {
            let longer = trace + trace_entry(tries[0].modem.id, error.message);
            if later.len() > 0 {
                lemma_dispatch_outcome(later, longer);
                assert(rest[0] == later[0].modem);
                assert(next == (DispatchView::Trying {
                    current: later[0].modem,
                    rest: modems_of(later).skip(1),
                    trace: longer,
                }));
            } else {
                lemma_over_stays_over(next, later);
                assert(first_success(later, longer) == Err::<Seq<char>, ErrorView>(
                    all_failed_error(longer),
                ));
            }
        },
    }
}

/// The dispatch that [`Dispatch::begin`] starts over the candidates of
/// `tries` ends as [`first_success`] says.
pub proof fn lemma_dispatch_from_the_start(tries: Seq<Try>)
    requires
        tries.len() > 0,
    ensures
        run_dispatch(dispatch_start(modems_of(tries)).0, tries) matches DispatchView::Over {
            outcome,
            ..
        } && outcome == first_success(tries, Seq::empty()),
{
    lemma_dispatch_outcome(tries, Seq::empty());
}

} // verus!
