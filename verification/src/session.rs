//! The modem session: the AT dialogue that delivers one message through one
//! modem, as a state machine. The caller owns the serial channel; it does
//! what each [`Action`] asks and reports back with an [`Event`].

use crate::codec::{gsm7_compatible, is_gsm7_compatible, to_ucs2_hex, ucs2_hex};
use crate::error::{EngineError, ErrorKind, ErrorView};
use crate::modem::ModemConfig;
use crate::text::{contains, contains_text, trim, trimmed};
use vstd::prelude::*;

verus! {

/// The wait after the buffers are cleared, in milliseconds.
pub const WARMUP_MILLIS: u64 = 200;

/// The wait after the escape byte and after each `AT` probe.
pub const PROBE_MILLIS: u64 = 500;

/// The wait after each registration query.
pub const REGISTRATION_MILLIS: u64 = 800;

/// The wait between two rounds of registration queries.
pub const REGISTRATION_PAUSE_MILLIS: u64 = 1500;

/// The wait after each configuration command.
pub const CONFIG_MILLIS: u64 = 300;

/// The wait for the prompt after the recipient was named.
pub const PROMPT_MILLIS: u64 = 1500;

/// The wait for the final status after the message was handed over.
pub const FINAL_MILLIS: u64 = 5000;

/// How often `AT` is sent before `ATE0` is tried.
pub const ALIVE_PROBES: u8 = 3;

/// How many rounds of registration queries are made.
pub const REGISTRATION_ROUNDS: u8 = 5;

/// The step whose answer a session waits for.
#[derive(Clone, Copy, Debug, PartialEq, Eq, Structural)]
pub enum Stage {
    /// The buffers are being cleared.
    Clearing,
    /// The wait after clearing.
    WarmupPause,
    /// The escape byte was sent, to end any command the modem was in.
    Escape,
    /// `AT` was sent for the `attempt`-th time, counting from one.
    AliveProbe { attempt: u8 },
    /// `ATE0` was sent, after every `AT` went unanswered.
    EchoOff,
    /// Query number `probe` of round number `round` was sent, both counting
    /// from zero.
    Registration { round: u8, probe: u8 },
    /// The wait after round number `round` found no registration.
    RegistrationPause { round: u8 },
    /// The character set was chosen.
    Charset,
    /// The text-mode parameters were set.
    Params,
    /// Text mode was selected.
    TextMode,
    /// The recipient was named.
    Recipient,
    /// The message was handed over.
    Payload,
}

/// Where a session stands.
pub enum Progress {
    /// It waits for the answer to the step named.
    Waiting(Stage),
    /// It is over, with this outcome.
    Over(Result<(), ErrorView>),
}

/// What the caller does next.
#[derive(Debug, PartialEq, Eq)]
pub enum Action {
    /// Discard what is pending on the channel, in both directions; a failure
    /// to do so is of no account. Report [`Event::Done`].
    ClearBuffers,
    /// Wait, then report [`Event::Done`].
    Pause { millis: u64 },
    /// Write `text` as UTF-8 and flush, wait `settle_millis`, drain the
    /// channel and report [`Event::Response`] with what was drained. Where
    /// `strict` holds and writing or flushing fails, neither wait nor drain
    /// but report [`Event::WriteFailed`] with the reason; where it does not
    /// hold, such a failure is of no account.
    Command { text: String, settle_millis: u64, strict: bool },
    /// Close the channel: the session is over, with this outcome.
    Finish(Result<(), EngineError>),
}

/// What the caller reports.
#[derive(Debug, PartialEq, Eq)]
pub enum Event {
    /// The buffers were cleared, or the wait is over.
    Done,
    /// What the modem answered.
    Response(String),
    /// The command could not be written.
    WriteFailed(String),
}

/// An [`Action`] as a mathematical value.
pub enum ActionView {
    ClearBuffers,
    Pause { millis: u64 },
    Command { text: Seq<char>, settle_millis: u64, strict: bool },
    Finish(Result<(), ErrorView>),
}

/// An [`Event`] as a mathematical value.
pub enum EventView {
    Done,
    Response(Seq<char>),
    WriteFailed(Seq<char>),
}

/// The view of a session's outcome.
pub open spec fn outcome_view(outcome: Result<(), EngineError>) -> Result<(), ErrorView> {
    match outcome {
        Ok(()) => Ok(()),
        Err(error) => Err(error@),
    }
}

impl View for Action {
    type V = ActionView;

    open spec fn view(&self) -> ActionView {
        match *self {
            Action::ClearBuffers => ActionView::ClearBuffers,
            Action::Pause { millis } => ActionView::Pause { millis },
            Action::Command { text, settle_millis, strict } => ActionView::Command {
                text: text@,
                settle_millis,
                strict,
            },
            Action::Finish(outcome) => ActionView::Finish(outcome_view(outcome)),
        }
    }
}

impl View for Event {
    type V = EventView;

    open spec fn view(&self) -> EventView {
        match *self {
            Event::Done => EventView::Done,
            Event::Response(text) => EventView::Response(text@),
            Event::WriteFailed(reason) => EventView::WriteFailed(reason@),
        }
    }
}

/// A session as a mathematical value.
pub struct SessionView {
    pub modem_id: Seq<char>,
    pub phone: Seq<char>,
    pub message: Seq<char>,
    pub progress: Progress,
}

/// What the modem answered, as far as an event tells.
pub open spec fn response_of(event: EventView) -> Seq<char> {
    match event {
        EventView::Response(text) => text,
        _ => Seq::empty(),
    }
}

/// The answer shows that the modem is alive.
pub open spec fn is_alive_reply(response: Seq<char>) -> bool {
    contains_text(response, "OK"@)
}

/// The answer shows a registration, at home (`,1`) or roaming (`,5`).
pub open spec fn is_registered_reply(response: Seq<char>) -> bool {
    contains_text(response, ",1"@) || contains_text(response, ",5"@)
}

/// The registration query with the given number: circuit-switched, then
/// EPS, then GPRS.
pub open spec fn registration_query(probe: u8) -> Seq<char> {
    if probe == 0 {
        "AT+CREG?\r"@
    } else if probe == 1 {
        "AT+CEREG?\r"@
    } else {
        "AT+CGREG?\r"@
    }
}

/// The message needs the UCS2 character set.
pub open spec fn needs_unicode(message: Seq<char>) -> bool {
    !gsm7_compatible(message)
}

/// The command that selects the character set for a message.
pub open spec fn charset_command(message: Seq<char>) -> Seq<char> {
    if needs_unicode(message) {
        "AT+CSCS=\"UCS2\"\r"@
    } else {
        "AT+CSCS=\"GSM\"\r"@
    }
}

/// The command that sets the text-mode parameters for a message.
pub open spec fn params_command(message: Seq<char>) -> Seq<char> {
    if needs_unicode(message) {
        "AT+CSMP=17,167,0,8\r"@
    } else {
        "AT+CSMP=17,167,0,0\r"@
    }
}

/// A text as it goes over the line with a message: in UCS-2 hex where the
/// message needs the UCS2 character set, as it is otherwise.
pub open spec fn on_the_wire(text: Seq<char>, message: Seq<char>) -> Seq<char> {
    if needs_unicode(message) {
        ucs2_hex(text)
    } else {
        text
    }
}

/// The command that names the recipient.
pub open spec fn recipient_command(phone: Seq<char>, message: Seq<char>) -> Seq<char> {
    "AT+CMGS=\""@ + on_the_wire(phone, message) + "\"\r"@
}

/// The message body followed by Ctrl-Z.
pub open spec fn payload_text(message: Seq<char>) -> Seq<char> {
    on_the_wire(message, message) + "\u{1a}"@
}

/// The failure when the modem answers no probe.
pub open spec fn unresponsive_error(modem_id: Seq<char>) -> ErrorView {
    ErrorView {
        kind: ErrorKind::ModemUnresponsive,
        message: "Modem "@ + modem_id + " not responding (AT check failed)"@,
    }
}

/// The failure when no query shows a registration.
pub open spec fn unregistered_error(modem_id: Seq<char>) -> ErrorView {
    ErrorView {
        kind: ErrorKind::ModemUnregistered,
        message: "Modem "@ + modem_id + " not registered to network."@,
    }
}

/// The failure when a command cannot be written.
pub open spec fn write_error(reason: Seq<char>) -> ErrorView {
    ErrorView { kind: ErrorKind::ModemWriteFailed, message: reason }
}

/// The failure when the serial device cannot be opened.
pub open spec fn open_error(modem: crate::modem::ModemView, reason: Seq<char>) -> ErrorView {
    ErrorView {
        kind: ErrorKind::ModemOpenFailed,
        message: "Failed to open serial port "@ + modem.port + " ("@ + modem.id + "): "@ + reason,
    }
}

/// What the final answer means: `OK` is success, `ERROR` without `OK` is a
/// failure that quotes the answer, and anything else, silence too, counts
/// as success.
pub open spec fn final_outcome(modem_id: Seq<char>, response: Seq<char>) -> Result<
    (),
    ErrorView,
> {
    if contains_text(response, "OK"@) {
        Ok(())
    } else if contains_text(response, "ERROR"@) {
        Err(
            ErrorView {
                kind: ErrorKind::ModemProtocolError,
                message: "Modem "@ + modem_id + " returned ERROR: "@ + trimmed(response),
            },
        )
    } else {
        Ok(())
    }
}

/// A session that waits for an answer at `stage`.
pub open spec fn at_stage(session: SessionView, stage: Stage) -> SessionView {
    SessionView { progress: Progress::Waiting(stage), ..session }
}

/// A session that is over with `outcome`, and the action that says so.
pub open spec fn finish(session: SessionView, outcome: Result<(), ErrorView>) -> (
    SessionView,
    ActionView,
) {
    (SessionView { progress: Progress::Over(outcome), ..session }, ActionView::Finish(outcome))
}

/// A command whose failure to be written ends the session.
pub open spec fn strict_command(text: Seq<char>, settle_millis: u64) -> ActionView {
    ActionView::Command { text, settle_millis, strict: true }
}

/// A command that is sent for what it may stir up.
pub open spec fn lenient_command(text: Seq<char>, settle_millis: u64) -> ActionView {
    ActionView::Command { text, settle_millis, strict: false }
}

/// The first registration query of round number `round`.
pub open spec fn start_round(session: SessionView, round: u8) -> (SessionView, ActionView) {
    (
        at_stage(session, Stage::Registration { round, probe: 0 }),
        strict_command(registration_query(0), REGISTRATION_MILLIS),
    )
}

/// The session's next state and the next action, given where it stands and
/// what was reported.
///
/// The steps follow one another: clear, wait, escape; `AT` up to three
/// times and `ATE0` once, until one is answered with `OK`; up to five rounds
/// of the three registration queries, with a wait after each round, until
/// one shows a registration; character set, parameters, text mode,
/// recipient, message; and the final answer decides. From the first
/// registration query on, a command that cannot be written ends the
/// session. A session that is over stays as it is and gives its outcome
/// again.
pub open spec fn session_step(session: SessionView, event: EventView) -> (
    SessionView,
    ActionView,
) {
    match session.progress {
        Progress::Over(outcome) => (session, ActionView::Finish(outcome)),
        Progress::Waiting(stage) => stage_step(session, stage, event),
    }
}

/// The next state and the next action of a session that waits at `stage`.
pub open spec fn stage_step(session: SessionView, stage: Stage, event: EventView) -> (
    SessionView,
    ActionView,
) {
    let response = response_of(event);
    match stage {
        Stage::Clearing => (
            at_stage(session, Stage::WarmupPause),
            ActionView::Pause { millis: WARMUP_MILLIS },
        ),
        Stage::WarmupPause => (
            at_stage(session, Stage::Escape),
            lenient_command("\u{1b}"@, PROBE_MILLIS),
        ),
        Stage::Escape => (
            at_stage(session, Stage::AliveProbe { attempt: 1 }),
            lenient_command("AT\r"@, PROBE_MILLIS),
        ),
        Stage::AliveProbe { attempt } => if is_alive_reply(response) {
            start_round(session, 0)
        } else if attempt < ALIVE_PROBES {
            (
                at_stage(session, Stage::AliveProbe { attempt: (attempt + 1) as u8 }),
                lenient_command("AT\r"@, PROBE_MILLIS),
            )
        } else {
            (at_stage(session, Stage::EchoOff), lenient_command("ATE0\r"@, PROBE_MILLIS))
        },
        Stage::EchoOff => if is_alive_reply(response) {
            start_round(session, 0)
        } else {
            finish(session, Err(unresponsive_error(session.modem_id)))
        },
        Stage::Registration { round, probe } => if let EventView::WriteFailed(reason) = event {
            finish(session, Err(write_error(reason)))
        } else if is_registered_reply(response) {
            (
                at_stage(session, Stage::Charset),
                strict_command(charset_command(session.message), CONFIG_MILLIS),
            )
        } else if probe < 2 {
            (
                at_stage(session, Stage::Registration { round, probe: (probe + 1) as u8 }),
                strict_command(registration_query((probe + 1) as u8), REGISTRATION_MILLIS),
            )
        } else {
            (
                at_stage(session, Stage::RegistrationPause { round }),
                ActionView::Pause { millis: REGISTRATION_PAUSE_MILLIS },
            )
        },
        Stage::RegistrationPause { round } => if round + 1 < REGISTRATION_ROUNDS {
            start_round(session, (round + 1) as u8)
        } else {
            finish(session, Err(unregistered_error(session.modem_id)))
        },
        Stage::Charset => if let EventView::WriteFailed(reason) = event {
            finish(session, Err(write_error(reason)))
        } else {
            (
                at_stage(session, Stage::Params),
                strict_command(params_command(session.message), CONFIG_MILLIS),
            )
        },
        Stage::Params => if let EventView::WriteFailed(reason) = event {
            finish(session, Err(write_error(reason)))
        } else {
            (at_stage(session, Stage::TextMode), strict_command("AT+CMGF=1\r"@, CONFIG_MILLIS))
        },
        Stage::TextMode => if let EventView::WriteFailed(reason) = event {
            finish(session, Err(write_error(reason)))
        } else {
            (
                at_stage(session, Stage::Recipient),
                strict_command(recipient_command(session.phone, session.message), PROMPT_MILLIS),
            )
        },
        Stage::Recipient => if let EventView::WriteFailed(reason) = event {
            finish(session, Err(write_error(reason)))
        } else {
            (
                at_stage(session, Stage::Payload),
                strict_command(payload_text(session.message), FINAL_MILLIS),
            )
        },
        Stage::Payload => if let EventView::WriteFailed(reason) = event {
            finish(session, Err(write_error(reason)))
        } else {
            finish(session, final_outcome(session.modem_id, response))
        },
    }
}


/// The failure to report when the serial device of `modem` cannot be
/// opened for the given reason.
pub fn open_failure(modem: &ModemConfig, reason: &str) -> (error: EngineError)
    ensures
        error@ == open_error(modem@, reason@),
{
    let mut message = String::from_str("Failed to open serial port ");
    message.append(modem.port.as_str());
    message.append(" (");
    message.append(modem.id.as_str());
    message.append("): ");
    message.append(reason);
    EngineError { kind: ErrorKind::ModemOpenFailed, message }
}

/// What the final answer of the modem `modem_id` means for the message.
pub fn classify_final(modem_id: &str, response: &str) -> (outcome: Result<(), EngineError>)
    ensures
        outcome_view(outcome) == final_outcome(modem_id@, response@),
{
    if contains(response, "OK") {
        Ok(())
    } else if contains(response, "ERROR") {
        let mut message = String::from_str("Modem ");
        message.append(modem_id);
        message.append(" returned ERROR: ");
        message.append(trim(response));
        Err(EngineError { kind: ErrorKind::ModemProtocolError, message })
    } else {
        Ok(())
    }
}

fn copy_outcome(outcome: &Result<(), EngineError>) -> (copy: Result<(), EngineError>)
    ensures
        outcome_view(copy) == outcome_view(*outcome),
{
    match outcome {
        Ok(_) => Ok(()),
        Err(error) => Err(error.clone()),
    }
}

fn reply(event: &Event) -> (text: &str)
    ensures
        text@ == response_of(event@),
{
    match event {
        Event::Response(text) => text.as_str(),
        _ => {
            let nothing = "";
            proof {
                reveal_strlit("");
            }
            assert(nothing@ =~= Seq::<char>::empty());
            nothing
        },
    }
}

fn lenient(text: &str, settle_millis: u64) -> (action: Action)
    ensures
        action@ == lenient_command(text@, settle_millis),
{
    Action::Command { text: String::from_str(text), settle_millis, strict: false }
}

fn strict(text: String, settle_millis: u64) -> (action: Action)
    ensures
        action@ == strict_command(text@, settle_millis),
{
    Action::Command { text, settle_millis, strict: true }
}

fn query(probe: u8) -> (action: Action)
    ensures
        action@ == strict_command(registration_query(probe), REGISTRATION_MILLIS),
{
    let text = if probe == 0 {
        "AT+CREG?\r"
    } else if probe == 1 {
        "AT+CEREG?\r"
    } else {
        "AT+CGREG?\r"
    };
    strict(String::from_str(text), REGISTRATION_MILLIS)
}

/// One delivery attempt through one modem.
#[derive(Debug)]
pub struct Session {
    modem_id: String,
    phone: String,
    message: String,
    unicode: bool,
    stage: Stage,
    outcome: Option<Result<(), EngineError>>,
}

impl View for Session {
    type V = SessionView;

    closed spec fn view(&self) -> SessionView {
        SessionView {
            modem_id: self.modem_id@,
            phone: self.phone@,
            message: self.message@,
            progress: match self.outcome {
                Some(outcome) => Progress::Over(outcome_view(outcome)),
                None => Progress::Waiting(self.stage),
            },
        }
    }
}

impl Session {
    #[verifier::type_invariant]
    spec fn charset_is_decided(self) -> bool {
        self.unicode == needs_unicode(self.message@)
    }

    /// Starts an attempt to deliver `message` to `phone` through `modem`,
    /// whose serial device the caller has opened. The first action is to
    /// clear the channel's buffers.
    pub fn begin(modem: &ModemConfig, phone: &str, message: &str) -> (started: (Session, Action))
        ensures
            started.0@ == (SessionView {
                modem_id: modem.id@,
                phone: phone@,
                message: message@,
                progress: Progress::Waiting(Stage::Clearing),
            }),
            started.1@ == ActionView::ClearBuffers,
    {
        let session = Session {
            modem_id: modem.id.clone(),
            phone: String::from_str(phone),
            message: String::from_str(message),
            unicode: !is_gsm7_compatible(message),
            stage: Stage::Clearing,
            outcome: None,
        };
        (session, Action::ClearBuffers)
    }

    /// The step whose answer the session waits for, if it is not over.
    pub fn stage(&self) -> (stage: Option<Stage>)
        ensures
            stage == match self@.progress {
                Progress::Waiting(at) => Some(at),
                Progress::Over(_) => None::<Stage>,
            },
    {
        if self.outcome.is_some() {
            None
        } else {
            Some(self.stage)
        }
    }

    /// Whether the session is over.
    pub fn is_finished(&self) -> (over: bool)
        ensures
            over == (self@.progress is Over),
    {
        self.outcome.is_some()
    }

    /// Whether the message goes out in the UCS2 character set.
    pub fn uses_unicode(&self) -> (unicode: bool)
        ensures
            unicode == needs_unicode(self@.message),
    {
        proof {
            use_type_invariant(self);
        }
        self.unicode
    }

    fn wire_form(&self, text: &str) -> (wire: String)
        ensures
            wire@ == on_the_wire(text@, self@.message),
    {
        proof {
            use_type_invariant(self);
        }
        if self.unicode {
            to_ucs2_hex(text)
        } else {
            String::from_str(text)
        }
    }

    fn end(&mut self, outcome: Result<(), EngineError>) -> (action: Action)
        ensures
            (final(self)@, action@) == finish(old(self)@, outcome_view(outcome)),
    {
        proof {
            use_type_invariant(&*self);
        }
        self.outcome = Some(copy_outcome(&outcome));
        Action::Finish(outcome)
    }

    fn fail_to_write(&mut self, reason: &String) -> (action: Action)
        ensures
            (final(self)@, action@) == finish(old(self)@, Err(write_error(reason@))),
    {
        self.end(Err(EngineError { kind: ErrorKind::ModemWriteFailed, message: reason.clone() }))
    }

    fn begin_round(&mut self, round: u8) -> (action: Action)
        requires
            old(self).outcome is None,
        ensures
            (final(self)@, action@) == start_round(old(self)@, round),
    {
        proof {
            use_type_invariant(&*self);
        }
        self.stage = Stage::Registration { round, probe: 0 };
        query(0)
    }

    /// Takes in what the caller reports and says what to do next.
    pub fn advance(&mut self, event: &Event) -> (action: Action)
        ensures
            (final(self)@, action@) == session_step(old(self)@, event@),
    {
        proof {
            use_type_invariant(&*self);
        }
        if let Some(outcome) = &self.outcome {
            return Action::Finish(copy_outcome(outcome));
        }
        let response = reply(event);
        match self.stage {
            Stage::Clearing => {
                self.stage = Stage::WarmupPause;
                Action::Pause { millis: WARMUP_MILLIS }
            },
            Stage::WarmupPause => {
                self.stage = Stage::Escape;
                lenient("\u{1b}", PROBE_MILLIS)
            },
            Stage::Escape => {
                self.stage = Stage::AliveProbe { attempt: 1 };
                lenient("AT\r", PROBE_MILLIS)
            },
            Stage::AliveProbe { attempt } => {
                if contains(response, "OK") {
                    self.begin_round(0)
                } else if attempt < ALIVE_PROBES {
                    self.stage = Stage::AliveProbe { attempt: attempt + 1 };
                    lenient("AT\r", PROBE_MILLIS)
                } else {
                    self.stage = Stage::EchoOff;
                    lenient("ATE0\r", PROBE_MILLIS)
                }
            },
            Stage::EchoOff => {
                if contains(response, "OK") {
                    self.begin_round(0)
                } else {
                    let mut message = String::from_str("Modem ");
                    message.append(self.modem_id.as_str());
                    message.append(" not responding (AT check failed)");
                    self.end(Err(EngineError { kind: ErrorKind::ModemUnresponsive, message }))
                }
            },
            Stage::Registration { round, probe } => {
                if let Event::WriteFailed(reason) = event {
                    self.fail_to_write(reason)
                } else if contains(response, ",1") || contains(response, ",5") {
                    self.stage = Stage::Charset;
                    let text = if self.unicode {
                        "AT+CSCS=\"UCS2\"\r"
                    } else {
                        "AT+CSCS=\"GSM\"\r"
                    };
                    strict(String::from_str(text), CONFIG_MILLIS)
                } else if probe < 2 {
                    self.stage = Stage::Registration { round, probe: probe + 1 };
                    query(probe + 1)
                } else {
                    self.stage = Stage::RegistrationPause { round };
                    Action::Pause { millis: REGISTRATION_PAUSE_MILLIS }
                }
            },
            Stage::RegistrationPause { round } => {
                if round < REGISTRATION_ROUNDS - 1 {
                    self.begin_round(round + 1)
                } else {
                    let mut message = String::from_str("Modem ");
                    message.append(self.modem_id.as_str());
                    message.append(" not registered to network.");
                    self.end(Err(EngineError { kind: ErrorKind::ModemUnregistered, message }))
                }
            },
            Stage::Charset => {
                if let Event::WriteFailed(reason) = event {
                    self.fail_to_write(reason)
                } else {
                    self.stage = Stage::Params;
                    let text = if self.unicode {
                        "AT+CSMP=17,167,0,8\r"
                    } else {
                        "AT+CSMP=17,167,0,0\r"
                    };
                    strict(String::from_str(text), CONFIG_MILLIS)
                }
            },
            Stage::Params => {
                if let Event::WriteFailed(reason) = event {
                    self.fail_to_write(reason)
                } else {
                    self.stage = Stage::TextMode;
                    strict(String::from_str("AT+CMGF=1\r"), CONFIG_MILLIS)
                }
            },
            Stage::TextMode => {
                if let Event::WriteFailed(reason) = event {
                    self.fail_to_write(reason)
                } else {
                    self.stage = Stage::Recipient;
                    let mut text = String::from_str("AT+CMGS=\"");
                    let target = self.wire_form(self.phone.as_str());
                    text.append(target.as_str());
                    text.append("\"\r");
                    strict(text, PROMPT_MILLIS)
                }
            },
            Stage::Recipient => {
                if let Event::WriteFailed(reason) = event {
                    self.fail_to_write(reason)
                } else {
                    self.stage = Stage::Payload;
                    let mut text = self.wire_form(self.message.as_str());
                    text.append("\u{1a}");
                    strict(text, FINAL_MILLIS)
                }
            },
            Stage::Payload => {
                if let Event::WriteFailed(reason) = event {
                    self.fail_to_write(reason)
                } else {
                    let outcome = classify_final(self.modem_id.as_str(), response);
                    self.end(outcome)
                }
            },
        }
    }
}

} // verus!
