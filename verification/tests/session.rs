use sms_engine::error::{EngineError, ErrorKind};
use sms_engine::modem::ModemConfig;
use sms_engine::session::{
    classify_final, open_failure, Action, Event, Session, Stage, ALIVE_PROBES, CONFIG_MILLIS,
    FINAL_MILLIS, PROBE_MILLIS, PROMPT_MILLIS, REGISTRATION_MILLIS, REGISTRATION_PAUSE_MILLIS,
    REGISTRATION_ROUNDS, WARMUP_MILLIS,
};

fn modem() -> ModemConfig {
    ModemConfig { id: "A".to_string(), port: "/dev/ttyUSB0".to_string(), baud_rate: 115200, priority: 0 }
}

fn lenient(text: &str, settle_millis: u64) -> Action {
    Action::Command { text: text.to_string(), settle_millis, strict: false }
}

fn strict(text: &str, settle_millis: u64) -> Action {
    Action::Command { text: text.to_string(), settle_millis, strict: true }
}

fn reply(text: &str) -> Event {
    Event::Response(text.to_string())
}

/// Drives a fresh session up to the first registration query.
fn alive_session(phone: &str, message: &str) -> Session {
    let (mut session, _) = Session::begin(&modem(), phone, message);
    session.advance(&Event::Done);
    session.advance(&Event::Done);
    session.advance(&reply(""));
    let action = session.advance(&reply("\r\nOK\r\n"));
    assert_eq!(action, strict("AT+CREG?\r", 800));
    session
}

/// Drives a fresh session up to the charset command.
fn registered_session(phone: &str, message: &str) -> (Session, Action) {
    let mut session = alive_session(phone, message);
    let action = session.advance(&reply("\r\n+CREG: 0,1\r\n\r\nOK\r\n"));
    (session, action)
}

#[test]
fn the_waits_are_those_of_the_protocol() {
    assert_eq!(WARMUP_MILLIS, 200);
    assert_eq!(PROBE_MILLIS, 500);
    assert_eq!(REGISTRATION_MILLIS, 800);
    assert_eq!(REGISTRATION_PAUSE_MILLIS, 1500);
    assert_eq!(CONFIG_MILLIS, 300);
    assert_eq!(PROMPT_MILLIS, 1500);
    assert_eq!(FINAL_MILLIS, 5000);
    assert_eq!(ALIVE_PROBES, 3);
    assert_eq!(REGISTRATION_ROUNDS, 5);
}

#[test]
fn a_session_warms_up_first() {
    let (mut session, first) = Session::begin(&modem(), "+15550001", "hi");
    assert_eq!(first, Action::ClearBuffers);
    assert_eq!(session.stage(), Some(Stage::Clearing));
    assert_eq!(session.advance(&Event::Done), Action::Pause { millis: 200 });
    assert_eq!(session.advance(&Event::Done), lenient("\u{1b}", 500));
    assert_eq!(session.advance(&reply("garbage")), lenient("AT\r", 500));
    assert_eq!(session.stage(), Some(Stage::AliveProbe { attempt: 1 }));
    assert!(!session.is_finished());
}

#[test]
fn a_gsm7_message_goes_out_as_it_is() {
    let (mut session, charset) = registered_session("+15550001", "hi");
    assert!(!session.uses_unicode());
    assert_eq!(charset, strict("AT+CSCS=\"GSM\"\r", 300));
    assert_eq!(session.advance(&reply("OK")), strict("AT+CSMP=17,167,0,0\r", 300));
    assert_eq!(session.advance(&reply("OK")), strict("AT+CMGF=1\r", 300));
    assert_eq!(session.advance(&reply("OK")), strict("AT+CMGS=\"+15550001\"\r", 1500));
    assert_eq!(session.advance(&reply("\r\n> ")), strict("hi\u{1a}", 5000));
    assert_eq!(session.advance(&reply("\r\n+CMGS: 12\r\n\r\nOK\r\n")), Action::Finish(Ok(())));
    assert!(session.is_finished());
    assert_eq!(session.stage(), None);
}

#[test]
fn unicode_path() {
    let (mut session, charset) = registered_session("+15550001", "héllo 😀");
    assert!(session.uses_unicode());
    assert_eq!(charset, strict("AT+CSCS=\"UCS2\"\r", 300));
    assert_eq!(session.advance(&reply("OK")), strict("AT+CSMP=17,167,0,8\r", 300));
    assert_eq!(session.advance(&reply("OK")), strict("AT+CMGF=1\r", 300));
    assert_eq!(
        session.advance(&reply("OK")),
        strict("AT+CMGS=\"002B00310035003500350030003000300031\"\r", 1500)
    );
    let payload = session.advance(&reply("> "));
    assert_eq!(payload, strict("006800E9006C006C006F0020D83DDE00\u{1a}", 5000));
    if let Action::Command { text, .. } = payload {
        let wire = text.as_bytes();
        assert_eq!(wire.last(), Some(&0x1a));
        let units: Vec<u16> = "héllo 😀".encode_utf16().collect();
        let mut expected = Vec::new();
        for unit in units {
            expected.extend_from_slice(format!("{:04X}", unit).as_bytes());
        }
        assert_eq!(&wire[..wire.len() - 1], &expected[..]);
    }
    assert_eq!(session.advance(&reply("OK")), Action::Finish(Ok(())));
}

#[test]
fn a_gsm7_message_with_accents_is_written_as_utf8() {
    let (mut session, _) = registered_session("+15550001", "déjà vu €");
    assert!(!session.uses_unicode());
    session.advance(&reply("OK"));
    session.advance(&reply("OK"));
    session.advance(&reply("OK"));
    assert_eq!(session.advance(&reply(">")), strict("déjà vu €\u{1a}", 5000));
}

#[test]
fn the_second_at_may_be_the_one_that_is_answered() {
    let (mut session, _) = Session::begin(&modem(), "+1", "hi");
    session.advance(&Event::Done);
    session.advance(&Event::Done);
    assert_eq!(session.advance(&reply("")), lenient("AT\r", 500));
    assert_eq!(session.advance(&reply("")), lenient("AT\r", 500));
    assert_eq!(session.stage(), Some(Stage::AliveProbe { attempt: 2 }));
    assert_eq!(session.advance(&reply("AT\r\r\nOK\r\n")), strict("AT+CREG?\r", 800));
    assert_eq!(session.stage(), Some(Stage::Registration { round: 0, probe: 0 }));
}

#[test]
fn echo_off_is_the_last_resort() {
    let (mut session, _) = Session::begin(&modem(), "+1", "hi");
    session.advance(&Event::Done);
    session.advance(&Event::Done);
    assert_eq!(session.advance(&reply("")), lenient("AT\r", 500));
    assert_eq!(session.advance(&reply("")), lenient("AT\r", 500));
    assert_eq!(session.advance(&reply("")), lenient("AT\r", 500));
    assert_eq!(session.advance(&reply("")), lenient("ATE0\r", 500));
    assert_eq!(session.stage(), Some(Stage::EchoOff));
    assert_eq!(session.advance(&reply("OK")), strict("AT+CREG?\r", 800));
}

#[test]
fn a_modem_that_never_answers_is_unresponsive() {
    let (mut session, _) = Session::begin(&modem(), "+1", "hi");
    session.advance(&Event::Done);
    session.advance(&Event::Done);
    session.advance(&reply(""));
    session.advance(&reply(""));
    session.advance(&reply("ERROR"));
    session.advance(&reply(""));
    let last = session.advance(&reply(""));
    assert_eq!(
        last,
        Action::Finish(Err(EngineError::new(
            ErrorKind::ModemUnresponsive,
            "Modem A not responding (AT check failed)"
        )))
    );
    assert!(session.is_finished());
}

#[test]
fn a_write_failure_does_not_matter_while_the_modem_is_probed() {
    let (mut session, _) = Session::begin(&modem(), "+1", "hi");
    session.advance(&Event::Done);
    session.advance(&Event::Done);
    assert_eq!(session.advance(&Event::WriteFailed("broken pipe".to_string())), lenient("AT\r", 500));
    assert_eq!(session.advance(&Event::WriteFailed("broken pipe".to_string())), lenient("AT\r", 500));
    assert!(!session.is_finished());
}

#[test]
fn registration_is_asked_in_three_ways() {
    let mut session = alive_session("+1", "hi");
    assert_eq!(session.advance(&reply("+CREG: 0,2\r\nOK")), strict("AT+CEREG?\r", 800));
    assert_eq!(session.stage(), Some(Stage::Registration { round: 0, probe: 1 }));
    assert_eq!(session.advance(&reply("ERROR")), strict("AT+CGREG?\r", 800));
    assert_eq!(session.advance(&reply("+CGREG: 0,5\r\nOK")), strict("AT+CSCS=\"GSM\"\r", 300));
}

#[test]
fn roaming_counts_as_registered() {
    let mut session = alive_session("+1", "hi");
    assert_eq!(session.advance(&reply("+CREG: 0,5")), strict("AT+CSCS=\"GSM\"\r", 300));
}

#[test]
fn a_round_without_registration_is_followed_by_a_pause() {
    let mut session = alive_session("+1", "hi");
    session.advance(&reply("+CREG: 0,2"));
    session.advance(&reply("+CEREG: 0,0"));
    assert_eq!(session.advance(&reply("+CGREG: 0,3")), Action::Pause { millis: 1500 });
    assert_eq!(session.stage(), Some(Stage::RegistrationPause { round: 0 }));
    assert_eq!(session.advance(&Event::Done), strict("AT+CREG?\r", 800));
    assert_eq!(session.stage(), Some(Stage::Registration { round: 1, probe: 0 }));
}

#[test]
fn five_rounds_without_registration_end_the_session() {
    let mut session = alive_session("+1", "hi");
    let mut queries = 1;
    let mut pauses = 0;
    let mut action = session.advance(&reply("+CREG: 0,2"));
    loop {
        match action {
            Action::Command { .. } => {
                queries += 1;
                action = session.advance(&reply("+CREG: 0,2"));
            },
            Action::Pause { millis } => {
                assert_eq!(millis, 1500);
                pauses += 1;
                action = session.advance(&Event::Done);
            },
            Action::Finish(outcome) => {
                assert_eq!(
                    outcome,
                    Err(EngineError::new(
                        ErrorKind::ModemUnregistered,
                        "Modem A not registered to network."
                    ))
                );
                break;
            },
            Action::ClearBuffers => panic!("cleared twice"),
        }
    }
    assert_eq!(queries, 15);
    assert_eq!(pauses, 5);
}

#[test]
fn a_write_failure_ends_the_session_from_registration_on() {
    let failed = Event::WriteFailed("Input/output error (os error 5)".to_string());
    let expected = Action::Finish(Err(EngineError::new(
        ErrorKind::ModemWriteFailed,
        "Input/output error (os error 5)",
    )));
    let mut session = alive_session("+1", "hi");
    assert_eq!(session.advance(&failed), expected);

    for steps in 0..5 {
        let (mut session, _) = registered_session("+1", "hi");
        for _ in 0..steps {
            assert!(matches!(session.advance(&reply("OK")), Action::Command { .. }));
        }
        assert_eq!(session.advance(&failed), expected);
        assert!(session.is_finished());
    }
}

#[test]
fn a_missing_prompt_is_not_fatal() {
    let (mut session, _) = registered_session("+15550001", "hi");
    session.advance(&reply("OK"));
    session.advance(&reply("OK"));
    session.advance(&reply("OK"));
    assert_eq!(session.advance(&reply("")), strict("hi\u{1a}", 5000));
}

#[test]
fn the_final_answer_decides() {
    assert_eq!(classify_final("A", "\r\n+CMGS: 3\r\n\r\nOK\r\n"), Ok(()));
    assert_eq!(
        classify_final("A", "\r\n+CMS ERROR: 500\r\n"),
        Err(EngineError::new(ErrorKind::ModemProtocolError, "Modem A returned ERROR: +CMS ERROR: 500"))
    );
    assert_eq!(classify_final("A", ""), Ok(()));
    assert_eq!(classify_final("A", "+CMGS: 3"), Ok(()));
    assert_eq!(classify_final("A", "ERROR then OK"), Ok(()));
    assert_eq!(
        classify_final("modem-7", "ERROR"),
        Err(EngineError::new(ErrorKind::ModemProtocolError, "Modem modem-7 returned ERROR: ERROR"))
    );
}

#[test]
fn an_error_as_final_answer_ends_the_session_in_failure() {
    let (mut session, _) = registered_session("+15550001", "hi");
    session.advance(&reply("OK"));
    session.advance(&reply("OK"));
    session.advance(&reply("OK"));
    session.advance(&reply("> "));
    assert_eq!(
        session.advance(&reply("\r\n+CMS ERROR: 38\r\n")),
        Action::Finish(Err(EngineError::new(
            ErrorKind::ModemProtocolError,
            "Modem A returned ERROR: +CMS ERROR: 38"
        )))
    );
}

#[test]
fn silence_as_final_answer_counts_as_sent() {
    let (mut session, _) = registered_session("+15550001", "hi");
    session.advance(&reply("OK"));
    session.advance(&reply("OK"));
    session.advance(&reply("OK"));
    session.advance(&reply("> "));
    assert_eq!(session.advance(&reply("")), Action::Finish(Ok(())));
}

#[test]
fn a_finished_session_repeats_its_outcome() {
    let (mut session, _) = Session::begin(&modem(), "+1", "hi");
    session.advance(&Event::Done);
    session.advance(&Event::Done);
    for _ in 0..4 {
        session.advance(&reply(""));
    }
    let last = session.advance(&reply(""));
    assert!(matches!(last, Action::Finish(Err(_))));
    assert_eq!(session.advance(&reply("OK")), last);
    assert_eq!(session.advance(&Event::Done), last);
}

#[test]
fn a_port_that_cannot_be_opened_is_named() {
    let error = open_failure(&modem(), "No such file or directory");
    assert_eq!(error.kind, ErrorKind::ModemOpenFailed);
    assert_eq!(
        error.message,
        "Failed to open serial port /dev/ttyUSB0 (A): No such file or directory"
    );
}
