use sms_engine::dispatch::{Dispatch, DispatchAction, RETRY_PAUSE_MILLIS};
use sms_engine::error::{EngineError, ErrorKind};
use sms_engine::modem::{ModemConfig, ModemManager, SmsStrategy};
use sms_engine::queue::{QueueStore, Status};

fn modem(id: &str, priority: u8) -> ModemConfig {
    ModemConfig { id: id.to_string(), port: format!("/dev/{}", id), baud_rate: 9600, priority }
}

fn two_modems(strategy: SmsStrategy) -> ModemManager {
    ModemManager::new(vec![modem("A", 0), modem("B", 1)], strategy).unwrap()
}

fn unregistered(id: &str) -> EngineError {
    EngineError::new(ErrorKind::ModemUnregistered, &format!("Modem {} not registered to network.", id))
}

#[test]
fn the_retry_pause_is_half_a_second() {
    assert_eq!(RETRY_PAUSE_MILLIS, 500);
}

#[test]
fn dispatch_starts_with_the_first_candidate_at_once() {
    let (dispatch, action) = Dispatch::begin(&two_modems(SmsStrategy::Failover), 1);
    assert_eq!(action, DispatchAction::Attempt { modem: modem("A", 0), after_millis: 0 });
    assert!(!dispatch.is_finished());
    assert_eq!(dispatch.trace(), "");
}

#[test]
fn a_success_ends_the_dispatch_with_the_modem() {
    let (mut dispatch, _) = Dispatch::begin(&two_modems(SmsStrategy::Failover), 1);
    let action = dispatch.attempt_ended(&Ok(()));
    assert_eq!(action, DispatchAction::Finish { outcome: Ok("A".to_string()), after_millis: 0 });
    assert!(dispatch.is_finished());
}

#[test]
fn failover_dispatch() {
    let mut store = QueueStore::new();
    store.submit("+15550005", "failover", 100).unwrap();
    let claim = store.claim_next(0, 101).unwrap();
    let (mut dispatch, first) = Dispatch::begin(&two_modems(SmsStrategy::Failover), claim.id);
    assert_eq!(first, DispatchAction::Attempt { modem: modem("A", 0), after_millis: 0 });
    let second = dispatch.attempt_ended(&Err(unregistered("A")));
    assert_eq!(second, DispatchAction::Attempt { modem: modem("B", 1), after_millis: 500 });
    assert_eq!(dispatch.trace(), "[A: Modem A not registered to network.]; ");
    let last = dispatch.attempt_ended(&Ok(()));
    assert_eq!(last, DispatchAction::Finish { outcome: Ok("B".to_string()), after_millis: 0 });
    if let DispatchAction::Finish { outcome, .. } = last {
        store.record_outcome(claim.id, &outcome).unwrap();
    }
    assert_eq!(store.rows()[0].status, Status::Sent);
    assert_eq!(store.rows()[0].last_error, None);
}

#[test]
fn failover_clears_the_error_of_an_earlier_failure() {
    let mut store = QueueStore::new();
    store.submit("+15550005", "again", 100).unwrap();
    let claim = store.claim_next(0, 101).unwrap();
    store.mark_failed(claim.id, "All allowed carriers failed. Trace: ").unwrap();
    assert_eq!(store.rows()[0].last_error.as_deref(), Some("All allowed carriers failed. Trace: "));
    let again = store.claim_next(1, 1000).unwrap();
    assert_eq!(again.id, claim.id);
    assert_eq!(again.retries, 1);
    store.record_outcome(again.id, &Ok("B".to_string())).unwrap();
    assert_eq!(store.rows()[0].status, Status::Sent);
    assert_eq!(store.rows()[0].last_error, None);
    assert_eq!(store.rows()[0].retries, 1);
}

#[test]
fn every_failure_ends_in_the_whole_trace() {
    let (mut dispatch, _) = Dispatch::begin(&two_modems(SmsStrategy::Failover), 1);
    dispatch.attempt_ended(&Err(unregistered("A")));
    let last = dispatch.attempt_ended(&Err(EngineError::new(
        ErrorKind::ModemUnresponsive,
        "Modem B not responding (AT check failed)",
    )));
    let expected = EngineError::new(
        ErrorKind::AllCarriersFailed,
        "All allowed carriers failed. Trace: [A: Modem A not registered to network.]; [B: Modem B not responding (AT check failed)]; ",
    );
    assert_eq!(last, DispatchAction::Finish { outcome: Err(expected), after_millis: 500 });
    assert!(dispatch.is_finished());
}

#[test]
fn single_carrier_gives_up_after_the_preferred_modem() {
    let (mut dispatch, first) = Dispatch::begin(&two_modems(SmsStrategy::SingleCarrier), 3);
    assert_eq!(first, DispatchAction::Attempt { modem: modem("A", 0), after_millis: 0 });
    let last = dispatch.attempt_ended(&Err(unregistered("A")));
    match last {
        DispatchAction::Finish { outcome: Err(error), after_millis } => {
            assert_eq!(after_millis, 500);
            assert_eq!(error.kind, ErrorKind::AllCarriersFailed);
            assert_eq!(
                error.message,
                "All allowed carriers failed. Trace: [A: Modem A not registered to network.]; "
            );
        },
        other => panic!("{:?}", other),
    }
}

#[test]
fn round_robin_dispatch_starts_where_the_record_says() {
    let (_, for_two) = Dispatch::begin(&two_modems(SmsStrategy::RoundRobin), 2);
    assert_eq!(for_two, DispatchAction::Attempt { modem: modem("A", 0), after_millis: 0 });
    let (mut dispatch, for_three) = Dispatch::begin(&two_modems(SmsStrategy::RoundRobin), 3);
    assert_eq!(for_three, DispatchAction::Attempt { modem: modem("B", 1), after_millis: 0 });
    let next = dispatch.attempt_ended(&Err(unregistered("B")));
    assert_eq!(next, DispatchAction::Attempt { modem: modem("A", 0), after_millis: 500 });
}

#[test]
fn a_finished_dispatch_repeats_its_outcome() {
    let (mut dispatch, _) = Dispatch::begin(&two_modems(SmsStrategy::Failover), 1);
    dispatch.attempt_ended(&Ok(()));
    let again = dispatch.attempt_ended(&Err(unregistered("A")));
    assert_eq!(again, DispatchAction::Finish { outcome: Ok("A".to_string()), after_millis: 0 });
    assert_eq!(dispatch.trace(), "");
}
