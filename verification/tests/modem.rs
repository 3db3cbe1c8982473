use sms_engine::error::ErrorKind;
use sms_engine::modem::{
    rotation_of, sort_by_priority, FlowControl, LineSettings, ModemConfig, ModemManager, Parity,
    SmsStrategy,
};

fn modem(id: &str, priority: u8) -> ModemConfig {
    ModemConfig {
        id: id.to_string(),
        port: format!("/dev/tty{}", id),
        baud_rate: 115200,
        priority,
    }
}

fn ids(modems: &[ModemConfig]) -> Vec<String> {
    modems.iter().map(|m| m.id.clone()).collect()
}

#[test]
fn strategy_tags_are_matched_letter_for_letter() {
    assert_eq!(SmsStrategy::parse("failover"), SmsStrategy::Failover);
    assert_eq!(SmsStrategy::parse("single_carrier"), SmsStrategy::SingleCarrier);
    assert_eq!(SmsStrategy::parse("round_robin"), SmsStrategy::RoundRobin);
}

#[test]
fn unknown_strategy_tags_mean_failover() {
    assert_eq!(SmsStrategy::parse(""), SmsStrategy::Failover);
    assert_eq!(SmsStrategy::parse("ROUND_ROBIN"), SmsStrategy::Failover);
    assert_eq!(SmsStrategy::parse("Single_Carrier"), SmsStrategy::Failover);
    assert_eq!(SmsStrategy::parse("round_robin "), SmsStrategy::Failover);
    assert_eq!(SmsStrategy::parse("random"), SmsStrategy::Failover);
}

#[test]
fn an_empty_modem_list_is_an_invalid_configuration() {
    let error = ModemManager::new(Vec::new(), SmsStrategy::Failover).unwrap_err();
    assert_eq!(error.kind, ErrorKind::InvalidConfig);
    assert_eq!(error.message, "No modems defined in config!");
}

#[test]
fn a_manager_keeps_its_strategy_and_modems() {
    let manager = ModemManager::new(vec![modem("A", 0), modem("B", 1)], SmsStrategy::RoundRobin).unwrap();
    assert_eq!(manager.strategy(), SmsStrategy::RoundRobin);
    assert_eq!(manager.modem_count(), 2);
}

#[test]
fn a_line_is_opened_eight_n_one_without_flow_control() {
    let settings = modem("A", 0).line_settings();
    assert_eq!(
        settings,
        LineSettings {
            baud_rate: 115200,
            data_bits: 8,
            parity: Parity::Disabled,
            stop_bits: 1,
            flow_control: FlowControl::Disabled,
        }
    );
}

#[test]
fn sorting_is_by_ascending_priority() {
    let sorted = sort_by_priority(&vec![modem("C", 200), modem("A", 0), modem("B", 7), modem("D", 255)]);
    assert_eq!(ids(&sorted), ["A", "B", "C", "D"]);
}

#[test]
fn sorting_keeps_the_order_of_equal_priorities() {
    let sorted = sort_by_priority(&vec![
        modem("x", 5),
        modem("y", 1),
        modem("z", 5),
        modem("w", 1),
        modem("v", 5),
    ]);
    assert_eq!(ids(&sorted), ["y", "w", "x", "z", "v"]);
}

#[test]
fn sorting_keeps_every_modem_whole() {
    let given = vec![modem("B", 1), modem("A", 0)];
    let sorted = sort_by_priority(&given);
    assert_eq!(sorted, vec![modem("A", 0), modem("B", 1)]);
    assert_eq!(sort_by_priority(&Vec::new()), Vec::<ModemConfig>::new());
}

#[test]
fn sorting_agrees_with_the_standard_stable_sort() {
    let mut given = Vec::new();
    let mut seed: u32 = 12345;
    for n in 0..40 {
        seed = seed.wrapping_mul(1103515245).wrapping_add(12345);
        given.push(modem(&format!("m{}", n), ((seed >> 16) % 6) as u8 * 51));
    }
    let mut expected = given.clone();
    expected.sort_by_key(|m| m.priority);
    assert_eq!(sort_by_priority(&given), expected);
}

#[test]
fn failover_tries_every_modem_by_priority() {
    let manager = ModemManager::new(vec![modem("B", 1), modem("C", 2), modem("A", 0)], SmsStrategy::Failover).unwrap();
    assert_eq!(ids(&manager.candidates(1)), ["A", "B", "C"]);
    assert_eq!(ids(&manager.candidates(2)), ["A", "B", "C"]);
}

#[test]
fn single_carrier_tries_the_preferred_modem_only() {
    let manager = ModemManager::new(vec![modem("B", 1), modem("C", 2), modem("A", 0)], SmsStrategy::SingleCarrier).unwrap();
    assert_eq!(ids(&manager.candidates(1)), ["A"]);
    assert_eq!(ids(&manager.candidates(5)), ["A"]);
    let lone = ModemManager::new(vec![modem("Z", 9)], SmsStrategy::SingleCarrier).unwrap();
    assert_eq!(ids(&lone.candidates(3)), ["Z"]);
}

#[test]
fn round_robin_rotation() {
    let manager = ModemManager::new(vec![modem("A", 0), modem("B", 1)], SmsStrategy::RoundRobin).unwrap();
    assert_eq!(ids(&manager.candidates(2)), ["A", "B"]);
    assert_eq!(ids(&manager.candidates(3)), ["B", "A"]);
}

#[test]
fn round_robin_turns_the_sorted_list() {
    let manager = ModemManager::new(vec![modem("C", 2), modem("A", 0), modem("B", 1)], SmsStrategy::RoundRobin).unwrap();
    assert_eq!(ids(&manager.candidates(0)), ["A", "B", "C"]);
    assert_eq!(ids(&manager.candidates(1)), ["B", "C", "A"]);
    assert_eq!(ids(&manager.candidates(2)), ["C", "A", "B"]);
    assert_eq!(ids(&manager.candidates(3)), ["A", "B", "C"]);
    assert_eq!(ids(&manager.candidates(i64::MAX)), ["B", "C", "A"]);
}

#[test]
fn round_robin_with_one_modem_is_that_modem() {
    let manager = ModemManager::new(vec![modem("A", 4)], SmsStrategy::RoundRobin).unwrap();
    assert_eq!(ids(&manager.candidates(7)), ["A"]);
}

#[test]
fn rotation_is_the_identity_modulo_the_count() {
    assert_eq!(rotation_of(0, 3), 0);
    assert_eq!(rotation_of(7, 3), 1);
    assert_eq!(rotation_of(8, 3), 2);
    assert_eq!(rotation_of(9, 3), 0);
    assert_eq!(rotation_of(5, 1), 0);
    assert_eq!(rotation_of(i64::MAX, 2), 1);
}

#[test]
fn rotation_of_adjacent_identities_is_adjacent_below_zero_too() {
    assert_eq!(rotation_of(-1, 3), 2);
    assert_eq!(rotation_of(-2, 3), 1);
    assert_eq!(rotation_of(-3, 3), 0);
    assert_eq!(rotation_of(-4, 3), 2);
    assert_eq!(rotation_of(i64::MIN, 2), 0);
    assert_eq!(rotation_of(i64::MIN, 3), (i64::MIN).rem_euclid(3) as usize);
}

#[test]
fn a_manager_is_configured_from_a_list_and_a_tag() {
    let manager = ModemManager::configure(vec![modem("B", 1), modem("A", 0)], "round_robin").unwrap();
    assert_eq!(manager.strategy(), SmsStrategy::RoundRobin);
    assert_eq!(ids(&manager.candidates(1)), ["B", "A"]);
    let manager = ModemManager::configure(vec![modem("B", 1), modem("A", 0)], "anything").unwrap();
    assert_eq!(manager.strategy(), SmsStrategy::Failover);
    let error = ModemManager::configure(Vec::new(), "failover").unwrap_err();
    assert_eq!(error.kind, ErrorKind::InvalidConfig);
    assert_eq!(error.message, "No modems defined in config!");
}
