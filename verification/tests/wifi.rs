use zappy::clock::log_stamp;
use zappy::state::State;
use zappy::wifi::{
    attempt_over, check_connection, client_credentials, WifiAction, WifiEvent, WifiPhase, WifiRound,
    WifiTask,
};
use zappy::zap::{seed, ZapCounter, ZapRound};

#[test]
fn wifi_is_set_up_again_whenever_it_is_lost() {
    let (mut task, first) = WifiTask::new();
    assert_eq!(first, WifiAction::Connect);
    assert_eq!(task.step(WifiEvent::Attempted(false)), Some(WifiAction::Wait(5)));
    assert_eq!(task.step(WifiEvent::Lost), None);
    assert_eq!(task.step(WifiEvent::Woke), Some(WifiAction::Connect));
    assert_eq!(task.step(WifiEvent::Attempted(true)), Some(WifiAction::AwaitLoss));
    assert_eq!(task.phase, WifiPhase::Connected);
    assert_eq!(task.step(WifiEvent::Lost), Some(WifiAction::Connect));
}

#[test]
fn an_unknown_connection_is_no_connection() {
    assert_eq!(check_connection(Some(true)), WifiRound::Sleep(1));
    assert_eq!(check_connection(Some(false)), WifiRound::Connect);
    assert_eq!(check_connection(None), WifiRound::Connect);
}

#[test]
fn only_a_successful_attempt_makes_wifi_ready() {
    let mut state = State::new();
    assert_eq!(attempt_over(&mut state, false), WifiRound::Sleep(1));
    assert!(!state.wifi_ready);
    assert_eq!(attempt_over(&mut state, true), WifiRound::Sleep(1));
    assert!(state.wifi_ready);
    assert_eq!(attempt_over(&mut state, false), WifiRound::Sleep(1));
    assert!(state.wifi_ready);
}

#[test]
fn zaps_are_counted_from_one() {
    let mut counter = ZapCounter::new();
    assert_eq!(counter.record(), ZapRound { publish: 1, sleep_ms: 100 });
    assert_eq!(counter.record(), ZapRound { publish: 2, sleep_ms: 100 });
    assert_eq!(counter.count, 2);
}

#[test]
fn seeds_are_made_of_two_halves() {
    assert_eq!(seed(0, 0), 0);
    assert_eq!(seed(1, 2), 0x1_0000_0002);
    assert_eq!(seed(u32::MAX, u32::MAX), u64::MAX);
}

#[test]
fn credentials_are_taken_as_they_are_or_refused() {
    let held = |ssid: &str, password: &str| Some((ssid.to_string(), password.to_string()));
    assert_eq!(client_credentials("home", "s3cr\u{e9}t"), held("home", "s3cr\u{e9}t"));
    assert_eq!(client_credentials("", ""), held("", ""));
    let (ssid, password) = ("n".repeat(32), "p".repeat(64));
    assert_eq!(client_credentials(&ssid, &password), held(&ssid, &password));
    assert_eq!(client_credentials(&"n".repeat(33), &password), None);
    assert_eq!(client_credentials(&ssid, &"p".repeat(65)), None);
    assert_eq!(client_credentials(&"\u{e9}".repeat(16), ""), held(&"\u{e9}".repeat(16), ""));
    assert_eq!(client_credentials(&"\u{e9}".repeat(17), ""), None);
}

#[test]
fn log_stamps_are_whole_milliseconds() {
    assert_eq!(log_stamp(0), 0);
    assert_eq!(log_stamp(999), 0);
    assert_eq!(log_stamp(1_000), 1);
    assert_eq!(log_stamp(12_345_678), 12_345);
    assert_eq!(log_stamp(u64::MAX), 18_446_744_073_709_551);
}
