use zappy::led::{Board, LedOutput, Level};
use zappy::state::{LoopStep, State, ZapStep};

const LIT: LedOutput = LedOutput::Pin(Level::Low);
const DARK: LedOutput = LedOutput::Pin(Level::High);

#[test]
fn nothing_has_happened_at_first() {
    let state = State::new();
    assert!(!state.wifi_ready);
    assert!(!state.zap_flag);
    assert!(state.zap_times.is_empty());
    assert_eq!(state.zap_blink_until, None);
}

#[test]
fn a_zap_waits_for_wifi_and_is_reported_once() {
    let mut state = State::new();
    state.mark_zap();
    assert_eq!(state.zap_task(10, 20), None);
    assert_eq!(state.zap_plan(None), vec![ZapStep::AwaitWifi]);
    state.mark_wifi_ready();
    state.mark_zap();
    assert_eq!(state.zap_task(11, 21), Some(1));
    assert!(!state.zap_flag);
    assert_eq!(state.zap_times, vec![11]);
    assert_eq!(state.zap_blink_until, Some(5_000_000_021));
    assert_eq!(state.zap_task(12, 22), None);
    assert_eq!(state.zap_times, vec![11]);
    state.mark_zap();
    assert_eq!(state.zap_task(13, 23), Some(2));
    assert_eq!(state.zap_times, vec![11, 13]);
}

#[test]
fn the_interrupt_is_rearmed_before_telemetry_is_sent() {
    let mut state = State::new();
    state.mark_wifi_ready();
    assert_eq!(
        state.zap_plan(Some(1)),
        vec![ZapStep::Sleep(100), ZapStep::ReArm, ZapStep::SendZap, ZapStep::Sleep(10)]
    );
    assert_eq!(state.zap_plan(None), vec![ZapStep::Sleep(10)]);
}

#[test]
fn ticks_change_over_until_the_time_is_up() {
    let mut state = State::new();
    let mut blink = true;
    assert_eq!(state.tick_zap_blink(Board::Xiao, 0, &mut blink), None);
    assert!(!blink);
    state.zap_blink_until = Some(100);
    assert_eq!(state.tick_zap_blink(Board::Xiao, 99, &mut blink), Some(LIT));
    assert!(blink);
    assert_eq!(state.tick_zap_blink(Board::Xiao, 99, &mut blink), Some(DARK));
    assert!(!blink);
    blink = true;
    assert_eq!(state.tick_zap_blink(Board::Xiao, 100, &mut blink), None);
    assert!(!blink);
}

#[test]
fn the_led_is_turned_off_when_the_blinking_is_over() {
    let mut state = State::new();
    let mut blink = false;
    let rest = LoopStep { show: None, sleep_ms: 50 };
    assert_eq!(state.led_loop(Board::Xiao, 0, &mut blink), rest);
    state.zap_blink_until = Some(100);
    assert_eq!(
        state.led_loop(Board::Xiao, 0, &mut blink),
        LoopStep { show: Some(LIT), sleep_ms: 100 }
    );
    assert_eq!(
        state.led_loop(Board::Xiao, 100, &mut blink),
        LoopStep { show: Some(DARK), sleep_ms: 0 }
    );
    assert_eq!(state.led_loop(Board::Xiao, 100, &mut blink), rest);
}

#[test]
fn the_wifi_blink_ends_dark() {
    let mut state = State::new();
    let mut blink = false;
    assert_eq!(state.wifi_wait(Board::Xiao, &mut blink), (LIT, false));
    assert_eq!(state.wifi_wait(Board::Xiao, &mut blink), (DARK, false));
    assert_eq!(state.wifi_wait(Board::Xiao, &mut blink), (LIT, false));
    state.mark_wifi_ready();
    assert_eq!(state.wifi_wait(Board::Xiao, &mut blink), (DARK, true));
}

#[test]
fn every_zap_is_noted_and_sent_once() {
    let mut state = State::new();
    let mut interrupts = false;
    let mut expected: Vec<u64> = Vec::new();
    let mut steps: Vec<ZapStep> = Vec::new();
    let mut found = 0;
    for turn in 0..200u64 {
        if turn == 20 {
            state.mark_wifi_ready();
        }
        if turn % 3 == 0 {
            for _ in 0..=turn % 4 {
                state.mark_zap();
            }
            interrupts = true;
        }
        if turn % 5 < 3 {
            assert_eq!(state.zap_due(), interrupts && turn >= 20);
            if state.zap_due() {
                expected.push(turn);
                interrupts = false;
            }
            let zap = state.zap_task(turn, 0);
            found += zap.iter().count();
            steps.extend(state.zap_plan(zap));
        }
    }
    assert!(expected.len() > 10);
    assert_eq!(state.zap_times, expected);
    assert_eq!(found, expected.len());
    for step in [ZapStep::ReArm, ZapStep::SendZap] {
        assert_eq!(steps.iter().filter(|s| **s == step).count(), expected.len());
    }
    for i in (0..steps.len()).filter(|i| steps[*i] == ZapStep::SendZap) {
        assert_eq!(steps[i - 2..i], [ZapStep::Sleep(100), ZapStep::ReArm]);
    }
}
