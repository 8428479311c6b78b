use zappy::blink::{blink_end, LedAction, LedAsk, LedEvent, LedPhase, LedTask};
use zappy::led::{Board, LedOutput, Level, Rgb8};

fn pixel(r: u8, g: u8, b: u8) -> Option<LedOutput> {
    Some(LedOutput::Pixel(Rgb8 { r, g, b }))
}

#[test]
fn blinks_blue_until_wifi_is_up() {
    let (mut task, first) = LedTask::new(Board::Devkit);
    assert_eq!(first, LedAction { show: None, ask: LedAsk::Wifi });
    let lit = LedAction { show: pixel(0, 0, 64), ask: LedAsk::Sleep(500) };
    let dark = LedAction { show: pixel(0, 0, 0), ask: LedAsk::Sleep(500) };
    for _ in 0..3 {
        assert_eq!(task.step(LedEvent::Wifi(false)), Some(lit));
        assert_eq!(task.step(LedEvent::Woke), Some(first));
        assert_eq!(task.step(LedEvent::Wifi(false)), Some(dark));
        assert_eq!(task.step(LedEvent::Woke), Some(first));
    }
    assert_eq!(
        task.step(LedEvent::Wifi(true)),
        Some(LedAction { show: pixel(0, 0, 0), ask: LedAsk::NextZap })
    );
    assert_eq!(task.phase, LedPhase::Idle);
}

#[test]
fn blinks_yellow_for_five_seconds_after_a_zap() {
    let mut task = LedTask { board: Board::Devkit, phase: LedPhase::Idle };
    let clock = Some(LedAction { show: None, ask: LedAsk::Clock });
    let look = Some(LedAction { show: None, ask: LedAsk::WaitingZap });
    let lit = Some(LedAction { show: pixel(64, 50, 0), ask: LedAsk::Sleep(100) });
    let dark = Some(LedAction { show: pixel(0, 0, 0), ask: LedAsk::Sleep(100) });
    assert_eq!(task.step(LedEvent::Zap { now: 1_000 }), clock);
    assert_eq!(task.phase, LedPhase::Timing { deadline: 5_001_000, on: false });
    assert_eq!(task.step(LedEvent::Clock { now: 1_001 }), look);
    assert_eq!(task.step(LedEvent::Polled(None)), lit);
    assert_eq!(task.step(LedEvent::Woke), clock);
    assert_eq!(task.step(LedEvent::Clock { now: 5_000_999 }), look);
    assert_eq!(task.step(LedEvent::Polled(None)), dark);
    assert_eq!(task.step(LedEvent::Woke), clock);
    assert_eq!(
        task.step(LedEvent::Clock { now: 5_001_000 }),
        Some(LedAction { show: pixel(0, 0, 0), ask: LedAsk::NextZap })
    );
    assert_eq!(task.phase, LedPhase::Idle);
}

#[test]
fn another_zap_prolongs_the_blinking() {
    let mut task =
        LedTask { board: Board::Xiao, phase: LedPhase::Polling { deadline: 5_000_000, on: false } };
    assert_eq!(
        task.step(LedEvent::Polled(Some(4_000_000))),
        Some(LedAction { show: Some(LedOutput::Pin(Level::Low)), ask: LedAsk::Sleep(100) })
    );
    assert_eq!(task.phase, LedPhase::BlinkingPause { deadline: 9_000_000, on: true });
}

#[test]
fn events_that_are_not_waited_for_change_nothing() {
    let mut task = LedTask { board: Board::Xiao, phase: LedPhase::Idle };
    assert_eq!(task.step(LedEvent::Woke), None);
    assert_eq!(task.step(LedEvent::Clock { now: 3 }), None);
    assert_eq!(task.step(LedEvent::Wifi(true)), None);
    assert_eq!(task.phase, LedPhase::Idle);
}

#[test]
fn a_blink_ends_five_million_ticks_later() {
    assert_eq!(blink_end(0), 5_000_000);
    assert_eq!(blink_end(u64::MAX - 5_000_000), u64::MAX);
}

#[test]
fn the_led_is_dark_whenever_a_zap_is_waited_for() {
    let (mut task, mut action) = LedTask::new(Board::Devkit);
    let mut light = LedOutput::Pixel(Rgb8 { r: 0, g: 0, b: 0 });
    let mut now: u64 = 0;
    for turn in 0..2_000u64 {
        if let Some(output) = action.show {
            if matches!(action.ask, LedAsk::Sleep(_)) {
                assert_ne!(output, light);
            }
            light = output;
        }
        let event = match action.ask {
            LedAsk::Wifi => LedEvent::Wifi(turn > 20),
            LedAsk::Sleep(ms) => {
                now += ms * 1_000;
                LedEvent::Woke
            }
            LedAsk::NextZap => {
                assert_eq!(light, LedOutput::Pixel(Rgb8 { r: 0, g: 0, b: 0 }));
                now += 1;
                LedEvent::Zap { now }
            }
            LedAsk::Clock => LedEvent::Clock { now },
            LedAsk::WaitingZap => LedEvent::Polled(if turn % 97 == 0 { Some(now) } else { None }),
        };
        action = task.step(event).unwrap();
    }
}
