use zappy::mqtt::{announcement, zap_report, Announcement};
use zappy::session::{Heard, MqttAction, MqttEvent, MqttPhase, MqttTask};

fn found() -> MqttEvent {
    MqttEvent::Resolved(Some(vec![[192, 168, 1, 2], [10, 0, 0, 1]]))
}

fn connect(task: &mut MqttTask) {
    task.step(&found());
    task.step(&MqttEvent::Done(true));
    task.step(&MqttEvent::Done(true));
    for _ in 0..4 {
        task.step(&MqttEvent::Done(true));
    }
    assert_eq!(task.phase, MqttPhase::Listening);
}

fn zap(task: &mut MqttTask, count: u32, ok: bool) -> Option<MqttAction> {
    let action = task.step(&MqttEvent::Heard(Heard::Zap(count)));
    task.step(&MqttEvent::Done(ok));
    action
}

fn report(count: u32) -> Option<MqttAction> {
    Some(MqttAction::Publish(zap_report(count)))
}

#[test]
fn a_connection_opens_with_its_announcements() {
    let (mut task, first) = MqttTask::new();
    assert_eq!(first, MqttAction::Resolve);
    assert_eq!(
        task.step(&found()),
        Some(MqttAction::Open { address: [192, 168, 1, 2], port: 1883, idle_timeout_secs: 120 })
    );
    assert_eq!(task.step(&MqttEvent::Done(true)), Some(MqttAction::Handshake));
    for (a, ok) in [
        (Announcement::ZapDiscovery, true),
        (Announcement::BootDiscovery, false),
        (Announcement::Boot, true),
        (Announcement::Zero, false),
    ] {
        assert_eq!(task.step(&MqttEvent::Done(ok)), Some(MqttAction::Publish(announcement(a))));
    }
    assert_eq!(
        task.step(&MqttEvent::Done(false)),
        Some(MqttAction::Listen { interval_secs: 30 })
    );
}

#[test]
fn failed_attempts_are_repeated_after_ten_seconds() {
    let wait = Some(MqttAction::Wait { secs: 10 });
    let (mut task, _) = MqttTask::new();
    assert_eq!(task.step(&MqttEvent::Resolved(None)), wait);
    assert_eq!(task.step(&MqttEvent::Woke), Some(MqttAction::Resolve));
    assert_eq!(task.step(&MqttEvent::Resolved(Some(vec![]))), wait);
    assert_eq!(task.step(&MqttEvent::Woke), Some(MqttAction::Resolve));
    task.step(&found());
    assert_eq!(task.step(&MqttEvent::Done(false)), wait);
    assert_eq!(task.step(&MqttEvent::Woke), Some(MqttAction::Resolve));
    task.step(&found());
    task.step(&MqttEvent::Done(true));
    assert_eq!(task.step(&MqttEvent::Done(false)), wait);
    assert_eq!(task.step(&MqttEvent::Woke), Some(MqttAction::Resolve));
}

#[test]
fn lost_connections_are_reopened_at_once() {
    let (mut task, _) = MqttTask::new();
    connect(&mut task);
    assert_eq!(
        task.step(&MqttEvent::Heard(Heard::Packet(false))),
        Some(MqttAction::Resolve)
    );
    connect(&mut task);
    assert_eq!(task.step(&MqttEvent::Heard(Heard::Silence)), Some(MqttAction::Ping));
    assert_eq!(task.step(&MqttEvent::Done(false)), Some(MqttAction::Resolve));
    connect(&mut task);
    task.step(&MqttEvent::Heard(Heard::Zap(1)));
    assert_eq!(task.step(&MqttEvent::Done(false)), Some(MqttAction::Resolve));
}

#[test]
fn silence_is_followed_by_a_ping() {
    let listen = Some(MqttAction::Listen { interval_secs: 30 });
    let (mut task, _) = MqttTask::new();
    connect(&mut task);
    assert_eq!(task.step(&MqttEvent::Heard(Heard::Silence)), Some(MqttAction::Ping));
    assert_eq!(task.step(&MqttEvent::Done(true)), listen);
    assert_eq!(task.step(&MqttEvent::Heard(Heard::Packet(true))), listen);
}

#[test]
fn the_count_starts_at_zero_on_each_connection() {
    let (mut task, _) = MqttTask::new();
    connect(&mut task);
    assert_eq!(zap(&mut task, 1, true), report(1));
    assert_eq!(zap(&mut task, 2, true), report(2));
    task.step(&MqttEvent::Heard(Heard::Packet(false)));
    connect(&mut task);
    assert_eq!(zap(&mut task, 3, true), report(1));
    assert_eq!(zap(&mut task, 5, true), report(3));
}

#[test]
fn the_count_starts_at_zero_after_a_report_that_failed() {
    let (mut task, _) = MqttTask::new();
    connect(&mut task);
    assert_eq!(zap(&mut task, 1, true), report(1));
    assert_eq!(zap(&mut task, 2, false), report(2));
    connect(&mut task);
    assert_eq!(zap(&mut task, 3, true), report(1));
    assert_eq!(task.counted, 3);
}

#[test]
fn the_first_connection_reports_the_zaps_since_boot() {
    let (mut task, _) = MqttTask::new();
    task.step(&MqttEvent::Resolved(None));
    task.step(&MqttEvent::Woke);
    connect(&mut task);
    assert_eq!(zap(&mut task, 3, true), report(3));
    assert_eq!(zap(&mut task, 42, true), report(42));
}

#[test]
fn a_counter_that_wrapped_around_goes_on() {
    let mut task = MqttTask { phase: MqttPhase::Listening, base: u32::MAX, counted: u32::MAX };
    assert_eq!(zap(&mut task, 1, true), report(2));
}

#[test]
fn answers_that_are_not_waited_for_change_nothing_at_the_broker() {
    let (mut task, _) = MqttTask::new();
    let before = task;
    assert_eq!(task.step(&MqttEvent::Woke), None);
    assert_eq!(task.step(&MqttEvent::Done(true)), None);
    assert_eq!(task.step(&MqttEvent::Heard(Heard::Zap(1))), None);
    assert_eq!(task, before);
}

/// The growth of the counter at the broker over a long run, with the number of zaps that was last
/// sent and the number of zaps that failed reports left out.
fn growth(reports_fail: bool) -> (i64, i64, i64) {
    let (mut task, mut action) = MqttTask::new();
    let mut values: Vec<i64> = Vec::new();
    let mut lost: i64 = 0;
    let mut count: u32 = 0;
    let mut state: u32 = 1;
    while count < 400 {
        state = state.wrapping_mul(1_664_525).wrapping_add(1_013_904_223);
        let turn = state >> 16;
        let event = match &action {
            MqttAction::Resolve => found(),
            MqttAction::Open { .. } => MqttEvent::Done(turn % 3 != 0),
            MqttAction::Handshake => MqttEvent::Done(turn % 5 != 0),
            MqttAction::Publish(publication) => {
                let ok = !reports_fail || publication.payload == "0" || turn % 4 != 0;
                if publication.topic.name() == "zappy/zap" {
                    let value: i64 = publication.payload.parse().unwrap();
                    if ok {
                        values.push(value);
                    } else {
                        lost += value - values.last().unwrap();
                    }
                }
                MqttEvent::Done(ok)
            }
            MqttAction::Listen { .. } => {
                if turn % 7 == 0 {
                    MqttEvent::Heard(Heard::Silence)
                } else if turn % 11 == 0 {
                    MqttEvent::Heard(Heard::Packet(turn % 2 == 0))
                } else {
                    count += 1 + turn % 3;
                    MqttEvent::Heard(Heard::Zap(count))
                }
            }
            MqttAction::Ping => MqttEvent::Done(turn % 2 == 0),
            MqttAction::Wait { .. } => MqttEvent::Woke,
        };
        action = task.step(&event).unwrap();
    }
    let mut before: i64 = 0;
    let mut growth: i64 = 0;
    for value in values {
        growth += if value >= before { value - before } else { value };
        before = value;
    }
    (growth, task.counted as i64, lost)
}

#[test]
fn the_growth_of_the_counter_is_the_number_of_zaps() {
    let (growth, counted, lost) = growth(false);
    assert!(growth > 0);
    assert_eq!(lost, 0);
    assert_eq!(growth, counted);
}

#[test]
fn failed_reports_are_missing_from_the_growth_of_the_counter() {
    let (growth, counted, lost) = growth(true);
    assert!(growth > 0 && lost > 0);
    assert_eq!(growth, counted - lost);
}

#[test]
fn every_message_is_kept_by_the_broker() {
    let (mut task, _) = MqttTask::new();
    task.step(&found());
    task.step(&MqttEvent::Done(true));
    for _ in 0..4 {
        match task.step(&MqttEvent::Done(true)) {
            Some(MqttAction::Publish(publication)) => assert!(publication.retain),
            other => panic!("{other:?}"),
        }
    }
    task.step(&MqttEvent::Done(true));
    match task.step(&MqttEvent::Heard(Heard::Zap(9))) {
        Some(MqttAction::Publish(publication)) => {
            assert!(publication.retain);
            assert_eq!(publication.topic.name(), "zappy/zap");
        }
        other => panic!("{other:?}"),
    }
}

#[test]
fn the_growth_of_the_counter_goes_on_over_a_reboot() {
    let mut values: Vec<u32> = Vec::new();
    for counts in [vec![1, 2, 5], vec![], vec![1], vec![2, 9]] {
        let (mut task, _) = MqttTask::new();
        connect(&mut task);
        values.push(0);
        for count in counts {
            assert_eq!(zap(&mut task, count, true), report(count));
            values.push(count);
        }
    }
    let mut before = 7;
    let mut growth = 0;
    for value in values {
        growth += if value >= before { value - before } else { value };
        before = value;
    }
    assert_eq!(growth, 5 + 1 + 9);
}
