//! The LED of the asynchronous firmware: it blinks while Wi-Fi is being waited for, and for a
//! while after every zap.
use crate::clock;
use crate::clock::TICKS_PER_SEC;
use crate::led;
use crate::led::{Board, LedOutput};
use vstd::prelude::*;

verus! {

/// How long the LED blinks after a zap, in seconds.
pub const ZAP_BLINK_SECS: u64 = 5;

/// How long each half of a zap blink lasts, in milliseconds.
pub const ZAP_BLINK_INTERVAL_MS: u64 = 100;

/// How long each half of a Wi-Fi blink lasts, in milliseconds.
pub const WIFI_BLINK_INTERVAL_MS: u64 = 500;

/// How long the LED blinks after a zap, in ticks.
pub open spec fn blink_ticks() -> int {
    ZAP_BLINK_SECS * TICKS_PER_SEC
}

/// What the task is waiting for.
#[derive(Clone, Copy, Debug, PartialEq, Eq, Structural)]
pub enum LedPhase {
    /// Whether Wi-Fi is up; `on` tells whether the LED is lit.
    Connecting {
        /// Whether the LED is lit.
        on: bool,
    },
    /// The end of half a Wi-Fi blink.
    ConnectingPause {
        /// Whether the LED is lit.
        on: bool,
    },
    /// A zap.
    Idle,
    /// The time, to tell whether the blinking is over.
    Timing {
        /// When the blinking ends.
        deadline: u64,
        /// Whether the LED is lit.
        on: bool,
    },
    /// Whether another zap has come.
    Polling {
        /// When the blinking ends.
        deadline: u64,
        /// Whether the LED is lit.
        on: bool,
    },
    /// The end of half a zap blink.
    BlinkingPause {
        /// When the blinking ends.
        deadline: u64,
        /// Whether the LED is lit.
        on: bool,
    },
}

/// What the task is told.
#[derive(Clone, Copy, Debug, PartialEq, Eq, Structural)]
pub enum LedEvent {
    /// Whether Wi-Fi is up.
    Wifi(bool),
    /// The pause is over.
    Woke,
    /// A zap has come; the time is read after it.
    Zap {
        /// The time.
        now: u64,
    },
    /// The time.
    Clock {
        /// The time.
        now: u64,
    },
    /// Whether another zap was waiting, with the time read after it.
    Polled(Option<u64>),
}

/// What the task asks for.
#[derive(Clone, Copy, Debug, PartialEq, Eq, Structural)]
pub enum LedAsk {
    /// Whether Wi-Fi is up.
    Wifi,
    /// A pause, in milliseconds.
    Sleep(u64),
    /// The next zap.
    NextZap,
    /// The time.
    Clock,
    /// A zap that is already waiting, if any.
    WaitingZap,
}

/// What the caller does next: it drives the LED if told to, then sees to what is asked for.
#[derive(Clone, Copy, Debug, PartialEq, Eq, Structural)]
pub struct LedAction {
    /// What the LED is driven with, if it changes.
    pub show: Option<LedOutput>,
    /// What is asked for.
    pub ask: LedAsk,
}

/// The task that drives the LED.
#[derive(Clone, Copy, Debug, PartialEq, Eq, Structural)]
pub struct LedTask {
    /// The board.
    pub board: Board,
    /// What the task is waiting for.
    pub phase: LedPhase,
}

impl LedTask {
    /// The task in another phase.
    pub open spec fn enter(self, phase: LedPhase) -> LedTask {
        LedTask { phase, ..self }
    }

    /// The task and its action after an event, or `None` if the task does not wait for such an
    /// event.
    pub open spec fn next(self, event: LedEvent) -> Option<(LedTask, LedAction)> {
        match (self.phase, event) {
            (LedPhase::Connecting { on }, LedEvent::Wifi(up)) => Some(
                if up {
                    self.rest()
                } else {
                    (
                        self.enter(LedPhase::ConnectingPause { on: !on }),
                        LedAction {
                            show: Some(led::wifi_light(self.board, !on)),
                            ask: LedAsk::Sleep(WIFI_BLINK_INTERVAL_MS),
                        },
                    )
                },
            ),
            (LedPhase::ConnectingPause { on }, LedEvent::Woke) => Some(
                (
                    self.enter(LedPhase::Connecting { on }),
                    LedAction { show: None, ask: LedAsk::Wifi },
                ),
            ),
            (LedPhase::Idle, LedEvent::Zap { now }) => Some(
                (
                    self.enter(
                        LedPhase::Timing { deadline: (now + blink_ticks()) as u64, on: false },
                    ),
                    LedAction { show: None, ask: LedAsk::Clock },
                ),
            ),
            (LedPhase::Timing { deadline, on }, LedEvent::Clock { now }) => Some(
                if now < deadline {
                    (
                        self.enter(LedPhase::Polling { deadline, on }),
                        LedAction { show: None, ask: LedAsk::WaitingZap },
                    )
                } else {
                    self.rest()
                },
            ),
            (LedPhase::Polling { deadline, on }, LedEvent::Polled(zap)) => Some(
                (
                    self.enter(
                        LedPhase::BlinkingPause {
                            deadline: match zap {
                                Some(now) => (now + blink_ticks()) as u64,
                                None => deadline,
                            },
                            on: !on,
                        },
                    ),
                    LedAction {
                        show: Some(led::zap_light(self.board, !on)),
                        ask: LedAsk::Sleep(ZAP_BLINK_INTERVAL_MS),
                    },
                ),
            ),
            (LedPhase::BlinkingPause { deadline, on }, LedEvent::Woke) => Some(
                (
                    self.enter(LedPhase::Timing { deadline, on }),
                    LedAction { show: None, ask: LedAsk::Clock },
                ),
            ),
            _ => None,
        }
    }

    /// Whether the end of a blink that an event starts or prolongs can be told in ticks.
    pub open spec fn deadline_fits(self, event: LedEvent) -> bool {
        match (self.phase, event) {
            (LedPhase::Idle, LedEvent::Zap { now }) => now + blink_ticks() <= u64::MAX,
            (LedPhase::Polling { .. }, LedEvent::Polled(Some(now))) => now + blink_ticks()
                <= u64::MAX,
            _ => true,
        }
    }

    /// Turning the LED off and waiting for a zap.
    pub open spec fn rest(self) -> (LedTask, LedAction) {
        (
            self.enter(LedPhase::Idle),
            LedAction {
                show: Some(led::zap_light(self.board, false)),
                ask: LedAsk::NextZap,
            },
        )
    }

    /// The task at start, and its first action.
    pub fn new(board: Board) -> (r: (LedTask, LedAction))
        ensures
            r.0 == (LedTask { board, phase: LedPhase::Connecting { on: false } }),
            r.1 == (LedAction { show: None, ask: LedAsk::Wifi }),
    {
        (
            LedTask { board, phase: LedPhase::Connecting { on: false } },
            LedAction { show: None, ask: LedAsk::Wifi },
        )
    }

    /// Takes note of an event and says what is done next. An event that the task does not wait
    /// for changes nothing.
    pub fn step(&mut self, event: LedEvent) -> (r: Option<LedAction>)
        requires
            old(self).deadline_fits(event),
        ensures
            match r {
                Some(action) => old(self).next(event) == Some((*final(self), action)),
                None => old(self).next(event) is None && *final(self) == *old(self),
            },
    {
        match (self.phase, event) {
            (LedPhase::Connecting { on }, LedEvent::Wifi(up)) => {
                if up {
                    return Some(self.turn_off());
                }
                self.phase = LedPhase::ConnectingPause { on: !on };
                let show = if !on {
                    led::led_set(self.board, 0, 0, 64)
                } else {
                    led::led_set(self.board, 0, 0, 0)
                };
                Some(LedAction { show: Some(show), ask: LedAsk::Sleep(WIFI_BLINK_INTERVAL_MS) })
            },
            (LedPhase::ConnectingPause { on }, LedEvent::Woke) => {
                self.phase = LedPhase::Connecting { on };
                Some(LedAction { show: None, ask: LedAsk::Wifi })
            },
            (LedPhase::Idle, LedEvent::Zap { now }) => {
                self.phase = LedPhase::Timing { deadline: blink_end(now), on: false };
                Some(LedAction { show: None, ask: LedAsk::Clock })
            },
            (LedPhase::Timing { deadline, on }, LedEvent::Clock { now }) => {
                if now < deadline {
                    self.phase = LedPhase::Polling { deadline, on };
                    Some(LedAction { show: None, ask: LedAsk::WaitingZap })
                } else {
                    Some(self.turn_off())
                }
            },
            (LedPhase::Polling { deadline, on }, LedEvent::Polled(zap)) => {
                let deadline: u64 = match zap {
                    Some(now) => blink_end(now),
                    None => deadline,
                };
                self.phase = LedPhase::BlinkingPause { deadline, on: !on };
                let show = if !on {
                    led::led_set(self.board, 64, 50, 0)
                } else {
                    led::led_set(self.board, 0, 0, 0)
                };
                Some(LedAction { show: Some(show), ask: LedAsk::Sleep(ZAP_BLINK_INTERVAL_MS) })
            },
            (LedPhase::BlinkingPause { deadline, on }, LedEvent::Woke) => {
                self.phase = LedPhase::Timing { deadline, on };
                Some(LedAction { show: None, ask: LedAsk::Clock })
            },
            _ => None,
        }
    }

    fn turn_off(&mut self) -> (r: LedAction)
        ensures
            (*final(self), r) == old(self).rest(),
    {
        self.phase = LedPhase::Idle;
        LedAction { show: Some(led::led_set(self.board, 0, 0, 0)), ask: LedAsk::NextZap }
    }
}

/// When a blink that starts at `now` ends.
pub fn blink_end(now: u64) -> (r: u64)
    requires
        now + blink_ticks() <= u64::MAX,
    ensures
        r == now + blink_ticks(),
        r == now + 5_000_000,
{
    clock::later(now, clock::ticks_of_secs(ZAP_BLINK_SECS))
}

/// What the LED shows in a phase.
pub open spec fn light(task: LedTask) -> LedOutput {
    match task.phase {
        LedPhase::Connecting { on } => led::wifi_light(task.board, on),
        LedPhase::ConnectingPause { on } => led::wifi_light(task.board, on),
        LedPhase::Idle => led::zap_light(task.board, false),
        LedPhase::Timing { deadline: _, on } => led::zap_light(task.board, on),
        LedPhase::Polling { deadline: _, on } => led::zap_light(task.board, on),
        LedPhase::BlinkingPause { deadline: _, on } => led::zap_light(task.board, on),
    }
}

/// What the LED shows after an action, if it showed `before`.
pub open spec fn light_after(before: LedOutput, action: LedAction) -> LedOutput {
    match action.show {
        Some(output) => output,
        None => before,
    }
}

/// What the LED shows after a run of events, if it showed `before`.
pub open spec fn light_after_run(
    before: LedOutput,
    task: LedTask,
    events: Seq<LedEvent>,
) -> LedOutput
    decreases events.len(),
{
    if events.len() == 0 {
        before
    } else {
        match task.next(events[0]) {
            Some(next) => light_after_run(
                light_after(before, next.1),
                next.0,
                events.drop_first(),
            ),
            None => light_after_run(before, task, events.drop_first()),
        }
    }
}

/// The task after a run of events.
pub open spec fn run(task: LedTask, events: Seq<LedEvent>) -> LedTask
    decreases events.len(),
{
    if events.len() == 0 {
        task
    } else {
        match task.next(events[0]) {
            Some(next) => run(next.0, events.drop_first()),
            None => run(task, events.drop_first()),
        }
    }
}

/// The LED always shows what the phase of the task says, over any run of events. In
/// particular it is dark whenever the task waits for a zap.
pub proof fn light_follows_phase(task: LedTask, events: Seq<LedEvent>)
    ensures
        light_after_run(light(task), task, events) == light(run(task, events)),
        run(task, events).phase is Idle ==> led::is_dark(
            light_after_run(light(task), task, events),
        ),
    decreases events.len(),
{
    if events.len() > 0 {
        match task.next(events[0]) {
            Some(next) => {
                assert(light_after(light(task), next.1) == light(next.0));
                light_follows_phase(next.0, events.drop_first());
            },
            None => {
                light_follows_phase(task, events.drop_first());
            },
        }
    }
}

/// Blinking is alternating: each half of a blink shows the opposite of the half before, and a
/// zap blink starts lit.
pub proof fn halves_alternate(task: LedTask, event: LedEvent)
    requires
        task.next(event) is Some,
        task.next(event)->Some_0.1.ask is Sleep,
    ensures
        task.next(event)->Some_0.1.show is Some,
        led::is_dark(task.next(event)->Some_0.1.show->Some_0) <==> !led::is_dark(light(task)),
{
}

/// After a zap the LED blinks until its time is up and no longer: whenever the clock is looked
/// at, the blinking goes on exactly if fewer than five seconds have passed since the last zap
/// that was noticed.
pub proof fn blinking_lasts_five_seconds(task: LedTask, zap: u64, now: u64)
    requires
        task.phase is Idle || task.phase is Polling,
        zap + 5 * TICKS_PER_SEC <= u64::MAX,
    ensures
        ({
            let seen = if task.phase is Idle {
                task.next(LedEvent::Zap { now: zap })->Some_0.0
            } else {
                let pause = task.next(LedEvent::Polled(Some(zap)))->Some_0.0;
                pause.next(LedEvent::Woke)->Some_0.0
            };
            let looked = seen.next(LedEvent::Clock { now })->Some_0.0;
            &&& now < zap + 5 * TICKS_PER_SEC <==> looked.phase is Polling
            &&& now >= zap + 5 * TICKS_PER_SEC <==> looked.phase is Idle
        }),
{
}

/// Without another zap the end of the blinking stays where it is.
pub proof fn deadline_stays_without_zaps(deadline: u64, on: bool, board: Board)
    ensures
        ({
            let task = LedTask { board, phase: LedPhase::Polling { deadline, on } };
            let pause = task.next(LedEvent::Polled(None))->Some_0.0;
            pause.next(LedEvent::Woke)->Some_0.0.phase == (LedPhase::Timing { deadline, on: !on })
        }),
{
}

/// Whether an event takes a task to a phase, on the same board, with this request.
pub open spec fn asks(task: LedTask, event: LedEvent, phase: LedPhase, ask: LedAsk) -> bool {
    &&& task.next(event) is Some
    &&& task.next(event)->Some_0.0.board == task.board
    &&& task.next(event)->Some_0.0.phase == phase
    &&& task.next(event)->Some_0.1.ask == ask
}

/// Until Wi-Fi is up the LED changes over every half second, between blue and dark. Once it is
/// up, the LED goes dark and zaps are waited for.
pub proof fn waiting_for_wifi_blinks_blue(task: LedTask, on: bool)
    ensures
        task.phase == (LedPhase::Connecting { on }) ==> {
            let blink = task.next(LedEvent::Wifi(false))->Some_0.1;
            let ready = task.next(LedEvent::Wifi(true))->Some_0.1;
            let half = LedPhase::ConnectingPause { on: !on };
            &&& asks(task, LedEvent::Wifi(false), half, LedAsk::Sleep(500))
            &&& blink.show == Some(
                if on {
                    led::shown(task.board, 0, 0, 0)
                } else {
                    led::shown(task.board, 0, 0, 64)
                },
            )
            &&& asks(task, LedEvent::Wifi(true), LedPhase::Idle, LedAsk::NextZap)
            &&& ready.show == Some(led::shown(task.board, 0, 0, 0))
        },
        task.phase == (LedPhase::ConnectingPause { on }) ==> {
            &&& asks(task, LedEvent::Woke, (LedPhase::Connecting { on }), LedAsk::Wifi)
            &&& task.next(LedEvent::Woke)->Some_0.1.show is None
        },
{
}

/// A zap sets the end of the blinking five seconds ahead, and so does every zap that is noticed
/// while the LED blinks. One that is not there leaves the end where it is.
pub proof fn zaps_set_the_end_of_the_blinking(task: LedTask, deadline: u64, on: bool, now: u64)
    requires
        now + 5_000_000 <= u64::MAX,
    ensures
        ({
            let end = (now + 5_000_000) as u64;
            let begun = LedPhase::Timing { deadline: end, on: false };
            let prolonged = LedPhase::BlinkingPause { deadline: end, on: !on };
            let kept = LedPhase::BlinkingPause { deadline, on: !on };
            &&& task.phase is Idle ==> {
                &&& asks(task, (LedEvent::Zap { now }), begun, LedAsk::Clock)
                &&& task.next(LedEvent::Zap { now })->Some_0.1.show is None
            }
            &&& task.phase == (LedPhase::Polling { deadline, on }) ==> {
                &&& asks(task, LedEvent::Polled(Some(now)), prolonged, LedAsk::Sleep(100))
                &&& asks(task, LedEvent::Polled(None), kept, LedAsk::Sleep(100))
            }
        }),
{
}

/// While the LED blinks it changes over every tenth of a second, between yellow and dark, whether
/// another zap came or not.
pub proof fn blinking_changes_over(task: LedTask, deadline: u64, on: bool, zap: Option<u64>)
    requires
        task.phase == (LedPhase::Polling { deadline, on }),
    ensures
        task.next(LedEvent::Polled(zap)) is Some,
        task.next(LedEvent::Polled(zap))->Some_0.1.show == Some(
            if on {
                led::shown(task.board, 0, 0, 0)
            } else {
                led::shown(task.board, 64, 50, 0)
            },
        ),
{
}

/// A look at the clock changes nothing while there is time left: the blinking goes on to the same
/// end. When the time is up the LED goes dark and the next zap is waited for.
pub proof fn clock_only_ends_the_blinking(task: LedTask, deadline: u64, on: bool, now: u64)
    ensures
        task.phase == (LedPhase::Timing { deadline, on }) ==> {
            let looked = task.next(LedEvent::Clock { now })->Some_0.1;
            let going = LedPhase::Polling { deadline, on };
            &&& now < deadline ==> {
                &&& asks(task, (LedEvent::Clock { now }), going, LedAsk::WaitingZap)
                &&& looked.show is None
            }
            &&& now >= deadline ==> {
                &&& asks(task, (LedEvent::Clock { now }), LedPhase::Idle, LedAsk::NextZap)
                &&& looked.show == Some(led::shown(task.board, 0, 0, 0))
            }
        },
        task.phase == (LedPhase::BlinkingPause { deadline, on }) ==> {
            &&& asks(task, LedEvent::Woke, (LedPhase::Timing { deadline, on }), LedAsk::Clock)
            &&& task.next(LedEvent::Woke)->Some_0.1.show is None
        },
{
}

/// No event but the answer to what the task asked for is heeded.
pub proof fn only_answers_are_heeded(task: LedTask, event: LedEvent)
    ensures
        task.phase is Connecting ==> (task.next(event) is Some <==> event is Wifi),
        task.phase is ConnectingPause || task.phase is BlinkingPause ==> (task.next(event) is Some
            <==> event is Woke),
        task.phase is Idle ==> (task.next(event) is Some <==> event is Zap),
        task.phase is Timing ==> (task.next(event) is Some <==> event is Clock),
        task.phase is Polling ==> (task.next(event) is Some <==> event is Polled),
{
}

/// When the blinking ends, if there is any.
pub open spec fn end_of_blinking(task: LedTask) -> Option<u64> {
    match task.phase {
        LedPhase::Timing { deadline, on: _ } => Some(deadline),
        LedPhase::Polling { deadline, on: _ } => Some(deadline),
        LedPhase::BlinkingPause { deadline, on: _ } => Some(deadline),
        _ => None,
    }
}

/// Whether no other zap is noticed in a run of events, and the clock stays below a time.
pub open spec fn uneventful(events: Seq<LedEvent>, end: int) -> bool {
    forall|i: int|
        0 <= i < events.len() ==> {
            &&& #[trigger] events[i] is Polled ==> events[i]->Polled_0 is None
            &&& events[i] is Clock ==> events[i]->Clock_now < end
        }
}

/// A task that blinks goes on blinking to the same end over any run of events in which no other
/// zap is noticed and the clock does not reach that end.
proof fn blinking_goes_on(task: LedTask, events: Seq<LedEvent>)
    requires
        end_of_blinking(task) is Some,
        uneventful(events, end_of_blinking(task)->Some_0 as int),
    ensures
        end_of_blinking(run(task, events)) == end_of_blinking(task),
    decreases events.len(),
{
    if events.len() > 0 {
        let rest = events.drop_first();
        assert(events[0] is Polled ==> events[0]->Polled_0 is None);
        assert(uneventful(rest, end_of_blinking(task)->Some_0 as int)) by {
            assert forall|i: int| 0 <= i < rest.len() implies ({
                &&& #[trigger] rest[i] is Polled ==> rest[i]->Polled_0 is None
                &&& rest[i] is Clock ==> rest[i]->Clock_now < end_of_blinking(task)->Some_0
            }) by {
                assert(rest[i] == events[i + 1]);
            }
        }
        match task.next(events[0]) {
            Some(next) => {
                assert(end_of_blinking(next.0) == end_of_blinking(task));
                blinking_goes_on(next.0, rest);
            },
            None => {
                blinking_goes_on(task, rest);
            },
        }
    }
}

/// After a zap the LED blinks for five seconds from it, however often the clock is looked at in
/// between: as long as no other zap is noticed and the clock is below the end, the task is
/// blinking, and the look that is made then ends the blinking exactly if five seconds have passed.
pub proof fn one_zap_blinks_for_five_seconds(
    task: LedTask,
    zap: u64,
    events: Seq<LedEvent>,
    now: u64,
)
    requires
        task.phase is Idle,
        zap + 5_000_000 <= u64::MAX,
        uneventful(events, zap + 5_000_000),
    ensures
        ({
            let later = run(task, seq![LedEvent::Zap { now: zap }] + events);
            let looked = later.next(LedEvent::Clock { now })->Some_0.0;
            &&& later.phase is Timing || later.phase is Polling || later.phase is BlinkingPause
            &&& end_of_blinking(later) == Some((zap + 5_000_000) as u64)
            &&& later.phase is Timing ==> {
                &&& looked.phase is Polling <==> now < zap + 5_000_000
                &&& looked.phase is Idle <==> now >= zap + 5_000_000
            }
        }),
{
    let all = seq![LedEvent::Zap { now: zap }] + events;
    assert(all.drop_first() =~= events);
    let begun = task.next(LedEvent::Zap { now: zap })->Some_0.0;
    blinking_goes_on(begun, events);
}

} // verus!
