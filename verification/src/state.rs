//! What the tasks of the threaded firmware share, and what they do with it. Times are in
//! nanoseconds: time stamps since the epoch, all others since start.
use crate::led;
use crate::led::{Board, LedOutput};
use vstd::prelude::*;

verus! {

/// How long the LED blinks after a zap, in nanoseconds.
pub const ZAP_BLINK_NANOS: u64 = 5_000_000_000;

/// How long each half of a zap blink lasts, in milliseconds.
pub const ZAP_BLINK_INTERVAL_MS: u64 = 100;

/// How long each half of a Wi-Fi blink lasts, in milliseconds.
pub const BLINK_INTERVAL_MS: u64 = 500;

/// How long the LED loop pauses when there is nothing to show, in milliseconds.
pub const REST_MS: u64 = 50;

/// How long the contact may bounce after a zap, in milliseconds.
pub const DEBOUNCE_MS: u64 = 100;

/// How long the zap task pauses between two looks at the flag, in milliseconds.
pub const ZAP_POLL_MS: u64 = 10;

/// What the tasks share.
#[derive(Debug, PartialEq, Eq)]
pub struct State {
    /// Whether Wi-Fi has come up.
    pub wifi_ready: bool,
    /// Whether a zap has come that the zap task has not seen to. Set by the interrupt, cleared
    /// by the zap task.
    pub zap_flag: bool,
    /// When each zap was seen to.
    pub zap_times: Vec<u64>,
    /// Until when the LED blinks, if there was a zap.
    pub zap_blink_until: Option<u64>,
}

/// What the zap task does next.
#[derive(Clone, Copy, Debug, PartialEq, Eq, Structural)]
pub enum ZapStep {
    /// Wait until Wi-Fi has come up.
    AwaitWifi,
    /// Pause, in milliseconds.
    Sleep(u64),
    /// Let the interrupt come again.
    ReArm,
    /// Send the telemetry of a zap.
    SendZap,
}

/// What the LED loop does next: it drives the LED if told to, then pauses.
#[derive(Clone, Copy, Debug, PartialEq, Eq, Structural)]
pub struct LoopStep {
    /// What the LED is driven with, if it changes.
    pub show: Option<LedOutput>,
    /// The pause, in milliseconds.
    pub sleep_ms: u64,
}

/// What the interrupt does to the state.
pub open spec fn zap_marked(before: State, after: State) -> bool {
    &&& after.zap_flag
    &&& after.wifi_ready == before.wifi_ready
    &&& after.zap_times == before.zap_times
    &&& after.zap_blink_until == before.zap_blink_until
}

/// What Wi-Fi coming up does to the state.
pub open spec fn wifi_marked(before: State, after: State) -> bool {
    &&& after.wifi_ready
    &&& after.zap_flag == before.zap_flag
    &&& after.zap_times == before.zap_times
    &&& after.zap_blink_until == before.zap_blink_until
}

/// What a look at the flag does to the state, and what comes of it.
pub open spec fn zap_looked_for(
    before: State,
    stamp: u64,
    now: u64,
    after: State,
    zap: Option<usize>,
) -> bool {
    &&& after.wifi_ready == before.wifi_ready
    &&& if before.wifi_ready && before.zap_flag {
        &&& zap == Some((before.zap_times@.len() + 1) as usize)
        &&& !after.zap_flag
        &&& after.zap_times@ == before.zap_times@.push(stamp)
        &&& after.zap_blink_until == Some((now + ZAP_BLINK_NANOS) as u64)
    } else {
        zap is None && after == before
    }
}

/// Whether the LED is lit after a round of the LED loop, and what the loop does next, if it was
/// lit or not before and blinks or not now.
pub open spec fn loop_round(board: Board, blinking: bool, lit: bool) -> (bool, LoopStep) {
    if blinking {
        (
            !lit,
            LoopStep {
                show: Some(led::zap_light(board, !lit)),
                sleep_ms: ZAP_BLINK_INTERVAL_MS,
            },
        )
    } else if lit {
        (false, LoopStep { show: Some(led::zap_light(board, false)), sleep_ms: 0 })
    } else {
        (false, LoopStep { show: None, sleep_ms: REST_MS })
    }
}

/// What the zap task does after a look at the flag.
pub open spec fn zap_steps(wifi_ready: bool, zap: bool) -> Seq<ZapStep> {
    if !wifi_ready {
        seq![ZapStep::AwaitWifi]
    } else if zap {
        seq![
            ZapStep::Sleep(DEBOUNCE_MS),
            ZapStep::ReArm,
            ZapStep::SendZap,
            ZapStep::Sleep(ZAP_POLL_MS),
        ]
    } else {
        seq![ZapStep::Sleep(ZAP_POLL_MS)]
    }
}

impl State {
    /// Whether the LED blinks at a time.
    pub open spec fn blinking(self, now: u64) -> bool {
        self.zap_blink_until is Some && now < self.zap_blink_until->Some_0
    }

    /// Nothing has happened yet.
    pub fn new() -> (r: State)
        ensures
            !r.wifi_ready,
            !r.zap_flag,
            r.zap_times@.len() == 0,
            r.zap_blink_until is None,
    {
        State { wifi_ready: false, zap_flag: false, zap_times: Vec::new(), zap_blink_until: None }
    }

    /// The interrupt: a zap has come.
    pub fn mark_zap(&mut self)
        ensures
            zap_marked(*old(self), *final(self)),
            final(self).zap_flag,
            final(self).wifi_ready == old(self).wifi_ready,
            final(self).zap_times@ == old(self).zap_times@,
            final(self).zap_blink_until == old(self).zap_blink_until,
    {
        self.zap_flag = true;
    }

    /// Wi-Fi has come up.
    pub fn mark_wifi_ready(&mut self)
        ensures
            wifi_marked(*old(self), *final(self)),
            final(self).wifi_ready,
            final(self).zap_flag == old(self).zap_flag,
            final(self).zap_times@ == old(self).zap_times@,
            final(self).zap_blink_until == old(self).zap_blink_until,
    {
        self.wifi_ready = true;
    }

    /// Whether the next look of the zap task finds a zap, so that its time stamp is needed.
    pub fn zap_due(&self) -> (r: bool)
        ensures
            r == (self.wifi_ready && self.zap_flag),
    {
        self.wifi_ready && self.zap_flag
    }

    /// One look of the zap task at the flag, which it clears. If there was a zap, it is noted
    /// with its time stamp, the LED blinks for five seconds from `now`, and the number of zaps
    /// so far is returned. Nothing is looked at before Wi-Fi has come up.
    pub fn zap_task(&mut self, stamp: u64, now: u64) -> (r: Option<usize>)
        requires
            old(self).wifi_ready && old(self).zap_flag ==> now + ZAP_BLINK_NANOS <= u64::MAX
                && old(self).zap_times@.len() < usize::MAX,
        ensures
            zap_looked_for(*old(self), stamp, now, *final(self), r),
            r is Some <==> old(self).wifi_ready && old(self).zap_flag,
            r is Some ==> r->Some_0 == old(self).zap_times@.len() + 1 && !final(self).zap_flag
                && final(self).zap_times@ == old(self).zap_times@.push(stamp)
                && final(self).zap_blink_until is Some && final(self).zap_blink_until->Some_0 == now
                + 5_000_000_000,
            r is None ==> *final(self) == *old(self),
            final(self).wifi_ready == old(self).wifi_ready,
    {
        if !self.zap_due() {
            return None;
        }
        self.zap_flag = false;
        let count: usize = self.zap_times.len() + 1;
        self.zap_times.push(stamp);
        self.zap_blink_until = Some(now + ZAP_BLINK_NANOS);
        Some(count)
    }

    /// What the zap task does after a look at the flag that gave `zap`. After a zap it waits for
    /// the contact to settle and lets the interrupt come again before it sends anything.
    pub fn zap_plan(&self, zap: Option<usize>) -> (r: Vec<ZapStep>)
        ensures
            r@ == zap_steps(self.wifi_ready, zap is Some),
            !self.wifi_ready ==> r@ == seq![ZapStep::AwaitWifi],
            self.wifi_ready && zap is None ==> r@ == seq![ZapStep::Sleep(10)],
            self.wifi_ready && zap is Some ==> r@ == seq![
                ZapStep::Sleep(100),
                ZapStep::ReArm,
                ZapStep::SendZap,
                ZapStep::Sleep(10),
            ],
    {
        let mut steps: Vec<ZapStep> = Vec::new();
        if !self.wifi_ready {
            steps.push(ZapStep::AwaitWifi);
            return steps;
        }
        if zap.is_some() {
            steps.push(ZapStep::Sleep(DEBOUNCE_MS));
            steps.push(ZapStep::ReArm);
            steps.push(ZapStep::SendZap);
        }
        steps.push(ZapStep::Sleep(ZAP_POLL_MS));
        steps
    }

    /// One half of a zap blink: while the LED blinks, `zap_blink_state` changes over and what the
    /// LED is driven with is returned. When the blinking is over, `zap_blink_state` is false.
    pub fn tick_zap_blink(&self, board: Board, now: u64, zap_blink_state: &mut bool) -> (r: Option<
        LedOutput,
    >)
        ensures
            if self.blinking(now) {
                &&& *final(zap_blink_state) == !*old(zap_blink_state)
                &&& r == Some(led::zap_light(board, *final(zap_blink_state)))
            } else {
                !*final(zap_blink_state) && r is None
            },
            r is Some <==> self.zap_blink_until is Some && now < self.zap_blink_until->Some_0,
            r is Some ==> (led::is_dark(r->Some_0) <==> *old(zap_blink_state)),
    {
        match self.zap_blink_until {
            Some(until) if now < until => {
                *zap_blink_state = !*zap_blink_state;
                Some(led::set_led(board, *zap_blink_state))
            },
            _ => {
                *zap_blink_state = false;
                None
            },
        }
    }

    /// One round of the LED loop once Wi-Fi is up: it blinks after a zap, turns the LED off when
    /// that is over, and pauses otherwise.
    pub fn led_loop(&self, board: Board, now: u64, zap_blink_state: &mut bool) -> (r: LoopStep)
        ensures
            (*final(zap_blink_state), r) == loop_round(
                board,
                self.blinking(now),
                *old(zap_blink_state),
            ),
            ({
                let blinking = self.zap_blink_until is Some && now
                    < self.zap_blink_until->Some_0;
                let was_lit = *old(zap_blink_state);
                &&& *final(zap_blink_state) == (blinking && !was_lit)
                &&& r.show is Some <==> blinking || was_lit
                &&& r.show is Some ==> (led::is_dark(r.show->Some_0) <==> was_lit)
                &&& r.sleep_ms == (if blinking {
                    100
                } else if was_lit {
                    0
                } else {
                    50int
                })
            }),
    {
        let was_blinking = *zap_blink_state;
        match self.tick_zap_blink(board, now, zap_blink_state) {
            Some(output) => LoopStep { show: Some(output), sleep_ms: ZAP_BLINK_INTERVAL_MS },
            None => if was_blinking {
                LoopStep { show: Some(led::set_led(board, false)), sleep_ms: 0 }
            } else {
                LoopStep { show: None, sleep_ms: REST_MS }
            },
        }
    }

    /// One round of the LED loop before Wi-Fi is up, after half a blink has passed: the LED
    /// changes over, or is turned off for good if Wi-Fi has come up. Tells what the LED is driven
    /// with, and whether Wi-Fi is up.
    pub fn wifi_wait(&self, board: Board, wifi_blink_state: &mut bool) -> (r: (LedOutput, bool))
        ensures
            r.1 == self.wifi_ready,
            if self.wifi_ready {
                *final(wifi_blink_state) == *old(wifi_blink_state) && r.0 == led::zap_light(
                    board,
                    false,
                )
            } else {
                &&& *final(wifi_blink_state) == !*old(wifi_blink_state)
                &&& r.0 == led::wifi_light(board, !*old(wifi_blink_state))
            },
    {
        if self.wifi_ready {
            return (led::set_led(board, false), true);
        }
        *wifi_blink_state = !*wifi_blink_state;
        (led::set_led_wifi(board, *wifi_blink_state), false)
    }
}

/// A zap is reported once, however often the contact bounced before it was looked for: the look
/// after it finds nothing.
pub proof fn zap_is_reported_once(
    bounced: State,
    marked: State,
    stamp: u64,
    now: u64,
    looked: State,
    zap: Option<usize>,
    later_stamp: u64,
    later_now: u64,
    looked_again: State,
    zap_again: Option<usize>,
)
    requires
        bounced.wifi_ready,
        zap_marked(bounced, marked),
        zap_looked_for(marked, stamp, now, looked, zap),
        zap_looked_for(looked, later_stamp, later_now, looked_again, zap_again),
    ensures
        zap is Some,
        zap_again is None,
        looked_again == looked,
{
}

/// A zap that comes before Wi-Fi is up waits for it and is then reported.
pub proof fn zap_waits_for_wifi(
    marked: State,
    stamp: u64,
    now: u64,
    looked: State,
    zap: Option<usize>,
    ready: State,
    later_stamp: u64,
    later_now: u64,
    looked_again: State,
    zap_again: Option<usize>,
)
    requires
        !marked.wifi_ready,
        marked.zap_flag,
        zap_looked_for(marked, stamp, now, looked, zap),
        wifi_marked(looked, ready),
        zap_looked_for(ready, later_stamp, later_now, looked_again, zap_again),
    ensures
        zap is None,
        zap_again is Some,
{
}

/// The reported number is the number of zaps noted so far, and earlier time stamps stay.
pub proof fn reported_number_counts_time_stamps(
    before: State,
    stamp: u64,
    now: u64,
    after: State,
    zap: Option<usize>,
)
    requires
        before.zap_times@.len() < usize::MAX,
        zap_looked_for(before, stamp, now, after, zap),
    ensures
        zap is Some ==> zap->Some_0 == after.zap_times@.len() && after.zap_times@.last() == stamp,
        before.zap_times@.is_prefix_of(after.zap_times@),
{
}

/// After a zap the LED blinks for five seconds.
pub proof fn zap_makes_the_led_blink(
    before: State,
    stamp: u64,
    now: u64,
    after: State,
    zap: Option<usize>,
    later: u64,
)
    requires
        now + ZAP_BLINK_NANOS <= u64::MAX,
        zap_looked_for(before, stamp, now, after, zap),
        zap is Some,
    ensures
        after.blinking(later) <==> later < now + 5_000_000_000,
{
}

/// Whenever something is sent, the contact has had time to settle and then the interrupt has
/// been let in again.
pub proof fn interrupt_is_rearmed_before_sending(wifi_ready: bool, zap: bool, i: int)
    requires
        0 <= i < zap_steps(wifi_ready, zap).len(),
        zap_steps(wifi_ready, zap)[i] == ZapStep::SendZap,
    ensures
        i >= 2,
        zap_steps(wifi_ready, zap)[i - 1] == ZapStep::ReArm,
        zap_steps(wifi_ready, zap)[i - 2] == ZapStep::Sleep(DEBOUNCE_MS),
{
}

/// What can happen to the zap task's part of the state.
pub enum ZapMoment {
    /// The interrupt comes.
    Interrupt,
    /// Wi-Fi comes up.
    WifiUp,
    /// The zap task looks at the flag, with the time stamp and the time at which it does.
    Look(u64, u64),
}

/// What a moment does to the state, and what the zap task finds in it.
pub open spec fn moment_passed(
    before: State,
    moment: ZapMoment,
    after: State,
    zap: Option<usize>,
) -> bool {
    match moment {
        ZapMoment::Interrupt => zap is None && zap_marked(before, after),
        ZapMoment::WifiUp => zap is None && wifi_marked(before, after),
        ZapMoment::Look(stamp, now) => zap_looked_for(before, stamp, now, after, zap),
    }
}

/// Whether the `i`th moment of a run does to the state what it should.
pub open spec fn passed_at(
    states: Seq<State>,
    moments: Seq<ZapMoment>,
    zaps: Seq<Option<usize>>,
    i: int,
) -> bool {
    moment_passed(states[i], moments[i], states[i + 1], zaps[i])
}

/// Whether the state goes through `states` in a run of moments, and the zap task finds `zaps`.
pub open spec fn zap_run(
    states: Seq<State>,
    moments: Seq<ZapMoment>,
    zaps: Seq<Option<usize>>,
) -> bool {
    &&& states.len() == moments.len() + 1
    &&& zaps.len() == moments.len()
    &&& forall|i: int| 0 <= i < moments.len() ==> #[trigger] passed_at(states, moments, zaps, i)
}

/// The time stamps of the looks that are due to find a zap: those with Wi-Fi up that come after
/// an interrupt which no such look came after yet.
pub open spec fn due(wifi: bool, flag: bool, moments: Seq<ZapMoment>) -> Seq<u64>
    decreases moments.len(),
{
    if moments.len() == 0 {
        Seq::empty()
    } else {
        let rest = moments.drop_first();
        match moments[0] {
            ZapMoment::Interrupt => due(wifi, true, rest),
            ZapMoment::WifiUp => due(true, flag, rest),
            ZapMoment::Look(stamp, _) => if wifi && flag {
                seq![stamp] + due(wifi, false, rest)
            } else {
                due(wifi, flag, rest)
            },
        }
    }
}

/// How many looks found a zap.
pub open spec fn found(zaps: Seq<Option<usize>>) -> nat
    decreases zaps.len(),
{
    if zaps.len() == 0 {
        0
    } else {
        (if zaps[0] is Some {
            1nat
        } else {
            0nat
        }) + found(zaps.drop_first())
    }
}

/// What the zap task does in a moment after which the state is `after`, if it finds `zap`.
pub open spec fn moment_plan(moment: ZapMoment, after: State, zap: Option<usize>) -> Seq<ZapStep> {
    match moment {
        ZapMoment::Look(_, _) => zap_steps(after.wifi_ready, zap is Some),
        _ => Seq::empty(),
    }
}

/// Everything that the zap task does in a run of moments, in its order.
pub open spec fn steps_taken(
    states: Seq<State>,
    moments: Seq<ZapMoment>,
    zaps: Seq<Option<usize>>,
) -> Seq<ZapStep>
    decreases moments.len(),
{
    if moments.len() == 0 {
        Seq::empty()
    } else {
        moment_plan(moments[0], states[1], zaps[0]) + steps_taken(
            states.drop_first(),
            moments.drop_first(),
            zaps.drop_first(),
        )
    }
}

/// How often a step is taken.
pub open spec fn times_taken(step: ZapStep, steps: Seq<ZapStep>) -> nat
    decreases steps.len(),
{
    if steps.len() == 0 {
        0
    } else {
        (if steps[0] == step {
            1nat
        } else {
            0nat
        }) + times_taken(step, steps.drop_first())
    }
}

/// A run without its first moment is a run.
proof fn run_goes_on(states: Seq<State>, moments: Seq<ZapMoment>, zaps: Seq<Option<usize>>)
    requires
        zap_run(states, moments, zaps),
        moments.len() > 0,
    ensures
        zap_run(states.drop_first(), moments.drop_first(), zaps.drop_first()),
{
    let states_left = states.drop_first();
    let moments_left = moments.drop_first();
    let zaps_left = zaps.drop_first();
    assert forall|i: int| 0 <= i < moments_left.len() implies #[trigger] passed_at(
        states_left,
        moments_left,
        zaps_left,
        i,
    ) by {
        assert(passed_at(states, moments, zaps, i + 1));
    }
}

/// Steps are counted part by part.
proof fn times_add_up(step: ZapStep, first: Seq<ZapStep>, second: Seq<ZapStep>)
    ensures
        times_taken(step, first + second) == times_taken(step, first) + times_taken(step, second),
    decreases first.len(),
{
    if first.len() == 0 {
        assert(first + second =~= second);
    } else {
        times_add_up(step, first.drop_first(), second);
        assert((first + second).drop_first() =~= first.drop_first() + second);
    }
}

/// After one look the interrupt is let in, and telemetry sent, once if it found a zap and not at
/// all otherwise.
proof fn times_after_a_look(wifi_ready: bool, zap: bool)
    requires
        zap ==> wifi_ready,
    ensures
        times_taken(ZapStep::ReArm, zap_steps(wifi_ready, zap)) == (if zap {
            1nat
        } else {
            0nat
        }),
        times_taken(ZapStep::SendZap, zap_steps(wifi_ready, zap)) == (if zap {
            1nat
        } else {
            0nat
        }),
{
    reveal_with_fuel(times_taken, 5);
}

/// Every zap is noted, let in again and sent once, over any run of interrupts and looks. The time
/// stamps grow by those of the looks that found a zap: the ones that come, with Wi-Fi up, after an
/// interrupt since the last such look. So several interrupts before one look are one zap, and an
/// interrupt after a look is left to the next. As often as a zap was found the interrupt was let
/// in again and telemetry was sent.
pub proof fn zaps_add_up(states: Seq<State>, moments: Seq<ZapMoment>, zaps: Seq<Option<usize>>)
    requires
        zap_run(states, moments, zaps),
    ensures
        ({
            let stamps = due(states[0].wifi_ready, states[0].zap_flag, moments);
            let steps = steps_taken(states, moments, zaps);
            &&& states.last().zap_times@ == states[0].zap_times@ + stamps
            &&& found(zaps) == stamps.len()
            &&& times_taken(ZapStep::ReArm, steps) == stamps.len()
            &&& times_taken(ZapStep::SendZap, steps) == stamps.len()
        }),
    decreases moments.len(),
{
    if moments.len() > 0 {
        let states_left = states.drop_first();
        let moments_left = moments.drop_first();
        let zaps_left = zaps.drop_first();
        assert(passed_at(states, moments, zaps, 0));
        run_goes_on(states, moments, zaps);
        zaps_add_up(states_left, moments_left, zaps_left);
        let plan = moment_plan(moments[0], states[1], zaps[0]);
        let rest = steps_taken(states_left, moments_left, zaps_left);
        times_add_up(ZapStep::ReArm, plan, rest);
        times_add_up(ZapStep::SendZap, plan, rest);
        if moments[0] is Look {
            times_after_a_look(states[1].wifi_ready, zaps[0] is Some);
        }
    }
}

/// The order of things holds over any run: whenever telemetry is sent, the interrupt was let in
/// just before, and before that the contact was given a tenth of a second to settle.
pub proof fn zaps_are_sent_in_order(
    states: Seq<State>,
    moments: Seq<ZapMoment>,
    zaps: Seq<Option<usize>>,
    i: int,
)
    requires
        zap_run(states, moments, zaps),
        0 <= i < steps_taken(states, moments, zaps).len(),
        steps_taken(states, moments, zaps)[i] == ZapStep::SendZap,
    ensures
        i >= 2,
        steps_taken(states, moments, zaps)[i - 1] == ZapStep::ReArm,
        steps_taken(states, moments, zaps)[i - 2] == ZapStep::Sleep(100),
    decreases moments.len(),
{
    let states_left = states.drop_first();
    let moments_left = moments.drop_first();
    let zaps_left = zaps.drop_first();
    let plan = moment_plan(moments[0], states[1], zaps[0]);
    if i >= plan.len() {
        run_goes_on(states, moments, zaps);
        zaps_are_sent_in_order(states_left, moments_left, zaps_left, i - plan.len());
    }
}

/// Whether the LED is lit after rounds of the LED loop that find it blinking or not.
pub open spec fn lit_after(board: Board, lit: bool, rounds: Seq<bool>) -> bool
    decreases rounds.len(),
{
    if rounds.len() == 0 {
        lit
    } else {
        lit_after(board, loop_round(board, rounds[0], lit).0, rounds.drop_first())
    }
}

/// What the LED shows after rounds of the LED loop, if it showed `light` before.
pub open spec fn light_after(
    board: Board,
    lit: bool,
    light: LedOutput,
    rounds: Seq<bool>,
) -> LedOutput
    decreases rounds.len(),
{
    if rounds.len() == 0 {
        light
    } else {
        let round = loop_round(board, rounds[0], lit);
        let shown = match round.1.show {
            Some(output) => output,
            None => light,
        };
        light_after(board, round.0, shown, rounds.drop_first())
    }
}

/// The LED shows what the loop takes it to show, over any number of rounds, and it is dark
/// whenever the loop rests.
pub proof fn light_follows_the_loop(board: Board, lit: bool, rounds: Seq<bool>, blinking: bool)
    ensures
        ({
            let light = light_after(board, lit, led::zap_light(board, lit), rounds);
            &&& light == led::zap_light(board, lit_after(board, lit, rounds))
            &&& loop_round(board, blinking, lit_after(board, lit, rounds)).1.show is None
                ==> led::is_dark(light)
        }),
    decreases rounds.len(),
{
    if rounds.len() > 0 {
        light_follows_the_loop(
            board,
            loop_round(board, rounds[0], lit).0,
            rounds.drop_first(),
            blinking,
        );
    }
}

/// The LED blinks at a time exactly if that time comes before the end that was set, and never
/// before one was set.
pub proof fn blinking_ends_when_set(state: State, end: u64, now: u64)
    ensures
        state.zap_blink_until is None ==> !state.blinking(now),
        state.zap_blink_until == Some(end) ==> (state.blinking(now) <==> now < end),
{
}

/// A round of the LED loop that finds the LED blinking changes it over and shows that, for a tenth
/// of a second: lit after dark, in yellow, and dark after lit.
pub proof fn blinking_round_changes_over(board: Board, lit: bool)
    ensures
        ({
            let round = loop_round(board, true, lit);
            &&& round.0 != lit
            &&& round.1.show is Some
            &&& led::is_dark(round.1.show->Some_0) <==> lit
            &&& !lit ==> round.1.show->Some_0 == led::shown(board, 64, 50, 0)
            &&& round.1.sleep_ms == 100
        }),
{
}

/// A round that finds the blinking over leaves the LED dark. It turns it off at once if it was
/// lit, and else rests for a twentieth of a second without touching it.
pub proof fn idle_round_leaves_the_led_dark(board: Board, lit: bool)
    ensures
        ({
            let round = loop_round(board, false, lit);
            &&& !round.0
            &&& lit ==> round.1.show == Some(led::shown(board, 0, 0, 0)) && round.1.sleep_ms == 0
            &&& !lit ==> round.1.show is None && round.1.sleep_ms == 50
        }),
{
}

/// Over any number of rounds that all find the LED blinking, it is lit after every other one: from
/// dark, after an odd number of them.
pub proof fn blinking_rounds_alternate(board: Board, lit: bool, rounds: Seq<bool>)
    requires
        forall|i: int| 0 <= i < rounds.len() ==> #[trigger] rounds[i],
    ensures
        lit_after(board, lit, rounds) == (if rounds.len() % 2 == 0 {
            lit
        } else {
            !lit
        }),
        led::is_dark(light_after(board, lit, led::zap_light(board, lit), rounds)) == !lit_after(
            board,
            lit,
            rounds,
        ),
    decreases rounds.len(),
{
    light_follows_the_loop(board, lit, rounds, true);
    if rounds.len() > 0 {
        assert(rounds[0]);
        let rest = rounds.drop_first();
        assert forall|i: int| 0 <= i < rest.len() implies #[trigger] rest[i] by {
            assert(rounds[i + 1]);
        }
        blinking_rounds_alternate(board, !lit, rest);
    }
}

/// A look that finds nothing changes nothing, and one finds a zap exactly if Wi-Fi is up and the
/// interrupt has come. What it finds is noted behind the earlier ones, and sets the end of the
/// blinking five seconds ahead.
pub proof fn looks_note_what_they_find(
    before: State,
    stamp: u64,
    now: u64,
    after: State,
    zap: Option<usize>,
)
    requires
        before.zap_times@.len() < usize::MAX,
        now + 5_000_000_000 <= u64::MAX,
        zap_looked_for(before, stamp, now, after, zap),
    ensures
        zap is Some <==> before.wifi_ready && before.zap_flag,
        zap is None ==> after == before,
        zap is Some ==> !after.zap_flag && after.wifi_ready,
        zap is Some ==> zap->Some_0 == before.zap_times@.len() + 1,
        zap is Some ==> after.zap_times@ == before.zap_times@.push(stamp),
        zap is Some ==> after.zap_blink_until is Some && after.zap_blink_until->Some_0 == now
            + 5_000_000_000,
{
}

/// The interrupt and the coming up of Wi-Fi touch nothing but their own flags.
pub proof fn flags_are_set_alone(before: State, after: State)
    ensures
        zap_marked(before, after) <==> after.zap_flag && after.wifi_ready == before.wifi_ready
            && after.zap_times == before.zap_times && after.zap_blink_until
            == before.zap_blink_until,
        wifi_marked(before, after) <==> after.wifi_ready && after.zap_flag == before.zap_flag
            && after.zap_times == before.zap_times && after.zap_blink_until
            == before.zap_blink_until,
{
}

} // verus!
