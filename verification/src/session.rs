//! The connection to the broker as a state machine: each action is carried out by the caller,
//! and what became of it is handed back as the next event.
use crate::mqtt;
use crate::mqtt::{
    Announcement, Message, Publication, KEEPALIVE_INTERVAL_SECS, MQTT_PORT, RETRY_SECS,
};
use crate::request::MQTT_KEEPALIVE_SECS;
use crate::text;
use vstd::prelude::*;

verus! {

/// What the task is waiting for.
#[derive(Clone, Copy, Debug, PartialEq, Eq, Structural)]
pub enum MqttPhase {
    /// The address of the broker.
    Resolving,
    /// The transport connection.
    Opening,
    /// The broker's answer to the connect request.
    Handshaking,
    /// An announcement to be sent.
    Announcing(Announcement),
    /// A zap, an incoming packet or the end of the keep alive interval.
    Listening,
    /// The report of this boot's zap count to be sent.
    Reporting(u32),
    /// A ping to be sent.
    Pinging,
    /// The end of the pause before another attempt.
    BackingOff,
}

/// What ended the wait of a connected task.
#[derive(Clone, Copy, Debug, PartialEq, Eq, Structural)]
pub enum Heard {
    /// A zap, with the number of zaps since boot.
    Zap(u32),
    /// Nothing for the keep alive interval.
    Silence,
    /// An incoming packet, or the failure to read one.
    Packet(bool),
}

/// What became of an action.
#[derive(Debug, PartialEq, Eq)]
pub enum MqttEvent {
    /// The addresses of the broker, or `None` if the query failed.
    Resolved(Option<Vec<[u8; 4]>>),
    /// Whether the connection, connect request, message or ping succeeded.
    Done(bool),
    /// What a connected task heard.
    Heard(Heard),
    /// The pause is over.
    Woke,
}

/// What the caller does next.
#[derive(Debug, PartialEq, Eq)]
pub enum MqttAction {
    /// Look up the broker.
    Resolve,
    /// Open a transport connection.
    Open {
        /// The address of the broker.
        address: [u8; 4],
        /// The port of the broker.
        port: u16,
        /// How long the connection may stay idle.
        idle_timeout_secs: u64,
    },
    /// Send the connect request.
    Handshake,
    /// Send a message.
    Publish(Publication),
    /// Wait for a zap or an incoming packet, but no longer than the interval.
    Listen {
        /// The keep alive interval.
        interval_secs: u64,
    },
    /// Send a ping.
    Ping,
    /// Pause.
    Wait {
        /// How long.
        secs: u64,
    },
}

/// The content of an action.
pub enum MqttStep {
    /// Look up the broker.
    Resolve,
    /// Open a transport connection.
    Open(Seq<u8>, u16, u64),
    /// Send the connect request.
    Handshake,
    /// Send a message.
    Publish(Message),
    /// Wait for a zap or an incoming packet, but no longer than the interval.
    Listen(u64),
    /// Send a ping.
    Ping,
    /// Pause.
    Wait(u64),
}

impl View for MqttAction {
    type V = MqttStep;

    open spec fn view(&self) -> MqttStep {
        match *self {
            MqttAction::Resolve => MqttStep::Resolve,
            MqttAction::Open { address, port, idle_timeout_secs } => MqttStep::Open(
                address@,
                port,
                idle_timeout_secs,
            ),
            MqttAction::Handshake => MqttStep::Handshake,
            MqttAction::Publish(publication) => MqttStep::Publish(publication@),
            MqttAction::Listen { interval_secs } => MqttStep::Listen(interval_secs),
            MqttAction::Ping => MqttStep::Ping,
            MqttAction::Wait { secs } => MqttStep::Wait(secs),
        }
    }
}

/// The task that keeps the connection to the broker.
#[derive(Clone, Copy, Debug, PartialEq, Eq, Structural)]
pub struct MqttTask {
    /// What the task is waiting for.
    pub phase: MqttPhase,
    /// The number of zaps since boot at which the count of this connection starts: those that
    /// were counted before it opened.
    pub base: u32,
    /// The number of zaps since boot that was last sent to the broker, whether it arrived or not.
    pub counted: u32,
}

/// The zaps of a connection: those since boot, less those that were counted before it.
pub open spec fn connection_count(count: u32, base: u32) -> u32 {
    if count >= base {
        (count - base) as u32
    } else {
        (count - base + 0x1_0000_0000) as u32
    }
}

/// The announcement that follows another.
pub open spec fn following(a: Announcement) -> Option<Announcement> {
    match a {
        Announcement::ZapDiscovery => Some(Announcement::BootDiscovery),
        Announcement::BootDiscovery => Some(Announcement::Boot),
        Announcement::Boot => Some(Announcement::Zero),
        Announcement::Zero => None,
    }
}

impl MqttTask {
    /// The task in another phase.
    pub open spec fn enter(self, phase: MqttPhase) -> MqttTask {
        MqttTask { phase, ..self }
    }

    /// Listening for a zap, a packet or silence.
    pub open spec fn listen(self) -> (MqttTask, MqttStep) {
        (self.enter(MqttPhase::Listening), MqttStep::Listen(KEEPALIVE_INTERVAL_SECS))
    }

    /// Looking up the broker again, at once.
    pub open spec fn reconnect(self) -> (MqttTask, MqttStep) {
        (self.enter(MqttPhase::Resolving), MqttStep::Resolve)
    }

    /// Pausing before another attempt to connect.
    pub open spec fn back_off(self) -> (MqttTask, MqttStep) {
        (self.enter(MqttPhase::BackingOff), MqttStep::Wait(RETRY_SECS))
    }

    /// Sending an announcement.
    pub open spec fn announce(self, a: Announcement) -> (MqttTask, MqttStep) {
        (
            self.enter(MqttPhase::Announcing(a)),
            MqttStep::Publish(mqtt::announcement_message(a)),
        )
    }

    /// The task and its action after an event, or `None` if the task does not wait for such an
    /// event.
    pub open spec fn next(self, event: MqttEvent) -> Option<(MqttTask, MqttStep)> {
        match (self.phase, event) {
            (MqttPhase::Resolving, MqttEvent::Resolved(addresses)) => Some(
                if addresses is Some && addresses->Some_0@.len() > 0 {
                    (
                        self.enter(MqttPhase::Opening),
                        MqttStep::Open(
                            addresses->Some_0@[0]@,
                            MQTT_PORT,
                            (2 * MQTT_KEEPALIVE_SECS) as u64,
                        ),
                    )
                } else {
                    self.back_off()
                },
            ),
            (MqttPhase::Opening, MqttEvent::Done(ok)) => Some(
                if ok {
                    (self.enter(MqttPhase::Handshaking), MqttStep::Handshake)
                } else {
                    self.back_off()
                },
            ),
            (MqttPhase::Handshaking, MqttEvent::Done(ok)) => Some(
                if ok {
                    MqttTask { base: self.counted, ..self }.announce(Announcement::ZapDiscovery)
                } else {
                    self.back_off()
                },
            ),
            (MqttPhase::Announcing(a), MqttEvent::Done(_)) => Some(
                match following(a) {
                    Some(b) => self.announce(b),
                    None => self.listen(),
                },
            ),
            (MqttPhase::Listening, MqttEvent::Heard(heard)) => Some(
                match heard {
                    Heard::Zap(count) => (
                        self.enter(MqttPhase::Reporting(count)),
                        MqttStep::Publish(
                            mqtt::zap_message(connection_count(count, self.base)),
                        ),
                    ),
                    Heard::Silence => (self.enter(MqttPhase::Pinging), MqttStep::Ping),
                    Heard::Packet(ok) => if ok {
                        self.listen()
                    } else {
                        self.reconnect()
                    },
                },
            ),
            (MqttPhase::Reporting(count), MqttEvent::Done(ok)) => Some(
                if ok {
                    MqttTask { counted: count, ..self }.listen()
                } else {
                    MqttTask { counted: count, ..self }.reconnect()
                },
            ),
            (MqttPhase::Pinging, MqttEvent::Done(ok)) => Some(
                if ok {
                    self.listen()
                } else {
                    self.reconnect()
                },
            ),
            (MqttPhase::BackingOff, MqttEvent::Woke) => Some(self.reconnect()),
            _ => None,
        }
    }

    /// The task after boot, and its first action.
    pub fn new() -> (r: (MqttTask, MqttAction))
        ensures
            r.0 == booted(),
            r.0.phase is Resolving,
            r.0.base == 0,
            r.0.counted == 0,
            r.1@ == MqttStep::Resolve,
    {
        (MqttTask { phase: MqttPhase::Resolving, base: 0, counted: 0 }, MqttAction::Resolve)
    }

    /// Takes note of an event and says what is done next. An event that the task does not wait
    /// for changes nothing.
    pub fn step(&mut self, event: &MqttEvent) -> (r: Option<MqttAction>)
        ensures
            match r {
                Some(action) => old(self).next(*event) == Some((*final(self), action@)),
                None => old(self).next(*event) is None && *final(self) == *old(self),
            },
    {
        match (self.phase, event) {
            (MqttPhase::Resolving, MqttEvent::Resolved(addresses)) => {
                if let Some(addresses) = addresses {
                    if addresses.len() > 0 {
                        self.phase = MqttPhase::Opening;
                        return Some(
                            MqttAction::Open {
                                address: addresses[0],
                                port: MQTT_PORT,
                                idle_timeout_secs: mqtt::idle_timeout_secs(),
                            },
                        );
                    }
                }
                Some(self.retry_later())
            },
            (MqttPhase::Opening, MqttEvent::Done(ok)) => {
                if *ok {
                    self.phase = MqttPhase::Handshaking;
                    Some(MqttAction::Handshake)
                } else {
                    Some(self.retry_later())
                }
            },
            (MqttPhase::Handshaking, MqttEvent::Done(ok)) => {
                if *ok {
                    self.base = self.counted;
                    Some(self.publish(Announcement::ZapDiscovery))
                } else {
                    Some(self.retry_later())
                }
            },
            (MqttPhase::Announcing(a), MqttEvent::Done(_)) => {
                match a {
                    Announcement::ZapDiscovery => Some(self.publish(Announcement::BootDiscovery)),
                    Announcement::BootDiscovery => Some(self.publish(Announcement::Boot)),
                    Announcement::Boot => Some(self.publish(Announcement::Zero)),
                    Announcement::Zero => Some(self.wait_for_news()),
                }
            },
            (MqttPhase::Listening, MqttEvent::Heard(heard)) => {
                match heard {
                    Heard::Zap(count) => {
                        self.phase = MqttPhase::Reporting(*count);
                        Some(MqttAction::Publish(mqtt::zap_report(count.wrapping_sub(self.base))))
                    },
                    Heard::Silence => {
                        self.phase = MqttPhase::Pinging;
                        Some(MqttAction::Ping)
                    },
                    Heard::Packet(ok) => if *ok {
                        Some(self.wait_for_news())
                    } else {
                        Some(self.start_over())
                    },
                }
            },
            (MqttPhase::Reporting(count), MqttEvent::Done(ok)) => {
                self.counted = count;
                if *ok {
                    Some(self.wait_for_news())
                } else {
                    Some(self.start_over())
                }
            },
            (MqttPhase::Pinging, MqttEvent::Done(ok)) => {
                if *ok {
                    Some(self.wait_for_news())
                } else {
                    Some(self.start_over())
                }
            },
            (MqttPhase::BackingOff, MqttEvent::Woke) => Some(self.start_over()),
            _ => None,
        }
    }

    fn publish(&mut self, a: Announcement) -> (r: MqttAction)
        ensures
            (*final(self), r@) == old(self).announce(a),
    {
        self.phase = MqttPhase::Announcing(a);
        MqttAction::Publish(mqtt::announcement(a))
    }

    fn wait_for_news(&mut self) -> (r: MqttAction)
        ensures
            (*final(self), r@) == old(self).listen(),
    {
        self.phase = MqttPhase::Listening;
        MqttAction::Listen { interval_secs: KEEPALIVE_INTERVAL_SECS }
    }

    fn start_over(&mut self) -> (r: MqttAction)
        ensures
            (*final(self), r@) == old(self).reconnect(),
    {
        self.phase = MqttPhase::Resolving;
        MqttAction::Resolve
    }

    fn retry_later(&mut self) -> (r: MqttAction)
        ensures
            (*final(self), r@) == old(self).back_off(),
    {
        self.phase = MqttPhase::BackingOff;
        MqttAction::Wait { secs: RETRY_SECS }
    }
}

/// Whether an event is what a phase waits for.
pub open spec fn answers(phase: MqttPhase, event: MqttEvent) -> bool {
    match phase {
        MqttPhase::Resolving => event is Resolved,
        MqttPhase::Listening => event is Heard,
        MqttPhase::BackingOff => event is Woke,
        _ => event is Done,
    }
}

/// Whether the broker has accepted the device and heard its announcements.
pub open spec fn connected(phase: MqttPhase) -> bool {
    phase is Listening || phase is Reporting || phase is Pinging
}

/// The task never gets stuck: whatever becomes of an action, there is a next one.
pub proof fn every_answer_is_taken(task: MqttTask, event: MqttEvent)
    ensures
        task.next(event) is Some <==> answers(task.phase, event),
{
}

/// Every message is one that the broker keeps, on one of the four topics of the device, and what
/// is said on the zap topic is a decimal numeral.
pub proof fn every_message_is_retained(task: MqttTask, event: MqttEvent, message: Message)
    requires
        task.next(event) is Some,
        task.next(event)->Some_0.1 == MqttStep::Publish(message),
    ensures
        message.retain,
        message.topic == mqtt::ZAP_TOPIC@ || message.topic == mqtt::BOOT_TOPIC@ || message.topic
            == mqtt::ZAP_DISCOVERY_TOPIC@ || message.topic == mqtt::BOOT_DISCOVERY_TOPIC@,
        message.topic == mqtt::ZAP_TOPIC@ ==> exists|n: nat|
            message.payload == #[trigger] text::decimal(n),
{
    reveal_strlit("zappy/zap");
    reveal_strlit("zappy/boot");
    reveal_strlit("homeassistant/sensor/zappy/zap/config");
    reveal_strlit("homeassistant/sensor/zappy/boot/config");
    assert(mqtt::ZAP_TOPIC@.len() != mqtt::BOOT_TOPIC@.len());
    assert(mqtt::ZAP_TOPIC@.len() != mqtt::ZAP_DISCOVERY_TOPIC@.len());
    assert(mqtt::ZAP_TOPIC@.len() != mqtt::BOOT_DISCOVERY_TOPIC@.len());
}

/// An accepted connect request is followed by the two sensor announcements, the boot notice and
/// a zap count of zero, in this order, whatever becomes of each of them, and then by listening.
pub proof fn connection_opens_with_announcements(
    task: MqttTask,
    first: bool,
    second: bool,
    third: bool,
    fourth: bool,
)
    requires
        task.phase is Handshaking,
    ensures
        ({
            let a = task.next(MqttEvent::Done(true))->Some_0;
            let b = a.0.next(MqttEvent::Done(first))->Some_0;
            let c = b.0.next(MqttEvent::Done(second))->Some_0;
            let d = c.0.next(MqttEvent::Done(third))->Some_0;
            let e = d.0.next(MqttEvent::Done(fourth))->Some_0;
            &&& a.1 == MqttStep::Publish(
                mqtt::retained(mqtt::ZAP_DISCOVERY_TOPIC@, mqtt::ZAP_DISCOVERY@),
            )
            &&& b.1 == MqttStep::Publish(
                mqtt::retained(mqtt::BOOT_DISCOVERY_TOPIC@, mqtt::BOOT_DISCOVERY@),
            )
            &&& c.1 == MqttStep::Publish(mqtt::retained(mqtt::BOOT_TOPIC@, "1"@))
            &&& d.1 == MqttStep::Publish(mqtt::retained(mqtt::ZAP_TOPIC@, "0"@))
            &&& e.0.phase is Listening
            &&& e.0.base == task.counted
        }),
{
    reveal_strlit("0");
    assert(text::decimal(0) =~= "0"@);
}

/// The count starts anew on every connection: once it is open, the `n`th zap after those that were
/// counted before is reported as `n`.
pub proof fn count_restarts_on_each_connection(
    task: MqttTask,
    first: bool,
    second: bool,
    third: bool,
    fourth: bool,
    n: u32,
)
    requires
        task.phase is Handshaking,
        task.counted + n <= u32::MAX,
    ensures
        ({
            let a = task.next(MqttEvent::Done(true))->Some_0.0;
            let b = a.next(MqttEvent::Done(first))->Some_0.0;
            let c = b.next(MqttEvent::Done(second))->Some_0.0;
            let d = c.next(MqttEvent::Done(third))->Some_0.0;
            let e = d.next(MqttEvent::Done(fourth))->Some_0.0;
            e.next(MqttEvent::Heard(Heard::Zap((task.counted + n) as u32)))->Some_0.1
                == MqttStep::Publish(mqtt::retained(mqtt::ZAP_TOPIC@, text::decimal(n as nat)))
        }),
{
}

/// A failure before the broker has accepted the device is followed by a pause of ten seconds and
/// then by another attempt.
pub proof fn failed_attempt_is_repeated_after_a_pause(task: MqttTask, event: MqttEvent)
    requires
        task.phase is Resolving || task.phase is Opening || task.phase is Handshaking,
        answers(task.phase, event),
        event matches MqttEvent::Done(ok) ==> !ok,
        event matches MqttEvent::Resolved(Some(addresses)) ==> addresses@.len() == 0,
    ensures
        ({
            let paused = task.next(event)->Some_0;
            &&& paused.1 == MqttStep::Wait(10)
            &&& paused.0.next(MqttEvent::Woke) == Some((
                task.enter(MqttPhase::Resolving),
                MqttStep::Resolve,
            ))
        }),
{
}

/// A failure of an accepted connection is followed by another attempt at once. A report that
/// failed is not made again: its zaps are counted, so that the next connection starts after them.
pub proof fn lost_connection_is_reopened_at_once(task: MqttTask, event: MqttEvent)
    requires
        connected(task.phase),
        answers(task.phase, event),
        event == MqttEvent::Done(false) || event == MqttEvent::Heard(Heard::Packet(false)),
    ensures
        ({
            let lost = task.next(event)->Some_0;
            &&& lost.1 == MqttStep::Resolve
            &&& lost.0.phase is Resolving
            &&& lost.0.counted == (match task.phase {
                MqttPhase::Reporting(count) => count,
                _ => task.counted,
            })
        }),
{
}

/// A connected task that succeeds in what it does stays connected, and its count goes on from
/// the same base.
pub proof fn success_keeps_the_connection(task: MqttTask, event: MqttEvent)
    requires
        connected(task.phase),
        answers(task.phase, event),
        event != MqttEvent::Done(false),
        event != MqttEvent::Heard(Heard::Packet(false)),
    ensures
        connected(task.next(event)->Some_0.0.phase),
        task.next(event)->Some_0.0.base == task.base,
{
}

/// Within a connection the reported count starts from zero and rises with the zaps: it is the
/// number of zaps since the connection's base.
pub proof fn count_rises_within_a_connection(task: MqttTask, earlier: u32, later: u32)
    requires
        task.phase is Listening,
        task.base <= earlier < later,
    ensures
        task.next(MqttEvent::Heard(Heard::Zap(earlier)))->Some_0.1 == MqttStep::Publish(
            mqtt::retained(mqtt::ZAP_TOPIC@, text::decimal((earlier - task.base) as nat)),
        ),
        task.next(MqttEvent::Heard(Heard::Zap(later)))->Some_0.1 == MqttStep::Publish(
            mqtt::retained(mqtt::ZAP_TOPIC@, text::decimal((later - task.base) as nat)),
        ),
        earlier - task.base < later - task.base,
{
}

/// The boot notice and the sensor announcements come once per connection, when it opens: a
/// connected task publishes nothing but zap counts.
pub proof fn connected_task_publishes_zap_counts_only(
    task: MqttTask,
    event: MqttEvent,
    message: Message,
)
    requires
        connected(task.phase),
        task.next(event) is Some,
        task.next(event)->Some_0.1 == MqttStep::Publish(message),
    ensures
        message.topic == mqtt::ZAP_TOPIC@,
        event matches MqttEvent::Heard(Heard::Zap(_)),
{
}

/// Whenever the task listens, it does so for a time after which a ping still comes well before
/// the broker gives up on a silent client, and before the socket does.
pub proof fn pings_come_in_time(task: MqttTask, event: MqttEvent, interval_secs: u64)
    requires
        task.next(event) is Some,
        task.next(event)->Some_0.1 == MqttStep::Listen(interval_secs),
    ensures
        2 * interval_secs <= MQTT_KEEPALIVE_SECS,
        interval_secs < 2 * MQTT_KEEPALIVE_SECS,
{
}

/// The task after a run of events.
pub open spec fn run(task: MqttTask, events: Seq<MqttEvent>) -> MqttTask
    decreases events.len(),
{
    if events.len() == 0 {
        task
    } else {
        run(after(task, events[0]), events.drop_first())
    }
}

/// The task after one event, heeded or not.
pub open spec fn after(task: MqttTask, event: MqttEvent) -> MqttTask {
    match task.next(event) {
        Some(next) => next.0,
        None => task,
    }
}

/// The zap count that reached the broker with an event, if any.
pub open spec fn delivered_by(task: MqttTask, event: MqttEvent) -> Option<int> {
    match (task.phase, event) {
        (MqttPhase::Announcing(Announcement::Zero), MqttEvent::Done(true)) => Some(0),
        (MqttPhase::Reporting(count), MqttEvent::Done(true)) => Some(
            connection_count(count, task.base) as int,
        ),
        _ => None,
    }
}

/// The zap counts that reached the broker in a run of events, in their order.
pub open spec fn delivered(task: MqttTask, events: Seq<MqttEvent>) -> Seq<int>
    decreases events.len(),
{
    if events.len() == 0 {
        Seq::empty()
    } else {
        let rest = delivered(after(task, events[0]), events.drop_first());
        match delivered_by(task, events[0]) {
            Some(value) => seq![value] + rest,
            None => rest,
        }
    }
}

/// Whether the zero that starts a connection's count reached the broker on every connection.
pub open spec fn zeros_arrive(task: MqttTask, events: Seq<MqttEvent>) -> bool
    decreases events.len(),
{
    events.len() > 0 ==> {
        &&& !(task.phase == MqttPhase::Announcing(Announcement::Zero) && events[0]
            == MqttEvent::Done(false))
        &&& zeros_arrive(after(task, events[0]), events.drop_first())
    }
}

/// Whether the counts that are heard never fall below `latest` or an earlier one.
pub open spec fn counts_rise(latest: u32, events: Seq<MqttEvent>) -> bool
    decreases events.len(),
{
    events.len() > 0 ==> match events[0] {
        MqttEvent::Heard(Heard::Zap(count)) => latest <= count && counts_rise(
            count,
            events.drop_first(),
        ),
        _ => counts_rise(latest, events.drop_first()),
    }
}

/// The growth of a counter that may restart at zero: each rise counts by its height, each fall
/// as a restart.
pub open spec fn increase(before: int, values: Seq<int>) -> int
    decreases values.len(),
{
    if values.len() == 0 {
        0
    } else {
        let step = if values[0] >= before {
            values[0] - before
        } else {
            values[0]
        };
        step + increase(values[0], values.drop_first())
    }
}

/// The zaps that a run of events leaves out of the broker's counter, if the last value there is
/// `last`: those of each report that failed.
pub open spec fn lost(task: MqttTask, last: int, events: Seq<MqttEvent>) -> int
    decreases events.len(),
{
    if events.len() == 0 {
        0
    } else {
        let next = after(task, events[0]);
        let rest = events.drop_first();
        match (task.phase, events[0]) {
            (MqttPhase::Reporting(count), MqttEvent::Done(false)) => connection_count(
                count,
                task.base,
            ) - last + lost(next, last, rest),
            _ => match delivered_by(task, events[0]) {
                Some(value) => lost(next, value, rest),
                None => lost(next, last, rest),
            },
        }
    }
}

/// Whether every report of a zap count reached the broker.
pub open spec fn reports_arrive(task: MqttTask, events: Seq<MqttEvent>) -> bool
    decreases events.len(),
{
    events.len() > 0 ==> {
        &&& !(task.phase is Reporting && events[0] == MqttEvent::Done(false))
        &&& reports_arrive(after(task, events[0]), events.drop_first())
    }
}

/// What ties the last value `last` at the broker and the latest count `latest` that was heard to
/// the task.
spec fn in_step(task: MqttTask, last: int, latest: u32) -> bool {
    &&& 0 <= last
    &&& task.base <= task.counted <= latest
    &&& task.phase is Announcing ==> task.base == task.counted
    &&& connected(task.phase) ==> last == task.counted - task.base
    &&& task.phase matches MqttPhase::Reporting(count) ==> task.counted <= count <= latest
}

proof fn growth_is_counted(task: MqttTask, last: int, latest: u32, events: Seq<MqttEvent>)
    requires
        in_step(task, last, latest),
        counts_rise(latest, events),
        zeros_arrive(task, events),
    ensures
        increase(last, delivered(task, events)) + lost(task, last, events) == run(
            task,
            events,
        ).counted - task.counted,
        lost(task, last, events) >= 0,
        reports_arrive(task, events) ==> lost(task, last, events) == 0,
    decreases events.len(),
{
    if events.len() > 0 {
        let event = events[0];
        let rest = events.drop_first();
        let next = after(task, event);
        let heard = match event {
            MqttEvent::Heard(Heard::Zap(count)) => count,
            _ => latest,
        };
        match delivered_by(task, event) {
            Some(value) => {
                growth_is_counted(next, value, heard, rest);
                let values = delivered(task, events);
                assert(values.drop_first() =~= delivered(next, rest));
            },
            None => {
                growth_is_counted(next, last, heard, rest);
            },
        }
    }
}

/// The task after boot.
pub open spec fn booted() -> MqttTask {
    MqttTask { phase: MqttPhase::Resolving, base: 0, counted: 0 }
}

/// The zaps of all connections add up. In a run from boot in which the counts that are heard
/// never fall and the zero that opens each connection reaches the broker, the counter at the
/// broker, read as one that restarts at zero, has grown by the number of zaps since boot that was
/// last sent, less the zaps of the reports that failed. If no report failed, it is that number.
pub proof fn connections_add_up(events: Seq<MqttEvent>)
    requires
        counts_rise(0, events),
        zeros_arrive(booted(), events),
    ensures
        ({
            let growth = increase(0, delivered(booted(), events));
            &&& growth == run(booted(), events).counted - lost(booted(), 0, events)
            &&& lost(booted(), 0, events) >= 0
            &&& reports_arrive(booted(), events) ==> growth == run(booted(), events).counted
        }),
{
    boots_add_up(0, events);
}

/// So it is after a reboot: whatever value `before` an earlier boot left at the broker, the counter
/// grows from there by the zaps of this boot, less those of the reports that failed.
pub proof fn boots_add_up(before: int, events: Seq<MqttEvent>)
    requires
        0 <= before,
        counts_rise(0, events),
        zeros_arrive(booted(), events),
    ensures
        ({
            let growth = increase(before, delivered(booted(), events));
            &&& growth == run(booted(), events).counted - lost(booted(), before, events)
            &&& lost(booted(), before, events) >= 0
            &&& reports_arrive(booted(), events) ==> growth == run(booted(), events).counted
        }),
{
    growth_is_counted(booted(), before, 0, events);
}

/// The last value at the broker after some values have reached it, if it was `before`.
pub open spec fn last_value(before: int, values: Seq<int>) -> int {
    if values.len() == 0 {
        before
    } else {
        values.last()
    }
}

/// The zap counts that reached the broker over several boots, in their order.
pub open spec fn all_delivered(boots: Seq<Seq<MqttEvent>>) -> Seq<int>
    decreases boots.len(),
{
    if boots.len() == 0 {
        Seq::empty()
    } else {
        delivered(booted(), boots[0]) + all_delivered(boots.drop_first())
    }
}

/// The zaps of several boots: for each, the number that was last sent.
pub open spec fn all_counted(boots: Seq<Seq<MqttEvent>>) -> int
    decreases boots.len(),
{
    if boots.len() == 0 {
        0
    } else {
        run(booted(), boots[0]).counted + all_counted(boots.drop_first())
    }
}

/// The zaps that failed reports left out over several boots, if the last value at the broker is
/// `before`.
pub open spec fn all_lost(before: int, boots: Seq<Seq<MqttEvent>>) -> int
    decreases boots.len(),
{
    if boots.len() == 0 {
        0
    } else {
        lost(booted(), before, boots[0]) + all_lost(
            last_value(before, delivered(booted(), boots[0])),
            boots.drop_first(),
        )
    }
}

/// The growth of a counter adds up part by part.
proof fn increase_adds_up(before: int, first: Seq<int>, second: Seq<int>)
    ensures
        increase(before, first + second) == increase(before, first) + increase(
            last_value(before, first),
            second,
        ),
    decreases first.len(),
{
    if first.len() == 0 {
        assert(first + second =~= second);
    } else {
        increase_adds_up(first[0], first.drop_first(), second);
        assert((first + second).drop_first() =~= first.drop_first() + second);
    }
}

/// No value at the broker is negative.
proof fn values_are_counts(task: MqttTask, events: Seq<MqttEvent>)
    ensures
        forall|i: int|
            0 <= i < delivered(task, events).len() ==> #[trigger] delivered(task, events)[i] >= 0,
    decreases events.len(),
{
    if events.len() > 0 {
        let next = after(task, events[0]);
        let rest = events.drop_first();
        values_are_counts(next, rest);
        assert forall|i: int| 0 <= i < delivered(task, events).len() implies #[trigger] delivered(
            task,
            events,
        )[i] >= 0 by {
            match delivered_by(task, events[0]) {
                Some(_) => if i > 0 {
                    assert(delivered(task, events)[i] == delivered(next, rest)[i - 1]);
                },
                None => {
                    assert(delivered(task, events)[i] == delivered(next, rest)[i]);
                },
            }
        }
    }
}

/// The growth of the counter stitches the segments of all boots together: over any number of
/// boots, it is the sum of their zaps, less those of the reports that failed. If no report failed,
/// it is the sum.
pub proof fn all_boots_add_up(before: int, boots: Seq<Seq<MqttEvent>>)
    requires
        0 <= before,
        forall|i: int|
            0 <= i < boots.len() ==> counts_rise(0, #[trigger] boots[i]) && zeros_arrive(
                booted(),
                boots[i],
            ),
    ensures
        increase(before, all_delivered(boots)) == all_counted(boots) - all_lost(before, boots),
        all_lost(before, boots) >= 0,
        (forall|i: int| 0 <= i < boots.len() ==> reports_arrive(booted(), #[trigger] boots[i]))
            ==> increase(before, all_delivered(boots)) == all_counted(boots),
    decreases boots.len(),
{
    if boots.len() > 0 {
        let rest = boots.drop_first();
        let values = delivered(booted(), boots[0]);
        let last = last_value(before, values);
        boots_add_up(before, boots[0]);
        values_are_counts(booted(), boots[0]);
        assert(0 <= last);
        assert forall|i: int| 0 <= i < rest.len() implies counts_rise(0, #[trigger] rest[i])
            && zeros_arrive(booted(), rest[i]) by {
            assert(rest[i] == boots[i + 1]);
        }
        all_boots_add_up(last, rest);
        increase_adds_up(before, values, all_delivered(rest));
        if forall|i: int| 0 <= i < boots.len() ==> reports_arrive(booted(), #[trigger] boots[i]) {
            assert forall|i: int| 0 <= i < rest.len() implies reports_arrive(
                booted(),
                #[trigger] rest[i],
            ) by {
                assert(rest[i] == boots[i + 1]);
            }
            assert(reports_arrive(booted(), boots[0]));
        }
    }
}

/// Whether an event takes a task to a phase, with these counts, by this step.
pub open spec fn leads_to(
    task: MqttTask,
    event: MqttEvent,
    phase: MqttPhase,
    base: u32,
    counted: u32,
    step: MqttStep,
) -> bool {
    &&& task.next(event) is Some
    &&& task.next(event)->Some_0.0.phase == phase
    &&& task.next(event)->Some_0.0.base == base
    &&& task.next(event)->Some_0.0.counted == counted
    &&& task.next(event)->Some_0.1 == step
}

/// Whether a step is the publication of a message that the broker keeps.
pub open spec fn publishes(step: MqttStep, topic: Seq<char>, payload: Seq<char>) -> bool {
    &&& step is Publish
    &&& step->Publish_0.topic == topic
    &&& step->Publish_0.payload == payload
    &&& step->Publish_0.retain
}

/// A lookup that gave any address leads to a connection to the first, on port 1883, with two
/// minutes of patience.
pub proof fn found_broker_is_dialled(task: MqttTask, addresses: Vec<[u8; 4]>)
    requires
        task.phase is Resolving,
        addresses@.len() > 0,
    ensures
        leads_to(
            task,
            MqttEvent::Resolved(Some(addresses)),
            MqttPhase::Opening,
            task.base,
            task.counted,
            MqttStep::Open(addresses@[0]@, 1883, 120),
        ),
{
}

/// An attempt that failed, at whatever stage, costs ten seconds and nothing else: then the broker is
/// looked up again, with the counts as they were.
pub proof fn failed_attempt_changes_no_count(task: MqttTask, addresses: Vec<[u8; 4]>)
    requires
        addresses@.len() == 0,
    ensures
        ({
            let pause = MqttPhase::BackingOff;
            let wait = MqttStep::Wait(10);
            let none = MqttEvent::Resolved(None);
            let empty = MqttEvent::Resolved(Some(addresses));
            let failed = MqttEvent::Done(false);
            &&& task.phase is Resolving ==> {
                &&& leads_to(task, none, pause, task.base, task.counted, wait)
                &&& leads_to(task, empty, pause, task.base, task.counted, wait)
            }
            &&& task.phase is Opening || task.phase is Handshaking ==> leads_to(
                task,
                failed,
                pause,
                task.base,
                task.counted,
                wait,
            )
            &&& task.phase is BackingOff ==> leads_to(
                task,
                MqttEvent::Woke,
                MqttPhase::Resolving,
                task.base,
                task.counted,
                MqttStep::Resolve,
            )
        }),
{
}

/// A socket that opened is used for the connect request, and an accepted request for the
/// announcements, with the count of the connection starting at what was counted before.
pub proof fn open_socket_is_introduced_on(task: MqttTask)
    ensures
        task.phase is Opening ==> leads_to(
            task,
            MqttEvent::Done(true),
            MqttPhase::Handshaking,
            task.base,
            task.counted,
            MqttStep::Handshake,
        ),
        task.phase is Handshaking ==> ({
            let opened = task.next(MqttEvent::Done(true))->Some_0;
            &&& task.next(MqttEvent::Done(true)) is Some
            &&& opened.0.phase == MqttPhase::Announcing(Announcement::ZapDiscovery)
            &&& opened.0.base == task.counted
            &&& opened.0.counted == task.counted
            &&& publishes(
                opened.1,
                "homeassistant/sensor/zappy/zap/config"@,
                mqtt::ZAP_DISCOVERY@,
            )
        }),
{
}

/// The announcements follow one another, whether the one before arrived or not, and change no
/// count. The last is followed by listening, for thirty seconds at a time.
pub proof fn announcements_follow_one_another(task: MqttTask, arrived: bool)
    requires
        task.phase is Announcing,
    ensures
        ({
            let next = task.next(MqttEvent::Done(arrived))->Some_0;
            let phase = next.0.phase;
            &&& task.next(MqttEvent::Done(arrived)) is Some
            &&& next.0.base == task.base
            &&& next.0.counted == task.counted
            &&& match task.phase->Announcing_0 {
                Announcement::ZapDiscovery => {
                    &&& phase == MqttPhase::Announcing(Announcement::BootDiscovery)
                    &&& publishes(
                        next.1,
                        "homeassistant/sensor/zappy/boot/config"@,
                        mqtt::BOOT_DISCOVERY@,
                    )
                },
                Announcement::BootDiscovery => {
                    &&& phase == MqttPhase::Announcing(Announcement::Boot)
                    &&& publishes(next.1, "zappy/boot"@, "1"@)
                },
                Announcement::Boot => {
                    &&& phase == MqttPhase::Announcing(Announcement::Zero)
                    &&& publishes(next.1, "zappy/zap"@, "0"@)
                },
                Announcement::Zero => phase is Listening && next.1 == MqttStep::Listen(30),
            }
        }),
{
    reveal_strlit("0");
    assert(text::decimal(0) =~= "0"@);
}

/// A broker that answers is listened to: from a lookup that gave an address, successes lead to an
/// open connection, whatever becomes of the announcements.
pub proof fn answering_broker_is_listened_to(
    task: MqttTask,
    addresses: Vec<[u8; 4]>,
    first: bool,
    second: bool,
    third: bool,
    fourth: bool,
)
    requires
        task.phase is Resolving,
        addresses@.len() > 0,
    ensures
        ({
            let events = seq![
                MqttEvent::Resolved(Some(addresses)),
                MqttEvent::Done(true),
                MqttEvent::Done(true),
                MqttEvent::Done(first),
                MqttEvent::Done(second),
                MqttEvent::Done(third),
                MqttEvent::Done(fourth),
            ];
            &&& run(task, events).phase is Listening
            &&& run(task, events).base == task.counted
            &&& run(task, events).counted == task.counted
        }),
{
    let events = seq![
        MqttEvent::Resolved(Some(addresses)),
        MqttEvent::Done(true),
        MqttEvent::Done(true),
        MqttEvent::Done(first),
        MqttEvent::Done(second),
        MqttEvent::Done(third),
        MqttEvent::Done(fourth),
    ];
    reveal_with_fuel(run, 8);
    assert(events.drop_first().drop_first().drop_first().drop_first().drop_first().drop_first()
        .drop_first() =~= Seq::<MqttEvent>::empty());
}

/// A zap that is heard is reported at once, on the zap topic, for the broker to keep: what is
/// written is a numeral whose value is the number of zaps since the base of the connection, and
/// adding it to the base gives the number that was heard, up to the width of the counter.
pub proof fn heard_zap_is_reported(task: MqttTask, count: u32)
    requires
        task.phase is Listening,
    ensures
        ({
            let event = MqttEvent::Heard(Heard::Zap(count));
            let reported = task.next(event)->Some_0;
            let value = text::decimal_value(reported.1->Publish_0.payload);
            &&& task.next(event) is Some
            &&& reported.0.phase == MqttPhase::Reporting(count)
            &&& reported.0.base == task.base
            &&& reported.0.counted == task.counted
            &&& publishes(reported.1, "zappy/zap"@, reported.1->Publish_0.payload)
            &&& text::is_decimal(reported.1->Publish_0.payload)
            &&& 0 <= value < 0x1_0000_0000
            &&& task.base + value == count || task.base + value == count + 0x1_0000_0000
        }),
{
    text::decimal_reads_back(connection_count(count, task.base) as nat);
    text::decimal_is_canonical(connection_count(count, task.base) as nat);
}

/// A connected task that is left alone pings, one that hears a packet goes on, and one that cannot
/// read or ping reconnects at once. No count changes.
pub proof fn quiet_connection_is_kept_up(task: MqttTask)
    ensures
        ({
            let silence = MqttEvent::Heard(Heard::Silence);
            let packet = MqttEvent::Heard(Heard::Packet(true));
            let unread = MqttEvent::Heard(Heard::Packet(false));
            let sent = MqttEvent::Done(true);
            let failed = MqttEvent::Done(false);
            let start = MqttPhase::Resolving;
            let stay = MqttPhase::Listening;
            let listen = MqttStep::Listen(30);
            let resolve = MqttStep::Resolve;
            &&& task.phase is Listening ==> {
                &&& leads_to(
                    task,
                    silence,
                    MqttPhase::Pinging,
                    task.base,
                    task.counted,
                    MqttStep::Ping,
                )
                &&& leads_to(task, packet, stay, task.base, task.counted, listen)
                &&& leads_to(task, unread, start, task.base, task.counted, resolve)
            }
            &&& task.phase is Pinging ==> {
                &&& leads_to(task, sent, stay, task.base, task.counted, listen)
                &&& leads_to(task, failed, start, task.base, task.counted, resolve)
            }
        }),
{
}

/// A report settles its count. If it arrived, the task listens on the same connection, else it
/// reconnects at once.
pub proof fn report_settles_its_count(task: MqttTask, count: u32)
    requires
        task.phase == MqttPhase::Reporting(count),
    ensures
        leads_to(
            task,
            MqttEvent::Done(true),
            MqttPhase::Listening,
            task.base,
            count,
            MqttStep::Listen(30),
        ),
        leads_to(
            task,
            MqttEvent::Done(false),
            MqttPhase::Resolving,
            task.base,
            count,
            MqttStep::Resolve,
        ),
{
}

/// No event but the answer to what the task waits for is heeded.
pub proof fn only_answers_are_heeded(task: MqttTask, event: MqttEvent)
    ensures
        task.phase is Resolving ==> (task.next(event) is Some <==> event is Resolved),
        task.phase is Listening ==> (task.next(event) is Some <==> event is Heard),
        task.phase is BackingOff ==> (task.next(event) is Some <==> event is Woke),
        task.phase is Opening || task.phase is Handshaking || task.phase is Announcing
            || task.phase is Reporting || task.phase is Pinging ==> (task.next(event) is Some
            <==> event is Done),
{
}

/// The content of an action leaves nothing out.
pub proof fn content_determines_action(a: MqttAction, b: MqttAction)
    requires
        a@ == b@,
    ensures
        a is Resolve <==> b is Resolve,
        a is Handshake <==> b is Handshake,
        a is Ping <==> b is Ping,
        a is Wait ==> b is Wait && a->secs == b->secs,
        a is Listen ==> b is Listen && a->interval_secs == b->interval_secs,
        a is Open ==> b is Open && a->address@ == b->address@ && a->port == b->port
            && a->idle_timeout_secs == b->idle_timeout_secs,
        a is Publish ==> b is Publish && a->Publish_0.topic@ == b->Publish_0.topic@
            && a->Publish_0.payload@ == b->Publish_0.payload@ && a->Publish_0.retain
            == b->Publish_0.retain,
{
}

} // verus!
