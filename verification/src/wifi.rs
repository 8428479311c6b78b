//! Keeping Wi-Fi up.
use embedded_svc::wifi::ClientConfiguration;
use vstd::prelude::*;
use vstd::string::StringSliceAdditionalSpecFns;

verus! {

/// How long the asynchronous firmware pauses after a failed attempt to connect, in seconds.
pub const RETRY_SECS: u64 = 5;

/// How long the threaded firmware pauses between two looks at the connection, in seconds.
pub const CHECK_SECS: u64 = 1;

/// The longest name of a network, in bytes.
pub const MAX_SSID_BYTES: usize = 32;

/// The longest password of a network, in bytes.
pub const MAX_PASSWORD_BYTES: usize = 64;

/// The name and the password that an `embedded_svc::wifi::ClientConfiguration` holds, after each
/// was made by `heapless::String::try_from(&str)`.
///
/// Claimed: a name of more than 32 bytes or a password of more than 64 is refused; any others are
/// accepted and held unchanged.
#[verifier::external_body]
fn client_configuration(ssid: &str, password: &str) -> (r: Option<(String, String)>)
    ensures
        match r {
            Some(held) => {
                &&& ssid.spec_bytes().len() <= MAX_SSID_BYTES
                &&& password.spec_bytes().len() <= MAX_PASSWORD_BYTES
                &&& held.0@ == ssid@
                &&& held.1@ == password@
            },
            None => ssid.spec_bytes().len() > MAX_SSID_BYTES || password.spec_bytes().len()
                > MAX_PASSWORD_BYTES,
        },
{
    let held = ClientConfiguration {
        ssid: ssid.try_into().ok()?,
        password: password.try_into().ok()?,
        ..Default::default()
    };
    Some((held.ssid.as_str().to_owned(), held.password.as_str().to_owned()))
}

/// The name and the password under which the threaded firmware joins a network. They are taken as
/// they are, or refused if one is too long.
pub fn client_credentials(ssid: &str, password: &str) -> (r: Option<(String, String)>)
    ensures
        match r {
            Some(held) => ssid.spec_bytes().len() <= 32 && password.spec_bytes().len() <= 64
                && held.0@ == ssid@ && held.1@ == password@,
            None => ssid.spec_bytes().len() > 32 || password.spec_bytes().len() > 64,
        },
{
    client_configuration(ssid, password)
}

/// What the task of the asynchronous firmware is waiting for.
#[derive(Clone, Copy, Debug, PartialEq, Eq, Structural)]
pub enum WifiPhase {
    /// The connection to come up.
    Connecting,
    /// The connection to be lost.
    Connected,
    /// The end of the pause after a failed attempt.
    BackingOff,
}

/// What the task of the asynchronous firmware is told.
#[derive(Clone, Copy, Debug, PartialEq, Eq, Structural)]
pub enum WifiEvent {
    /// Whether the attempt to connect succeeded.
    Attempted(bool),
    /// The connection is lost.
    Lost,
    /// The pause is over.
    Woke,
}

/// What the task of the asynchronous firmware does next.
#[derive(Clone, Copy, Debug, PartialEq, Eq, Structural)]
pub enum WifiAction {
    /// Try to connect.
    Connect,
    /// Wait for the connection to be lost.
    AwaitLoss,
    /// Pause, in seconds.
    Wait(u64),
}

/// The task of the asynchronous firmware that keeps Wi-Fi up.
#[derive(Clone, Copy, Debug, PartialEq, Eq, Structural)]
pub struct WifiTask {
    /// What the task is waiting for.
    pub phase: WifiPhase,
}

impl WifiTask {
    /// The task and its action after an event, or `None` if the task does not wait for such an
    /// event.
    pub open spec fn next(self, event: WifiEvent) -> Option<(WifiTask, WifiAction)> {
        match (self.phase, event) {
            (WifiPhase::Connecting, WifiEvent::Attempted(true)) => Some(
                (WifiTask { phase: WifiPhase::Connected }, WifiAction::AwaitLoss),
            ),
            (WifiPhase::Connecting, WifiEvent::Attempted(false)) => Some(
                (WifiTask { phase: WifiPhase::BackingOff }, WifiAction::Wait(RETRY_SECS)),
            ),
            (WifiPhase::Connected, WifiEvent::Lost) => Some(
                (WifiTask { phase: WifiPhase::Connecting }, WifiAction::Connect),
            ),
            (WifiPhase::BackingOff, WifiEvent::Woke) => Some(
                (WifiTask { phase: WifiPhase::Connecting }, WifiAction::Connect),
            ),
            _ => None,
        }
    }

    /// The task at start, and its first action.
    pub fn new() -> (r: (WifiTask, WifiAction))
        ensures
            r.0.phase is Connecting,
            r.1 is Connect,
    {
        (WifiTask { phase: WifiPhase::Connecting }, WifiAction::Connect)
    }

    /// Takes note of an event and says what is done next. An event that the task does not wait
    /// for changes nothing.
    pub fn step(&mut self, event: WifiEvent) -> (r: Option<WifiAction>)
        ensures
            match r {
                Some(action) => old(self).next(event) == Some((*final(self), action)),
                None => old(self).next(event) is None && *final(self) == *old(self),
            },
    {
        match (self.phase, event) {
            (WifiPhase::Connecting, WifiEvent::Attempted(ok)) => {
                if ok {
                    self.phase = WifiPhase::Connected;
                    Some(WifiAction::AwaitLoss)
                } else {
                    self.phase = WifiPhase::BackingOff;
                    Some(WifiAction::Wait(RETRY_SECS))
                }
            },
            (WifiPhase::Connected, WifiEvent::Lost) => {
                self.phase = WifiPhase::Connecting;
                Some(WifiAction::Connect)
            },
            (WifiPhase::BackingOff, WifiEvent::Woke) => {
                self.phase = WifiPhase::Connecting;
                Some(WifiAction::Connect)
            },
            _ => None,
        }
    }
}

/// A lost connection is set up again at once; a failed attempt is repeated after five seconds.
pub proof fn wifi_is_kept_up(task: WifiTask)
    ensures
        task.phase is Connected ==> task.next(WifiEvent::Lost) == Some(
            (WifiTask { phase: WifiPhase::Connecting }, WifiAction::Connect),
        ),
        task.phase is Connecting ==> ({
            let paused = task.next(WifiEvent::Attempted(false))->Some_0;
            &&& paused.1 == WifiAction::Wait(5)
            &&& paused.0.next(WifiEvent::Woke) == Some(
                (WifiTask { phase: WifiPhase::Connecting }, WifiAction::Connect),
            )
        }),
{
}

/// What the threaded firmware does in one round.
#[derive(Clone, Copy, Debug, PartialEq, Eq, Structural)]
pub enum WifiRound {
    /// Try to connect.
    Connect,
    /// Pause, in seconds.
    Sleep(u64),
}

/// What the threaded firmware does after it has looked at the connection: it tries to connect
/// unless it is known to be connected. `status` is `None` if the look failed.
pub fn check_connection(status: Option<bool>) -> (r: WifiRound)
    ensures
        r == (if status == Some(true) {
            WifiRound::Sleep(CHECK_SECS)
        } else {
            WifiRound::Connect
        }),
        r is Connect <==> status == Some(false) || status is None,
        r is Sleep ==> r == WifiRound::Sleep(1),
{
    match status {
        Some(true) => WifiRound::Sleep(CHECK_SECS),
        _ => WifiRound::Connect,
    }
}

/// What the threaded firmware does after an attempt to connect: if it succeeded, the other tasks
/// are told that Wi-Fi is up; either way it pauses.
pub fn attempt_over(state: &mut crate::state::State, ok: bool) -> (r: WifiRound)
    ensures
        r == WifiRound::Sleep(CHECK_SECS),
        if ok {
            crate::state::wifi_marked(*old(state), *final(state))
        } else {
            *final(state) == *old(state)
        },
        r == WifiRound::Sleep(1),
        final(state).wifi_ready == (ok || old(state).wifi_ready),
        final(state).zap_flag == old(state).zap_flag,
        final(state).zap_times@ == old(state).zap_times@,
        final(state).zap_blink_until == old(state).zap_blink_until,
{
    if ok {
        state.mark_wifi_ready();
    }
    WifiRound::Sleep(CHECK_SECS)
}

/// Each answer has its consequence: success is followed by watching for the loss, loss by another
/// attempt, failure by a pause of five seconds, and the pause by another attempt. No other event is
/// heeded.
pub proof fn every_answer_has_its_consequence(task: WifiTask, event: WifiEvent)
    ensures
        task.next(event) is Some <==> (task.phase is Connecting && event is Attempted) || (
        task.phase is Connected && event is Lost) || (task.phase is BackingOff && event is Woke),
        task.next(event) is Some ==> ({
            let phase = task.next(event)->Some_0.0.phase;
            let action = task.next(event)->Some_0.1;
            &&& event == WifiEvent::Attempted(true) ==> phase is Connected && action is AwaitLoss
            &&& event == WifiEvent::Attempted(false) ==> phase is BackingOff && action
                == WifiAction::Wait(5)
            &&& event is Lost || event is Woke ==> phase is Connecting && action is Connect
        }),
{
}

} // verus!
