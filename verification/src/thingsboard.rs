//! Telemetry for ThingsBoard: one small JSON document per message.
use crate::text;
use vstd::prelude::*;

verus! {

/// The server.
pub const THINGSBOARD_HOST: &'static str = "thingsboard.cloud";

/// The content type of every message.
pub const CONTENT_TYPE: &'static str = "application/json";

/// How long the asynchronous firmware stays silent before an empty message, in seconds.
pub const KEEPALIVE_INTERVAL_SECS: u64 = 30;

/// How long the threaded firmware pauses between two empty messages, in seconds.
pub const HEARTBEAT_SECS: u64 = 300;

/// The address that a device's telemetry is posted to.
pub open spec fn telemetry_address(host: Seq<char>, token: Seq<char>) -> Seq<char> {
    "http://"@ + host + "/api/v1/"@ + token + "/telemetry"@
}

/// The document that sets a key to one, or the empty document.
pub open spec fn telemetry_document(key: Option<Seq<char>>) -> Seq<char> {
    match key {
        Some(k) => "{\""@ + k + "\":1}"@,
        None => "{}"@,
    }
}

/// Whether the asynchronous firmware has a document for a key.
pub open spec fn known_key(key: Seq<char>) -> bool {
    key == "boot"@ || key == "zap"@
}

/// The text of a key.
pub open spec fn key_text(key: Option<&str>) -> Option<Seq<char>> {
    match key {
        Some(k) => Some(k@),
        None => None,
    }
}

/// A message, ready to be posted.
#[derive(Debug, PartialEq, Eq)]
pub struct TelemetryPost {
    /// Where it is posted.
    pub url: String,
    /// Its content type.
    pub content_type: String,
    /// Its document.
    pub body: String,
}

/// Writes the address that a device's telemetry is posted to.
pub fn telemetry_url(token: &str) -> (r: String)
    ensures
        r@ == telemetry_address(THINGSBOARD_HOST@, token@),
        r@ == "http://thingsboard.cloud/api/v1/"@ + token@ + "/telemetry"@,
{
    proof {
        reveal_strlit("http://");
        reveal_strlit("thingsboard.cloud");
        reveal_strlit("/api/v1/");
        reveal_strlit("http://thingsboard.cloud/api/v1/");
        assert("http://"@ + "thingsboard.cloud"@ + "/api/v1/"@
            =~= "http://thingsboard.cloud/api/v1/"@);
    }
    let mut url = "http://".to_owned();
    url.append(THINGSBOARD_HOST);
    url.append("/api/v1/");
    url.append(token);
    url.append("/telemetry");
    url
}

/// The message of the asynchronous firmware. It knows the keys `boot` and `zap`; for any other,
/// and without a key, the document is empty.
pub fn send_telemetry(url: &str, key: Option<&str>) -> (r: TelemetryPost)
    ensures
        r.url@ == url@,
        r.content_type@ == CONTENT_TYPE@,
        r.body@ == (match key_text(key) {
            Some(k) => if known_key(k) {
                telemetry_document(Some(k))
            } else {
                telemetry_document(None)
            },
            None => telemetry_document(None),
        }),
        r.content_type@ == "application/json"@,
        key is Some && key->Some_0@ == "boot"@ ==> r.body@ == "{\"boot\":1}"@,
        key is Some && key->Some_0@ == "zap"@ ==> r.body@ == "{\"zap\":1}"@,
        key is Some && key->Some_0@ != "boot"@ && key->Some_0@ != "zap"@ ==> r.body@ == "{}"@,
        key is None ==> r.body@ == "{}"@,
{
    proof {
        reveal_strlit("{\"");
        reveal_strlit("\":1}");
        reveal_strlit("boot");
        reveal_strlit("zap");
        reveal_strlit("{\"boot\":1}");
        reveal_strlit("{\"zap\":1}");
        assert("{\"boot\":1}"@ =~= telemetry_document(Some("boot"@)));
        assert("{\"zap\":1}"@ =~= telemetry_document(Some("zap"@)));
    }
    let body = match key {
        Some(k) => if text::same_text(k, "boot") {
            "{\"boot\":1}"
        } else if text::same_text(k, "zap") {
            "{\"zap\":1}"
        } else {
            "{}"
        },
        None => "{}",
    };
    TelemetryPost {
        url: url.to_owned(),
        content_type: CONTENT_TYPE.to_owned(),
        body: body.to_owned(),
    }
}

/// The message of the threaded firmware, which sets whatever key it is given.
pub fn thingsboard_send_telemetry(token: &str, key: Option<&str>) -> (r: TelemetryPost)
    ensures
        r.url@ == telemetry_address(THINGSBOARD_HOST@, token@),
        r.content_type@ == CONTENT_TYPE@,
        r.body@ == telemetry_document(key_text(key)),
        r.url@ == "http://thingsboard.cloud/api/v1/"@ + token@ + "/telemetry"@,
        r.content_type@ == "application/json"@,
        key is Some ==> r.body@ == "{\""@ + key->Some_0@ + "\":1}"@,
        key is None ==> r.body@ == "{}"@,
{
    let body = match key {
        Some(k) => {
            let mut body = "{\"".to_owned();
            body.append(k);
            body.append("\":1}");
            body
        },
        None => "{}".to_owned(),
    };
    TelemetryPost { url: telemetry_url(token), content_type: CONTENT_TYPE.to_owned(), body }
}

/// What the telemetry task of the asynchronous firmware is waiting for.
#[derive(Clone, Copy, Debug, PartialEq, Eq, Structural)]
pub enum TelemetryPhase {
    /// The end of the attempt to post a message.
    Posting,
    /// A zap, or the end of the keep alive interval.
    Listening,
}

/// What the telemetry task is told.
#[derive(Clone, Copy, Debug, PartialEq, Eq, Structural)]
pub enum TelemetryEvent {
    /// The attempt to post a message is over, and whether it succeeded.
    Posted(bool),
    /// A zap has come.
    Zap,
    /// Nothing has come for the keep alive interval.
    Silence,
}

/// What the telemetry task does next.
#[derive(Debug, PartialEq, Eq)]
pub enum TelemetryAction {
    /// Post a message.
    Post(TelemetryPost),
    /// Wait for a zap, but no longer than the interval, which starts now.
    Listen {
        /// The keep alive interval.
        interval_secs: u64,
    },
}

/// What the telemetry task does next, with a message given by its key.
pub enum TelemetryStep {
    /// Post a message.
    Post(Option<Seq<char>>),
    /// Wait for a zap, but no longer than the interval.
    Listen(u64),
}

/// The task of the asynchronous firmware that sends telemetry.
#[derive(Clone, Copy, Debug, PartialEq, Eq, Structural)]
pub struct TelemetryTask {
    /// What the task is waiting for.
    pub phase: TelemetryPhase,
}

/// The task after start, while it posts the boot message.
pub open spec fn started() -> TelemetryTask {
    TelemetryTask { phase: TelemetryPhase::Posting }
}

/// Whether an action is a step of a task that posts to `url`.
pub open spec fn carries_out(action: TelemetryAction, url: Seq<char>, step: TelemetryStep) -> bool {
    match (action, step) {
        (TelemetryAction::Post(post), TelemetryStep::Post(key)) => {
            &&& post.url@ == url
            &&& post.content_type@ == CONTENT_TYPE@
            &&& post.body@ == telemetry_document(key)
        },
        (TelemetryAction::Listen { interval_secs }, TelemetryStep::Listen(secs)) => interval_secs
            == secs,
        _ => false,
    }
}

impl TelemetryTask {
    /// The task and its step after an event, or `None` if the task does not wait for such an
    /// event.
    pub open spec fn next(self, event: TelemetryEvent) -> Option<(TelemetryTask, TelemetryStep)> {
        match (self.phase, event) {
            (TelemetryPhase::Posting, TelemetryEvent::Posted(_)) => Some(
                (
                    TelemetryTask { phase: TelemetryPhase::Listening },
                    TelemetryStep::Listen(KEEPALIVE_INTERVAL_SECS),
                ),
            ),
            (TelemetryPhase::Listening, TelemetryEvent::Zap) => Some(
                (
                    TelemetryTask { phase: TelemetryPhase::Posting },
                    TelemetryStep::Post(Some("zap"@)),
                ),
            ),
            (TelemetryPhase::Listening, TelemetryEvent::Silence) => Some(
                (TelemetryTask { phase: TelemetryPhase::Posting }, TelemetryStep::Post(None)),
            ),
            _ => None,
        }
    }

    /// The task after start, and its first action: it tells of the boot.
    pub fn new(url: &str) -> (r: (TelemetryTask, TelemetryAction))
        ensures
            r.0 == started(),
            carries_out(r.1, url@, TelemetryStep::Post(Some("boot"@))),
            r.0.phase is Posting,
            r.1 is Post,
            r.1->Post_0.url@ == url@,
            r.1->Post_0.body@ == "{\"boot\":1}"@,
    {
        (
            TelemetryTask { phase: TelemetryPhase::Posting },
            TelemetryAction::Post(send_telemetry(url, Some("boot"))),
        )
    }
}

/// Takes note of an event and says what the task does next. Whatever became of a message, it is
/// followed by a wait of its own; a zap and a wait that ran out are each followed by a message. An
/// event that the task does not wait for changes nothing.
pub fn thingsboard_task(task: &mut TelemetryTask, url: &str, event: TelemetryEvent) -> (r: Option<
    TelemetryAction,
>)
    ensures
        match (r, old(task).next(event)) {
            (Some(action), Some(next)) => *final(task) == next.0 && carries_out(
                action,
                url@,
                next.1,
            ),
            (None, None) => *final(task) == *old(task),
            _ => false,
        },
        r is Some <==> if old(task).phase is Posting {
            event is Posted
        } else {
            event is Zap || event is Silence
        },
        r is Some && event is Posted ==> r->Some_0 is Listen && r->Some_0->interval_secs == 30
            && final(task).phase is Listening,
        r is Some && !(event is Posted) ==> r->Some_0 is Post && r->Some_0->Post_0.url@ == url@
            && r->Some_0->Post_0.content_type@ == "application/json"@,
        r is Some && !(event is Posted) ==> final(task).phase is Posting,
        r is Some && event is Zap ==> r->Some_0->Post_0.body@ == "{\"zap\":1}"@,
        r is Some && event is Silence ==> r->Some_0->Post_0.body@ == "{}"@,
{
    proof {
        reveal_strlit("{\"");
        reveal_strlit("\":1}");
        reveal_strlit("zap");
        reveal_strlit("{\"zap\":1}");
        assert("{\"zap\":1}"@ =~= telemetry_document(Some("zap"@)));
    }
    match (task.phase, event) {
        (TelemetryPhase::Posting, TelemetryEvent::Posted(_)) => {
            task.phase = TelemetryPhase::Listening;
            Some(TelemetryAction::Listen { interval_secs: KEEPALIVE_INTERVAL_SECS })
        },
        (TelemetryPhase::Listening, TelemetryEvent::Zap) => {
            task.phase = TelemetryPhase::Posting;
            Some(TelemetryAction::Post(send_telemetry(url, Some("zap"))))
        },
        (TelemetryPhase::Listening, TelemetryEvent::Silence) => {
            task.phase = TelemetryPhase::Posting;
            Some(TelemetryAction::Post(send_telemetry(url, None)))
        },
        _ => None,
    }
}

/// What the task does in a run of events.
pub open spec fn steps(task: TelemetryTask, events: Seq<TelemetryEvent>) -> Seq<TelemetryStep>
    decreases events.len(),
{
    if events.len() == 0 {
        Seq::empty()
    } else {
        match task.next(events[0]) {
            Some(next) => seq![next.1] + steps(next.0, events.drop_first()),
            None => steps(task, events.drop_first()),
        }
    }
}

/// The keys of the messages among some steps, in their order.
pub open spec fn posted(steps: Seq<TelemetryStep>) -> Seq<Option<Seq<char>>>
    decreases steps.len(),
{
    if steps.len() == 0 {
        Seq::empty()
    } else {
        match steps[0] {
            TelemetryStep::Post(key) => seq![key] + posted(steps.drop_first()),
            TelemetryStep::Listen(_) => posted(steps.drop_first()),
        }
    }
}

/// The keys that a run of events calls for: one for each zap and each silence that ends a wait.
pub open spec fn called_for(
    listening: bool,
    events: Seq<TelemetryEvent>,
) -> Seq<Option<Seq<char>>>
    decreases events.len(),
{
    if events.len() == 0 {
        Seq::empty()
    } else {
        let rest = events.drop_first();
        match (listening, events[0]) {
            (true, TelemetryEvent::Zap) => seq![Some("zap"@)] + called_for(false, rest),
            (true, TelemetryEvent::Silence) => seq![None] + called_for(false, rest),
            (false, TelemetryEvent::Posted(_)) => called_for(true, rest),
            _ => called_for(listening, rest),
        }
    }
}

/// Every message has its cause: a task posts what the events call for, in their order, and
/// nothing else.
proof fn posts_are_called_for(task: TelemetryTask, events: Seq<TelemetryEvent>)
    ensures
        posted(steps(task, events)) == called_for(task.phase is Listening, events),
        !posted(steps(task, events)).contains(Some("boot"@)),
    decreases events.len(),
{
    reveal_strlit("boot");
    reveal_strlit("zap");
    assert("boot"@.len() != "zap"@.len());
    if events.len() > 0 {
        let rest = events.drop_first();
        match task.next(events[0]) {
            Some(next) => {
                posts_are_called_for(next.0, rest);
                assert(steps(task, events).drop_first() =~= steps(next.0, rest));
            },
            None => {
                posts_are_called_for(task, rest);
            },
        }
    }
}

/// The boot message is sent once, before all others. After it there is one message for each zap
/// that ends a wait and an empty one for each wait that runs out, in their order, whatever becomes
/// of the messages.
pub proof fn boot_message_comes_first_and_once(events: Seq<TelemetryEvent>)
    ensures
        ({
            let boot = Some("boot"@);
            let all = posted(
                seq![TelemetryStep::Post(boot)] + steps(started(), events),
            );
            &&& all == seq![boot] + called_for(false, events)
            &&& all[0] == boot
            &&& forall|i: int| 0 < i < all.len() ==> all[i] != boot
        }),
{
    posts_are_called_for(started(), events);
    let boot = Some("boot"@);
    let rest = steps(started(), events);
    let whole = seq![TelemetryStep::Post(boot)] + rest;
    assert(whole.drop_first() =~= rest);
    let all = posted(whole);
    assert(all == seq![boot] + posted(rest));
    assert forall|i: int| 0 < i < all.len() implies all[i] != boot by {
        assert(all[i] == posted(rest)[i - 1]);
    }
}

/// A message is followed by a wait, however it fared, and the wait by a message, so that the loop
/// goes on for ever. Each wait is for a full interval of thirty seconds from the end of the message
/// before.
pub proof fn every_message_is_followed_by_a_full_wait(task: TelemetryTask, ok: bool)
    ensures
        task.phase is Posting ==> task.next(TelemetryEvent::Posted(ok)) == Some(
            (TelemetryTask { phase: TelemetryPhase::Listening }, TelemetryStep::Listen(30)),
        ),
        task.phase is Listening ==> {
            &&& task.next(TelemetryEvent::Zap) == Some((started(), TelemetryStep::Post(Some("zap"@))))
            &&& task.next(TelemetryEvent::Silence) == Some((started(), TelemetryStep::Post(None)))
        },
{
}

/// The message of the threaded firmware's `n`th heartbeat, and the pause after it in seconds: the
/// first tells of the boot, all others are empty.
pub fn heartbeat(token: &str, n: u64) -> (r: (TelemetryPost, u64))
    ensures
        r.0.url@ == telemetry_address(THINGSBOARD_HOST@, token@),
        r.0.content_type@ == CONTENT_TYPE@,
        r.0.body@ == telemetry_document(
            if n == 0 {
                Some("boot"@)
            } else {
                None
            },
        ),
        r.1 == HEARTBEAT_SECS,
        r.1 == 300,
        r.0.url@ == "http://thingsboard.cloud/api/v1/"@ + token@ + "/telemetry"@,
        n == 0 ==> r.0.body@ == "{\"boot\":1}"@,
        n > 0 ==> r.0.body@ == "{}"@,
{
    proof {
        reveal_strlit("{\"");
        reveal_strlit("\":1}");
        reveal_strlit("boot");
        reveal_strlit("{\"boot\":1}");
        assert("{\"boot\":1}"@ =~= telemetry_document(Some("boot"@)));
    }
    if n == 0 {
        (thingsboard_send_telemetry(token, Some("boot")), HEARTBEAT_SECS)
    } else {
        (thingsboard_send_telemetry(token, None), HEARTBEAT_SECS)
    }
}

/// Devices with different tokens post to different addresses.
pub proof fn address_determines_token(host: Seq<char>, a: Seq<char>, b: Seq<char>)
    requires
        telemetry_address(host, a) == telemetry_address(host, b),
    ensures
        a == b,
{
    let x = telemetry_address(host, a);
    let y = telemetry_address(host, b);
    let n = "http://"@.len() + host.len() + "/api/v1/"@.len();
    assert(x.len() == n + a.len() + "/telemetry"@.len());
    assert(y.len() == n + b.len() + "/telemetry"@.len());
    assert(x.subrange(n as int, (n + a.len()) as int) =~= a);
    assert(y.subrange(n as int, (n + b.len()) as int) =~= b);
}

/// Different keys have different documents, and none has the empty one.
pub proof fn document_determines_key(a: Option<Seq<char>>, b: Option<Seq<char>>)
    requires
        telemetry_document(a) == telemetry_document(b),
    ensures
        a == b,
{
    reveal_strlit("{\"");
    reveal_strlit("\":1}");
    reveal_strlit("{}");
    let x = telemetry_document(a);
    let y = telemetry_document(b);
    assert(a is None ==> x.len() == 2);
    assert(b is None ==> y.len() == 2);
    assert(a is Some ==> x.len() == a->Some_0.len() + 6);
    assert(b is Some ==> y.len() == b->Some_0.len() + 6);
    if a is Some && b is Some {
        assert(x.subrange(2, x.len() - 4) =~= a->Some_0);
        assert(y.subrange(2, y.len() - 4) =~= b->Some_0);
    }
}

/// A document holds its key, whatever that is, between fixed text: the key can be cut out of it
/// again.
pub proof fn document_holds_its_key(key: Seq<char>)
    ensures
        ({
            let document = telemetry_document(Some(key));
            &&& document.len() == key.len() + 6
            &&& document.take(2) == "{\""@
            &&& document.subrange(2, key.len() as int + 2) == key
            &&& document.skip(key.len() as int + 2) == "\":1}"@
            &&& telemetry_document(None) == "{}"@
        }),
{
    reveal_strlit("{\"");
    reveal_strlit("\":1}");
    let document = telemetry_document(Some(key));
    assert(document.take(2) =~= "{\""@);
    assert(document.subrange(2, key.len() as int + 2) =~= key);
    assert(document.skip(key.len() as int + 2) =~= "\":1}"@);
}

/// An address holds its token, whatever that is: it stands between `/api/v1/` and `/telemetry` on
/// the host.
pub proof fn address_holds_its_token(host: Seq<char>, token: Seq<char>)
    ensures
        ({
            let address = telemetry_address(host, token);
            let n = host.len() as int;
            let m = token.len() as int;
            &&& address.len() == n + m + 25
            &&& address.take(7) == "http://"@
            &&& address.subrange(7, 7 + n) == host
            &&& address.subrange(7 + n, 15 + n) == "/api/v1/"@
            &&& address.subrange(15 + n, 15 + n + m) == token
            &&& address.skip(15 + n + m) == "/telemetry"@
        }),
{
    reveal_strlit("http://");
    reveal_strlit("/api/v1/");
    reveal_strlit("/telemetry");
    let address = telemetry_address(host, token);
    let n = host.len() as int;
    let m = token.len() as int;
    assert(address.take(7) =~= "http://"@);
    assert(address.subrange(7, 7 + n) =~= host);
    assert(address.subrange(7 + n, 15 + n) =~= "/api/v1/"@);
    assert(address.subrange(15 + n, 15 + n + m) =~= token);
    assert(address.skip(15 + n + m) =~= "/telemetry"@);
}

} // verus!
