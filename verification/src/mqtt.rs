//! The Home Assistant link: what is published, and how the connection is kept.
use crate::protocol;
use crate::protocol::Topic;
use crate::request::MQTT_KEEPALIVE_SECS;
use crate::text;
use vstd::prelude::*;
use vstd::utf8::*;

verus! {

/// The port of the broker.
pub const MQTT_PORT: u16 = 1883;

/// How long the link stays silent before a ping, in seconds.
pub const KEEPALIVE_INTERVAL_SECS: u64 = 30;

/// How long a failed attempt to connect is followed by nothing, in seconds.
pub const RETRY_SECS: u64 = 10;

/// The topic of the boot notice.
pub const BOOT_TOPIC: &'static str = "zappy/boot";

/// The topic of the zap count.
pub const ZAP_TOPIC: &'static str = "zappy/zap";

/// The topic that announces the zap count sensor.
pub const ZAP_DISCOVERY_TOPIC: &'static str = "homeassistant/sensor/zappy/zap/config";

/// The topic that announces the boot sensor.
pub const BOOT_DISCOVERY_TOPIC: &'static str = "homeassistant/sensor/zappy/boot/config";

/// The announcement of the zap count sensor.
pub const ZAP_DISCOVERY: &'static str =
    "{\"name\":\"Zappy Zap Count\",\"state_topic\":\"zappy/zap\",\"unique_id\":\"zappy_zap_count\",\"state_class\":\"total_increasing\",\"device\":{\"identifiers\":[\"zappy\"],\"name\":\"Zappy\"}}";

/// The announcement of the boot sensor. It asks for an update on every boot, although the value
/// never changes.
pub const BOOT_DISCOVERY: &'static str =
    "{\"name\":\"Zappy Boot\",\"state_topic\":\"zappy/boot\",\"unique_id\":\"zappy_boot\",\"force_update\":true,\"device\":{\"identifiers\":[\"zappy\"],\"name\":\"Zappy\"}}";

/// A message for the broker.
#[derive(Debug, PartialEq, Eq)]
pub struct Publication {
    /// Where it is published.
    pub topic: Topic,
    /// What it says.
    pub payload: String,
    /// Whether the broker keeps it for later subscribers.
    pub retain: bool,
}

/// The content of a message.
pub struct Message {
    /// Where it is published.
    pub topic: Seq<char>,
    /// What it says.
    pub payload: Seq<char>,
    /// Whether the broker keeps it for later subscribers.
    pub retain: bool,
}

impl View for Publication {
    type V = Message;

    open spec fn view(&self) -> Message {
        Message { topic: self.topic@, payload: self.payload@, retain: self.retain }
    }
}

/// The message that the broker keeps on a topic.
pub open spec fn retained(topic: Seq<char>, payload: Seq<char>) -> Message {
    Message { topic, payload, retain: true }
}

/// The four messages that open every connection, in their order.
#[derive(Clone, Copy, Debug, PartialEq, Eq, Structural)]
pub enum Announcement {
    /// Announces the zap count sensor.
    ZapDiscovery,
    /// Announces the boot sensor.
    BootDiscovery,
    /// Tells of the boot.
    Boot,
    /// Starts the zap count of the connection.
    Zero,
}

/// What an announcement says.
pub open spec fn announcement_message(a: Announcement) -> Message {
    match a {
        Announcement::ZapDiscovery => retained(ZAP_DISCOVERY_TOPIC@, ZAP_DISCOVERY@),
        Announcement::BootDiscovery => retained(BOOT_DISCOVERY_TOPIC@, BOOT_DISCOVERY@),
        Announcement::Boot => retained(BOOT_TOPIC@, "1"@),
        Announcement::Zero => retained(ZAP_TOPIC@, text::decimal(0)),
    }
}

/// The message that reports a zap count.
pub open spec fn zap_message(count: u32) -> Message {
    retained(ZAP_TOPIC@, text::decimal(count as nat))
}

/// Every topic that is published on is one that MQTT allows.
pub proof fn topics_are_accepted()
    ensures
        protocol::topic_verdict(encode_utf8(BOOT_TOPIC@)) is Ok,
        protocol::topic_verdict(encode_utf8(ZAP_TOPIC@)) is Ok,
        protocol::topic_verdict(encode_utf8(ZAP_DISCOVERY_TOPIC@)) is Ok,
        protocol::topic_verdict(encode_utf8(BOOT_DISCOVERY_TOPIC@)) is Ok,
{
    reveal_strlit("zappy/boot");
    reveal_strlit("zappy/zap");
    reveal_strlit("homeassistant/sensor/zappy/zap/config");
    reveal_strlit("homeassistant/sensor/zappy/boot/config");
    protocol::ascii_text_is_accepted(BOOT_TOPIC@);
    protocol::ascii_text_is_accepted(ZAP_TOPIC@);
    protocol::ascii_text_is_accepted(ZAP_DISCOVERY_TOPIC@);
    protocol::ascii_text_is_accepted(BOOT_DISCOVERY_TOPIC@);
}

/// The part of a sensor's announcement that says where its value is published.
pub open spec fn state_topic_field(topic: Seq<char>) -> Seq<char> {
    "\"state_topic\":\""@ + topic + "\""@
}

/// Whether `part` occurs in `whole`.
pub open spec fn occurs_in(part: Seq<char>, whole: Seq<char>) -> bool {
    exists|i: int|
        0 <= i <= whole.len() - part.len() && #[trigger] whole.subrange(i, i + part.len()) == part
}

/// Each sensor is announced with the topic on which its value is published.
pub proof fn discovery_names_state_topics()
    ensures
        occurs_in(state_topic_field(ZAP_TOPIC@), ZAP_DISCOVERY@),
        occurs_in(state_topic_field(BOOT_TOPIC@), BOOT_DISCOVERY@),
{
    reveal_strlit("\"state_topic\":\"");
    reveal_strlit("\"");
    reveal_strlit("zappy/boot");
    reveal_strlit("zappy/zap");
    reveal_strlit(
        "{\"name\":\"Zappy Zap Count\",\"state_topic\":\"zappy/zap\",\"unique_id\":\"zappy_zap_count\",\"state_class\":\"total_increasing\",\"device\":{\"identifiers\":[\"zappy\"],\"name\":\"Zappy\"}}",
    );
    reveal_strlit(
        "{\"name\":\"Zappy Boot\",\"state_topic\":\"zappy/boot\",\"unique_id\":\"zappy_boot\",\"force_update\":true,\"device\":{\"identifiers\":[\"zappy\"],\"name\":\"Zappy\"}}",
    );
    let zap = state_topic_field(ZAP_TOPIC@);
    let boot = state_topic_field(BOOT_TOPIC@);
    assert(ZAP_DISCOVERY@.subrange(26, 26 + zap.len() as int) =~= zap);
    assert(BOOT_DISCOVERY@.subrange(21, 21 + boot.len() as int) =~= boot);
}

/// Makes a message that the broker keeps.
fn retained_publication(topic: &str, payload: String) -> (r: Publication)
    requires
        protocol::topic_verdict(encode_utf8(topic@)) is Ok,
    ensures
        r@ == retained(topic@, payload@),
{
    Publication { topic: Topic::new(topic).unwrap(), payload, retain: true }
}

/// Writes an announcement.
pub fn announcement(a: Announcement) -> (r: Publication)
    ensures
        r@ == announcement_message(a),
        r.retain,
        r.topic@ == (match a {
            Announcement::ZapDiscovery => "homeassistant/sensor/zappy/zap/config"@,
            Announcement::BootDiscovery => "homeassistant/sensor/zappy/boot/config"@,
            Announcement::Boot => "zappy/boot"@,
            Announcement::Zero => "zappy/zap"@,
        }),
{
    proof {
        topics_are_accepted();
    }
    match a {
        Announcement::ZapDiscovery => retained_publication(
            ZAP_DISCOVERY_TOPIC,
            ZAP_DISCOVERY.to_owned(),
        ),
        Announcement::BootDiscovery => retained_publication(
            BOOT_DISCOVERY_TOPIC,
            BOOT_DISCOVERY.to_owned(),
        ),
        Announcement::Boot => retained_publication(BOOT_TOPIC, "1".to_owned()),
        Announcement::Zero => retained_publication(ZAP_TOPIC, text::decimal_string(0)),
    }
}

/// Writes the report of a zap count.
pub fn zap_report(count: u32) -> (r: Publication)
    ensures
        r@ == zap_message(count),
        r.topic@ == "zappy/zap"@,
        r.retain,
        text::is_decimal(r.payload@),
        text::decimal_value(r.payload@) == count,
{
    proof {
        text::decimal_is_canonical(count as nat);
        text::decimal_reads_back(count as nat);
        topics_are_accepted();
    }
    retained_publication(ZAP_TOPIC, text::decimal_string(count))
}

/// How long the socket may stay idle, in seconds: twice the keep alive, so that one slow round
/// trip does not end the connection.
pub fn idle_timeout_secs() -> (r: u64)
    ensures
        r == 2 * MQTT_KEEPALIVE_SECS,
        r > KEEPALIVE_INTERVAL_SECS,
{
    MQTT_KEEPALIVE_SECS as u64 * 2
}

} // verus!
