use zappy::mqtt::{announcement, idle_timeout_secs, zap_report, Announcement, Publication};
use zappy::protocol::{TextError, Topic, TopicError};
use zappy::request::{
    client_id, connect_request, firmware_identity, ClientIdentity, RequestError,
};

fn message(topic: &str, payload: &str) -> Publication {
    Publication { topic: Topic::new(topic).unwrap(), payload: payload.to_string(), retain: true }
}

#[test]
fn the_documented_client_id() {
    assert_eq!(client_id(&ClientIdentity::Shared), "zappy");
    assert_eq!(client_id(&firmware_identity()), "zappy");
}

#[test]
fn a_client_id_per_device() {
    let mac = [0x01, 0x23, 0x45, 0x0a, 0xbc, 0xff];
    assert_eq!(client_id(&ClientIdentity::PerDevice(mac)), "zappy-0abcff");
    let other = [0x01, 0x23, 0x45, 0x0a, 0xbc, 0xfe];
    assert_ne!(
        client_id(&ClientIdentity::PerDevice(mac)),
        client_id(&ClientIdentity::PerDevice(other))
    );
}

#[test]
fn a_connect_request() {
    let request = connect_request(&ClientIdentity::Shared, "ha", "t\u{f6}ken").unwrap();
    assert_eq!(request.client_id, "zappy");
    assert_eq!(request.user_name, "ha");
    assert_eq!(request.password, "t\u{f6}ken".as_bytes().to_vec());
    assert_eq!(request.keep_alive_secs, 60);
    assert!(request.clean_start);
}

#[test]
fn connect_requests_that_cannot_be_made() {
    let id = ClientIdentity::Shared;
    let long = "a".repeat(65_536);
    let longest = "a".repeat(65_535);
    assert_eq!(
        connect_request(&id, "h\0a", "t"),
        Err(RequestError::UserName(TextError::NullCharacter))
    );
    assert_eq!(connect_request(&id, &long, &long), Err(RequestError::UserName(TextError::TooLarge)));
    assert_eq!(connect_request(&id, "ha", &long), Err(RequestError::Password));
    assert!(connect_request(&id, &longest, &longest).is_ok());
    assert!(connect_request(&id, "", "\0").is_ok());
}

#[test]
fn topics() {
    assert_eq!(Topic::new("zappy/zap").unwrap().name(), "zappy/zap");
    assert_eq!(Topic::new(""), Err(TopicError::Syntax));
    assert_eq!(Topic::new("zappy/+"), Err(TopicError::Syntax));
    assert_eq!(Topic::new("#"), Err(TopicError::Syntax));
    assert_eq!(Topic::new("a\0#"), Err(TopicError::Text(TextError::NullCharacter)));
    assert_eq!(
        Topic::new(&"+".repeat(65_536)),
        Err(TopicError::Text(TextError::TooLarge))
    );
    assert!(Topic::new(&"\u{e9}".repeat(32_767)).is_ok());
    assert_eq!(
        Topic::new(&"\u{e9}".repeat(32_768)),
        Err(TopicError::Text(TextError::TooLarge))
    );
}

#[test]
fn the_zap_sensor_is_announced() {
    assert_eq!(
        announcement(Announcement::ZapDiscovery),
        message(
            "homeassistant/sensor/zappy/zap/config",
            r#"{"name":"Zappy Zap Count","state_topic":"zappy/zap","unique_id":"zappy_zap_count","state_class":"total_increasing","device":{"identifiers":["zappy"],"name":"Zappy"}}"#
        )
    );
}

#[test]
fn the_boot_sensor_is_announced() {
    assert_eq!(
        announcement(Announcement::BootDiscovery),
        message(
            "homeassistant/sensor/zappy/boot/config",
            r#"{"name":"Zappy Boot","state_topic":"zappy/boot","unique_id":"zappy_boot","force_update":true,"device":{"identifiers":["zappy"],"name":"Zappy"}}"#
        )
    );
}

#[test]
fn states_are_published() {
    assert_eq!(announcement(Announcement::Boot), message("zappy/boot", "1"));
    assert_eq!(announcement(Announcement::Zero), message("zappy/zap", "0"));
    assert_eq!(zap_report(42), message("zappy/zap", "42"));
    assert_eq!(zap_report(u32::MAX), message("zappy/zap", "4294967295"));
}

#[test]
fn the_socket_outlives_two_keep_alives() {
    assert_eq!(idle_timeout_secs(), 120);
}

#[test]
fn sensors_are_announced_with_their_topics() {
    let zap = announcement(Announcement::ZapDiscovery).payload;
    assert!(zap.contains("\"state_topic\":\"zappy/zap\""));
    let boot = announcement(Announcement::BootDiscovery).payload;
    assert!(boot.contains("\"state_topic\":\"zappy/boot\""));
}
