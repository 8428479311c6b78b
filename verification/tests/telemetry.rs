use zappy::thingsboard::{
    heartbeat, send_telemetry, telemetry_url, thingsboard_send_telemetry, thingsboard_task,
    TelemetryAction, TelemetryEvent, TelemetryTask,
};

const URL: &str = "http://thingsboard.cloud/api/v1/abc/telemetry";

#[test]
fn telemetry_addresses() {
    assert_eq!(telemetry_url("abc"), URL);
    assert_eq!(telemetry_url(""), "http://thingsboard.cloud/api/v1//telemetry");
}

#[test]
fn known_keys_have_documents() {
    let post = send_telemetry(URL, Some("boot"));
    assert_eq!(post.url, URL);
    assert_eq!(post.content_type, "application/json");
    assert_eq!(post.body, "{\"boot\":1}");
    assert_eq!(send_telemetry(URL, Some("zap")).body, "{\"zap\":1}");
    assert_eq!(send_telemetry(URL, Some("other")).body, "{}");
    assert_eq!(send_telemetry(URL, None).body, "{}");
}

#[test]
fn any_key_has_a_document_in_the_threaded_firmware() {
    let post = thingsboard_send_telemetry("abc", Some("other"));
    assert_eq!(post.url, URL);
    assert_eq!(post.content_type, "application/json");
    assert_eq!(post.body, "{\"other\":1}");
    assert_eq!(thingsboard_send_telemetry("abc", Some("zap")).body, "{\"zap\":1}");
    assert_eq!(thingsboard_send_telemetry("abc", None).body, "{}");
}

fn body(action: Option<TelemetryAction>) -> String {
    match action {
        Some(TelemetryAction::Post(post)) => {
            assert_eq!(post.url, URL);
            assert_eq!(post.content_type, "application/json");
            post.body
        }
        other => panic!("{other:?}"),
    }
}

#[test]
fn the_boot_message_comes_first_and_then_one_for_each_event() {
    let wait = Some(TelemetryAction::Listen { interval_secs: 30 });
    let (mut task, first) = TelemetryTask::new(URL);
    assert_eq!(body(Some(first)), "{\"boot\":1}");
    assert_eq!(thingsboard_task(&mut task, URL, TelemetryEvent::Posted(true)), wait);
    assert_eq!(body(thingsboard_task(&mut task, URL, TelemetryEvent::Zap)), "{\"zap\":1}");
    assert_eq!(thingsboard_task(&mut task, URL, TelemetryEvent::Posted(false)), wait);
    assert_eq!(body(thingsboard_task(&mut task, URL, TelemetryEvent::Silence)), "{}");
    assert_eq!(thingsboard_task(&mut task, URL, TelemetryEvent::Posted(true)), wait);
    assert_eq!(body(thingsboard_task(&mut task, URL, TelemetryEvent::Zap)), "{\"zap\":1}");
}

#[test]
fn events_that_are_not_waited_for_send_nothing() {
    let (mut task, _) = TelemetryTask::new(URL);
    let before = task;
    assert_eq!(thingsboard_task(&mut task, URL, TelemetryEvent::Zap), None);
    assert_eq!(thingsboard_task(&mut task, URL, TelemetryEvent::Silence), None);
    assert_eq!(task, before);
    thingsboard_task(&mut task, URL, TelemetryEvent::Posted(true));
    let before = task;
    assert_eq!(thingsboard_task(&mut task, URL, TelemetryEvent::Posted(true)), None);
    assert_eq!(task, before);
}

#[test]
fn the_first_heartbeat_tells_of_the_boot() {
    let (post, pause_secs) = heartbeat("abc", 0);
    assert_eq!(post.url, URL);
    assert_eq!(post.body, "{\"boot\":1}");
    assert_eq!(pause_secs, 300);
    let (post, pause_secs) = heartbeat("abc", 1);
    assert_eq!(post.url, URL);
    assert_eq!(post.body, "{}");
    assert_eq!(pause_secs, 300);
}
