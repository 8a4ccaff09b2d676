use std::collections::HashMap;

use ceph::MonCommand;

#[test]
fn it_builds_a_mon_command() {
    let command = MonCommand::new()
        .with_prefix("osd set")
        .with("key", "osdout");

    let actual: HashMap<String, String> = serde_json::from_str(&command.as_json()).unwrap();
    let expected: HashMap<String, String> =
        serde_json::from_str(r#"{"prefix":"osd set","format":"json","key":"osdout"}"#).unwrap();

    assert_eq!(expected, actual);
}

#[test]
fn new_command_asks_for_json() {
    assert_eq!(MonCommand::new().as_json(), r#"{"format":"json"}"#);
}

#[test]
fn setting_again_replaces_in_place() {
    let c = MonCommand::new()
        .with_prefix("status")
        .with_format("plain")
        .with_name("osd.1")
        .with("name", "osd.2");
    assert_eq!(c.as_json(), r#"{"format":"plain","prefix":"status","name":"osd.2"}"#);
}

#[test]
fn arguments_are_escaped() {
    let c = MonCommand::new().with("k\"ey", "a\\b\nc\u{1}");
    assert_eq!(c.as_json(), "{\"format\":\"json\",\"k\\\"ey\":\"a\\\\b\\nc\\u0001\"}");
    let parsed: HashMap<String, String> = serde_json::from_str(&c.as_json()).unwrap();
    assert_eq!(parsed["k\"ey"], "a\\b\nc\u{1}");
}
