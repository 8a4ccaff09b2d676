use ceph::json::{json_as_string, json_find};
use ceph::JsonValue;

fn s(x: &str) -> JsonValue {
    JsonValue::String(x.to_string())
}

fn sample() -> JsonValue {
    JsonValue::Object(vec![
        ("fsid".to_string(), s("abc")),
        (
            "health".to_string(),
            JsonValue::Object(vec![
                ("status".to_string(), s("HEALTH_OK")),
                ("checks".to_string(), JsonValue::Array(vec![])),
            ]),
        ),
        ("epoch".to_string(), JsonValue::Number("12".to_string())),
        (
            "flags".to_string(),
            JsonValue::Array(vec![JsonValue::Bool(true), JsonValue::Null, JsonValue::Bool(false)]),
        ),
    ])
}

#[test]
fn renders_compact_json() {
    assert_eq!(
        json_as_string(&sample()),
        r#"{"fsid":"abc","health":{"status":"HEALTH_OK","checks":[]},"epoch":12,"flags":[true,null,false]}"#
    );
}

#[test]
fn rendering_matches_serde_json() {
    let v = sample();
    let text = json_as_string(&v);
    let reparsed: serde_json::Value = serde_json::from_str(&text).unwrap();
    assert_eq!(reparsed.to_string(), serde_json::to_string(&reparsed).unwrap());
    assert_eq!(json_as_string(&s("tab\there \"q\" \u{7f} \u{1f}")), "\"tab\\there \\\"q\\\" \u{7f} \\u001f\"");
}

#[test]
fn finds_nested_members() {
    let found = json_find(sample(), &["health", "status"]).unwrap();
    assert_eq!(json_as_string(&found), "\"HEALTH_OK\"");
    let whole = json_find(sample(), &[]).unwrap();
    assert_eq!(json_as_string(&whole), json_as_string(&sample()));
}

#[test]
fn missing_members_give_none() {
    assert!(json_find(sample(), &["nope"]).is_none());
    assert!(json_find(sample(), &["fsid", "x"]).is_none());
    assert!(json_find(sample(), &["flags", "0"]).is_none());
}

#[test]
fn path_in_two_steps_is_path_in_one() {
    let one = json_find(sample(), &["health", "status"]).map(|v| json_as_string(&v));
    let two = json_find(sample(), &["health"])
        .and_then(|h| json_find(h, &["status"]))
        .map(|v| json_as_string(&v));
    assert_eq!(one, two);
}

#[test]
fn rendering_is_one_line() {
    let v = JsonValue::Object(vec![
        ("a\nb".to_string(), JsonValue::String("line\nbreak\r\t".to_string())),
        ("n".to_string(), JsonValue::Array(vec![JsonValue::Number("1".to_string()), JsonValue::Null])),
    ]);
    let text = ceph::json::json_as_string(&v);
    assert!(!text.contains('\n'));
    assert_eq!(text, r#"{"a\nb":"line\nbreak\r\t","n":[1,null]}"#);
}

#[test]
fn mon_command_names_stay_distinct() {
    let c = ceph::MonCommand::new().with("format", "plain").with("prefix", "x").with("prefix", "y");
    let parsed: std::collections::HashMap<String, String> = serde_json::from_str(&c.as_json()).unwrap();
    assert_eq!(parsed.len(), 2);
    assert_eq!(c.as_json(), r#"{"format":"plain","prefix":"y"}"#);
}
