use ceph::cmd::{
    auth_add_command, client_osd_set_command, config_key_exists_outcome, entity,
    first_line_reply, mgr_auth_add_command, mgr_enable_module_command, mon_getmap_command,
    osd_auth_add_command, osd_create_command, osd_entity, osd_ids_command,
    osd_metadata_by_id_command, osd_set_command, osd_tree_status_command, require_version,
    string_object, u64_reply, CrushNodeStatus, HealthStatus, MonState, PoolOption, RoundStatus,
};
use ceph::json::json_as_string;
use ceph::cmd::{json_string, string_list, u64_members};
use ceph::JsonValue as J;
use ceph::{CephVersion, OsdOption, RadosError};

#[test]
fn option_names() {
    assert_eq!(OsdOption::NoDeepScrub.as_ref(), "nodeep-scrub");
    assert_eq!(OsdOption::NoOut.to_string(), "noout");
    assert_eq!(PoolOption::CacheMinEvictAge.as_ref(), "cachem_min_evict_age");
    assert_eq!(PoolOption::AllocEcOverwrites.to_string(), "allow_ec_overwrites");
    assert_eq!(HealthStatus::Warn.as_ref(), "HEALTH_WARN");
    assert_eq!(HealthStatus::Healthy.to_string(), "HEALTH_OK");
    assert_eq!(MonState::Peon.as_ref(), "peon");
    assert_eq!(RoundStatus::OnGoing.to_string(), "on-going");
    assert_eq!(CrushNodeStatus::Destroyed.to_string(), "destroyed");
    assert_eq!(CrushNodeStatus::Up.to_string(), "up");
}

#[test]
fn entity_names() {
    assert_eq!(osd_entity(0), "osd.0");
    assert_eq!(osd_entity(1234567890123), "osd.1234567890123");
    assert_eq!(osd_entity(u64::MAX), format!("osd.{}", u64::MAX));
    assert_eq!(entity("client", "admin"), "client.admin");
}

#[test]
fn command_texts() {
    assert_eq!(json_as_string(&osd_ids_command("osd rm", 7)), r#"{"ids":["7"],"prefix":"osd rm"}"#);
    assert_eq!(
        json_as_string(&osd_tree_status_command(&CrushNodeStatus::Down)),
        r#"{"format":"json-pretty","prefix":"osd tree","states":["down"]}"#
    );
    assert_eq!(json_as_string(&mon_getmap_command(Some(42))), r#"{"epoch":42,"prefix":"mon getmap"}"#);
    assert_eq!(json_as_string(&mon_getmap_command(None)), r#"{"prefix":"mon getmap"}"#);
    assert_eq!(
        json_as_string(&osd_auth_add_command(3)),
        r#"{"caps":["mon","allow rwx","osd","allow *"],"entity":"osd.3","prefix":"auth add"}"#
    );
    assert_eq!(
        json_as_string(&mgr_auth_add_command("x")),
        r#"{"caps":["mon","allow profile mgr","osd","allow *","mds","allow *"],"entity":"mgr.x","prefix":"auth add"}"#
    );
    assert_eq!(
        json_as_string(&auth_add_command("client.a", &[])),
        r#"{"caps":[],"entity":"client.a","prefix":"auth add"}"#
    );
    assert_eq!(json_as_string(&osd_metadata_by_id_command(5)), r#"{"id":5,"prefix":"osd metadata"}"#);
    assert_eq!(
        json_as_string(&osd_set_command(&OsdOption::Pause, true)),
        r#"{"key":"pause","prefix":"osd set","sure":"--yes-i-really-mean-it"}"#
    );
    assert_eq!(json_as_string(&osd_set_command(&OsdOption::NoUp, false)), r#"{"key":"noup","prefix":"osd set"}"#);
    assert_eq!(
        json_as_string(&mgr_enable_module_command("dashboard", true)),
        r#"{"force":"--force","module":"dashboard","prefix":"mgr module enable"}"#
    );
    assert_eq!(
        json_as_string(&mgr_enable_module_command("dashboard", false)),
        r#"{"module":"dashboard","prefix":"mgr module enable"}"#
    );
    assert_eq!(json_as_string(&osd_create_command(Some(2))), r#"{"id":"osd.2","prefix":"osd create"}"#);
    assert_eq!(json_as_string(&osd_create_command(None)), r#"{"prefix":"osd create"}"#);
    assert_eq!(
        json_as_string(&string_object(&[("prefix", "config-key get"), ("key", "a/b")])),
        r#"{"prefix":"config-key get","key":"a/b"}"#
    );
}

#[test]
fn client_osd_set_command_text() {
    assert_eq!(
        client_osd_set_command(&OsdOption::NoOut, false).as_json(),
        r#"{"format":"json","prefix":"osd set","key":"noout"}"#
    );
    assert_eq!(
        client_osd_set_command(&OsdOption::Full, true).as_json(),
        r#"{"format":"json","prefix":"osd set","key":"full","sure":"--yes-i-really-mean-it"}"#
    );
}

#[test]
fn first_line_of_replies() {
    assert_eq!(first_line_reply("abc\r\ndef", "ctx: ").unwrap(), "abc");
    assert_eq!(first_line_reply("abc\r", "ctx: ").unwrap(), "abc\r");
    assert_eq!(first_line_reply("\nx", "ctx: ").unwrap(), "");
    assert_eq!(first_line_reply("one line", "ctx: ").unwrap(), "one line");
    match first_line_reply("", "Unable to parse status output: ") {
        Err(RadosError::Error(m)) => assert_eq!(m, "Unable to parse status output: \"\""),
        other => panic!("{:?}", other),
    }
}

#[test]
fn numbers_in_replies() {
    assert_eq!(u64_reply("42\n", "c").unwrap(), 42);
    assert_eq!(u64_reply("+7", "c").unwrap(), 7);
    assert_eq!(u64_reply("18446744073709551615", "c").unwrap(), u64::MAX);
    assert!(matches!(u64_reply("18446744073709551616", "c"), Err(RadosError::ParseIntError(_))));
    assert!(matches!(u64_reply(" 1", "c"), Err(RadosError::ParseIntError(_))));
    assert!(matches!(u64_reply("-1", "c"), Err(RadosError::ParseIntError(_))));
    assert!(matches!(u64_reply("", "c"), Err(RadosError::Error(_))));
}

#[test]
fn config_key_exists_answers() {
    assert_eq!(config_key_exists_outcome(Ok(Some("key 'a' exists".to_string()))).unwrap(), true);
    assert_eq!(
        config_key_exists_outcome(Err(RadosError::Error("key 'a' doesn't exist".to_string()))).unwrap(),
        false
    );
    match config_key_exists_outcome(Err(RadosError::Error("timeout".to_string()))) {
        Err(RadosError::Error(m)) => assert_eq!(m, "timeout"),
        other => panic!("{:?}", other),
    }
    match config_key_exists_outcome(Ok(Some("odd".to_string()))) {
        Err(RadosError::Error(m)) => assert_eq!(m, "Unable to parse config-key exists output: odd"),
        other => panic!("{:?}", other),
    }
    match config_key_exists_outcome(Ok(None)) {
        Err(RadosError::Error(m)) => assert_eq!(m, "Unable to parse config-key exists output: None"),
        other => panic!("{:?}", other),
    }
    assert!(matches!(
        config_key_exists_outcome(Err(RadosError::Parse("x".to_string()))),
        Err(RadosError::Parse(_))
    ));
}

#[test]
fn minimum_release() {
    assert!(require_version(CephVersion::Luminous, CephVersion::Luminous).is_ok());
    assert!(require_version(CephVersion::Pacific, CephVersion::Luminous).is_ok());
    match require_version(CephVersion::Jewel, CephVersion::Luminous) {
        Err(RadosError::MinVersion(min, found)) => {
            assert_eq!(min, CephVersion::Luminous);
            assert_eq!(found, CephVersion::Jewel);
        }
        other => panic!("{:?}", other),
    }
}

#[test]
fn decimal_text_parses_back() {
    for n in [0u64, 7, 10, 12345, u64::MAX] {
        let text = ceph::text::decimal(n);
        assert_eq!(text, n.to_string());
        assert_eq!(u64_reply(&text, "c").unwrap(), n);
    }
}

#[test]
fn reply_extractors() {
    let s = |x: &str| J::String(x.to_string());
    assert_eq!(string_list(&J::Array(vec![s("rbd"), s("data")])).unwrap(), vec!["rbd", "data"]);
    assert_eq!(string_list(&J::Array(vec![])).unwrap(), Vec::<String>::new());
    assert!(string_list(&J::Array(vec![s("a"), J::Null])).is_none());
    assert!(string_list(&s("a")).is_none());
    assert_eq!(json_string(&s("quorum")).unwrap(), "quorum");
    assert!(json_string(&J::Null).is_none());
    let counts = J::Object(vec![
        ("16.2.5".to_string(), J::Number("3".to_string())),
        ("15.2.0".to_string(), J::Number("1".to_string())),
    ]);
    assert_eq!(u64_members(&counts).unwrap(), vec![("16.2.5".to_string(), 3), ("15.2.0".to_string(), 1)]);
    assert!(u64_members(&J::Object(vec![("a".to_string(), J::Number("-1".to_string()))])).is_none());
    assert!(u64_members(&J::Object(vec![("a".to_string(), J::Number("1.5".to_string()))])).is_none());
    assert!(u64_members(&J::Object(vec![("a".to_string(), s("1"))])).is_none());
    assert!(u64_members(&J::Array(vec![])).is_none());
}
