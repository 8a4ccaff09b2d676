use ceph::ceph::{
    alignment_result, buffer_step, check_command_type, command_string, find_in_reply,
    health_from_reply, list_step, nul_terminated_text, parse_pool_list, pool_lookup_result,
    remove_newlines, version_from_reply, xattr_step, BufferStep, CephCommandTypes, CephHealth,
    ListStep, fsid_from_buffer, mon_reply, MonReply,
};
use ceph::json::json_as_string;
use ceph::{JsonValue, RadosError};

#[test]
fn health_from_health_reply() {
    assert_eq!(health_from_reply(Ok("HEALTH_OK".to_string())), CephHealth::Healthy);
    assert_eq!(health_from_reply(Ok("HEALTH_WARN 1 osds down".to_string())), CephHealth::Warning);
    assert_eq!(health_from_reply(Ok("HEALTH_ERR".to_string())), CephHealth::Error);
    assert_eq!(health_from_reply(Ok("HEALTH_WARN then HEALTH_OK".to_string())), CephHealth::Healthy);
    assert_eq!(health_from_reply(Err(RadosError::Error("x".to_string()))), CephHealth::Error);
}

#[test]
fn newlines_are_removed() {
    assert_eq!(remove_newlines("HEALTH_OK\n"), "HEALTH_OK");
    assert_eq!(remove_newlines("a\nb\r\nc"), "ab\rc");
    assert_eq!(remove_newlines(""), "");
}

#[test]
fn command_types() {
    assert!(check_command_type(&CephCommandTypes::Mon).is_ok());
    match check_command_type(&CephCommandTypes::Osd) {
        Err(RadosError::Error(m)) => assert_eq!(m, "OSD CMDs Not implemented."),
        other => panic!("{:?}", other),
    }
    match check_command_type(&CephCommandTypes::Pgs) {
        Err(RadosError::Error(m)) => assert_eq!(m, "PGS CMDS Not implemented."),
        other => panic!("{:?}", other),
    }
}

#[test]
fn command_strings() {
    assert_eq!(command_string("prefix", "status", Some("json")), r#"{"prefix": "status", "format": "json"}"#);
    assert_eq!(command_string("prefix", "health", None), r#"{"prefix": "health"}"#);
}

fn reply() -> JsonValue {
    JsonValue::Object(vec![(
        "monmap".to_string(),
        JsonValue::Object(vec![("epoch".to_string(), JsonValue::Number("3".to_string()))]),
    )])
}

#[test]
fn replies_are_searched() {
    let keys: &[&str] = &["monmap", "epoch"];
    assert_eq!(json_as_string(&find_in_reply(Some(reply()), Some(keys)).unwrap()), "3");
    assert_eq!(json_as_string(&find_in_reply(Some(reply()), None).unwrap()), json_as_string(&reply()));
    match find_in_reply(Some(reply()), Some(&["nope"])) {
        Err(RadosError::Error(m)) => assert_eq!(m, "The attributes were not found in the output."),
        other => panic!("{:?}", other),
    }
    match find_in_reply(None, None) {
        Err(RadosError::Error(m)) => assert_eq!(m, "JSON data not found."),
        other => panic!("{:?}", other),
    }
}

#[test]
fn daemon_version_reply() {
    let r = JsonValue::Object(vec![("version".to_string(), JsonValue::String("16.2.5".to_string()))]);
    assert_eq!(version_from_reply(Some(r)).unwrap(), "\"16.2.5\"");
    assert!(version_from_reply(Some(reply())).is_none());
    assert!(version_from_reply(None).is_none());
}

#[test]
fn pool_lists() {
    assert_eq!(parse_pool_list(b"rbd\0data\0\0"), vec!["rbd", "data"]);
    assert_eq!(parse_pool_list(b"rbd\0data\0"), vec!["rbd", "data"]);
    assert_eq!(parse_pool_list(b""), Vec::<String>::new());
    assert_eq!(parse_pool_list(b"\0rbd\0"), Vec::<String>::new());
    assert_eq!(parse_pool_list(b"abc"), vec!["ab"]);
    assert_eq!(parse_pool_list(b"a\0b"), vec!["a"]);
    assert_eq!(parse_pool_list(b"\xffx\0"), vec!["\u{fffd}x"]);
}

#[test]
fn zero_terminated_text() {
    assert_eq!(nul_terminated_text(b"value\0junk"), "value");
    assert_eq!(nul_terminated_text(b"no terminator"), "");
    assert_eq!(nul_terminated_text(b"\0"), "");
}

#[test]
fn return_codes() {
    assert_eq!(pool_lookup_result(5), Ok(Some(5)));
    assert_eq!(pool_lookup_result(-(libc::ENOENT as i64)), Ok(None));
    assert_eq!(pool_lookup_result(-5), Err(-5));
    assert_eq!(alignment_result(0), Ok(false));
    assert_eq!(alignment_result(4096), Ok(true));
    assert_eq!(alignment_result(-22), Err(-22));
    assert_eq!(list_step(-libc::ENOENT), ListStep::End);
    assert_eq!(list_step(-5), ListStep::Failed(-5));
    assert_eq!(list_step(0), ListStep::Entry);
    assert_eq!(xattr_step(-1, true, 3), ListStep::Failed(-1));
    assert_eq!(xattr_step(0, false, 0), ListStep::End);
    assert_eq!(xattr_step(0, true, 0), ListStep::Entry);
    assert_eq!(buffer_step(-libc::ERANGE), BufferStep::Retry);
    assert_eq!(buffer_step(-1), BufferStep::Failed(-1));
    assert_eq!(buffer_step(12), BufferStep::Filled(12));
}

#[test]
fn pool_list_reads_back_what_was_written() {
    let names = ["rbd", "cephfs_data", ".mgr"];
    let mut written: Vec<u8> = Vec::new();
    for n in names.iter() {
        written.extend_from_slice(n.as_bytes());
        written.push(0);
    }
    assert_eq!(parse_pool_list(&written), names.to_vec());
    written.push(0);
    assert_eq!(parse_pool_list(&written), names.to_vec());
}

#[test]
fn monitor_replies() {
    match mon_reply(0, b"data".to_vec(), Some(b"ok".to_vec())) {
        MonReply::Done(out, status) => {
            assert_eq!(out, b"data".to_vec());
            assert_eq!(status.as_deref(), Some("ok"));
        }
        other => panic!("{:?}", other),
    }
    match mon_reply(0, vec![], None) {
        MonReply::Done(out, status) => assert!(out.is_empty() && status.is_none()),
        other => panic!("{:?}", other),
    }
    match mon_reply(0, vec![], Some(vec![0xff])) {
        MonReply::StatusNotUtf8(b) => assert_eq!(b, vec![0xff]),
        other => panic!("{:?}", other),
    }
    match mon_reply(-2, b"ignored".to_vec(), Some(b"key doesn't exist\xff".to_vec())) {
        MonReply::Refused(m) => assert_eq!(m, "key doesn't exist\u{fffd}"),
        other => panic!("{:?}", other),
    }
    match mon_reply(-22, vec![], None) {
        MonReply::Failed(code) => assert_eq!(code, -22),
        other => panic!("{:?}", other),
    }
}

#[test]
fn pool_names_read_back_as_written() {
    assert_eq!(nul_terminated_text(b"ab\0"), "ab");
    assert_eq!(parse_pool_list("rbd\0caf\u{e9}\0\0".as_bytes()), vec!["rbd", "caf\u{e9}"]);
}

#[test]
fn fsid_buffers() {
    assert_eq!(
        fsid_from_buffer(b"936da01f-9abd-4d9d-80c7-02af85c822a8".to_vec()).unwrap(),
        0x936DA01F9ABD4D9D80C702AF85C822A8u128
    );
    assert!(matches!(fsid_from_buffer(b"not a uuid".to_vec()), Err(RadosError::ParseError(_))));
    assert!(matches!(fsid_from_buffer(vec![0xff, 0xfe]), Err(RadosError::FromUtf8Error(_))));
}

#[test]
fn names_read_back_before_their_zero_byte() {
    assert_eq!(nul_terminated_text(b"rbd\0\xff\xffjunk"), "rbd");
}
