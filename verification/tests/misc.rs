use ceph::admin_sockets::{admin_command_json, admin_request, reply_length};
use ceph::ceph_choices::CephChoices;
use ceph::ceph_volume::{check_release, json_tail};
use ceph::completion::aio_result;
use ceph::read_stream::{ReadPlan, DEFAULT_BUFFER_SIZE, DEFAULT_CONCURRENCY};
use ceph::tracing_integration::{level_from_tag, log_line_number, subscription_level, LogLevel};
use ceph::{CephVersion, OsdOption, RadosError};

#[test]
fn admin_socket_framing() {
    assert_eq!(admin_command_json("help"), r#"{"prefix":"help"}"#);
    assert_eq!(admin_request("{\"prefix\":\"version\"}"), b"{\"prefix\":\"version\"}\0".to_vec());
    assert_eq!(reply_length(&[0, 0, 1, 2]).unwrap(), 258);
    assert_eq!(reply_length(&[1, 0, 0, 0, 9]).unwrap(), 16777216);
    match reply_length(&[0, 0, 1]) {
        Err(RadosError::Error(m)) => {
            assert_eq!(m, "Admin socket: Invalid command or socket did not return any data")
        }
        other => panic!("{:?}", other),
    }
}

#[test]
fn choice_names() {
    assert_eq!(CephChoices::NoDeepScrub.as_ref(), "nodeep-scrub");
    assert_eq!(CephChoices::RequireKrakenOsds.to_string(), "require_kraken_osds");
}

#[test]
fn choice_names_are_flag_names() {
    let pairs = [
        (CephChoices::Full, OsdOption::Full),
        (CephChoices::Pause, OsdOption::Pause),
        (CephChoices::NoUp, OsdOption::NoUp),
        (CephChoices::NoDown, OsdOption::NoDown),
        (CephChoices::NoOut, OsdOption::NoOut),
        (CephChoices::NoIn, OsdOption::NoIn),
        (CephChoices::NoBackfill, OsdOption::NoBackfill),
        (CephChoices::NoRebalance, OsdOption::NoRebalance),
        (CephChoices::NoRecover, OsdOption::NoRecover),
        (CephChoices::NoScrub, OsdOption::NoScrub),
        (CephChoices::NoDeepScrub, OsdOption::NoDeepScrub),
        (CephChoices::NoTierAgent, OsdOption::NoTierAgent),
        (CephChoices::SortBitwise, OsdOption::SortBitwise),
        (CephChoices::RecoveryDeletes, OsdOption::RecoveryDeletes),
        (CephChoices::RequireJewelOsds, OsdOption::RequireJewelOsds),
        (CephChoices::RequireKrakenOsds, OsdOption::RequireKrakenOsds),
    ];
    for (i, (c, o)) in pairs.iter().enumerate() {
        assert_eq!(c.as_ref(), o.as_ref());
        for (j, (_, o2)) in pairs.iter().enumerate() {
            assert_eq!(o.as_ref() == o2.as_ref(), i == j);
        }
    }
}

#[test]
fn read_plan_offsets_are_consecutive() {
    let mut p = ReadPlan::new(Some(8), Some(3), None);
    let mut issued = 0u64;
    for step in 0..10 {
        if step % 3 == 2 {
            p.complete(Some(8));
        } else {
            assert_eq!(p.issue(), issued * 8);
            issued += 1;
        }
        assert_eq!(p.next, issued * 8);
    }
    p.complete(Some(3));
    assert!(p.done);
    assert_eq!(p.in_flight, 0);
    assert!(!p.should_issue());
}

#[test]
fn ceph_volume_output() {
    assert_eq!(json_tail("stderr noise\n{\"a\": 1}"), "{\"a\": 1}");
    assert_eq!(json_tail("no json"), "no json");
    assert!(check_release("ceph version 12.2.0 (x)").is_ok());
    assert!(matches!(
        check_release("ceph version 10.2.0 (x)"),
        Err(RadosError::MinVersion(CephVersion::Luminous, CephVersion::Jewel))
    ));
    assert!(matches!(check_release("garbage"), Err(RadosError::Parse(_))));
}

#[test]
fn aio_results() {
    assert_eq!(aio_result(-5), Err(-5));
    assert_eq!(aio_result(4096), Ok(4096));
}

#[test]
fn read_plan_issues_until_short_read() {
    let mut p = ReadPlan::new(Some(10), None, None);
    assert_eq!(p.buffer_size, 10);
    assert_eq!(p.concurrency, DEFAULT_CONCURRENCY);
    assert!(p.should_issue());
    assert_eq!(p.issue(), 0);
    assert!(p.should_issue());
    assert_eq!(p.issue(), 10);
    assert!(!p.should_issue());
    p.complete(Some(10));
    assert!(p.should_issue());
    assert_eq!(p.issue(), 20);
    p.complete(Some(4));
    assert!(p.done);
    assert_eq!(p.in_flight, 0);
    assert_eq!(p.yielded, 14);
    assert!(!p.should_issue());
}

#[test]
fn read_plan_respects_size_hint() {
    let mut p = ReadPlan::new(None, Some(4), Some(5));
    assert_eq!(p.buffer_size, DEFAULT_BUFFER_SIZE);
    assert_eq!(p.issue(), 0);
    assert!(!p.should_issue());
    p.complete(None);
    assert!(p.should_issue());
}

#[test]
fn log_levels() {
    assert_eq!(subscription_level(true, true, true, true), ("debug", true));
    assert_eq!(subscription_level(true, true, true, false), ("info", true));
    assert_eq!(subscription_level(true, true, false, true), ("warn", true));
    assert_eq!(subscription_level(true, false, true, true), ("error", true));
    assert_eq!(subscription_level(false, true, true, true), ("", false));
    assert_eq!(level_from_tag(b'E'), Some(LogLevel::Error));
    assert_eq!(level_from_tag(b'W'), Some(LogLevel::Warn));
    assert_eq!(level_from_tag(b'I'), Some(LogLevel::Info));
    assert_eq!(level_from_tag(b'D'), Some(LogLevel::Debug));
    assert_eq!(level_from_tag(b'X'), None);
}

#[test]
fn read_plan_keeps_in_flight_within_limit() {
    let mut p = ReadPlan::new(Some(10), Some(0), None);
    assert!(p.should_issue());
    assert_eq!(p.issue(), 0);
    assert_eq!(p.in_flight, 1);
    assert!(!p.should_issue());

    let mut q = ReadPlan::new(Some(10), Some(3), None);
    while q.should_issue() {
        q.issue();
    }
    assert_eq!(q.in_flight, 3);
    assert_eq!(q.next, 30);
}

#[test]
fn read_plan_hands_out_the_object_in_order() {
    for len in [0usize, 7, 10, 25, 30] {
        let object: Vec<u8> = (0..len as u8).collect();
        let mut p = ReadPlan::new(Some(10), Some(3), None);
        let mut handed: Vec<u8> = Vec::new();
        let mut steps = 0;
        while !p.done {
            while p.should_issue() {
                p.issue();
            }
            // The oldest read in flight finishes first.
            let at = (p.next - p.in_flight as u64 * 10) as usize;
            let chunk = &object[at.min(len)..(at + 10).min(len)];
            handed.extend_from_slice(chunk);
            p.complete(Some(chunk.len() as u32));
            steps += 1;
            assert!(steps < 100);
        }
        assert_eq!(handed, object);
        assert_eq!(p.yielded, len as u64);
        assert_eq!(p.in_flight, 0);
        assert!(!p.should_issue());
    }
}

#[test]
fn log_line_numbers() {
    assert_eq!(log_line_number("42"), Some(42));
    assert_eq!(log_line_number(""), None);
    assert_eq!(log_line_number("4x"), None);
    assert_eq!(log_line_number("-1"), None);
}
