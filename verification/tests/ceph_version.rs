use ceph::CephVersion;
use ceph::RadosError;

#[test]
fn it_compares() {
    assert!(CephVersion::Argonaut < CephVersion::Bobtail);
    assert!(CephVersion::Luminous > CephVersion::Jewel);
}

#[test]
fn it_parses_jewel() {
    let version: CephVersion = "ceph version 10.2.9 (2ee413f77150c0f375ff6f10edd6c8f9c7d060d0)"
        .parse()
        .unwrap();
    assert_eq!(version, CephVersion::Jewel);
}

#[test]
fn parses_every_major_release() {
    let cases = [
        ("ceph version 16.2.5 (x) pacific (stable)", CephVersion::Pacific),
        ("ceph version 15.2.1", CephVersion::Octopus),
        ("ceph version 14.2.22 (abc)", CephVersion::Nautilus),
        ("ceph version 13.2.0 (abc)", CephVersion::Mimic),
        ("ceph version 12.2.13 (abc)", CephVersion::Luminous),
        ("ceph version 11.2.0 (abc)", CephVersion::Kraken),
        ("ceph version 9.2.1 (abc)", CephVersion::Infernalis),
        ("ceph version 0.94.10 (abc)", CephVersion::Hammer),
        ("ceph version 0.97.0 (abc)", CephVersion::Giant),
        ("ceph version 0.80.11 (abc)", CephVersion::Firefly),
        ("ceph version 0.72.2 (abc)", CephVersion::Emperor),
        ("ceph version 0.67.11 (abc)", CephVersion::Dumpling),
        ("ceph version 0.61.9 (abc)", CephVersion::Cuttlefish),
        ("ceph version 0.56.7 (abc)", CephVersion::Bobtail),
        ("ceph version 0.48.3 (abc)", CephVersion::Argonaut),
    ];
    for (line, want) in cases.iter() {
        assert_eq!(CephVersion::parse(line).unwrap(), *want, "{}", line);
    }
}

#[test]
fn refuses_malformed_version_lines() {
    for line in [
        "",
        "ceph version",
        "ceph version 10.2",
        "ceph version 17.0.0 (abc)",
        "ceph version 0.93.0 (abc)",
        "ceph  version 10.2.9",
    ]
    .iter()
    {
        match CephVersion::parse(line) {
            Err(RadosError::Parse(s)) => assert_eq!(&s, line),
            other => panic!("{:?} for {:?}", other, line),
        }
    }
}

#[test]
fn any_first_two_words_are_accepted() {
    assert_eq!(CephVersion::parse("x y 10.0.0").unwrap(), CephVersion::Jewel);
    assert_eq!(CephVersion::parse("x y 0.94.1.7 z").unwrap(), CephVersion::Hammer);
}

#[test]
fn releases_are_ordered_by_age() {
    let all = [
        CephVersion::Argonaut,
        CephVersion::Bobtail,
        CephVersion::Cuttlefish,
        CephVersion::Dumpling,
        CephVersion::Emperor,
        CephVersion::Firefly,
        CephVersion::Giant,
        CephVersion::Hammer,
        CephVersion::Infernalis,
        CephVersion::Jewel,
        CephVersion::Kraken,
        CephVersion::Luminous,
        CephVersion::Mimic,
        CephVersion::Nautilus,
        CephVersion::Octopus,
        CephVersion::Pacific,
    ];
    for i in 0..all.len() {
        assert_eq!(all[i].rank() as usize, i);
        for j in 0..all.len() {
            assert_eq!(all[i] < all[j], i < j);
            assert_eq!(all[i].is_older_than(&all[j]), i < j);
            assert_eq!(all[i].cmp(&all[j]), i.cmp(&j));
        }
    }
}

#[test]
fn higher_version_numbers_are_newer_releases() {
    let lines = [
        "ceph version 0.48.1", "ceph version 0.56.1", "ceph version 0.61.1",
        "ceph version 0.67.1", "ceph version 0.72.1", "ceph version 0.80.1",
        "ceph version 0.94.1", "ceph version 9.2.1", "ceph version 10.2.9",
        "ceph version 11.2.0", "ceph version 12.2.13", "ceph version 13.2.10",
        "ceph version 14.2.22", "ceph version 15.2.17", "ceph version 16.2.5",
    ];
    for i in 0..lines.len() {
        for j in (i + 1)..lines.len() {
            let a = CephVersion::parse(lines[i]).unwrap();
            let b = CephVersion::parse(lines[j]).unwrap();
            assert!(a.is_older_than(&b), "{} vs {}", lines[i], lines[j]);
        }
    }
}

#[test]
fn equal_major_numbers_name_the_same_release() {
    assert_eq!(CephVersion::parse("ceph version 12.2.0").unwrap(), CephVersion::parse("ceph version 12.9.13").unwrap());
    assert_eq!(CephVersion::parse("ceph version 0.94.1").unwrap(), CephVersion::parse("ceph version 0.94.10").unwrap());
}

#[test]
fn only_the_third_word_matters() {
    for tail in ["", " (2ee413f77150c0f375ff6f10edd6c8f9c7d060d0)", " x y"] {
        let line = format!("any words 12.2.z{}", tail);
        assert_eq!(CephVersion::parse(&line).unwrap(), CephVersion::Luminous);
        assert_eq!(
            CephVersion::parse(&line).unwrap(),
            CephVersion::parse("ceph version 12.2.z").unwrap()
        );
    }
}
