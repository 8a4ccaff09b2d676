use ceph::ceph::TmapOperation;

fn sample() -> Vec<TmapOperation> {
    vec![
        TmapOperation::Header { data: vec![1, 2, 3] },
        TmapOperation::SetKey { key: "k\u{e9}y".to_string(), data: vec![9; 5] },
        TmapOperation::Create { name: "new".to_string(), data: vec![] },
        TmapOperation::Remove { name: "gone".to_string() },
    ]
}

fn encode(ops: &[TmapOperation]) -> Vec<u8> {
    let mut v = Vec::new();
    for op in ops {
        v.extend(op.serialize().unwrap());
    }
    v
}

fn same(a: &TmapOperation, b: &TmapOperation) -> bool {
    format!("{:?}", a) == format!("{:?}", b)
}

#[test]
fn serializes_each_operation() {
    let ops = sample();
    assert_eq!(ops[0].serialize().unwrap(), vec![b'h', 3, 0, 0, 0, 1, 2, 3]);
    assert_eq!(
        ops[1].serialize().unwrap(),
        vec![b's', 4, 0, 0, 0, b'k', 0xc3, 0xa9, b'y', 5, 0, 0, 0, 9, 9, 9, 9, 9]
    );
    assert_eq!(ops[2].serialize().unwrap(), vec![b'c', 3, 0, 0, 0, b'n', b'e', b'w', 0, 0, 0, 0]);
    assert_eq!(ops[3].serialize().unwrap(), vec![b'r', 4, 0, 0, 0, b'g', b'o', b'n', b'e']);
}

#[test]
fn deserialize_inverts_serialize() {
    let ops = sample();
    let bytes = encode(&ops);
    let (rest, back) = TmapOperation::deserialize(&bytes);
    assert!(rest.is_empty());
    assert_eq!(back.len(), ops.len());
    for (a, b) in ops.iter().zip(back.iter()) {
        assert!(same(a, b), "{:?} {:?}", a, b);
    }
}

#[test]
fn deserialize_stops_at_first_bad_operation() {
    let ops = sample();
    let mut bytes = encode(&ops[..2]);
    let good = bytes.len();
    bytes.extend_from_slice(&[b'x', 0, 0, 0, 0]);
    bytes.extend(encode(&ops[2..]));
    let (rest, back) = TmapOperation::deserialize(&bytes);
    assert_eq!(back.len(), 2);
    assert_eq!(rest, &bytes[good..]);
}

#[test]
fn truncated_operation_is_left_over() {
    let bytes = vec![b'h', 10, 0, 0, 0, 1, 2];
    let (rest, back) = TmapOperation::deserialize(&bytes);
    assert!(back.is_empty());
    assert_eq!(rest, &bytes[..]);
}

#[test]
fn name_that_is_not_utf8_does_not_parse() {
    let bytes = vec![b'r', 2, 0, 0, 0, 0xff, 0xfe];
    let (rest, back) = TmapOperation::deserialize(&bytes);
    assert!(back.is_empty());
    assert_eq!(rest.len(), 7);
}

#[test]
fn empty_input_gives_no_operations() {
    let (rest, back) = TmapOperation::deserialize(&[]);
    assert!(back.is_empty() && rest.is_empty());
}

#[test]
fn trailing_bytes_that_do_not_parse_are_left_over() {
    let ops = sample();
    for tail in [vec![b'x', 1, 2, 3, 4, 5], vec![b'h', 9, 0, 0, 0, 1], vec![b's']] {
        let mut wire = encode(&ops);
        wire.extend_from_slice(&tail);
        let (rest, back) = TmapOperation::deserialize(&wire);
        assert_eq!(rest, &tail[..]);
        assert_eq!(back.len(), ops.len());
        for (a, b) in ops.iter().zip(back.iter()) {
            assert!(same(a, b));
        }
    }
}
