//! The trivial-map (tmap) update format: a sequence of tagged operations,
//! each a tag byte followed by little-endian 32-bit lengths and payloads.

use vstd::prelude::*;
use vstd::bytes::{spec_u32_from_le_bytes, spec_u32_to_le_bytes, lemma_auto_spec_u32_to_from_le_bytes};
use vstd::utf8::{decode_utf8, encode_utf8, valid_utf8, encode_utf8_decode_utf8, encode_utf8_valid_utf8};

use byteorder::{ByteOrder, LittleEndian};

use crate::error::RadosResult;

verus! {

/// Tag byte of a header operation (`'h'`).
pub const TMAP_HDR: u8 = 0x68;
/// Tag byte of a set operation (`'s'`).
pub const TMAP_SET: u8 = 0x73;
/// Tag byte of a create operation (`'c'`).
pub const TMAP_CREATE: u8 = 0x63;
/// Tag byte of a remove operation (`'r'`).
pub const TMAP_RM: u8 = 0x72;

/// One operation of a trivial-map update.
#[derive(Debug)]
pub enum TmapOperation {
    Header { data: Vec<u8> },
    SetKey { key: String, data: Vec<u8> },
    Create { name: String, data: Vec<u8> },
    Remove { name: String },
}

/// Mathematical value of a [`TmapOperation`].
pub enum TmapOp {
    Header { data: Seq<u8> },
    SetKey { key: Seq<char>, data: Seq<u8> },
    Create { name: Seq<char>, data: Seq<u8> },
    Remove { name: Seq<char> },
}

impl View for TmapOperation {
    type V = TmapOp;

    open spec fn view(&self) -> TmapOp {
        match self {
            TmapOperation::Header { data } => TmapOp::Header { data: data@ },
            TmapOperation::SetKey { key, data } => TmapOp::SetKey { key: key@, data: data@ },
            TmapOperation::Create { name, data } => TmapOp::Create { name: name@, data: data@ },
            TmapOperation::Remove { name } => TmapOp::Remove { name: name@ },
        }
    }
}

/// The values of a sequence of operations.
pub open spec fn ops_view(ops: Seq<TmapOperation>) -> Seq<TmapOp> {
    ops.map_values(|o: TmapOperation| o@)
}

/// A length as written on the wire: its low 32 bits, little-endian.
pub open spec fn encode_len(len: nat) -> Seq<u8> {
    spec_u32_to_le_bytes(len as u32)
}

/// A length-prefixed UTF-8 string.
pub open spec fn encode_text(s: Seq<char>) -> Seq<u8> {
    encode_len(encode_utf8(s).len()) + encode_utf8(s)
}

/// A length-prefixed byte payload.
pub open spec fn encode_bytes(d: Seq<u8>) -> Seq<u8> {
    encode_len(d.len()) + d
}

/// The wire form of one operation.
pub open spec fn encode_op(op: TmapOp) -> Seq<u8> {
    match op {
        TmapOp::Header { data } => seq![TMAP_HDR] + encode_bytes(data),
        TmapOp::SetKey { key, data } => seq![TMAP_SET] + encode_text(key) + encode_bytes(data),
        TmapOp::Create { name, data } => seq![TMAP_CREATE] + encode_text(name) + encode_bytes(data),
        TmapOp::Remove { name } => seq![TMAP_RM] + encode_text(name),
    }
}

/// The wire form of a sequence of operations: their forms one after another.
pub open spec fn encode_ops(ops: Seq<TmapOp>) -> Seq<u8>
    decreases ops.len(),
{
    if ops.len() == 0 {
        Seq::empty()
    } else {
        encode_op(ops[0]) + encode_ops(ops.drop_first())
    }
}

/// The little-endian 32-bit length stored at `at`.
pub open spec fn len_at(s: Seq<u8>, at: int) -> int {
    spec_u32_from_le_bytes(s.subrange(at, at + 4)) as int
}

/// The operation at the start of `s` and the number of bytes it takes, or
/// `None` when `s` does not start with a complete, well-formed operation
/// (unknown tag, payload cut short, or a name that is not UTF-8).
pub open spec fn parse_op(s: Seq<u8>) -> Option<(TmapOp, int)> {
    if s.len() < 5 {
        None
    } else {
        let tag = s[0];
        let n = len_at(s, 1);
        if tag == TMAP_HDR {
            if 5 + n <= s.len() {
                Some((TmapOp::Header { data: s.subrange(5, 5 + n) }, 5 + n))
            } else {
                None
            }
        } else if tag == TMAP_RM {
            if 5 + n <= s.len() && valid_utf8(s.subrange(5, 5 + n)) {
                Some((TmapOp::Remove { name: decode_utf8(s.subrange(5, 5 + n)) }, 5 + n))
            } else {
                None
            }
        } else if tag == TMAP_SET || tag == TMAP_CREATE {
            if 9 + n <= s.len() && valid_utf8(s.subrange(5, 5 + n)) {
                let m = len_at(s, 5 + n);
                if 9 + n + m <= s.len() {
                    let name = decode_utf8(s.subrange(5, 5 + n));
                    let data = s.subrange(9 + n, 9 + n + m);
                    if tag == TMAP_SET {
                        Some((TmapOp::SetKey { key: name, data }, 9 + n + m))
                    } else {
                        Some((TmapOp::Create { name, data }, 9 + n + m))
                    }
                } else {
                    None
                }
            } else {
                None
            }
        } else {
            None
        }
    }
}

/// Operations parsed from the front of `s` until the first position where
/// no operation parses, with the number of bytes they take.
pub open spec fn parse_ops(s: Seq<u8>) -> (Seq<TmapOp>, int)
    decreases s.len(),
{
    match parse_op(s) {
        Some((op, n)) => if 0 < n <= s.len() {
            let rest = parse_ops(s.skip(n));
            (seq![op] + rest.0, n + rest.1)
        } else {
            (Seq::empty(), 0)
        },
        None => (Seq::empty(), 0),
    }
}

/// `byteorder::LittleEndian::write_u32` into a fresh four-byte buffer:
/// the bytes of `n`, least significant first.
#[verifier::external_body]
fn le_u32_bytes(n: u32) -> (b: Vec<u8>)
    ensures
        b@ == spec_u32_to_le_bytes(n),
{
    let mut b = vec![0u8; 4];
    LittleEndian::write_u32(&mut b, n);
    b
}

/// `byteorder::LittleEndian::read_u32` on the four bytes at `pos`.
#[verifier::external_body]
fn le_u32_at(buf: &[u8], pos: usize) -> (r: u32)
    requires
        pos + 4 <= buf@.len(),
    ensures
        r == spec_u32_from_le_bytes(buf@.subrange(pos as int, pos + 4)),
{
    LittleEndian::read_u32(&buf[pos..])
}

/// `std::str::from_utf8`, owned: the text that `bytes` encode when they are
/// valid UTF-8, else `None`.
#[verifier::external_body]
pub(crate) fn utf8_to_string(bytes: &[u8]) -> (r: Option<String>)
    ensures
        r is Some <==> valid_utf8(bytes@),
        r matches Some(s) ==> s@ == decode_utf8(bytes@),
{
    match std::str::from_utf8(bytes) {
        Ok(s) => Some(s.to_owned()),
        Err(_) => None,
    }
}

fn push_len(buf: &mut Vec<u8>, len: usize)
    ensures
        final(buf)@ == old(buf)@ + encode_len(len as nat),
{
    let mut b = le_u32_bytes(len as u32);
    buf.append(&mut b);
}

fn push_bytes(buf: &mut Vec<u8>, d: &[u8])
    ensures
        final(buf)@ == old(buf)@ + d@,
{
    let mut v = vstd::slice::slice_to_vec(d);
    buf.append(&mut v);
}

fn push_text(buf: &mut Vec<u8>, s: &String)
    ensures
        final(buf)@ == old(buf)@ + encode_text(s@),
{
    let b = s.as_str().as_bytes();
    push_len(buf, b.len());
    push_bytes(buf, b);
    assert(final(buf)@ =~= old(buf)@ + encode_text(s@));
}

/// The operation that starts at `pos`, with the number of bytes it takes.
fn parse_one(input: &[u8], pos: usize) -> (r: Option<(TmapOperation, usize)>)
    requires
        pos <= input@.len(),
    ensures
        match parse_op(input@.skip(pos as int)) {
            Some((op, n)) => r matches Some((o, m)) && o@ == op && m == n,
            None => r is None,
        },
        r matches Some((_, m)) ==> 0 < m <= input@.len() - pos,
{
    let ghost s = input@.skip(pos as int);
    let avail = input.len() - pos;
    if avail < 5 {
        return None;
    }
    let tag = input[pos];
    let n = le_u32_at(input, pos + 1) as usize;
    assert(input@.subrange(pos + 1, pos + 5) =~= s.subrange(1, 5));
    assert(n == len_at(s, 1));
    if tag == TMAP_HDR {
        if n <= avail - 5 {
            let data = vstd::slice::slice_to_vec(&input[pos + 5..pos + 5 + n]);
            assert(data@ =~= s.subrange(5, 5 + n));
            return Some((TmapOperation::Header { data }, 5 + n));
        }
        return None;
    }
    if tag == TMAP_RM {
        if n <= avail - 5 {
            let ghost kb = s.subrange(5, 5 + n);
            assert(input@.subrange(pos + 5, pos + 5 + n) =~= kb);
            match utf8_to_string(&input[pos + 5..pos + 5 + n]) {
                Some(name) => {
                    return Some((TmapOperation::Remove { name }, 5 + n));
                },
                None => {
                    return None;
                },
            }
        }
        return None;
    }
    if tag == TMAP_SET || tag == TMAP_CREATE {
        if avail >= 9 && n <= avail - 9 {
            let ghost kb = s.subrange(5, 5 + n);
            assert(input@.subrange(pos + 5, pos + 5 + n) =~= kb);
            match utf8_to_string(&input[pos + 5..pos + 5 + n]) {
                Some(name) => {
                    let m = le_u32_at(input, pos + 5 + n) as usize;
                    assert(input@.subrange(pos + 5 + n, pos + 9 + n) =~= s.subrange(5 + n, 9 + n));
                    assert(m == len_at(s, 5 + n));
                    if m <= avail - 9 - n {
                        let data = vstd::slice::slice_to_vec(&input[pos + 9 + n..pos + 9 + n + m]);
                        assert(data@ =~= s.subrange(9 + n, 9 + n + m));
                        if tag == TMAP_SET {
                            return Some((TmapOperation::SetKey { key: name, data }, 9 + n + m));
                        } else {
                            return Some((TmapOperation::Create { name, data }, 9 + n + m));
                        }
                    }
                    return None;
                },
                None => {
                    return None;
                },
            }
        }
        return None;
    }
    None
}

impl TmapOperation {
    /// Parses operations from the front of `input` until the first position
    /// where no operation parses; returns the unparsed rest and the
    /// operations, in order.
    pub fn deserialize(input: &[u8]) -> (r: (&[u8], Vec<TmapOperation>))
        ensures
            ops_view(r.1@) == parse_ops(input@).0,
            r.0@ == input@.skip(parse_ops(input@).1),
    {
        let mut ops: Vec<TmapOperation> = Vec::new();
        let mut pos: usize = 0;
        assert(input@.skip(0) =~= input@);
        loop
            invariant
                pos <= input@.len(),
                parse_ops(input@).0 == ops_view(ops@) + parse_ops(input@.skip(pos as int)).0,
                parse_ops(input@).1 == pos + parse_ops(input@.skip(pos as int)).1,
            decreases input@.len() - pos,
        {
            let ghost s = input@.skip(pos as int);
            let step = parse_one(input, pos);
            match step {
                Some((op, n)) => {
                    assert(n <= input@.len() - pos);
                    assert(input@.len() == input.len());
                    assert(s.skip(n as int) =~= input@.skip(pos + n));
                    let ghost before = ops@;
                    ops.push(op);
                    assert(ops_view(ops@) =~= ops_view(before) + seq![op@]);
                    assert(ops_view(before) + (seq![op@] + parse_ops(s.skip(n as int)).0) =~= ops_view(ops@) + parse_ops(s.skip(n as int)).0);
                    pos = pos + n;
                },
                None => {
                    assert(input@.subrange(pos as int, input@.len() as int) =~= s);
                    assert(ops_view(ops@) + Seq::<TmapOp>::empty() =~= ops_view(ops@));
                    return (&input[pos..input.len()], ops);
                },
            }
        }
    }

    /// The wire form of this operation.  A length of 2^32 bytes or more is
    /// written as its low 32 bits.
    pub fn serialize(&self) -> (r: RadosResult<Vec<u8>>)
        ensures
            r matches Ok(b) && b@ == encode_op(self@),
    {
        let mut buffer: Vec<u8> = Vec::new();
        match self {
            TmapOperation::Header { data } => {
                buffer.push(TMAP_HDR);
                push_len(&mut buffer, data.len());
                push_bytes(&mut buffer, data.as_slice());
                assert(buffer@ =~= encode_op(self@));
            },
            TmapOperation::SetKey { key, data } => {
                buffer.push(TMAP_SET);
                push_text(&mut buffer, key);
                push_len(&mut buffer, data.len());
                push_bytes(&mut buffer, data.as_slice());
                assert(buffer@ =~= encode_op(self@));
            },
            TmapOperation::Create { name, data } => {
                buffer.push(TMAP_CREATE);
                push_text(&mut buffer, name);
                push_len(&mut buffer, data.len());
                push_bytes(&mut buffer, data.as_slice());
                assert(buffer@ =~= encode_op(self@));
            },
            TmapOperation::Remove { name } => {
                buffer.push(TMAP_RM);
                push_text(&mut buffer, name);
                assert(buffer@ =~= encode_op(self@));
            },
        }
        Ok(buffer)
    }
}

} // verus!

verus! {

/// Every length in the operation fits in the 32 bits the wire gives it.
pub open spec fn wire_fits(op: TmapOp) -> bool {
    match op {
        TmapOp::Header { data } => data.len() < 0x1_0000_0000,
        TmapOp::SetKey { key, data } => encode_utf8(key).len() < 0x1_0000_0000 && data.len() < 0x1_0000_0000,
        TmapOp::Create { name, data } => encode_utf8(name).len() < 0x1_0000_0000 && data.len() < 0x1_0000_0000,
        TmapOp::Remove { name } => encode_utf8(name).len() < 0x1_0000_0000,
    }
}

proof fn lemma_len_roundtrip(len: nat)
    requires
        len < 0x1_0000_0000,
    ensures
        encode_len(len).len() == 4,
        spec_u32_from_le_bytes(encode_len(len)) as int == len,
{
    lemma_auto_spec_u32_to_from_le_bytes();
    let x = len as u32;
    assert(x as int == len);
    assert(spec_u32_to_le_bytes(x).len() == 4);
    assert(spec_u32_from_le_bytes(spec_u32_to_le_bytes(x)) == x);
}

/// Parsing the wire form of an operation, whatever follows it, gives the
/// operation back and consumes exactly its wire form.
pub proof fn lemma_parse_encoded_op(op: TmapOp, rest: Seq<u8>)
    requires
        wire_fits(op),
    ensures
        parse_op(encode_op(op) + rest) == Some((op, encode_op(op).len() as int)),
{
    broadcast use encode_utf8_valid_utf8, encode_utf8_decode_utf8;
    let s = encode_op(op) + rest;
    match op {
        TmapOp::Header { data } => {
            lemma_len_roundtrip(data.len());
            assert(s.subrange(1, 5) =~= encode_len(data.len()));
            assert(s.subrange(5, 5 + data.len() as int) =~= data);
        },
        TmapOp::Remove { name } => {
            let b = encode_utf8(name);
            lemma_len_roundtrip(b.len());
            assert(s.subrange(1, 5) =~= encode_len(b.len()));
            assert(s.subrange(5, 5 + b.len() as int) =~= b);
        },
        TmapOp::SetKey { key, data } => {
            let b = encode_utf8(key);
            lemma_len_roundtrip(b.len());
            lemma_len_roundtrip(data.len());
            assert(s.subrange(1, 5) =~= encode_len(b.len()));
            assert(s.subrange(5, 5 + b.len() as int) =~= b);
            assert(s.subrange(5 + b.len() as int, 9 + b.len() as int) =~= encode_len(data.len()));
            assert(s.subrange(9 + b.len() as int, 9 + b.len() as int + data.len() as int) =~= data);
        },
        TmapOp::Create { name, data } => {
            let b = encode_utf8(name);
            lemma_len_roundtrip(b.len());
            lemma_len_roundtrip(data.len());
            assert(s.subrange(1, 5) =~= encode_len(b.len()));
            assert(s.subrange(5, 5 + b.len() as int) =~= b);
            assert(s.subrange(5 + b.len() as int, 9 + b.len() as int) =~= encode_len(data.len()));
            assert(s.subrange(9 + b.len() as int, 9 + b.len() as int + data.len() as int) =~= data);
        },
    }
}

/// Parsing the wire form of a sequence of operations gives the sequence
/// back and consumes all of it.
pub proof fn lemma_parse_encoded_ops(ops: Seq<TmapOp>)
    requires
        forall|i: int| 0 <= i < ops.len() ==> wire_fits(#[trigger] ops[i]),
    ensures
        parse_ops(encode_ops(ops)) == (ops, encode_ops(ops).len() as int),
    decreases ops.len(),
{
    if ops.len() == 0 {
        assert(parse_op(encode_ops(ops)) is None);
    } else {
        let head = encode_op(ops[0]);
        let tail = encode_ops(ops.drop_first());
        assert(wire_fits(ops[0]));
        lemma_parse_encoded_op(ops[0], tail);
        assert(head.len() > 0);
        assert((head + tail).skip(head.len() as int) =~= tail);
        assert forall|i: int| 0 <= i < ops.drop_first().len() implies wire_fits(#[trigger] ops.drop_first()[i]) by {
            assert(ops.drop_first()[i] == ops[i + 1]);
        }
        lemma_parse_encoded_ops(ops.drop_first());
        assert(seq![ops[0]] + ops.drop_first() =~= ops);
    }
}

/// Parsing the wire form of a sequence of operations followed by bytes that
/// do not start with an operation gives the sequence back and stops right
/// before those bytes, which are left over.
pub proof fn lemma_parse_encoded_ops_then(ops: Seq<TmapOp>, tail: Seq<u8>)
    requires
        forall|i: int| 0 <= i < ops.len() ==> wire_fits(#[trigger] ops[i]),
        parse_op(tail) is None,
    ensures
        parse_ops(encode_ops(ops) + tail) == (ops, encode_ops(ops).len() as int),
    decreases ops.len(),
{
    if ops.len() == 0 {
        assert(encode_ops(ops) + tail =~= tail);
    } else {
        let head = encode_op(ops[0]);
        let rest = encode_ops(ops.drop_first());
        assert(encode_ops(ops) + tail =~= head + (rest + tail));
        lemma_parse_encoded_op(ops[0], rest + tail);
        assert(head.len() > 0);
        assert((head + (rest + tail)).skip(head.len() as int) =~= rest + tail);
        assert forall|i: int| 0 <= i < ops.drop_first().len() implies wire_fits(#[trigger] ops.drop_first()[i]) by {
            assert(ops.drop_first()[i] == ops[i + 1]);
        }
        lemma_parse_encoded_ops_then(ops.drop_first(), tail);
        assert(seq![ops[0]] + ops.drop_first() =~= ops);
    }
}

} // verus!
