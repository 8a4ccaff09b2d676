//! Admin-socket requests and replies: a zero-terminated JSON command goes
//! out; the reply is a big-endian 32-bit length followed by that many bytes.

use vstd::prelude::*;
use vstd::utf8::encode_utf8;

use byteorder::{BigEndian, ByteOrder};

use crate::error::{RadosError, RadosResult};
use crate::json::{json_quoted, quoted};

verus! {

/// The big-endian value of four bytes.
pub open spec fn be_u32_value(b: Seq<u8>) -> int {
    b[0] * 0x100_0000 + b[1] * 0x1_0000 + b[2] * 0x100 + b[3]
}

/// `byteorder::BigEndian::read_u32`: the first four bytes of `buf`, most
/// significant first.
#[verifier::external_body]
fn be_u32(buf: &[u8]) -> (r: u32)
    requires
        buf@.len() >= 4,
    ensures
        r as int == be_u32_value(buf@),
{
    BigEndian::read_u32(buf)
}

/// The JSON command for an admin-socket command name: `{"prefix":cmd}`.
pub fn admin_command_json(cmd: &str) -> (r: String)
    ensures
        r@ == "{\"prefix\":"@ + json_quoted(cmd@) + "}"@,
{
    let mut s = "{\"prefix\":".to_owned();
    let q = quoted(cmd);
    s.append(q.as_str());
    s.append("}");
    s
}

/// The bytes sent for a raw command: its UTF-8 followed by a zero byte.
pub fn admin_request(cmd: &str) -> (r: Vec<u8>)
    ensures
        r@ == encode_utf8(cmd@).push(0u8),
{
    let mut v = vstd::slice::slice_to_vec(cmd.as_bytes());
    v.push(0u8);
    v
}

/// The length of an admin-socket reply from the bytes read of its header:
/// fewer than four is an error, else the big-endian value of the first four.
pub fn reply_length(header: &[u8]) -> (r: RadosResult<u32>)
    ensures
        header@.len() < 4 ==> (r matches Err(RadosError::Error(m))
            && m@ == "Admin socket: Invalid command or socket did not return any data"@),
        header@.len() >= 4 ==> (r matches Ok(n) && n as int == be_u32_value(header@)),
{
    if header.len() < 4 {
        return Err(RadosError::new(
            "Admin socket: Invalid command or socket did not return any data".to_owned(),
        ));
    }
    Ok(be_u32(header))
}

} // verus!
