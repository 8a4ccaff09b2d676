//! Decisions and text handling around the librados calls: health, monitor
//! command text, reply lookup, pool lists and return codes.

use vstd::prelude::*;
use vstd::utf8::{decode_utf8, valid_utf8};

use crate::error::{RadosError, RadosResult};
use crate::json::{json_as_string, json_find, json_path, json_text, keys_view, JsonData, JsonValue};
use crate::text::{contains_text, str_contains};
use crate::tmap::utf8_to_string;

pub use crate::tmap::TmapOperation;

verus! {

/// Overall cluster health.
#[derive(Debug, Clone, Copy, PartialEq, Eq, Structural)]
pub enum CephHealth {
    Healthy,
    Warning,
    Error,
}

/// The daemons a command can go to.
#[derive(Debug, Clone, Copy, PartialEq, Eq, Structural)]
pub enum CephCommandTypes {
    Mon,
    Osd,
    Pgs,
}

/// An object as a pool listing yields it.
#[derive(Debug)]
pub struct CephObject {
    pub name: String,
    pub entry_locator: String,
    pub namespace: String,
}

/// The version of the librados library.
#[derive(Debug)]
pub struct RadosVersion {
    pub major: i32,
    pub minor: i32,
    pub extra: i32,
}

/// The health that a `health` reply reports: `Healthy` when it mentions
/// `HEALTH_OK`, else `Warning` when it mentions `HEALTH_WARN`, else `Error`.
pub open spec fn health_of_text(s: Seq<char>) -> CephHealth {
    if contains_text(s, "HEALTH_OK"@) {
        CephHealth::Healthy
    } else if contains_text(s, "HEALTH_WARN"@) {
        CephHealth::Warning
    } else {
        CephHealth::Error
    }
}

/// The health a `health` reply reports; a failed call counts as `Error`.
pub fn health_from_reply(reply: RadosResult<String>) -> (r: CephHealth)
    ensures
        match reply {
            Ok(s) => r == health_of_text(s@),
            Err(_) => r == CephHealth::Error,
        },
{
    match reply {
        Ok(health) => {
            if str_contains(health.as_str(), "HEALTH_OK") {
                CephHealth::Healthy
            } else if str_contains(health.as_str(), "HEALTH_WARN") {
                CephHealth::Warning
            } else {
                CephHealth::Error
            }
        },
        Err(_) => CephHealth::Error,
    }
}

/// `s` without its line feeds.
pub open spec fn without_newlines(s: Seq<char>) -> Seq<char>
    decreases s.len(),
{
    if s.len() == 0 {
        Seq::empty()
    } else if s.last() == '\n' {
        without_newlines(s.drop_last())
    } else {
        without_newlines(s.drop_last()).push(s.last())
    }
}

/// `s.replace("\n", "")`.
pub fn remove_newlines(s: &str) -> (r: String)
    ensures
        r@ == without_newlines(s@),
{
    let n = s.unicode_len();
    let mut out = String::new();
    let mut i: usize = 0;
    assert(s@.subrange(0, 0) =~= Seq::<char>::empty());
    while i < n
        invariant
            n == s@.len(),
            i <= n,
            out@ == without_newlines(s@.subrange(0, i as int)),
        decreases n - i,
    {
        let piece = s.substring_char(i, i + 1);
        let ghost pre = s@.subrange(0, i as int);
        let ghost next = s@.subrange(0, i + 1);
        assert(next.drop_last() =~= pre);
        assert(next.last() == s@[i as int]);
        assert(piece@ =~= seq![s@[i as int]]);
        if s.get_char(i) != '\n' {
            out.append(piece);
            assert(out@ =~= without_newlines(pre).push(s@[i as int]));
        }
        i = i + 1;
    }
    assert(s@.subrange(0, n as int) =~= s@);
    out
}

/// Refuses the command types that have no implementation here: only
/// monitor commands go through.
pub fn check_command_type(cmd_type: &CephCommandTypes) -> (r: RadosResult<()>)
    ensures
        match *cmd_type {
            CephCommandTypes::Mon => r is Ok,
            CephCommandTypes::Osd => r matches Err(RadosError::Error(m)) && m@ == "OSD CMDs Not implemented."@,
            CephCommandTypes::Pgs => r matches Err(RadosError::Error(m)) && m@ == "PGS CMDS Not implemented."@,
        },
{
    match cmd_type {
        CephCommandTypes::Osd => Err(RadosError::Error("OSD CMDs Not implemented.".to_owned())),
        CephCommandTypes::Pgs => Err(RadosError::Error("PGS CMDS Not implemented.".to_owned())),
        CephCommandTypes::Mon => Ok(()),
    }
}

/// The text of a one-argument command: `{"name": "value"}`, or
/// `{"name": "value", "format": "fmt"}`; the parts are put in as they are.
pub open spec fn command_text(name: Seq<char>, value: Seq<char>, format: Option<Seq<char>>) -> Seq<char> {
    match format {
        Some(f) => "{\""@ + name + "\": \""@ + value + "\", \"format\": \""@ + f + "\"}"@,
        None => "{\""@ + name + "\": \""@ + value + "\"}"@,
    }
}

/// The text of a one-argument monitor, OSD or placement-group command.
pub fn command_string(name: &str, value: &str, format: Option<&str>) -> (r: String)
    ensures
        r@ == command_text(name@, value@, match format {
            Some(f) => Some(f@),
            None => None,
        }),
{
    let mut s = "{\"".to_owned();
    s.append(name);
    s.append("\": \"");
    s.append(value);
    match format {
        Some(fmt) => {
            s.append("\", \"format\": \"");
            s.append(fmt);
            s.append("\"}");
        },
        None => {
            s.append("\"}");
        },
    }
    s
}

/// What a command's JSON reply yields: no reply, or one that is not JSON,
/// is `JSON data not found.`; with keys, the value they lead to, or
/// `The attributes were not found in the output.`; without keys, the whole
/// reply.
pub fn find_in_reply(reply: Option<JsonData>, keys: Option<&[&str]>) -> (r: RadosResult<JsonData>)
    ensures
        match reply {
            None => r matches Err(RadosError::Error(m)) && m@ == "JSON data not found."@,
            Some(d) => match keys {
                None => r == Ok::<JsonData, RadosError>(d),
                Some(k) => match json_path(d, keys_view(k@)) {
                    Some(v) => r == Ok::<JsonData, RadosError>(v),
                    None => r matches Err(RadosError::Error(m)) && m@ == "The attributes were not found in the output."@,
                },
            },
        },
{
    match reply {
        None => Err(RadosError::Error("JSON data not found.".to_owned())),
        Some(jsondata) => match keys {
            None => Ok(jsondata),
            Some(k) => match json_find(jsondata, k) {
                Some(data) => Ok(data),
                None => Err(RadosError::Error("The attributes were not found in the output.".to_owned())),
            },
        },
    }
}

/// The daemon version in an admin-socket `version` reply: the JSON text of
/// its `version` member.
pub fn version_from_reply(reply: Option<JsonData>) -> (r: Option<String>)
    ensures
        match reply {
            None => r is None,
            Some(d) => match json_path(d, seq!["version"@]) {
                Some(v) => r matches Some(t) && t@ == json_text(v),
                None => r is None,
            },
        },
{
    match reply {
        None => None,
        Some(d) => {
            let keys = ["version"];
            assert(keys_view(keys@) =~= seq!["version"@]);
            match json_find(d, keys.as_slice()) {
                Some(v) => Some(json_as_string(&v)),
                None => None,
            }
        },
    }
}

/// What `String::from_utf8_lossy` makes of `bytes`.
pub uninterp spec fn utf8_lossy(bytes: Seq<u8>) -> Seq<char>;

/// `String::from_utf8_lossy`, owned: the text of `bytes`, with every
/// invalid sequence replaced by U+FFFD; valid UTF-8 comes through as it is.
#[verifier::external_body]
fn lossy_string(bytes: &[u8]) -> (r: String)
    ensures
        r@ == utf8_lossy(bytes@),
        valid_utf8(bytes@) ==> r@ == decode_utf8(bytes@),
{
    String::from_utf8_lossy(bytes).into_owned()
}

/// What a monitor command's outcome means.
#[derive(Debug)]
pub enum MonReply {
    /// The command succeeded: its data buffer and its status text.
    Done(Vec<u8>, Option<String>),
    /// The command failed and the monitor said why.
    Refused(String),
    /// The command failed with this code and no explanation.
    Failed(i32),
    /// The command succeeded but its status is not UTF-8; these are its bytes.
    StatusNotUtf8(Vec<u8>),
}

/// What a monitor command's return code, data buffer and status bytes
/// (`None` when the monitor sent no status) mean: a negative code with a
/// status is a refusal carrying the status as text (invalid UTF-8
/// replaced), without one a failure with that code; otherwise the data
/// and the status as UTF-8 text, unless the status is not UTF-8.
pub fn mon_reply(ret_code: i32, out: Vec<u8>, status: Option<Vec<u8>>) -> (r: MonReply)
    ensures
        ret_code < 0 ==> match status {
            Some(st) => r matches MonReply::Refused(m) && m@ == utf8_lossy(st@)
                && (valid_utf8(st@) ==> m@ == decode_utf8(st@)),
            None => r == MonReply::Failed(ret_code),
        },
        ret_code >= 0 ==> match status {
            None => r matches MonReply::Done(o, t) && o@ == out@ && t is None,
            Some(st) => if valid_utf8(st@) {
                r matches MonReply::Done(o, t) && o@ == out@ && (match t {
                    Some(text) => text@ == decode_utf8(st@),
                    None => false,
                })
            } else {
                r matches MonReply::StatusNotUtf8(b) && b@ == st@
            },
        },
{
    if ret_code < 0 {
        match status {
            Some(st) => MonReply::Refused(lossy_string(st.as_slice())),
            None => MonReply::Failed(ret_code),
        }
    } else {
        match status {
            None => MonReply::Done(out, None),
            Some(st) => match utf8_to_string(st.as_slice()) {
                Some(text) => MonReply::Done(out, Some(text)),
                None => MonReply::StatusNotUtf8(st),
            },
        }
    }
}

/// What `uuid::Uuid::parse_str` makes of a text: the UUID as a 128-bit
/// value, most significant byte first, or `None` when it is not a UUID.
pub uninterp spec fn uuid_of_text(s: Seq<char>) -> Option<u128>;

/// `uuid::Uuid::parse_str`, the UUID read as `Uuid::as_u128` gives it: the
/// call succeeds exactly where the name says a UUID is, and gives that one.
#[verifier::external_body]
fn parse_uuid(s: &str) -> (r: Result<u128, uuid::Error>)
    ensures
        r is Ok <==> uuid_of_text(s@) is Some,
        r matches Ok(u) ==> uuid_of_text(s@) == Some(u),
{
    match uuid::Uuid::parse_str(s) {
        Ok(u) => Ok(u.as_u128()),
        Err(e) => Err(e),
    }
}

/// `String::from_utf8`: the text of `bytes` when they are valid UTF-8, else
/// the error.
#[verifier::external_body]
fn utf8_string(bytes: Vec<u8>) -> (r: Result<String, std::string::FromUtf8Error>)
    ensures
        r is Ok <==> valid_utf8(bytes@),
        r matches Ok(s) ==> s@ == decode_utf8(bytes@),
{
    String::from_utf8(bytes)
}

/// The cluster's fsid from the bytes librados wrote: they must be UTF-8
/// (else `FromUtf8Error`) and that text a UUID (else `ParseError`).
pub fn fsid_from_buffer(buf: Vec<u8>) -> (r: RadosResult<u128>)
    ensures
        !valid_utf8(buf@) ==> r matches Err(RadosError::FromUtf8Error(_)),
        valid_utf8(buf@) ==> match uuid_of_text(decode_utf8(buf@)) {
            Some(u) => r == Ok::<u128, RadosError>(u),
            None => r matches Err(RadosError::ParseError(_)),
        },
{
    match utf8_string(buf) {
        Ok(text) => match parse_uuid(text.as_str()) {
            Ok(u) => Ok(u),
            Err(e) => Err(RadosError::ParseError(e)),
        },
        Err(e) => Err(RadosError::FromUtf8Error(e)),
    }
}

/// Number of bytes before the first zero byte (all of them if none).
pub open spec fn nonzero_prefix_len(b: Seq<u8>) -> nat
    decreases b.len(),
{
    if b.len() == 0 || b[0] == 0 {
        0
    } else {
        1 + nonzero_prefix_len(b.drop_first())
    }
}

/// Bytes that reading up to and including the next zero byte takes from
/// the front of `b`.
pub open spec fn chunk_len(b: Seq<u8>) -> nat {
    if nonzero_prefix_len(b) < b.len() {
        nonzero_prefix_len(b) + 1
    } else {
        b.len()
    }
}

/// The names in a zero-separated pool list: chunks are read up to and
/// including each zero byte; an empty chunk (a lone zero byte) or the end
/// of the buffer ends the list; each name is its chunk without the last
/// byte.
pub open spec fn pool_name_bytes(b: Seq<u8>) -> Seq<Seq<u8>>
    decreases b.len(),
{
    if b.len() == 0 {
        Seq::empty()
    } else if chunk_len(b) <= 1 {
        Seq::empty()
    } else {
        seq![b.take(chunk_len(b) - 1)] + pool_name_bytes(b.skip(chunk_len(b) as int))
    }
}

proof fn lemma_nonzero_prefix(b: Seq<u8>)
    ensures
        nonzero_prefix_len(b) <= b.len(),
        nonzero_prefix_len(b) < b.len() ==> b[nonzero_prefix_len(b) as int] == 0,
        forall|i: int| 0 <= i < nonzero_prefix_len(b) ==> b[i] != 0,
    decreases b.len(),
{
    if b.len() > 0 && b[0] != 0 {
        lemma_nonzero_prefix(b.drop_first());
        assert forall|i: int| 0 <= i < nonzero_prefix_len(b) implies b[i] != 0 by {
            if i > 0 {
                assert(b[i] == b.drop_first()[i - 1]);
            }
        }
    }
}

/// A pool list as the cluster writes it: each name followed by a zero byte.
pub open spec fn pool_list_bytes(names: Seq<Seq<u8>>) -> Seq<u8>
    decreases names.len(),
{
    if names.len() == 0 {
        Seq::empty()
    } else {
        names[0] + seq![0u8] + pool_list_bytes(names.drop_first())
    }
}

proof fn lemma_nonzero_prefix_of_terminated(x: Seq<u8>, y: Seq<u8>)
    requires
        forall|j: int| 0 <= j < x.len() ==> x[j] != 0,
    ensures
        nonzero_prefix_len(x + seq![0u8] + y) == x.len(),
    decreases x.len(),
{
    let b = x + seq![0u8] + y;
    if x.len() == 0 {
        assert(b[0] == 0);
    } else {
        assert(b[0] == x[0]);
        assert(b.drop_first() =~= x.drop_first() + seq![0u8] + y);
        lemma_nonzero_prefix_of_terminated(x.drop_first(), y);
    }
}

/// Reading back a pool list gives the names written, when each name is
/// non-empty and holds no zero byte, and the list ends there or with a
/// further zero byte.
pub proof fn lemma_pool_list_roundtrip(names: Seq<Seq<u8>>, rest: Seq<u8>)
    requires
        forall|i: int| 0 <= i < names.len() ==> #[trigger] names[i].len() > 0,
        forall|i: int, j: int| 0 <= i < names.len() && 0 <= j < names[i].len() ==> #[trigger] names[i][j] != 0,
        rest.len() == 0 || rest[0] == 0,
    ensures
        pool_name_bytes(pool_list_bytes(names) + rest) == names,
    decreases names.len(),
{
    let b = pool_list_bytes(names) + rest;
    if names.len() == 0 {
        assert(b =~= rest);
        if rest.len() > 0 {
            assert(nonzero_prefix_len(rest) == 0);
        }
        assert(pool_name_bytes(b) =~= names);
    } else {
        let n0 = names[0];
        let tail = names.drop_first();
        assert(b =~= n0 + seq![0u8] + (pool_list_bytes(tail) + rest));
        assert(forall|j: int| 0 <= j < n0.len() ==> n0[j] != 0);
        lemma_nonzero_prefix_of_terminated(n0, pool_list_bytes(tail) + rest);
        assert(chunk_len(b) == n0.len() + 1);
        assert(b.take(n0.len() as int) =~= n0);
        assert(b.skip(n0.len() + 1int) =~= pool_list_bytes(tail) + rest);
        assert forall|i: int| 0 <= i < tail.len() implies #[trigger] tail[i].len() > 0 by {
            assert(tail[i] == names[i + 1]);
        }
        assert forall|i: int, j: int| 0 <= i < tail.len() && 0 <= j < tail[i].len() implies #[trigger] tail[i][j] != 0 by {
            assert(tail[i] == names[i + 1]);
        }
        lemma_pool_list_roundtrip(tail, rest);
        assert(pool_name_bytes(b) =~= seq![n0] + tail);
        assert(seq![n0] + tail =~= names);
    }
}

/// The position of the first zero byte at or after `from` (`buf.len()` if
/// none).
fn next_zero(buf: &[u8], from: usize) -> (r: usize)
    requires
        from <= buf@.len(),
    ensures
        r == from + nonzero_prefix_len(buf@.skip(from as int)),
{
    proof {
        lemma_nonzero_prefix(buf@.skip(from as int));
    }
    let mut i = from;
    while i < buf.len()
        invariant
            from <= i <= buf@.len(),
            forall|j: int| from <= j < i ==> buf@[j] != 0,
        ensures
            from <= i <= buf@.len(),
            forall|j: int| from <= j < i ==> buf@[j] != 0,
            i < buf@.len() ==> buf@[i as int] == 0,
        decreases buf@.len() - i,
    {
        if buf[i] == 0 {
            break;
        }
        i = i + 1;
    }
    let ghost t = buf@.skip(from as int);
    let ghost p = nonzero_prefix_len(t);
    assert(p == i - from) by {
        if p < i - from {
            assert(t[p as int] == buf@[from + p]);
        }
        if p > i - from {
            assert(t[i - from] == buf@[i as int]);
        }
    }
    i
}

/// The pool names in a zero-separated pool list.
pub fn parse_pool_list(buf: &[u8]) -> (r: Vec<String>)
    ensures
        r@.len() == pool_name_bytes(buf@).len(),
        forall|i: int| 0 <= i < r@.len() ==> #[trigger] r@[i]@ == utf8_lossy(pool_name_bytes(buf@)[i]),
        forall|i: int| 0 <= i < r@.len() && valid_utf8(pool_name_bytes(buf@)[i])
            ==> #[trigger] r@[i]@ == decode_utf8(pool_name_bytes(buf@)[i]),
{
    let mut pools: Vec<String> = Vec::new();
    let mut pos: usize = 0;
    assert(buf@.skip(0) =~= buf@);
    loop
        invariant
            pos <= buf@.len(),
            buf@.len() == buf.len(),
            forall|i: int| 0 <= i < pools@.len() ==> #[trigger] pools@[i]@ == utf8_lossy(pool_name_bytes(buf@)[i]),
            forall|i: int| 0 <= i < pools@.len() && valid_utf8(pool_name_bytes(buf@)[i])
                ==> #[trigger] pools@[i]@ == decode_utf8(pool_name_bytes(buf@)[i]),
            pool_name_bytes(buf@).len() == pools@.len() + pool_name_bytes(buf@.skip(pos as int)).len(),
            forall|i: int| 0 <= i < pool_name_bytes(buf@.skip(pos as int)).len()
                ==> pool_name_bytes(buf@)[pools@.len() + i] == #[trigger] pool_name_bytes(buf@.skip(pos as int))[i],
        decreases buf@.len() - pos,
    {
        let ghost t = buf@.skip(pos as int);
        if pos == buf.len() {
            assert(t.len() == 0);
            return pools;
        }
        let z = next_zero(buf, pos);
        let read = if z < buf.len() { z - pos + 1 } else { buf.len() - pos };
        assert(read == chunk_len(t));
        if read == 1 {
            return pools;
        }
        let name = lossy_string(&buf[pos..pos + read - 1]);
        assert(buf@.subrange(pos as int, pos + read - 1) =~= t.take(read - 1));
        assert(t.skip(read as int) =~= buf@.skip(pos + read));
        let ghost rest = pool_name_bytes(t.skip(read as int));
        assert(pool_name_bytes(t) == seq![t.take(read - 1)] + rest);
        assert(pool_name_bytes(t)[0] == t.take(read - 1));
        assert forall|i: int| 0 <= i < rest.len() implies pool_name_bytes(buf@)[pools@.len() + 1 + i] == #[trigger] rest[i] by {
            assert(pool_name_bytes(t)[1 + i] == rest[i]);
        }
        pools.push(name);
        pos = pos + read;
    }
}

/// The text before the first zero byte of a buffer; no zero byte means
/// no text.
pub open spec fn nul_terminated_bytes(b: Seq<u8>) -> Seq<u8> {
    if nonzero_prefix_len(b) < b.len() {
        b.take(nonzero_prefix_len(b) as int)
    } else {
        Seq::empty()
    }
}

/// A name written with a zero byte after it reads back as itself, whatever
/// follows, when it holds no zero byte.
pub proof fn lemma_nul_terminated_name(name: Seq<u8>, rest: Seq<u8>)
    requires
        forall|j: int| 0 <= j < name.len() ==> name[j] != 0,
    ensures
        nul_terminated_bytes(name + seq![0u8] + rest) == name,
{
    lemma_nonzero_prefix_of_terminated(name, rest);
    assert((name + seq![0u8] + rest).take(name.len() as int) =~= name);
}

/// The zero-terminated text at the start of a buffer, or the empty text
/// when the buffer holds no zero byte.
pub fn nul_terminated_text(buf: &[u8]) -> (r: String)
    ensures
        r@ == utf8_lossy(nul_terminated_bytes(buf@)),
        valid_utf8(nul_terminated_bytes(buf@)) ==> r@ == decode_utf8(nul_terminated_bytes(buf@)),
{
    assert(buf@.skip(0) =~= buf@);
    let z = next_zero(buf, 0);
    if z < buf.len() {
        assert(buf@.subrange(0, z as int) =~= buf@.take(z as int));
        lossy_string(&buf[0..z])
    } else {
        assert(buf@.subrange(0, 0) =~= Seq::<u8>::empty());
        lossy_string(&buf[0..0])
    }
}

} // verus!

verus! {

/// `libc::ENOENT`, "no such file or directory": 2 on the targets librados
/// runs on (Linux, macOS and the BSDs), which are the targets meant here;
/// emscripten, Hurd and Haiku give other values.
#[verifier::external_body]
pub(crate) fn enoent() -> (r: i32)
    ensures
        r == 2,
{
    libc::ENOENT
}

/// `libc::ERANGE`, "result too large": 34 on the targets librados runs on
/// (Linux, macOS and the BSDs), which are the targets meant here;
/// emscripten, Hurd and Haiku give other values.
#[verifier::external_body]
pub(crate) fn erange() -> (r: i32)
    ensures
        r == 34,
{
    libc::ERANGE
}

/// What a pool lookup's return code means: a pool id when it is not
/// negative, no pool when it is `-ENOENT`, else the failure code.
pub fn pool_lookup_result(ret_code: i64) -> (r: Result<Option<i64>, i32>)
    ensures
        ret_code >= 0 ==> r == Ok::<Option<i64>, i32>(Some(ret_code)),
        ret_code < 0 && ret_code as i32 == -2 ==> r == Ok::<Option<i64>, i32>(None),
        ret_code < 0 && ret_code as i32 != -2 ==> r == Err::<Option<i64>, i32>(ret_code as i32),
{
    if ret_code >= 0 {
        Ok(Some(ret_code))
    } else if ret_code as i32 == -enoent() {
        Ok(None)
    } else {
        Err(ret_code as i32)
    }
}

/// Whether a pool requires aligned writes, from the return code of the
/// query: a failure code when negative, else whether it is not zero.
pub fn alignment_result(ret_code: i32) -> (r: Result<bool, i32>)
    ensures
        ret_code < 0 ==> r == Err::<bool, i32>(ret_code),
        ret_code >= 0 ==> r == Ok::<bool, i32>(ret_code != 0),
{
    if ret_code < 0 {
        Err(ret_code)
    } else {
        Ok(ret_code != 0)
    }
}

/// One step of an object listing.
#[derive(Debug, Clone, Copy, PartialEq, Eq, Structural)]
pub enum ListStep {
    /// The listing is over.
    End,
    /// The listing failed with this code.
    Failed(i32),
    /// An entry was returned.
    Entry,
}

/// What the return code of a listing step means: `-ENOENT` ends the
/// listing, another negative code is a failure, anything else an entry.
pub fn list_step(ret_code: i32) -> (r: ListStep)
    ensures
        ret_code == -2 ==> r == ListStep::End,
        ret_code < 0 && ret_code != -2 ==> r == ListStep::Failed(ret_code),
        ret_code >= 0 ==> r == ListStep::Entry,
{
    if ret_code == -enoent() {
        ListStep::End
    } else if ret_code < 0 {
        ListStep::Failed(ret_code)
    } else {
        ListStep::Entry
    }
}

/// What one step of an extended-attribute iteration returned: a negative
/// code is a failure (`Failed`), no value and a zero length the end
/// (`End`), anything else an attribute (`Entry`).
pub fn xattr_step(ret_code: i32, value_present: bool, value_len: usize) -> (r: ListStep)
    ensures
        ret_code < 0 ==> r == ListStep::Failed(ret_code),
        ret_code >= 0 && !value_present && value_len == 0 ==> r == ListStep::End,
        ret_code >= 0 && (value_present || value_len != 0) ==> r == ListStep::Entry,
{
    if ret_code < 0 {
        ListStep::Failed(ret_code)
    } else if !value_present && value_len == 0 {
        ListStep::End
    } else {
        ListStep::Entry
    }
}

/// What a call that fills a name buffer returned.
#[derive(Debug, Clone, Copy, PartialEq, Eq, Structural)]
pub enum BufferStep {
    /// The buffer was too small; call again with a larger one.
    Retry,
    /// The call failed with this code.
    Failed(i32),
    /// The call wrote this many bytes.
    Filled(usize),
}

/// What the return code of a call that fills a name buffer means:
/// `-ERANGE` asks for a larger buffer, another negative code is a failure,
/// anything else the number of bytes written.
pub fn buffer_step(ret_code: i32) -> (r: BufferStep)
    ensures
        ret_code == -34 ==> r == BufferStep::Retry,
        ret_code < 0 && ret_code != -34 ==> r == BufferStep::Failed(ret_code),
        ret_code >= 0 ==> r == BufferStep::Filled(ret_code as usize),
{
    if ret_code == -erange() {
        BufferStep::Retry
    } else if ret_code < 0 {
        BufferStep::Failed(ret_code)
    } else {
        BufferStep::Filled(ret_code as usize)
    }
}

} // verus!
