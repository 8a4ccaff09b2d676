//! `ceph-volume` records, and the checks around its invocation.

use vstd::prelude::*;

use std::collections::HashMap;

use crate::ceph_version::{older_than, parse_release, CephVersion};
use crate::error::{RadosError, RadosResult};
use crate::text::{lemma_prefix_until_props, prefix_until};

verus! {

/// Tags of a logical volume that `ceph-volume` manages.
#[derive(Clone, Debug)]
pub struct LvmTags {
    pub block_device: Option<String>,
    pub block_uuid: Option<String>,
    pub cephx_lockbox_secret: Option<String>,
    pub cluster_fsid: Option<String>,
    pub cluster_name: Option<String>,
    pub crush_device_class: Option<String>,
    pub data_device: Option<String>,
    pub data_uuid: Option<String>,
    pub db_device: Option<String>,
    pub db_uuid: Option<String>,
    pub encrypted: Option<String>,
    pub journal_device: Option<String>,
    pub journal_uuid: Option<String>,
    pub osd_fsid: Option<String>,
    pub osd_id: Option<String>,
    pub c_type: Option<String>,
    pub vdo: Option<String>,
    pub wal_device: Option<String>,
    pub wal_uuid: Option<String>,
    pub other_tags: Option<HashMap<String, String>>,
}

/// A logical volume of an OSD.
#[derive(Clone, Debug)]
pub struct LvmMeta {
    pub devices: Vec<String>,
    pub lv_name: String,
    pub lv_path: String,
    pub lv_tags: String,
    pub lv_uuid: String,
    pub name: String,
    pub path: String,
    pub tags: LvmTags,
    pub lv_type: String,
    pub vg_name: String,
    pub other_meta: Option<HashMap<String, String>>,
}

/// What `ceph-volume lvm list` reports of a device.
#[derive(Clone, Debug)]
pub enum LvmData {
    Osd(LvmMeta),
    Journal {
        path: Option<String>,
        tags: Option<HashMap<String, String>>,
        j_type: Option<String>,
        other_meta: Option<HashMap<String, String>>,
    },
    Unknown { unknown_meta: Option<HashMap<String, String>> },
}

/// One device of `ceph-volume lvm list`.
#[derive(Clone, Debug)]
pub struct Lvm {
    pub metadata: LvmData,
}

/// The part of a `ceph-volume simple scan` output where its JSON starts:
/// from the first `{` on (what comes before is diagnostics); all of it if
/// there is no `{`.
pub open spec fn json_tail_text(s: Seq<char>) -> Seq<char> {
    if prefix_until(s, '{').len() < s.len() {
        s.skip(prefix_until(s, '{').len() as int)
    } else {
        s
    }
}

/// `r` is what follows the diagnostics in `s`: when `s` holds a `{`, the
/// part of `s` from its first `{` on; else all of `s`.
pub open spec fn starts_at_first_brace(s: Seq<char>, r: Seq<char>) -> bool {
    if exists|i: int| 0 <= i < s.len() && s[i] == '{' {
        &&& r.len() > 0
        &&& r.len() <= s.len()
        &&& r == s.skip(s.len() - r.len())
        &&& r[0] == '{'
        &&& forall|j: int| 0 <= j < s.len() - r.len() ==> s[j] != '{'
    } else {
        r == s
    }
}

/// The JSON of a scan's output starts at the output's first `{`: the text
/// kept is a suffix of the output that starts with `{`, and no `{` comes
/// before it; output with no `{` is kept whole.
pub proof fn lemma_json_tail(s: Seq<char>)
    ensures
        starts_at_first_brace(s, json_tail_text(s)),
{
    lemma_prefix_until_props(s, '{');
    let k = prefix_until(s, '{').len();
    if exists|i: int| 0 <= i < s.len() && s[i] == '{' {
        let i = choose|i: int| 0 <= i < s.len() && s[i] == '{';
        assert(k < s.len()) by {
            if k >= s.len() {
                assert(s[i] != '{');
            }
        }
        let r = json_tail_text(s);
        assert(r =~= s.skip(k as int));
        assert(s.len() - r.len() == k);
    } else {
        if k < s.len() {
            assert(s[k as int] == '{');
        }
    }
}

/// The part of a `ceph-volume simple scan` output where its JSON starts.
pub fn json_tail(s: &str) -> (r: &str)
    ensures
        r@ == json_tail_text(s@),
        starts_at_first_brace(s@, r@),
{
    proof {
        lemma_json_tail(s@);
    }
    let n = s.unicode_len();
    match crate::text::nth_field(s, '{', 0) {
        Some(before) => {
            let k = before.unicode_len();
            if k < n {
                s.substring_char(k, n)
            } else {
                assert(s@.subrange(0, n as int) =~= s@);
                s.substring_char(0, n)
            }
        },
        None => {
            assert(false);
            s
        },
    }
}

/// `ceph-volume` needs Luminous or later: parses the cluster's version line
/// and refuses an older release with `MinVersion(Luminous, found)`.
pub fn check_release(version_line: &str) -> (r: RadosResult<()>)
    ensures
        match parse_release(version_line@) {
            None => r matches Err(RadosError::Parse(m)) && m@ == version_line@,
            Some(v) => if older_than(v, CephVersion::Luminous) {
                r matches Err(RadosError::MinVersion(a, b)) && a == CephVersion::Luminous && b == v
            } else {
                r is Ok
            },
        },
{
    let version = CephVersion::parse(version_line)?;
    crate::cmd::require_version(version, CephVersion::Luminous)
}

} // verus!
