//! Monitor commands: option and state names, reply records, and the
//! commands and reply handling that the monitor calls need.

use vstd::prelude::*;

use std::collections::HashMap;

use crate::ceph_version::{older_than, CephVersion};
use crate::error::{RadosError, RadosResult};
use crate::json::JsonValue;
use crate::mon_command::{set_arg, MonCommand};
use crate::text::{contains_text, decimal, decimal_text, first_line, first_line_of, str_contains};

verus! {

/// Cluster-wide OSD flags that `osd set` and `osd unset` take.
#[derive(Copy, Clone, Debug, PartialEq, Eq, Structural)]
pub enum OsdOption {
    Full,
    Pause,
    NoUp,
    NoDown,
    NoOut,
    NoIn,
    NoBackfill,
    NoRebalance,
    NoRecover,
    NoScrub,
    NoDeepScrub,
    NoTierAgent,
    SortBitwise,
    RecoveryDeletes,
    RequireJewelOsds,
    RequireKrakenOsds,
}

/// The name Ceph uses for each [`OsdOption`].
pub open spec fn osd_option_name(x: OsdOption) -> Seq<char> {
    match x {
        OsdOption::Full => "full"@,
        OsdOption::Pause => "pause"@,
        OsdOption::NoUp => "noup"@,
        OsdOption::NoDown => "nodown"@,
        OsdOption::NoOut => "noout"@,
        OsdOption::NoIn => "noin"@,
        OsdOption::NoBackfill => "nobackfill"@,
        OsdOption::NoRebalance => "norebalance"@,
        OsdOption::NoRecover => "norecover"@,
        OsdOption::NoScrub => "noscrub"@,
        OsdOption::NoDeepScrub => "nodeep-scrub"@,
        OsdOption::NoTierAgent => "notieragent"@,
        OsdOption::SortBitwise => "sortbitwise"@,
        OsdOption::RecoveryDeletes => "recovery_deletes"@,
        OsdOption::RequireJewelOsds => "require_jewel_osds"@,
        OsdOption::RequireKrakenOsds => "require_kraken_osds"@,
    }
}

/// No two OSD flags share a name, so a flag's name identifies it.
pub proof fn lemma_osd_option_names_distinct(a: OsdOption, b: OsdOption)
    ensures
        osd_option_name(a) == osd_option_name(b) ==> a == b,
{
    if osd_option_name(a) == osd_option_name(b) {
        reveal_strlit("full");
        reveal_strlit("pause");
        reveal_strlit("noup");
        reveal_strlit("nodown");
        reveal_strlit("noout");
        reveal_strlit("noin");
        reveal_strlit("nobackfill");
        reveal_strlit("norebalance");
        reveal_strlit("norecover");
        reveal_strlit("noscrub");
        reveal_strlit("nodeep-scrub");
        reveal_strlit("notieragent");
        reveal_strlit("sortbitwise");
        reveal_strlit("recovery_deletes");
        reveal_strlit("require_jewel_osds");
        reveal_strlit("require_kraken_osds");
        let (x, y) = (osd_option_name(a), osd_option_name(b));
        assert(x.len() == y.len());
        assert(forall|i: int| 0 <= i < x.len() ==> x[i] == y[i]);
        assert(x[0] == y[0] && x[1] == y[1] && x[2] == y[2] && x[3] == y[3]);
        assert(x.len() > 4 ==> x[4] == y[4]);
        assert(x.len() > 5 ==> x[5] == y[5]);
        assert(x.len() > 7 ==> x[7] == y[7]);
        assert(x.len() > 8 ==> x[8] == y[8]);
    }
}

impl OsdOption {
    /// The name Ceph uses for this value.
    pub fn as_ref(&self) -> (r: &'static str)
        ensures
            r@ == osd_option_name(*self),
    {
        match self {
            OsdOption::Full => "full",
            OsdOption::Pause => "pause",
            OsdOption::NoUp => "noup",
            OsdOption::NoDown => "nodown",
            OsdOption::NoOut => "noout",
            OsdOption::NoIn => "noin",
            OsdOption::NoBackfill => "nobackfill",
            OsdOption::NoRebalance => "norebalance",
            OsdOption::NoRecover => "norecover",
            OsdOption::NoScrub => "noscrub",
            OsdOption::NoDeepScrub => "nodeep-scrub",
            OsdOption::NoTierAgent => "notieragent",
            OsdOption::SortBitwise => "sortbitwise",
            OsdOption::RecoveryDeletes => "recovery_deletes",
            OsdOption::RequireJewelOsds => "require_jewel_osds",
            OsdOption::RequireKrakenOsds => "require_kraken_osds",
        }
    }

    /// The name Ceph uses for this value, owned.
    pub fn to_string(&self) -> (r: String)
        ensures
            r@ == osd_option_name(*self),
    {
        self.as_ref().to_owned()
    }
}

/// Pool properties that `osd pool get` and `osd pool set` take.
#[derive(Copy, Clone, Debug, PartialEq, Eq, Structural)]
pub enum PoolOption {
    Size,
    MinSize,
    CrashReplayInterval,
    PgNum,
    PgpNum,
    CrushRule,
    HashPsPool,
    NoDelete,
    NoPgChange,
    NoSizeChange,
    WriteFadviceDontNeed,
    NoScrub,
    NoDeepScrub,
    HitSetType,
    HitSetPeriod,
    HitSetCount,
    HitSetFpp,
    UseGmtHitset,
    TargetMaxBytes,
    TargetMaxObjects,
    CacheTargetDirtyRatio,
    CacheTargetDirtyHighRatio,
    CacheTargetFullRatio,
    CacheMinFlushAge,
    CacheMinEvictAge,
    Auid,
    MinReadRecencyForPromote,
    MinWriteRecencyForPromte,
    FastRead,
    HitSetGradeDecayRate,
    HitSetSearchLastN,
    ScrubMinInterval,
    ScrubMaxInterval,
    DeepScrubInterval,
    RecoveryPriority,
    RecoveryOpPriority,
    ScrubPriority,
    CompressionMode,
    CompressionAlgorithm,
    CompressionRequiredRatio,
    CompressionMaxBlobSize,
    CompressionMinBlobSize,
    CsumType,
    CsumMinBlock,
    CsumMaxBlock,
    AllocEcOverwrites,
}

/// The name Ceph uses for each [`PoolOption`].
pub open spec fn pool_option_name(x: PoolOption) -> Seq<char> {
    match x {
        PoolOption::Size => "size"@,
        PoolOption::MinSize => "min_size"@,
        PoolOption::CrashReplayInterval => "crash_replay_interval"@,
        PoolOption::PgNum => "pg_num"@,
        PoolOption::PgpNum => "pgp_num"@,
        PoolOption::CrushRule => "crush_rule"@,
        PoolOption::HashPsPool => "hashpspool"@,
        PoolOption::NoDelete => "nodelete"@,
        PoolOption::NoPgChange => "nopgchange"@,
        PoolOption::NoSizeChange => "nosizechange"@,
        PoolOption::WriteFadviceDontNeed => "write_fadvice_dontneed"@,
        PoolOption::NoScrub => "noscrub"@,
        PoolOption::NoDeepScrub => "nodeep-scrub"@,
        PoolOption::HitSetType => "hit_set_type"@,
        PoolOption::HitSetPeriod => "hit_set_period"@,
        PoolOption::HitSetCount => "hit_set_count"@,
        PoolOption::HitSetFpp => "hit_set_fpp"@,
        PoolOption::UseGmtHitset => "use_gmt_hitset"@,
        PoolOption::TargetMaxBytes => "target_max_bytes"@,
        PoolOption::TargetMaxObjects => "target_max_objects"@,
        PoolOption::CacheTargetDirtyRatio => "cache_target_dirty_ratio"@,
        PoolOption::CacheTargetDirtyHighRatio => "cache_target_dirty_high_ratio"@,
        PoolOption::CacheTargetFullRatio => "cache_target_full_ratio"@,
        PoolOption::CacheMinFlushAge => "cache_min_flush_age"@,
        PoolOption::CacheMinEvictAge => "cachem_min_evict_age"@,
        PoolOption::Auid => "auid"@,
        PoolOption::MinReadRecencyForPromote => "min_read_recency_for_promote"@,
        PoolOption::MinWriteRecencyForPromte => "min_write_recency_for_promote"@,
        PoolOption::FastRead => "fast_read"@,
        PoolOption::HitSetGradeDecayRate => "hit_set_decay_rate"@,
        PoolOption::HitSetSearchLastN => "hit_set_search_last_n"@,
        PoolOption::ScrubMinInterval => "scrub_min_interval"@,
        PoolOption::ScrubMaxInterval => "scrub_max_interval"@,
        PoolOption::DeepScrubInterval => "deep_scrub_interval"@,
        PoolOption::RecoveryPriority => "recovery_priority"@,
        PoolOption::RecoveryOpPriority => "recovery_op_priority"@,
        PoolOption::ScrubPriority => "scrub_priority"@,
        PoolOption::CompressionMode => "compression_mode"@,
        PoolOption::CompressionAlgorithm => "compression_algorithm"@,
        PoolOption::CompressionRequiredRatio => "compression_required_ratio"@,
        PoolOption::CompressionMaxBlobSize => "compression_max_blob_size"@,
        PoolOption::CompressionMinBlobSize => "compression_min_blob_size"@,
        PoolOption::CsumType => "csum_type"@,
        PoolOption::CsumMinBlock => "csum_min_block"@,
        PoolOption::CsumMaxBlock => "csum_max_block"@,
        PoolOption::AllocEcOverwrites => "allow_ec_overwrites"@,
    }
}

/// No two pool options share a name, so an option's name identifies it.
pub proof fn lemma_pool_option_names_distinct(a: PoolOption, b: PoolOption)
    ensures
        pool_option_name(a) == pool_option_name(b) ==> a == b,
{
    if pool_option_name(a) == pool_option_name(b) {
        reveal_strlit("size");
        reveal_strlit("min_size");
        reveal_strlit("crash_replay_interval");
        reveal_strlit("pg_num");
        reveal_strlit("pgp_num");
        reveal_strlit("crush_rule");
        reveal_strlit("hashpspool");
        reveal_strlit("nodelete");
        reveal_strlit("nopgchange");
        reveal_strlit("nosizechange");
        reveal_strlit("write_fadvice_dontneed");
        reveal_strlit("noscrub");
        reveal_strlit("nodeep-scrub");
        reveal_strlit("hit_set_type");
        reveal_strlit("hit_set_period");
        reveal_strlit("hit_set_count");
        reveal_strlit("hit_set_fpp");
        reveal_strlit("use_gmt_hitset");
        reveal_strlit("target_max_bytes");
        reveal_strlit("target_max_objects");
        reveal_strlit("cache_target_dirty_ratio");
        reveal_strlit("cache_target_dirty_high_ratio");
        reveal_strlit("cache_target_full_ratio");
        reveal_strlit("cache_min_flush_age");
        reveal_strlit("cachem_min_evict_age");
        reveal_strlit("auid");
        reveal_strlit("min_read_recency_for_promote");
        reveal_strlit("min_write_recency_for_promote");
        reveal_strlit("fast_read");
        reveal_strlit("hit_set_decay_rate");
        reveal_strlit("hit_set_search_last_n");
        reveal_strlit("scrub_min_interval");
        reveal_strlit("scrub_max_interval");
        reveal_strlit("deep_scrub_interval");
        reveal_strlit("recovery_priority");
        reveal_strlit("recovery_op_priority");
        reveal_strlit("scrub_priority");
        reveal_strlit("compression_mode");
        reveal_strlit("compression_algorithm");
        reveal_strlit("compression_required_ratio");
        reveal_strlit("compression_max_blob_size");
        reveal_strlit("compression_min_blob_size");
        reveal_strlit("csum_type");
        reveal_strlit("csum_min_block");
        reveal_strlit("csum_max_block");
        reveal_strlit("allow_ec_overwrites");
        let (x, y) = (pool_option_name(a), pool_option_name(b));
        assert(x.len() == y.len());
        assert(x.len() > 0 ==> x[0] == y[0]);
        assert(x.len() > 1 ==> x[1] == y[1]);
        assert(x.len() > 2 ==> x[2] == y[2]);
        assert(x.len() > 3 ==> x[3] == y[3]);
        assert(x.len() > 4 ==> x[4] == y[4]);
        assert(x.len() > 5 ==> x[5] == y[5]);
        assert(x.len() > 6 ==> x[6] == y[6]);
        assert(x.len() > 7 ==> x[7] == y[7]);
        assert(x.len() > 8 ==> x[8] == y[8]);
        assert(x.len() > 9 ==> x[9] == y[9]);
        assert(x.len() > 10 ==> x[10] == y[10]);
        assert(x.len() > 11 ==> x[11] == y[11]);
        assert(x.len() > 12 ==> x[12] == y[12]);
        assert(x.len() > 13 ==> x[13] == y[13]);
        assert(x.len() > 14 ==> x[14] == y[14]);
        assert(x.len() > 15 ==> x[15] == y[15]);
        assert(x.len() > 16 ==> x[16] == y[16]);
        assert(x.len() > 17 ==> x[17] == y[17]);
        assert(x.len() > 18 ==> x[18] == y[18]);
        assert(x.len() > 19 ==> x[19] == y[19]);
        assert(x.len() > 20 ==> x[20] == y[20]);
        assert(x.len() > 21 ==> x[21] == y[21]);
        assert(x.len() > 22 ==> x[22] == y[22]);
        assert(x.len() > 23 ==> x[23] == y[23]);
        assert(x.len() > 24 ==> x[24] == y[24]);
        assert(x.len() > 25 ==> x[25] == y[25]);
        assert(x.len() > 26 ==> x[26] == y[26]);
        assert(x.len() > 27 ==> x[27] == y[27]);
        assert(x.len() > 28 ==> x[28] == y[28]);
    }
}

impl PoolOption {
    /// The name Ceph uses for this value.
    pub fn as_ref(&self) -> (r: &'static str)
        ensures
            r@ == pool_option_name(*self),
    {
        match self {
            PoolOption::Size => "size",
            PoolOption::MinSize => "min_size",
            PoolOption::CrashReplayInterval => "crash_replay_interval",
            PoolOption::PgNum => "pg_num",
            PoolOption::PgpNum => "pgp_num",
            PoolOption::CrushRule => "crush_rule",
            PoolOption::HashPsPool => "hashpspool",
            PoolOption::NoDelete => "nodelete",
            PoolOption::NoPgChange => "nopgchange",
            PoolOption::NoSizeChange => "nosizechange",
            PoolOption::WriteFadviceDontNeed => "write_fadvice_dontneed",
            PoolOption::NoScrub => "noscrub",
            PoolOption::NoDeepScrub => "nodeep-scrub",
            PoolOption::HitSetType => "hit_set_type",
            PoolOption::HitSetPeriod => "hit_set_period",
            PoolOption::HitSetCount => "hit_set_count",
            PoolOption::HitSetFpp => "hit_set_fpp",
            PoolOption::UseGmtHitset => "use_gmt_hitset",
            PoolOption::TargetMaxBytes => "target_max_bytes",
            PoolOption::TargetMaxObjects => "target_max_objects",
            PoolOption::CacheTargetDirtyRatio => "cache_target_dirty_ratio",
            PoolOption::CacheTargetDirtyHighRatio => "cache_target_dirty_high_ratio",
            PoolOption::CacheTargetFullRatio => "cache_target_full_ratio",
            PoolOption::CacheMinFlushAge => "cache_min_flush_age",
            PoolOption::CacheMinEvictAge => "cachem_min_evict_age",
            PoolOption::Auid => "auid",
            PoolOption::MinReadRecencyForPromote => "min_read_recency_for_promote",
            PoolOption::MinWriteRecencyForPromte => "min_write_recency_for_promote",
            PoolOption::FastRead => "fast_read",
            PoolOption::HitSetGradeDecayRate => "hit_set_decay_rate",
            PoolOption::HitSetSearchLastN => "hit_set_search_last_n",
            PoolOption::ScrubMinInterval => "scrub_min_interval",
            PoolOption::ScrubMaxInterval => "scrub_max_interval",
            PoolOption::DeepScrubInterval => "deep_scrub_interval",
            PoolOption::RecoveryPriority => "recovery_priority",
            PoolOption::RecoveryOpPriority => "recovery_op_priority",
            PoolOption::ScrubPriority => "scrub_priority",
            PoolOption::CompressionMode => "compression_mode",
            PoolOption::CompressionAlgorithm => "compression_algorithm",
            PoolOption::CompressionRequiredRatio => "compression_required_ratio",
            PoolOption::CompressionMaxBlobSize => "compression_max_blob_size",
            PoolOption::CompressionMinBlobSize => "compression_min_blob_size",
            PoolOption::CsumType => "csum_type",
            PoolOption::CsumMinBlock => "csum_min_block",
            PoolOption::CsumMaxBlock => "csum_max_block",
            PoolOption::AllocEcOverwrites => "allow_ec_overwrites",
        }
    }

    /// The name Ceph uses for this value, owned.
    pub fn to_string(&self) -> (r: String)
        ensures
            r@ == pool_option_name(*self),
    {
        self.as_ref().to_owned()
    }
}

/// Overall health of a cluster or daemon.
#[derive(Copy, Clone, Debug, PartialEq, Eq, Structural)]
pub enum HealthStatus {
    Error,
    Warn,
    Healthy,
}

/// The name Ceph uses for each [`HealthStatus`].
pub open spec fn health_status_name(x: HealthStatus) -> Seq<char> {
    match x {
        HealthStatus::Error => "HEALTH_ERR"@,
        HealthStatus::Warn => "HEALTH_WARN"@,
        HealthStatus::Healthy => "HEALTH_OK"@,
    }
}

impl HealthStatus {
    /// The name Ceph uses for this value.
    pub fn as_ref(&self) -> (r: &'static str)
        ensures
            r@ == health_status_name(*self),
    {
        match self {
            HealthStatus::Error => "HEALTH_ERR",
            HealthStatus::Warn => "HEALTH_WARN",
            HealthStatus::Healthy => "HEALTH_OK",
        }
    }

    /// The name Ceph uses for this value, owned.
    pub fn to_string(&self) -> (r: String)
        ensures
            r@ == health_status_name(*self),
    {
        self.as_ref().to_owned()
    }
}

/// State of a monitor daemon.
#[derive(Copy, Clone, Debug, PartialEq, Eq, Structural)]
pub enum MonState {
    Probing,
    Synchronizing,
    Electing,
    Leader,
    Peon,
    Shutdown,
}

/// The name Ceph uses for each [`MonState`].
pub open spec fn mon_state_name(x: MonState) -> Seq<char> {
    match x {
        MonState::Probing => "probing"@,
        MonState::Synchronizing => "synchronizing"@,
        MonState::Electing => "electing"@,
        MonState::Leader => "leader"@,
        MonState::Peon => "peon"@,
        MonState::Shutdown => "shutdown"@,
    }
}

impl MonState {
    /// The name Ceph uses for this value.
    pub fn as_ref(&self) -> (r: &'static str)
        ensures
            r@ == mon_state_name(*self),
    {
        match self {
            MonState::Probing => "probing",
            MonState::Synchronizing => "synchronizing",
            MonState::Electing => "electing",
            MonState::Leader => "leader",
            MonState::Peon => "peon",
            MonState::Shutdown => "shutdown",
        }
    }

    /// The name Ceph uses for this value, owned.
    pub fn to_string(&self) -> (r: String)
        ensures
            r@ == mon_state_name(*self),
    {
        self.as_ref().to_owned()
    }
}

/// Whether a time-check round has finished.
#[derive(Copy, Clone, Debug, PartialEq, Eq, Structural)]
pub enum RoundStatus {
    Finished,
    OnGoing,
}

/// The name Ceph uses for each [`RoundStatus`].
pub open spec fn round_status_name(x: RoundStatus) -> Seq<char> {
    match x {
        RoundStatus::Finished => "finished"@,
        RoundStatus::OnGoing => "on-going"@,
    }
}

impl RoundStatus {
    /// The name Ceph uses for this value.
    pub fn as_ref(&self) -> (r: &'static str)
        ensures
            r@ == round_status_name(*self),
    {
        match self {
            RoundStatus::Finished => "finished",
            RoundStatus::OnGoing => "on-going",
        }
    }

    /// The name Ceph uses for this value, owned.
    pub fn to_string(&self) -> (r: String)
        ensures
            r@ == round_status_name(*self),
    {
        self.as_ref().to_owned()
    }
}

/// Status of a CRUSH node that `osd tree` can filter on.
#[derive(Copy, Clone, Debug, PartialEq, Eq, Structural)]
pub enum CrushNodeStatus {
    Up,
    Down,
    In,
    Out,
    Destroyed,
}

/// The name Ceph uses for each [`CrushNodeStatus`].
pub open spec fn crush_node_status_name(x: CrushNodeStatus) -> Seq<char> {
    match x {
        CrushNodeStatus::Up => "up"@,
        CrushNodeStatus::Down => "down"@,
        CrushNodeStatus::In => "in"@,
        CrushNodeStatus::Out => "out"@,
        CrushNodeStatus::Destroyed => "destroyed"@,
    }
}

impl CrushNodeStatus {
    /// The name Ceph uses for this value.
    pub fn as_ref(&self) -> (r: &'static str)
        ensures
            r@ == crush_node_status_name(*self),
    {
        match self {
            CrushNodeStatus::Up => "up",
            CrushNodeStatus::Down => "down",
            CrushNodeStatus::In => "in",
            CrushNodeStatus::Out => "out",
            CrushNodeStatus::Destroyed => "destroyed",
        }
    }

    /// The name Ceph uses for this value, owned.
    pub fn to_string(&self) -> (r: String)
        ensures
            r@ == crush_node_status_name(*self),
    {
        self.as_ref().to_owned()
    }
}

/// A monitor as `mon dump` lists it.
#[derive(Debug)]
pub struct CephMon {
    pub rank: i64,
    pub name: String,
    pub addr: String,
}

/// Memory sizes of a host, as numbers or as text depending on the release.
#[derive(Debug, Clone)]
#[allow(inconsistent_fields)]
pub enum Mem {
    MemNum { mem_swap_kb: u64, mem_total_kb: u64 },
    MemStr { mem_swap_kb: String, mem_total_kb: String },
}

/// Manager daemon metadata.
#[derive(Debug)]
pub struct MgrMetadata {
    pub id: String,
    pub addr: Option<String>,
    pub addrs: Option<String>,
    pub arch: String,
    pub ceph_release: Option<String>,
    pub ceph_version: String,
    pub ceph_version_short: Option<String>,
    pub cpu: String,
    pub distro: String,
    pub distro_description: String,
    pub distro_version: String,
    pub hostname: String,
    pub kernel_description: String,
    pub kernel_version: String,
    pub mem: Mem,
    pub os: String,
    pub other_meta: Option<HashMap<String, String>>,
}

/// The object store an OSD runs.
#[derive(Debug, Clone)]
pub enum ObjectStoreType {
    Bluestore,
    Filestore,
}

/// Object-store specific OSD metadata.
#[derive(Debug, Clone)]
pub enum ObjectStoreMeta {
    Bluestore {
        bluefs: String,
        bluefs_db_access_mode: String,
        bluefs_db_block_size: String,
        bluefs_db_dev: Option<String>,
        bluefs_db_dev_node: String,
        bluefs_db_driver: String,
        bluefs_db_model: Option<String>,
        bluefs_db_partition_path: String,
        bluefs_db_rotational: String,
        bluefs_db_serial: Option<String>,
        bluefs_db_size: String,
        bluefs_db_support_discard: Option<String>,
        bluefs_db_type: String,
        bluefs_single_shared_device: String,
        bluefs_slow_access_mode: Option<String>,
        bluefs_slow_block_size: Option<String>,
        bluefs_slow_dev: Option<String>,
        bluefs_slow_dev_node: Option<String>,
        bluefs_slow_driver: Option<String>,
        bluefs_slow_model: Option<String>,
        bluefs_slow_partition_path: Option<String>,
        bluefs_slow_rotational: Option<String>,
        bluefs_slow_size: Option<String>,
        bluefs_slow_type: Option<String>,
        bluefs_wal_access_mode: Option<String>,
        bluefs_wal_block_size: Option<String>,
        bluefs_wal_dev: Option<String>,
        bluefs_wal_dev_node: Option<String>,
        bluefs_wal_driver: Option<String>,
        bluefs_wal_model: Option<String>,
        bluefs_wal_partition_path: Option<String>,
        bluefs_wal_rotational: Option<String>,
        bluefs_wal_serial: Option<String>,
        bluefs_wal_size: Option<String>,
        bluefs_wal_type: Option<String>,
        bluestore_bdev_access_mode: String,
        bluestore_bdev_block_size: String,
        bluestore_bdev_dev: Option<String>,
        bluestore_bdev_dev_node: String,
        bluestore_bdev_driver: String,
        bluestore_bdev_model: Option<String>,
        bluestore_bdev_partition_path: String,
        bluestore_bdev_rotational: String,
        bluestore_bdev_size: String,
        bluestore_bdev_support_discard: Option<String>,
        bluestore_bdev_type: String,
    },
    Filestore {
        backend_filestore_dev_node: String,
        backend_filestore_partition_path: String,
        filestore_backend: String,
        filestore_f_type: String,
    },
}

/// OSD daemon metadata.
#[derive(Debug, Clone)]
pub struct OsdMetadata {
    pub id: u64,
    pub arch: String,
    pub back_addr: String,
    pub back_iface: Option<String>,
    pub ceph_release: Option<String>,
    pub ceph_version: String,
    pub ceph_version_short: Option<String>,
    pub cpu: String,
    pub default_device_class: Option<String>,
    pub device_ids: Option<String>,
    pub devices: Option<String>,
    pub distro: String,
    pub distro_description: String,
    pub distro_version: String,
    pub front_addr: String,
    pub front_iface: Option<String>,
    pub hb_back_addr: String,
    pub hb_front_addr: String,
    pub hostname: String,
    pub journal_rotational: Option<String>,
    pub kernel_description: String,
    pub kernel_version: String,
    pub mem_swap_kb: String,
    pub mem_total_kb: String,
    pub os: String,
    pub osd_data: String,
    pub osd_journal: Option<String>,
    pub osd_objectstore: ObjectStoreType,
    pub rotational: Option<String>,
    pub objectstore_meta: ObjectStoreMeta,
    pub other_meta: Option<HashMap<String, String>>,
}

/// Number of placement groups in one state.
#[derive(Debug, Clone)]
pub struct PgState {
    pub name: String,
    pub num: u64,
}

/// A standby manager daemon.
#[derive(Debug)]
pub struct MgrStandby {
    pub gid: u64,
    pub name: String,
    pub available_modules: Vec<String>,
}

/// The manager map.
#[derive(Debug)]
pub struct MgrDump {
    pub epoch: u64,
    pub active_gid: u64,
    pub active_name: String,
    pub active_addr: String,
    pub available: bool,
    pub standbys: Vec<MgrStandby>,
    pub modules: Vec<String>,
    pub available_modules: Vec<String>,
}

/// The monitor map as `mon dump` gives it.
#[derive(Debug)]
pub struct MonDump {
    pub epoch: i64,
    pub fsid: String,
    pub modified: String,
    pub created: String,
    pub mons: Vec<CephMon>,
    pub quorum: Vec<i64>,
}

/// A probe peer of a monitor: its address vector, or a plain address.
#[derive(Debug)]
pub enum ExtraProbePeer {
    Present { addrvec: Vec<AddrVec> },
    Absent(String),
}

/// One address of a daemon.
#[derive(Debug)]
pub struct AddrVec {
    pub addr_type: String,
    pub addr: String,
    pub nonce: i32,
}

/// A monitor as the monitor map lists it.
#[derive(Debug)]
pub struct Mon {
    pub rank: u64,
    pub name: String,
    pub addr: String,
}

/// Health of the cluster's services.
#[derive(Debug)]
pub struct Health {
    pub health_services: Vec<ServiceHealth>,
}

/// Health of one service.
#[derive(Debug)]
pub struct ServiceHealth {
    pub mons: Vec<MonHealth>,
}

/// Health of one monitor.
#[derive(Debug)]
pub struct MonHealth {
    pub name: String,
    pub kb_total: u64,
    pub kb_used: u64,
    pub kb_avail: u64,
    pub avail_percent: u8,
    pub last_updated: String,
    pub store_stats: StoreStats,
    pub health: HealthStatus,
}

/// Store usage of a monitor.
#[derive(Debug)]
pub struct StoreStats {
    pub bytes_total: u64,
    pub bytes_sst: u64,
    pub bytes_log: u64,
    pub bytes_misc: u64,
    pub last_updated: String,
}

} // verus!

verus! {

/// Each pool option goes on the wire under Ceph's fixed name for it, the
/// name `osd pool get` and `osd pool set` take as `var`.
pub proof fn lemma_pool_option_wire_names()
    ensures
        pool_option_name(PoolOption::Size) == "size"@,
        pool_option_name(PoolOption::MinSize) == "min_size"@,
        pool_option_name(PoolOption::CrashReplayInterval) == "crash_replay_interval"@,
        pool_option_name(PoolOption::PgNum) == "pg_num"@,
        pool_option_name(PoolOption::PgpNum) == "pgp_num"@,
        pool_option_name(PoolOption::CrushRule) == "crush_rule"@,
        pool_option_name(PoolOption::HashPsPool) == "hashpspool"@,
        pool_option_name(PoolOption::NoDelete) == "nodelete"@,
        pool_option_name(PoolOption::NoPgChange) == "nopgchange"@,
        pool_option_name(PoolOption::NoSizeChange) == "nosizechange"@,
        pool_option_name(PoolOption::WriteFadviceDontNeed) == "write_fadvice_dontneed"@,
        pool_option_name(PoolOption::NoScrub) == "noscrub"@,
        pool_option_name(PoolOption::NoDeepScrub) == "nodeep-scrub"@,
        pool_option_name(PoolOption::HitSetType) == "hit_set_type"@,
        pool_option_name(PoolOption::HitSetPeriod) == "hit_set_period"@,
        pool_option_name(PoolOption::HitSetCount) == "hit_set_count"@,
        pool_option_name(PoolOption::HitSetFpp) == "hit_set_fpp"@,
        pool_option_name(PoolOption::UseGmtHitset) == "use_gmt_hitset"@,
        pool_option_name(PoolOption::TargetMaxBytes) == "target_max_bytes"@,
        pool_option_name(PoolOption::TargetMaxObjects) == "target_max_objects"@,
        pool_option_name(PoolOption::CacheTargetDirtyRatio) == "cache_target_dirty_ratio"@,
        pool_option_name(PoolOption::CacheTargetDirtyHighRatio) == "cache_target_dirty_high_ratio"@,
        pool_option_name(PoolOption::CacheTargetFullRatio) == "cache_target_full_ratio"@,
        pool_option_name(PoolOption::CacheMinFlushAge) == "cache_min_flush_age"@,
        pool_option_name(PoolOption::CacheMinEvictAge) == "cachem_min_evict_age"@,
        pool_option_name(PoolOption::Auid) == "auid"@,
        pool_option_name(PoolOption::MinReadRecencyForPromote) == "min_read_recency_for_promote"@,
        pool_option_name(PoolOption::MinWriteRecencyForPromte) == "min_write_recency_for_promote"@,
        pool_option_name(PoolOption::FastRead) == "fast_read"@,
        pool_option_name(PoolOption::HitSetGradeDecayRate) == "hit_set_decay_rate"@,
        pool_option_name(PoolOption::HitSetSearchLastN) == "hit_set_search_last_n"@,
        pool_option_name(PoolOption::ScrubMinInterval) == "scrub_min_interval"@,
        pool_option_name(PoolOption::ScrubMaxInterval) == "scrub_max_interval"@,
        pool_option_name(PoolOption::DeepScrubInterval) == "deep_scrub_interval"@,
        pool_option_name(PoolOption::RecoveryPriority) == "recovery_priority"@,
        pool_option_name(PoolOption::RecoveryOpPriority) == "recovery_op_priority"@,
        pool_option_name(PoolOption::ScrubPriority) == "scrub_priority"@,
        pool_option_name(PoolOption::CompressionMode) == "compression_mode"@,
        pool_option_name(PoolOption::CompressionAlgorithm) == "compression_algorithm"@,
        pool_option_name(PoolOption::CompressionRequiredRatio) == "compression_required_ratio"@,
        pool_option_name(PoolOption::CompressionMaxBlobSize) == "compression_max_blob_size"@,
        pool_option_name(PoolOption::CompressionMinBlobSize) == "compression_min_blob_size"@,
        pool_option_name(PoolOption::CsumType) == "csum_type"@,
        pool_option_name(PoolOption::CsumMinBlock) == "csum_min_block"@,
        pool_option_name(PoolOption::CsumMaxBlock) == "csum_max_block"@,
        pool_option_name(PoolOption::AllocEcOverwrites) == "allow_ec_overwrites"@,
{
}

/// Each OSD flag goes on the wire under Ceph's fixed name for it, the name
/// `osd set` and `osd unset` take as `key`.
pub proof fn lemma_osd_option_wire_names()
    ensures
        osd_option_name(OsdOption::Full) == "full"@,
        osd_option_name(OsdOption::Pause) == "pause"@,
        osd_option_name(OsdOption::NoUp) == "noup"@,
        osd_option_name(OsdOption::NoDown) == "nodown"@,
        osd_option_name(OsdOption::NoOut) == "noout"@,
        osd_option_name(OsdOption::NoIn) == "noin"@,
        osd_option_name(OsdOption::NoBackfill) == "nobackfill"@,
        osd_option_name(OsdOption::NoRebalance) == "norebalance"@,
        osd_option_name(OsdOption::NoRecover) == "norecover"@,
        osd_option_name(OsdOption::NoScrub) == "noscrub"@,
        osd_option_name(OsdOption::NoDeepScrub) == "nodeep-scrub"@,
        osd_option_name(OsdOption::NoTierAgent) == "notieragent"@,
        osd_option_name(OsdOption::SortBitwise) == "sortbitwise"@,
        osd_option_name(OsdOption::RecoveryDeletes) == "recovery_deletes"@,
        osd_option_name(OsdOption::RequireJewelOsds) == "require_jewel_osds"@,
        osd_option_name(OsdOption::RequireKrakenOsds) == "require_kraken_osds"@,
{
}

/// Each CRUSH node status goes on the wire under Ceph's fixed state name,
/// the name `osd tree` takes in `states`.
pub proof fn lemma_crush_node_status_wire_names()
    ensures
        crush_node_status_name(CrushNodeStatus::Up) == "up"@,
        crush_node_status_name(CrushNodeStatus::Down) == "down"@,
        crush_node_status_name(CrushNodeStatus::In) == "in"@,
        crush_node_status_name(CrushNodeStatus::Out) == "out"@,
        crush_node_status_name(CrushNodeStatus::Destroyed) == "destroyed"@,
{
}

/// `v` is the JSON string `s`.
pub open spec fn is_str(v: JsonValue, s: Seq<char>) -> bool {
    v matches JsonValue::String(t) && t@ == s
}

/// `v` is a JSON number written as `text`.
pub open spec fn is_number(v: JsonValue, text: Seq<char>) -> bool {
    v matches JsonValue::Number(t) && t@ == text
}

/// `v` is a JSON array of the strings `items`.
pub open spec fn is_str_array(v: JsonValue, items: Seq<Seq<char>>) -> bool {
    v matches JsonValue::Array(a) && a@.len() == items.len() && forall|i: int|
        0 <= i < items.len() ==> #[trigger] is_str(a@[i], items[i])
}

/// `v` is a JSON object whose members have the names `keys`, in order.
pub open spec fn has_members(v: JsonValue, keys: Seq<Seq<char>>) -> bool {
    v matches JsonValue::Object(m) && m@.len() == keys.len() && forall|i: int|
        0 <= i < keys.len() ==> #[trigger] m@[i].0@ == keys[i]
}

/// The value of the `i`-th member of an object.
pub open spec fn member_at(v: JsonValue, i: int) -> JsonValue {
    v->Object_0@[i].1
}

/// `v` is a JSON object whose members are the given names and strings,
/// in order.
pub open spec fn is_string_object(v: JsonValue, pairs: Seq<(Seq<char>, Seq<char>)>) -> bool {
    &&& has_members(v, pairs.map_values(|p: (Seq<char>, Seq<char>)| p.0))
    &&& forall|i: int| 0 <= i < pairs.len() ==> #[trigger] is_str(member_at(v, i), pairs[i].1)
}

/// The text `kind.id` that names an entity such as `osd.3` or `mgr.x`.
pub open spec fn entity_text(kind: Seq<char>, id: Seq<char>) -> Seq<char> {
    kind + "."@ + id
}

fn str_value(s: &str) -> (r: JsonValue)
    ensures
        is_str(r, s@),
{
    JsonValue::String(s.to_owned())
}

fn member(key: &str, value: JsonValue) -> (r: (String, JsonValue))
    ensures
        r.0@ == key@,
        r.1 == value,
{
    (key.to_owned(), value)
}

/// The entity name `kind.id`.
pub fn entity(kind: &str, id: &str) -> (r: String)
    ensures
        r@ == entity_text(kind@, id@),
{
    let mut s = kind.to_owned();
    s.append(".");
    s.append(id);
    s
}

/// The entity name of an OSD, `osd.N`.
pub fn osd_entity(osd_id: u64) -> (r: String)
    ensures
        r@ == entity_text("osd"@, decimal_text(osd_id as nat)),
{
    let n = decimal(osd_id);
    entity("osd", n.as_str())
}

/// A JSON object of string members, in the order given.
#[verifier::spinoff_prover]
pub fn string_object(pairs: &[(&str, &str)]) -> (r: JsonValue)
    ensures
        is_string_object(r, pairs@.map_values(|p: (&str, &str)| (p.0@, p.1@))),
{
    let ghost want = pairs@.map_values(|p: (&str, &str)| (p.0@, p.1@));
    let mut m: Vec<(String, JsonValue)> = Vec::new();
    let mut i: usize = 0;
    while i < pairs.len()
        invariant
            i <= pairs@.len(),
            want == pairs@.map_values(|p: (&str, &str)| (p.0@, p.1@)),
            m@.len() == i,
            forall|j: int| 0 <= j < i ==> #[trigger] m@[j].0@ == want[j].0 && is_str(m@[j].1, want[j].1),
        decreases pairs@.len() - i,
    {
        let (k, v) = pairs[i];
        m.push(member(k, str_value(v)));
        i = i + 1;
    }
    assert(m@.len() == want.len());
    let r = JsonValue::Object(m);
    assert(has_members(r, want.map_values(|p: (Seq<char>, Seq<char>)| p.0)));
    assert forall|j: int| 0 <= j < want.len() implies #[trigger] is_str(member_at(r, j), want[j].1) by {
        assert(m@[j].0@ == want[j].0 && is_str(m@[j].1, want[j].1));
        assert(member_at(r, j) == m@[j].1);
    }
    r
}

/// `osd rm`, `osd out` and `osd safe-to-destroy` on one OSD:
/// `{"ids": ["N"], "prefix": prefix}`.
pub fn osd_ids_command(prefix: &str, osd_id: u64) -> (r: JsonValue)
    ensures
        has_members(r, seq!["ids"@, "prefix"@]),
        is_str_array(member_at(r, 0), seq![decimal_text(osd_id as nat)]),
        is_str(member_at(r, 1), prefix@),
{
    let id = decimal(osd_id);
    let mut ids: Vec<JsonValue> = Vec::new();
    ids.push(JsonValue::String(id));
    let mut m: Vec<(String, JsonValue)> = Vec::new();
    m.push(member("ids", JsonValue::Array(ids)));
    m.push(member("prefix", str_value(prefix)));
    let r = JsonValue::Object(m);
    assert(is_str(member_at(r, 0)->Array_0@[0], decimal_text(osd_id as nat)));
    r
}

/// `osd tree` restricted to OSDs in one state:
/// `{"format": "json-pretty", "prefix": "osd tree", "states": [status]}`.
pub fn osd_tree_status_command(status: &CrushNodeStatus) -> (r: JsonValue)
    ensures
        has_members(r, seq!["format"@, "prefix"@, "states"@]),
        is_str(member_at(r, 0), "json-pretty"@),
        is_str(member_at(r, 1), "osd tree"@),
        is_str_array(member_at(r, 2), seq![crush_node_status_name(*status)]),
{
    let mut states: Vec<JsonValue> = Vec::new();
    states.push(str_value(status.as_ref()));
    let mut m: Vec<(String, JsonValue)> = Vec::new();
    m.push(member("format", str_value("json-pretty")));
    m.push(member("prefix", str_value("osd tree")));
    m.push(member("states", JsonValue::Array(states)));
    let r = JsonValue::Object(m);
    assert(is_str(member_at(r, 2)->Array_0@[0], crush_node_status_name(*status)));
    r
}

/// `mon getmap`, for a given epoch or the latest:
/// `{"epoch": N, "prefix": "mon getmap"}` or `{"prefix": "mon getmap"}`.
pub fn mon_getmap_command(epoch: Option<u64>) -> (r: JsonValue)
    ensures
        match epoch {
            Some(e) => has_members(r, seq!["epoch"@, "prefix"@]) && is_number(member_at(r, 0), decimal_text(e as nat))
                && is_str(member_at(r, 1), "mon getmap"@),
            None => has_members(r, seq!["prefix"@]) && is_str(member_at(r, 0), "mon getmap"@),
        },
{
    let mut m: Vec<(String, JsonValue)> = Vec::new();
    if let Some(e) = epoch {
        m.push(member("epoch", JsonValue::Number(decimal(e))));
    }
    m.push(member("prefix", str_value("mon getmap")));
    JsonValue::Object(m)
}

/// `auth add` for an entity with the given capabilities:
/// `{"caps": [...], "entity": entity, "prefix": "auth add"}`.
pub fn auth_add_command(entity_name: &str, caps: &[&str]) -> (r: JsonValue)
    ensures
        has_members(r, seq!["caps"@, "entity"@, "prefix"@]),
        is_str_array(member_at(r, 0), caps@.map_values(|c: &str| c@)),
        is_str(member_at(r, 1), entity_name@),
        is_str(member_at(r, 2), "auth add"@),
{
    let ghost want = caps@.map_values(|c: &str| c@);
    let mut items: Vec<JsonValue> = Vec::new();
    let mut i: usize = 0;
    while i < caps.len()
        invariant
            i <= caps@.len(),
            want == caps@.map_values(|c: &str| c@),
            items@.len() == i,
            forall|j: int| 0 <= j < i ==> #[trigger] is_str(items@[j], want[j]),
        decreases caps@.len() - i,
    {
        items.push(str_value(caps[i]));
        i = i + 1;
    }
    let mut m: Vec<(String, JsonValue)> = Vec::new();
    m.push(member("caps", JsonValue::Array(items)));
    m.push(member("entity", str_value(entity_name)));
    m.push(member("prefix", str_value("auth add")));
    JsonValue::Object(m)
}

/// The capabilities a new manager gets.
pub open spec fn mgr_caps() -> Seq<Seq<char>> {
    seq!["mon"@, "allow profile mgr"@, "osd"@, "allow *"@, "mds"@, "allow *"@]
}

/// The capabilities a new OSD gets.
pub open spec fn osd_caps() -> Seq<Seq<char>> {
    seq!["mon"@, "allow rwx"@, "osd"@, "allow *"@]
}

/// `auth add` for a new manager daemon `mgr.<mgr_id>`.
pub fn mgr_auth_add_command(mgr_id: &str) -> (r: JsonValue)
    ensures
        has_members(r, seq!["caps"@, "entity"@, "prefix"@]),
        is_str_array(member_at(r, 0), mgr_caps()),
        is_str(member_at(r, 1), entity_text("mgr"@, mgr_id@)),
        is_str(member_at(r, 2), "auth add"@),
{
    let e = entity("mgr", mgr_id);
    let caps = ["mon", "allow profile mgr", "osd", "allow *", "mds", "allow *"];
    let r = auth_add_command(e.as_str(), caps.as_slice());
    assert(caps@.map_values(|c: &str| c@) =~= mgr_caps());
    r
}

/// `auth add` for a new OSD daemon `osd.N`.
pub fn osd_auth_add_command(osd_id: u64) -> (r: JsonValue)
    ensures
        has_members(r, seq!["caps"@, "entity"@, "prefix"@]),
        is_str_array(member_at(r, 0), osd_caps()),
        is_str(member_at(r, 1), entity_text("osd"@, decimal_text(osd_id as nat))),
        is_str(member_at(r, 2), "auth add"@),
{
    let e = osd_entity(osd_id);
    let caps = ["mon", "allow rwx", "osd", "allow *"];
    let r = auth_add_command(e.as_str(), caps.as_slice());
    assert(caps@.map_values(|c: &str| c@) =~= osd_caps());
    r
}

/// `osd metadata` for one OSD: `{"id": N, "prefix": "osd metadata"}`.
pub fn osd_metadata_by_id_command(osd_id: u64) -> (r: JsonValue)
    ensures
        has_members(r, seq!["id"@, "prefix"@]),
        is_number(member_at(r, 0), decimal_text(osd_id as nat)),
        is_str(member_at(r, 1), "osd metadata"@),
{
    let mut m: Vec<(String, JsonValue)> = Vec::new();
    m.push(member("id", JsonValue::Number(decimal(osd_id))));
    m.push(member("prefix", str_value("osd metadata")));
    JsonValue::Object(m)
}

/// `osd set` for a flag; with `force`, the confirmation the monitor asks for
/// risky flags: `{"key": flag, "prefix": "osd set"[, "sure": "--yes-i-really-mean-it"]}`.
pub fn osd_set_command(key: &OsdOption, force: bool) -> (r: JsonValue)
    ensures
        force ==> is_string_object(r, seq![("key"@, osd_option_name(*key)), ("prefix"@, "osd set"@), ("sure"@, "--yes-i-really-mean-it"@)]),
        !force ==> is_string_object(r, seq![("key"@, osd_option_name(*key)), ("prefix"@, "osd set"@)]),
{
    let mut m: Vec<(String, JsonValue)> = Vec::new();
    m.push(member("key", str_value(key.as_ref())));
    m.push(member("prefix", str_value("osd set")));
    if force {
        m.push(member("sure", str_value("--yes-i-really-mean-it")));
    }
    let r = JsonValue::Object(m);
    if force {
        let ghost want = seq![("key"@, osd_option_name(*key)), ("prefix"@, "osd set"@), ("sure"@, "--yes-i-really-mean-it"@)];
        assert(want.map_values(|p: (Seq<char>, Seq<char>)| p.0) =~= seq!["key"@, "prefix"@, "sure"@]);
    } else {
        let ghost want = seq![("key"@, osd_option_name(*key)), ("prefix"@, "osd set"@)];
        assert(want.map_values(|p: (Seq<char>, Seq<char>)| p.0) =~= seq!["key"@, "prefix"@]);
    }
    r
}

/// `mgr module enable`; with `force`, enables a module that the manager
/// would refuse: `{"force": "--force", "module": module, "prefix": ...}`.
pub fn mgr_enable_module_command(module: &str, force: bool) -> (r: JsonValue)
    ensures
        force ==> is_string_object(r, seq![("force"@, "--force"@), ("module"@, module@), ("prefix"@, "mgr module enable"@)]),
        !force ==> is_string_object(r, seq![("module"@, module@), ("prefix"@, "mgr module enable"@)]),
{
    let mut m: Vec<(String, JsonValue)> = Vec::new();
    if force {
        m.push(member("force", str_value("--force")));
    }
    m.push(member("module", str_value(module)));
    m.push(member("prefix", str_value("mgr module enable")));
    let r = JsonValue::Object(m);
    if force {
        let ghost want = seq![("force"@, "--force"@), ("module"@, module@), ("prefix"@, "mgr module enable"@)];
        assert(want.map_values(|p: (Seq<char>, Seq<char>)| p.0) =~= seq!["force"@, "module"@, "prefix"@]);
    } else {
        let ghost want = seq![("module"@, module@), ("prefix"@, "mgr module enable"@)];
        assert(want.map_values(|p: (Seq<char>, Seq<char>)| p.0) =~= seq!["module"@, "prefix"@]);
    }
    r
}

/// `osd create`, for a given id or for the next free one:
/// `{"id": "osd.N", "prefix": "osd create"}` or `{"prefix": "osd create"}`.
pub fn osd_create_command(id: Option<u64>) -> (r: JsonValue)
    ensures
        match id {
            Some(n) => is_string_object(r, seq![("id"@, entity_text("osd"@, decimal_text(n as nat))), ("prefix"@, "osd create"@)]),
            None => is_string_object(r, seq![("prefix"@, "osd create"@)]),
        },
{
    let mut m: Vec<(String, JsonValue)> = Vec::new();
    if let Some(n) = id {
        let e = osd_entity(n);
        m.push(member("id", JsonValue::String(e)));
    }
    m.push(member("prefix", str_value("osd create")));
    let r = JsonValue::Object(m);
    match id {
        Some(n) => {
            let ghost want = seq![("id"@, entity_text("osd"@, decimal_text(n as nat))), ("prefix"@, "osd create"@)];
            assert(want.map_values(|p: (Seq<char>, Seq<char>)| p.0) =~= seq!["id"@, "prefix"@]);
        },
        None => {
            let ghost want = seq![("prefix"@, "osd create"@)];
            assert(want.map_values(|p: (Seq<char>, Seq<char>)| p.0) =~= seq!["prefix"@]);
        },
    }
    r
}

} // verus!

verus! {

/// `std::num::ParseIntError`, the error of an integer that does not parse.
#[verifier::external_type_specification]
#[verifier::external_body]
pub struct ExParseIntError(std::num::ParseIntError);

/// The characters are all ASCII digits.
pub open spec fn all_digits(s: Seq<char>) -> bool {
    forall|i: int| 0 <= i < s.len() ==> '0' <= #[trigger] s[i] <= '9'
}

/// The value of a string of decimal digits.
pub open spec fn digits_value(s: Seq<char>) -> int
    decreases s.len(),
{
    if s.len() == 0 {
        0
    } else {
        digits_value(s.drop_last()) * 10 + (s.last() as int - 0x30)
    }
}

/// `u64::from_str`: an optional `+` followed by one or more decimal digits
/// whose value fits in 64 bits; anything else (whitespace included) does
/// not parse.
pub open spec fn parse_u64_text(s: Seq<char>) -> Option<u64> {
    let d = if s.len() > 0 && s[0] == '+' {
        s.drop_first()
    } else {
        s
    };
    if d.len() > 0 && all_digits(d) && digits_value(d) <= u64::MAX {
        Some(digits_value(d) as u64)
    } else {
        None
    }
}

/// `u64::from_str`: the value of an optional `+` and decimal digits that
/// fit in 64 bits, else the error.
#[verifier::external_body]
pub(crate) fn parse_u64(s: &str) -> (r: Result<u64, std::num::ParseIntError>)
    ensures
        r is Ok <==> parse_u64_text(s@) is Some,
        r matches Ok(n) ==> parse_u64_text(s@) == Some(n),
{
    s.parse::<u64>()
}

/// Every item is a JSON string.
pub open spec fn all_strings(items: Seq<JsonValue>) -> bool {
    forall|i: int| 0 <= i < items.len() ==> #[trigger] items[i] is String
}

/// A reply that is an array of strings, as those strings; `None` for any
/// other value.
pub fn string_list(v: &JsonValue) -> (r: Option<Vec<String>>)
    ensures
        match *v {
            JsonValue::Array(items) => if all_strings(items@) {
                &&& r is Some
                &&& r.unwrap()@.len() == items@.len()
                &&& forall|i: int| 0 <= i < items@.len() ==> #[trigger] r.unwrap()@[i]@ == items@[i]->String_0@
            } else {
                r is None
            },
            _ => r is None,
        },
{
    match v {
        JsonValue::Array(items) => {
            let mut out: Vec<String> = Vec::new();
            let mut i: usize = 0;
            while i < items.len()
                invariant
                    i <= items@.len(),
                    out@.len() == i,
                    forall|j: int| 0 <= j < i ==> #[trigger] items@[j] is String && out@[j]@ == items@[j]->String_0@,
                    *v == JsonValue::Array(*items),
                decreases items@.len() - i,
            {
                match &items[i] {
                    JsonValue::String(t) => out.push(t.clone()),
                    _ => {
                        assert(!(items@[i as int] is String));
                        return None;
                    },
                }
                i = i + 1;
            }
            Some(out)
        },
        _ => None,
    }
}

/// A reply that is a JSON string, as that text; `None` for any other value.
pub fn json_string(v: &JsonValue) -> (r: Option<String>)
    ensures
        match *v {
            JsonValue::String(t) => r is Some && r.unwrap()@ == t@,
            _ => r is None,
        },
{
    match v {
        JsonValue::String(t) => Some(t.clone()),
        _ => None,
    }
}

/// The 64-bit count a member holds: its value must be a JSON number that
/// reads as one.
pub open spec fn u64_member(m: (String, JsonValue)) -> Option<u64> {
    match m.1 {
        JsonValue::Number(t) => parse_u64_text(t@),
        _ => None,
    }
}

/// A reply that is an object of 64-bit counts, as its names and counts in
/// order; `None` when it is not an object or a value is not such a count.
pub fn u64_members(v: &JsonValue) -> (r: Option<Vec<(String, u64)>>)
    ensures
        match *v {
            JsonValue::Object(ms) => if forall|i: int| 0 <= i < ms@.len() ==> #[trigger] u64_member(ms@[i]) is Some {
                &&& r is Some
                &&& r.unwrap()@.len() == ms@.len()
                &&& forall|i: int| 0 <= i < ms@.len() ==> #[trigger] r.unwrap()@[i].0@ == ms@[i].0@
                    && Some(r.unwrap()@[i].1) == u64_member(ms@[i])
            } else {
                r is None
            },
            _ => r is None,
        },
{
    match v {
        JsonValue::Object(ms) => {
            let mut out: Vec<(String, u64)> = Vec::new();
            let mut i: usize = 0;
            while i < ms.len()
                invariant
                    i <= ms@.len(),
                    out@.len() == i,
                    forall|j: int| 0 <= j < i ==> #[trigger] u64_member(ms@[j]) is Some && out@[j].0@ == ms@[j].0@
                        && Some(out@[j].1) == u64_member(ms@[j]),
                    *v == JsonValue::Object(*ms),
                decreases ms@.len() - i,
            {
                let (k, val) = &ms[i];
                assert(ms@[i as int] == (*k, *val));
                match val {
                    JsonValue::Number(t) => match parse_u64(t.as_str()) {
                        Ok(n) => out.push((k.clone(), n)),
                        Err(_) => {
                            assert(u64_member(ms@[i as int]) is None);
                            return None;
                        },
                    },
                    _ => {
                        assert(u64_member(ms@[i as int]) is None);
                        return None;
                    },
                }
                i = i + 1;
            }
            Some(out)
        },
        _ => None,
    }
}

/// The first line of a monitor's reply, or `Error(context + "\"\"")`
/// when the reply is empty (`context` describes what was asked).
pub fn first_line_reply(data: &str, context: &str) -> (r: RadosResult<String>)
    ensures
        match first_line(data@) {
            Some(l) => r matches Ok(t) && t@ == l,
            None => r matches Err(RadosError::Error(m)) && m@ == context@ + "\"\""@,
        },
{
    match first_line_of(data) {
        Some(l) => Ok(l.to_owned()),
        None => {
            let mut m = context.to_owned();
            m.append("\"\"");
            Err(RadosError::Error(m))
        },
    }
}

/// A number on the first line of a monitor's reply: the line must be an
/// optional `+` and decimal digits that fit in 64 bits.
pub fn u64_reply(data: &str, context: &str) -> (r: RadosResult<u64>)
    ensures
        match first_line(data@) {
            Some(l) => match parse_u64_text(l) {
                Some(n) => r == Ok::<u64, RadosError>(n),
                None => r matches Err(RadosError::ParseIntError(_)),
            },
            None => r matches Err(RadosError::Error(m)) && m@ == context@ + "\"\""@,
        },
{
    let line = first_line_reply(data, context)?;
    match parse_u64(line.as_str()) {
        Ok(n) => Ok(n),
        Err(e) => Err(RadosError::ParseIntError(e)),
    }
}

/// What `config-key exists` answers, from the outcome of the monitor call
/// (its status text on success): an error whose text says the key
/// `doesn't exist` means `false`; a status that says it `exists` means
/// `true`; anything else is an error.
pub fn config_key_exists_outcome(outcome: RadosResult<Option<String>>) -> (r: RadosResult<bool>)
    ensures
        match outcome {
            Err(RadosError::Error(e)) => if contains_text(e@, "doesn't exist"@) {
                r == Ok::<bool, RadosError>(false)
            } else {
                r matches Err(RadosError::Error(m)) && m@ == e@
            },
            Err(e) => r == Err::<bool, RadosError>(e),
            Ok(Some(status)) => if contains_text(status@, "exists"@) {
                r == Ok::<bool, RadosError>(true)
            } else {
                r matches Err(RadosError::Error(m)) && m@ == "Unable to parse config-key exists output: "@ + status@
            },
            Ok(None) => r matches Err(RadosError::Error(m)) && m@ == "Unable to parse config-key exists output: None"@,
        },
{
    match outcome {
        Err(RadosError::Error(e)) => {
            if str_contains(e.as_str(), "doesn't exist") {
                Ok(false)
            } else {
                Err(RadosError::Error(e))
            }
        },
        Err(e) => Err(e),
        Ok(Some(status)) => {
            if str_contains(status.as_str(), "exists") {
                Ok(true)
            } else {
                let mut m = "Unable to parse config-key exists output: ".to_owned();
                m.append(status.as_str());
                Err(RadosError::Error(m))
            }
        },
        Ok(None) => Err(RadosError::Error("Unable to parse config-key exists output: None".to_owned())),
    }
}

/// Refuses a cluster older than `minimum` with `MinVersion(minimum, current)`.
pub fn require_version(current: CephVersion, minimum: CephVersion) -> (r: RadosResult<()>)
    ensures
        older_than(current, minimum) ==> (r matches Err(RadosError::MinVersion(m, c)) && m == minimum && c == current),
        !older_than(current, minimum) ==> r is Ok,
{
    if current.is_older_than(&minimum) {
        Err(RadosError::MinVersion(minimum, current))
    } else {
        Ok(())
    }
}

/// The `osd set` command as the client sends it: JSON output, the flag,
/// and with `force` the confirmation the monitor asks for risky flags.
pub fn client_osd_set_command(key: &OsdOption, force: bool) -> (r: MonCommand<'static>)
    ensures
        force ==> r@ == set_arg(set_arg(set_arg(seq![("format"@, "json"@)], "prefix"@, "osd set"@), "key"@, osd_option_name(*key)), "sure"@, "--yes-i-really-mean-it"@),
        !force ==> r@ == set_arg(set_arg(seq![("format"@, "json"@)], "prefix"@, "osd set"@), "key"@, osd_option_name(*key)),
{
    let mut c = MonCommand::new().with_prefix("osd set").with("key", key.as_ref());
    if force {
        c = c.with("sure", "--yes-i-really-mean-it");
    }
    c
}

proof fn lemma_decimal_digits(n: nat)
    ensures
        decimal_text(n).len() >= 1,
        all_digits(decimal_text(n)),
        digits_value(decimal_text(n)) == n,
    decreases n,
{
    let t = decimal_text(n);
    if n < 10 {
        assert(t.drop_last() =~= Seq::<char>::empty());
        assert(t.last() as int == 0x30 + n);
        assert(digits_value(t) == digits_value(t.drop_last()) * 10 + (t.last() as int - 0x30));
    } else {
        lemma_decimal_digits(n / 10);
        let p = decimal_text(n / 10);
        assert(t.drop_last() =~= p);
        assert(t.last() as int == 0x30 + n % 10);
        assert(digits_value(t) == digits_value(p) * 10 + (t.last() as int - 0x30));
        assert(n == (n / 10) * 10 + n % 10) by (nonlinear_arith);
        assert forall|i: int| 0 <= i < t.len() implies '0' <= #[trigger] t[i] <= '9' by {
            if i < p.len() {
                assert(t[i] == p[i]);
            }
        }
    }
}

/// A number's decimal text, as entity names and commands carry it, parses
/// back to the number.
pub proof fn lemma_decimal_parses_back(n: u64)
    ensures
        parse_u64_text(decimal_text(n as nat)) == Some(n),
{
    lemma_decimal_digits(n as nat);
    let t = decimal_text(n as nat);
    assert(t[0] != '+') by {
        assert('0' <= t[0] <= '9');
    }
}

} // verus!
