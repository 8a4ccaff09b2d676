//! Records of the cluster status report.

use vstd::prelude::*;

verus! {

/// Part of the cluster status report.
pub struct CephStatusHealth2 {
    pub health: Vec<CephStatusHealthServices>,
}

/// Part of the cluster status report.
pub struct CephStatusHealthServices {
    pub mons: Vec<CephStatusHealthServicesMon>,
}

/// Part of the cluster status report.
pub struct CephStatusHealthServicesMon {
    pub name: String,
    pub kb_total: u32,
    pub kb_used: u32,
    pub kb_avail: u32,
    pub avail_percent: u16,
    pub last_updated: String,
    pub store_stats: CephStatusHealthServicesMonStats,
    pub health: String,
}

/// Part of the cluster status report.
pub struct CephStatusHealthServicesMonStats {
    pub bytes_total: u64,
    pub bytes_sst: u64,
    pub bytes_log: u64,
    pub bytes_misc: u64,
    pub last_updated: String,
}

/// Part of the cluster status report.
pub struct CephStatusHealthSummary {
    pub severity: String,
    pub summary: String,
}

/// Part of the cluster status report.
pub struct CephStatusHealthDetail {
    pub dummy: String,
}

/// Part of the cluster status report.
pub struct CephStatusMonMap {
    pub epoch: u32,
    pub fsid: String,
    pub modified: String,
    pub created: String,
    pub mons: Vec<CephStatusMonRank>,
}

/// Part of the cluster status report.
pub struct CephStatusMonRank {
    pub rank: u16,
    pub name: String,
    pub addr: String,
}

/// Part of the cluster status report.
pub struct CephStatusOSDMapH {
    pub osdmap: CephStatusOSDMapL,
}

/// Part of the cluster status report.
pub struct CephStatusOSDMapL {
    pub epoch: u32,
    pub num_osds: u32,
    pub num_up_osds: u32,
    pub num_in_osds: u32,
    pub full: bool,
    pub nearfull: bool,
    pub num_remapped_pgs: u32,
}

/// Part of the cluster status report.
pub struct CephStatusPGMap {
    pub pgs_by_state: Vec<CephStatusPGState>,
    pub version: u32,
    pub num_pgs: u32,
    pub data_bytes: u64,
    pub bytes_used: u64,
    pub bytes_avail: u64,
    pub bytes_total: u64,
}

/// Part of the cluster status report.
pub struct CephStatusPGState {
    pub state_name: String,
    pub count: u32,
}

/// Part of the cluster status report.
pub struct CephStatusMDSMap {
    pub epoch: u32,
    pub up: u32,
    pub _in: u32,
    pub max: u32,
    pub by_rank: Vec<CephStatusMDSRank>,
}

/// Part of the cluster status report.
pub struct CephStatusMDSRank {
    pub rank: u16,
    pub name: String,
    pub addr: String,
}

} // verus!
