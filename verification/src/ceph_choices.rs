use vstd::prelude::*;

use crate::cmd::{osd_option_name, OsdOption};

verus! {

/// Flag names that the monitor's `osd set` takes, as listed in the monitor's command table.
#[derive(Copy, Clone, Debug, PartialEq, Eq, Structural)]
pub enum CephChoices {
    Full,
    Pause,
    NoUp,
    NoDown,
    NoOut,
    NoIn,
    NoBackfill,
    NoRebalance,
    NoRecover,
    NoScrub,
    NoDeepScrub,
    NoTierAgent,
    SortBitwise,
    RecoveryDeletes,
    RequireJewelOsds,
    RequireKrakenOsds,
}

/// The name Ceph uses for each [`CephChoices`].
pub open spec fn ceph_choice_name(x: CephChoices) -> Seq<char> {
    match x {
        CephChoices::Full => "full"@,
        CephChoices::Pause => "pause"@,
        CephChoices::NoUp => "noup"@,
        CephChoices::NoDown => "nodown"@,
        CephChoices::NoOut => "noout"@,
        CephChoices::NoIn => "noin"@,
        CephChoices::NoBackfill => "nobackfill"@,
        CephChoices::NoRebalance => "norebalance"@,
        CephChoices::NoRecover => "norecover"@,
        CephChoices::NoScrub => "noscrub"@,
        CephChoices::NoDeepScrub => "nodeep-scrub"@,
        CephChoices::NoTierAgent => "notieragent"@,
        CephChoices::SortBitwise => "sortbitwise"@,
        CephChoices::RecoveryDeletes => "recovery_deletes"@,
        CephChoices::RequireJewelOsds => "require_jewel_osds"@,
        CephChoices::RequireKrakenOsds => "require_kraken_osds"@,
    }
}

/// The OSD flag of the same name as a choice.
pub open spec fn choice_flag(x: CephChoices) -> OsdOption {
    match x {
        CephChoices::Full => OsdOption::Full,
        CephChoices::Pause => OsdOption::Pause,
        CephChoices::NoUp => OsdOption::NoUp,
        CephChoices::NoDown => OsdOption::NoDown,
        CephChoices::NoOut => OsdOption::NoOut,
        CephChoices::NoIn => OsdOption::NoIn,
        CephChoices::NoBackfill => OsdOption::NoBackfill,
        CephChoices::NoRebalance => OsdOption::NoRebalance,
        CephChoices::NoRecover => OsdOption::NoRecover,
        CephChoices::NoScrub => OsdOption::NoScrub,
        CephChoices::NoDeepScrub => OsdOption::NoDeepScrub,
        CephChoices::NoTierAgent => OsdOption::NoTierAgent,
        CephChoices::SortBitwise => OsdOption::SortBitwise,
        CephChoices::RecoveryDeletes => OsdOption::RecoveryDeletes,
        CephChoices::RequireJewelOsds => OsdOption::RequireJewelOsds,
        CephChoices::RequireKrakenOsds => OsdOption::RequireKrakenOsds,
    }
}

/// Each choice carries the name of the OSD flag it stands for.
pub proof fn lemma_choice_names_are_flag_names(x: CephChoices)
    ensures
        ceph_choice_name(x) == osd_option_name(choice_flag(x)),
{
}

/// Each choice goes on the wire under the flag name the monitor's command
/// table lists for it.
pub proof fn lemma_choice_wire_names()
    ensures
        ceph_choice_name(CephChoices::Full) == "full"@,
        ceph_choice_name(CephChoices::Pause) == "pause"@,
        ceph_choice_name(CephChoices::NoUp) == "noup"@,
        ceph_choice_name(CephChoices::NoDown) == "nodown"@,
        ceph_choice_name(CephChoices::NoOut) == "noout"@,
        ceph_choice_name(CephChoices::NoIn) == "noin"@,
        ceph_choice_name(CephChoices::NoBackfill) == "nobackfill"@,
        ceph_choice_name(CephChoices::NoRebalance) == "norebalance"@,
        ceph_choice_name(CephChoices::NoRecover) == "norecover"@,
        ceph_choice_name(CephChoices::NoScrub) == "noscrub"@,
        ceph_choice_name(CephChoices::NoDeepScrub) == "nodeep-scrub"@,
        ceph_choice_name(CephChoices::NoTierAgent) == "notieragent"@,
        ceph_choice_name(CephChoices::SortBitwise) == "sortbitwise"@,
        ceph_choice_name(CephChoices::RecoveryDeletes) == "recovery_deletes"@,
        ceph_choice_name(CephChoices::RequireJewelOsds) == "require_jewel_osds"@,
        ceph_choice_name(CephChoices::RequireKrakenOsds) == "require_kraken_osds"@,
{
}

impl CephChoices {
    /// The name Ceph uses for this value.
    pub fn as_ref(&self) -> (r: &'static str)
        ensures
            r@ == ceph_choice_name(*self),
    {
        match self {
            CephChoices::Full => "full",
            CephChoices::Pause => "pause",
            CephChoices::NoUp => "noup",
            CephChoices::NoDown => "nodown",
            CephChoices::NoOut => "noout",
            CephChoices::NoIn => "noin",
            CephChoices::NoBackfill => "nobackfill",
            CephChoices::NoRebalance => "norebalance",
            CephChoices::NoRecover => "norecover",
            CephChoices::NoScrub => "noscrub",
            CephChoices::NoDeepScrub => "nodeep-scrub",
            CephChoices::NoTierAgent => "notieragent",
            CephChoices::SortBitwise => "sortbitwise",
            CephChoices::RecoveryDeletes => "recovery_deletes",
            CephChoices::RequireJewelOsds => "require_jewel_osds",
            CephChoices::RequireKrakenOsds => "require_kraken_osds",
        }
    }

    /// The name Ceph uses for this value, owned.
    pub fn to_string(&self) -> (r: String)
        ensures
            r@ == ceph_choice_name(*self),
    {
        self.as_ref().to_owned()
    }
}

} // verus!
