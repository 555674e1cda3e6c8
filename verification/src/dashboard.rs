//! Per-creator dashboard counters, updated by the split contract.

use vstd::prelude::*;
use std::collections::HashMap;
use crate::types::Address;

verus! {

broadcast use vstd::std_specs::hash::group_hash_axioms;

/// Counters kept for one creator.
#[derive(Clone, Copy, Debug, PartialEq, Eq, Structural)]
pub struct CreatorDashboard {
    pub invoice_count: u64,
    pub total_volume: i128,
    pub released_count: u64,
    pub refunded_count: u64,
    pub released_volume: i128,
}

/// Why a dashboard call was rejected.
#[derive(Clone, Copy, Debug, PartialEq, Eq, Structural)]
pub enum DashboardError {
    AlreadyInitialized,
    NotInitialized,
    InvoiceCountOverflow,
    TotalVolumeOverflow,
    ReleasedCountOverflow,
    ReleasedVolumeOverflow,
    RefundedCountOverflow,
}

/// The message the contract aborts with on `e`.
pub open spec fn dashboard_error_message(e: DashboardError) -> Seq<char> {
    match e {
        DashboardError::AlreadyInitialized => "already initialized"@,
        DashboardError::NotInitialized => "not initialized"@,
        DashboardError::InvoiceCountOverflow => "invoice_count overflow"@,
        DashboardError::TotalVolumeOverflow => "total_volume overflow"@,
        DashboardError::ReleasedCountOverflow => "released_count overflow"@,
        DashboardError::ReleasedVolumeOverflow => "released_volume overflow"@,
        DashboardError::RefundedCountOverflow => "refunded_count overflow"@,
    }
}

impl DashboardError {
    /// The message the contract aborts with.
    pub fn message(&self) -> (r: &'static str)
        ensures
            r@ == dashboard_error_message(*self),
    {
        match self {
            DashboardError::AlreadyInitialized => "already initialized",
            DashboardError::NotInitialized => "not initialized",
            DashboardError::InvoiceCountOverflow => "invoice_count overflow",
            DashboardError::TotalVolumeOverflow => "total_volume overflow",
            DashboardError::ReleasedCountOverflow => "released_count overflow",
            DashboardError::ReleasedVolumeOverflow => "released_volume overflow",
            DashboardError::RefundedCountOverflow => "refunded_count overflow",
        }
    }
}

/// The all-zero dashboard of a creator with no recorded invoices.
pub open spec fn empty_dashboard() -> CreatorDashboard {
    CreatorDashboard {
        invoice_count: 0,
        total_volume: 0,
        released_count: 0,
        refunded_count: 0,
        released_volume: 0,
    }
}

/// The dashboard of `creator` in the map of dashboards `m`; all zero when
/// nothing was recorded.
pub open spec fn dashboard_in(m: Map<u64, CreatorDashboard>, creator: Address) -> CreatorDashboard {
    if m.contains_key(creator.0) {
        m[creator.0]
    } else {
        empty_dashboard()
    }
}

/// Recording for one creator sets that creator's dashboard and leaves the
/// dashboard of every other creator as it was.
pub proof fn law_dashboards_are_per_creator(m: Map<u64, CreatorDashboard>, creator: Address, d: CreatorDashboard, other: Address)
    ensures
        dashboard_in(m.insert(creator.0, d), creator) == d,
        other != creator ==> dashboard_in(m.insert(creator.0, d), other) == dashboard_in(m, other),
{
}

/// State of the dashboard contract: the split contract allowed to record,
/// and the counters of each creator (keyed by the creator's number).
pub struct DashboardContract {
    pub authorized: Option<Address>,
    pub dashboards: HashMap<u64, CreatorDashboard>,
}

impl DashboardContract {
    /// The dashboard of `creator`; all zero when nothing was recorded.
    pub open spec fn dashboard_of(&self, creator: Address) -> CreatorDashboard {
        dashboard_in(self.dashboards@, creator)
    }

    /// A dashboard contract that is not initialized and has recorded nothing.
    pub fn new() -> (r: DashboardContract)
        ensures
            r.authorized is None,
            r.dashboards@ == Map::<u64, CreatorDashboard>::empty(),
    {
        DashboardContract { authorized: None, dashboards: HashMap::new() }
    }

    /// Set the split contract whose calls may record; only once.
    pub fn initialize(&mut self, split_contract: Address) -> (r: Result<(), DashboardError>)
        ensures
            old(self).authorized is Some ==> r == Err::<(), DashboardError>(
                DashboardError::AlreadyInitialized,
            ) && final(self).authorized == old(self).authorized,
            old(self).authorized is None ==> r is Ok && final(self).authorized == Some(
                split_contract,
            ),
            final(self).dashboards@ == old(self).dashboards@,
    {
        if self.authorized.is_some() {
            return Err(DashboardError::AlreadyInitialized);
        }
        self.authorized = Some(split_contract);
        Ok(())
    }

    /// Return the dashboard of `creator`.
    pub fn get_creator_dashboard(&self, creator: Address) -> (r: CreatorDashboard)
        ensures
            r == self.dashboard_of(creator),
    {
        match self.dashboards.get(&creator.0) {
            Some(d) => *d,
            None => CreatorDashboard {
                invoice_count: 0,
                total_volume: 0,
                released_count: 0,
                refunded_count: 0,
                released_volume: 0,
            },
        }
    }

    /// Record a created invoice of `total` for `creator`. On success returns
    /// the authorized split contract, whose authorization the call needs.
    pub fn record_created(&mut self, creator: Address, total: i128) -> (r: Result<
        Address,
        DashboardError,
    >)
        ensures
            ({
                let d = old(self).dashboard_of(creator);
                &&& old(self).authorized is None ==> r == Err::<Address, DashboardError>(
                    DashboardError::NotInitialized,
                )
                &&& old(self).authorized is Some && d.invoice_count + 1 > u64::MAX ==> r == Err::<
                    Address,
                    DashboardError,
                >(DashboardError::InvoiceCountOverflow)
                &&& old(self).authorized is Some && d.invoice_count + 1 <= u64::MAX && (
                d.total_volume + total > i128::MAX || d.total_volume + total < i128::MIN) ==> r
                    == Err::<Address, DashboardError>(DashboardError::TotalVolumeOverflow)
                &&& r is Ok ==> r == Ok::<Address, DashboardError>(
                    old(self).authorized->0,
                ) && final(self).dashboards@ == old(self).dashboards@.insert(
                    creator.0,
                    CreatorDashboard {
                        invoice_count: (d.invoice_count + 1) as u64,
                        total_volume: (d.total_volume + total) as i128,
                        ..d
                    },
                )
                &&& r is Err ==> final(self).dashboards@ == old(self).dashboards@
                &&& old(self).authorized is Some && d.invoice_count + 1 <= u64::MAX && i128::MIN
                    <= d.total_volume + total <= i128::MAX ==> r is Ok
            }),
            final(self).authorized == old(self).authorized,
    {
        let authorized = match self.authorized {
            Some(a) => a,
            None => return Err(DashboardError::NotInitialized),
        };
        let mut d = self.get_creator_dashboard(creator);
        d.invoice_count = match d.invoice_count.checked_add(1) {
            Some(v) => v,
            None => return Err(DashboardError::InvoiceCountOverflow),
        };
        d.total_volume = match d.total_volume.checked_add(total) {
            Some(v) => v,
            None => return Err(DashboardError::TotalVolumeOverflow),
        };
        self.dashboards.insert(creator.0, d);
        Ok(authorized)
    }

    /// Record a released invoice of `total` for `creator`. On success
    /// returns the authorized split contract, whose authorization the call
    /// needs.
    pub fn record_released(&mut self, creator: Address, total: i128) -> (r: Result<Address, DashboardError>)
        ensures
            ({
                let d = old(self).dashboard_of(creator);
                match old(self).authorized {
                    None => r == Err::<Address, DashboardError>(DashboardError::NotInitialized)
                        && final(self).dashboards@ == old(self).dashboards@,
                    Some(a) => if d.released_count == u64::MAX {
                        r == Err::<Address, DashboardError>(DashboardError::ReleasedCountOverflow)
                            && final(self).dashboards@ == old(self).dashboards@
                    } else if d.released_volume + total > i128::MAX || d.released_volume + total < i128::MIN {
                        r == Err::<Address, DashboardError>(DashboardError::ReleasedVolumeOverflow)
                            && final(self).dashboards@ == old(self).dashboards@
                    } else {
                        r == Ok::<Address, DashboardError>(a) && final(self).dashboards@ == old(self).dashboards@.insert(
                            creator.0,
                            CreatorDashboard {
                                released_count: (d.released_count + 1) as u64,
                                released_volume: (d.released_volume + total) as i128,
                                ..d
                            },
                        )
                    },
                }
            }),
            final(self).authorized == old(self).authorized,
    {
        let authorized = match self.authorized {
            Some(a) => a,
            None => return Err(DashboardError::NotInitialized),
        };
        let mut d = self.get_creator_dashboard(creator);
        d.released_count = match d.released_count.checked_add(1) {
            Some(v) => v,
            None => return Err(DashboardError::ReleasedCountOverflow),
        };
        d.released_volume = match d.released_volume.checked_add(total) {
            Some(v) => v,
            None => return Err(DashboardError::ReleasedVolumeOverflow),
        };
        self.dashboards.insert(creator.0, d);
        Ok(authorized)
    }

    /// Record a refunded invoice for `creator`. On success returns the
    /// authorized split contract, whose authorization the call needs.
    pub fn record_refunded(&mut self, creator: Address) -> (r: Result<Address, DashboardError>)
        ensures
            ({
                let d = old(self).dashboard_of(creator);
                match old(self).authorized {
                    None => r == Err::<Address, DashboardError>(DashboardError::NotInitialized)
                        && final(self).dashboards@ == old(self).dashboards@,
                    Some(a) => if d.refunded_count == u64::MAX {
                        r == Err::<Address, DashboardError>(DashboardError::RefundedCountOverflow)
                            && final(self).dashboards@ == old(self).dashboards@
                    } else {
                        r == Ok::<Address, DashboardError>(a) && final(self).dashboards@ == old(self).dashboards@.insert(
                            creator.0,
                            CreatorDashboard { refunded_count: (d.refunded_count + 1) as u64, ..d },
                        )
                    },
                }
            }),
            final(self).authorized == old(self).authorized,
    {
        let authorized = match self.authorized {
            Some(a) => a,
            None => return Err(DashboardError::NotInitialized),
        };
        let mut d = self.get_creator_dashboard(creator);
        d.refunded_count = match d.refunded_count.checked_add(1) {
            Some(v) => v,
            None => return Err(DashboardError::RefundedCountOverflow),
        };
        self.dashboards.insert(creator.0, d);
        Ok(authorized)
    }
}

} // verus!
