//! Invoice and payment-splitting logic of the StellarSplit contracts, with
//! the creator dashboard, verified with Verus.

pub mod types;
pub mod dashboard;
pub mod invoice;
pub mod effects;
pub mod math;
pub mod state;
pub mod admin;
pub mod distribution;
pub mod terms;
pub mod create;
pub mod release;
pub mod tranches;
pub mod refunds;
pub mod payouts;
pub mod pay;
pub mod paths;
pub mod lifecycle;
pub mod groups;
pub mod copies;
pub mod proofs;
pub mod queries;
pub mod compact;
pub mod laws;
pub mod charges;
