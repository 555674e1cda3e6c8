//! Plain value types shared by the invoice logic.

use vstd::prelude::*;

verus! {

/// An account or contract on the ledger, identified by a number. Maps keyed
/// by address walk their keys in the order of these numbers.
#[derive(Clone, Copy, Debug, PartialEq, Eq, Structural)]
pub struct Address(pub u64);

/// Lifecycle state of an invoice.
#[derive(Clone, Copy, Debug, PartialEq, Eq, Structural)]
pub enum InvoiceStatus {
    Pending,
    Released,
    Refunded,
    Cancelled,
}

/// Split rule for a single recipient, evaluated at release time.
#[derive(Clone, Copy, Debug, PartialEq, Eq, Structural)]
pub enum SplitRule {
    /// Pay this exact amount regardless of the funded total.
    Fixed(i128),
    /// Pay `funded * bps / 10_000` to the recipient.
    Percentage(u32),
    /// Pay `funded * bps / 10_000` only when `funded > threshold`, else 0;
    /// encoded as (threshold, bps).
    Tiered(i128, u32),
}

/// Action taken by an auto-resolve rule.
#[derive(Clone, Copy, Debug, PartialEq, Eq, Structural)]
pub enum ResolveAction {
    Release,
    Refund,
}

/// Auto-resolve rule: if funded/total >= min_funded_bps/10_000, execute the action.
#[derive(Clone, Copy, Debug, PartialEq, Eq, Structural)]
pub struct ResolveRule {
    /// Minimum funding threshold in basis points (5000 = 50%).
    pub min_funded_bps: u32,
    pub action: ResolveAction,
}

/// What a payment does with the part that exceeds the remaining balance.
#[derive(Clone, Copy, Debug, PartialEq, Eq, Structural)]
pub enum OverflowBehavior {
    Reject,
    Refund,
    Donate,
}

/// A single (invoice_id, amount) pair for a pooled payment.
#[derive(Clone, Copy, Debug, PartialEq, Eq, Structural)]
pub struct InvoicePayment {
    pub invoice_id: u64,
    pub amount: i128,
}

/// A bid in the auction of an expired invoice.
#[derive(Clone, Copy, Debug, PartialEq, Eq, Structural)]
pub struct Bid {
    pub bidder: Address,
    pub amount: i128,
}

/// One payment recorded against an invoice.
#[derive(Clone, Copy, Debug, PartialEq, Eq, Structural)]
pub struct Payment {
    pub payer: Address,
    pub amount: i128,
    pub tip: i128,
}

/// A graduated release tranche: `basis_points` out of 10 000 of the invoice
/// total becomes releasable once the ledger time reaches `timestamp`.
#[derive(Clone, Copy, Debug, PartialEq, Eq, Structural)]
pub struct Tranche {
    pub timestamp: u64,
    pub basis_points: u32,
}

/// Payment analytics for an invoice.
#[derive(Clone, Copy, Debug, PartialEq, Eq, Structural)]
pub struct InvoiceStats {
    pub funded: i128,
    pub total: i128,
    pub payment_count: u32,
    pub unique_payers: u32,
    pub completion_bps: u32,
}

/// What an audit-log entry records.
#[derive(Clone, Copy, Debug, PartialEq, Eq, Structural)]
pub enum AuditAction {
    Pay,
    PayWithToken,
    BridgePay,
    PoolPay,
    DelegatePay,
    SignRelease,
    Release,
    StageRelease,
    PartialRelease,
    Approve,
    OracleConfirmed,
    Paused,
    Resumed,
    ForceResumed,
    AdminFrozen,
    AdminUnfrozen,
    SetReminder,
    TriggerReminder,
    GroupTreasury,
    Claim,
    AutoRefund,
    Refund,
    AuctionStarted,
    Bid,
    AuctionSettled,
    Cancel,
    Extend,
    Rollover,
    AddRecipient,
    AdjustSplit,
    Delegate,
    RevokeDelegate,
    SetTimelock,
    QueueAction,
    ExecuteAction,
    CancelAction,
}

/// One entry of an invoice's audit log.
#[derive(Clone, Copy, Debug, PartialEq, Eq, Structural)]
pub struct AuditEntry {
    pub action: AuditAction,
    pub actor: Address,
    pub timestamp: u64,
}

/// An admin change that waits for the timelock before it takes effect.
#[derive(Clone, Copy, Debug, PartialEq, Eq, Structural)]
pub enum TimelockAction {
    SetTreasury(Address),
    SetPlatformFee(u32),
}

/// A queued timelock action.
#[derive(Clone, Copy, Debug, PartialEq, Eq, Structural)]
pub struct QueuedAction {
    pub action: TimelockAction,
    pub queued_at: u64,
    pub executed: bool,
}

/// A group of invoices whose releases go to one treasury.
#[derive(Clone)]
pub struct TreasuryRecord {
    pub invoice_ids: Vec<u64>,
    pub treasury: Address,
}

/// What a subscription needs to create its next invoice.
#[derive(Clone)]
pub struct SubscriptionParams {
    pub creator: Address,
    pub recipients: Vec<Address>,
    pub amounts: Vec<i128>,
    pub tokens: Vec<Address>,
}

/// A reusable invoice template.
pub struct InvoiceTemplate {
    pub recipients: Vec<Address>,
    pub amounts: Vec<i128>,
    pub token: Address,
    pub deadline: u64,
    pub funded: i128,
    pub status: InvoiceStatus,
    pub payments: Vec<Payment>,
    pub allowed_payers: Option<Vec<Address>>,
}

/// Parameters of one invoice of a batch.
pub struct CreateInvoiceParams {
    pub recipients: Vec<Address>,
    pub amounts: Vec<i128>,
    pub token: Address,
    pub deadline: u64,
}

/// Field overrides for a cloned invoice.
pub struct CloneOverrides {
    pub new_deadline: Option<u64>,
    pub new_amounts: Option<Vec<i128>>,
    pub new_recipients: Option<Vec<Address>>,
    /// No element: keep the source's behaviour; otherwise the first element.
    pub new_overflow_behavior: Vec<OverflowBehavior>,
}

/// Proof that an invoice was finalized.
pub struct CompletionProof {
    pub id: u64,
    pub status: InvoiceStatus,
    pub funded: i128,
    pub timestamp: u64,
    pub hash: Vec<u8>,
}

/// Proof of what a payer contributed to an invoice.
pub struct PaymentProof {
    pub invoice_id: u64,
    pub payer: Address,
    pub total_paid: i128,
    pub proof_hash: Vec<u8>,
}

} // verus!
