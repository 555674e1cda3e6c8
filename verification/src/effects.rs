//! Why a call is rejected, and what a successful call asks the host to do.

use vstd::prelude::*;
use crate::types::{Address, TimelockAction};

verus! {

/// Why the contract rejects a call. The host aborts the call, and every
/// change it made, with `message()`.
#[derive(Clone, Copy, Debug, PartialEq, Eq, Structural)]
pub enum SplitError {
    ActionAlreadyExecuted,
    ActionCounterOverflow,
    ActionNotFound,
    AdminNotSet,
    AllInvoicesMustUseTheSameToken,
    AllStagesAlreadyReleased,
    AlreadyInitialized,
    AlreadySigned,
    AmountExceedsFundedBalance,
    AmountMustBePositive,
    AmountsLengthMismatch,
    AmountsMustBePositive,
    AuctionEndedSettleAuction,
    AuctionInProgress,
    AuctionNotActive,
    AuctionNotEnabled,
    AuctionNotEnded,
    AuctionNotStarted,
    AwaitingApproval,
    BatchLimitExceeded,
    BidAmountMustBePositive,
    BidMustBeHigherThanCurrentHighestBid,
    BonusPoolMustBeNonNegative,
    CancellationRateTooHigh,
    CannotAddRecipientAfterPaymentReceived,
    ChannelNotFound,
    ContractIsPaused,
    CreationFeeMustBeNonNegative,
    CreatorCountOverflow,
    CreatorNotWhitelisted,
    CreatorRefundedOverflow,
    CreatorReleasedOverflow,
    CreatorVolumeOverflow,
    DeadlineHasNotPassed,
    DeadlineMustBeInTheFuture,
    DepositMustBePositive,
    DexContractNotSet,
    EarlyWithdrawalNotAllowed,
    GovernanceApprovalRequired,
    GroupMembersNotFullyFunded,
    GroupNeedsAtLeast2Invoices,
    GroupNotFound,
    InsufficientChannelBalance,
    InsurancePremiumBpsMustBeLe10000,
    InvalidNonce,
    InvoiceAlreadyFrozenByAdmin,
    InvoiceDeadlineHasNotPassed,
    InvoiceDeadlineHasPassed,
    InvoiceFrozenByAdmin,
    InvoiceFullyFunded,
    InvoiceIsAlreadyFrozen,
    InvoiceIsFrozen,
    InvoiceIsNotFrozenByAdmin,
    InvoiceIsNotFrozen,
    InvoiceIsNotPending,
    InvoiceNotCompleted,
    InvoiceNotFinalized,
    InvoiceNotFound,
    InvoiceNotFullyFunded,
    InvoiceNotPending,
    InvoiceNotReleased,
    InvoiceTotalMustBePositive,
    KycContractNotSet,
    KycRequired,
    MaxCloneDepthExceeded,
    MaxCancelBpsMustBeLe10000,
    MinFundingBpsMustBeLe10000,
    MinimumFundingNotReached,
    MonthsMustBeBetween1And12,
    MustHaveAtLeastOneRecipient,
    NewDeadlineMustBeAfterCurrentDeadline,
    NewDeadlineMustBeInTheFuture,
    NftGateNotAHolder,
    NoApproverSetOnThisInvoice,
    NoAutoResolveRulesDefined,
    NoCoSignersRequired,
    NoContributionsToWithdraw,
    NoDripSchedule,
    NoMatchingResolutionRule,
    NoOracleSetForInvoice,
    NoReleaseStagesDefined,
    NoReleaseTimestamp,
    NoTokenInSubscription,
    NoToken,
    NoTranchesUnlocked,
    NotAnAuthorizedCoSigner,
    NotAuthorised,
    NotAuthorized,
    NotEnoughCoSignerApprovals,
    NotInvoiceCreator,
    NothingToClaim,
    OnlyCreatorCanAddRecipients,
    OnlyCreatorCanAdjustSplit,
    OnlyCreatorCanCallPartialRelease,
    OnlyCreatorCanCallStageRelease,
    OnlyCreatorCanCancel,
    OnlyCreatorCanPauseInvoice,
    OnlyCreatorCanResumeInvoice,
    OnlyCreatorCanRolloverInvoice,
    OnlyPayersCanVote,
    PayerNotAllowed,
    PaymentAmountMustBePositive,
    PaymentCooldownActive,
    PaymentExceedsRemainingBalance,
    PaymentRateLimitExceeded,
    PaymentsAlreadyReceived,
    PaymentsMustNotBeEmpty,
    PenaltyBpsMustBeLe10000,
    PlatformFeeBpsMustBeLe10000,
    PrerequisiteNotReleased,
    PrioritiesLengthMustMatchRecipients,
    RateLimitExceeded,
    RateWindowMustBePositiveWhenRateLimitIsEnabled,
    RecipientAlreadyClaimed,
    RecipientNotFound,
    RecipientNotInInvoice,
    RecipientsAndAmountsLengthMismatch,
    ReleaseStagesMustSumTo10000BasisPoints,
    ReminderNotDue,
    ReminderNotSet,
    SplitRulesLengthMustMatchRecipients,
    TaxBpsMustBeLe10000,
    TemplateNotFound,
    TimelockNotYetElapsed,
    TokenNotAccepted,
    TotalAmountsMustBePositive,
    TotalFundedChangedAfterCompression,
    TotalInvoicesOverflow,
    TotalRefundedOverflow,
    TotalReleasedOverflow,
    TotalVolumeOverflow,
    TranchesMustSumTo10000BasisPoints,
    TreasuryNotSet,
    UsdcTokenNotSet,
    VelocityLimitExceeded,
    SplitRulesMustSumTo100Percent,
    TaxAuthorityMustBeSet,
    ArithmeticOverflow,
    MissingElement,
    ForwardChainDoesNotEnd,
}

/// The message the contract aborts with on `e`.
pub open spec fn error_message(e: SplitError) -> Seq<char> {
    match e {
        SplitError::ActionAlreadyExecuted => "action already executed"@,
        SplitError::ActionCounterOverflow => "action counter overflow"@,
        SplitError::ActionNotFound => "action not found"@,
        SplitError::AdminNotSet => "admin not set"@,
        SplitError::AllInvoicesMustUseTheSameToken => "all invoices must use the same token"@,
        SplitError::AllStagesAlreadyReleased => "all stages already released"@,
        SplitError::AlreadyInitialized => "already initialized"@,
        SplitError::AlreadySigned => "already signed"@,
        SplitError::AmountExceedsFundedBalance => "amount exceeds funded balance"@,
        SplitError::AmountMustBePositive => "amount must be positive"@,
        SplitError::AmountsLengthMismatch => "amounts length mismatch"@,
        SplitError::AmountsMustBePositive => "amounts must be positive"@,
        SplitError::AuctionEndedSettleAuction => "auction ended; settle auction"@,
        SplitError::AuctionInProgress => "auction in progress"@,
        SplitError::AuctionNotActive => "auction not active"@,
        SplitError::AuctionNotEnabled => "auction not enabled"@,
        SplitError::AuctionNotEnded => "auction not ended"@,
        SplitError::AuctionNotStarted => "auction not started"@,
        SplitError::AwaitingApproval => "awaiting approval"@,
        SplitError::BatchLimitExceeded => "batch limit exceeded"@,
        SplitError::BidAmountMustBePositive => "bid amount must be positive"@,
        SplitError::BidMustBeHigherThanCurrentHighestBid => "bid must be higher than current highest bid"@,
        SplitError::BonusPoolMustBeNonNegative => "bonus_pool must be non-negative"@,
        SplitError::CancellationRateTooHigh => "cancellation rate too high"@,
        SplitError::CannotAddRecipientAfterPaymentReceived => "cannot add recipient after payment received"@,
        SplitError::ChannelNotFound => "channel not found"@,
        SplitError::ContractIsPaused => "contract is paused"@,
        SplitError::CreationFeeMustBeNonNegative => "creation_fee must be non-negative"@,
        SplitError::CreatorCountOverflow => "creator count overflow"@,
        SplitError::CreatorNotWhitelisted => "creator not whitelisted"@,
        SplitError::CreatorRefundedOverflow => "creator_refunded overflow"@,
        SplitError::CreatorReleasedOverflow => "creator_released overflow"@,
        SplitError::CreatorVolumeOverflow => "creator_volume overflow"@,
        SplitError::DeadlineHasNotPassed => "deadline has not passed"@,
        SplitError::DeadlineMustBeInTheFuture => "deadline must be in the future"@,
        SplitError::DepositMustBePositive => "deposit must be positive"@,
        SplitError::DexContractNotSet => "dex contract not set"@,
        SplitError::EarlyWithdrawalNotAllowed => "early withdrawal not allowed"@,
        SplitError::GovernanceApprovalRequired => "governance approval required"@,
        SplitError::GroupMembersNotFullyFunded => "group members not fully funded"@,
        SplitError::GroupNeedsAtLeast2Invoices => "group needs at least 2 invoices"@,
        SplitError::GroupNotFound => "group not found"@,
        SplitError::InsufficientChannelBalance => "insufficient channel balance"@,
        SplitError::InsurancePremiumBpsMustBeLe10000 => "insurance_premium_bps must be ≤ 10000"@,
        SplitError::InvalidNonce => "invalid nonce"@,
        SplitError::InvoiceAlreadyFrozenByAdmin => "invoice already frozen by admin"@,
        SplitError::InvoiceDeadlineHasNotPassed => "invoice deadline has not passed"@,
        SplitError::InvoiceDeadlineHasPassed => "invoice deadline has passed"@,
        SplitError::InvoiceFrozenByAdmin => "invoice frozen by admin"@,
        SplitError::InvoiceFullyFunded => "invoice is fully funded"@,
        SplitError::InvoiceIsAlreadyFrozen => "invoice is already frozen"@,
        SplitError::InvoiceIsFrozen => "invoice is frozen"@,
        SplitError::InvoiceIsNotFrozenByAdmin => "invoice is not frozen by admin"@,
        SplitError::InvoiceIsNotFrozen => "invoice is not frozen"@,
        SplitError::InvoiceIsNotPending => "invoice is not pending"@,
        SplitError::InvoiceNotCompleted => "invoice not completed"@,
        SplitError::InvoiceNotFinalized => "invoice not finalized"@,
        SplitError::InvoiceNotFound => "invoice not found"@,
        SplitError::InvoiceNotFullyFunded => "invoice not fully funded"@,
        SplitError::InvoiceNotPending => "invoice not pending"@,
        SplitError::InvoiceNotReleased => "invoice not released"@,
        SplitError::InvoiceTotalMustBePositive => "invoice total must be positive"@,
        SplitError::KycContractNotSet => "kyc contract not set"@,
        SplitError::KycRequired => "kyc required"@,
        SplitError::MaxCloneDepthExceeded => "max clone depth exceeded"@,
        SplitError::MaxCancelBpsMustBeLe10000 => "max_cancel_bps must be ≤ 10000"@,
        SplitError::MinFundingBpsMustBeLe10000 => "min_funding_bps must be ≤ 10000"@,
        SplitError::MinimumFundingNotReached => "minimum funding not reached"@,
        SplitError::MonthsMustBeBetween1And12 => "months must be between 1 and 12"@,
        SplitError::MustHaveAtLeastOneRecipient => "must have at least one recipient"@,
        SplitError::NewDeadlineMustBeAfterCurrentDeadline => "new deadline must be after current deadline"@,
        SplitError::NewDeadlineMustBeInTheFuture => "new deadline must be in the future"@,
        SplitError::NftGateNotAHolder => "nft gate: not a holder"@,
        SplitError::NoApproverSetOnThisInvoice => "no approver set on this invoice"@,
        SplitError::NoAutoResolveRulesDefined => "no auto-resolve rules defined"@,
        SplitError::NoCoSignersRequired => "no co-signers required"@,
        SplitError::NoContributionsToWithdraw => "no contributions to withdraw"@,
        SplitError::NoDripSchedule => "no drip schedule"@,
        SplitError::NoMatchingResolutionRule => "no matching resolution rule"@,
        SplitError::NoOracleSetForInvoice => "no oracle set for invoice"@,
        SplitError::NoReleaseStagesDefined => "no release stages defined"@,
        SplitError::NoReleaseTimestamp => "no release timestamp"@,
        SplitError::NoTokenInSubscription => "no token in subscription"@,
        SplitError::NoToken => "no token"@,
        SplitError::NoTranchesUnlocked => "no tranches unlocked"@,
        SplitError::NotAnAuthorizedCoSigner => "not an authorized co-signer"@,
        SplitError::NotAuthorised => "not authorised"@,
        SplitError::NotAuthorized => "not authorized"@,
        SplitError::NotEnoughCoSignerApprovals => "not enough co-signer approvals"@,
        SplitError::NotInvoiceCreator => "not invoice creator"@,
        SplitError::NothingToClaim => "nothing to claim"@,
        SplitError::OnlyCreatorCanAddRecipients => "only creator can add recipients"@,
        SplitError::OnlyCreatorCanAdjustSplit => "only creator can adjust split"@,
        SplitError::OnlyCreatorCanCallPartialRelease => "only creator can call partial_release"@,
        SplitError::OnlyCreatorCanCallStageRelease => "only creator can call stage_release"@,
        SplitError::OnlyCreatorCanCancel => "only creator can cancel"@,
        SplitError::OnlyCreatorCanPauseInvoice => "only creator can pause invoice"@,
        SplitError::OnlyCreatorCanResumeInvoice => "only creator can resume invoice"@,
        SplitError::OnlyCreatorCanRolloverInvoice => "only creator can rollover invoice"@,
        SplitError::OnlyPayersCanVote => "only payers can vote"@,
        SplitError::PayerNotAllowed => "payer not allowed"@,
        SplitError::PaymentAmountMustBePositive => "payment amount must be positive"@,
        SplitError::PaymentCooldownActive => "payment cooldown active"@,
        SplitError::PaymentExceedsRemainingBalance => "payment exceeds remaining balance"@,
        SplitError::PaymentRateLimitExceeded => "payment rate limit exceeded"@,
        SplitError::PaymentsAlreadyReceived => "payments already received"@,
        SplitError::PaymentsMustNotBeEmpty => "payments must not be empty"@,
        SplitError::PenaltyBpsMustBeLe10000 => "penalty_bps must be ≤ 10000"@,
        SplitError::PlatformFeeBpsMustBeLe10000 => "platform_fee_bps must be ≤ 10000"@,
        SplitError::PrerequisiteNotReleased => "prerequisite not released"@,
        SplitError::PrioritiesLengthMustMatchRecipients => "priorities length must match recipients"@,
        SplitError::RateLimitExceeded => "rate limit exceeded"@,
        SplitError::RateWindowMustBePositiveWhenRateLimitIsEnabled => "rate_window must be positive when rate_limit is enabled"@,
        SplitError::RecipientAlreadyClaimed => "recipient already claimed"@,
        SplitError::RecipientNotFound => "recipient not found"@,
        SplitError::RecipientNotInInvoice => "recipient not in invoice"@,
        SplitError::RecipientsAndAmountsLengthMismatch => "recipients and amounts length mismatch"@,
        SplitError::ReleaseStagesMustSumTo10000BasisPoints => "release_stages must sum to 10000 basis points"@,
        SplitError::ReminderNotDue => "reminder not due"@,
        SplitError::ReminderNotSet => "reminder not set"@,
        SplitError::SplitRulesLengthMustMatchRecipients => "split_rules length must match recipients"@,
        SplitError::TaxBpsMustBeLe10000 => "tax_bps must be ≤ 10000"@,
        SplitError::TemplateNotFound => "template not found"@,
        SplitError::TimelockNotYetElapsed => "timelock not yet elapsed"@,
        SplitError::TokenNotAccepted => "token not accepted"@,
        SplitError::TotalAmountsMustBePositive => "total amounts must be positive"@,
        SplitError::TotalFundedChangedAfterCompression => "total funded changed after compression"@,
        SplitError::TotalInvoicesOverflow => "total_invoices overflow"@,
        SplitError::TotalRefundedOverflow => "total_refunded overflow"@,
        SplitError::TotalReleasedOverflow => "total_released overflow"@,
        SplitError::TotalVolumeOverflow => "total_volume overflow"@,
        SplitError::TranchesMustSumTo10000BasisPoints => "tranches must sum to 10000 basis points"@,
        SplitError::TreasuryNotSet => "treasury not set"@,
        SplitError::UsdcTokenNotSet => "usdc token not set"@,
        SplitError::VelocityLimitExceeded => "velocity limit exceeded"@,
        SplitError::SplitRulesMustSumTo100Percent => "split_rules must sum to 100% of funded amount"@,
        SplitError::TaxAuthorityMustBeSet => "tax_authority must be set if tax_bps > 0"@,
        SplitError::ArithmeticOverflow => "arithmetic overflow"@,
        SplitError::MissingElement => "called `Option::unwrap()` on a `None` value"@,
        SplitError::ForwardChainDoesNotEnd => "forward chain does not end"@,
    }
}

impl SplitError {
    /// The message the contract aborts with.
    pub fn message(&self) -> (r: &'static str)
        ensures
            r@ == error_message(*self),
    {
        match self {
            SplitError::ActionAlreadyExecuted => "action already executed",
            SplitError::ActionCounterOverflow => "action counter overflow",
            SplitError::ActionNotFound => "action not found",
            SplitError::AdminNotSet => "admin not set",
            SplitError::AllInvoicesMustUseTheSameToken => "all invoices must use the same token",
            SplitError::AllStagesAlreadyReleased => "all stages already released",
            SplitError::AlreadyInitialized => "already initialized",
            SplitError::AlreadySigned => "already signed",
            SplitError::AmountExceedsFundedBalance => "amount exceeds funded balance",
            SplitError::AmountMustBePositive => "amount must be positive",
            SplitError::AmountsLengthMismatch => "amounts length mismatch",
            SplitError::AmountsMustBePositive => "amounts must be positive",
            SplitError::AuctionEndedSettleAuction => "auction ended; settle auction",
            SplitError::AuctionInProgress => "auction in progress",
            SplitError::AuctionNotActive => "auction not active",
            SplitError::AuctionNotEnabled => "auction not enabled",
            SplitError::AuctionNotEnded => "auction not ended",
            SplitError::AuctionNotStarted => "auction not started",
            SplitError::AwaitingApproval => "awaiting approval",
            SplitError::BatchLimitExceeded => "batch limit exceeded",
            SplitError::BidAmountMustBePositive => "bid amount must be positive",
            SplitError::BidMustBeHigherThanCurrentHighestBid => "bid must be higher than current highest bid",
            SplitError::BonusPoolMustBeNonNegative => "bonus_pool must be non-negative",
            SplitError::CancellationRateTooHigh => "cancellation rate too high",
            SplitError::CannotAddRecipientAfterPaymentReceived => "cannot add recipient after payment received",
            SplitError::ChannelNotFound => "channel not found",
            SplitError::ContractIsPaused => "contract is paused",
            SplitError::CreationFeeMustBeNonNegative => "creation_fee must be non-negative",
            SplitError::CreatorCountOverflow => "creator count overflow",
            SplitError::CreatorNotWhitelisted => "creator not whitelisted",
            SplitError::CreatorRefundedOverflow => "creator_refunded overflow",
            SplitError::CreatorReleasedOverflow => "creator_released overflow",
            SplitError::CreatorVolumeOverflow => "creator_volume overflow",
            SplitError::DeadlineHasNotPassed => "deadline has not passed",
            SplitError::DeadlineMustBeInTheFuture => "deadline must be in the future",
            SplitError::DepositMustBePositive => "deposit must be positive",
            SplitError::DexContractNotSet => "dex contract not set",
            SplitError::EarlyWithdrawalNotAllowed => "early withdrawal not allowed",
            SplitError::GovernanceApprovalRequired => "governance approval required",
            SplitError::GroupMembersNotFullyFunded => "group members not fully funded",
            SplitError::GroupNeedsAtLeast2Invoices => "group needs at least 2 invoices",
            SplitError::GroupNotFound => "group not found",
            SplitError::InsufficientChannelBalance => "insufficient channel balance",
            SplitError::InsurancePremiumBpsMustBeLe10000 => "insurance_premium_bps must be ≤ 10000",
            SplitError::InvalidNonce => "invalid nonce",
            SplitError::InvoiceAlreadyFrozenByAdmin => "invoice already frozen by admin",
            SplitError::InvoiceDeadlineHasNotPassed => "invoice deadline has not passed",
            SplitError::InvoiceDeadlineHasPassed => "invoice deadline has passed",
            SplitError::InvoiceFrozenByAdmin => "invoice frozen by admin",
            SplitError::InvoiceFullyFunded => "invoice is fully funded",
            SplitError::InvoiceIsAlreadyFrozen => "invoice is already frozen",
            SplitError::InvoiceIsFrozen => "invoice is frozen",
            SplitError::InvoiceIsNotFrozenByAdmin => "invoice is not frozen by admin",
            SplitError::InvoiceIsNotFrozen => "invoice is not frozen",
            SplitError::InvoiceIsNotPending => "invoice is not pending",
            SplitError::InvoiceNotCompleted => "invoice not completed",
            SplitError::InvoiceNotFinalized => "invoice not finalized",
            SplitError::InvoiceNotFound => "invoice not found",
            SplitError::InvoiceNotFullyFunded => "invoice not fully funded",
            SplitError::InvoiceNotPending => "invoice not pending",
            SplitError::InvoiceNotReleased => "invoice not released",
            SplitError::InvoiceTotalMustBePositive => "invoice total must be positive",
            SplitError::KycContractNotSet => "kyc contract not set",
            SplitError::KycRequired => "kyc required",
            SplitError::MaxCloneDepthExceeded => "max clone depth exceeded",
            SplitError::MaxCancelBpsMustBeLe10000 => "max_cancel_bps must be ≤ 10000",
            SplitError::MinFundingBpsMustBeLe10000 => "min_funding_bps must be ≤ 10000",
            SplitError::MinimumFundingNotReached => "minimum funding not reached",
            SplitError::MonthsMustBeBetween1And12 => "months must be between 1 and 12",
            SplitError::MustHaveAtLeastOneRecipient => "must have at least one recipient",
            SplitError::NewDeadlineMustBeAfterCurrentDeadline => "new deadline must be after current deadline",
            SplitError::NewDeadlineMustBeInTheFuture => "new deadline must be in the future",
            SplitError::NftGateNotAHolder => "nft gate: not a holder",
            SplitError::NoApproverSetOnThisInvoice => "no approver set on this invoice",
            SplitError::NoAutoResolveRulesDefined => "no auto-resolve rules defined",
            SplitError::NoCoSignersRequired => "no co-signers required",
            SplitError::NoContributionsToWithdraw => "no contributions to withdraw",
            SplitError::NoDripSchedule => "no drip schedule",
            SplitError::NoMatchingResolutionRule => "no matching resolution rule",
            SplitError::NoOracleSetForInvoice => "no oracle set for invoice",
            SplitError::NoReleaseStagesDefined => "no release stages defined",
            SplitError::NoReleaseTimestamp => "no release timestamp",
            SplitError::NoTokenInSubscription => "no token in subscription",
            SplitError::NoToken => "no token",
            SplitError::NoTranchesUnlocked => "no tranches unlocked",
            SplitError::NotAnAuthorizedCoSigner => "not an authorized co-signer",
            SplitError::NotAuthorised => "not authorised",
            SplitError::NotAuthorized => "not authorized",
            SplitError::NotEnoughCoSignerApprovals => "not enough co-signer approvals",
            SplitError::NotInvoiceCreator => "not invoice creator",
            SplitError::NothingToClaim => "nothing to claim",
            SplitError::OnlyCreatorCanAddRecipients => "only creator can add recipients",
            SplitError::OnlyCreatorCanAdjustSplit => "only creator can adjust split",
            SplitError::OnlyCreatorCanCallPartialRelease => "only creator can call partial_release",
            SplitError::OnlyCreatorCanCallStageRelease => "only creator can call stage_release",
            SplitError::OnlyCreatorCanCancel => "only creator can cancel",
            SplitError::OnlyCreatorCanPauseInvoice => "only creator can pause invoice",
            SplitError::OnlyCreatorCanResumeInvoice => "only creator can resume invoice",
            SplitError::OnlyCreatorCanRolloverInvoice => "only creator can rollover invoice",
            SplitError::OnlyPayersCanVote => "only payers can vote",
            SplitError::PayerNotAllowed => "payer not allowed",
            SplitError::PaymentAmountMustBePositive => "payment amount must be positive",
            SplitError::PaymentCooldownActive => "payment cooldown active",
            SplitError::PaymentExceedsRemainingBalance => "payment exceeds remaining balance",
            SplitError::PaymentRateLimitExceeded => "payment rate limit exceeded",
            SplitError::PaymentsAlreadyReceived => "payments already received",
            SplitError::PaymentsMustNotBeEmpty => "payments must not be empty",
            SplitError::PenaltyBpsMustBeLe10000 => "penalty_bps must be ≤ 10000",
            SplitError::PlatformFeeBpsMustBeLe10000 => "platform_fee_bps must be ≤ 10000",
            SplitError::PrerequisiteNotReleased => "prerequisite not released",
            SplitError::PrioritiesLengthMustMatchRecipients => "priorities length must match recipients",
            SplitError::RateLimitExceeded => "rate limit exceeded",
            SplitError::RateWindowMustBePositiveWhenRateLimitIsEnabled => "rate_window must be positive when rate_limit is enabled",
            SplitError::RecipientAlreadyClaimed => "recipient already claimed",
            SplitError::RecipientNotFound => "recipient not found",
            SplitError::RecipientNotInInvoice => "recipient not in invoice",
            SplitError::RecipientsAndAmountsLengthMismatch => "recipients and amounts length mismatch",
            SplitError::ReleaseStagesMustSumTo10000BasisPoints => "release_stages must sum to 10000 basis points",
            SplitError::ReminderNotDue => "reminder not due",
            SplitError::ReminderNotSet => "reminder not set",
            SplitError::SplitRulesLengthMustMatchRecipients => "split_rules length must match recipients",
            SplitError::TaxBpsMustBeLe10000 => "tax_bps must be ≤ 10000",
            SplitError::TemplateNotFound => "template not found",
            SplitError::TimelockNotYetElapsed => "timelock not yet elapsed",
            SplitError::TokenNotAccepted => "token not accepted",
            SplitError::TotalAmountsMustBePositive => "total amounts must be positive",
            SplitError::TotalFundedChangedAfterCompression => "total funded changed after compression",
            SplitError::TotalInvoicesOverflow => "total_invoices overflow",
            SplitError::TotalRefundedOverflow => "total_refunded overflow",
            SplitError::TotalReleasedOverflow => "total_released overflow",
            SplitError::TotalVolumeOverflow => "total_volume overflow",
            SplitError::TranchesMustSumTo10000BasisPoints => "tranches must sum to 10000 basis points",
            SplitError::TreasuryNotSet => "treasury not set",
            SplitError::UsdcTokenNotSet => "usdc token not set",
            SplitError::VelocityLimitExceeded => "velocity limit exceeded",
            SplitError::SplitRulesMustSumTo100Percent => "split_rules must sum to 100% of funded amount",
            SplitError::TaxAuthorityMustBeSet => "tax_authority must be set if tax_bps > 0",
            SplitError::ArithmeticOverflow => "arithmetic overflow",
            SplitError::MissingElement => "called `Option::unwrap()` on a `None` value",
            SplitError::ForwardChainDoesNotEnd => "forward chain does not end",
        }
    }
}

/// An event the host publishes for a successful call. Lists and strings
/// that an event carries (the recipients of a released invoice, a pause
/// reason, a cross-chain reference) are read from the invoice after the call.
#[derive(Clone, Copy, Debug, PartialEq, Eq, Structural)]
pub enum Event {
    InvoiceCreated { invoice_id: u64, creator: Address, total: i128 },
    PaymentReceived { invoice_id: u64, payer: Address, amount: i128 },
    InvoiceReleased { invoice_id: u64 },
    InvoiceRefunded { invoice_id: u64 },
    PayerRefunded { invoice_id: u64, payer: Address, amount: i128 },
    RecipientAdded { invoice_id: u64, recipient: Address, amount: i128 },
    SplitAdjusted { invoice_id: u64, creator: Address },
    InvoiceArchived { invoice_id: u64 },
    DelegateSet { invoice_id: u64, delegate: Address },
    DelegateRevoked { invoice_id: u64 },
    InvoicePartiallyReleased { invoice_id: u64 },
    PaymentReminder { invoice_id: u64, who: Address },
    PaymentMatched { invoice_id: u64, memo: u64, payer: Address },
    InvoiceCloned { source_id: u64, new_id: u64 },
    InvoicePaused { invoice_id: u64, creator: Address, auto_resume_at: Option<u64> },
    InvoiceResumed { invoice_id: u64, creator: Address },
    InvoiceForceResumed { invoice_id: u64, admin: Address },
    InvoiceAdminFrozen { invoice_id: u64, admin: Address },
    InvoiceAdminUnfrozen { invoice_id: u64, admin: Address },
    NftGateSet { contract: Option<Address>, admin: Address },
    BatchArchived { count: u64 },
    ActionQueued { action_id: u64, action: TimelockAction, admin: Address },
    ActionExecuted { action_id: u64, action: TimelockAction },
    ActionCancelled { action_id: u64, action: TimelockAction, admin: Address },
}

/// Which notification a notification contract receives.
#[derive(Clone, Copy, Debug, PartialEq, Eq, Structural)]
pub enum Notice {
    Pay,
    Release,
    Refund,
}

/// One thing the host does for a successful call, in order.
#[derive(Clone, Copy, Debug, PartialEq, Eq, Structural)]
pub enum Action {
    /// The call needs the authorization of this address.
    RequireAuth { who: Address },
    /// Move `amount` of `token` from `from` to `to`.
    Transfer { token: Address, from: Address, to: Address, amount: i128 },
    /// Publish an event.
    Emit { event: Event },
    /// Call `notify(invoice_id, notice)` on a notification contract.
    Notify { contract: Address, invoice_id: u64, notice: Notice },
    /// Call `swap(from_token, out_token, amount, recipient)` on `out_token`.
    SwapPayout { from_token: Address, out_token: Address, amount: i128, recipient: Address },
    /// Call `create_stream(recipient, amount, duration)` on the stream contract.
    CreateStream { stream_contract: Address, recipient: Address, amount: i128, duration: u64 },
    /// Call `swap(from_token, to_token, amount)` on the DEX contract; what it
    /// answers is the amount the payment is credited with.
    DexSwap { dex: Address, from_token: Address, to_token: Address, amount: i128 },
    /// Call `mint_receipt(invoice_id, payer, amount)` on the receipt factory and
    /// record the returned token with `record_receipt_token`.
    MintReceipt { factory: Address, invoice_id: u64, payer: Address, amount: i128 },
}

/// A token movement.
pub open spec fn transfer(token: Address, from: Address, to: Address, amount: i128) -> Action {
    Action::Transfer { token, from, to, amount }
}

/// An event emission.
pub open spec fn emit(event: Event) -> Action {
    Action::Emit { event }
}

/// The event: a new invoice of `total` by `creator`.
pub fn invoice_created(invoice_id: u64, creator: Address, total: i128) -> (r: Event)
    ensures
        r == (Event::InvoiceCreated { invoice_id, creator, total }),
{
    Event::InvoiceCreated { invoice_id, creator, total }
}

/// The event: a payment credited to an invoice.
pub fn payment_received(invoice_id: u64, payer: Address, amount: i128) -> (r: Event)
    ensures
        r == (Event::PaymentReceived { invoice_id, payer, amount }),
{
    Event::PaymentReceived { invoice_id, payer, amount }
}

/// The event: an invoice released to its recipients.
pub fn invoice_released(invoice_id: u64) -> (r: Event)
    ensures
        r == (Event::InvoiceReleased { invoice_id }),
{
    Event::InvoiceReleased { invoice_id }
}

/// The event: an invoice refunded to its payers.
pub fn invoice_refunded(invoice_id: u64) -> (r: Event)
    ensures
        r == (Event::InvoiceRefunded { invoice_id }),
{
    Event::InvoiceRefunded { invoice_id }
}

/// The event: one payer's refund.
pub fn payer_refunded(invoice_id: u64, payer: Address, amount: i128) -> (r: Event)
    ensures
        r == (Event::PayerRefunded { invoice_id, payer, amount }),
{
    Event::PayerRefunded { invoice_id, payer, amount }
}

/// The event: a recipient added to a pending invoice.
pub fn recipient_added(invoice_id: u64, recipient: Address, amount: i128) -> (r: Event)
    ensures
        r == (Event::RecipientAdded { invoice_id, recipient, amount }),
{
    Event::RecipientAdded { invoice_id, recipient, amount }
}

/// The event: the amounts of an invoice replaced.
pub fn split_adjusted(invoice_id: u64, creator: Address) -> (r: Event)
    ensures
        r == (Event::SplitAdjusted { invoice_id, creator }),
{
    Event::SplitAdjusted { invoice_id, creator }
}

/// The event: an invoice moved to archive storage.
pub fn invoice_archived(invoice_id: u64) -> (r: Event)
    ensures
        r == (Event::InvoiceArchived { invoice_id }),
{
    Event::InvoiceArchived { invoice_id }
}

/// The event: a delegate named for an invoice.
pub fn delegate_set(invoice_id: u64, delegate: Address) -> (r: Event)
    ensures
        r == (Event::DelegateSet { invoice_id, delegate }),
{
    Event::DelegateSet { invoice_id, delegate }
}

/// The event: the delegate of an invoice removed.
pub fn delegate_revoked(invoice_id: u64) -> (r: Event)
    ensures
        r == (Event::DelegateRevoked { invoice_id }),
{
    Event::DelegateRevoked { invoice_id }
}

/// The event: part of an invoice's funds released early.
pub fn invoice_partially_released(invoice_id: u64) -> (r: Event)
    ensures
        r == (Event::InvoicePartiallyReleased { invoice_id }),
{
    Event::InvoicePartiallyReleased { invoice_id }
}

/// The event: a payment reminder that came due.
pub fn payment_reminder(invoice_id: u64, who: Address) -> (r: Event)
    ensures
        r == (Event::PaymentReminder { invoice_id, who }),
{
    Event::PaymentReminder { invoice_id, who }
}

/// The event: a payment matched to an invoice by its memo.
pub fn payment_matched(invoice_id: u64, memo: u64, payer: Address) -> (r: Event)
    ensures
        r == (Event::PaymentMatched { invoice_id, memo, payer }),
{
    Event::PaymentMatched { invoice_id, memo, payer }
}

/// The event: an invoice cloned.
pub fn invoice_cloned(source_id: u64, new_id: u64) -> (r: Event)
    ensures
        r == (Event::InvoiceCloned { source_id, new_id }),
{
    Event::InvoiceCloned { source_id, new_id }
}

/// The event: an invoice paused by its creator.
pub fn invoice_paused(invoice_id: u64, creator: Address, auto_resume_at: Option<u64>) -> (r: Event)
    ensures
        r == (Event::InvoicePaused { invoice_id, creator, auto_resume_at }),
{
    Event::InvoicePaused { invoice_id, creator, auto_resume_at }
}

/// The event: an invoice resumed by its creator.
pub fn invoice_resumed(invoice_id: u64, creator: Address) -> (r: Event)
    ensures
        r == (Event::InvoiceResumed { invoice_id, creator }),
{
    Event::InvoiceResumed { invoice_id, creator }
}

/// The event: an invoice resumed by the admin.
pub fn invoice_force_resumed(invoice_id: u64, admin: Address) -> (r: Event)
    ensures
        r == (Event::InvoiceForceResumed { invoice_id, admin }),
{
    Event::InvoiceForceResumed { invoice_id, admin }
}

/// The event: an invoice frozen by the admin.
pub fn invoice_admin_frozen(invoice_id: u64, admin: Address) -> (r: Event)
    ensures
        r == (Event::InvoiceAdminFrozen { invoice_id, admin }),
{
    Event::InvoiceAdminFrozen { invoice_id, admin }
}

/// The event: the admin's freeze of an invoice lifted.
pub fn invoice_admin_unfrozen(invoice_id: u64, admin: Address) -> (r: Event)
    ensures
        r == (Event::InvoiceAdminUnfrozen { invoice_id, admin }),
{
    Event::InvoiceAdminUnfrozen { invoice_id, admin }
}

/// The event: the NFT gate for creation set or cleared.
pub fn nft_gate_set(contract: Option<Address>, admin: Address) -> (r: Event)
    ensures
        r == (Event::NftGateSet { contract, admin }),
{
    Event::NftGateSet { contract, admin }
}

/// The event: an archive sweep of `count` invoices.
pub fn batch_archived(count: u64) -> (r: Event)
    ensures
        r == (Event::BatchArchived { count }),
{
    Event::BatchArchived { count }
}

/// The event: an admin change queued behind the timelock.
pub fn action_queued(action_id: u64, action: TimelockAction, admin: Address) -> (r: Event)
    ensures
        r == (Event::ActionQueued { action_id, action, admin }),
{
    Event::ActionQueued { action_id, action, admin }
}

/// The event: a queued admin change applied.
pub fn action_executed(action_id: u64, action: TimelockAction) -> (r: Event)
    ensures
        r == (Event::ActionExecuted { action_id, action }),
{
    Event::ActionExecuted { action_id, action }
}

/// The event: a queued admin change cancelled.
pub fn action_cancelled(action_id: u64, action: TimelockAction, admin: Address) -> (r: Event)
    ensures
        r == (Event::ActionCancelled { action_id, action, admin }),
{
    Event::ActionCancelled { action_id, action, admin }
}

} // verus!
