//! The full invoice record and its three stored parts.

use vstd::prelude::*;
use crate::types::{Address, Bid, InvoiceStatus, OverflowBehavior, Payment, ResolveRule, SplitRule, Tranche};

verus! {

/// Core fields of an invoice, stored under the invoice key.
pub struct InvoiceCore {
    pub version: u32,
    pub creator: Address,
    pub co_creators: Vec<Address>,
    pub recipients: Vec<Address>,
    pub amounts: Vec<i128>,
    pub tokens: Vec<Address>,
    pub deadline: u64,
    pub funded: i128,
    pub status: InvoiceStatus,
    pub payments: Vec<Payment>,
    pub drip_duration: Option<u64>,
    pub release_timestamp: Option<u64>,
    pub claimed: Vec<i128>,
    pub frozen: bool,
    pub completion_time: Option<u64>,
    pub allow_early_withdrawal: bool,
    pub bonus_pool: i128,
    pub bonus_max_payers: u32,
    pub prerequisite_id: Option<u64>,
    pub tranches: Vec<Tranche>,
    pub released_bps: u32,
    pub clone_depth: u32,
}

/// Extension fields of an invoice.
pub struct InvoiceExt {
    pub co_signers: Vec<Address>,
    pub required_signatures: u32,
    pub signatures: Vec<Address>,
    pub approver: Option<Address>,
    pub approved: bool,
    pub oracle_address: Option<Address>,
    pub condition_met: bool,
    pub penalty_bps: u32,
    pub penalty_deadline: u64,
    pub min_funding_bps: u32,
    pub release_stages: Vec<u32>,
    pub released_stages: u32,
    pub allowed_payers: Option<Vec<Address>>,
    pub price_oracle: Option<Address>,
    pub base_amounts: Vec<i128>,
    pub swap_tokens: Vec<Option<Address>>,
    pub tax_bps: u32,
    pub tax_authority: Option<Address>,
    pub insurance_premium_bps: u32,
    pub insurance_fund: i128,
    pub smart_route: bool,
    pub convert_to_stream: bool,
    pub accepted_tokens: Vec<Address>,
    pub forward_to: Option<Address>,
    pub forward_invoice_id: Option<u64>,
    pub split_rules: Vec<SplitRule>,
    pub auto_resolve_rules: Vec<ResolveRule>,
    pub creator_cosigner: Option<Address>,
    pub velocity_limit: i128,
    pub velocity_window: u64,
    pub parent_invoice_id: Option<u64>,
    pub pause_reason: Option<String>,
    pub auto_resume_at: Option<u64>,
    pub payment_cooldown_secs: Option<u64>,
    pub max_payments_per_window: Option<u32>,
    pub payment_window_secs: Option<u64>,
    pub admin_frozen: bool,
}

/// Second extension of an invoice.
pub struct InvoiceExt2 {
    pub notification_contract: Option<Address>,
    pub overflow_behavior: OverflowBehavior,
    pub cross_chain_ref: Option<String>,
    pub require_kyc: bool,
    pub auction_on_expiry: bool,
    pub auction_end: u64,
    pub bids: Vec<Bid>,
    pub min_payment: i128,
    pub min_funding_amount: i128,
    pub priorities: Vec<u32>,
}

/// Full invoice, assembled from `InvoiceCore`, `InvoiceExt` and `InvoiceExt2`.
#[derive(Clone)]
pub struct Invoice {
    pub version: u32,
    pub creator: Address,
    pub co_creators: Vec<Address>,
    pub recipients: Vec<Address>,
    pub amounts: Vec<i128>,
    pub tokens: Vec<Address>,
    pub deadline: u64,
    pub funded: i128,
    pub status: InvoiceStatus,
    pub payments: Vec<Payment>,
    pub drip_duration: Option<u64>,
    pub release_timestamp: Option<u64>,
    pub claimed: Vec<i128>,
    pub frozen: bool,
    pub completion_time: Option<u64>,
    pub allow_early_withdrawal: bool,
    pub bonus_pool: i128,
    pub bonus_max_payers: u32,
    pub prerequisite_id: Option<u64>,
    pub tranches: Vec<Tranche>,
    pub released_bps: u32,
    pub clone_depth: u32,
    pub co_signers: Vec<Address>,
    pub required_signatures: u32,
    pub signatures: Vec<Address>,
    pub approver: Option<Address>,
    pub approved: bool,
    pub oracle_address: Option<Address>,
    pub condition_met: bool,
    pub penalty_bps: u32,
    pub penalty_deadline: u64,
    pub min_funding_bps: u32,
    pub release_stages: Vec<u32>,
    pub released_stages: u32,
    pub allowed_payers: Option<Vec<Address>>,
    pub price_oracle: Option<Address>,
    pub base_amounts: Vec<i128>,
    pub swap_tokens: Vec<Option<Address>>,
    pub tax_bps: u32,
    pub tax_authority: Option<Address>,
    pub insurance_premium_bps: u32,
    pub insurance_fund: i128,
    pub smart_route: bool,
    pub convert_to_stream: bool,
    pub accepted_tokens: Vec<Address>,
    pub forward_to: Option<Address>,
    pub forward_invoice_id: Option<u64>,
    pub split_rules: Vec<SplitRule>,
    pub auto_resolve_rules: Vec<ResolveRule>,
    pub creator_cosigner: Option<Address>,
    pub velocity_limit: i128,
    pub velocity_window: u64,
    pub parent_invoice_id: Option<u64>,
    pub pause_reason: Option<String>,
    pub auto_resume_at: Option<u64>,
    pub payment_cooldown_secs: Option<u64>,
    pub max_payments_per_window: Option<u32>,
    pub payment_window_secs: Option<u64>,
    pub admin_frozen: bool,
    pub notification_contract: Option<Address>,
    pub overflow_behavior: OverflowBehavior,
    pub cross_chain_ref: Option<String>,
    pub require_kyc: bool,
    pub auction_on_expiry: bool,
    pub auction_end: u64,
    pub bids: Vec<Bid>,
    pub min_payment: i128,
    pub min_funding_amount: i128,
    pub priorities: Vec<u32>,
}

/// Invoice layout written before the `version` field existed; kept so that
/// old records can be read and rewritten in the current layout.
pub struct LegacyInvoice {
    pub creator: Address,
    pub co_creators: Vec<Address>,
    pub recipients: Vec<Address>,
    pub amounts: Vec<i128>,
    pub tokens: Vec<Address>,
    pub deadline: u64,
    pub funded: i128,
    pub status: InvoiceStatus,
    pub payments: Vec<Payment>,
    pub drip_duration: Option<u64>,
    pub release_timestamp: Option<u64>,
    pub claimed: Vec<i128>,
    pub frozen: bool,
    pub completion_time: Option<u64>,
    pub allow_early_withdrawal: bool,
    pub bonus_pool: i128,
    pub bonus_max_payers: u32,
    pub prerequisite_id: Option<u64>,
    pub tranches: Vec<Tranche>,
    pub released_bps: u32,
    pub stake_amount: i128,
    pub referrer: Option<Address>,
    pub tax_bps: u32,
    pub tax_authority: Option<Address>,
    pub insurance_premium_bps: u32,
    pub insurance_fund: i128,
    pub smart_route: bool,
}

impl Invoice {
    /// The three stored parts of this invoice.
    pub open spec fn spec_parts(self) -> (InvoiceCore, InvoiceExt, InvoiceExt2) {
        (
            InvoiceCore {
                version: self.version,
                creator: self.creator,
                co_creators: self.co_creators,
                recipients: self.recipients,
                amounts: self.amounts,
                tokens: self.tokens,
                deadline: self.deadline,
                funded: self.funded,
                status: self.status,
                payments: self.payments,
                drip_duration: self.drip_duration,
                release_timestamp: self.release_timestamp,
                claimed: self.claimed,
                frozen: self.frozen,
                completion_time: self.completion_time,
                allow_early_withdrawal: self.allow_early_withdrawal,
                bonus_pool: self.bonus_pool,
                bonus_max_payers: self.bonus_max_payers,
                prerequisite_id: self.prerequisite_id,
                tranches: self.tranches,
                released_bps: self.released_bps,
                clone_depth: self.clone_depth,
            },
            InvoiceExt {
                co_signers: self.co_signers,
                required_signatures: self.required_signatures,
                signatures: self.signatures,
                approver: self.approver,
                approved: self.approved,
                oracle_address: self.oracle_address,
                condition_met: self.condition_met,
                penalty_bps: self.penalty_bps,
                penalty_deadline: self.penalty_deadline,
                min_funding_bps: self.min_funding_bps,
                release_stages: self.release_stages,
                released_stages: self.released_stages,
                allowed_payers: self.allowed_payers,
                price_oracle: self.price_oracle,
                base_amounts: self.base_amounts,
                swap_tokens: self.swap_tokens,
                tax_bps: self.tax_bps,
                tax_authority: self.tax_authority,
                insurance_premium_bps: self.insurance_premium_bps,
                insurance_fund: self.insurance_fund,
                smart_route: self.smart_route,
                convert_to_stream: self.convert_to_stream,
                accepted_tokens: self.accepted_tokens,
                forward_to: self.forward_to,
                forward_invoice_id: self.forward_invoice_id,
                split_rules: self.split_rules,
                auto_resolve_rules: self.auto_resolve_rules,
                creator_cosigner: self.creator_cosigner,
                velocity_limit: self.velocity_limit,
                velocity_window: self.velocity_window,
                parent_invoice_id: self.parent_invoice_id,
                pause_reason: self.pause_reason,
                auto_resume_at: self.auto_resume_at,
                payment_cooldown_secs: self.payment_cooldown_secs,
                max_payments_per_window: self.max_payments_per_window,
                payment_window_secs: self.payment_window_secs,
                admin_frozen: self.admin_frozen,
            },
            InvoiceExt2 {
                notification_contract: self.notification_contract,
                overflow_behavior: self.overflow_behavior,
                cross_chain_ref: self.cross_chain_ref,
                require_kyc: self.require_kyc,
                auction_on_expiry: self.auction_on_expiry,
                auction_end: self.auction_end,
                bids: self.bids,
                min_payment: self.min_payment,
                min_funding_amount: self.min_funding_amount,
                priorities: self.priorities,
            },
        )
    }

    /// The invoice made of three stored parts.
    pub open spec fn spec_assemble(core: InvoiceCore, ext: InvoiceExt, ext2: InvoiceExt2) -> Invoice {
        Invoice {
            version: core.version,
            creator: core.creator,
            co_creators: core.co_creators,
            recipients: core.recipients,
            amounts: core.amounts,
            tokens: core.tokens,
            deadline: core.deadline,
            funded: core.funded,
            status: core.status,
            payments: core.payments,
            drip_duration: core.drip_duration,
            release_timestamp: core.release_timestamp,
            claimed: core.claimed,
            frozen: core.frozen,
            completion_time: core.completion_time,
            allow_early_withdrawal: core.allow_early_withdrawal,
            bonus_pool: core.bonus_pool,
            bonus_max_payers: core.bonus_max_payers,
            prerequisite_id: core.prerequisite_id,
            tranches: core.tranches,
            released_bps: core.released_bps,
            clone_depth: core.clone_depth,
            co_signers: ext.co_signers,
            required_signatures: ext.required_signatures,
            signatures: ext.signatures,
            approver: ext.approver,
            approved: ext.approved,
            oracle_address: ext.oracle_address,
            condition_met: ext.condition_met,
            penalty_bps: ext.penalty_bps,
            penalty_deadline: ext.penalty_deadline,
            min_funding_bps: ext.min_funding_bps,
            release_stages: ext.release_stages,
            released_stages: ext.released_stages,
            allowed_payers: ext.allowed_payers,
            price_oracle: ext.price_oracle,
            base_amounts: ext.base_amounts,
            swap_tokens: ext.swap_tokens,
            tax_bps: ext.tax_bps,
            tax_authority: ext.tax_authority,
            insurance_premium_bps: ext.insurance_premium_bps,
            insurance_fund: ext.insurance_fund,
            smart_route: ext.smart_route,
            convert_to_stream: ext.convert_to_stream,
            accepted_tokens: ext.accepted_tokens,
            forward_to: ext.forward_to,
            forward_invoice_id: ext.forward_invoice_id,
            split_rules: ext.split_rules,
            auto_resolve_rules: ext.auto_resolve_rules,
            creator_cosigner: ext.creator_cosigner,
            velocity_limit: ext.velocity_limit,
            velocity_window: ext.velocity_window,
            parent_invoice_id: ext.parent_invoice_id,
            pause_reason: ext.pause_reason,
            auto_resume_at: ext.auto_resume_at,
            payment_cooldown_secs: ext.payment_cooldown_secs,
            max_payments_per_window: ext.max_payments_per_window,
            payment_window_secs: ext.payment_window_secs,
            admin_frozen: ext.admin_frozen,
            notification_contract: ext2.notification_contract,
            overflow_behavior: ext2.overflow_behavior,
            cross_chain_ref: ext2.cross_chain_ref,
            require_kyc: ext2.require_kyc,
            auction_on_expiry: ext2.auction_on_expiry,
            auction_end: ext2.auction_end,
            bids: ext2.bids,
            min_payment: ext2.min_payment,
            min_funding_amount: ext2.min_funding_amount,
            priorities: ext2.priorities,
        }
    }

    /// Split the invoice into its three stored parts.
    pub fn split(self) -> (r: (InvoiceCore, InvoiceExt, InvoiceExt2))
        ensures
            r == self.spec_parts(),
    {
        (
            InvoiceCore {
                version: self.version,
                creator: self.creator,
                co_creators: self.co_creators,
                recipients: self.recipients,
                amounts: self.amounts,
                tokens: self.tokens,
                deadline: self.deadline,
                funded: self.funded,
                status: self.status,
                payments: self.payments,
                drip_duration: self.drip_duration,
                release_timestamp: self.release_timestamp,
                claimed: self.claimed,
                frozen: self.frozen,
                completion_time: self.completion_time,
                allow_early_withdrawal: self.allow_early_withdrawal,
                bonus_pool: self.bonus_pool,
                bonus_max_payers: self.bonus_max_payers,
                prerequisite_id: self.prerequisite_id,
                tranches: self.tranches,
                released_bps: self.released_bps,
                clone_depth: self.clone_depth,
            },
            InvoiceExt {
                co_signers: self.co_signers,
                required_signatures: self.required_signatures,
                signatures: self.signatures,
                approver: self.approver,
                approved: self.approved,
                oracle_address: self.oracle_address,
                condition_met: self.condition_met,
                penalty_bps: self.penalty_bps,
                penalty_deadline: self.penalty_deadline,
                min_funding_bps: self.min_funding_bps,
                release_stages: self.release_stages,
                released_stages: self.released_stages,
                allowed_payers: self.allowed_payers,
                price_oracle: self.price_oracle,
                base_amounts: self.base_amounts,
                swap_tokens: self.swap_tokens,
                tax_bps: self.tax_bps,
                tax_authority: self.tax_authority,
                insurance_premium_bps: self.insurance_premium_bps,
                insurance_fund: self.insurance_fund,
                smart_route: self.smart_route,
                convert_to_stream: self.convert_to_stream,
                accepted_tokens: self.accepted_tokens,
                forward_to: self.forward_to,
                forward_invoice_id: self.forward_invoice_id,
                split_rules: self.split_rules,
                auto_resolve_rules: self.auto_resolve_rules,
                creator_cosigner: self.creator_cosigner,
                velocity_limit: self.velocity_limit,
                velocity_window: self.velocity_window,
                parent_invoice_id: self.parent_invoice_id,
                pause_reason: self.pause_reason,
                auto_resume_at: self.auto_resume_at,
                payment_cooldown_secs: self.payment_cooldown_secs,
                max_payments_per_window: self.max_payments_per_window,
                payment_window_secs: self.payment_window_secs,
                admin_frozen: self.admin_frozen,
            },
            InvoiceExt2 {
                notification_contract: self.notification_contract,
                overflow_behavior: self.overflow_behavior,
                cross_chain_ref: self.cross_chain_ref,
                require_kyc: self.require_kyc,
                auction_on_expiry: self.auction_on_expiry,
                auction_end: self.auction_end,
                bids: self.bids,
                min_payment: self.min_payment,
                min_funding_amount: self.min_funding_amount,
                priorities: self.priorities,
            },
        )
    }

    /// Assemble an invoice from its three stored parts.
    pub fn assemble(core: InvoiceCore, ext: InvoiceExt, ext2: InvoiceExt2) -> (r: Invoice)
        ensures
            r == Invoice::spec_assemble(core, ext, ext2),
    {
        Invoice {
            version: core.version,
            creator: core.creator,
            co_creators: core.co_creators,
            recipients: core.recipients,
            amounts: core.amounts,
            tokens: core.tokens,
            deadline: core.deadline,
            funded: core.funded,
            status: core.status,
            payments: core.payments,
            drip_duration: core.drip_duration,
            release_timestamp: core.release_timestamp,
            claimed: core.claimed,
            frozen: core.frozen,
            completion_time: core.completion_time,
            allow_early_withdrawal: core.allow_early_withdrawal,
            bonus_pool: core.bonus_pool,
            bonus_max_payers: core.bonus_max_payers,
            prerequisite_id: core.prerequisite_id,
            tranches: core.tranches,
            released_bps: core.released_bps,
            clone_depth: core.clone_depth,
            co_signers: ext.co_signers,
            required_signatures: ext.required_signatures,
            signatures: ext.signatures,
            approver: ext.approver,
            approved: ext.approved,
            oracle_address: ext.oracle_address,
            condition_met: ext.condition_met,
            penalty_bps: ext.penalty_bps,
            penalty_deadline: ext.penalty_deadline,
            min_funding_bps: ext.min_funding_bps,
            release_stages: ext.release_stages,
            released_stages: ext.released_stages,
            allowed_payers: ext.allowed_payers,
            price_oracle: ext.price_oracle,
            base_amounts: ext.base_amounts,
            swap_tokens: ext.swap_tokens,
            tax_bps: ext.tax_bps,
            tax_authority: ext.tax_authority,
            insurance_premium_bps: ext.insurance_premium_bps,
            insurance_fund: ext.insurance_fund,
            smart_route: ext.smart_route,
            convert_to_stream: ext.convert_to_stream,
            accepted_tokens: ext.accepted_tokens,
            forward_to: ext.forward_to,
            forward_invoice_id: ext.forward_invoice_id,
            split_rules: ext.split_rules,
            auto_resolve_rules: ext.auto_resolve_rules,
            creator_cosigner: ext.creator_cosigner,
            velocity_limit: ext.velocity_limit,
            velocity_window: ext.velocity_window,
            parent_invoice_id: ext.parent_invoice_id,
            pause_reason: ext.pause_reason,
            auto_resume_at: ext.auto_resume_at,
            payment_cooldown_secs: ext.payment_cooldown_secs,
            max_payments_per_window: ext.max_payments_per_window,
            payment_window_secs: ext.payment_window_secs,
            admin_frozen: ext.admin_frozen,
            notification_contract: ext2.notification_contract,
            overflow_behavior: ext2.overflow_behavior,
            cross_chain_ref: ext2.cross_chain_ref,
            require_kyc: ext2.require_kyc,
            auction_on_expiry: ext2.auction_on_expiry,
            auction_end: ext2.auction_end,
            bids: ext2.bids,
            min_payment: ext2.min_payment,
            min_funding_amount: ext2.min_funding_amount,
            priorities: ext2.priorities,
        }
    }
}


/// The invoice as mathematical values.
#[verifier::ext_equal]
pub struct InvoiceView {
    pub version: u32,
    pub creator: Address,
    pub co_creators: Seq<Address>,
    pub recipients: Seq<Address>,
    pub amounts: Seq<i128>,
    pub tokens: Seq<Address>,
    pub deadline: u64,
    pub funded: i128,
    pub status: InvoiceStatus,
    pub payments: Seq<Payment>,
    pub drip_duration: Option<u64>,
    pub release_timestamp: Option<u64>,
    pub claimed: Seq<i128>,
    pub frozen: bool,
    pub completion_time: Option<u64>,
    pub allow_early_withdrawal: bool,
    pub bonus_pool: i128,
    pub bonus_max_payers: u32,
    pub prerequisite_id: Option<u64>,
    pub tranches: Seq<Tranche>,
    pub released_bps: u32,
    pub clone_depth: u32,
    pub co_signers: Seq<Address>,
    pub required_signatures: u32,
    pub signatures: Seq<Address>,
    pub approver: Option<Address>,
    pub approved: bool,
    pub oracle_address: Option<Address>,
    pub condition_met: bool,
    pub penalty_bps: u32,
    pub penalty_deadline: u64,
    pub min_funding_bps: u32,
    pub release_stages: Seq<u32>,
    pub released_stages: u32,
    pub allowed_payers: Option<Seq<Address>>,
    pub price_oracle: Option<Address>,
    pub base_amounts: Seq<i128>,
    pub swap_tokens: Seq<Option<Address>>,
    pub tax_bps: u32,
    pub tax_authority: Option<Address>,
    pub insurance_premium_bps: u32,
    pub insurance_fund: i128,
    pub smart_route: bool,
    pub convert_to_stream: bool,
    pub accepted_tokens: Seq<Address>,
    pub forward_to: Option<Address>,
    pub forward_invoice_id: Option<u64>,
    pub split_rules: Seq<SplitRule>,
    pub auto_resolve_rules: Seq<ResolveRule>,
    pub creator_cosigner: Option<Address>,
    pub velocity_limit: i128,
    pub velocity_window: u64,
    pub parent_invoice_id: Option<u64>,
    pub pause_reason: Option<Seq<char>>,
    pub auto_resume_at: Option<u64>,
    pub payment_cooldown_secs: Option<u64>,
    pub max_payments_per_window: Option<u32>,
    pub payment_window_secs: Option<u64>,
    pub admin_frozen: bool,
    pub notification_contract: Option<Address>,
    pub overflow_behavior: OverflowBehavior,
    pub cross_chain_ref: Option<Seq<char>>,
    pub require_kyc: bool,
    pub auction_on_expiry: bool,
    pub auction_end: u64,
    pub bids: Seq<Bid>,
    pub min_payment: i128,
    pub min_funding_amount: i128,
    pub priorities: Seq<u32>,
}

impl View for Invoice {
    type V = InvoiceView;

    open spec fn view(&self) -> InvoiceView {
        InvoiceView {
            version: self.version,
            creator: self.creator,
            co_creators: self.co_creators@,
            recipients: self.recipients@,
            amounts: self.amounts@,
            tokens: self.tokens@,
            deadline: self.deadline,
            funded: self.funded,
            status: self.status,
            payments: self.payments@,
            drip_duration: self.drip_duration,
            release_timestamp: self.release_timestamp,
            claimed: self.claimed@,
            frozen: self.frozen,
            completion_time: self.completion_time,
            allow_early_withdrawal: self.allow_early_withdrawal,
            bonus_pool: self.bonus_pool,
            bonus_max_payers: self.bonus_max_payers,
            prerequisite_id: self.prerequisite_id,
            tranches: self.tranches@,
            released_bps: self.released_bps,
            clone_depth: self.clone_depth,
            co_signers: self.co_signers@,
            required_signatures: self.required_signatures,
            signatures: self.signatures@,
            approver: self.approver,
            approved: self.approved,
            oracle_address: self.oracle_address,
            condition_met: self.condition_met,
            penalty_bps: self.penalty_bps,
            penalty_deadline: self.penalty_deadline,
            min_funding_bps: self.min_funding_bps,
            release_stages: self.release_stages@,
            released_stages: self.released_stages,
            allowed_payers: match &self.allowed_payers { Some(x) => Some(x@), None => None },
            price_oracle: self.price_oracle,
            base_amounts: self.base_amounts@,
            swap_tokens: self.swap_tokens@,
            tax_bps: self.tax_bps,
            tax_authority: self.tax_authority,
            insurance_premium_bps: self.insurance_premium_bps,
            insurance_fund: self.insurance_fund,
            smart_route: self.smart_route,
            convert_to_stream: self.convert_to_stream,
            accepted_tokens: self.accepted_tokens@,
            forward_to: self.forward_to,
            forward_invoice_id: self.forward_invoice_id,
            split_rules: self.split_rules@,
            auto_resolve_rules: self.auto_resolve_rules@,
            creator_cosigner: self.creator_cosigner,
            velocity_limit: self.velocity_limit,
            velocity_window: self.velocity_window,
            parent_invoice_id: self.parent_invoice_id,
            pause_reason: match &self.pause_reason { Some(x) => Some(x@), None => None },
            auto_resume_at: self.auto_resume_at,
            payment_cooldown_secs: self.payment_cooldown_secs,
            max_payments_per_window: self.max_payments_per_window,
            payment_window_secs: self.payment_window_secs,
            admin_frozen: self.admin_frozen,
            notification_contract: self.notification_contract,
            overflow_behavior: self.overflow_behavior,
            cross_chain_ref: match &self.cross_chain_ref { Some(x) => Some(x@), None => None },
            require_kyc: self.require_kyc,
            auction_on_expiry: self.auction_on_expiry,
            auction_end: self.auction_end,
            bids: self.bids@,
            min_payment: self.min_payment,
            min_funding_amount: self.min_funding_amount,
            priorities: self.priorities@,
        }
    }
}


/// A legacy invoice in the current layout: every field the legacy record
/// shares with the current layout keeps its value, `base_amounts` copies
/// `amounts`, every new field takes its empty or zero value, and `version`
/// becomes 1, the current layout.
pub open spec fn upgraded(old: LegacyInvoice) -> InvoiceView {
    InvoiceView {
        version: 1,
        creator: old.creator,
        co_creators: old.co_creators@,
        recipients: old.recipients@,
        amounts: old.amounts@,
        tokens: old.tokens@,
        deadline: old.deadline,
        funded: old.funded,
        status: old.status,
        payments: old.payments@,
        drip_duration: old.drip_duration,
        release_timestamp: old.release_timestamp,
        claimed: old.claimed@,
        frozen: old.frozen,
        completion_time: old.completion_time,
        allow_early_withdrawal: old.allow_early_withdrawal,
        bonus_pool: old.bonus_pool,
        bonus_max_payers: old.bonus_max_payers,
        prerequisite_id: old.prerequisite_id,
        tranches: old.tranches@,
        released_bps: old.released_bps,
        clone_depth: 0,
        co_signers: Seq::empty(),
        required_signatures: 0,
        signatures: Seq::empty(),
        approver: None,
        approved: false,
        oracle_address: None,
        condition_met: false,
        penalty_bps: 0,
        penalty_deadline: 0,
        min_funding_bps: 0,
        release_stages: Seq::empty(),
        released_stages: 0,
        allowed_payers: None,
        price_oracle: None,
        base_amounts: old.amounts@,
        swap_tokens: Seq::empty(),
        tax_bps: old.tax_bps,
        tax_authority: old.tax_authority,
        insurance_premium_bps: old.insurance_premium_bps,
        insurance_fund: old.insurance_fund,
        smart_route: old.smart_route,
        convert_to_stream: false,
        accepted_tokens: Seq::empty(),
        forward_to: None,
        forward_invoice_id: None,
        split_rules: Seq::empty(),
        auto_resolve_rules: Seq::empty(),
        creator_cosigner: None,
        velocity_limit: 0,
        velocity_window: 0,
        parent_invoice_id: None,
        pause_reason: None,
        auto_resume_at: None,
        payment_cooldown_secs: None,
        max_payments_per_window: None,
        payment_window_secs: None,
        admin_frozen: false,
        notification_contract: None,
        overflow_behavior: OverflowBehavior::Reject,
        cross_chain_ref: None,
        require_kyc: false,
        auction_on_expiry: false,
        auction_end: 0,
        bids: Seq::empty(),
        min_payment: 0,
        min_funding_amount: 0,
        priorities: Seq::empty(),
    }
}

impl Invoice {
    /// Upgrade a legacy invoice to the current layout; see `upgraded`.
    pub fn from_legacy(old: LegacyInvoice) -> (r: Invoice)
        ensures
            r@ == upgraded(old),
    {
        let base_amounts = old.amounts.clone();
        Invoice {
            version: 1,
            creator: old.creator,
            co_creators: old.co_creators,
            recipients: old.recipients,
            amounts: old.amounts,
            tokens: old.tokens,
            deadline: old.deadline,
            funded: old.funded,
            status: old.status,
            payments: old.payments,
            drip_duration: old.drip_duration,
            release_timestamp: old.release_timestamp,
            claimed: old.claimed,
            frozen: old.frozen,
            completion_time: old.completion_time,
            allow_early_withdrawal: old.allow_early_withdrawal,
            bonus_pool: old.bonus_pool,
            bonus_max_payers: old.bonus_max_payers,
            prerequisite_id: old.prerequisite_id,
            tranches: old.tranches,
            released_bps: old.released_bps,
            clone_depth: 0,
            co_signers: Vec::new(),
            required_signatures: 0,
            signatures: Vec::new(),
            approver: None,
            approved: false,
            oracle_address: None,
            condition_met: false,
            penalty_bps: 0,
            penalty_deadline: 0,
            min_funding_bps: 0,
            release_stages: Vec::new(),
            released_stages: 0,
            allowed_payers: None,
            price_oracle: None,
            base_amounts: base_amounts,
            swap_tokens: Vec::new(),
            tax_bps: old.tax_bps,
            tax_authority: old.tax_authority,
            insurance_premium_bps: old.insurance_premium_bps,
            insurance_fund: old.insurance_fund,
            smart_route: old.smart_route,
            convert_to_stream: false,
            accepted_tokens: Vec::new(),
            forward_to: None,
            forward_invoice_id: None,
            split_rules: Vec::new(),
            auto_resolve_rules: Vec::new(),
            creator_cosigner: None,
            velocity_limit: 0,
            velocity_window: 0,
            parent_invoice_id: None,
            pause_reason: None,
            auto_resume_at: None,
            payment_cooldown_secs: None,
            max_payments_per_window: None,
            payment_window_secs: None,
            admin_frozen: false,
            notification_contract: None,
            overflow_behavior: OverflowBehavior::Reject,
            cross_chain_ref: None,
            require_kyc: false,
            auction_on_expiry: false,
            auction_end: 0,
            bids: Vec::new(),
            min_payment: 0,
            min_funding_amount: 0,
            priorities: Vec::new(),
        }
    }
}


/// A copy of `v`.
pub fn copy_vec<T: Copy>(v: &Vec<T>) -> (r: Vec<T>)
    ensures
        r@ == v@,
{
    let mut out: Vec<T> = Vec::new();
    let mut i: usize = 0;
    while i < v.len()
        invariant
            i <= v.len(),
            out@ == v@.take(i as int),
        decreases v.len() - i,
    {
        out.push(v[i]);
        i = i + 1;
        assert(out@ =~= v@.take(i as int));
    }
    assert(v@.take(v.len() as int) =~= v@);
    out
}

impl Invoice {
    /// A copy of this invoice.
    pub fn copy(&self) -> (r: Invoice)
        ensures
            r@ == self@,
    {
        let version = self.version;
        let creator = self.creator;
        let co_creators = copy_vec(&self.co_creators);
        let recipients = copy_vec(&self.recipients);
        let amounts = copy_vec(&self.amounts);
        let tokens = copy_vec(&self.tokens);
        let deadline = self.deadline;
        let funded = self.funded;
        let status = self.status;
        let payments = copy_vec(&self.payments);
        let drip_duration = self.drip_duration;
        let release_timestamp = self.release_timestamp;
        let claimed = copy_vec(&self.claimed);
        let frozen = self.frozen;
        let completion_time = self.completion_time;
        let allow_early_withdrawal = self.allow_early_withdrawal;
        let bonus_pool = self.bonus_pool;
        let bonus_max_payers = self.bonus_max_payers;
        let prerequisite_id = self.prerequisite_id;
        let tranches = copy_vec(&self.tranches);
        let released_bps = self.released_bps;
        let clone_depth = self.clone_depth;
        let co_signers = copy_vec(&self.co_signers);
        let required_signatures = self.required_signatures;
        let signatures = copy_vec(&self.signatures);
        let approver = self.approver;
        let approved = self.approved;
        let oracle_address = self.oracle_address;
        let condition_met = self.condition_met;
        let penalty_bps = self.penalty_bps;
        let penalty_deadline = self.penalty_deadline;
        let min_funding_bps = self.min_funding_bps;
        let release_stages = copy_vec(&self.release_stages);
        let released_stages = self.released_stages;
        let allowed_payers = match &self.allowed_payers { Some(v) => Some(copy_vec(v)), None => None };
        let price_oracle = self.price_oracle;
        let base_amounts = copy_vec(&self.base_amounts);
        let swap_tokens = copy_vec(&self.swap_tokens);
        let tax_bps = self.tax_bps;
        let tax_authority = self.tax_authority;
        let insurance_premium_bps = self.insurance_premium_bps;
        let insurance_fund = self.insurance_fund;
        let smart_route = self.smart_route;
        let convert_to_stream = self.convert_to_stream;
        let accepted_tokens = copy_vec(&self.accepted_tokens);
        let forward_to = self.forward_to;
        let forward_invoice_id = self.forward_invoice_id;
        let split_rules = copy_vec(&self.split_rules);
        let auto_resolve_rules = copy_vec(&self.auto_resolve_rules);
        let creator_cosigner = self.creator_cosigner;
        let velocity_limit = self.velocity_limit;
        let velocity_window = self.velocity_window;
        let parent_invoice_id = self.parent_invoice_id;
        let pause_reason = match &self.pause_reason { Some(x) => Some(x.clone()), None => None };
        let auto_resume_at = self.auto_resume_at;
        let payment_cooldown_secs = self.payment_cooldown_secs;
        let max_payments_per_window = self.max_payments_per_window;
        let payment_window_secs = self.payment_window_secs;
        let admin_frozen = self.admin_frozen;
        let notification_contract = self.notification_contract;
        let overflow_behavior = self.overflow_behavior;
        let cross_chain_ref = match &self.cross_chain_ref { Some(x) => Some(x.clone()), None => None };
        let require_kyc = self.require_kyc;
        let auction_on_expiry = self.auction_on_expiry;
        let auction_end = self.auction_end;
        let bids = copy_vec(&self.bids);
        let min_payment = self.min_payment;
        let min_funding_amount = self.min_funding_amount;
        let priorities = copy_vec(&self.priorities);
        Invoice {
            version,
            creator,
            co_creators,
            recipients,
            amounts,
            tokens,
            deadline,
            funded,
            status,
            payments,
            drip_duration,
            release_timestamp,
            claimed,
            frozen,
            completion_time,
            allow_early_withdrawal,
            bonus_pool,
            bonus_max_payers,
            prerequisite_id,
            tranches,
            released_bps,
            clone_depth,
            co_signers,
            required_signatures,
            signatures,
            approver,
            approved,
            oracle_address,
            condition_met,
            penalty_bps,
            penalty_deadline,
            min_funding_bps,
            release_stages,
            released_stages,
            allowed_payers,
            price_oracle,
            base_amounts,
            swap_tokens,
            tax_bps,
            tax_authority,
            insurance_premium_bps,
            insurance_fund,
            smart_route,
            convert_to_stream,
            accepted_tokens,
            forward_to,
            forward_invoice_id,
            split_rules,
            auto_resolve_rules,
            creator_cosigner,
            velocity_limit,
            velocity_window,
            parent_invoice_id,
            pause_reason,
            auto_resume_at,
            payment_cooldown_secs,
            max_payments_per_window,
            payment_window_secs,
            admin_frozen,
            notification_contract,
            overflow_behavior,
            cross_chain_ref,
            require_kyc,
            auction_on_expiry,
            auction_end,
            bids,
            min_payment,
            min_funding_amount,
            priorities,
        }
    }
}

} // verus!
