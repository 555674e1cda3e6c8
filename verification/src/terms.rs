//! The terms an invoice is created with, and the invoice they make.

use vstd::prelude::*;
use crate::types::{Address, InvoiceStatus, OverflowBehavior, ResolveRule, SplitRule, Tranche};
use crate::invoice::{Invoice, InvoiceView};

verus! {

/// Everything an invoice is created with besides its creator, recipients,
/// amounts, token and deadline.
pub struct InvoiceTerms {
    pub co_creators: Vec<Address>,
    pub allow_early_withdrawal: bool,
    pub bonus_pool: i128,
    pub bonus_max_payers: u32,
    pub prerequisite_id: Option<u64>,
    pub tranches: Vec<Tranche>,
    pub co_signers: Vec<Address>,
    pub required_signatures: u32,
    pub penalty_bps: u32,
    pub penalty_deadline: u64,
    pub min_funding_bps: u32,
    pub release_stages: Vec<u32>,
    pub price_oracle: Option<Address>,
    pub swap_tokens: Vec<Option<Address>>,
    pub oracle_address: Option<Address>,
    pub tax_bps: u32,
    pub tax_authority: Option<Address>,
    pub insurance_premium_bps: u32,
    pub smart_route: bool,
    pub notification_contract: Option<Address>,
    pub overflow_behavior: OverflowBehavior,
    pub convert_to_stream: bool,
    pub accepted_tokens: Vec<Address>,
    pub forward_to: Option<Address>,
    pub forward_invoice_id: Option<u64>,
    pub creator_cosigner: Option<Address>,
    pub velocity_limit: i128,
    pub velocity_window: u64,
    pub split_rules: Vec<SplitRule>,
    pub auto_resolve_rules: Vec<ResolveRule>,
    pub cross_chain_ref: Option<String>,
    pub allowed_payers: Option<Vec<Address>>,
    pub min_funding_amount: i128,
    pub payment_cooldown_secs: Option<u64>,
    pub max_payments_per_window: Option<u32>,
    pub payment_window_secs: Option<u64>,
    pub priorities: Vec<u32>,
}

/// The terms as mathematical values.
#[verifier::ext_equal]
pub struct TermsView {
    pub co_creators: Seq<Address>,
    pub allow_early_withdrawal: bool,
    pub bonus_pool: i128,
    pub bonus_max_payers: u32,
    pub prerequisite_id: Option<u64>,
    pub tranches: Seq<Tranche>,
    pub co_signers: Seq<Address>,
    pub required_signatures: u32,
    pub penalty_bps: u32,
    pub penalty_deadline: u64,
    pub min_funding_bps: u32,
    pub release_stages: Seq<u32>,
    pub price_oracle: Option<Address>,
    pub swap_tokens: Seq<Option<Address>>,
    pub oracle_address: Option<Address>,
    pub tax_bps: u32,
    pub tax_authority: Option<Address>,
    pub insurance_premium_bps: u32,
    pub smart_route: bool,
    pub notification_contract: Option<Address>,
    pub overflow_behavior: OverflowBehavior,
    pub convert_to_stream: bool,
    pub accepted_tokens: Seq<Address>,
    pub forward_to: Option<Address>,
    pub forward_invoice_id: Option<u64>,
    pub creator_cosigner: Option<Address>,
    pub velocity_limit: i128,
    pub velocity_window: u64,
    pub split_rules: Seq<SplitRule>,
    pub auto_resolve_rules: Seq<ResolveRule>,
    pub cross_chain_ref: Option<Seq<char>>,
    pub allowed_payers: Option<Seq<Address>>,
    pub min_funding_amount: i128,
    pub payment_cooldown_secs: Option<u64>,
    pub max_payments_per_window: Option<u32>,
    pub payment_window_secs: Option<u64>,
    pub priorities: Seq<u32>,
}

impl View for InvoiceTerms {
    type V = TermsView;

    open spec fn view(&self) -> TermsView {
        TermsView {
            co_creators: self.co_creators@,
            allow_early_withdrawal: self.allow_early_withdrawal,
            bonus_pool: self.bonus_pool,
            bonus_max_payers: self.bonus_max_payers,
            prerequisite_id: self.prerequisite_id,
            tranches: self.tranches@,
            co_signers: self.co_signers@,
            required_signatures: self.required_signatures,
            penalty_bps: self.penalty_bps,
            penalty_deadline: self.penalty_deadline,
            min_funding_bps: self.min_funding_bps,
            release_stages: self.release_stages@,
            price_oracle: self.price_oracle,
            swap_tokens: self.swap_tokens@,
            oracle_address: self.oracle_address,
            tax_bps: self.tax_bps,
            tax_authority: self.tax_authority,
            insurance_premium_bps: self.insurance_premium_bps,
            smart_route: self.smart_route,
            notification_contract: self.notification_contract,
            overflow_behavior: self.overflow_behavior,
            convert_to_stream: self.convert_to_stream,
            accepted_tokens: self.accepted_tokens@,
            forward_to: self.forward_to,
            forward_invoice_id: self.forward_invoice_id,
            creator_cosigner: self.creator_cosigner,
            velocity_limit: self.velocity_limit,
            velocity_window: self.velocity_window,
            split_rules: self.split_rules@,
            auto_resolve_rules: self.auto_resolve_rules@,
            cross_chain_ref: match &self.cross_chain_ref { Some(x) => Some(x@), None => None },
            allowed_payers: match &self.allowed_payers { Some(x) => Some(x@), None => None },
            min_funding_amount: self.min_funding_amount,
            payment_cooldown_secs: self.payment_cooldown_secs,
            max_payments_per_window: self.max_payments_per_window,
            payment_window_secs: self.payment_window_secs,
            priorities: self.priorities@,
        }
    }
}

/// Terms with every option off: what batches, subscriptions and templates use.
pub open spec fn plain_terms_view() -> TermsView {
    TermsView {
        co_creators: Seq::empty(),
        allow_early_withdrawal: false,
        bonus_pool: 0,
        bonus_max_payers: 0,
        prerequisite_id: None,
        tranches: Seq::empty(),
        co_signers: Seq::empty(),
        required_signatures: 0,
        penalty_bps: 0,
        penalty_deadline: 0,
        min_funding_bps: 0,
        release_stages: Seq::empty(),
        price_oracle: None,
        swap_tokens: Seq::empty(),
        oracle_address: None,
        tax_bps: 0,
        tax_authority: None,
        insurance_premium_bps: 0,
        smart_route: false,
        notification_contract: None,
        overflow_behavior: OverflowBehavior::Reject,
        convert_to_stream: false,
        accepted_tokens: Seq::empty(),
        forward_to: None,
        forward_invoice_id: None,
        creator_cosigner: None,
        velocity_limit: 0,
        velocity_window: 0,
        split_rules: Seq::empty(),
        auto_resolve_rules: Seq::empty(),
        cross_chain_ref: None,
        allowed_payers: None,
        min_funding_amount: 0,
        payment_cooldown_secs: None,
        max_payments_per_window: None,
        payment_window_secs: None,
        priorities: Seq::empty(),
    }
}

pub fn plain_terms() -> (r: InvoiceTerms)
    ensures
        r@ == plain_terms_view(),
{
    InvoiceTerms {
        co_creators: Vec::new(),
        allow_early_withdrawal: false,
        bonus_pool: 0,
        bonus_max_payers: 0,
        prerequisite_id: None,
        tranches: Vec::new(),
        co_signers: Vec::new(),
        required_signatures: 0,
        penalty_bps: 0,
        penalty_deadline: 0,
        min_funding_bps: 0,
        release_stages: Vec::new(),
        price_oracle: None,
        swap_tokens: Vec::new(),
        oracle_address: None,
        tax_bps: 0,
        tax_authority: None,
        insurance_premium_bps: 0,
        smart_route: false,
        notification_contract: None,
        overflow_behavior: OverflowBehavior::Reject,
        convert_to_stream: false,
        accepted_tokens: Vec::new(),
        forward_to: None,
        forward_invoice_id: None,
        creator_cosigner: None,
        velocity_limit: 0,
        velocity_window: 0,
        split_rules: Vec::new(),
        auto_resolve_rules: Vec::new(),
        cross_chain_ref: None,
        allowed_payers: None,
        min_funding_amount: 0,
        payment_cooldown_secs: None,
        max_payments_per_window: None,
        payment_window_secs: None,
        priorities: Vec::new(),
    }
}

/// The invoice that creation stores: one token entry and a zero claim per
/// recipient, nothing funded, status pending.
pub open spec fn new_invoice_view(creator: Address, recipients: Seq<Address>, amounts: Seq<i128>, token: Address, deadline: u64, t: TermsView) -> InvoiceView {
    InvoiceView {
        version: 1,
        creator: creator,
        co_creators: t.co_creators,
        recipients: recipients,
        amounts: amounts,
        tokens: Seq::new(recipients.len(), |i: int| token),
        deadline: deadline,
        funded: 0,
        status: InvoiceStatus::Pending,
        payments: Seq::empty(),
        drip_duration: None,
        release_timestamp: None,
        claimed: Seq::new(recipients.len(), |i: int| 0i128),
        frozen: false,
        completion_time: None,
        allow_early_withdrawal: t.allow_early_withdrawal,
        bonus_pool: t.bonus_pool,
        bonus_max_payers: t.bonus_max_payers,
        prerequisite_id: t.prerequisite_id,
        tranches: t.tranches,
        released_bps: 0,
        clone_depth: 0,
        co_signers: t.co_signers,
        required_signatures: t.required_signatures,
        signatures: Seq::empty(),
        approver: None,
        approved: false,
        oracle_address: t.oracle_address,
        condition_met: false,
        penalty_bps: t.penalty_bps,
        penalty_deadline: t.penalty_deadline,
        min_funding_bps: t.min_funding_bps,
        release_stages: t.release_stages,
        released_stages: 0,
        allowed_payers: t.allowed_payers,
        price_oracle: t.price_oracle,
        base_amounts: amounts,
        swap_tokens: t.swap_tokens,
        tax_bps: t.tax_bps,
        tax_authority: t.tax_authority,
        insurance_premium_bps: t.insurance_premium_bps,
        insurance_fund: 0,
        smart_route: t.smart_route,
        convert_to_stream: t.convert_to_stream,
        accepted_tokens: t.accepted_tokens,
        forward_to: t.forward_to,
        forward_invoice_id: t.forward_invoice_id,
        split_rules: t.split_rules,
        auto_resolve_rules: t.auto_resolve_rules,
        creator_cosigner: t.creator_cosigner,
        velocity_limit: t.velocity_limit,
        velocity_window: t.velocity_window,
        parent_invoice_id: None,
        pause_reason: None,
        auto_resume_at: None,
        payment_cooldown_secs: t.payment_cooldown_secs,
        max_payments_per_window: t.max_payments_per_window,
        payment_window_secs: t.payment_window_secs,
        admin_frozen: false,
        notification_contract: t.notification_contract,
        overflow_behavior: t.overflow_behavior,
        cross_chain_ref: t.cross_chain_ref,
        require_kyc: false,
        auction_on_expiry: false,
        auction_end: 0,
        bids: Seq::empty(),
        min_payment: 0,
        min_funding_amount: t.min_funding_amount,
        priorities: t.priorities,
    }
}

/// `n` copies of `x`.
pub fn repeat_address(x: Address, n: usize) -> (r: Vec<Address>)
    ensures
        r@ == Seq::new(n as nat, |i: int| x),
{
    let mut v: Vec<Address> = Vec::new();
    let mut i: usize = 0;
    while i < n
        invariant
            i <= n,
            v@ == Seq::new(i as nat, |j: int| x),
        decreases n - i,
    {
        v.push(x);
        i = i + 1;
        assert(v@ =~= Seq::new(i as nat, |j: int| x));
    }
    v
}

/// `n` zeros.
pub fn zeros(n: usize) -> (r: Vec<i128>)
    ensures
        r@ == Seq::new(n as nat, |i: int| 0i128),
{
    let mut v: Vec<i128> = Vec::new();
    let mut i: usize = 0;
    while i < n
        invariant
            i <= n,
            v@ == Seq::new(i as nat, |j: int| 0i128),
        decreases n - i,
    {
        v.push(0);
        i = i + 1;
        assert(v@ =~= Seq::new(i as nat, |j: int| 0i128));
    }
    v
}

/// The invoice that creation stores.
pub fn build_invoice(creator: Address, recipients: Vec<Address>, amounts: Vec<i128>, token: Address, deadline: u64, t: InvoiceTerms) -> (r: Invoice)
    ensures
        r@ == new_invoice_view(creator, recipients@, amounts@, token, deadline, t@),
{
    let n = recipients.len();
    let tokens = repeat_address(token, n);
    let claimed = zeros(n);
    let base_amounts = amounts.clone();
    Invoice {
        version: 1,
        creator: creator,
        co_creators: t.co_creators,
        recipients: recipients,
        amounts: amounts,
        tokens: tokens,
        deadline: deadline,
        funded: 0,
        status: InvoiceStatus::Pending,
        payments: Vec::new(),
        drip_duration: None,
        release_timestamp: None,
        claimed: claimed,
        frozen: false,
        completion_time: None,
        allow_early_withdrawal: t.allow_early_withdrawal,
        bonus_pool: t.bonus_pool,
        bonus_max_payers: t.bonus_max_payers,
        prerequisite_id: t.prerequisite_id,
        tranches: t.tranches,
        released_bps: 0,
        clone_depth: 0,
        co_signers: t.co_signers,
        required_signatures: t.required_signatures,
        signatures: Vec::new(),
        approver: None,
        approved: false,
        oracle_address: t.oracle_address,
        condition_met: false,
        penalty_bps: t.penalty_bps,
        penalty_deadline: t.penalty_deadline,
        min_funding_bps: t.min_funding_bps,
        release_stages: t.release_stages,
        released_stages: 0,
        allowed_payers: t.allowed_payers,
        price_oracle: t.price_oracle,
        base_amounts: base_amounts,
        swap_tokens: t.swap_tokens,
        tax_bps: t.tax_bps,
        tax_authority: t.tax_authority,
        insurance_premium_bps: t.insurance_premium_bps,
        insurance_fund: 0,
        smart_route: t.smart_route,
        convert_to_stream: t.convert_to_stream,
        accepted_tokens: t.accepted_tokens,
        forward_to: t.forward_to,
        forward_invoice_id: t.forward_invoice_id,
        split_rules: t.split_rules,
        auto_resolve_rules: t.auto_resolve_rules,
        creator_cosigner: t.creator_cosigner,
        velocity_limit: t.velocity_limit,
        velocity_window: t.velocity_window,
        parent_invoice_id: None,
        pause_reason: None,
        auto_resume_at: None,
        payment_cooldown_secs: t.payment_cooldown_secs,
        max_payments_per_window: t.max_payments_per_window,
        payment_window_secs: t.payment_window_secs,
        admin_frozen: false,
        notification_contract: t.notification_contract,
        overflow_behavior: t.overflow_behavior,
        cross_chain_ref: t.cross_chain_ref,
        require_kyc: false,
        auction_on_expiry: false,
        auction_end: 0,
        bids: Vec::new(),
        min_payment: 0,
        min_funding_amount: t.min_funding_amount,
        priorities: t.priorities,
    }
}

/// Optional settings of `create_invoice`.
pub struct InvoiceOptions {
    pub co_creators: Vec<Address>,
    pub allow_early_withdrawal: bool,
    pub bonus_pool: i128,
    pub bonus_max_payers: u32,
    pub prerequisite_id: Option<u64>,
    pub tranches: Vec<Tranche>,
    pub co_signers: Vec<Address>,
    pub required_signatures: u32,
    pub penalty_bps: Option<u32>,
    pub penalty_deadline: Option<u64>,
    pub min_funding_bps: Option<u32>,
    pub release_stages: Vec<u32>,
    pub price_oracle: Option<Address>,
    pub swap_tokens: Vec<Option<Address>>,
    pub oracle_address: Option<Address>,
    pub tax_bps: Option<u32>,
    pub tax_authority: Option<Address>,
    pub insurance_premium_bps: Option<u32>,
    pub smart_route: Option<bool>,
    pub notification_contract: Option<Address>,
    pub overflow_behavior: OverflowBehavior,
    pub convert_to_stream: bool,
    pub accepted_tokens: Vec<Address>,
    pub forward_to: Option<Address>,
    pub forward_invoice_id: Option<u64>,
    pub creator_cosigner: Option<Address>,
    pub velocity_limit: i128,
    pub velocity_window: u64,
    pub split_rules: Vec<SplitRule>,
    pub auto_resolve_rules: Vec<ResolveRule>,
    pub cross_chain_ref: Option<String>,
    pub allowed_payers: Option<Vec<Address>>,
    pub min_funding_amount: Option<i128>,
    pub payment_cooldown_secs: Option<u64>,
    pub max_payments_per_window: Option<u32>,
    pub payment_window_secs: Option<u64>,
    pub priorities: Vec<u32>,
}

impl InvoiceOptions {
    /// The terms these options give: unset numbers are zero, unset flags false.
    pub open spec fn spec_terms(&self) -> TermsView {
        TermsView {
            co_creators: self.co_creators@,
            allow_early_withdrawal: self.allow_early_withdrawal,
            bonus_pool: self.bonus_pool,
            bonus_max_payers: self.bonus_max_payers,
            prerequisite_id: self.prerequisite_id,
            tranches: self.tranches@,
            co_signers: self.co_signers@,
            required_signatures: self.required_signatures,
            penalty_bps: match self.penalty_bps { Some(x) => x, None => 0 },
            penalty_deadline: match self.penalty_deadline { Some(x) => x, None => 0 },
            min_funding_bps: match self.min_funding_bps { Some(x) => x, None => 0 },
            release_stages: self.release_stages@,
            price_oracle: self.price_oracle,
            swap_tokens: self.swap_tokens@,
            oracle_address: self.oracle_address,
            tax_bps: match self.tax_bps { Some(x) => x, None => 0 },
            tax_authority: self.tax_authority,
            insurance_premium_bps: match self.insurance_premium_bps { Some(x) => x, None => 0 },
            smart_route: match self.smart_route { Some(x) => x, None => false },
            notification_contract: self.notification_contract,
            overflow_behavior: self.overflow_behavior,
            convert_to_stream: self.convert_to_stream,
            accepted_tokens: self.accepted_tokens@,
            forward_to: self.forward_to,
            forward_invoice_id: self.forward_invoice_id,
            creator_cosigner: self.creator_cosigner,
            velocity_limit: self.velocity_limit,
            velocity_window: self.velocity_window,
            split_rules: self.split_rules@,
            auto_resolve_rules: self.auto_resolve_rules@,
            cross_chain_ref: match &self.cross_chain_ref { Some(x) => Some(x@), None => None },
            allowed_payers: match &self.allowed_payers { Some(x) => Some(x@), None => None },
            min_funding_amount: match self.min_funding_amount { Some(x) => x, None => 0 },
            payment_cooldown_secs: self.payment_cooldown_secs,
            max_payments_per_window: self.max_payments_per_window,
            payment_window_secs: self.payment_window_secs,
            priorities: self.priorities@,
        }
    }

    pub fn into_terms(self) -> (r: InvoiceTerms)
        ensures
            r@ == self.spec_terms(),
    {
        InvoiceTerms {
            co_creators: self.co_creators,
            allow_early_withdrawal: self.allow_early_withdrawal,
            bonus_pool: self.bonus_pool,
            bonus_max_payers: self.bonus_max_payers,
            prerequisite_id: self.prerequisite_id,
            tranches: self.tranches,
            co_signers: self.co_signers,
            required_signatures: self.required_signatures,
            penalty_bps: match self.penalty_bps { Some(x) => x, None => 0 },
            penalty_deadline: match self.penalty_deadline { Some(x) => x, None => 0 },
            min_funding_bps: match self.min_funding_bps { Some(x) => x, None => 0 },
            release_stages: self.release_stages,
            price_oracle: self.price_oracle,
            swap_tokens: self.swap_tokens,
            oracle_address: self.oracle_address,
            tax_bps: match self.tax_bps { Some(x) => x, None => 0 },
            tax_authority: self.tax_authority,
            insurance_premium_bps: match self.insurance_premium_bps { Some(x) => x, None => 0 },
            smart_route: match self.smart_route { Some(x) => x, None => false },
            notification_contract: self.notification_contract,
            overflow_behavior: self.overflow_behavior,
            convert_to_stream: self.convert_to_stream,
            accepted_tokens: self.accepted_tokens,
            forward_to: self.forward_to,
            forward_invoice_id: self.forward_invoice_id,
            creator_cosigner: self.creator_cosigner,
            velocity_limit: self.velocity_limit,
            velocity_window: self.velocity_window,
            split_rules: self.split_rules,
            auto_resolve_rules: self.auto_resolve_rules,
            cross_chain_ref: self.cross_chain_ref,
            allowed_payers: self.allowed_payers,
            min_funding_amount: match self.min_funding_amount { Some(x) => x, None => 0 },
            payment_cooldown_secs: self.payment_cooldown_secs,
            max_payments_per_window: self.max_payments_per_window,
            payment_window_secs: self.payment_window_secs,
            priorities: self.priorities,
        }
    }
}

} // verus!
