//! State of the split contract and its mathematical view.

use vstd::prelude::*;
use std::collections::HashMap;
use crate::types::{Address, AuditEntry, InvoiceTemplate, QueuedAction, SubscriptionParams, TreasuryRecord};
use crate::invoice::{Invoice, InvoiceView, copy_vec};

verus! {

broadcast use vstd::std_specs::hash::group_hash_axioms;

/// Payment channel of one payer on one invoice.
#[derive(Clone, Copy, Debug, PartialEq, Eq, Structural)]
pub struct Channel {
    pub balance: i128,
    pub deposited: i128,
}

/// What the contract keeps about one payer on one invoice.
#[derive(Clone, Copy, Debug, PartialEq, Eq, Structural)]
pub struct PayerState {
    /// Nonce the next payment must carry.
    pub nonce: u64,
    /// Start and running total of the velocity window.
    pub velocity_start: u64,
    pub velocity_total: i128,
    /// Time of the last payment, for the cooldown.
    pub last_payment_at: Option<u64>,
    /// Micro-payments accumulated below the invoice's minimum payment.
    pub accumulated: i128,
    pub channel: Option<Channel>,
    pub reminder_at: Option<u64>,
    pub receipt_token: Option<Address>,
}

pub open spec fn default_payer_state() -> PayerState {
    PayerState {
        nonce: 0,
        velocity_start: 0,
        velocity_total: 0,
        last_payment_at: None,
        accumulated: 0,
        channel: None,
        reminder_at: None,
        receipt_token: None,
    }
}

pub fn new_payer_state() -> (r: PayerState)
    ensures
        r == default_payer_state(),
{
    PayerState {
        nonce: 0,
        velocity_start: 0,
        velocity_total: 0,
        last_payment_at: None,
        accumulated: 0,
        channel: None,
        reminder_at: None,
        receipt_token: None,
    }
}

/// Counters the contract keeps per address.
#[derive(Clone, Copy, Debug, PartialEq, Eq, Structural)]
pub struct AccountStats {
    /// Number of successful payments.
    pub reputation: u64,
    /// +1 per payment, -2 per early withdrawal (floor 0).
    pub credit_score: u64,
    pub referral_count: u64,
    /// Invoices created and cancelled, for the cancellation rate.
    pub invoices_created: u64,
    pub invoices_cancelled: u64,
    /// Creation rate limit window: start and invoices created in it.
    pub rate_window_start: u64,
    pub rate_window_used: u32,
    /// Creator analytics.
    pub creator_count: u64,
    pub creator_volume: i128,
    pub creator_released: u64,
    pub creator_refunded: u64,
}

pub open spec fn default_account() -> AccountStats {
    AccountStats {
        reputation: 0,
        credit_score: 0,
        referral_count: 0,
        invoices_created: 0,
        invoices_cancelled: 0,
        rate_window_start: 0,
        rate_window_used: 0,
        creator_count: 0,
        creator_volume: 0,
        creator_released: 0,
        creator_refunded: 0,
    }
}

pub fn new_account() -> (r: AccountStats)
    ensures
        r == default_account(),
{
    AccountStats {
        reputation: 0,
        credit_score: 0,
        referral_count: 0,
        invoices_created: 0,
        invoices_cancelled: 0,
        rate_window_start: 0,
        rate_window_used: 0,
        creator_count: 0,
        creator_volume: 0,
        creator_released: 0,
        creator_refunded: 0,
    }
}

/// Contract-wide analytics counters.
#[derive(Clone, Copy, Debug, PartialEq, Eq, Structural)]
pub struct Stats {
    pub total_invoices: u64,
    pub total_volume: i128,
    pub total_released: i128,
    pub total_refunded: i128,
}

/// A stored invoice; archived invoices live in cheaper storage.
#[derive(Clone)]
pub struct InvoiceEntry {
    pub invoice: Invoice,
    pub archived: bool,
}

/// A saved template, keyed by its creator and name.
pub struct TemplateEntry {
    pub creator: Address,
    pub name: String,
    pub template: InvoiceTemplate,
}

/// All state of the split contract.
pub struct SplitContract {
    /// The contract's own address (source and target of escrow transfers).
    pub contract_address: Address,
    pub admin: Option<Address>,
    pub creation_fee: i128,
    pub treasury: Option<Address>,
    pub usdc_token: Option<Address>,
    pub platform_fee_bps: u32,
    pub governance_contract: Option<Address>,
    pub paused: bool,
    pub max_cancel_bps: u32,
    pub rate_limit: u32,
    pub rate_window: u64,
    pub stream_contract: Option<Address>,
    pub dex_contract: Option<Address>,
    pub receipt_factory: Option<Address>,
    pub nft_gate: Option<Address>,
    pub timelock_secs: u64,
    pub kyc_contract: Option<Address>,
    pub creator_whitelist: Vec<Address>,
    pub invoice_counter: u64,
    pub invoices: HashMap<u64, InvoiceEntry>,
    pub audit_logs: HashMap<u64, Vec<AuditEntry>>,
    /// Keyed by `payer_key(invoice_id, payer)`.
    pub payer_states: HashMap<u128, PayerState>,
    pub accounts: HashMap<u64, AccountStats>,
    pub recipient_invoice_ids: HashMap<u64, Vec<u64>>,
    pub pay_delegates: HashMap<u64, Vec<Address>>,
    pub delegates: HashMap<u64, Address>,
    pub subscriptions: HashMap<u64, SubscriptionParams>,
    pub extension_votes: HashMap<u64, Vec<Address>>,
    pub group_counter: u64,
    pub groups: HashMap<u64, Vec<u64>>,
    pub invoice_groups: HashMap<u64, u64>,
    pub treasury_group_counter: u64,
    pub treasury_groups: HashMap<u64, TreasuryRecord>,
    pub invoice_treasury_groups: HashMap<u64, u64>,
    pub payment_windows: HashMap<u64, Vec<u64>>,
    pub templates: Vec<TemplateEntry>,
    pub action_counter: u64,
    pub timelock_actions: HashMap<u64, QueuedAction>,
    pub stats: Stats,
}

/// Key of the state of `payer` on invoice `invoice_id`.
pub open spec fn payer_key(invoice_id: u64, payer: Address) -> u128 {
    (invoice_id as int * 0x1_0000_0000_0000_0000 + payer.0 as int) as u128
}

pub fn make_payer_key(invoice_id: u64, payer: Address) -> (r: u128)
    ensures
        r == payer_key(invoice_id, payer),
{
    (invoice_id as u128) * 0x1_0000_0000_0000_0000u128 + (payer.0 as u128)
}

/// A subscription as mathematical values.
pub struct SubscriptionView {
    pub creator: Address,
    pub recipients: Seq<Address>,
    pub amounts: Seq<i128>,
    pub tokens: Seq<Address>,
}

impl View for SubscriptionParams {
    type V = SubscriptionView;

    open spec fn view(&self) -> SubscriptionView {
        SubscriptionView {
            creator: self.creator,
            recipients: self.recipients@,
            amounts: self.amounts@,
            tokens: self.tokens@,
        }
    }
}

/// A stored invoice as mathematical values.
pub struct EntryView {
    pub invoice: InvoiceView,
    pub archived: bool,
}

impl View for InvoiceEntry {
    type V = EntryView;

    open spec fn view(&self) -> EntryView {
        EntryView { invoice: self.invoice@, archived: self.archived }
    }
}

/// A treasury group as mathematical values.
pub struct TreasuryView {
    pub invoice_ids: Seq<u64>,
    pub treasury: Address,
}

impl View for TreasuryRecord {
    type V = TreasuryView;

    open spec fn view(&self) -> TreasuryView {
        TreasuryView { invoice_ids: self.invoice_ids@, treasury: self.treasury }
    }
}

/// A template as mathematical values.
pub struct TemplateView {
    pub creator: Address,
    pub name: Seq<char>,
    pub recipients: Seq<Address>,
    pub amounts: Seq<i128>,
    pub token: Address,
}

impl View for TemplateEntry {
    type V = TemplateView;

    open spec fn view(&self) -> TemplateView {
        TemplateView {
            creator: self.creator,
            name: self.name@,
            recipients: self.template.recipients@,
            amounts: self.template.amounts@,
            token: self.template.token,
        }
    }
}

/// The whole contract state as mathematical values.
#[verifier::ext_equal]
pub struct SplitView {
    pub contract_address: Address,
    pub admin: Option<Address>,
    pub creation_fee: i128,
    pub treasury: Option<Address>,
    pub usdc_token: Option<Address>,
    pub platform_fee_bps: u32,
    pub governance_contract: Option<Address>,
    pub paused: bool,
    pub max_cancel_bps: u32,
    pub rate_limit: u32,
    pub rate_window: u64,
    pub stream_contract: Option<Address>,
    pub dex_contract: Option<Address>,
    pub receipt_factory: Option<Address>,
    pub nft_gate: Option<Address>,
    pub timelock_secs: u64,
    pub kyc_contract: Option<Address>,
    pub creator_whitelist: Seq<Address>,
    pub invoice_counter: u64,
    pub invoices: Map<u64, EntryView>,
    pub audit_logs: Map<u64, Seq<AuditEntry>>,
    pub payer_states: Map<u128, PayerState>,
    pub accounts: Map<u64, AccountStats>,
    pub recipient_invoice_ids: Map<u64, Seq<u64>>,
    pub pay_delegates: Map<u64, Seq<Address>>,
    pub delegates: Map<u64, Address>,
    pub subscriptions: Map<u64, SubscriptionView>,
    pub extension_votes: Map<u64, Seq<Address>>,
    pub group_counter: u64,
    pub groups: Map<u64, Seq<u64>>,
    pub invoice_groups: Map<u64, u64>,
    pub treasury_group_counter: u64,
    pub treasury_groups: Map<u64, TreasuryView>,
    pub invoice_treasury_groups: Map<u64, u64>,
    pub payment_windows: Map<u64, Seq<u64>>,
    pub templates: Seq<TemplateView>,
    pub action_counter: u64,
    pub timelock_actions: Map<u64, QueuedAction>,
    pub stats: Stats,
}

impl View for SplitContract {
    type V = SplitView;

    open spec fn view(&self) -> SplitView {
        SplitView {
            contract_address: self.contract_address,
            admin: self.admin,
            creation_fee: self.creation_fee,
            treasury: self.treasury,
            usdc_token: self.usdc_token,
            platform_fee_bps: self.platform_fee_bps,
            governance_contract: self.governance_contract,
            paused: self.paused,
            max_cancel_bps: self.max_cancel_bps,
            rate_limit: self.rate_limit,
            rate_window: self.rate_window,
            stream_contract: self.stream_contract,
            dex_contract: self.dex_contract,
            receipt_factory: self.receipt_factory,
            nft_gate: self.nft_gate,
            timelock_secs: self.timelock_secs,
            kyc_contract: self.kyc_contract,
            creator_whitelist: self.creator_whitelist@,
            invoice_counter: self.invoice_counter,
            invoices: self.invoices@.map_values(|e: InvoiceEntry| e@),
            audit_logs: self.audit_logs@.map_values(|v: Vec<AuditEntry>| v@),
            payer_states: self.payer_states@,
            accounts: self.accounts@,
            recipient_invoice_ids: self.recipient_invoice_ids@.map_values(|v: Vec<u64>| v@),
            pay_delegates: self.pay_delegates@.map_values(|v: Vec<Address>| v@),
            delegates: self.delegates@,
            subscriptions: self.subscriptions@.map_values(|s: SubscriptionParams| s@),
            extension_votes: self.extension_votes@.map_values(|v: Vec<Address>| v@),
            group_counter: self.group_counter,
            groups: self.groups@.map_values(|v: Vec<u64>| v@),
            invoice_groups: self.invoice_groups@,
            treasury_group_counter: self.treasury_group_counter,
            treasury_groups: self.treasury_groups@.map_values(|t: TreasuryRecord| t@),
            invoice_treasury_groups: self.invoice_treasury_groups@,
            payment_windows: self.payment_windows@.map_values(|v: Vec<u64>| v@),
            templates: self.templates@.map_values(|t: TemplateEntry| t@),
            action_counter: self.action_counter,
            timelock_actions: self.timelock_actions@,
            stats: self.stats,
        }
    }
}

impl SplitView {
    /// State of `payer` on invoice `id`; the default before any activity.
    pub open spec fn payer(self, id: u64, payer: Address) -> PayerState {
        let k = payer_key(id, payer);
        if self.payer_states.contains_key(k) {
            self.payer_states[k]
        } else {
            default_payer_state()
        }
    }

    /// Counters of `a`; all zero before any activity.
    pub open spec fn account(self, a: Address) -> AccountStats {
        if self.accounts.contains_key(a.0) {
            self.accounts[a.0]
        } else {
            default_account()
        }
    }

    /// Audit log of `id`; empty before any entry.
    pub open spec fn log(self, id: u64) -> Seq<AuditEntry> {
        if self.audit_logs.contains_key(id) {
            self.audit_logs[id]
        } else {
            Seq::empty()
        }
    }

    /// The stored invoice `id` (meaningful where `invoices` holds `id`).
    pub open spec fn inv(self, id: u64) -> InvoiceView {
        self.invoices[id].invoice
    }
}

pub proof fn lemma_map_values_insert<K, V, W>(m: Map<K, V>, k: K, v: V, f: spec_fn(V) -> W)
    ensures
        m.insert(k, v).map_values(f) =~= m.map_values(f).insert(k, f(v)),
{
}

pub proof fn lemma_map_values_remove<K, V, W>(m: Map<K, V>, k: K, f: spec_fn(V) -> W)
    ensures
        m.remove(k).map_values(f) =~= m.map_values(f).remove(k),
{
}


impl TemplateEntry {
    /// A copy of this template entry.
    pub fn copy(&self) -> (r: TemplateEntry)
        ensures
            r@ == self@,
    {
        TemplateEntry {
            creator: self.creator,
            name: self.name.clone(),
            template: InvoiceTemplate {
                recipients: copy_vec(&self.template.recipients),
                amounts: copy_vec(&self.template.amounts),
                token: self.template.token,
                deadline: self.template.deadline,
                funded: self.template.funded,
                status: self.template.status,
                payments: copy_vec(&self.template.payments),
                allowed_payers: match &self.template.allowed_payers {
                    Some(v) => Some(copy_vec(v)),
                    None => None,
                },
            },
        }
    }
}

impl SplitContract {
    /// A copy of the whole state, to roll a failed call back to.
    pub fn snapshot(&self) -> (r: SplitContract)
        ensures
            r@ == self@,
    {
        let mut templates: Vec<TemplateEntry> = Vec::new();
        let mut i: usize = 0;
        while i < self.templates.len()
            invariant
                i <= self.templates.len(),
                templates@.len() == i,
                forall|j: int| 0 <= j < i ==> (#[trigger] templates@[j])@ == self.templates@[j]@,
            decreases self.templates.len() - i,
        {
            templates.push(self.templates[i].copy());
            i = i + 1;
        }
        assert(templates@.map_values(|t: TemplateEntry| t@) =~= self.templates@.map_values(|t: TemplateEntry| t@));
        SplitContract {
            contract_address: self.contract_address,
            admin: self.admin,
            creation_fee: self.creation_fee,
            treasury: self.treasury,
            usdc_token: self.usdc_token,
            platform_fee_bps: self.platform_fee_bps,
            governance_contract: self.governance_contract,
            paused: self.paused,
            max_cancel_bps: self.max_cancel_bps,
            rate_limit: self.rate_limit,
            rate_window: self.rate_window,
            stream_contract: self.stream_contract,
            dex_contract: self.dex_contract,
            receipt_factory: self.receipt_factory,
            nft_gate: self.nft_gate,
            timelock_secs: self.timelock_secs,
            kyc_contract: self.kyc_contract,
            creator_whitelist: copy_vec(&self.creator_whitelist),
            invoice_counter: self.invoice_counter,
            invoices: self.invoices.clone(),
            audit_logs: self.audit_logs.clone(),
            payer_states: self.payer_states.clone(),
            accounts: self.accounts.clone(),
            recipient_invoice_ids: self.recipient_invoice_ids.clone(),
            pay_delegates: self.pay_delegates.clone(),
            delegates: self.delegates.clone(),
            subscriptions: self.subscriptions.clone(),
            extension_votes: self.extension_votes.clone(),
            group_counter: self.group_counter,
            groups: self.groups.clone(),
            invoice_groups: self.invoice_groups.clone(),
            treasury_group_counter: self.treasury_group_counter,
            treasury_groups: self.treasury_groups.clone(),
            invoice_treasury_groups: self.invoice_treasury_groups.clone(),
            payment_windows: self.payment_windows.clone(),
            templates,
            action_counter: self.action_counter,
            timelock_actions: self.timelock_actions.clone(),
            stats: self.stats,
        }
    }
}

} // verus!
