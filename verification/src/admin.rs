//! Construction, configuration, the creator whitelist, timelocked admin
//! actions and schema migration.

use vstd::prelude::*;
use std::collections::HashMap;
use crate::types::{Address, AuditAction, AuditEntry, QueuedAction, TimelockAction};

use crate::effects::{Action, Event, SplitError};
use crate::release::exact_outcome;
use crate::invoice::Invoice;
use crate::state::{EntryView, InvoiceEntry, SplitContract, SplitView, Stats, make_payer_key, lemma_map_values_insert, lemma_map_values_remove};

verus! {

broadcast use vstd::std_specs::hash::group_hash_axioms;

/// The state of a freshly deployed contract at `contract_address`.
pub open spec fn fresh_view(contract_address: Address) -> SplitView {
    SplitView {
        contract_address,
        admin: None,
        creation_fee: 0,
        treasury: None,
        usdc_token: None,
        platform_fee_bps: 0,
        governance_contract: None,
        paused: false,
        max_cancel_bps: 0,
        rate_limit: 0,
        rate_window: 0,
        stream_contract: None,
        dex_contract: None,
        receipt_factory: None,
        nft_gate: None,
        timelock_secs: 0,
        kyc_contract: None,
        creator_whitelist: Seq::empty(),
        invoice_counter: 0,
        invoices: Map::empty(),
        audit_logs: Map::empty(),
        payer_states: Map::empty(),
        accounts: Map::empty(),
        recipient_invoice_ids: Map::empty(),
        pay_delegates: Map::empty(),
        delegates: Map::empty(),
        subscriptions: Map::empty(),
        extension_votes: Map::empty(),
        group_counter: 0,
        groups: Map::empty(),
        invoice_groups: Map::empty(),
        treasury_group_counter: 0,
        treasury_groups: Map::empty(),
        invoice_treasury_groups: Map::empty(),
        payment_windows: Map::empty(),
        templates: Seq::empty(),
        action_counter: 0,
        timelock_actions: Map::empty(),
        stats: Stats { total_invoices: 0, total_volume: 0, total_released: 0, total_refunded: 0 },
    }
}

/// Authorization of `who` required.
pub open spec fn auth(who: Address) -> Action {
    Action::RequireAuth { who }
}

/// The first reason an admin call is rejected: no admin stored.
pub open spec fn admin_error(s: SplitView) -> Option<SplitError> {
    if s.admin is None {
        Some(SplitError::AdminNotSet)
    } else {
        None
    }
}

impl SplitContract {
    /// A freshly deployed contract at `contract_address`.
    pub fn new(contract_address: Address) -> (r: SplitContract)
        ensures
            r@ == fresh_view(contract_address),
    {
        let r = SplitContract {
            contract_address,
            admin: None,
            creation_fee: 0,
            treasury: None,
            usdc_token: None,
            platform_fee_bps: 0,
            governance_contract: None,
            paused: false,
            max_cancel_bps: 0,
            rate_limit: 0,
            rate_window: 0,
            stream_contract: None,
            dex_contract: None,
            receipt_factory: None,
            nft_gate: None,
            timelock_secs: 0,
            kyc_contract: None,
            creator_whitelist: Vec::new(),
            invoice_counter: 0,
            invoices: HashMap::new(),
            audit_logs: HashMap::new(),
            payer_states: HashMap::new(),
            accounts: HashMap::new(),
            recipient_invoice_ids: HashMap::new(),
            pay_delegates: HashMap::new(),
            delegates: HashMap::new(),
            subscriptions: HashMap::new(),
            extension_votes: HashMap::new(),
            group_counter: 0,
            groups: HashMap::new(),
            invoice_groups: HashMap::new(),
            treasury_group_counter: 0,
            treasury_groups: HashMap::new(),
            invoice_treasury_groups: HashMap::new(),
            payment_windows: HashMap::new(),
            templates: Vec::new(),
            action_counter: 0,
            timelock_actions: HashMap::new(),
            stats: Stats { total_invoices: 0, total_volume: 0, total_released: 0, total_refunded: 0 },
        };
        assert(r@.invoices =~= Map::empty());
        assert(r@.audit_logs =~= Map::empty());
        assert(r@.recipient_invoice_ids =~= Map::empty());
        assert(r@.pay_delegates =~= Map::empty());
        assert(r@.subscriptions =~= Map::empty());
        assert(r@.extension_votes =~= Map::empty());
        assert(r@.groups =~= Map::empty());
        assert(r@.treasury_groups =~= Map::empty());
        assert(r@.payment_windows =~= Map::empty());
        assert(r@.templates =~= Seq::empty());
        r
    }

    /// Append an entry to the audit log of `id`.
    pub(crate) fn append_audit(&mut self, id: u64, action: AuditAction, actor: Address, now: u64)
        ensures
            final(self)@ == (SplitView {
                audit_logs: old(self)@.audit_logs.insert(
                    id,
                    old(self)@.log(id).push(AuditEntry { action, actor, timestamp: now }),
                ),
                ..old(self)@
            }),
    {
        let ghost f = |v: Vec<AuditEntry>| v@;
        let ghost m0 = self.audit_logs@;
        let mut log = match self.audit_logs.remove(&id) {
            Some(l) => l,
            None => Vec::new(),
        };
        let ghost m1 = self.audit_logs@;
        log.push(AuditEntry { action, actor, timestamp: now });
        self.audit_logs.insert(id, log);
        proof {
            lemma_map_values_insert(m1, id, log, f);
            lemma_map_values_remove(m0, id, f);
            assert(m1.insert(id, log).map_values(f) =~= m0.map_values(f).insert(id, log@));
        }
    }

    /// Store `invoice` under `id`, replacing what was there.
    pub(crate) fn put_invoice(&mut self, id: u64, invoice: Invoice, archived: bool)
        ensures
            final(self)@ == (SplitView {
                invoices: old(self)@.invoices.insert(id, EntryView { invoice: invoice@, archived }),
                ..old(self)@
            }),
    {
        let ghost f = |e: InvoiceEntry| e@;
        let ghost m0 = self.invoices@;
        let ghost iv = invoice@;
        let entry = InvoiceEntry { invoice, archived };
        let ghost ge = entry;
        self.invoices.insert(id, entry);
        proof {
            lemma_map_values_insert(m0, id, ge, f);
            assert(self@.invoices =~= old(self)@.invoices.insert(id, EntryView { invoice: iv, archived }));
        }
    }

    /// The stored admin, whose authorization the call needs.
    pub(crate) fn require_admin(&self) -> (r: Result<Address, SplitError>)
        ensures
            match r {
                Ok(a) => self@.admin == Some(a),
                Err(e) => self@.admin is None && e == SplitError::AdminNotSet,
            },
    {
        match self.admin {
            Some(a) => Ok(a),
            None => Err(SplitError::AdminNotSet),
        }
    }

    /// Set the admin, creation fee, treasury, USDC token, platform fee,
    /// governance contract, maximum cancellation rate and creation rate limit.
    /// Can only be called once.
    pub fn initialize(
        &mut self,
        admin: Address,
        creation_fee: i128,
        treasury: Address,
        usdc_token: Address,
        platform_fee_bps: u32,
        governance_contract: Option<Address>,
        max_cancel_bps: u32,
        rate_limit: u32,
        rate_window: u64,
    ) -> (r: Result<Vec<Action>, SplitError>)
        ensures
            ({
                let s = old(self)@;
                let err = if s.admin is Some {
                    Some(SplitError::AlreadyInitialized)
                } else if creation_fee < 0 {
                    Some(SplitError::CreationFeeMustBeNonNegative)
                } else if platform_fee_bps > 10_000 {
                    Some(SplitError::PlatformFeeBpsMustBeLe10000)
                } else if max_cancel_bps > 10_000 {
                    Some(SplitError::MaxCancelBpsMustBeLe10000)
                } else if !(rate_window > 0 || rate_limit == 0) {
                    Some(SplitError::RateWindowMustBePositiveWhenRateLimitIsEnabled)
                } else {
                    None
                };
                match r {
                    Err(e) => err == Some(e) && final(self)@ == s,
                    Ok(acts) => err is None && acts@ == Seq::<Action>::empty() && final(self)@ == (
                    SplitView {
                        admin: Some(admin),
                        creation_fee,
                        treasury: Some(treasury),
                        usdc_token: Some(usdc_token),
                        platform_fee_bps,
                        governance_contract,
                        paused: false,
                        max_cancel_bps,
                        rate_limit,
                        rate_window,
                        ..s
                    }),
                }
            }),
    {
        if self.admin.is_some() {
            return Err(SplitError::AlreadyInitialized);
        }
        if creation_fee < 0 {
            return Err(SplitError::CreationFeeMustBeNonNegative);
        }
        if platform_fee_bps > 10_000 {
            return Err(SplitError::PlatformFeeBpsMustBeLe10000);
        }
        if max_cancel_bps > 10_000 {
            return Err(SplitError::MaxCancelBpsMustBeLe10000);
        }
        if !(rate_window > 0 || rate_limit == 0) {
            return Err(SplitError::RateWindowMustBePositiveWhenRateLimitIsEnabled);
        }
        self.admin = Some(admin);
        self.creation_fee = creation_fee;
        self.treasury = Some(treasury);
        self.usdc_token = Some(usdc_token);
        self.platform_fee_bps = platform_fee_bps;
        self.governance_contract = governance_contract;
        self.paused = false;
        self.max_cancel_bps = max_cancel_bps;
        self.rate_limit = rate_limit;
        self.rate_window = rate_window;
        Ok(Vec::new())
    }

    /// Pause the contract. Requires admin auth.
    pub fn pause(&mut self, admin: Address) -> (r: Result<Vec<Action>, SplitError>)
        ensures
            match r {
                Err(e) => admin_error(old(self)@) == Some(e) && final(self)@ == old(self)@,
                Ok(acts) => admin_error(old(self)@) is None && acts@ == seq![
                    auth(old(self)@.admin->0),
                ] && final(self)@ == (SplitView { paused: true, ..old(self)@ }),
            },
    {
        let a = self.require_admin()?;
        let _ = admin;
        self.paused = true;
        Ok(vec![Action::RequireAuth { who: a }])
    }

    /// Unpause the contract. Requires admin auth.
    pub fn unpause(&mut self, admin: Address) -> (r: Result<Vec<Action>, SplitError>)
        ensures
            match r {
                Err(e) => admin_error(old(self)@) == Some(e) && final(self)@ == old(self)@,
                Ok(acts) => admin_error(old(self)@) is None && acts@ == seq![
                    auth(old(self)@.admin->0),
                ] && final(self)@ == (SplitView { paused: false, ..old(self)@ }),
            },
    {
        let a = self.require_admin()?;
        let _ = admin;
        self.paused = false;
        Ok(vec![Action::RequireAuth { who: a }])
    }

    /// Update the creation fee. Requires admin auth.
    pub fn set_creation_fee(&mut self, admin: Address, creation_fee: i128) -> (r: Result<
        Vec<Action>,
        SplitError,
    >)
        ensures
            ({
                let err = if old(self)@.admin is None {
                    Some(SplitError::AdminNotSet)
                } else if creation_fee < 0 {
                    Some(SplitError::CreationFeeMustBeNonNegative)
                } else {
                    None
                };
                match r {
                    Err(e) => err == Some(e) && final(self)@ == old(self)@,
                    Ok(acts) => err is None && acts@ == seq![auth(old(self)@.admin->0)]
                        && final(self)@ == (SplitView { creation_fee, ..old(self)@ }),
                }
            }),
    {
        let a = self.require_admin()?;
        let _ = admin;
        if creation_fee < 0 {
            return Err(SplitError::CreationFeeMustBeNonNegative);
        }
        self.creation_fee = creation_fee;
        Ok(vec![Action::RequireAuth { who: a }])
    }

    /// Update the treasury address. Requires admin auth.
    pub fn set_treasury(&mut self, admin: Address, treasury: Address) -> (r: Result<
        Vec<Action>,
        SplitError,
    >)
        ensures
            match r {
                Err(e) => admin_error(old(self)@) == Some(e) && final(self)@ == old(self)@,
                Ok(acts) => admin_error(old(self)@) is None && acts@ == seq![
                    auth(old(self)@.admin->0),
                ] && final(self)@ == (SplitView { treasury: Some(treasury), ..old(self)@ }),
            },
    {
        let a = self.require_admin()?;
        let _ = admin;
        self.treasury = Some(treasury);
        Ok(vec![Action::RequireAuth { who: a }])
    }

    /// Store the address of the payment streaming contract. Requires admin auth.
    pub fn set_stream_contract(&mut self, admin: Address, contract: Address) -> (r: Result<
        Vec<Action>,
        SplitError,
    >)
        ensures
            match r {
                Err(e) => admin_error(old(self)@) == Some(e) && final(self)@ == old(self)@,
                Ok(acts) => admin_error(old(self)@) is None && acts@ == seq![
                    auth(old(self)@.admin->0),
                ] && final(self)@ == (SplitView { stream_contract: Some(contract), ..old(self)@ }),
            },
    {
        let a = self.require_admin()?;
        let _ = admin;
        self.stream_contract = Some(contract);
        Ok(vec![Action::RequireAuth { who: a }])
    }

    /// Store the DEX contract used to swap alternate tokens. Requires admin auth.
    pub fn set_dex_contract(&mut self, admin: Address, contract: Address) -> (r: Result<
        Vec<Action>,
        SplitError,
    >)
        ensures
            match r {
                Err(e) => admin_error(old(self)@) == Some(e) && final(self)@ == old(self)@,
                Ok(acts) => admin_error(old(self)@) is None && acts@ == seq![
                    auth(old(self)@.admin->0),
                ] && final(self)@ == (SplitView { dex_contract: Some(contract), ..old(self)@ }),
            },
    {
        let a = self.require_admin()?;
        let _ = admin;
        self.dex_contract = Some(contract);
        Ok(vec![Action::RequireAuth { who: a }])
    }

    /// Store the receipt token factory. Requires admin auth.
    pub fn set_receipt_factory(&mut self, admin: Address, factory: Address) -> (r: Result<
        Vec<Action>,
        SplitError,
    >)
        ensures
            match r {
                Err(e) => admin_error(old(self)@) == Some(e) && final(self)@ == old(self)@,
                Ok(acts) => admin_error(old(self)@) is None && acts@ == seq![
                    auth(old(self)@.admin->0),
                ] && final(self)@ == (SplitView { receipt_factory: Some(factory), ..old(self)@ }),
            },
    {
        let a = self.require_admin()?;
        let _ = admin;
        self.receipt_factory = Some(factory);
        Ok(vec![Action::RequireAuth { who: a }])
    }

    /// Set or clear the NFT gate contract for invoice creation. Requires admin auth.
    pub fn set_nft_gate(&mut self, admin: Address, contract: Option<Address>) -> (r: Result<
        Vec<Action>,
        SplitError,
    >)
        ensures
            match r {
                Err(e) => admin_error(old(self)@) == Some(e) && final(self)@ == old(self)@,
                Ok(acts) => admin_error(old(self)@) is None && acts@ == seq![
                    auth(old(self)@.admin->0),
                    Action::Emit {
                        event: Event::NftGateSet { contract, admin: old(self)@.admin->0 },
                    },
                ] && final(self)@ == (SplitView { nft_gate: contract, ..old(self)@ }),
            },
    {
        let a = self.require_admin()?;
        let _ = admin;
        self.nft_gate = contract;
        Ok(vec![Action::RequireAuth { who: a }, Action::Emit { event: Event::NftGateSet { contract, admin: a } }])
    }

    /// Return the receipt token minted for `payer` on `invoice_id`, if any.
    pub fn get_receipt_token(&self, invoice_id: u64, payer: Address) -> (r: Option<Address>)
        ensures
            r == self@.payer(invoice_id, payer).receipt_token,
    {
        let k = make_payer_key(invoice_id, payer);
        match self.payer_states.get(&k) {
            Some(p) => p.receipt_token,
            None => None,
        }
    }

    /// Return the creation fee.
    pub fn get_creation_fee(&self) -> (r: i128)
        ensures
            r == self@.creation_fee,
    {
        self.creation_fee
    }

    /// Return the treasury address.
    pub fn get_treasury(&self) -> (r: Result<Address, SplitError>)
        ensures
            match self@.treasury {
                Some(t) => r == Ok::<Address, SplitError>(t),
                None => r == Err::<Address, SplitError>(SplitError::TreasuryNotSet),
            },
    {
        match self.treasury {
            Some(t) => Ok(t),
            None => Err(SplitError::TreasuryNotSet),
        }
    }

    /// Return the USDC token address.
    pub fn get_usdc_token(&self) -> (r: Result<Address, SplitError>)
        ensures
            match self@.usdc_token {
                Some(t) => r == Ok::<Address, SplitError>(t),
                None => r == Err::<Address, SplitError>(SplitError::UsdcTokenNotSet),
            },
    {
        match self.usdc_token {
            Some(t) => Ok(t),
            None => Err(SplitError::UsdcTokenNotSet),
        }
    }

    /// Return the platform fee in basis points.
    pub fn get_platform_fee_bps(&self) -> (r: u32)
        ensures
            r == self@.platform_fee_bps,
    {
        self.platform_fee_bps
    }

    /// Add `address` to the creator whitelist (no duplicate). Requires admin
    /// auth. While the whitelist is non-empty only listed addresses may create
    /// invoices.
    pub fn whitelist_creator(&mut self, admin: Address, address: Address) -> (r: Result<
        Vec<Action>,
        SplitError,
    >)
        ensures
            match r {
                Err(e) => admin_error(old(self)@) == Some(e) && final(self)@ == old(self)@,
                Ok(acts) => admin_error(old(self)@) is None && acts@ == seq![
                    auth(old(self)@.admin->0),
                ] && final(self)@ == (SplitView {
                    creator_whitelist: with_listed(old(self)@.creator_whitelist, address),
                    ..old(self)@
                }),
            },
    {
        let a = self.require_admin()?;
        let _ = admin;
        if !contains_address(&self.creator_whitelist, address) {
            self.creator_whitelist.push(address);
        }
        Ok(vec![Action::RequireAuth { who: a }])
    }

    /// Remove every occurrence of `address` from the creator whitelist.
    /// Requires admin auth.
    pub fn remove_creator(&mut self, admin: Address, address: Address) -> (r: Result<
        Vec<Action>,
        SplitError,
    >)
        ensures
            match r {
                Err(e) => admin_error(old(self)@) == Some(e) && final(self)@ == old(self)@,
                Ok(acts) => admin_error(old(self)@) is None && acts@ == seq![
                    auth(old(self)@.admin->0),
                ] && final(self)@ == (SplitView {
                    creator_whitelist: without_listed(old(self)@.creator_whitelist, address),
                    ..old(self)@
                }),
            },
    {
        let a = self.require_admin()?;
        let _ = admin;
        let kept = remove_address(&self.creator_whitelist, address);
        self.creator_whitelist = kept;
        Ok(vec![Action::RequireAuth { who: a }])
    }

    /// Set the timelock delay in seconds. Requires admin auth.
    pub fn set_timelock_secs(&mut self, admin: Address, secs: u64, now: u64) -> (r: Result<
        Vec<Action>,
        SplitError,
    >)
        ensures
            match r {
                Err(e) => admin_error(old(self)@) == Some(e) && final(self)@ == old(self)@,
                Ok(acts) => {
                    let a = old(self)@.admin->0;
                    &&& admin_error(old(self)@) is None
                    &&& acts@ == seq![auth(a)]
                    &&& final(self)@ == (SplitView {
                        timelock_secs: secs,
                        audit_logs: old(self)@.audit_logs.insert(
                            0,
                            old(self)@.log(0).push(
                                AuditEntry { action: AuditAction::SetTimelock, actor: a, timestamp: now },
                            ),
                        ),
                        ..old(self)@
                    })
                },
            },
    {
        let a = self.require_admin()?;
        let _ = admin;
        self.timelock_secs = secs;
        self.append_audit(0, AuditAction::SetTimelock, a, now);
        Ok(vec![Action::RequireAuth { who: a }])
    }

    /// Queue an admin action to run after the timelock; returns its id.
    /// Requires admin auth.
    pub fn queue_action(&mut self, admin: Address, action: TimelockAction, now: u64) -> (r:
        Result<(u64, Vec<Action>), SplitError>)
        ensures
            match (r, queue_outcome(old(self)@, action, now)) {
                (Ok((id, acts)), Ok((qid, s2, qa))) => id == qid && acts@ == qa && final(self)@ == s2,
                (Err(e), Err(qe)) => e == qe && final(self)@ == old(self)@,
                _ => false,
            },
    {
        let a = self.require_admin()?;
        let _ = admin;
        let id = match self.action_counter.checked_add(1) {
            Some(c) => c,
            None => return Err(SplitError::ActionCounterOverflow),
        };
        self.timelock_actions.insert(id, QueuedAction { action, queued_at: now, executed: false });
        self.action_counter = id;
        self.append_audit(0, AuditAction::QueueAction, a, now);
        Ok((id, vec![
            Action::RequireAuth { who: a },
            Action::Emit { event: Event::ActionQueued { action_id: id, action, admin: a } },
        ]))
    }

    /// Run a queued action once its timelock has elapsed; anyone may call.
    pub fn execute_action(&mut self, action_id: u64, now: u64) -> (r: Result<Vec<Action>, SplitError>)
        ensures
            exact_outcome(r, old(self)@, final(self)@, execute_outcome(old(self)@, action_id, now)),
    {
        let q = match self.timelock_actions.get(&action_id) {
            Some(q) => *q,
            None => return Err(SplitError::ActionNotFound),
        };
        if q.executed {
            return Err(SplitError::ActionAlreadyExecuted);
        }
        let due = q.queued_at.saturating_add(self.timelock_secs);
        if now < due {
            return Err(SplitError::TimelockNotYetElapsed);
        }
        match q.action {
            TimelockAction::SetTreasury(t) => {
                self.treasury = Some(t);
            },
            TimelockAction::SetPlatformFee(f) => {
                if f > 10_000 {
                    return Err(SplitError::PlatformFeeBpsMustBeLe10000);
                }
                self.platform_fee_bps = f;
            },
        }
        self.timelock_actions.insert(action_id, QueuedAction { executed: true, ..q });
        let me = self.contract_address;
        self.append_audit(0, AuditAction::ExecuteAction, me, now);
        assert(self@ =~= execute_outcome(old(self)@, action_id, now)->Ok_0.0);
        let acts = vec![Action::Emit { event: Event::ActionExecuted { action_id, action: q.action } }];
        assert(acts@ =~= execute_outcome(old(self)@, action_id, now)->Ok_0.1);
        Ok(acts)
    }

    /// Drop a queued action before it runs. Requires admin auth.
    pub fn cancel_action(&mut self, admin: Address, action_id: u64, now: u64) -> (r: Result<
        Vec<Action>,
        SplitError,
    >)
        ensures
            exact_outcome(r, old(self)@, final(self)@, cancel_outcome(old(self)@, action_id, now)),
    {
        let a = self.require_admin()?;
        let _ = admin;
        let q = match self.timelock_actions.get(&action_id) {
            Some(q) => *q,
            None => return Err(SplitError::ActionNotFound),
        };
        if q.executed {
            return Err(SplitError::ActionAlreadyExecuted);
        }
        self.timelock_actions.remove(&action_id);
        self.append_audit(0, AuditAction::CancelAction, a, now);
        Ok(vec![
            Action::RequireAuth { who: a },
            Action::Emit { event: Event::ActionCancelled { action_id, action: q.action, admin: a } },
        ])
    }
}

/// The whitelist `w` with `a` on it, added at the end where it was missing.
pub open spec fn with_listed(w: Seq<Address>, a: Address) -> Seq<Address> {
    if w.contains(a) {
        w
    } else {
        w.push(a)
    }
}

/// Whether an address is other than `a`.
pub open spec fn other_than(a: Address) -> spec_fn(Address) -> bool {
    |x: Address| x != a
}

/// The whitelist `w` without `a`, order kept.
pub open spec fn without_listed(w: Seq<Address>, a: Address) -> Seq<Address> {
    w.filter(other_than(a))
}

/// Outcome of queueing `action` at `now`: its id, the new state and the
/// host actions.
pub open spec fn queue_outcome(s: SplitView, action: TimelockAction, now: u64) -> Result<(u64, SplitView, Seq<Action>), SplitError> {
    if s.admin is None {
        Err(SplitError::AdminNotSet)
    } else if s.action_counter == u64::MAX {
        Err(SplitError::ActionCounterOverflow)
    } else {
        let a = s.admin->0;
        let id = (s.action_counter + 1) as u64;
        Ok((
            id,
            SplitView {
                action_counter: id,
                timelock_actions: s.timelock_actions.insert(id, QueuedAction { action, queued_at: now, executed: false }),
                audit_logs: s.audit_logs.insert(0, s.log(0).push(AuditEntry { action: AuditAction::QueueAction, actor: a, timestamp: now })),
                ..s
            },
            seq![auth(a), Action::Emit { event: Event::ActionQueued { action_id: id, action, admin: a } }],
        ))
    }
}

/// The time from which an action queued at `queued_at` may run.
pub open spec fn timelock_due(queued_at: u64, secs: u64) -> int {
    if queued_at + secs > u64::MAX {
        u64::MAX as int
    } else {
        queued_at + secs
    }
}

/// `s` with the effect of `action` applied.
pub open spec fn applied(s: SplitView, action: TimelockAction) -> SplitView {
    match action {
        TimelockAction::SetTreasury(t) => SplitView { treasury: Some(t), ..s },
        TimelockAction::SetPlatformFee(f) => SplitView { platform_fee_bps: f, ..s },
    }
}

/// Outcome of running queued action `action_id` at `now`.
pub open spec fn execute_outcome(s: SplitView, action_id: u64, now: u64) -> Result<(SplitView, Seq<Action>), SplitError> {
    if !s.timelock_actions.contains_key(action_id) {
        Err(SplitError::ActionNotFound)
    } else {
        let q = s.timelock_actions[action_id];
        if q.executed {
            Err(SplitError::ActionAlreadyExecuted)
        } else if (now as int) < timelock_due(q.queued_at, s.timelock_secs) {
            Err(SplitError::TimelockNotYetElapsed)
        } else if q.action matches TimelockAction::SetPlatformFee(f) && f > 10_000 {
            Err(SplitError::PlatformFeeBpsMustBeLe10000)
        } else {
            let s1 = applied(s, q.action);
            Ok((
                SplitView {
                    timelock_actions: s.timelock_actions.insert(action_id, QueuedAction { executed: true, ..q }),
                    audit_logs: s.audit_logs.insert(0, s.log(0).push(AuditEntry { action: AuditAction::ExecuteAction, actor: s.contract_address, timestamp: now })),
                    ..s1
                },
                seq![Action::Emit { event: Event::ActionExecuted { action_id, action: q.action } }],
            ))
        }
    }
}

/// Outcome of cancelling queued action `action_id` at `now`.
pub open spec fn cancel_outcome(s: SplitView, action_id: u64, now: u64) -> Result<(SplitView, Seq<Action>), SplitError> {
    if s.admin is None {
        Err(SplitError::AdminNotSet)
    } else if !s.timelock_actions.contains_key(action_id) {
        Err(SplitError::ActionNotFound)
    } else {
        let q = s.timelock_actions[action_id];
        let a = s.admin->0;
        if q.executed {
            Err(SplitError::ActionAlreadyExecuted)
        } else {
            Ok((
                SplitView {
                    timelock_actions: s.timelock_actions.remove(action_id),
                    audit_logs: s.audit_logs.insert(0, s.log(0).push(AuditEntry { action: AuditAction::CancelAction, actor: a, timestamp: now })),
                    ..s
                },
                seq![auth(a), Action::Emit { event: Event::ActionCancelled { action_id, action: q.action, admin: a } }],
            ))
        }
    }
}

/// Whether `a` occurs in `v`.
pub fn contains_address(v: &Vec<Address>, a: Address) -> (r: bool)
    ensures
        r == v@.contains(a),
{
    let mut i: usize = 0;
    while i < v.len()
        invariant
            i <= v.len(),
            forall|j: int| 0 <= j < i ==> v@[j] != a,
        decreases v.len() - i,
    {
        if v[i] == a {
            return true;
        }
        i = i + 1;
    }
    false
}

/// `v` without the occurrences of `a`, order kept.
pub fn remove_address(v: &Vec<Address>, a: Address) -> (r: Vec<Address>)
    ensures
        r@ == without_listed(v@, a),
{
    let mut out: Vec<Address> = Vec::new();
    let mut i: usize = 0;
    while i < v.len()
        invariant
            i <= v.len(),
            out@ == without_listed(v@.take(i as int), a),
        decreases v.len() - i,
    {
        proof {
            reveal_with_fuel(Seq::filter, 1);
            assert(v@.take(i + 1).drop_last() =~= v@.take(i as int));
        }
        if v[i] != a {
            out.push(v[i]);
        }
        i = i + 1;
    }
    assert(v@.take(v.len() as int) =~= v@);
    out
}

} // verus!
