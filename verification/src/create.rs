//! Invoice creation: single invoices, batches, subscriptions and templates.

use vstd::prelude::*;
use crate::types::{Address, Tranche, SplitRule};
use crate::invoice::InvoiceView;
use crate::effects::{Action, Event, SplitError};
use crate::math::{sum_i128, sum_u32, running_sums_fit_i128, checked_sum_i128, checked_sum_u32, as_u128, to_u128};
use crate::state::{TemplateEntry, TemplateView, SubscriptionView, AccountStats, EntryView, InvoiceEntry, SplitContract, SplitView, Stats, default_account, new_account, lemma_map_values_insert, lemma_map_values_remove};
use crate::terms::{InvoiceOptions, InvoiceTerms, TermsView, new_invoice_view, build_invoice, plain_terms, plain_terms_view};
use crate::types::{CreateInvoiceParams, InvoiceStatus, InvoiceTemplate, SubscriptionParams};
use crate::admin::contains_address;

verus! {

broadcast use vstd::std_specs::hash::group_hash_axioms;

/// Sum of `s` where every running sum fits in u32.
pub open spec fn checked_u32_total(s: Seq<u32>) -> Option<int> {
    if forall|k: int| 0 <= k <= s.len() ==> #[trigger] sum_u32(s.take(k)) <= u32::MAX {
        Some(sum_u32(s))
    } else {
        None
    }
}

/// Basis points a split rule claims of `total`: a fixed amount counts as
/// `(amount * 10_000 / total) as u32`.
pub open spec fn rule_bps(rule: SplitRule, total: i128) -> Option<int> {
    match rule {
        SplitRule::Fixed(a) => {
            let p = as_u128(a) * 10_000;
            if p > u128::MAX || as_u128(total) == 0 {
                None
            } else {
                Some((p / as_u128(total)) % 0x1_0000_0000)
            }
        },
        SplitRule::Percentage(b) => Some(b as int),
        SplitRule::Tiered(_, b) => Some(b as int),
    }
}

/// Running u32 sum of the basis points of the first `k` rules; `None` on overflow.
pub open spec fn rules_bps(rules: Seq<SplitRule>, total: i128, k: nat) -> Option<int>
    decreases k,
{
    if k == 0 {
        Some(0)
    } else {
        match rules_bps(rules, total, (k - 1) as nat) {
            None => None,
            Some(acc) => match rule_bps(rules[k - 1], total) {
                None => None,
                Some(b) => if acc + b > u32::MAX {
                    None
                } else {
                    Some(acc + b)
                },
            },
        }
    }
}

/// The basis points of a tranche schedule.
pub open spec fn tranche_bps(ts: Seq<Tranche>) -> Seq<u32> {
    ts.map_values(|t: Tranche| t.basis_points)
}

/// `ids` with `id` appended under each recipient, in order.
pub open spec fn index_invoice(m: Map<u64, Seq<u64>>, rs: Seq<Address>, id: u64) -> Map<u64, Seq<u64>>
    decreases rs.len(),
{
    if rs.len() == 0 {
        m
    } else {
        let m1 = index_invoice(m, rs.drop_last(), id);
        let k = rs.last().0;
        m1.insert(k, (if m1.contains_key(k) { m1[k] } else { Seq::empty() }).push(id))
    }
}

/// The first reason the shared creation step rejects an invoice.
pub open spec fn create_error(
    s: SplitView,
    now: u64,
    creator: Address,
    rs: Seq<Address>,
    am: Seq<i128>,
    deadline: u64,
    t: TermsView,
    governance_approved: bool,
) -> Option<SplitError> {
    let acct = s.account(creator);
    if rs.len() != am.len() {
        Some(SplitError::RecipientsAndAmountsLengthMismatch)
    } else if rs.len() == 0 {
        Some(SplitError::MustHaveAtLeastOneRecipient)
    } else if deadline <= now {
        Some(SplitError::DeadlineMustBeInTheFuture)
    } else if t.bonus_pool < 0 {
        Some(SplitError::BonusPoolMustBeNonNegative)
    } else if t.penalty_bps > 10_000 {
        Some(SplitError::PenaltyBpsMustBeLe10000)
    } else if t.min_funding_bps > 10_000 {
        Some(SplitError::MinFundingBpsMustBeLe10000)
    } else if t.tax_bps > 10_000 {
        Some(SplitError::TaxBpsMustBeLe10000)
    } else if t.insurance_premium_bps > 10_000 {
        Some(SplitError::InsurancePremiumBpsMustBeLe10000)
    } else if t.tax_bps > 0 && t.tax_authority is None {
        Some(SplitError::TaxAuthorityMustBeSet)
    } else if t.priorities.len() > 0 && t.priorities.len() != rs.len() {
        Some(SplitError::PrioritiesLengthMustMatchRecipients)
    } else if exists|i: int| 0 <= i < am.len() && am[i] <= 0 {
        Some(SplitError::AmountsMustBePositive)
    } else if !running_sums_fit_i128(am) {
        Some(SplitError::ArithmeticOverflow)
    } else if t.prerequisite_id is Some && !s.invoices.contains_key(t.prerequisite_id->0) {
        Some(SplitError::InvoiceNotFound)
    } else if t.tranches.len() > 0 && checked_u32_total(tranche_bps(t.tranches)) is None {
        Some(SplitError::ArithmeticOverflow)
    } else if t.tranches.len() > 0 && checked_u32_total(tranche_bps(t.tranches)) != Some(10_000int) {
        Some(SplitError::TranchesMustSumTo10000BasisPoints)
    } else if t.release_stages.len() > 0 && checked_u32_total(t.release_stages) is None {
        Some(SplitError::ArithmeticOverflow)
    } else if t.release_stages.len() > 0 && checked_u32_total(t.release_stages) != Some(10_000int) {
        Some(SplitError::ReleaseStagesMustSumTo10000BasisPoints)
    } else if t.split_rules.len() > 0 && t.split_rules.len() != rs.len() {
        Some(SplitError::SplitRulesLengthMustMatchRecipients)
    } else if t.split_rules.len() > 0 && sum_i128(am) <= 0 {
        Some(SplitError::TotalAmountsMustBePositive)
    } else if t.split_rules.len() > 0 && rules_bps(t.split_rules, sum_i128(am) as i128, t.split_rules.len()) is None {
        Some(SplitError::ArithmeticOverflow)
    } else if t.split_rules.len() > 0 && rules_bps(t.split_rules, sum_i128(am) as i128, t.split_rules.len()) != Some(10_000int) {
        Some(SplitError::SplitRulesMustSumTo100Percent)
    } else if s.creation_fee > 0 && s.usdc_token is None {
        Some(SplitError::UsdcTokenNotSet)
    } else if s.creation_fee > 0 && s.treasury is None {
        Some(SplitError::TreasuryNotSet)
    } else if s.invoice_counter == u64::MAX {
        Some(SplitError::ArithmeticOverflow)
    } else if acct.invoices_created == u64::MAX {
        Some(SplitError::ArithmeticOverflow)
    } else if s.governance_contract is Some && !governance_approved {
        Some(SplitError::GovernanceApprovalRequired)
    } else if s.stats.total_invoices == u64::MAX {
        Some(SplitError::TotalInvoicesOverflow)
    } else if acct.creator_count == u64::MAX {
        Some(SplitError::CreatorCountOverflow)
    } else {
        None
    }
}

/// State after the shared creation step stores invoice `s.invoice_counter + 1`.
pub open spec fn created_state(
    s: SplitView,
    creator: Address,
    rs: Seq<Address>,
    am: Seq<i128>,
    token: Address,
    deadline: u64,
    t: TermsView,
) -> SplitView {
    let id = (s.invoice_counter + 1) as u64;
    let acct = s.account(creator);
    SplitView {
        invoice_counter: id,
        accounts: s.accounts.insert(
            creator.0,
            AccountStats {
                invoices_created: (acct.invoices_created + 1) as u64,
                creator_count: (acct.creator_count + 1) as u64,
                ..acct
            },
        ),
        invoices: s.invoices.insert(
            id,
            EntryView { invoice: new_invoice_view(creator, rs, am, token, deadline, t), archived: false },
        ),
        recipient_invoice_ids: index_invoice(s.recipient_invoice_ids, rs, id),
        stats: Stats { total_invoices: (s.stats.total_invoices + 1) as u64, ..s.stats },
        ..s
    }
}

/// Host actions of the shared creation step: the creation fee, the bonus
/// pool deposit and the creation event.
pub open spec fn created_actions(
    s: SplitView,
    creator: Address,
    am: Seq<i128>,
    token: Address,
    t: TermsView,
) -> Seq<Action> {
    let id = (s.invoice_counter + 1) as u64;
    (if s.creation_fee > 0 {
        seq![Action::Transfer { token: s.usdc_token->0, from: creator, to: s.treasury->0, amount: s.creation_fee }]
    } else {
        Seq::empty()
    }) + (if t.bonus_pool > 0 {
        seq![Action::Transfer { token, from: creator, to: s.contract_address, amount: t.bonus_pool }]
    } else {
        Seq::empty()
    }) + seq![Action::Emit { event: Event::InvoiceCreated { invoice_id: id, creator, total: sum_i128(am) as i128 } }]
}

/// State after the creation rate limit counts one more invoice of `creator`.
pub open spec fn rate_limited(s: SplitView, creator: Address, now: u64) -> Result<SplitView, SplitError> {
    if s.rate_limit == 0 {
        Ok(s)
    } else {
        let a = s.account(creator);
        let end = if a.rate_window_start + s.rate_window > u64::MAX { u64::MAX as int } else { a.rate_window_start + s.rate_window };
        let start = if now >= end { now } else { a.rate_window_start };
        let used = if now >= end { 0u32 } else { a.rate_window_used };
        if used >= s.rate_limit {
            Err(SplitError::RateLimitExceeded)
        } else {
            Ok(SplitView {
                accounts: s.accounts.insert(
                    creator.0,
                    AccountStats { rate_window_start: start, rate_window_used: (used + 1) as u32, ..a },
                ),
                ..s
            })
        }
    }
}

impl SplitContract {
    /// Counters of `a`.
    pub(crate) fn account_of(&self, a: Address) -> (r: AccountStats)
        ensures
            r == self@.account(a),
    {
        match self.accounts.get(&a.0) {
            Some(x) => *x,
            None => new_account(),
        }
    }

    /// Append `id` to the invoice index of each recipient in `rs`, in order.
    pub(crate) fn index_recipients(&mut self, rs: &Vec<Address>, id: u64)
        ensures
            final(self)@ == (SplitView {
                recipient_invoice_ids: index_invoice(old(self)@.recipient_invoice_ids, rs@, id),
                ..old(self)@
            }),
    {
        let mut i: usize = 0;
        while i < rs.len()
            invariant
                i <= rs.len(),
                self@ == (SplitView {
                    recipient_invoice_ids: index_invoice(old(self)@.recipient_invoice_ids, rs@.take(i as int), id),
                    ..old(self)@
                }),
            decreases rs.len() - i,
        {
            let k = rs[i].0;
            let ghost m0 = self.recipient_invoice_ids@;
            let ghost v0 = self@.recipient_invoice_ids;
            let opt = self.recipient_invoice_ids.remove(&k);
            let mut ids = match opt {
                Some(v) => v,
                None => Vec::new(),
            };
            let ghost m1 = self.recipient_invoice_ids@;
            proof {
                if m0.contains_key(k) {
                    assert(ids == m0[k]);
                    assert(v0[k] == ids@);
                } else {
                    assert(ids@ =~= Seq::<u64>::empty());
                }
            }
            let ghost before = ids@;
            ids.push(id);
            self.recipient_invoice_ids.insert(k, ids);
            proof {
                assert(rs@.take(i + 1).drop_last() =~= rs@.take(i as int));
                assert(self@.recipient_invoice_ids =~= v0.insert(
                    k,
                    (if v0.contains_key(k) { v0[k] } else { Seq::empty() }).push(id),
                ));
            }
            i = i + 1;
        }
        assert(rs@.take(rs.len() as int) =~= rs@);
    }


    /// The creation step shared by every way of creating an invoice: checks
    /// the terms, charges the creation fee, takes the bonus pool, stores the
    /// invoice under the next id and indexes it. `governance_approved` is the
    /// governance contract's answer for (creator, total); it only counts
    /// where a governance contract is set.
    pub(crate) fn create_inner(
        &mut self,
        now: u64,
        creator: Address,
        recipients: Vec<Address>,
        amounts: Vec<i128>,
        token: Address,
        deadline: u64,
        t: InvoiceTerms,
        governance_approved: bool,
    ) -> (r: Result<(u64, Vec<Action>), SplitError>)
        ensures
            match create_error(old(self)@, now, creator, recipients@, amounts@, deadline, t@, governance_approved) {
                Some(e) => r == Err::<(u64, Vec<Action>), SplitError>(e) && final(self)@ == old(self)@,
                None => r is Ok && r->Ok_0.0 == old(self)@.invoice_counter + 1
                    && r->Ok_0.1@ == created_actions(old(self)@, creator, amounts@, token, t@)
                    && final(self)@ == created_state(old(self)@, creator, recipients@, amounts@, token, deadline, t@),
            },
    {
        assert(self@.invoices.dom() =~= self.invoices@.dom());
        if recipients.len() != amounts.len() {
            return Err(SplitError::RecipientsAndAmountsLengthMismatch);
        }
        if recipients.len() == 0 {
            return Err(SplitError::MustHaveAtLeastOneRecipient);
        }
        if deadline <= now {
            return Err(SplitError::DeadlineMustBeInTheFuture);
        }
        if t.bonus_pool < 0 {
            return Err(SplitError::BonusPoolMustBeNonNegative);
        }
        if t.penalty_bps > 10_000 {
            return Err(SplitError::PenaltyBpsMustBeLe10000);
        }
        if t.min_funding_bps > 10_000 {
            return Err(SplitError::MinFundingBpsMustBeLe10000);
        }
        if t.tax_bps > 10_000 {
            return Err(SplitError::TaxBpsMustBeLe10000);
        }
        if t.insurance_premium_bps > 10_000 {
            return Err(SplitError::InsurancePremiumBpsMustBeLe10000);
        }
        if t.tax_bps > 0 && t.tax_authority.is_none() {
            return Err(SplitError::TaxAuthorityMustBeSet);
        }
        if t.priorities.len() > 0 && t.priorities.len() != recipients.len() {
            return Err(SplitError::PrioritiesLengthMustMatchRecipients);
        }
        if !all_positive(&amounts) {
            return Err(SplitError::AmountsMustBePositive);
        }
        let total = match checked_sum_i128(&amounts) {
            Some(x) => x,
            None => return Err(SplitError::ArithmeticOverflow),
        };
        match t.prerequisite_id {
            Some(pid) => {
                if !self.invoices.contains_key(&pid) {
                    return Err(SplitError::InvoiceNotFound);
                }
            },
            None => {},
        }
        if t.tranches.len() > 0 {
            let bps = tranche_bps_of(&t.tranches);
            match checked_sum_u32(&bps) {
                None => return Err(SplitError::ArithmeticOverflow),
                Some(x) => {
                    if x != 10_000 {
                        return Err(SplitError::TranchesMustSumTo10000BasisPoints);
                    }
                },
            }
        }
        if t.release_stages.len() > 0 {
            match checked_sum_u32(&t.release_stages) {
                None => return Err(SplitError::ArithmeticOverflow),
                Some(x) => {
                    if x != 10_000 {
                        return Err(SplitError::ReleaseStagesMustSumTo10000BasisPoints);
                    }
                },
            }
        }
        if t.split_rules.len() > 0 {
            if t.split_rules.len() != recipients.len() {
                return Err(SplitError::SplitRulesLengthMustMatchRecipients);
            }
            if total <= 0 {
                return Err(SplitError::TotalAmountsMustBePositive);
            }
            match Self::split_rules_bps(&t.split_rules, total) {
                None => return Err(SplitError::ArithmeticOverflow),
                Some(b) => {
                    if b != 10_000 {
                        return Err(SplitError::SplitRulesMustSumTo100Percent);
                    }
                },
            }
        }
        let fee = self.creation_fee;
        let mut fee_route: Option<(Address, Address)> = None;
        if fee > 0 {
            let usdc = match self.usdc_token {
                Some(u) => u,
                None => return Err(SplitError::UsdcTokenNotSet),
            };
            let treasury = match self.treasury {
                Some(x) => x,
                None => return Err(SplitError::TreasuryNotSet),
            };
            fee_route = Some((usdc, treasury));
        }
        if self.invoice_counter == u64::MAX {
            return Err(SplitError::ArithmeticOverflow);
        }
        let acct = self.account_of(creator);
        if acct.invoices_created == u64::MAX {
            return Err(SplitError::ArithmeticOverflow);
        }
        if self.governance_contract.is_some() && !governance_approved {
            return Err(SplitError::GovernanceApprovalRequired);
        }
        if self.stats.total_invoices == u64::MAX {
            return Err(SplitError::TotalInvoicesOverflow);
        }
        if acct.creator_count == u64::MAX {
            return Err(SplitError::CreatorCountOverflow);
        }
        // All checks passed: apply the creation.
        let ghost s0 = self@;
        let mut actions: Vec<Action> = Vec::new();
        match fee_route {
            Some((usdc, treasury)) => {
                actions.push(Action::Transfer { token: usdc, from: creator, to: treasury, amount: fee });
            },
            None => {},
        }
        let id = self.invoice_counter + 1;
        self.invoice_counter = id;
        let bonus = t.bonus_pool;
        if bonus > 0 {
            actions.push(Action::Transfer { token, from: creator, to: self.contract_address, amount: bonus });
        }
        let rs_copy = recipients.clone();
        let invoice = build_invoice(creator, recipients, amounts, token, deadline, t);
        self.accounts.insert(
            creator.0,
            AccountStats {
                invoices_created: acct.invoices_created + 1,
                creator_count: acct.creator_count + 1,
                ..acct
            },
        );
        self.invoices.insert(id, InvoiceEntry { invoice, archived: false });
        actions.push(Action::Emit { event: Event::InvoiceCreated { invoice_id: id, creator, total } });
        self.stats = Stats { total_invoices: self.stats.total_invoices + 1, ..self.stats };
        let ghost s1 = self@;
        self.index_recipients(&rs_copy, id);
        proof {
            assert(s1.invoices =~= s0.invoices.insert(id, EntryView { invoice: new_invoice_view(creator, rs_copy@, amounts@, token, deadline, t@), archived: false }));
            assert(self@ =~= created_state(s0, creator, rs_copy@, amounts@, token, deadline, t@));
            assert(actions@ =~= created_actions(s0, creator, amounts@, token, t@));
        }
        Ok((id, actions))
    }

    /// Basis points claimed by the split rules, `None` where a sum overflows.
    fn split_rules_bps(rules: &Vec<SplitRule>, total: i128) -> (r: Option<u32>)
        ensures
            match rules_bps(rules@, total, rules@.len()) {
                Some(b) => r is Some && b == r->0 as int,
                None => r is None,
            },
    {
        let mut acc: u32 = 0;
        let mut i: usize = 0;
        let ut = to_u128(total);
        while i < rules.len()
            invariant
                i <= rules.len(),
                ut == as_u128(total),
                rules_bps(rules@, total, i as nat) == Some(acc as int),
            decreases rules.len() - i,
        {
            let b: u32 = match rules[i] {
                SplitRule::Fixed(a) => {
                    let ua = to_u128(a);
                    if ut == 0 {
                        proof { lemma_rules_bps_none_persists(rules@, total, (i + 1) as nat, rules@.len()); }
                        return None;
                    }
                    match ua.checked_mul(10_000) {
                        None => {
                            proof { lemma_rules_bps_none_persists(rules@, total, (i + 1) as nat, rules@.len()); }
                            return None;
                        },
                        Some(p) => ((p / ut) % 0x1_0000_0000) as u32,
                    }
                },
                SplitRule::Percentage(b) => b,
                SplitRule::Tiered(_, b) => b,
            };
            match acc.checked_add(b) {
                Some(x) => {
                    acc = x;
                },
                None => {
                    proof { lemma_rules_bps_none_persists(rules@, total, (i + 1) as nat, rules@.len()); }
                    return None;
                },
            }
            i = i + 1;
        }
        Some(acc)
    }
}


/// Result of `create_invoice`: the new id, the state after it and the host actions.
pub open spec fn create_invoice_outcome(
    s: SplitView,
    now: u64,
    creator: Address,
    rs: Seq<Address>,
    am: Seq<i128>,
    token: Address,
    deadline: u64,
    t: TermsView,
    nft_balance: i128,
    governance_approved: bool,
) -> Result<(u64, SplitView, Seq<Action>), SplitError> {
    if s.paused {
        Err(SplitError::ContractIsPaused)
    } else {
        match rate_limited(s, creator, now) {
            Err(e) => Err(e),
            Ok(s1) => if s1.creator_whitelist.len() > 0 && !s1.creator_whitelist.contains(creator) {
                Err(SplitError::CreatorNotWhitelisted)
            } else if s1.nft_gate is Some && nft_balance <= 0 {
                Err(SplitError::NftGateNotAHolder)
            } else {
                match create_error(s1, now, creator, rs, am, deadline, t, governance_approved) {
                    Some(e) => Err(e),
                    None => Ok((
                        (s1.invoice_counter + 1) as u64,
                        created_state(s1, creator, rs, am, token, deadline, t),
                        seq![Action::RequireAuth { who: creator }] + created_actions(s1, creator, am, token, t),
                    )),
                }
            },
        }
    }
}

impl SplitContract {
    /// Count one more invoice of `creator` against the creation rate limit;
    /// returns the creator's previous stored counters.
    pub(crate) fn apply_rate_limit(&mut self, creator: Address, now: u64) -> (r: Result<Option<AccountStats>, SplitError>)
        ensures
            match rate_limited(old(self)@, creator, now) {
                Err(e) => r == Err::<Option<AccountStats>, SplitError>(e) && final(self)@ == old(self)@,
                Ok(s1) => r == Ok::<Option<AccountStats>, SplitError>(
                    if old(self)@.accounts.contains_key(creator.0) { Some(old(self)@.accounts[creator.0]) } else { None },
                ) && final(self)@ == s1,
            },
    {
        let prev = match self.accounts.get(&creator.0) {
            Some(a) => Some(*a),
            None => None,
        };
        if self.rate_limit == 0 {
            return Ok(prev);
        }
        let a = self.account_of(creator);
        let end = a.rate_window_start.saturating_add(self.rate_window);
        let (start, used) = if now >= end { (now, 0u32) } else { (a.rate_window_start, a.rate_window_used) };
        if used >= self.rate_limit {
            return Err(SplitError::RateLimitExceeded);
        }
        self.accounts.insert(creator.0, AccountStats { rate_window_start: start, rate_window_used: used + 1, ..a });
        Ok(prev)
    }

    /// Put back the stored counters of `creator` as they were.
    pub(crate) fn restore_account(&mut self, creator: Address, prev: Option<AccountStats>)
        ensures
            final(self)@ == (SplitView {
                accounts: match prev {
                    Some(a) => old(self)@.accounts.insert(creator.0, a),
                    None => old(self)@.accounts.remove(creator.0),
                },
                ..old(self)@
            }),
    {
        match prev {
            Some(a) => {
                self.accounts.insert(creator.0, a);
            },
            None => {
                self.accounts.remove(&creator.0);
            },
        }
    }

    /// Create a new invoice. `nft_balance` is the creator's balance on the
    /// NFT gate contract and `governance_approved` the governance contract's
    /// answer for (creator, total); each only counts where that contract is set.
    pub fn create_invoice(
        &mut self,
        now: u64,
        creator: Address,
        recipients: Vec<Address>,
        amounts: Vec<i128>,
        token: Address,
        deadline: u64,
        options: InvoiceOptions,
        nft_balance: i128,
        governance_approved: bool,
    ) -> (r: Result<(u64, Vec<Action>), SplitError>)
        ensures
            match create_invoice_outcome(old(self)@, now, creator, recipients@, amounts@, token, deadline, options.spec_terms(), nft_balance, governance_approved) {
                Err(e) => r == Err::<(u64, Vec<Action>), SplitError>(e) && final(self)@ == old(self)@,
                Ok((id, s2, acts)) => r is Ok && r->Ok_0.0 == id && r->Ok_0.1@ == acts && final(self)@ == s2,
            },
    {
        if self.paused {
            return Err(SplitError::ContractIsPaused);
        }
        let ghost s0 = self@;
        let prev = self.apply_rate_limit(creator, now)?;
        if self.creator_whitelist.len() > 0 && !contains_address(&self.creator_whitelist, creator) {
            self.restore_account(creator, prev);
            assert(self@ =~= s0);
            return Err(SplitError::CreatorNotWhitelisted);
        }
        if self.nft_gate.is_some() && nft_balance <= 0 {
            self.restore_account(creator, prev);
            assert(self@ =~= s0);
            return Err(SplitError::NftGateNotAHolder);
        }
        let t = options.into_terms();
        match self.create_inner(now, creator, recipients, amounts, token, deadline, t, governance_approved) {
            Err(e) => {
                self.restore_account(creator, prev);
                assert(self@ =~= s0);
                Err(e)
            },
            Ok((id, acts)) => {
                let mut all = vec![Action::RequireAuth { who: creator }];
                let mut acts = acts;
                all.append(&mut acts);
                Ok((id, all))
            },
        }
    }
}


/// Parameters of one batch invoice as mathematical values.
pub struct ParamsView {
    pub recipients: Seq<Address>,
    pub amounts: Seq<i128>,
    pub token: Address,
    pub deadline: u64,
}

impl View for CreateInvoiceParams {
    type V = ParamsView;

    open spec fn view(&self) -> ParamsView {
        ParamsView { recipients: self.recipients@, amounts: self.amounts@, token: self.token, deadline: self.deadline }
    }
}

/// The governance answer for the `i`-th invoice of a batch; none counts as a refusal.
pub open spec fn approval_at(approvals: Seq<bool>, i: int) -> bool {
    if 0 <= i < approvals.len() { approvals[i] } else { false }
}

/// State, ids and host actions after the first `k` invoices of a batch.
pub open spec fn batch_fold(s: SplitView, now: u64, creator: Address, ps: Seq<ParamsView>, approvals: Seq<bool>, k: nat) -> Result<(SplitView, Seq<u64>, Seq<Action>), SplitError>
    decreases k,
{
    if k == 0 {
        Ok((s, Seq::empty(), Seq::empty()))
    } else {
        match batch_fold(s, now, creator, ps, approvals, (k - 1) as nat) {
            Err(e) => Err(e),
            Ok((s1, ids, acts)) => match rate_limited(s1, creator, now) {
                Err(e) => Err(e),
                Ok(s2) => {
                    let p = ps[k - 1];
                    match create_error(s2, now, creator, p.recipients, p.amounts, p.deadline, plain_terms_view(), approval_at(approvals, k - 1)) {
                        Some(e) => Err(e),
                        None => Ok((
                            created_state(s2, creator, p.recipients, p.amounts, p.token, p.deadline, plain_terms_view()),
                            ids.push((s2.invoice_counter + 1) as u64),
                            acts + created_actions(s2, creator, p.amounts, p.token, plain_terms_view()),
                        )),
                    }
                },
            },
        }
    }
}

pub proof fn lemma_batch_fold_err_persists(s: SplitView, now: u64, creator: Address, ps: Seq<ParamsView>, approvals: Seq<bool>, k: nat, m: nat)
    requires
        k <= m,
        batch_fold(s, now, creator, ps, approvals, k) is Err,
    ensures
        batch_fold(s, now, creator, ps, approvals, m) == batch_fold(s, now, creator, ps, approvals, k),
    decreases m - k,
{
    if k < m {
        lemma_batch_fold_err_persists(s, now, creator, ps, approvals, k, (m - 1) as nat);
    }
}

/// First reason `create_subscription` is rejected before the shared creation step.
pub open spec fn subscription_error(now: u64, rs: Seq<Address>, am: Seq<i128>, months: u32) -> Option<SplitError> {
    if rs.len() != am.len() {
        Some(SplitError::RecipientsAndAmountsLengthMismatch)
    } else if rs.len() == 0 {
        Some(SplitError::MustHaveAtLeastOneRecipient)
    } else if !(months > 0 && months <= 12) {
        Some(SplitError::MonthsMustBeBetween1And12)
    } else if exists|i: int| 0 <= i < am.len() && am[i] <= 0 {
        Some(SplitError::AmountsMustBePositive)
    } else if now + 2_592_000 > u64::MAX {
        Some(SplitError::ArithmeticOverflow)
    } else {
        None
    }
}

/// Index of the first template of `creator` named `name` among the first `k`.
pub open spec fn find_template(ts: Seq<TemplateView>, creator: Address, name: Seq<char>, k: nat) -> Option<int>
    decreases k,
{
    if k == 0 {
        None
    } else {
        match find_template(ts, creator, name, (k - 1) as nat) {
            Some(i) => Some(i),
            None => if ts[k - 1].creator == creator && ts[k - 1].name == name {
                Some(k - 1)
            } else {
                None
            },
        }
    }
}

pub proof fn lemma_find_template_some_persists(ts: Seq<TemplateView>, creator: Address, name: Seq<char>, k: nat, m: nat)
    requires
        k <= m,
        find_template(ts, creator, name, k) is Some,
    ensures
        find_template(ts, creator, name, m) == find_template(ts, creator, name, k),
        0 <= find_template(ts, creator, name, k)->0 < k,
    decreases m - k,
{
    if k < m {
        lemma_find_template_some_persists(ts, creator, name, k, (m - 1) as nat);
    } else {
        lemma_find_template_range(ts, creator, name, k);
    }
}

pub proof fn lemma_find_template_range(ts: Seq<TemplateView>, creator: Address, name: Seq<char>, k: nat)
    ensures
        find_template(ts, creator, name, k) is Some ==> 0 <= find_template(ts, creator, name, k)->0 < k,
    decreases k,
{
    if k > 0 {
        lemma_find_template_range(ts, creator, name, (k - 1) as nat);
    }
}

/// First reason `save_template` is rejected.
pub open spec fn template_error(rs: Seq<Address>, am: Seq<i128>) -> Option<SplitError> {
    if rs.len() != am.len() {
        Some(SplitError::RecipientsAndAmountsLengthMismatch)
    } else if rs.len() == 0 {
        Some(SplitError::MustHaveAtLeastOneRecipient)
    } else if exists|i: int| 0 <= i < am.len() && am[i] <= 0 {
        Some(SplitError::AmountsMustBePositive)
    } else {
        None
    }
}

impl SplitContract {
    /// Create up to 5 invoices with default options in one call.
    /// `governance_approved[i]` answers for the `i`-th invoice. A failed
    /// call creates nothing and changes nothing.
    pub fn create_batch(
        &mut self,
        now: u64,
        creator: Address,
        invoices: Vec<CreateInvoiceParams>,
        governance_approved: Vec<bool>,
    ) -> (r: Result<(Vec<u64>, Vec<Action>), SplitError>)
        ensures
            invoices.len() > 5 ==> r == Err::<(Vec<u64>, Vec<Action>), SplitError>(SplitError::BatchLimitExceeded),
            invoices.len() <= 5 ==> match batch_fold(old(self)@, now, creator, invoices@.map_values(|p: CreateInvoiceParams| p@), governance_approved@, invoices.len() as nat) {
                Err(e) => r == Err::<(Vec<u64>, Vec<Action>), SplitError>(e),
                Ok((s2, ids, acts)) => r is Ok && r->Ok_0.0@ == ids
                    && r->Ok_0.1@ == seq![Action::RequireAuth { who: creator }] + acts && final(self)@ == s2,
            },
            r is Err ==> final(self)@ == old(self)@,
    {
        let saved = self.snapshot();
        let r = self.create_batch_attempt(now, creator, invoices, governance_approved);
        if r.is_err() {
            *self = saved;
        }
        r
    }

    /// `create_batch` up to the point where a failure is rolled back.
    fn create_batch_attempt(
        &mut self,
        now: u64,
        creator: Address,
        invoices: Vec<CreateInvoiceParams>,
        governance_approved: Vec<bool>,
    ) -> (r: Result<(Vec<u64>, Vec<Action>), SplitError>)
        ensures
            invoices.len() > 5 ==> r == Err::<(Vec<u64>, Vec<Action>), SplitError>(SplitError::BatchLimitExceeded),
            invoices.len() <= 5 ==> match batch_fold(old(self)@, now, creator, invoices@.map_values(|p: CreateInvoiceParams| p@), governance_approved@, invoices.len() as nat) {
                Err(e) => r == Err::<(Vec<u64>, Vec<Action>), SplitError>(e),
                Ok((s2, ids, acts)) => r is Ok && r->Ok_0.0@ == ids
                    && r->Ok_0.1@ == seq![Action::RequireAuth { who: creator }] + acts && final(self)@ == s2,
            },
    {
        if invoices.len() > 5 {
            return Err(SplitError::BatchLimitExceeded);
        }
        let ghost s0 = self@;
        let ghost ps = invoices@.map_values(|p: CreateInvoiceParams| p@);
        let mut ids: Vec<u64> = Vec::new();
        let mut acts: Vec<Action> = Vec::new();
        let mut i: usize = 0;
        while i < invoices.len()
            invariant
                i <= invoices.len(),
                invoices.len() <= 5,
                s0 == old(self)@,
                ps == invoices@.map_values(|p: CreateInvoiceParams| p@),
                batch_fold(s0, now, creator, ps, governance_approved@, i as nat) == Ok::<(SplitView, Seq<u64>, Seq<Action>), SplitError>((self@, ids@, acts@)),
            decreases invoices.len() - i,
        {
            let ghost s1 = self@;
            let ghost before = (self@, ids@, acts@);
            match self.apply_rate_limit(creator, now) {
                Err(e) => {
                    assert(rate_limited(s1, creator, now) == Err::<SplitView, SplitError>(e));
                    assert(batch_fold(s0, now, creator, ps, governance_approved@, (i + 1) as nat) == Err::<(SplitView, Seq<u64>, Seq<Action>), SplitError>(e));
                    proof { lemma_batch_fold_err_persists(s0, now, creator, ps, governance_approved@, (i + 1) as nat, invoices.len() as nat); }
                    assert(batch_fold(s0, now, creator, invoices@.map_values(|p: CreateInvoiceParams| p@), governance_approved@, invoices.len() as nat) == Err::<(SplitView, Seq<u64>, Seq<Action>), SplitError>(e));
                    return Err(e);
                },
                Ok(_) => {},
            }
            let p = &invoices[i];
            let approved = if i < governance_approved.len() { governance_approved[i] } else { false };
            let rs = p.recipients.clone();
            let am = p.amounts.clone();
            assert(ps[i as int] == p@);
            let ghost s2 = self@;
            assert(rate_limited(s1, creator, now) == Ok::<SplitView, SplitError>(s2));
            assert(approved == approval_at(governance_approved@, i as int));
            match self.create_inner(now, creator, rs, am, p.token, p.deadline, plain_terms(), approved) {
                Err(e) => {
                    assert(create_error(s2, now, creator, ps[i as int].recipients, ps[i as int].amounts, ps[i as int].deadline, plain_terms_view(), approved) == Some(e));
                    assert(batch_fold(s0, now, creator, ps, governance_approved@, (i + 1) as nat) == Err::<(SplitView, Seq<u64>, Seq<Action>), SplitError>(e));
                    proof { lemma_batch_fold_err_persists(s0, now, creator, ps, governance_approved@, (i + 1) as nat, invoices.len() as nat); }
                    assert(batch_fold(s0, now, creator, invoices@.map_values(|p: CreateInvoiceParams| p@), governance_approved@, invoices.len() as nat) == Err::<(SplitView, Seq<u64>, Seq<Action>), SplitError>(e));
                    return Err(e);
                },
                Ok((id, mut a)) => {
                    ids.push(id);
                    acts.append(&mut a);
                },
            }
            i = i + 1;
        }
        let mut all = vec![Action::RequireAuth { who: creator }];
        all.append(&mut acts);
        Ok((ids, all))
    }

    /// Create the first invoice of a monthly subscription (due in 30 days);
    /// with more than one month, keep what the next invoice needs, which a
    /// release of this invoice creates.
    pub fn create_subscription(
        &mut self,
        now: u64,
        creator: Address,
        recipients: Vec<Address>,
        amounts: Vec<i128>,
        token: Address,
        months: u32,
        governance_approved: bool,
    ) -> (r: Result<(u64, Vec<Action>), SplitError>)
        ensures
            match subscription_error(now, recipients@, amounts@, months) {
                Some(e) => r == Err::<(u64, Vec<Action>), SplitError>(e) && final(self)@ == old(self)@,
                None => match create_error(old(self)@, now, creator, recipients@, amounts@, (now + 2_592_000) as u64, plain_terms_view(), governance_approved) {
                    Some(e) => r == Err::<(u64, Vec<Action>), SplitError>(e) && final(self)@ == old(self)@,
                    None => {
                        let id = (old(self)@.invoice_counter + 1) as u64;
                        let s1 = created_state(old(self)@, creator, recipients@, amounts@, token, (now + 2_592_000) as u64, plain_terms_view());
                        &&& r is Ok && r->Ok_0.0 == id
                        &&& r->Ok_0.1@ == seq![Action::RequireAuth { who: creator }] + created_actions(old(self)@, creator, amounts@, token, plain_terms_view())
                        &&& final(self)@ == if months > 1 {
                            SplitView {
                                subscriptions: s1.subscriptions.insert(id, SubscriptionView {
                                    creator,
                                    recipients: recipients@,
                                    amounts: amounts@,
                                    tokens: Seq::new(recipients@.len(), |i: int| token),
                                }),
                                ..s1
                            }
                        } else {
                            s1
                        }
                    },
                },
            },
    {
        if recipients.len() != amounts.len() {
            return Err(SplitError::RecipientsAndAmountsLengthMismatch);
        }
        if recipients.len() == 0 {
            return Err(SplitError::MustHaveAtLeastOneRecipient);
        }
        if !(months > 0 && months <= 12) {
            return Err(SplitError::MonthsMustBeBetween1And12);
        }
        if !all_positive(&amounts) {
            return Err(SplitError::AmountsMustBePositive);
        }
        let deadline = match now.checked_add(2_592_000) {
            Some(d) => d,
            None => return Err(SplitError::ArithmeticOverflow),
        };
        let rs = recipients.clone();
        let am = amounts.clone();
        let (id, acts) = self.create_inner(now, creator, recipients, amounts, token, deadline, plain_terms(), governance_approved)?;
        if months > 1 {
            let tokens = crate::terms::repeat_address(token, rs.len());
            let ghost s1 = self@;
            self.subscriptions.insert(id, SubscriptionParams { creator, recipients: rs, amounts: am, tokens });
            assert(self@.subscriptions =~= s1.subscriptions.insert(id, SubscriptionView {
                creator,
                recipients: rs@,
                amounts: am@,
                tokens: Seq::new(rs@.len(), |i: int| token),
            }));
        }
        let mut all = vec![Action::RequireAuth { who: creator }];
        let mut acts = acts;
        all.append(&mut acts);
        Ok((id, all))
    }

    /// Index of the template of `creator` named `name`, if saved.
    fn template_index(&self, creator: Address, name: &String) -> (r: Option<usize>)
        ensures
            match find_template(self@.templates, creator, name@, self@.templates.len()) {
                Some(i) => r is Some && r->0 as int == i && 0 <= i < self@.templates.len(),
                None => r is None,
            },
    {
        let mut i: usize = 0;
        while i < self.templates.len()
            invariant
                i <= self.templates.len(),
                find_template(self@.templates, creator, name@, i as nat) is None,
            decreases self.templates.len() - i,
        {
            if self.templates[i].creator == creator && self.templates[i].name == *name {
                proof {
                    assert(find_template(self@.templates, creator, name@, (i + 1) as nat) == Some(i as int));
                    lemma_find_template_some_persists(self@.templates, creator, name@, (i + 1) as nat, self@.templates.len());
                }
                return Some(i);
            }
            i = i + 1;
        }
        None
    }

    /// Save (or replace) the template `name` of `creator`.
    pub fn save_template(
        &mut self,
        creator: Address,
        name: String,
        recipients: Vec<Address>,
        amounts: Vec<i128>,
        token: Address,
    ) -> (r: Result<Vec<Action>, SplitError>)
        ensures
            match template_error(recipients@, amounts@) {
                Some(e) => r == Err::<Vec<Action>, SplitError>(e) && final(self)@ == old(self)@,
                None => {
                    let tv = TemplateView { creator, name: name@, recipients: recipients@, amounts: amounts@, token };
                    &&& r is Ok && r->Ok_0@ == seq![Action::RequireAuth { who: creator }]
                    &&& final(self)@ == (SplitView {
                        templates: match find_template(old(self)@.templates, creator, name@, old(self)@.templates.len()) {
                            Some(i) => old(self)@.templates.update(i, tv),
                            None => old(self)@.templates.push(tv),
                        },
                        ..old(self)@
                    })
                },
            },
    {
        if recipients.len() != amounts.len() {
            return Err(SplitError::RecipientsAndAmountsLengthMismatch);
        }
        if recipients.len() == 0 {
            return Err(SplitError::MustHaveAtLeastOneRecipient);
        }
        if !all_positive(&amounts) {
            return Err(SplitError::AmountsMustBePositive);
        }
        let template = InvoiceTemplate {
            recipients,
            amounts,
            token,
            deadline: 0,
            funded: 0,
            status: InvoiceStatus::Pending,
            payments: Vec::new(),
            allowed_payers: None,
        };
        let ghost s0 = self@;
        let ghost name_v = name@;
        let entry = TemplateEntry { creator, name, template };
        let ghost tv = entry@;
        let idx = self.template_index(creator, &entry.name);
        assert(entry.name@ == name_v);
        match idx {
            Some(i) => {
                assert(find_template(s0.templates, creator, name_v, s0.templates.len()) == Some(i as int));
                self.templates.set(i, entry);
                assert(self@.templates =~= s0.templates.update(i as int, tv));
                assert(self@ =~= SplitView { templates: s0.templates.update(i as int, tv), ..s0 });
            },
            None => {
                self.templates.push(entry);
                assert(self@.templates =~= s0.templates.push(tv));
                assert(self@ =~= SplitView { templates: s0.templates.push(tv), ..s0 });
            },
        }
        assert(tv == (TemplateView { creator, name: name@, recipients: recipients@, amounts: amounts@, token }));
        Ok(vec![Action::RequireAuth { who: creator }])
    }

    /// Create an invoice with default options from a saved template.
    pub fn create_from_template(
        &mut self,
        now: u64,
        creator: Address,
        name: String,
        deadline: u64,
        governance_approved: bool,
    ) -> (r: Result<(u64, Vec<Action>), SplitError>)
        ensures
            match find_template(old(self)@.templates, creator, name@, old(self)@.templates.len()) {
                None => r == Err::<(u64, Vec<Action>), SplitError>(SplitError::TemplateNotFound) && final(self)@ == old(self)@,
                Some(i) => {
                    let tv = old(self)@.templates[i];
                    match create_error(old(self)@, now, creator, tv.recipients, tv.amounts, deadline, plain_terms_view(), governance_approved) {
                        Some(e) => r == Err::<(u64, Vec<Action>), SplitError>(e) && final(self)@ == old(self)@,
                        None => r is Ok && r->Ok_0.0 == old(self)@.invoice_counter + 1
                            && r->Ok_0.1@ == seq![Action::RequireAuth { who: creator }] + created_actions(old(self)@, creator, tv.amounts, tv.token, plain_terms_view())
                            && final(self)@ == created_state(old(self)@, creator, tv.recipients, tv.amounts, tv.token, deadline, plain_terms_view()),
                    }
                },
            },
    {
        let i = match self.template_index(creator, &name) {
            Some(i) => i,
            None => return Err(SplitError::TemplateNotFound),
        };
        let rs = self.templates[i].template.recipients.clone();
        let am = self.templates[i].template.amounts.clone();
        let token = self.templates[i].template.token;
        assert(self@.templates[i as int] == self.templates@[i as int]@);
        assert(self@.templates[i as int].recipients == rs@);
        assert(self@.templates[i as int].amounts == am@);
        let (id, acts) = match self.create_inner(now, creator, rs, am, token, deadline, plain_terms(), governance_approved) {
            Ok(x) => x,
            Err(e) => return Err(e),
        };
        let mut all = vec![Action::RequireAuth { who: creator }];
        let mut acts = acts;
        all.append(&mut acts);
        Ok((id, all))
    }
}

/// Whether every amount is positive.
pub fn all_positive(v: &Vec<i128>) -> (r: bool)
    ensures
        r == (forall|i: int| 0 <= i < v@.len() ==> v@[i] > 0),
{
    let mut i: usize = 0;
    while i < v.len()
        invariant
            i <= v.len(),
            forall|j: int| 0 <= j < i ==> v@[j] > 0,
        decreases v.len() - i,
    {
        if v[i] <= 0 {
            assert(!(v@[i as int] > 0));
            return false;
        }
        i = i + 1;
    }
    true
}

/// The basis points of a tranche schedule.
pub fn tranche_bps_of(ts: &Vec<Tranche>) -> (r: Vec<u32>)
    ensures
        r@ == tranche_bps(ts@),
{
    let mut bps: Vec<u32> = Vec::new();
    let mut j: usize = 0;
    while j < ts.len()
        invariant
            j <= ts.len(),
            bps@ == tranche_bps(ts@.take(j as int)),
        decreases ts.len() - j,
    {
        bps.push(ts[j].basis_points);
        j = j + 1;
        assert(bps@ =~= tranche_bps(ts@.take(j as int)));
    }
    assert(ts@.take(ts.len() as int) =~= ts@);
    bps
}

pub proof fn lemma_rules_bps_none_persists(rules: Seq<SplitRule>, total: i128, k: nat, m: nat)
    requires
        k <= m,
        rules_bps(rules, total, k) is None,
    ensures
        rules_bps(rules, total, m) is None,
    decreases m - k,
{
    if k < m {
        lemma_rules_bps_none_persists(rules, total, k, (m - 1) as nat);
    }
}

} // verus!
