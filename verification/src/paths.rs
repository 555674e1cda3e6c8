//! Other ways money comes in: an accepted or bridged token swapped through
//! the DEX, pooled payments over several invoices, payments by a delegate
//! and payment channels; and what goes back: early withdrawals. Also the
//! compression of an invoice's payment list.

use vstd::prelude::*;
use crate::types::{Address, AuditAction, AuditEntry, InvoicePayment, InvoiceStatus, Payment};
use crate::invoice::{Invoice, InvoiceView};
use crate::effects::{Action, Event, Notice, SplitError};
use crate::distribution::fits_i128;
use crate::state::{AccountStats, Channel, EntryView, PayerState, SplitContract, SplitView};
use crate::release::{total_of, invoice_total, matches_outcome, exact_outcome, notify_actions, release_dispatch};
use crate::refunds::payer_totals;
use crate::pay::{pay_guarded, with_payer};
use crate::admin::contains_address;

verus! {

broadcast use vstd::std_specs::hash::group_hash_axioms;

/// Whether a fully funded invoice waits for an explicit release after a
/// payment through a delegate: a prerequisite, tranches, stages, a group
/// or co-signers.
pub open spec fn delegate_guarded(s: SplitView, id: u64, inv: InvoiceView) -> bool {
    inv.prerequisite_id is Some || inv.tranches.len() > 0 || inv.release_stages.len() > 0
        || s.invoice_groups.contains_key(id) || inv.co_signers.len() > 0
}

/// Whether a fully funded invoice waits for an explicit release after a
/// payment in an accepted token: as after a delegate's payment, or while
/// the minimum funding amount is not reached.
pub open spec fn token_guarded(s: SplitView, id: u64, inv: InvoiceView) -> bool {
    delegate_guarded(s, id, inv) || (inv.min_funding_amount > 0 && inv.funded < inv.min_funding_amount)
}

/// After a payment brought invoice `id` to `inv`: release it as `actor`
/// where it is fully funded (against `total`) and not `guarded`, else
/// store it.
pub open spec fn settle_credit(s: SplitView, id: u64, inv: InvoiceView, actor: Address, total: i128, guarded: bool, now: u64, gov: bool) -> Result<(SplitView, Seq<Action>), SplitError> {
    if inv.funded >= total && !guarded {
        release_dispatch(s, id, inv, actor, now, gov)
    } else {
        Ok((SplitView { invoices: s.invoices.insert(id, EntryView { invoice: inv, archived: false }), ..s }, Seq::empty()))
    }
}

/// `inv` with a payment of `amount` by `payer` recorded.
pub open spec fn credited(inv: InvoiceView, payer: Address, amount: i128) -> InvoiceView {
    InvoiceView {
        payments: inv.payments.push(Payment { payer, amount, tip: 0 }),
        funded: (inv.funded + amount) as i128,
        ..inv
    }
}

/// `s` with `action` by `actor` logged for invoice `id`.
pub open spec fn logged(s: SplitView, id: u64, action: AuditAction, actor: Address, now: u64) -> SplitView {
    SplitView { audit_logs: s.audit_logs.insert(id, s.log(id).push(AuditEntry { action, actor, timestamp: now })), ..s }
}

/// The checks shared by payments into a pending invoice before its deadline.
pub open spec fn open_invoice(s: SplitView, id: u64, amount: i128, now: u64) -> Result<InvoiceView, SplitError> {
    if s.paused {
        Err(SplitError::ContractIsPaused)
    } else if !s.invoices.contains_key(id) {
        Err(SplitError::InvoiceNotFound)
    } else {
        let inv = s.inv(id);
        if inv.status != InvoiceStatus::Pending {
            Err(SplitError::InvoiceIsNotPending)
        } else if now > inv.deadline {
            Err(SplitError::InvoiceDeadlineHasPassed)
        } else if amount <= 0 {
            Err(SplitError::PaymentAmountMustBePositive)
        } else if inv.tokens.len() == 0 {
            Err(SplitError::NoToken)
        } else {
            Ok(inv)
        }
    }
}

/// The checks of crediting `credit` to `inv`: its total, with the credit
/// no more than the remaining balance.
pub open spec fn credit_room(inv: InvoiceView, credit: i128) -> Result<i128, SplitError> {
    match total_of(inv) {
        Err(e) => Err(e),
        Ok(total) => if !fits_i128(total - inv.funded) {
            Err(SplitError::ArithmeticOverflow)
        } else if credit > total - inv.funded {
            Err(SplitError::PaymentExceedsRemainingBalance)
        } else if !fits_i128(inv.funded + credit) {
            Err(SplitError::ArithmeticOverflow)
        } else {
            Ok(total)
        },
    }
}

/// Outcome of a payment of `amount` of `source_token` by `payer` into
/// invoice `id` with `nonce`. A token other than the invoice's is swapped
/// through the DEX, whose answer is `swap_output`.
pub open spec fn pay_with_token_outcome(s: SplitView, payer: Address, id: u64, source_token: Address, amount: i128, nonce: u64, now: u64, swap_output: i128, gov: bool) -> Result<(SplitView, Seq<Action>), SplitError> {
    match open_invoice(s, id, amount, now) {
        Err(e) => Err(e),
        Ok(inv) => {
            let base = inv.tokens[0];
            let is_base = source_token == base;
            let ps = s.payer(id, payer);
            let me = s.contract_address;
            if !is_base && !inv.accepted_tokens.contains(source_token) {
                Err(SplitError::TokenNotAccepted)
            } else if nonce != ps.nonce {
                Err(SplitError::InvalidNonce)
            } else if ps.nonce == u64::MAX {
                Err(SplitError::ArithmeticOverflow)
            } else if !is_base && s.dex_contract is None {
                Err(SplitError::DexContractNotSet)
            } else {
                let credit = if is_base { amount } else { swap_output };
                let a_in = if is_base {
                    seq![Action::Transfer { token: base, from: payer, to: me, amount }]
                } else {
                    seq![
                        Action::Transfer { token: source_token, from: payer, to: me, amount },
                        Action::DexSwap { dex: s.dex_contract->0, from_token: source_token, to_token: base, amount },
                    ]
                };
                match credit_room(inv, credit) {
                    Err(e) => Err(e),
                    Ok(total) => {
                        let s1 = logged(with_payer(s, id, payer, PayerState { nonce: (ps.nonce + 1) as u64, ..ps }), id, AuditAction::PayWithToken, payer, now);
                        let inv2 = credited(inv, payer, credit);
                        match settle_credit(s1, id, inv2, payer, total, token_guarded(s, id, inv2), now, gov) {
                            Err(e) => Err(e),
                            Ok((s2, ra)) => Ok((
                                s2,
                                seq![Action::RequireAuth { who: payer }] + a_in
                                    + seq![Action::Emit { event: Event::PaymentReceived { invoice_id: id, payer, amount: credit } }]
                                    + notify_actions(inv, id, Notice::Pay) + ra,
                            )),
                        }
                    },
                }
            }
        },
    }
}

/// Outcome of a bridged payment: `source_amount` of `source_token` is
/// swapped through the DEX and its answer `swap_output` credited.
pub open spec fn bridge_pay_outcome(s: SplitView, payer: Address, id: u64, source_token: Address, source_amount: i128, now: u64, swap_output: i128, gov: bool) -> Result<(SplitView, Seq<Action>), SplitError> {
    match open_invoice(s, id, source_amount, now) {
        Err(e) => Err(e),
        Ok(inv) => {
            let me = s.contract_address;
            if s.dex_contract is None {
                Err(SplitError::DexContractNotSet)
            } else {
                match credit_room(inv, swap_output) {
                    Err(e) => Err(e),
                    Ok(total) => {
                        let s1 = logged(s, id, AuditAction::BridgePay, payer, now);
                        let inv2 = credited(inv, payer, swap_output);
                        match settle_credit(s1, id, inv2, payer, total, pay_guarded(s, id, inv2), now, gov) {
                            Err(e) => Err(e),
                            Ok((s2, ra)) => Ok((
                                s2,
                                seq![
                                    Action::RequireAuth { who: payer },
                                    Action::Transfer { token: source_token, from: payer, to: me, amount: source_amount },
                                    Action::DexSwap { dex: s.dex_contract->0, from_token: source_token, to_token: inv.tokens[0], amount: source_amount },
                                    Action::Emit { event: Event::PaymentReceived { invoice_id: id, payer, amount: swap_output } },
                                ] + notify_actions(inv, id, Notice::Pay) + ra,
                            )),
                        }
                    },
                }
            }
        },
    }
}

/// Outcome of a payment of `amount` by `delegate` on behalf of
/// `beneficiary`, who is recorded as the payer.
pub open spec fn delegate_pay_outcome(s: SplitView, delegate: Address, beneficiary: Address, id: u64, amount: i128, now: u64, gov: bool) -> Result<(SplitView, Seq<Action>), SplitError> {
    let ds = if s.pay_delegates.contains_key(beneficiary.0) { s.pay_delegates[beneficiary.0] } else { Seq::empty() };
    if s.paused {
        Err(SplitError::ContractIsPaused)
    } else if !ds.contains(delegate) {
        Err(SplitError::NotAuthorised)
    } else {
        match open_invoice(s, id, amount, now) {
            Err(e) => Err(e),
            Ok(inv) => match credit_room(inv, amount) {
                Err(e) => Err(e),
                Ok(total) => {
                    let s1 = logged(s, id, AuditAction::DelegatePay, delegate, now);
                    let inv2 = credited(inv, beneficiary, amount);
                    match settle_credit(s1, id, inv2, delegate, total, delegate_guarded(s, id, inv2), now, gov) {
                        Err(e) => Err(e),
                        Ok((s2, ra)) => Ok((
                            s2,
                            seq![
                                Action::RequireAuth { who: delegate },
                                Action::Transfer { token: inv.tokens[0], from: delegate, to: s.contract_address, amount },
                                Action::Emit { event: Event::PaymentReceived { invoice_id: id, payer: beneficiary, amount } },
                            ] + notify_actions(inv, id, Notice::Pay) + ra,
                        )),
                    }
                },
            },
        }
    }
}

/// Sum of the amounts of the first `k` entries of a pooled payment.
pub open spec fn pooled_sum(ps: Seq<InvoicePayment>, k: nat) -> int
    decreases k,
{
    if k == 0 {
        0
    } else {
        pooled_sum(ps, (k - 1) as nat) + ps[k - 1].amount
    }
}

/// Sum of the amounts of the first `k` entries of a pooled payment that go
/// to invoice `id`.
pub open spec fn pooled_for(ps: Seq<InvoicePayment>, id: u64, k: nat) -> int
    decreases k,
{
    if k == 0 {
        0
    } else {
        pooled_for(ps, id, (k - 1) as nat) + if ps[k - 1].invoice_id == id { ps[k - 1].amount as int } else { 0 }
    }
}

/// The checks of the first `k` entries of a pooled payment against their
/// invoices as stored, each invoice with what the earlier entries already
/// bring it, and their sum.
pub open spec fn pool_total(s: SplitView, token: Address, ps: Seq<InvoicePayment>, now: u64, k: nat) -> Result<i128, SplitError>
    decreases k,
{
    if k == 0 {
        Ok(0i128)
    } else {
        match pool_total(s, token, ps, now, (k - 1) as nat) {
            Err(e) => Err(e),
            Ok(sum) => {
                let p = ps[k - 1];
                if !s.invoices.contains_key(p.invoice_id) {
                    Err(SplitError::InvoiceNotFound)
                } else {
                    let inv = s.inv(p.invoice_id);
                    if inv.status != InvoiceStatus::Pending {
                        Err(SplitError::InvoiceIsNotPending)
                    } else if now > inv.deadline {
                        Err(SplitError::InvoiceDeadlineHasPassed)
                    } else if p.amount <= 0 {
                        Err(SplitError::PaymentAmountMustBePositive)
                    } else {
                        match total_of(inv) {
                            Err(e) => Err(e),
                            Ok(t) => if !fits_i128(inv.funded + pooled_for(ps, p.invoice_id, (k - 1) as nat) + p.amount) {
                                Err(SplitError::ArithmeticOverflow)
                            } else if inv.funded + pooled_for(ps, p.invoice_id, (k - 1) as nat) + p.amount > t {
                                Err(SplitError::PaymentExceedsRemainingBalance)
                            } else if inv.tokens.len() == 0 {
                                Err(SplitError::NoToken)
                            } else if inv.tokens[0] != token {
                                Err(SplitError::AllInvoicesMustUseTheSameToken)
                            } else if !fits_i128(sum + p.amount) {
                                Err(SplitError::ArithmeticOverflow)
                            } else {
                                Ok((sum + p.amount) as i128)
                            },
                        }
                    }
                }
            },
        }
    }
}

/// The crediting of one entry `p` of a pooled payment.
#[verifier::opaque]
pub open spec fn pool_step(s1: SplitView, payer: Address, p: InvoicePayment, now: u64, gov: bool) -> Result<(SplitView, Seq<Action>), SplitError> {
    if !s1.invoices.contains_key(p.invoice_id) {
        Err(SplitError::InvoiceNotFound)
    } else {
        let inv = s1.inv(p.invoice_id);
        if !fits_i128(inv.funded + p.amount) {
            Err(SplitError::ArithmeticOverflow)
        } else {
            let inv2 = credited(inv, payer, p.amount);
            match total_of(inv2) {
                Err(e) => Err(e),
                Ok(total) => match settle_credit(logged(s1, p.invoice_id, AuditAction::PoolPay, payer, now), p.invoice_id, inv2, payer, total, pay_guarded(s1, p.invoice_id, inv2), now, gov) {
                    Err(e) => Err(e),
                    Ok((s2, ra)) => Ok((
                        s2,
                        seq![Action::Emit { event: Event::PaymentReceived { invoice_id: p.invoice_id, payer, amount: p.amount } }] + ra,
                    )),
                },
            }
        }
    }
}

/// The crediting of the first `k` entries of a pooled payment, one after
/// the other, each invoice released as it becomes fully funded.
pub open spec fn pool_credit(s: SplitView, payer: Address, ps: Seq<InvoicePayment>, now: u64, gov: bool, k: nat) -> Result<(SplitView, Seq<Action>), SplitError>
    decreases k,
{
    if k == 0 {
        Ok((s, Seq::empty()))
    } else {
        match pool_credit(s, payer, ps, now, gov, (k - 1) as nat) {
            Err(e) => Err(e),
            Ok((s1, acts)) => match pool_step(s1, payer, ps[k - 1], now, gov) {
                Err(e) => Err(e),
                Ok((s2, a)) => Ok((s2, acts + a)),
            },
        }
    }
}

/// Outcome of a pooled payment by `payer`: one transfer of the sum, then
/// each invoice credited in turn. All invoices use the first one's token.
pub open spec fn pool_pay_outcome(s: SplitView, payer: Address, ps: Seq<InvoicePayment>, now: u64, gov: bool) -> Result<(SplitView, Seq<Action>), SplitError> {
    if s.paused {
        Err(SplitError::ContractIsPaused)
    } else if ps.len() == 0 {
        Err(SplitError::PaymentsMustNotBeEmpty)
    } else if !s.invoices.contains_key(ps[0].invoice_id) {
        Err(SplitError::InvoiceNotFound)
    } else if s.inv(ps[0].invoice_id).tokens.len() == 0 {
        Err(SplitError::NoToken)
    } else {
        let token = s.inv(ps[0].invoice_id).tokens[0];
        match pool_total(s, token, ps, now, ps.len()) {
            Err(e) => Err(e),
            Ok(sum) => match pool_credit(s, payer, ps, now, gov, ps.len()) {
                Err(e) => Err(e),
                Ok((s2, acts)) => Ok((
                    s2,
                    seq![
                        Action::RequireAuth { who: payer },
                        Action::Transfer { token, from: payer, to: s.contract_address, amount: sum },
                    ] + acts,
                )),
            },
        }
    }
}

impl SplitContract {
    /// After a payment brought invoice `id` to `inv`; see `settle_credit`.
    pub(crate) fn settle_after_credit(&mut self, id: u64, inv: Invoice, actor: Address, total: i128, guarded: bool, now: u64, gov: bool) -> (r: Result<Vec<Action>, SplitError>)
        ensures
            matches_outcome(r, final(self)@, settle_credit(old(self)@, id, inv@, actor, total, guarded, now, gov)),
    {
        if inv.funded >= total && !guarded {
            self.dispatch_release(id, inv, actor, now, gov)
        } else {
            self.put_invoice(id, inv, false);
            Ok(Vec::new())
        }
    }

    /// The checks shared by payments; see `open_invoice`.
    fn open_invoice_of(&self, id: u64, amount: i128, now: u64) -> (r: Result<Invoice, SplitError>)
        ensures
            match (r, open_invoice(self@, id, amount, now)) {
                (Ok(inv), Ok(si)) => inv@ == si,
                (Err(e), Err(se)) => e == se,
                _ => false,
            },
    {
        if self.paused {
            return Err(SplitError::ContractIsPaused);
        }
        let inv = match self.load_invoice(id) {
            Ok(i) => i,
            Err(e) => return Err(e),
        };
        if inv.status != InvoiceStatus::Pending {
            return Err(SplitError::InvoiceIsNotPending);
        }
        if now > inv.deadline {
            return Err(SplitError::InvoiceDeadlineHasPassed);
        }
        if amount <= 0 {
            return Err(SplitError::PaymentAmountMustBePositive);
        }
        if inv.tokens.len() == 0 {
            return Err(SplitError::NoToken);
        }
        Ok(inv)
    }

    /// Whether a fully funded `inv` waits for an explicit release after a
    /// payment through a delegate; see `delegate_guarded`.
    fn delegate_guarded_of(&self, id: u64, inv: &Invoice) -> (r: bool)
        ensures
            r == delegate_guarded(self@, id, inv@),
    {
        inv.prerequisite_id.is_some() || inv.tranches.len() > 0 || inv.release_stages.len() > 0
            || self.invoice_groups.contains_key(&id) || inv.co_signers.len() > 0
    }

    /// Whether a fully funded `inv` waits for an explicit release after a
    /// payment; see `pay_guarded`.
    pub(crate) fn pay_guarded_of(&self, id: u64, inv: &Invoice) -> (r: bool)
        ensures
            r == pay_guarded(self@, id, inv@),
    {
        self.delegate_guarded_of(id, inv)
            || (inv.oracle_address.is_some() && !inv.condition_met)
            || (inv.min_funding_amount > 0 && inv.funded < inv.min_funding_amount)
    }
}

/// The checks of crediting; see `credit_room`.
pub fn credit_room_of(inv: &Invoice, credit: i128) -> (r: Result<i128, SplitError>)
    ensures
        r == credit_room(inv@, credit),
{
    let total = match invoice_total(inv) {
        Ok(t) => t,
        Err(e) => return Err(e),
    };
    let remaining = match total.checked_sub(inv.funded) {
        Some(x) => x,
        None => return Err(SplitError::ArithmeticOverflow),
    };
    if credit > remaining {
        return Err(SplitError::PaymentExceedsRemainingBalance);
    }
    if inv.funded.checked_add(credit).is_none() {
        return Err(SplitError::ArithmeticOverflow);
    }
    Ok(total)
}

/// `inv` with a payment recorded; see `credited`.
pub fn credit_of(inv: Invoice, payer: Address, amount: i128) -> (r: Invoice)
    requires
        fits_i128(inv@.funded + amount),
    ensures
        r@ == credited(inv@, payer, amount),
{
    let mut m = inv;
    m.payments.push(Payment { payer, amount, tip: 0 });
    m.funded = m.funded + amount;
    m
}

proof fn lemma_pooled_sum_grows(ps: Seq<InvoicePayment>, j: nat, k: nat)
    requires
        j <= k <= ps.len(),
        forall|i: int| 0 <= i < k ==> (#[trigger] ps[i]).amount > 0,
    ensures
        pooled_sum(ps, j) <= pooled_sum(ps, k),
    decreases k - j,
{
    if j < k {
        lemma_pooled_sum_grows(ps, j, (k - 1) as nat);
    }
}

/// Checks of a pooled payment that go through sum its amounts, all positive.
proof fn lemma_pool_total_ok(s: SplitView, token: Address, ps: Seq<InvoicePayment>, now: u64, k: nat)
    requires
        k <= ps.len(),
        pool_total(s, token, ps, now, k) is Ok,
    ensures
        pool_total(s, token, ps, now, k)->Ok_0 == pooled_sum(ps, k),
        forall|j: int| 0 <= j < k ==> (#[trigger] ps[j]).amount > 0,
    decreases k,
{
    if k > 0 {
        lemma_pool_total_ok(s, token, ps, now, (k - 1) as nat);
    }
}

pub proof fn lemma_pool_total_err_persists(s: SplitView, token: Address, ps: Seq<InvoicePayment>, now: u64, k: nat, n: nat)
    requires
        k <= n,
        pool_total(s, token, ps, now, k) is Err,
    ensures
        pool_total(s, token, ps, now, n) == pool_total(s, token, ps, now, k),
    decreases n - k,
{
    if k < n {
        lemma_pool_total_err_persists(s, token, ps, now, k, (n - 1) as nat);
    }
}

pub proof fn lemma_pool_credit_err_persists(s: SplitView, payer: Address, ps: Seq<InvoicePayment>, now: u64, gov: bool, k: nat, n: nat)
    requires
        k <= n,
        pool_credit(s, payer, ps, now, gov, k) is Err,
    ensures
        pool_credit(s, payer, ps, now, gov, n) == pool_credit(s, payer, ps, now, gov, k),
    decreases n - k,
{
    if k < n {
        lemma_pool_credit_err_persists(s, payer, ps, now, gov, k, (n - 1) as nat);
    }
}

impl SplitContract {
    /// Pay `amount` of `source_token` into invoice `invoice_id` with the
    /// payer's next `nonce`: the invoice's token directly, an accepted token
    /// through the DEX, whose answer is `swap_output`. A failed call changes
    /// nothing.
    pub fn pay_with_token(&mut self, payer: Address, invoice_id: u64, source_token: Address, amount: i128, nonce: u64, now: u64, swap_output: i128, governance_approved: bool) -> (r: Result<Vec<Action>, SplitError>)
        ensures
            exact_outcome(r, old(self)@, final(self)@, pay_with_token_outcome(old(self)@, payer, invoice_id, source_token, amount, nonce, now, swap_output, governance_approved)),
    {
        let saved = self.snapshot();
        let r = self.pay_with_token_attempt(payer, invoice_id, source_token, amount, nonce, now, swap_output, governance_approved);
        if r.is_err() {
            *self = saved;
        }
        r
    }

    /// `pay_with_token` up to the point where a failure is rolled back.
    fn pay_with_token_attempt(&mut self, payer: Address, invoice_id: u64, source_token: Address, amount: i128, nonce: u64, now: u64, swap_output: i128, governance_approved: bool) -> (r: Result<Vec<Action>, SplitError>)
        ensures
            matches_outcome(r, final(self)@, pay_with_token_outcome(old(self)@, payer, invoice_id, source_token, amount, nonce, now, swap_output, governance_approved)),
    {
        let inv = match self.open_invoice_of(invoice_id, amount, now) {
            Ok(i) => i,
            Err(e) => return Err(e),
        };
        let base = inv.tokens[0];
        let is_base = source_token == base;
        let ps = self.payer_state_of(invoice_id, payer);
        let me = self.contract_address;
        if !is_base && !contains_address(&inv.accepted_tokens, source_token) {
            return Err(SplitError::TokenNotAccepted);
        }
        if nonce != ps.nonce {
            return Err(SplitError::InvalidNonce);
        }
        if ps.nonce == u64::MAX {
            return Err(SplitError::ArithmeticOverflow);
        }
        if !is_base && self.dex_contract.is_none() {
            return Err(SplitError::DexContractNotSet);
        }
        let credit = if is_base { amount } else { swap_output };
        let total = match credit_room_of(&inv, credit) {
            Ok(t) => t,
            Err(e) => return Err(e),
        };
        let mut acts: Vec<Action> = Vec::new();
        acts.push(Action::RequireAuth { who: payer });
        if is_base {
            acts.push(Action::Transfer { token: base, from: payer, to: me, amount });
        } else {
            acts.push(Action::Transfer { token: source_token, from: payer, to: me, amount });
            acts.push(Action::DexSwap { dex: self.dex_contract.unwrap(), from_token: source_token, to_token: base, amount });
        }
        acts.push(Action::Emit { event: Event::PaymentReceived { invoice_id, payer, amount: credit } });
        match inv.notification_contract {
            Some(c) => {
                acts.push(Action::Notify { contract: c, invoice_id, notice: Notice::Pay });
            },
            None => {},
        }
        let ghost inv0 = inv@;
        let inv2 = credit_of(inv, payer, credit);
        let guarded = self.delegate_guarded_of(invoice_id, &inv2)
            || (inv2.min_funding_amount > 0 && inv2.funded < inv2.min_funding_amount);
        assert(guarded == token_guarded(old(self)@, invoice_id, inv2@));
        self.set_payer_state(invoice_id, payer, PayerState { nonce: ps.nonce + 1, ..ps });
        self.append_audit(invoice_id, AuditAction::PayWithToken, payer, now);
        let ghost g1 = acts@;
        let ghost s1 = self@;
        let mut ra = match self.settle_after_credit(invoice_id, inv2, payer, total, guarded, now, governance_approved) {
            Ok(a) => a,
            Err(e) => return Err(e),
        };
        let ghost g2 = ra@;
        acts.append(&mut ra);
        proof {
            let a_in = if is_base {
                seq![Action::Transfer { token: base, from: payer, to: me, amount }]
            } else {
                seq![
                    Action::Transfer { token: source_token, from: payer, to: me, amount },
                    Action::DexSwap { dex: old(self)@.dex_contract->0, from_token: source_token, to_token: base, amount },
                ]
            };
            assert(g1 =~= seq![Action::RequireAuth { who: payer }] + a_in
                + seq![Action::Emit { event: Event::PaymentReceived { invoice_id, payer, amount: credit } }]
                + notify_actions(inv0, invoice_id, Notice::Pay));
            assert(acts@ =~= g1 + g2);
        }
        Ok(acts)
    }

    /// Pay into invoice `invoice_id` with `source_amount` of another token,
    /// swapped through the DEX; its answer `swap_output` is credited. A failed
    /// call changes nothing.
    pub fn bridge_pay(&mut self, payer: Address, invoice_id: u64, source_token: Address, source_amount: i128, now: u64, swap_output: i128, governance_approved: bool) -> (r: Result<Vec<Action>, SplitError>)
        ensures
            exact_outcome(r, old(self)@, final(self)@, bridge_pay_outcome(old(self)@, payer, invoice_id, source_token, source_amount, now, swap_output, governance_approved)),
    {
        let saved = self.snapshot();
        let r = self.bridge_pay_attempt(payer, invoice_id, source_token, source_amount, now, swap_output, governance_approved);
        if r.is_err() {
            *self = saved;
        }
        r
    }

    /// `bridge_pay` up to the point where a failure is rolled back.
    fn bridge_pay_attempt(&mut self, payer: Address, invoice_id: u64, source_token: Address, source_amount: i128, now: u64, swap_output: i128, governance_approved: bool) -> (r: Result<Vec<Action>, SplitError>)
        ensures
            matches_outcome(r, final(self)@, bridge_pay_outcome(old(self)@, payer, invoice_id, source_token, source_amount, now, swap_output, governance_approved)),
    {
        let inv = match self.open_invoice_of(invoice_id, source_amount, now) {
            Ok(i) => i,
            Err(e) => return Err(e),
        };
        let me = self.contract_address;
        let dex = match self.dex_contract {
            Some(d) => d,
            None => return Err(SplitError::DexContractNotSet),
        };
        let total = match credit_room_of(&inv, swap_output) {
            Ok(t) => t,
            Err(e) => return Err(e),
        };
        let mut acts: Vec<Action> = Vec::new();
        acts.push(Action::RequireAuth { who: payer });
        acts.push(Action::Transfer { token: source_token, from: payer, to: me, amount: source_amount });
        acts.push(Action::DexSwap { dex, from_token: source_token, to_token: inv.tokens[0], amount: source_amount });
        acts.push(Action::Emit { event: Event::PaymentReceived { invoice_id, payer, amount: swap_output } });
        match inv.notification_contract {
            Some(c) => {
                acts.push(Action::Notify { contract: c, invoice_id, notice: Notice::Pay });
            },
            None => {},
        }
        let ghost inv0 = inv@;
        let inv2 = credit_of(inv, payer, swap_output);
        let guarded = self.pay_guarded_of(invoice_id, &inv2);
        self.append_audit(invoice_id, AuditAction::BridgePay, payer, now);
        let ghost g1 = acts@;
        let mut ra = match self.settle_after_credit(invoice_id, inv2, payer, total, guarded, now, governance_approved) {
            Ok(a) => a,
            Err(e) => return Err(e),
        };
        let ghost g2 = ra@;
        acts.append(&mut ra);
        proof {
            assert(g1 =~= seq![
                Action::RequireAuth { who: payer },
                Action::Transfer { token: source_token, from: payer, to: me, amount: source_amount },
                Action::DexSwap { dex, from_token: source_token, to_token: inv0.tokens[0], amount: source_amount },
                Action::Emit { event: Event::PaymentReceived { invoice_id, payer, amount: swap_output } },
            ] + notify_actions(inv0, invoice_id, Notice::Pay));
            assert(acts@ =~= g1 + g2);
        }
        Ok(acts)
    }

    /// Pay `amount` into invoice `invoice_id` as an authorised delegate of
    /// `beneficiary`, who is recorded as the payer. A failed call changes
    /// nothing.
    pub fn delegate_pay(&mut self, delegate: Address, beneficiary: Address, invoice_id: u64, amount: i128, now: u64, governance_approved: bool) -> (r: Result<Vec<Action>, SplitError>)
        ensures
            exact_outcome(r, old(self)@, final(self)@, delegate_pay_outcome(old(self)@, delegate, beneficiary, invoice_id, amount, now, governance_approved)),
    {
        let saved = self.snapshot();
        let r = self.delegate_pay_attempt(delegate, beneficiary, invoice_id, amount, now, governance_approved);
        if r.is_err() {
            *self = saved;
        }
        r
    }

    /// `delegate_pay` up to the point where a failure is rolled back.
    fn delegate_pay_attempt(&mut self, delegate: Address, beneficiary: Address, invoice_id: u64, amount: i128, now: u64, governance_approved: bool) -> (r: Result<Vec<Action>, SplitError>)
        ensures
            matches_outcome(r, final(self)@, delegate_pay_outcome(old(self)@, delegate, beneficiary, invoice_id, amount, now, governance_approved)),
    {
        if self.paused {
            return Err(SplitError::ContractIsPaused);
        }
        let authorised = match self.pay_delegates.get(&beneficiary.0) {
            Some(ds) => contains_address(ds, delegate),
            None => false,
        };
        if !authorised {
            return Err(SplitError::NotAuthorised);
        }
        let inv = match self.open_invoice_of(invoice_id, amount, now) {
            Ok(i) => i,
            Err(e) => return Err(e),
        };
        let total = match credit_room_of(&inv, amount) {
            Ok(t) => t,
            Err(e) => return Err(e),
        };
        let mut acts: Vec<Action> = Vec::new();
        acts.push(Action::RequireAuth { who: delegate });
        acts.push(Action::Transfer { token: inv.tokens[0], from: delegate, to: self.contract_address, amount });
        acts.push(Action::Emit { event: Event::PaymentReceived { invoice_id, payer: beneficiary, amount } });
        match inv.notification_contract {
            Some(c) => {
                acts.push(Action::Notify { contract: c, invoice_id, notice: Notice::Pay });
            },
            None => {},
        }
        let ghost inv0 = inv@;
        let me = self.contract_address;
        let inv2 = credit_of(inv, beneficiary, amount);
        let guarded = self.delegate_guarded_of(invoice_id, &inv2);
        self.append_audit(invoice_id, AuditAction::DelegatePay, delegate, now);
        let ghost g1 = acts@;
        let mut ra = match self.settle_after_credit(invoice_id, inv2, delegate, total, guarded, now, governance_approved) {
            Ok(a) => a,
            Err(e) => return Err(e),
        };
        let ghost g2 = ra@;
        acts.append(&mut ra);
        proof {
            assert(g1 =~= seq![
                Action::RequireAuth { who: delegate },
                Action::Transfer { token: inv0.tokens[0], from: delegate, to: me, amount },
                Action::Emit { event: Event::PaymentReceived { invoice_id, payer: beneficiary, amount } },
            ] + notify_actions(inv0, invoice_id, Notice::Pay));
            assert(acts@ =~= g1 + g2);
        }
        Ok(acts)
    }

    /// What the first `k` entries of `ps` bring invoice `id`; see `pooled_for`.
    fn pooled_for_of(ps: &Vec<InvoicePayment>, id: u64, k: usize) -> (r: i128)
        requires
            k <= ps@.len(),
            forall|j: int| 0 <= j < k ==> (#[trigger] ps@[j]).amount > 0,
            pooled_sum(ps@, k as nat) <= i128::MAX,
        ensures
            r == pooled_for(ps@, id, k as nat),
            0 <= r,
    {
        let mut acc: i128 = 0;
        let mut j: usize = 0;
        while j < k
            invariant
                j <= k,
                k <= ps@.len(),
                forall|i: int| 0 <= i < k ==> (#[trigger] ps@[i]).amount > 0,
                pooled_sum(ps@, k as nat) <= i128::MAX,
                acc == pooled_for(ps@, id, j as nat),
                0 <= pooled_for(ps@, id, j as nat) <= pooled_sum(ps@, j as nat),
            decreases k - j,
        {
            proof { lemma_pooled_sum_grows(ps@, (j + 1) as nat, k as nat); }
            let p = ps[j];
            if p.invoice_id == id {
                acc = acc + p.amount;
            }
            j = j + 1;
        }
        acc
    }

    /// The sum of a pooled payment; see `pool_total`.
    fn pool_total_of(&self, token: Address, ps: &Vec<InvoicePayment>, now: u64) -> (r: Result<i128, SplitError>)
        ensures
            r == pool_total(self@, token, ps@, now, ps@.len()),
    {
        let mut sum: i128 = 0;
        let mut k: usize = 0;
        while k < ps.len()
            invariant
                k <= ps.len(),
                pool_total(self@, token, ps@, now, k as nat) == Ok::<i128, SplitError>(sum),
            decreases ps.len() - k,
        {
            let p = ps[k];
            let step: Result<i128, SplitError> = match self.load_invoice(p.invoice_id) {
                Err(e) => Err(e),
                Ok(inv) => {
                    if inv.status != InvoiceStatus::Pending {
                        Err(SplitError::InvoiceIsNotPending)
                    } else if now > inv.deadline {
                        Err(SplitError::InvoiceDeadlineHasPassed)
                    } else if p.amount <= 0 {
                        Err(SplitError::PaymentAmountMustBePositive)
                    } else {
                        proof { lemma_pool_total_ok(self@, token, ps@, now, k as nat); }
                        let prior = Self::pooled_for_of(ps, p.invoice_id, k);
                        let brought = match inv.funded.checked_add(prior) {
                            None => None,
                            Some(b) => b.checked_add(p.amount),
                        };
                        match invoice_total(&inv) {
                            Err(e) => Err(e),
                            Ok(t) => match brought {
                                None => Err(SplitError::ArithmeticOverflow),
                                Some(f) => if f > t {
                                    Err(SplitError::PaymentExceedsRemainingBalance)
                                } else if inv.tokens.len() == 0 {
                                    Err(SplitError::NoToken)
                                } else if inv.tokens[0] != token {
                                    Err(SplitError::AllInvoicesMustUseTheSameToken)
                                } else {
                                    match sum.checked_add(p.amount) {
                                        None => Err(SplitError::ArithmeticOverflow),
                                        Some(x) => Ok(x),
                                    }
                                },
                            },
                        }
                    }
                },
            };
            match step {
                Ok(x) => {
                    sum = x;
                },
                Err(e) => {
                    proof { lemma_pool_total_err_persists(self@, token, ps@, now, (k + 1) as nat, ps@.len()); }
                    return Err(e);
                },
            }
            k = k + 1;
        }
        Ok(sum)
    }

    /// One entry of a pooled payment credited; see the step of `pool_credit`.
    fn pool_credit_one(&mut self, payer: Address, p: InvoicePayment, now: u64, gov: bool) -> (r: Result<Vec<Action>, SplitError>)
        ensures
            matches_outcome(r, final(self)@, pool_step(old(self)@, payer, p, now, gov)),
    {
        proof { reveal(pool_step); }
        let inv = match self.load_invoice(p.invoice_id) {
            Ok(i) => i,
            Err(e) => return Err(e),
        };
        if inv.funded.checked_add(p.amount).is_none() {
            return Err(SplitError::ArithmeticOverflow);
        }
        let inv2 = credit_of(inv, payer, p.amount);
        let total = match invoice_total(&inv2) {
            Ok(t) => t,
            Err(e) => return Err(e),
        };
        let guarded = self.pay_guarded_of(p.invoice_id, &inv2);
        self.append_audit(p.invoice_id, AuditAction::PoolPay, payer, now);
        let mut acts: Vec<Action> = Vec::new();
        acts.push(Action::Emit { event: Event::PaymentReceived { invoice_id: p.invoice_id, payer, amount: p.amount } });
        let mut ra = match self.settle_after_credit(p.invoice_id, inv2, payer, total, guarded, now, gov) {
            Ok(a) => a,
            Err(e) => return Err(e),
        };
        let ghost (g1, g2) = (acts@, ra@);
        acts.append(&mut ra);
        assert(acts@ =~= g1 + g2);
        Ok(acts)
    }

    /// Pay several invoices that share a token with one transfer of the sum;
    /// each is credited in turn and released once fully funded where it is not
    /// guarded. A failed call changes nothing.
    pub fn pool_pay(&mut self, payer: Address, payments: Vec<InvoicePayment>, now: u64, governance_approved: bool) -> (r: Result<Vec<Action>, SplitError>)
        ensures
            exact_outcome(r, old(self)@, final(self)@, pool_pay_outcome(old(self)@, payer, payments@, now, governance_approved)),
    {
        let saved = self.snapshot();
        let r = self.pool_pay_attempt(payer, payments, now, governance_approved);
        if r.is_err() {
            *self = saved;
        }
        r
    }

    /// `pool_pay` up to the point where a failure is rolled back.
    fn pool_pay_attempt(&mut self, payer: Address, payments: Vec<InvoicePayment>, now: u64, governance_approved: bool) -> (r: Result<Vec<Action>, SplitError>)
        ensures
            matches_outcome(r, final(self)@, pool_pay_outcome(old(self)@, payer, payments@, now, governance_approved)),
    {
        if self.paused {
            return Err(SplitError::ContractIsPaused);
        }
        if payments.len() == 0 {
            return Err(SplitError::PaymentsMustNotBeEmpty);
        }
        let first = match self.load_invoice(payments[0].invoice_id) {
            Ok(i) => i,
            Err(e) => return Err(e),
        };
        if first.tokens.len() == 0 {
            return Err(SplitError::NoToken);
        }
        let token = first.tokens[0];
        let sum = match self.pool_total_of(token, &payments, now) {
            Ok(x) => x,
            Err(e) => return Err(e),
        };
        let ghost s0 = self@;
        let me = self.contract_address;
        let mut acts: Vec<Action> = Vec::new();
        let mut k: usize = 0;
        while k < payments.len()
            invariant
                k <= payments.len(),
                s0 == old(self)@,
                pool_pay_outcome(s0, payer, payments@, now, governance_approved) == (match pool_credit(s0, payer, payments@, now, governance_approved, payments@.len()) {
                    Err(e) => Err(e),
                    Ok((s2, a)) => Ok((s2, seq![
                        Action::RequireAuth { who: payer },
                        Action::Transfer { token, from: payer, to: me, amount: sum },
                    ] + a)),
                }),
                pool_credit(s0, payer, payments@, now, governance_approved, k as nat) == Ok::<(SplitView, Seq<Action>), SplitError>((self@, acts@)),
            decreases payments.len() - k,
        {
            let p = payments[k];
            match self.pool_credit_one(payer, p, now, governance_approved) {
                Ok(mut a) => {
                    let ghost (g1, g2) = (acts@, a@);
                    acts.append(&mut a);
                    assert(acts@ =~= g1 + g2);
                },
                Err(e) => {
                    proof { lemma_pool_credit_err_persists(s0, payer, payments@, now, governance_approved, (k + 1) as nat, payments@.len()); }
                    return Err(e);
                },
            }
            k = k + 1;
        }
        let mut all: Vec<Action> = Vec::new();
        all.push(Action::RequireAuth { who: payer });
        all.push(Action::Transfer { token, from: payer, to: me, amount: sum });
        let ghost g = acts@;
        all.append(&mut acts);
        proof {
            assert(all@ =~= seq![
                Action::RequireAuth { who: payer },
                Action::Transfer { token, from: payer, to: me, amount: sum },
            ] + g);
        }
        Ok(all)
    }
}

/// Outcome of opening (or reopening) a payment channel of `payer` on
/// invoice `id` with `deposit`.
pub open spec fn open_channel_outcome(s: SplitView, payer: Address, id: u64, deposit: i128) -> Result<(SplitView, Seq<Action>), SplitError> {
    if s.paused {
        Err(SplitError::ContractIsPaused)
    } else if deposit <= 0 {
        Err(SplitError::DepositMustBePositive)
    } else if !s.invoices.contains_key(id) {
        Err(SplitError::InvoiceNotFound)
    } else if s.inv(id).status != InvoiceStatus::Pending {
        Err(SplitError::InvoiceIsNotPending)
    } else if s.inv(id).tokens.len() == 0 {
        Err(SplitError::NoToken)
    } else {
        Ok((
            with_payer(s, id, payer, PayerState { channel: Some(Channel { balance: deposit, deposited: deposit }), ..s.payer(id, payer) }),
            seq![
                Action::RequireAuth { who: payer },
                Action::Transfer { token: s.inv(id).tokens[0], from: payer, to: s.contract_address, amount: deposit },
            ],
        ))
    }
}

/// Outcome of spending `amount` from the channel of `payer` on invoice `id`.
pub open spec fn channel_pay_outcome(s: SplitView, payer: Address, id: u64, amount: i128) -> Result<(SplitView, Seq<Action>), SplitError> {
    let ps = s.payer(id, payer);
    if s.paused {
        Err(SplitError::ContractIsPaused)
    } else if amount <= 0 {
        Err(SplitError::AmountMustBePositive)
    } else if ps.channel is None {
        Err(SplitError::ChannelNotFound)
    } else if ps.channel->0.balance < amount {
        Err(SplitError::InsufficientChannelBalance)
    } else {
        Ok((
            with_payer(s, id, payer, PayerState { channel: Some(Channel { balance: (ps.channel->0.balance - amount) as i128, ..ps.channel->0 }), ..ps }),
            seq![Action::RequireAuth { who: payer }],
        ))
    }
}

/// Outcome of closing the channel of `payer` on invoice `id`: what was
/// spent is credited as a payment, what is left goes back to the payer.
pub open spec fn close_channel_outcome(s: SplitView, payer: Address, id: u64, now: u64, gov: bool) -> Result<(SplitView, Seq<Action>), SplitError> {
    let ps = s.payer(id, payer);
    if s.paused {
        Err(SplitError::ContractIsPaused)
    } else if ps.channel is None {
        Err(SplitError::ChannelNotFound)
    } else {
        let c = ps.channel->0;
        let net = c.deposited - c.balance;
        if !fits_i128(net) {
            Err(SplitError::ArithmeticOverflow)
        } else if !s.invoices.contains_key(id) {
            Err(SplitError::InvoiceNotFound)
        } else {
            let inv = s.inv(id);
            let credit: Result<(SplitView, Seq<Action>), SplitError> = if net > 0 {
                if inv.status != InvoiceStatus::Pending {
                    Err(SplitError::InvoiceIsNotPending)
                } else if !fits_i128(inv.funded + net) {
                    Err(SplitError::ArithmeticOverflow)
                } else {
                    let inv2 = credited(inv, payer, net as i128);
                    match total_of(inv2) {
                        Err(e) => Err(e),
                        Ok(total) => match settle_credit(s, id, inv2, payer, total, pay_guarded(s, id, inv2), now, gov) {
                            Err(e) => Err(e),
                            Ok((s2, ra)) => Ok((s2, seq![Action::Emit { event: Event::PaymentReceived { invoice_id: id, payer, amount: net as i128 } }] + ra)),
                        },
                    }
                }
            } else {
                Ok((s, Seq::empty()))
            };
            match credit {
                Err(e) => Err(e),
                Ok((s2, acts)) => if c.balance > 0 && inv.tokens.len() == 0 {
                    Err(SplitError::NoToken)
                } else {
                    Ok((
                        with_payer(s2, id, payer, PayerState { channel: None, ..s2.payer(id, payer) }),
                        seq![Action::RequireAuth { who: payer }] + acts + (if c.balance > 0 {
                            seq![Action::Transfer { token: inv.tokens[0], from: s.contract_address, to: payer, amount: c.balance }]
                        } else {
                            Seq::empty()
                        }),
                    ))
                },
            }
        }
    }
}

/// Sum of the first `k` payments made by `payer`; `None` on overflow.
pub open spec fn paid_by(ps: Seq<Payment>, payer: Address, k: nat) -> Option<i128>
    decreases k,
{
    if k == 0 {
        Some(0i128)
    } else {
        match paid_by(ps, payer, (k - 1) as nat) {
            None => None,
            Some(t) => if ps[k - 1].payer != payer {
                Some(t)
            } else if fits_i128(t + ps[k - 1].amount) {
                Some((t + ps[k - 1].amount) as i128)
            } else {
                None
            },
        }
    }
}

/// The first `k` payments except those of `payer`.
pub open spec fn without_payer(ps: Seq<Payment>, payer: Address, k: nat) -> Seq<Payment>
    decreases k,
{
    if k == 0 {
        Seq::empty()
    } else {
        let r = without_payer(ps, payer, (k - 1) as nat);
        if ps[k - 1].payer != payer { r.push(ps[k - 1]) } else { r }
    }
}

/// Outcome of an early withdrawal at `now`, before the deadline, by `payer`
/// of everything it paid into invoice `id`; its credit score drops by 2
/// (not below 0).
pub open spec fn withdraw_outcome(s: SplitView, id: u64, payer: Address, now: u64) -> Result<(SplitView, Seq<Action>), SplitError> {
    if !s.invoices.contains_key(id) {
        Err(SplitError::InvoiceNotFound)
    } else {
        let inv = s.inv(id);
        if !inv.allow_early_withdrawal {
            Err(SplitError::EarlyWithdrawalNotAllowed)
        } else if inv.status != InvoiceStatus::Pending {
            Err(SplitError::InvoiceIsNotPending)
        } else if now > inv.deadline {
            Err(SplitError::InvoiceDeadlineHasPassed)
        } else {
            match paid_by(inv.payments, payer, inv.payments.len()) {
                None => Err(SplitError::ArithmeticOverflow),
                Some(t) => if t <= 0 {
                    Err(SplitError::NoContributionsToWithdraw)
                } else if !fits_i128(inv.funded - t) {
                    Err(SplitError::ArithmeticOverflow)
                } else if inv.tokens.len() == 0 {
                    Err(SplitError::NoToken)
                } else {
                    let a = s.account(payer);
                    Ok((
                        SplitView {
                            invoices: s.invoices.insert(id, EntryView {
                                invoice: InvoiceView { payments: without_payer(inv.payments, payer, inv.payments.len()), funded: (inv.funded - t) as i128, ..inv },
                                archived: false,
                            }),
                            accounts: s.accounts.insert(payer.0, AccountStats { credit_score: if a.credit_score >= 2 { (a.credit_score - 2) as u64 } else { 0 }, ..a }),
                            ..s
                        },
                        seq![
                            Action::RequireAuth { who: payer },
                            Action::Transfer { token: inv.tokens[0], from: s.contract_address, to: payer, amount: t },
                        ],
                    ))
                },
            }
        }
    }
}

/// The tips of `ps` as payments, for totalling them per payer.
pub open spec fn tips_as_payments(ps: Seq<Payment>) -> Seq<Payment> {
    Seq::new(ps.len(), |i: int| Payment { payer: ps[i].payer, amount: ps[i].tip, tip: 0 })
}

/// The total of `payer` in a list of per-payer totals, 0 where it has none.
pub open spec fn total_for(l: Seq<(Address, i128)>, payer: Address, i: int) -> i128
    decreases l.len() - i,
{
    if i < 0 || i >= l.len() {
        0
    } else if l[i].0 == payer {
        l[i].1
    } else {
        total_for(l, payer, i + 1)
    }
}

/// One payment per payer, in address order, with its total amount and tip.
pub open spec fn compressed(amounts: Seq<(Address, i128)>, tips: Seq<(Address, i128)>) -> Seq<Payment> {
    Seq::new(amounts.len(), |i: int| Payment { payer: amounts[i].0, amount: amounts[i].1, tip: total_for(tips, amounts[i].0, 0) })
}

/// Outcome of compressing the payments of invoice `id` to one per payer;
/// refused where the funded amount would change.
pub open spec fn compress_outcome(s: SplitView, id: u64) -> Result<(SplitView, Seq<Action>), SplitError> {
    if s.paused {
        Err(SplitError::ContractIsPaused)
    } else if !s.invoices.contains_key(id) {
        Err(SplitError::InvoiceNotFound)
    } else {
        let inv = s.inv(id);
        match (payer_totals(inv.payments, inv.payments.len()), payer_totals(tips_as_payments(inv.payments), inv.payments.len())) {
            (Some(a), Some(t)) => {
                let ps = compressed(a, t);
                let amounts = ps.map_values(|p: Payment| p.amount);
                if !crate::math::running_sums_fit_i128(amounts) {
                    Err(SplitError::ArithmeticOverflow)
                } else if crate::math::sum_i128(amounts) != inv.funded {
                    Err(SplitError::TotalFundedChangedAfterCompression)
                } else {
                    Ok((
                        SplitView {
                            invoices: s.invoices.insert(id, EntryView { invoice: InvoiceView { payments: ps, ..inv }, archived: false }),
                            ..s
                        },
                        Seq::empty(),
                    ))
                }
            },
            _ => Err(SplitError::ArithmeticOverflow),
        }
    }
}

pub proof fn lemma_paid_by_none_persists(ps: Seq<Payment>, payer: Address, k: nat, n: nat)
    requires
        k <= n,
        paid_by(ps, payer, k) is None,
    ensures
        paid_by(ps, payer, n) is None,
    decreases n - k,
{
    if k < n {
        lemma_paid_by_none_persists(ps, payer, k, (n - 1) as nat);
    }
}

/// What `payer` paid; see `paid_by`.
pub fn paid_by_of(ps: &Vec<Payment>, payer: Address) -> (r: Option<i128>)
    ensures
        r == paid_by(ps@, payer, ps@.len()),
{
    let mut t: i128 = 0;
    let mut k: usize = 0;
    while k < ps.len()
        invariant
            k <= ps.len(),
            paid_by(ps@, payer, k as nat) == Some(t),
        decreases ps.len() - k,
    {
        if ps[k].payer == payer {
            match t.checked_add(ps[k].amount) {
                Some(x) => {
                    t = x;
                },
                None => {
                    proof { lemma_paid_by_none_persists(ps@, payer, (k + 1) as nat, ps@.len()); }
                    return None;
                },
            }
        }
        k = k + 1;
    }
    Some(t)
}

/// The payments except those of `payer`; see `without_payer`.
pub fn without_payer_of(ps: &Vec<Payment>, payer: Address) -> (r: Vec<Payment>)
    ensures
        r@ == without_payer(ps@, payer, ps@.len()),
{
    let mut r: Vec<Payment> = Vec::new();
    let mut k: usize = 0;
    while k < ps.len()
        invariant
            k <= ps.len(),
            r@ == without_payer(ps@, payer, k as nat),
        decreases ps.len() - k,
    {
        if ps[k].payer != payer {
            r.push(ps[k]);
        }
        k = k + 1;
    }
    r
}

/// The tips as payments; see `tips_as_payments`.
pub fn tips_as_payments_of(ps: &Vec<Payment>) -> (r: Vec<Payment>)
    ensures
        r@ == tips_as_payments(ps@),
{
    let mut r: Vec<Payment> = Vec::new();
    let mut k: usize = 0;
    while k < ps.len()
        invariant
            k <= ps.len(),
            r@ =~= tips_as_payments(ps@).take(k as int),
        decreases ps.len() - k,
    {
        r.push(Payment { payer: ps[k].payer, amount: ps[k].tip, tip: 0 });
        k = k + 1;
    }
    assert(tips_as_payments(ps@).take(ps@.len() as int) =~= tips_as_payments(ps@));
    r
}

/// The total of `payer`; see `total_for`.
pub fn total_for_of(l: &Vec<(Address, i128)>, payer: Address) -> (r: i128)
    ensures
        r == total_for(l@, payer, 0),
{
    let mut i: usize = 0;
    while i < l.len()
        invariant
            i <= l.len(),
            total_for(l@, payer, i as int) == total_for(l@, payer, 0),
        decreases l.len() - i,
    {
        if l[i].0 == payer {
            return l[i].1;
        }
        i = i + 1;
    }
    0
}

/// One payment per payer; see `compressed`.
pub fn compressed_of(amounts: &Vec<(Address, i128)>, tips: &Vec<(Address, i128)>) -> (r: Vec<Payment>)
    ensures
        r@ == compressed(amounts@, tips@),
{
    let mut r: Vec<Payment> = Vec::new();
    let mut k: usize = 0;
    while k < amounts.len()
        invariant
            k <= amounts.len(),
            r@ =~= compressed(amounts@, tips@).take(k as int),
        decreases amounts.len() - k,
    {
        let (payer, amount) = amounts[k];
        let tip = total_for_of(tips, payer);
        r.push(Payment { payer, amount, tip });
        k = k + 1;
    }
    assert(compressed(amounts@, tips@).take(amounts@.len() as int) =~= compressed(amounts@, tips@));
    r
}

/// The amounts of `ps`.
pub fn payment_amounts(ps: &Vec<Payment>) -> (r: Vec<i128>)
    ensures
        r@ == ps@.map_values(|p: Payment| p.amount),
{
    let mut r: Vec<i128> = Vec::new();
    let mut k: usize = 0;
    while k < ps.len()
        invariant
            k <= ps.len(),
            r@ =~= ps@.map_values(|p: Payment| p.amount).take(k as int),
        decreases ps.len() - k,
    {
        r.push(ps[k].amount);
        k = k + 1;
    }
    assert(ps@.map_values(|p: Payment| p.amount).take(ps@.len() as int) =~= ps@.map_values(|p: Payment| p.amount));
    r
}

impl SplitContract {
    /// Open (or reopen) a payment channel of `payer` on invoice `invoice_id`
    /// with `deposit`.
    pub fn open_channel(&mut self, payer: Address, invoice_id: u64, deposit: i128) -> (r: Result<Vec<Action>, SplitError>)
        ensures
            match open_channel_outcome(old(self)@, payer, invoice_id, deposit) {
                Ok((s2, acts)) => r is Ok && r->Ok_0@ == acts && final(self)@ == s2,
                Err(e) => r == Err::<Vec<Action>, SplitError>(e) && final(self)@ == old(self)@,
            },
    {
        if self.paused {
            return Err(SplitError::ContractIsPaused);
        }
        if deposit <= 0 {
            return Err(SplitError::DepositMustBePositive);
        }
        let inv = match self.load_invoice(invoice_id) {
            Ok(i) => i,
            Err(e) => return Err(e),
        };
        if inv.status != InvoiceStatus::Pending {
            return Err(SplitError::InvoiceIsNotPending);
        }
        if inv.tokens.len() == 0 {
            return Err(SplitError::NoToken);
        }
        let ps = self.payer_state_of(invoice_id, payer);
        self.set_payer_state(invoice_id, payer, PayerState { channel: Some(Channel { balance: deposit, deposited: deposit }), ..ps });
        let mut acts: Vec<Action> = Vec::new();
        acts.push(Action::RequireAuth { who: payer });
        acts.push(Action::Transfer { token: inv.tokens[0], from: payer, to: self.contract_address, amount: deposit });
        Ok(acts)
    }

    /// Spend `amount` from the channel of `payer` on invoice `invoice_id`.
    pub fn channel_pay(&mut self, payer: Address, invoice_id: u64, amount: i128) -> (r: Result<Vec<Action>, SplitError>)
        ensures
            match channel_pay_outcome(old(self)@, payer, invoice_id, amount) {
                Ok((s2, acts)) => r is Ok && r->Ok_0@ == acts && final(self)@ == s2,
                Err(e) => r == Err::<Vec<Action>, SplitError>(e) && final(self)@ == old(self)@,
            },
    {
        if self.paused {
            return Err(SplitError::ContractIsPaused);
        }
        if amount <= 0 {
            return Err(SplitError::AmountMustBePositive);
        }
        let ps = self.payer_state_of(invoice_id, payer);
        let c = match ps.channel {
            Some(c) => c,
            None => return Err(SplitError::ChannelNotFound),
        };
        if c.balance < amount {
            return Err(SplitError::InsufficientChannelBalance);
        }
        self.set_payer_state(invoice_id, payer, PayerState { channel: Some(Channel { balance: c.balance - amount, ..c }), ..ps });
        let mut acts: Vec<Action> = Vec::new();
        acts.push(Action::RequireAuth { who: payer });
        Ok(acts)
    }

    /// Close the channel of `payer` on invoice `invoice_id`: credit what was
    /// spent as a payment and return the rest. A failed call changes nothing.
    pub fn close_channel(&mut self, payer: Address, invoice_id: u64, now: u64, governance_approved: bool) -> (r: Result<Vec<Action>, SplitError>)
        ensures
            exact_outcome(r, old(self)@, final(self)@, close_channel_outcome(old(self)@, payer, invoice_id, now, governance_approved)),
    {
        let saved = self.snapshot();
        let r = self.close_channel_attempt(payer, invoice_id, now, governance_approved);
        if r.is_err() {
            *self = saved;
        }
        r
    }

    /// `close_channel` up to the point where a failure is rolled back.
    fn close_channel_attempt(&mut self, payer: Address, invoice_id: u64, now: u64, governance_approved: bool) -> (r: Result<Vec<Action>, SplitError>)
        ensures
            matches_outcome(r, final(self)@, close_channel_outcome(old(self)@, payer, invoice_id, now, governance_approved)),
    {
        if self.paused {
            return Err(SplitError::ContractIsPaused);
        }
        let ps = self.payer_state_of(invoice_id, payer);
        let c = match ps.channel {
            Some(c) => c,
            None => return Err(SplitError::ChannelNotFound),
        };
        let net = match c.deposited.checked_sub(c.balance) {
            Some(x) => x,
            None => return Err(SplitError::ArithmeticOverflow),
        };
        let inv = match self.load_invoice(invoice_id) {
            Ok(i) => i,
            Err(e) => return Err(e),
        };
        let me = self.contract_address;
        let tokens = crate::invoice::copy_vec(&inv.tokens);
        let mut acts: Vec<Action> = Vec::new();
        acts.push(Action::RequireAuth { who: payer });
        if net > 0 {
            if inv.status != InvoiceStatus::Pending {
                return Err(SplitError::InvoiceIsNotPending);
            }
            if inv.funded.checked_add(net).is_none() {
                return Err(SplitError::ArithmeticOverflow);
            }
            let inv2 = credit_of(inv, payer, net);
            let total = match invoice_total(&inv2) {
                Ok(t) => t,
                Err(e) => return Err(e),
            };
            let guarded = self.pay_guarded_of(invoice_id, &inv2);
            acts.push(Action::Emit { event: Event::PaymentReceived { invoice_id, payer, amount: net } });
            let mut ra = match self.settle_after_credit(invoice_id, inv2, payer, total, guarded, now, governance_approved) {
                Ok(a) => a,
                Err(e) => return Err(e),
            };
            let ghost (g1, g2) = (acts@, ra@);
            acts.append(&mut ra);
            assert(acts@ =~= g1 + g2);
        }
        if c.balance > 0 {
            if tokens.len() == 0 {
                return Err(SplitError::NoToken);
            }
            acts.push(Action::Transfer { token: tokens[0], from: me, to: payer, amount: c.balance });
        }
        let ps2 = self.payer_state_of(invoice_id, payer);
        self.set_payer_state(invoice_id, payer, PayerState { channel: None, ..ps2 });
        let ghost sp = close_channel_outcome(old(self)@, payer, invoice_id, now, governance_approved);
        assert(acts@ =~= sp->Ok_0.1);
        Ok(acts)
    }

    /// Withdraw at `now`, before the deadline, everything `payer` paid into
    /// invoice `invoice_id`, where the invoice allows early withdrawal.
    pub fn withdraw(&mut self, invoice_id: u64, payer: Address, now: u64) -> (r: Result<Vec<Action>, SplitError>)
        ensures
            match withdraw_outcome(old(self)@, invoice_id, payer, now) {
                Ok((s2, acts)) => r is Ok && r->Ok_0@ == acts && final(self)@ == s2,
                Err(e) => r == Err::<Vec<Action>, SplitError>(e) && final(self)@ == old(self)@,
            },
    {
        let inv = match self.load_invoice(invoice_id) {
            Ok(i) => i,
            Err(e) => return Err(e),
        };
        if !inv.allow_early_withdrawal {
            return Err(SplitError::EarlyWithdrawalNotAllowed);
        }
        if inv.status != InvoiceStatus::Pending {
            return Err(SplitError::InvoiceIsNotPending);
        }
        if now > inv.deadline {
            return Err(SplitError::InvoiceDeadlineHasPassed);
        }
        let t = match paid_by_of(&inv.payments, payer) {
            Some(x) => x,
            None => return Err(SplitError::ArithmeticOverflow),
        };
        if t <= 0 {
            return Err(SplitError::NoContributionsToWithdraw);
        }
        let funded = match inv.funded.checked_sub(t) {
            Some(x) => x,
            None => return Err(SplitError::ArithmeticOverflow),
        };
        if inv.tokens.len() == 0 {
            return Err(SplitError::NoToken);
        }
        let mut acts: Vec<Action> = Vec::new();
        acts.push(Action::RequireAuth { who: payer });
        acts.push(Action::Transfer { token: inv.tokens[0], from: self.contract_address, to: payer, amount: t });
        let a = self.account_of(payer);
        let rest = without_payer_of(&inv.payments, payer);
        let mut inv2 = inv;
        inv2.payments = rest;
        inv2.funded = funded;
        self.put_invoice(invoice_id, inv2, false);
        self.accounts.insert(payer.0, AccountStats { credit_score: a.credit_score.saturating_sub(2), ..a });
        Ok(acts)
    }

    /// Compress the payments of invoice `invoice_id` to one per payer, in
    /// address order, keeping the funded amount.
    pub fn compress_payments(&mut self, invoice_id: u64) -> (r: Result<Vec<Action>, SplitError>)
        ensures
            match compress_outcome(old(self)@, invoice_id) {
                Ok((s2, acts)) => r is Ok && r->Ok_0@ == acts && final(self)@ == s2,
                Err(e) => r == Err::<Vec<Action>, SplitError>(e) && final(self)@ == old(self)@,
            },
    {
        if self.paused {
            return Err(SplitError::ContractIsPaused);
        }
        let inv = match self.load_invoice(invoice_id) {
            Ok(i) => i,
            Err(e) => return Err(e),
        };
        let tips = tips_as_payments_of(&inv.payments);
        let (a, t) = match (crate::refunds::collect_payer_totals(&inv.payments), crate::refunds::collect_payer_totals(&tips)) {
            (Some(a), Some(t)) => (a, t),
            _ => return Err(SplitError::ArithmeticOverflow),
        };
        let ps = compressed_of(&a, &t);
        let amounts = payment_amounts(&ps);
        let sum = match crate::math::checked_sum_i128(&amounts) {
            Some(x) => x,
            None => return Err(SplitError::ArithmeticOverflow),
        };
        if sum != inv.funded {
            return Err(SplitError::TotalFundedChangedAfterCompression);
        }
        let mut inv2 = inv;
        inv2.payments = ps;
        self.put_invoice(invoice_id, inv2, false);
        Ok(Vec::new())
    }
}

} // verus!
