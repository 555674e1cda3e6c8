//! Paying into an invoice: the checks, rate limits, nonce, velocity limit,
//! overflow handling, insurance premium, late penalty, bookkeeping and the
//! automatic release of a fully funded invoice.

use vstd::prelude::*;
use crate::types::{Address, AuditAction, AuditEntry, InvoiceStatus, OverflowBehavior, Payment};
use crate::invoice::{Invoice, InvoiceView};
use crate::effects::{Action, Event, Notice, SplitError};
use crate::math::{bps_of_spec, bps_of, sum_i128, running_sums_fit_i128, checked_sum_i128};
use crate::distribution::fits_i128;
use crate::state::{AccountStats, EntryView, PayerState, SplitContract, SplitView, payer_key, make_payer_key, lemma_map_values_insert};
use crate::release::{total_of, invoice_total, matches_outcome, exact_outcome, notify_actions, release_dispatch};
use crate::payouts::{proportional_payouts, proportional_payments, trunc_div};
use crate::admin::contains_address;

verus! {

broadcast use vstd::std_specs::hash::group_hash_axioms;

/// Most payment times an invoice's rate-limit window keeps.
pub const PAYMENT_WINDOW_CAP: usize = 100;

/// `t + w`, saturating at `u64::MAX`.
pub open spec fn sat_add(t: u64, w: u64) -> int {
    if t + w > u64::MAX { u64::MAX as int } else { t + w }
}

/// The first `k` stored payment times that still fall in the window of
/// `w` seconds before `now`.
pub open spec fn window_filter(stored: Seq<u64>, now: u64, w: u64, k: nat) -> Seq<u64>
    decreases k,
{
    if k == 0 {
        Seq::empty()
    } else {
        let prev = window_filter(stored, now, w, (k - 1) as nat);
        if sat_add(stored[k - 1], w) > now { prev.push(stored[k - 1]) } else { prev }
    }
}

/// The payment times in the window, at most the last `PAYMENT_WINDOW_CAP`.
pub open spec fn active_window(stored: Seq<u64>, now: u64, w: u64) -> Seq<u64> {
    let f = window_filter(stored, now, w, stored.len());
    if f.len() > PAYMENT_WINDOW_CAP { f.subrange(f.len() - PAYMENT_WINDOW_CAP, f.len() as int) } else { f }
}

/// The window after a payment at `now`: the active times, keeping room for
/// the new one under the cap, then `now`.
pub open spec fn recorded_window(stored: Seq<u64>, now: u64, w: u64) -> Seq<u64> {
    let a = active_window(stored, now, w);
    let kept = if a.len() >= PAYMENT_WINDOW_CAP { a.subrange(a.len() - (PAYMENT_WINDOW_CAP - 1), a.len() as int) } else { a };
    kept.push(now)
}

/// The stored payment times of invoice `id`.
pub open spec fn stored_window(s: SplitView, id: u64) -> Seq<u64> {
    if s.payment_windows.contains_key(id) { s.payment_windows[id] } else { Seq::empty() }
}

/// The total a payment is measured against: the base amounts at the
/// oracle's price (1_000_000 meaning 1.0) where a price oracle is set,
/// else the sum of the amounts.
pub open spec fn pay_total(inv: InvoiceView, oracle_price: i128) -> Result<i128, SplitError> {
    if inv.price_oracle is Some {
        if !running_sums_fit_i128(inv.base_amounts) || !fits_i128(sum_i128(inv.base_amounts) * oracle_price) {
            Err(SplitError::ArithmeticOverflow)
        } else {
            Ok(trunc_div(sum_i128(inv.base_amounts) * oracle_price, 1_000_000) as i128)
        }
    } else {
        total_of(inv)
    }
}

/// Whether a paused invoice resumes by itself at `now`.
pub open spec fn auto_resumes(inv: InvoiceView, now: u64) -> bool {
    inv.frozen && inv.auto_resume_at is Some && now >= inv.auto_resume_at->0
}

/// `inv` after the lazy auto-resume at `now`.
pub open spec fn resumed(inv: InvoiceView, now: u64) -> InvoiceView {
    if auto_resumes(inv, now) {
        InvoiceView { frozen: false, pause_reason: None, auto_resume_at: None, ..inv }
    } else {
        inv
    }
}

/// The checks of a payment of `amount` by `payer` into invoice `id`; the
/// (possibly auto-resumed) invoice, the total and the remaining balance.
/// `oracle_price` is the price oracle's answer and `kyc_verified` the KYC
/// contract's; each only counts where the invoice uses it.
pub open spec fn pay_checks(s: SplitView, payer: Address, id: u64, amount: i128, now: u64, oracle_price: i128, kyc_verified: bool) -> Result<(InvoiceView, i128, i128), SplitError> {
    if !s.invoices.contains_key(id) {
        Err(SplitError::InvoiceNotFound)
    } else {
        let inv0 = s.inv(id);
        let inv = resumed(inv0, now);
        if inv0.status != InvoiceStatus::Pending {
            Err(SplitError::InvoiceIsNotPending)
        } else if now > inv0.deadline {
            Err(SplitError::InvoiceDeadlineHasPassed)
        } else if amount <= 0 {
            Err(SplitError::PaymentAmountMustBePositive)
        } else if inv.frozen {
            Err(SplitError::InvoiceIsFrozen)
        } else if inv.admin_frozen {
            Err(SplitError::InvoiceFrozenByAdmin)
        } else if inv.allowed_payers is Some && !inv.allowed_payers->0.contains(payer) {
            Err(SplitError::PayerNotAllowed)
        } else {
            match pay_total(inv, oracle_price) {
                Err(e) => Err(e),
                Ok(total) => if !fits_i128(total - inv.funded) {
                    Err(SplitError::ArithmeticOverflow)
                } else if inv.require_kyc && s.kyc_contract is None {
                    Err(SplitError::KycContractNotSet)
                } else if inv.require_kyc && !kyc_verified {
                    Err(SplitError::KycRequired)
                } else {
                    Ok((inv, total, (total - inv.funded) as i128))
                },
            }
        }
    }
}

/// The payment rate limits: the payer's cooldown and the invoice's cap of
/// payments per window.
pub open spec fn limits_error(s: SplitView, id: u64, ps: PayerState, inv: InvoiceView, now: u64) -> Option<SplitError> {
    if inv.payment_cooldown_secs is Some && ps.last_payment_at is Some
        && sat_add(ps.last_payment_at->0, inv.payment_cooldown_secs->0) > now {
        Some(SplitError::PaymentCooldownActive)
    } else if inv.max_payments_per_window is Some && inv.payment_window_secs is Some
        && active_window(stored_window(s, id), now, inv.payment_window_secs->0).len() >= inv.max_payments_per_window->0 {
        Some(SplitError::PaymentRateLimitExceeded)
    } else {
        None
    }
}

/// The payer's velocity window after paying `amount` at `now`.
pub open spec fn velocity_step(ps: PayerState, inv: InvoiceView, amount: i128, now: u64) -> Result<PayerState, SplitError> {
    if inv.velocity_limit <= 0 {
        Ok(ps)
    } else if ps.velocity_start + inv.velocity_window > u64::MAX {
        Err(SplitError::ArithmeticOverflow)
    } else {
        let reset = now > ps.velocity_start + inv.velocity_window;
        let start = if reset { now } else { ps.velocity_start };
        let used: i128 = if reset { 0 } else { ps.velocity_total };
        if !fits_i128(used + amount) {
            Err(SplitError::ArithmeticOverflow)
        } else if used + amount > inv.velocity_limit {
            Err(SplitError::VelocityLimitExceeded)
        } else {
            Ok(PayerState { velocity_start: start, velocity_total: (used + amount) as i128, ..ps })
        }
    }
}

/// What the payment is credited with, the insurance premium, and the
/// transfers of the charge: the payer pays credit, premium and excess; the
/// excess goes back to the payer or to the treasury as the invoice says.
pub open spec fn charge(s: SplitView, inv: InvoiceView, payer: Address, amount: i128, remaining: i128, token: Address) -> Result<(i128, i128, Seq<Action>), SplitError> {
    let me = s.contract_address;
    if inv.overflow_behavior == OverflowBehavior::Reject && amount > remaining {
        Err(SplitError::PaymentExceedsRemainingBalance)
    } else {
        let credited = if amount <= remaining { amount } else { remaining };
        match bps_of_spec(credited, inv.insurance_premium_bps) {
            None => Err(SplitError::ArithmeticOverflow),
            Some(premium) => {
                let excess = amount - credited;
                if !fits_i128(excess) || !fits_i128(credited + premium) || !fits_i128(credited + premium + excess) {
                    Err(SplitError::ArithmeticOverflow)
                } else if inv.overflow_behavior == OverflowBehavior::Donate && excess > 0 && s.treasury is None {
                    Err(SplitError::TreasuryNotSet)
                } else {
                    Ok((
                        credited,
                        premium,
                        seq![Action::Transfer { token, from: payer, to: me, amount: (credited + premium + excess) as i128 }]
                            + (if inv.overflow_behavior == OverflowBehavior::Refund && excess > 0 {
                                seq![Action::Transfer { token, from: me, to: payer, amount: excess as i128 }]
                            } else if inv.overflow_behavior == OverflowBehavior::Donate && excess > 0 {
                                seq![Action::Transfer { token, from: me, to: s.treasury->0, amount: excess as i128 }]
                            } else {
                                Seq::empty()
                            }),
                    ))
                }
            },
        }
    }
}

/// The late-payment penalty on `amount`, paid by the payer straight to the
/// recipients in proportion to their amounts.
pub open spec fn penalty_actions(inv: InvoiceView, payer: Address, amount: i128, token: Address, now: u64) -> Result<Seq<Action>, SplitError> {
    if inv.penalty_bps > 0 && now > inv.penalty_deadline {
        match bps_of_spec(amount, inv.penalty_bps) {
            None => Err(SplitError::ArithmeticOverflow),
            Some(penalty) => if penalty <= 0 {
                Ok(Seq::empty())
            } else {
                match total_of(inv) {
                    Err(e) => Err(e),
                    Ok(total) => match proportional_payouts(inv, token, payer, penalty, total, inv.recipients.len()) {
                        Err(e) => Err(e),
                        Ok((acts, _)) => Ok(acts),
                    },
                }
            },
        }
    } else {
        Ok(Seq::empty())
    }
}

/// Whether a fully funded invoice waits for an explicit release after a
/// payment.
pub open spec fn pay_guarded(s: SplitView, id: u64, inv: InvoiceView) -> bool {
    inv.prerequisite_id is Some || inv.tranches.len() > 0 || inv.release_stages.len() > 0
        || s.invoice_groups.contains_key(id) || inv.co_signers.len() > 0
        || (inv.oracle_address is Some && !inv.condition_met)
        || (inv.min_funding_amount > 0 && inv.funded < inv.min_funding_amount)
}

/// State with the payer state of (`id`, `payer`) set to `ps`.
pub open spec fn with_payer(s: SplitView, id: u64, payer: Address, ps: PayerState) -> SplitView {
    SplitView { payer_states: s.payer_states.insert(payer_key(id, payer), ps), ..s }
}

/// What a credited payment changes, before it is applied.
pub struct CreditPlan {
    /// The invoice with the payment recorded.
    pub invoice: InvoiceView,
    /// The payer's new state on the invoice.
    pub payer_state: PayerState,
    /// The payer's new counters.
    pub account: AccountStats,
    pub actions: Seq<Action>,
}

/// The part of a payment after its checks and the micro-payment threshold, up
/// to the bookkeeping: limits, nonce, velocity, charge and penalty.
pub open spec fn credit_plan(s: SplitView, payer: Address, id: u64, amount: i128, nonce: u64, now: u64, inv: InvoiceView, remaining: i128) -> Result<CreditPlan, SplitError> {
    let ps0 = s.payer(id, payer);
    let ps1 = if inv.min_payment > 0 { PayerState { accumulated: 0, ..ps0 } } else { ps0 };
    match limits_error(s, id, ps1, inv, now) {
        Some(e) => Err(e),
        None => if nonce != ps1.nonce {
            Err(SplitError::InvalidNonce)
        } else if ps1.nonce == u64::MAX {
            Err(SplitError::ArithmeticOverflow)
        } else {
            let ps2 = PayerState { nonce: (ps1.nonce + 1) as u64, ..ps1 };
            match velocity_step(ps2, inv, amount, now) {
                Err(e) => Err(e),
                Ok(ps3) => if inv.tokens.len() == 0 {
                    Err(SplitError::NoToken)
                } else {
                    let token = inv.tokens[0];
                    match charge(s, inv, payer, amount, remaining, token) {
                        Err(e) => Err(e),
                        Ok((credited, premium, a_charge)) => if !fits_i128(inv.insurance_fund + premium) {
                            Err(SplitError::ArithmeticOverflow)
                        } else {
                            match penalty_actions(inv, payer, amount, token, now) {
                                Err(e) => Err(e),
                                Ok(a_pen) => {
                                    let acct = s.account(payer);
                                    if !fits_i128(inv.funded + credited) || acct.reputation == u64::MAX || acct.credit_score == u64::MAX {
                                        Err(SplitError::ArithmeticOverflow)
                                    } else {
                                        Ok(CreditPlan {
                                            invoice: InvoiceView {
                                                insurance_fund: (inv.insurance_fund + premium) as i128,
                                                payments: inv.payments.push(Payment { payer, amount: credited, tip: 0 }),
                                                funded: (inv.funded + credited) as i128,
                                                ..inv
                                            },
                                            payer_state: if inv.payment_cooldown_secs is Some { PayerState { last_payment_at: Some(now), ..ps3 } } else { ps3 },
                                            account: AccountStats {
                                                reputation: (acct.reputation + 1) as u64,
                                                credit_score: (acct.credit_score + 1) as u64,
                                                ..acct
                                            },
                                            actions: seq![Action::RequireAuth { who: payer }] + a_charge + a_pen
                                                + seq![Action::Emit { event: Event::PaymentReceived { invoice_id: id, payer, amount: credited } }]
                                                + notify_actions(inv, id, Notice::Pay)
                                                + (match s.receipt_factory {
                                                    Some(f) => seq![Action::MintReceipt { factory: f, invoice_id: id, payer, amount: credited }],
                                                    None => Seq::empty(),
                                                }),
                                        })
                                    }
                                },
                            }
                        },
                    }
                },
            }
        },
    }
}

/// State after the bookkeeping of a credited payment, before the invoice
/// itself is stored or released.
pub open spec fn credit_state(s: SplitView, payer: Address, id: u64, now: u64, inv: InvoiceView, p: CreditPlan) -> SplitView {
    SplitView {
        payer_states: s.payer_states.insert(payer_key(id, payer), p.payer_state),
        accounts: s.accounts.insert(payer.0, p.account),
        audit_logs: s.audit_logs.insert(id, s.log(id).push(AuditEntry { action: AuditAction::Pay, actor: payer, timestamp: now })),
        payment_windows: if inv.max_payments_per_window is Some && inv.payment_window_secs is Some {
            s.payment_windows.insert(id, recorded_window(stored_window(s, id), now, inv.payment_window_secs->0))
        } else {
            s.payment_windows
        },
        ..s
    }
}

/// The part of a payment after its checks and the micro-payment threshold:
/// the plan, the bookkeeping and the automatic release of an invoice that
/// is now fully funded and not guarded.
pub open spec fn pay_credit(s: SplitView, payer: Address, id: u64, amount: i128, nonce: u64, now: u64, gov: bool, inv: InvoiceView, total: i128, remaining: i128) -> Result<(SplitView, Seq<Action>), SplitError> {
    match credit_plan(s, payer, id, amount, nonce, now, inv, remaining) {
        Err(e) => Err(e),
        Ok(p) => {
            let s1 = credit_state(s, payer, id, now, inv, p);
            if p.invoice.funded >= total && !pay_guarded(s, id, p.invoice) {
                match release_dispatch(s1, id, p.invoice, payer, now, gov) {
                    Err(e) => Err(e),
                    Ok((s2, ra)) => Ok((s2, p.actions + ra)),
                }
            } else {
                Ok((SplitView { invoices: s1.invoices.insert(id, EntryView { invoice: p.invoice, archived: false }), ..s1 }, p.actions))
            }
        },
    }
}

/// Outcome of a payment of `amount` by `payer` into invoice `id` at `now`
/// carrying `nonce`. Below the invoice's minimum payment, amounts only
/// accumulate until they reach it.
pub open spec fn pay_outcome(s: SplitView, payer: Address, id: u64, amount: i128, nonce: u64, now: u64, oracle_price: i128, kyc_verified: bool, gov: bool) -> Result<(SplitView, Seq<Action>), SplitError> {
    if s.paused {
        Err(SplitError::ContractIsPaused)
    } else {
        match pay_checks(s, payer, id, amount, now, oracle_price, kyc_verified) {
            Err(e) => Err(e),
            Ok((inv, total, remaining)) => {
                let s0 = if auto_resumes(s.inv(id), now) {
                    SplitView { invoices: s.invoices.insert(id, EntryView { invoice: inv, archived: false }), ..s }
                } else {
                    s
                };
                let ps = s.payer(id, payer);
                if inv.min_payment > 0 && !fits_i128(ps.accumulated + amount) {
                    Err(SplitError::ArithmeticOverflow)
                } else if inv.min_payment > 0 && ps.accumulated + amount < inv.min_payment {
                    Ok((
                        with_payer(s0, id, payer, PayerState { accumulated: (ps.accumulated + amount) as i128, ..ps }),
                        seq![Action::RequireAuth { who: payer }],
                    ))
                } else if inv.min_payment > 0 && ps.accumulated + amount > remaining {
                    Err(SplitError::PaymentExceedsRemainingBalance)
                } else {
                    pay_credit(s0, payer, id, amount, nonce, now, gov, inv, total, remaining)
                }
            },
        }
    }
}

/// The last `k` elements of `v`.
pub fn suffix_of(v: &Vec<u64>, k: usize) -> (r: Vec<u64>)
    requires
        k <= v@.len(),
    ensures
        r@ == v@.subrange(v@.len() - k, v@.len() as int),
{
    let start = v.len() - k;
    let mut r: Vec<u64> = Vec::new();
    let mut i: usize = start;
    while i < v.len()
        invariant
            start <= i <= v.len(),
            start == v@.len() - k,
            r@ == v@.subrange(start as int, i as int),
        decreases v.len() - i,
    {
        r.push(v[i]);
        assert(r@ =~= v@.subrange(start as int, i + 1));
        i = i + 1;
    }
    r
}

/// The payment times in the window; see `active_window`.
pub fn active_window_of(stored: &Vec<u64>, now: u64, w: u64) -> (r: Vec<u64>)
    ensures
        r@ == active_window(stored@, now, w),
{
    let mut f: Vec<u64> = Vec::new();
    let mut i: usize = 0;
    while i < stored.len()
        invariant
            i <= stored.len(),
            f@ == window_filter(stored@, now, w, i as nat),
        decreases stored.len() - i,
    {
        let t = stored[i];
        if t.saturating_add(w) > now {
            f.push(t);
        }
        i = i + 1;
    }
    if f.len() > PAYMENT_WINDOW_CAP {
        suffix_of(&f, PAYMENT_WINDOW_CAP)
    } else {
        f
    }
}

/// The window after a payment at `now`; see `recorded_window`.
pub fn recorded_window_of(stored: &Vec<u64>, now: u64, w: u64) -> (r: Vec<u64>)
    ensures
        r@ == recorded_window(stored@, now, w),
{
    let a = active_window_of(stored, now, w);
    let mut kept = if a.len() >= PAYMENT_WINDOW_CAP { suffix_of(&a, PAYMENT_WINDOW_CAP - 1) } else { a };
    kept.push(now);
    kept
}

/// The payment total; see `pay_total`.
pub fn pay_total_of(inv: &Invoice, oracle_price: i128) -> (r: Result<i128, SplitError>)
    ensures
        r == pay_total(inv@, oracle_price),
{
    if inv.price_oracle.is_some() {
        let base = match checked_sum_i128(&inv.base_amounts) {
            Some(b) => b,
            None => return Err(SplitError::ArithmeticOverflow),
        };
        match base.checked_mul(oracle_price) {
            None => Err(SplitError::ArithmeticOverflow),
            Some(p) => {
                if p >= 0 {
                    Ok(p / 1_000_000)
                } else {
                    let a: u128 = ((-(p + 1)) as u128) + 1;
                    let q: u128 = a / 1_000_000;
                    Ok(-(q as i128))
                }
            },
        }
    } else {
        invoice_total(inv)
    }
}

/// `inv` after the lazy auto-resume; see `resumed`.
pub fn resume_of(inv: Invoice, now: u64) -> (r: Invoice)
    ensures
        r@ == resumed(inv@, now),
{
    let mut m = inv;
    let due = match m.auto_resume_at {
        Some(t) => m.frozen && now >= t,
        None => false,
    };
    if due {
        m.frozen = false;
        m.pause_reason = None;
        m.auto_resume_at = None;
    }
    m
}

/// The payer's velocity window after paying; see `velocity_step`.
pub fn velocity_step_of(ps: PayerState, inv: &Invoice, amount: i128, now: u64) -> (r: Result<PayerState, SplitError>)
    ensures
        r == velocity_step(ps, inv@, amount, now),
{
    if inv.velocity_limit <= 0 {
        return Ok(ps);
    }
    let end = match ps.velocity_start.checked_add(inv.velocity_window) {
        Some(e) => e,
        None => return Err(SplitError::ArithmeticOverflow),
    };
    let reset = now > end;
    let start = if reset { now } else { ps.velocity_start };
    let used: i128 = if reset { 0 } else { ps.velocity_total };
    let nu = match used.checked_add(amount) {
        Some(x) => x,
        None => return Err(SplitError::ArithmeticOverflow),
    };
    if nu > inv.velocity_limit {
        return Err(SplitError::VelocityLimitExceeded);
    }
    Ok(PayerState { velocity_start: start, velocity_total: nu, ..ps })
}

/// The late-payment penalty transfers; see `penalty_actions`.
pub fn penalty_of(inv: &Invoice, payer: Address, amount: i128, token: Address, now: u64) -> (r: Result<Vec<Action>, SplitError>)
    ensures
        match (r, penalty_actions(inv@, payer, amount, token, now)) {
            (Ok(a), Ok(sa)) => a@ == sa,
            (Err(e), Err(se)) => e == se,
            _ => false,
        },
{
    if !(inv.penalty_bps > 0 && now > inv.penalty_deadline) {
        return Ok(Vec::new());
    }
    let penalty = match bps_of(amount, inv.penalty_bps) {
        Some(p) => p,
        None => return Err(SplitError::ArithmeticOverflow),
    };
    if penalty <= 0 {
        return Ok(Vec::new());
    }
    let total = match invoice_total(inv) {
        Ok(t) => t,
        Err(e) => return Err(e),
    };
    proportional_payments(inv, token, payer, penalty, total)
}

impl SplitContract {
    /// State of `payer` on invoice `id`.
    pub(crate) fn payer_state_of(&self, id: u64, payer: Address) -> (r: PayerState)
        ensures
            r == self@.payer(id, payer),
    {
        let k = make_payer_key(id, payer);
        match self.payer_states.get(&k) {
            Some(ps) => *ps,
            None => crate::state::new_payer_state(),
        }
    }

    /// Set the state of `payer` on invoice `id`.
    pub(crate) fn set_payer_state(&mut self, id: u64, payer: Address, ps: PayerState)
        ensures
            final(self)@ == with_payer(old(self)@, id, payer, ps),
    {
        let k = make_payer_key(id, payer);
        self.payer_states.insert(k, ps);
    }

    /// The stored payment times of invoice `id`.
    pub(crate) fn stored_window_of(&self, id: u64) -> (r: Vec<u64>)
        ensures
            r@ == stored_window(self@, id),
    {
        match self.payment_windows.get(&id) {
            Some(v) => crate::invoice::copy_vec(v),
            None => Vec::new(),
        }
    }

    /// The checks of a payment; see `pay_checks`.
    fn check_payment(&self, payer: Address, id: u64, amount: i128, now: u64, oracle_price: i128, kyc_verified: bool) -> (r: Result<(Invoice, i128, i128), SplitError>)
        ensures
            match (r, pay_checks(self@, payer, id, amount, now, oracle_price, kyc_verified)) {
                (Ok((inv, t, rem)), Ok((si, st, srem))) => inv@ == si && t == st && rem == srem,
                (Err(e), Err(se)) => e == se,
                _ => false,
            },
    {
        let inv0 = match self.load_invoice(id) {
            Ok(i) => i,
            Err(e) => return Err(e),
        };
        if inv0.status != InvoiceStatus::Pending {
            return Err(SplitError::InvoiceIsNotPending);
        }
        if now > inv0.deadline {
            return Err(SplitError::InvoiceDeadlineHasPassed);
        }
        if amount <= 0 {
            return Err(SplitError::PaymentAmountMustBePositive);
        }
        let inv = resume_of(inv0, now);
        if inv.frozen {
            return Err(SplitError::InvoiceIsFrozen);
        }
        if inv.admin_frozen {
            return Err(SplitError::InvoiceFrozenByAdmin);
        }
        match &inv.allowed_payers {
            Some(w) => {
                if !contains_address(w, payer) {
                    return Err(SplitError::PayerNotAllowed);
                }
            },
            None => {},
        }
        let total = match pay_total_of(&inv, oracle_price) {
            Ok(t) => t,
            Err(e) => return Err(e),
        };
        let remaining = match total.checked_sub(inv.funded) {
            Some(x) => x,
            None => return Err(SplitError::ArithmeticOverflow),
        };
        if inv.require_kyc && self.kyc_contract.is_none() {
            return Err(SplitError::KycContractNotSet);
        }
        if inv.require_kyc && !kyc_verified {
            return Err(SplitError::KycRequired);
        }
        Ok((inv, total, remaining))
    }

    /// The payment rate limits; see `limits_error`.
    fn check_limits(&self, id: u64, ps: PayerState, inv: &Invoice, now: u64) -> (r: Option<SplitError>)
        ensures
            r == limits_error(self@, id, ps, inv@, now),
    {
        match (inv.payment_cooldown_secs, ps.last_payment_at) {
            (Some(c), Some(l)) => {
                if l.saturating_add(c) > now {
                    return Some(SplitError::PaymentCooldownActive);
                }
            },
            _ => {},
        }
        match (inv.max_payments_per_window, inv.payment_window_secs) {
            (Some(m), Some(w)) => {
                let stored = self.stored_window_of(id);
                let recent = active_window_of(&stored, now, w);
                if recent.len() >= m as usize {
                    return Some(SplitError::PaymentRateLimitExceeded);
                }
            },
            _ => {},
        }
        None
    }

    /// The charge of a payment; see `charge`.
    fn charge_of(&self, inv: &Invoice, payer: Address, amount: i128, remaining: i128, token: Address) -> (r: Result<(i128, i128, Vec<Action>), SplitError>)
        ensures
            match (r, charge(self@, inv@, payer, amount, remaining, token)) {
                (Ok((c, p, a)), Ok((sc, sp, sa))) => c == sc && p == sp && a@ == sa,
                (Err(e), Err(se)) => e == se,
                _ => false,
            },
    {
        let me = self.contract_address;
        if inv.overflow_behavior == OverflowBehavior::Reject && amount > remaining {
            return Err(SplitError::PaymentExceedsRemainingBalance);
        }
        let credited = if amount <= remaining { amount } else { remaining };
        let premium = match bps_of(credited, inv.insurance_premium_bps) {
            Some(p) => p,
            None => return Err(SplitError::ArithmeticOverflow),
        };
        let excess = match amount.checked_sub(credited) {
            Some(x) => x,
            None => return Err(SplitError::ArithmeticOverflow),
        };
        let total_charge = match credited.checked_add(premium) {
            Some(x) => match x.checked_add(excess) {
                Some(y) => y,
                None => return Err(SplitError::ArithmeticOverflow),
            },
            None => return Err(SplitError::ArithmeticOverflow),
        };
        if inv.overflow_behavior == OverflowBehavior::Donate && excess > 0 && self.treasury.is_none() {
            return Err(SplitError::TreasuryNotSet);
        }
        let mut acts: Vec<Action> = Vec::new();
        acts.push(Action::Transfer { token, from: payer, to: me, amount: total_charge });
        if inv.overflow_behavior == OverflowBehavior::Refund && excess > 0 {
            acts.push(Action::Transfer { token, from: me, to: payer, amount: excess });
        } else if inv.overflow_behavior == OverflowBehavior::Donate && excess > 0 {
            acts.push(Action::Transfer { token, from: me, to: self.treasury.unwrap(), amount: excess });
        }
        assert(acts@ =~= charge(self@, inv@, payer, amount, remaining, token)->Ok_0.2);
        Ok((credited, premium, acts))
    }
}

impl SplitContract {
    /// The plan of a credited payment; see `credit_plan`.
    fn plan_credit(&self, payer: Address, id: u64, amount: i128, nonce: u64, now: u64, inv: Invoice, remaining: i128) -> (r: Result<(Invoice, PayerState, AccountStats, Vec<Action>), SplitError>)
        ensures
            match (r, credit_plan(self@, payer, id, amount, nonce, now, inv@, remaining)) {
                (Ok((i2, ps, a, acts)), Ok(p)) => i2@ == p.invoice && ps == p.payer_state && a == p.account && acts@ == p.actions,
                (Err(e), Err(se)) => e == se,
                _ => false,
            },
    {
        let ps0 = self.payer_state_of(id, payer);
        let ps1 = if inv.min_payment > 0 { PayerState { accumulated: 0, ..ps0 } } else { ps0 };
        match self.check_limits(id, ps1, &inv, now) {
            Some(e) => return Err(e),
            None => {},
        }
        if nonce != ps1.nonce {
            return Err(SplitError::InvalidNonce);
        }
        if ps1.nonce == u64::MAX {
            return Err(SplitError::ArithmeticOverflow);
        }
        let ps2 = PayerState { nonce: ps1.nonce + 1, ..ps1 };
        let ps3 = match velocity_step_of(ps2, &inv, amount, now) {
            Ok(x) => x,
            Err(e) => return Err(e),
        };
        if inv.tokens.len() == 0 {
            return Err(SplitError::NoToken);
        }
        let token = inv.tokens[0];
        let (credited, premium, mut a_charge) = match self.charge_of(&inv, payer, amount, remaining, token) {
            Ok(x) => x,
            Err(e) => return Err(e),
        };
        let fund = match inv.insurance_fund.checked_add(premium) {
            Some(x) => x,
            None => return Err(SplitError::ArithmeticOverflow),
        };
        let mut a_pen = match penalty_of(&inv, payer, amount, token, now) {
            Ok(x) => x,
            Err(e) => return Err(e),
        };
        let acct = self.account_of(payer);
        let funded = match inv.funded.checked_add(credited) {
            Some(x) => x,
            None => return Err(SplitError::ArithmeticOverflow),
        };
        if acct.reputation == u64::MAX || acct.credit_score == u64::MAX {
            return Err(SplitError::ArithmeticOverflow);
        }
        let mut acts: Vec<Action> = Vec::new();
        acts.push(Action::RequireAuth { who: payer });
        acts.append(&mut a_charge);
        acts.append(&mut a_pen);
        acts.push(Action::Emit { event: Event::PaymentReceived { invoice_id: id, payer, amount: credited } });
        match inv.notification_contract {
            Some(c) => {
                acts.push(Action::Notify { contract: c, invoice_id: id, notice: Notice::Pay });
            },
            None => {},
        }
        match self.receipt_factory {
            Some(f) => {
                acts.push(Action::MintReceipt { factory: f, invoice_id: id, payer, amount: credited });
            },
            None => {},
        }
        let ps4 = if inv.payment_cooldown_secs.is_some() { PayerState { last_payment_at: Some(now), ..ps3 } } else { ps3 };
        let acct2 = AccountStats { reputation: acct.reputation + 1, credit_score: acct.credit_score + 1, ..acct };
        let mut inv2 = inv;
        inv2.insurance_fund = fund;
        inv2.payments.push(Payment { payer, amount: credited, tip: 0 });
        inv2.funded = funded;
        let ghost sp = credit_plan(self@, payer, id, amount, nonce, now, inv@, remaining);
        assert(acts@ =~= sp->Ok_0.actions);
        Ok((inv2, ps4, acct2, acts))
    }

    /// The bookkeeping of a credited payment; see `credit_state`.
    fn apply_credit(&mut self, payer: Address, id: u64, now: u64, inv: &Invoice, ps: PayerState, acct: AccountStats)
        ensures
            final(self)@ == credit_state(old(self)@, payer, id, now, inv@, CreditPlan { invoice: inv@, payer_state: ps, account: acct, actions: Seq::empty() }),
    {
        let ghost s0 = self@;
        let window = match (inv.max_payments_per_window, inv.payment_window_secs) {
            (Some(_), Some(w)) => {
                let stored = self.stored_window_of(id);
                Some(recorded_window_of(&stored, now, w))
            },
            _ => None,
        };
        self.set_payer_state(id, payer, ps);
        self.accounts.insert(payer.0, acct);
        self.append_audit(id, AuditAction::Pay, payer, now);
        match window {
            Some(v) => {
                let ghost m0 = self.payment_windows@;
                let ghost gv = v;
                self.payment_windows.insert(id, v);
                proof { lemma_map_values_insert(m0, id, gv, |x: Vec<u64>| x@); }
            },
            None => {},
        }
        assert(self@ =~= credit_state(s0, payer, id, now, inv@, CreditPlan { invoice: inv@, payer_state: ps, account: acct, actions: Seq::empty() }));
    }

    /// A credited payment; see `pay_credit`.
    fn credit_payment(&mut self, payer: Address, id: u64, amount: i128, nonce: u64, now: u64, gov: bool, inv: Invoice, total: i128, remaining: i128) -> (r: Result<Vec<Action>, SplitError>)
        ensures
            matches_outcome(r, final(self)@, pay_credit(old(self)@, payer, id, amount, nonce, now, gov, inv@, total, remaining)),
    {
        let ghost inv0 = inv@;
        let (inv2, ps, acct, mut acts) = match self.plan_credit(payer, id, amount, nonce, now, inv, remaining) {
            Ok(x) => x,
            Err(e) => return Err(e),
        };
        let guarded = inv2.prerequisite_id.is_some() || inv2.tranches.len() > 0 || inv2.release_stages.len() > 0
            || self.invoice_groups.contains_key(&id) || inv2.co_signers.len() > 0
            || (inv2.oracle_address.is_some() && !inv2.condition_met)
            || (inv2.min_funding_amount > 0 && inv2.funded < inv2.min_funding_amount);
        let ghost plan = CreditPlan { invoice: inv2@, payer_state: ps, account: acct, actions: acts@ };
        assert(credit_plan(old(self)@, payer, id, amount, nonce, now, inv0, remaining) == Ok::<CreditPlan, SplitError>(plan));
        assert(guarded == pay_guarded(old(self)@, id, inv2@));
        self.apply_credit(payer, id, now, &inv2, ps, acct);
        assert(self@ == credit_state(old(self)@, payer, id, now, inv0, plan));
        if inv2.funded >= total && !guarded {
            match self.dispatch_release(id, inv2, payer, now, gov) {
                Err(e) => Err(e),
                Ok(mut ra) => {
                    let ghost (g1, g2) = (acts@, ra@);
                    acts.append(&mut ra);
                    assert(acts@ =~= g1 + g2);
                    Ok(acts)
                },
            }
        } else {
            self.put_invoice(id, inv2, false);
            Ok(acts)
        }
    }

    /// Pay `amount` by `payer` into invoice `invoice_id` at `now`, carrying the
    /// payer's next `nonce`. `oracle_price` is the price oracle's answer and
    /// `kyc_verified` the KYC contract's, each only counted where the invoice
    /// uses them; `governance_approved` is the governance answer for a
    /// subscription invoice an automatic release may create. A failed call
    /// changes nothing.
    pub fn pay(&mut self, payer: Address, invoice_id: u64, amount: i128, nonce: u64, now: u64, oracle_price: i128, kyc_verified: bool, governance_approved: bool) -> (r: Result<Vec<Action>, SplitError>)
        ensures
            exact_outcome(r, old(self)@, final(self)@, pay_outcome(old(self)@, payer, invoice_id, amount, nonce, now, oracle_price, kyc_verified, governance_approved)),
    {
        let saved = self.snapshot();
        let r = self.pay_attempt(payer, invoice_id, amount, nonce, now, oracle_price, kyc_verified, governance_approved);
        if r.is_err() {
            *self = saved;
        }
        r
    }

    /// `pay` up to the point where a failure is rolled back.
    fn pay_attempt(&mut self, payer: Address, invoice_id: u64, amount: i128, nonce: u64, now: u64, oracle_price: i128, kyc_verified: bool, governance_approved: bool) -> (r: Result<Vec<Action>, SplitError>)
        ensures
            matches_outcome(r, final(self)@, pay_outcome(old(self)@, payer, invoice_id, amount, nonce, now, oracle_price, kyc_verified, governance_approved)),
    {
        if self.paused {
            return Err(SplitError::ContractIsPaused);
        }
        let (inv, total, remaining) = match self.check_payment(payer, invoice_id, amount, now, oracle_price, kyc_verified) {
            Ok(x) => x,
            Err(e) => return Err(e),
        };
        let stored = match self.load_invoice(invoice_id) {
            Ok(i) => i,
            Err(e) => return Err(e),
        };
        let resumes = match stored.auto_resume_at {
            Some(t) => stored.frozen && now >= t,
            None => false,
        };
        if resumes {
            let copy = inv.copy();
            self.put_invoice(invoice_id, copy, false);
        }
        let ps = self.payer_state_of(invoice_id, payer);
        if inv.min_payment > 0 {
            let acc = match ps.accumulated.checked_add(amount) {
                Some(x) => x,
                None => return Err(SplitError::ArithmeticOverflow),
            };
            if acc < inv.min_payment {
                self.set_payer_state(invoice_id, payer, PayerState { accumulated: acc, ..ps });
                let mut acts: Vec<Action> = Vec::new();
                acts.push(Action::RequireAuth { who: payer });
                return Ok(acts);
            }
            if acc > remaining {
                return Err(SplitError::PaymentExceedsRemainingBalance);
            }
        }
        self.credit_payment(payer, invoice_id, amount, nonce, now, governance_approved, inv, total, remaining)
    }
}

/// Outcome of a payment whose memo names the invoice: a payment into
/// invoice `memo`, then the event that matched it.
pub open spec fn pay_with_memo_outcome(s: SplitView, payer: Address, memo: u64, amount: i128, nonce: u64, now: u64, oracle_price: i128, kyc_verified: bool, gov: bool) -> Result<(SplitView, Seq<Action>), SplitError> {
    match pay_outcome(s, payer, memo, amount, nonce, now, oracle_price, kyc_verified, gov) {
        Err(e) => Err(e),
        Ok((s2, acts)) => Ok((s2, acts.push(Action::Emit { event: Event::PaymentMatched { invoice_id: memo, memo, payer } }))),
    }
}

impl SplitContract {
    /// Pay into the invoice that `memo` names; see `pay`. A failed call changes
    /// nothing.
    pub fn pay_with_memo(&mut self, payer: Address, memo: u64, amount: i128, nonce: u64, now: u64, oracle_price: i128, kyc_verified: bool, governance_approved: bool) -> (r: Result<Vec<Action>, SplitError>)
        ensures
            exact_outcome(r, old(self)@, final(self)@, pay_with_memo_outcome(old(self)@, payer, memo, amount, nonce, now, oracle_price, kyc_verified, governance_approved)),
    {
        match self.pay(payer, memo, amount, nonce, now, oracle_price, kyc_verified, governance_approved) {
            Err(e) => Err(e),
            Ok(mut acts) => {
                acts.push(Action::Emit { event: Event::PaymentMatched { invoice_id: memo, memo, payer } });
                Ok(acts)
            },
        }
    }
}

} // verus!
