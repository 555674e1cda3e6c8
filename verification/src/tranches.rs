//! Releases in parts: tranches unlocked by time and predefined stages.

use vstd::prelude::*;
use crate::types::{Address, AuditAction, AuditEntry, InvoiceStatus, Tranche};
use crate::invoice::{Invoice, InvoiceView};
use crate::effects::{Action, Event, Notice, SplitError};
use crate::math::{as_u128, wrap_i128, bps_of_spec, bps_of, to_u128, from_u128};
use crate::distribution::fits_i128;
use crate::state::{EntryView, SplitContract, SplitView, Stats};
use crate::release::{token_of, total_of, invoice_token, invoice_total, matches_outcome, exact_outcome, notify_actions};

verus! {

/// `x` capped at `u128::MAX`, as `saturating_mul` leaves a product.
pub open spec fn sat_u128(x: int) -> int {
    if x > u128::MAX { u128::MAX as int } else { x }
}

/// `a.saturating_mul(b)` on u128.
pub fn sat_mul_u128(a: u128, b: u128) -> (r: u128)
    ensures
        r == sat_u128(a * b),
{
    match a.checked_mul(b) {
        Some(p) => p,
        None => u128::MAX,
    }
}

/// Running u32 sum of the basis points of the first `k` tranches whose time
/// has come; `None` where the sum overflows.
pub open spec fn unlocked_bps(ts: Seq<Tranche>, now: u64, k: nat) -> Option<u32>
    decreases k,
{
    if k == 0 {
        Some(0u32)
    } else {
        match unlocked_bps(ts, now, (k - 1) as nat) {
            None => None,
            Some(acc) => if ts[k - 1].timestamp <= now {
                if acc + ts[k - 1].basis_points > u32::MAX {
                    None
                } else {
                    Some((acc + ts[k - 1].basis_points) as u32)
                }
            } else {
                Some(acc)
            },
        }
    }
}

/// Gross payout of a recipient owed `amount` of `total` for `new_bps` of the
/// funded amount: `amount * new_bps * funded / (10_000 * total)` with
/// saturating products, `None` where the divisor overflows or is zero.
pub open spec fn tranche_raw(amount: i128, new_bps: u32, funded: i128, total: i128) -> Option<i128> {
    let p = sat_u128(sat_u128(as_u128(amount) * new_bps) * as_u128(funded));
    let d = 10_000 * as_u128(total);
    if d > u128::MAX || d == 0 {
        None
    } else {
        Some(wrap_i128(p / d) as i128)
    }
}

/// Payout transfers of the first `k` recipients for a tranche of `new_bps`,
/// with the running platform fee and tax.
pub open spec fn tranche_lines(s: SplitView, inv: InvoiceView, token: Address, new_bps: u32, total: i128, k: nat) -> Result<(Seq<Action>, i128, i128), SplitError>
    decreases k,
{
    if k == 0 {
        Ok((Seq::empty(), 0i128, 0i128))
    } else {
        match tranche_lines(s, inv, token, new_bps, total, (k - 1) as nat) {
            Err(e) => Err(e),
            Ok((acts, fee_sum, tax_sum)) => {
                let j = k - 1;
                if j >= inv.amounts.len() {
                    Err(SplitError::MissingElement)
                } else {
                    match tranche_raw(inv.amounts[j], new_bps, inv.funded, total) {
                        None => Err(SplitError::ArithmeticOverflow),
                        Some(raw) => if raw <= 0 {
                            Ok((acts, fee_sum, tax_sum))
                        } else {
                            match (bps_of_spec(raw, s.platform_fee_bps), bps_of_spec(raw, inv.tax_bps)) {
                                (Some(fee), Some(tax)) => if !fits_i128(raw - fee) || !fits_i128(raw - fee - tax)
                                    || !fits_i128(fee_sum + fee) || !fits_i128(tax_sum + tax) {
                                    Err(SplitError::ArithmeticOverflow)
                                } else {
                                    Ok((
                                        acts.push(Action::Transfer { token, from: s.contract_address, to: inv.recipients[j], amount: (raw - fee - tax) as i128 }),
                                        (fee_sum + fee) as i128,
                                        (tax_sum + tax) as i128,
                                    ))
                                },
                                _ => Err(SplitError::ArithmeticOverflow),
                            }
                        },
                    }
                }
            },
        }
    }
}

/// The tax, the platform fee and the tax once more, as a tranche release
/// sends them.
pub open spec fn fee_tax_actions(token: Address, me: Address, tax_authority: Option<Address>, treasury: Option<Address>, fee: i128, tax: i128) -> Seq<Action> {
    let tax_part = if tax > 0 {
        seq![Action::Transfer { token, from: me, to: tax_authority->0, amount: tax }]
    } else {
        Seq::empty()
    };
    let fee_part = if fee > 0 {
        seq![Action::Transfer { token, from: me, to: treasury->0, amount: fee }]
    } else {
        Seq::empty()
    };
    tax_part + fee_part + tax_part
}

/// What completing a release sends: the insurance fund back to the
/// creator, the release event and the notification.
pub open spec fn completion_actions(inv: InvoiceView, id: u64, token: Address, me: Address) -> Seq<Action> {
    (if inv.insurance_fund > 0 {
        seq![Action::Transfer { token, from: me, to: inv.creator, amount: inv.insurance_fund }]
    } else {
        Seq::empty()
    }) + seq![Action::Emit { event: Event::InvoiceReleased { invoice_id: id } }] + notify_actions(inv, id, Notice::Release)
}

/// The invoice after a tranche release brings it to `rb` basis points;
/// released, with its insurance fund returned, once all are out.
pub open spec fn tranche_invoice(inv: InvoiceView, rb: u32, now: u64) -> InvoiceView {
    if rb >= 10_000 {
        InvoiceView {
            status: InvoiceStatus::Released,
            completion_time: Some(now),
            insurance_fund: if inv.insurance_fund > 0 { 0 } else { inv.insurance_fund },
            released_bps: rb,
            ..inv
        }
    } else {
        InvoiceView { released_bps: rb, ..inv }
    }
}

/// What a tranche release does once the payouts (`acts`, with platform fee
/// `fee` and tax `tax`) are known: tax, fee and the tax once more, the
/// counters, and the completion once all basis points are out.
pub open spec fn tranche_apply(s: SplitView, id: u64, inv: InvoiceView, actor: Address, now: u64, token: Address, new_bps: u32, acts: Seq<Action>, fee: i128, tax: i128) -> Result<(SplitView, Seq<Action>), SplitError> {
    let released = wrap_i128(sat_u128(as_u128(inv.funded) * new_bps) / 10_000);
    if fee > 0 && s.treasury is None {
        Err(SplitError::TreasuryNotSet)
    } else if tax > 0 && inv.tax_authority is None {
        Err(SplitError::MissingElement)
    } else if inv.released_bps + new_bps > u32::MAX {
        Err(SplitError::ArithmeticOverflow)
    } else if !fits_i128(s.stats.total_volume + released) {
        Err(SplitError::TotalVolumeOverflow)
    } else if !fits_i128(s.stats.total_released + released) {
        Err(SplitError::TotalReleasedOverflow)
    } else {
        let rb = (inv.released_bps + new_bps) as u32;
        let done = rb >= 10_000;
        Ok((
            SplitView {
                stats: Stats {
                    total_volume: (s.stats.total_volume + released) as i128,
                    total_released: (s.stats.total_released + released) as i128,
                    ..s.stats
                },
                audit_logs: if done {
                    s.audit_logs.insert(id, s.log(id).push(AuditEntry { action: AuditAction::Release, actor, timestamp: now }))
                } else {
                    s.audit_logs
                },
                invoices: s.invoices.insert(id, EntryView { invoice: tranche_invoice(inv, rb, now), archived: false }),
                ..s
            },
            acts + fee_tax_actions(token, s.contract_address, inv.tax_authority, s.treasury, fee, tax)
                + (if done { completion_actions(inv, id, token, s.contract_address) } else { Seq::empty() }),
        ))
    }
}

/// Release of the tranches of invoice `id` (current value `inv`) unlocked at
/// `now` and not yet released. The tax is sent to the tax authority twice, as
/// the contract does; the invoice is released once all basis points are out.
pub open spec fn tranche_release(s: SplitView, id: u64, inv: InvoiceView, actor: Address, now: u64) -> Result<(SplitView, Seq<Action>), SplitError> {
    match unlocked_bps(inv.tranches, now, inv.tranches.len()) {
        None => Err(SplitError::ArithmeticOverflow),
        Some(u) => {
            let new_bps: u32 = if u > inv.released_bps { (u - inv.released_bps) as u32 } else { 0 };
            if new_bps == 0 {
                Err(SplitError::NoTranchesUnlocked)
            } else {
                match token_of(inv) {
                    Err(e) => Err(e),
                    Ok(token) => match total_of(inv) {
                        Err(e) => Err(e),
                        Ok(total) => match tranche_lines(s, inv, token, new_bps, total, inv.recipients.len()) {
                            Err(e) => Err(e),
                            Ok((acts, fee, tax)) => tranche_apply(s, id, inv, actor, now, token, new_bps, acts, fee, tax),
                        },
                    },
                }
            }
        }
    }
}

pub proof fn lemma_tranche_lines_err_persists(s: SplitView, inv: InvoiceView, token: Address, new_bps: u32, total: i128, k: nat, n: nat)
    requires
        k <= n,
        tranche_lines(s, inv, token, new_bps, total, k) is Err,
    ensures
        tranche_lines(s, inv, token, new_bps, total, n) == tranche_lines(s, inv, token, new_bps, total, k),
    decreases n - k,
{
    if k < n {
        lemma_tranche_lines_err_persists(s, inv, token, new_bps, total, k, (n - 1) as nat);
    }
}

pub proof fn lemma_unlocked_none_persists(ts: Seq<Tranche>, now: u64, k: nat, n: nat)
    requires
        k <= n,
        unlocked_bps(ts, now, k) is None,
    ensures
        unlocked_bps(ts, now, n) is None,
    decreases n - k,
{
    if k < n {
        lemma_unlocked_none_persists(ts, now, k, (n - 1) as nat);
    }
}

/// Basis points of the tranches unlocked at `now`; `None` on overflow.
pub fn unlocked_bps_of(ts: &Vec<Tranche>, now: u64) -> (r: Option<u32>)
    ensures
        r == unlocked_bps(ts@, now, ts@.len()),
{
    let mut acc: u32 = 0;
    let mut i: usize = 0;
    while i < ts.len()
        invariant
            i <= ts.len(),
            unlocked_bps(ts@, now, i as nat) == Some(acc),
        decreases ts.len() - i,
    {
        let t = ts[i];
        if t.timestamp <= now {
            match acc.checked_add(t.basis_points) {
                Some(x) => {
                    acc = x;
                },
                None => {
                    proof { lemma_unlocked_none_persists(ts@, now, (i + 1) as nat, ts@.len()); }
                    return None;
                },
            }
        }
        i = i + 1;
    }
    Some(acc)
}

/// Gross tranche payout; see `tranche_raw`.
pub fn tranche_raw_of(amount: i128, new_bps: u32, funded: i128, total: i128) -> (r: Option<i128>)
    ensures
        r == tranche_raw(amount, new_bps, funded, total),
{
    let p = sat_mul_u128(sat_mul_u128(to_u128(amount), new_bps as u128), to_u128(funded));
    let d = match 10_000u128.checked_mul(to_u128(total)) {
        Some(x) => x,
        None => return None,
    };
    if d == 0 {
        return None;
    }
    Some(from_u128(p / d))
}

/// The transfers of `fee_tax_actions`.
pub fn fee_tax_payouts(token: Address, me: Address, tax_authority: Option<Address>, treasury: Option<Address>, fee: i128, tax: i128) -> (r: Vec<Action>)
    requires
        fee > 0 ==> treasury is Some,
        tax > 0 ==> tax_authority is Some,
    ensures
        r@ == fee_tax_actions(token, me, tax_authority, treasury, fee, tax),
{
    let mut acts: Vec<Action> = Vec::new();
    if tax > 0 {
        acts.push(Action::Transfer { token, from: me, to: tax_authority.unwrap(), amount: tax });
    }
    if fee > 0 {
        acts.push(Action::Transfer { token, from: me, to: treasury.unwrap(), amount: fee });
    }
    if tax > 0 {
        acts.push(Action::Transfer { token, from: me, to: tax_authority.unwrap(), amount: tax });
    }
    assert(acts@ =~= fee_tax_actions(token, me, tax_authority, treasury, fee, tax));
    acts
}

/// The actions of `completion_actions`.
pub fn completion_payouts(inv: &Invoice, id: u64, token: Address, me: Address) -> (r: Vec<Action>)
    ensures
        r@ == completion_actions(inv@, id, token, me),
{
    let mut acts: Vec<Action> = Vec::new();
    if inv.insurance_fund > 0 {
        acts.push(Action::Transfer { token, from: me, to: inv.creator, amount: inv.insurance_fund });
    }
    acts.push(Action::Emit { event: Event::InvoiceReleased { invoice_id: id } });
    match inv.notification_contract {
        Some(c) => {
            acts.push(Action::Notify { contract: c, invoice_id: id, notice: Notice::Release });
        },
        None => {},
    }
    assert(acts@ =~= completion_actions(inv@, id, token, me));
    acts
}

/// The invoice of `tranche_invoice`.
pub fn tranche_invoice_of(inv: Invoice, rb: u32, now: u64) -> (r: Invoice)
    ensures
        r@ == tranche_invoice(inv@, rb, now),
{
    let mut m = inv;
    m.released_bps = rb;
    if rb >= 10_000 {
        m.status = InvoiceStatus::Released;
        m.completion_time = Some(now);
        if m.insurance_fund > 0 {
            m.insurance_fund = 0;
        }
    }
    m
}

impl SplitContract {
    /// Payout transfers of a tranche; see `tranche_lines`.
    fn tranche_payouts(&self, inv: &Invoice, token: Address, new_bps: u32, total: i128) -> (r: Result<(Vec<Action>, i128, i128), SplitError>)
        ensures
            match (r, tranche_lines(self@, inv@, token, new_bps, total, inv@.recipients.len())) {
                (Ok((a, f, t)), Ok((sa, sf, st))) => a@ == sa && f == sf && t == st,
                (Err(e), Err(se)) => e == se,
                _ => false,
            },
    {
        let n = inv.recipients.len();
        let me = self.contract_address;
        let fee_bps = self.platform_fee_bps;
        let mut acts: Vec<Action> = Vec::new();
        let mut fee_sum: i128 = 0;
        let mut tax_sum: i128 = 0;
        let mut j: usize = 0;
        while j < n
            invariant
                j <= n,
                n == inv@.recipients.len(),
                me == self@.contract_address,
                fee_bps == self@.platform_fee_bps,
                tranche_lines(self@, inv@, token, new_bps, total, j as nat) == Ok::<(Seq<Action>, i128, i128), SplitError>((acts@, fee_sum, tax_sum)),
            decreases n - j,
        {
            if j >= inv.amounts.len() {
                proof { lemma_tranche_lines_err_persists(self@, inv@, token, new_bps, total, (j + 1) as nat, n as nat); }
                return Err(SplitError::MissingElement);
            }
            let raw = match tranche_raw_of(inv.amounts[j], new_bps, inv.funded, total) {
                Some(x) => x,
                None => {
                    proof { lemma_tranche_lines_err_persists(self@, inv@, token, new_bps, total, (j + 1) as nat, n as nat); }
                    return Err(SplitError::ArithmeticOverflow);
                },
            };
            if raw > 0 {
                let (fee, tax) = match (bps_of(raw, fee_bps), bps_of(raw, inv.tax_bps)) {
                    (Some(f), Some(t)) => (f, t),
                    _ => {
                        proof { lemma_tranche_lines_err_persists(self@, inv@, token, new_bps, total, (j + 1) as nat, n as nat); }
                        return Err(SplitError::ArithmeticOverflow);
                    },
                };
                let payout = match raw.checked_sub(fee) {
                    Some(x) => x.checked_sub(tax),
                    None => None,
                };
                let (p, f2, t2) = match (payout, fee_sum.checked_add(fee), tax_sum.checked_add(tax)) {
                    (Some(p), Some(f2), Some(t2)) => (p, f2, t2),
                    _ => {
                        proof { lemma_tranche_lines_err_persists(self@, inv@, token, new_bps, total, (j + 1) as nat, n as nat); }
                        return Err(SplitError::ArithmeticOverflow);
                    },
                };
                acts.push(Action::Transfer { token, from: me, to: inv.recipients[j], amount: p });
                fee_sum = f2;
                tax_sum = t2;
            }
            j = j + 1;
        }
        Ok((acts, fee_sum, tax_sum))
    }

    /// Release the tranches of `id` unlocked at `now`; see `tranche_release`.
    pub(crate) fn release_tranches(&mut self, id: u64, inv: Invoice, actor: Address, now: u64) -> (r: Result<Vec<Action>, SplitError>)
        ensures
            matches_outcome(r, final(self)@, tranche_release(old(self)@, id, inv@, actor, now)),
    {
        let u = match unlocked_bps_of(&inv.tranches, now) {
            Some(x) => x,
            None => return Err(SplitError::ArithmeticOverflow),
        };
        let new_bps = u.saturating_sub(inv.released_bps);
        if new_bps == 0 {
            return Err(SplitError::NoTranchesUnlocked);
        }
        let token = match invoice_token(&inv) {
            Ok(t) => t,
            Err(e) => return Err(e),
        };
        let total = match invoice_total(&inv) {
            Ok(t) => t,
            Err(e) => return Err(e),
        };
        let (acts, fee, tax) = match self.tranche_payouts(&inv, token, new_bps, total) {
            Ok(x) => x,
            Err(e) => return Err(e),
        };
        self.apply_tranche(id, inv, actor, now, token, new_bps, acts, fee, tax)
    }

    /// Store the state a tranche release leaves: the counters, the invoice
    /// and, once it is complete, the release in the audit log.
    fn store_tranche(&mut self, id: u64, inv: Invoice, tv: i128, tr: i128, done: bool, actor: Address, now: u64)
        ensures
            final(self)@ == (SplitView {
                stats: Stats { total_volume: tv, total_released: tr, ..old(self)@.stats },
                audit_logs: if done {
                    old(self)@.audit_logs.insert(id, old(self)@.log(id).push(AuditEntry { action: AuditAction::Release, actor, timestamp: now }))
                } else {
                    old(self)@.audit_logs
                },
                invoices: old(self)@.invoices.insert(id, EntryView { invoice: inv@, archived: false }),
                ..old(self)@
            }),
    {
        self.stats = Stats { total_volume: tv, total_released: tr, ..self.stats };
        if done {
            self.append_audit(id, AuditAction::Release, actor, now);
        }
        self.put_invoice(id, inv, false);
    }

    /// Tax, fee, counters and completion of a tranche release; see `tranche_apply`.
    #[verifier::rlimit(50)]
    fn apply_tranche(&mut self, id: u64, inv: Invoice, actor: Address, now: u64, token: Address, new_bps: u32, acts: Vec<Action>, fee: i128, tax: i128) -> (r: Result<Vec<Action>, SplitError>)
        ensures
            matches_outcome(r, final(self)@, tranche_apply(old(self)@, id, inv@, actor, now, token, new_bps, acts@, fee, tax)),
    {
        let ghost acts0 = acts@;
        let mut acts = acts;
        let me = self.contract_address;
        if fee > 0 && self.treasury.is_none() {
            return Err(SplitError::TreasuryNotSet);
        }
        if tax > 0 && inv.tax_authority.is_none() {
            return Err(SplitError::MissingElement);
        }
        let rb = match inv.released_bps.checked_add(new_bps) {
            Some(x) => x,
            None => return Err(SplitError::ArithmeticOverflow),
        };
        let released = from_u128(sat_mul_u128(to_u128(inv.funded), new_bps as u128) / 10_000);
        let tv = match self.stats.total_volume.checked_add(released) {
            Some(x) => x,
            None => return Err(SplitError::TotalVolumeOverflow),
        };
        let tr = match self.stats.total_released.checked_add(released) {
            Some(x) => x,
            None => return Err(SplitError::TotalReleasedOverflow),
        };
        let mut fee_acts = fee_tax_payouts(token, me, inv.tax_authority, self.treasury, fee, tax);
        acts.append(&mut fee_acts);
        let done = rb >= 10_000;
        if done {
            let mut end = completion_payouts(&inv, id, token, me);
            acts.append(&mut end);
        }
        let inv2 = tranche_invoice_of(inv, rb, now);
        self.store_tranche(id, inv2, tv, tr, done, actor, now);
        Ok(acts)
    }
}

/// The platform fee and then the tax, as a stage release sends them.
pub open spec fn fee_then_tax_actions(token: Address, me: Address, tax_authority: Option<Address>, treasury: Option<Address>, fee: i128, tax: i128) -> Seq<Action> {
    (if fee > 0 {
        seq![Action::Transfer { token, from: me, to: treasury->0, amount: fee }]
    } else {
        Seq::empty()
    }) + (if tax > 0 {
        seq![Action::Transfer { token, from: me, to: tax_authority->0, amount: tax }]
    } else {
        Seq::empty()
    })
}

/// The checks of a stage release of invoice `id` by `creator`; the
/// invoice, the basis points of its next stage, its total and its token.
pub open spec fn stage_checks(s: SplitView, id: u64, creator: Address) -> Result<(InvoiceView, u32, i128, Address), SplitError> {
    if s.paused {
        Err(SplitError::ContractIsPaused)
    } else if !s.invoices.contains_key(id) {
        Err(SplitError::InvoiceNotFound)
    } else {
        let inv = s.inv(id);
        if inv.creator != creator {
            Err(SplitError::OnlyCreatorCanCallStageRelease)
        } else if inv.frozen {
            Err(SplitError::InvoiceIsFrozen)
        } else if inv.status != InvoiceStatus::Pending {
            Err(SplitError::InvoiceIsNotPending)
        } else if inv.release_stages.len() == 0 {
            Err(SplitError::NoReleaseStagesDefined)
        } else {
            match total_of(inv) {
                Err(e) => Err(e),
                Ok(total) => if inv.funded < total {
                    Err(SplitError::InvoiceNotFullyFunded)
                } else if inv.released_stages >= inv.release_stages.len() {
                    Err(SplitError::AllStagesAlreadyReleased)
                } else {
                    match token_of(inv) {
                        Err(e) => Err(e),
                        Ok(token) => Ok((inv, inv.release_stages[inv.released_stages as int], total, token)),
                    }
                },
            }
        }
    }
}

/// The invoice after its stage `rs - 1` is out: released, with the
/// insurance fund returned, after the last stage.
pub open spec fn stage_invoice(inv: InvoiceView, rs: u32, now: u64) -> InvoiceView {
    if rs >= inv.release_stages.len() {
        InvoiceView {
            status: InvoiceStatus::Released,
            completion_time: Some(now),
            insurance_fund: if inv.insurance_fund > 0 { 0 } else { inv.insurance_fund },
            released_stages: rs,
            ..inv
        }
    } else {
        InvoiceView { released_stages: rs, ..inv }
    }
}

/// What a stage release does once the payouts are known.
pub open spec fn stage_apply(s: SplitView, id: u64, inv: InvoiceView, creator: Address, now: u64, token: Address, bps: u32, acts: Seq<Action>, fee: i128, tax: i128) -> Result<(SplitView, Seq<Action>), SplitError> {
    let released = wrap_i128(sat_u128(as_u128(inv.funded) * bps) / 10_000);
    if fee > 0 && s.treasury is None {
        Err(SplitError::TreasuryNotSet)
    } else if tax > 0 && inv.tax_authority is None {
        Err(SplitError::MissingElement)
    } else if inv.released_stages + 1 > u32::MAX {
        Err(SplitError::ArithmeticOverflow)
    } else if !fits_i128(s.stats.total_volume + released) {
        Err(SplitError::TotalVolumeOverflow)
    } else if !fits_i128(s.stats.total_released + released) {
        Err(SplitError::TotalReleasedOverflow)
    } else {
        let rs = (inv.released_stages + 1) as u32;
        let done = rs >= inv.release_stages.len();
        Ok((
            SplitView {
                stats: Stats {
                    total_volume: (s.stats.total_volume + released) as i128,
                    total_released: (s.stats.total_released + released) as i128,
                    ..s.stats
                },
                audit_logs: s.audit_logs.insert(id, s.log(id).push(AuditEntry { action: AuditAction::StageRelease, actor: creator, timestamp: now })),
                invoices: s.invoices.insert(id, EntryView { invoice: stage_invoice(inv, rs, now), archived: false }),
                ..s
            },
            seq![Action::RequireAuth { who: creator }] + acts
                + fee_then_tax_actions(token, s.contract_address, inv.tax_authority, s.treasury, fee, tax)
                + (if done { completion_actions(inv, id, token, s.contract_address) } else { Seq::empty() }),
        ))
    }
}

/// Outcome of releasing the next stage of invoice `id`: each recipient
/// gets `amount * stage_bps * funded / (10_000 * total)` less fee and tax.
pub open spec fn stage_outcome(s: SplitView, id: u64, creator: Address, now: u64) -> Result<(SplitView, Seq<Action>), SplitError> {
    match stage_checks(s, id, creator) {
        Err(e) => Err(e),
        Ok((inv, bps, total, token)) => match tranche_lines(s, inv, token, bps, total, inv.recipients.len()) {
            Err(e) => Err(e),
            Ok((acts, fee, tax)) => stage_apply(s, id, inv, creator, now, token, bps, acts, fee, tax),
        },
    }
}

/// The transfers of `fee_then_tax_actions`.
pub fn fee_then_tax_payouts(token: Address, me: Address, tax_authority: Option<Address>, treasury: Option<Address>, fee: i128, tax: i128) -> (r: Vec<Action>)
    requires
        fee > 0 ==> treasury is Some,
        tax > 0 ==> tax_authority is Some,
    ensures
        r@ == fee_then_tax_actions(token, me, tax_authority, treasury, fee, tax),
{
    let mut acts: Vec<Action> = Vec::new();
    if fee > 0 {
        acts.push(Action::Transfer { token, from: me, to: treasury.unwrap(), amount: fee });
    }
    if tax > 0 {
        acts.push(Action::Transfer { token, from: me, to: tax_authority.unwrap(), amount: tax });
    }
    assert(acts@ =~= fee_then_tax_actions(token, me, tax_authority, treasury, fee, tax));
    acts
}

/// The invoice of `stage_invoice`.
pub fn stage_invoice_of(inv: Invoice, rs: u32, now: u64) -> (r: Invoice)
    ensures
        r@ == stage_invoice(inv@, rs, now),
{
    let mut m = inv;
    m.released_stages = rs;
    if rs as usize >= m.release_stages.len() {
        m.status = InvoiceStatus::Released;
        m.completion_time = Some(now);
        if m.insurance_fund > 0 {
            m.insurance_fund = 0;
        }
    }
    m
}

impl SplitContract {
    /// The checks of `stage_release`; see `stage_checks`.
    fn check_stage(&self, id: u64, creator: Address) -> (r: Result<(Invoice, u32, i128, Address), SplitError>)
        ensures
            match (r, stage_checks(self@, id, creator)) {
                (Ok((inv, b, t, tok)), Ok((si, sb, st, stok))) => inv@ == si && b == sb && t == st && tok == stok,
                (Err(e), Err(se)) => e == se,
                _ => false,
            },
    {
        if self.paused {
            return Err(SplitError::ContractIsPaused);
        }
        assert(self@.invoices.dom() =~= self.invoices@.dom());
        let inv = match self.invoices.get(&id) {
            None => return Err(SplitError::InvoiceNotFound),
            Some(e) => e.invoice.copy(),
        };
        if inv.creator != creator {
            return Err(SplitError::OnlyCreatorCanCallStageRelease);
        }
        if inv.frozen {
            return Err(SplitError::InvoiceIsFrozen);
        }
        if inv.status != InvoiceStatus::Pending {
            return Err(SplitError::InvoiceIsNotPending);
        }
        if inv.release_stages.len() == 0 {
            return Err(SplitError::NoReleaseStagesDefined);
        }
        let total = match invoice_total(&inv) {
            Ok(t) => t,
            Err(e) => return Err(e),
        };
        if inv.funded < total {
            return Err(SplitError::InvoiceNotFullyFunded);
        }
        if inv.released_stages as usize >= inv.release_stages.len() {
            return Err(SplitError::AllStagesAlreadyReleased);
        }
        let bps = inv.release_stages[inv.released_stages as usize];
        let token = match invoice_token(&inv) {
            Ok(t) => t,
            Err(e) => return Err(e),
        };
        Ok((inv, bps, total, token))
    }

    /// Fee, tax, counters and completion of a stage release; see `stage_apply`.
    fn apply_stage(&mut self, id: u64, inv: Invoice, creator: Address, now: u64, token: Address, bps: u32, acts: Vec<Action>, fee: i128, tax: i128) -> (r: Result<Vec<Action>, SplitError>)
        ensures
            matches_outcome(r, final(self)@, stage_apply(old(self)@, id, inv@, creator, now, token, bps, acts@, fee, tax)),
    {
        let me = self.contract_address;
        if fee > 0 && self.treasury.is_none() {
            return Err(SplitError::TreasuryNotSet);
        }
        if tax > 0 && inv.tax_authority.is_none() {
            return Err(SplitError::MissingElement);
        }
        let rs = match inv.released_stages.checked_add(1) {
            Some(x) => x,
            None => return Err(SplitError::ArithmeticOverflow),
        };
        let released = from_u128(sat_mul_u128(to_u128(inv.funded), bps as u128) / 10_000);
        let tv = match self.stats.total_volume.checked_add(released) {
            Some(x) => x,
            None => return Err(SplitError::TotalVolumeOverflow),
        };
        let tr = match self.stats.total_released.checked_add(released) {
            Some(x) => x,
            None => return Err(SplitError::TotalReleasedOverflow),
        };
        let mut all: Vec<Action> = Vec::new();
        all.push(Action::RequireAuth { who: creator });
        let mut acts = acts;
        all.append(&mut acts);
        let mut fee_acts = fee_then_tax_payouts(token, me, inv.tax_authority, self.treasury, fee, tax);
        all.append(&mut fee_acts);
        let done = rs as usize >= inv.release_stages.len();
        if done {
            let mut end = completion_payouts(&inv, id, token, me);
            all.append(&mut end);
        }
        let inv2 = stage_invoice_of(inv, rs, now);
        self.stats = Stats { total_volume: tv, total_released: tr, ..self.stats };
        self.append_audit(id, AuditAction::StageRelease, creator, now);
        self.put_invoice(id, inv2, false);
        Ok(all)
    }

    /// Release the next predefined stage of invoice `invoice_id`, by its
    /// creator; the last stage completes the release. A failed call changes
    /// nothing.
    pub fn stage_release(&mut self, invoice_id: u64, creator: Address, now: u64) -> (r: Result<Vec<Action>, SplitError>)
        ensures
            exact_outcome(r, old(self)@, final(self)@, stage_outcome(old(self)@, invoice_id, creator, now)),
    {
        let saved = self.snapshot();
        let r = self.stage_release_attempt(invoice_id, creator, now);
        if r.is_err() {
            *self = saved;
        }
        r
    }

    /// `stage_release` up to the point where a failure is rolled back.
    fn stage_release_attempt(&mut self, invoice_id: u64, creator: Address, now: u64) -> (r: Result<Vec<Action>, SplitError>)
        ensures
            matches_outcome(r, final(self)@, stage_outcome(old(self)@, invoice_id, creator, now)),
    {
        let (inv, bps, total, token) = match self.check_stage(invoice_id, creator) {
            Ok(x) => x,
            Err(e) => return Err(e),
        };
        let (acts, fee, tax) = match self.tranche_payouts(&inv, token, bps, total) {
            Ok(x) => x,
            Err(e) => return Err(e),
        };
        self.apply_stage(invoice_id, inv, creator, now, token, bps, acts, fee, tax)
    }
}

} // verus!
