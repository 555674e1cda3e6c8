//! Payouts outside a full release: claims of released invoices, vested
//! drips and partial releases of pending invoices.

use vstd::prelude::*;
use crate::types::{Address, AuditAction, AuditEntry, InvoiceStatus};
use crate::invoice::{Invoice, InvoiceView};
use crate::effects::{Action, Event, SplitError};
use crate::math::{mul_div_spec, bps_of_spec, mul_div, bps_of};
use crate::distribution::fits_i128;
use crate::state::{EntryView, SplitContract, SplitView};
use crate::release::{total_of, invoice_total, matches_outcome, exact_outcome};

verus! {

/// Position of the first occurrence of `a` in `s` from `i` on, if any.
pub open spec fn position_from(s: Seq<Address>, a: Address, i: int) -> Option<int>
    decreases s.len() - i,
{
    if i < 0 || i >= s.len() {
        None
    } else if s[i] == a {
        Some(i)
    } else {
        position_from(s, a, i + 1)
    }
}

/// Sum of the proportional shares `amounts[i] * funded / total` of the
/// first `k` recipients; `None` where a share or the sum overflows.
pub open spec fn share_prefix(amounts: Seq<i128>, funded: i128, total: i128, k: nat) -> Option<i128>
    decreases k,
{
    if k == 0 {
        Some(0i128)
    } else {
        match share_prefix(amounts, funded, total, (k - 1) as nat) {
            None => None,
            Some(acc) => match mul_div_spec(amounts[k - 1], funded, total) {
                None => None,
                Some(p) => if fits_i128(acc + p) { Some((acc + p) as i128) } else { None },
            },
        }
    }
}

/// `claimed` with the claim flag 1 set at `idx`, first extended with zeros
/// where it is shorter.
pub open spec fn mark_claimed(claimed: Seq<i128>, idx: int) -> Seq<i128> {
    if idx < claimed.len() {
        claimed.update(idx, 1)
    } else {
        claimed + Seq::new((idx - claimed.len()) as nat, |i: int| 0i128) + seq![1i128]
    }
}

/// Outcome of a claim by `recipient` on released invoice `id`: its share
/// (the remainder after the others' shares for the last recipient) less
/// platform fee and tax; the tax goes to the tax authority. The claim is
/// flagged on the invoice, so that each recipient claims once.
pub open spec fn claim_outcome(s: SplitView, id: u64, recipient: Address, now: u64) -> Result<(SplitView, Seq<Action>), SplitError> {
    if s.paused {
        Err(SplitError::ContractIsPaused)
    } else if !s.invoices.contains_key(id) {
        Err(SplitError::InvoiceNotFound)
    } else {
        let inv = s.inv(id);
        if inv.status != InvoiceStatus::Released {
            Err(SplitError::InvoiceNotReleased)
        } else {
            match position_from(inv.recipients, recipient, 0) {
                None => Err(SplitError::RecipientNotInInvoice),
                Some(idx) => if idx < inv.claimed.len() && inv.claimed[idx] != 0 {
                    Err(SplitError::RecipientAlreadyClaimed)
                } else if idx >= inv.amounts.len() {
                    Err(SplitError::MissingElement)
                } else {
                    match total_of(inv) {
                        Err(e) => Err(e),
                        Ok(total) => {
                            let prop = if idx == inv.recipients.len() - 1 {
                                match share_prefix(inv.amounts, inv.funded, total, idx as nat) {
                                    None => None,
                                    Some(sum) => if fits_i128(inv.funded - sum) { Some((inv.funded - sum) as i128) } else { None },
                                }
                            } else {
                                mul_div_spec(inv.amounts[idx], inv.funded, total)
                            };
                            match prop {
                                None => Err(SplitError::ArithmeticOverflow),
                                Some(p) => match (bps_of_spec(p, s.platform_fee_bps), bps_of_spec(p, inv.tax_bps)) {
                                    (Some(fee), Some(tax)) => if !fits_i128(p - fee) || !fits_i128(p - fee - tax) {
                                        Err(SplitError::ArithmeticOverflow)
                                    } else if idx >= inv.tokens.len() {
                                        Err(SplitError::NoToken)
                                    } else if tax > 0 && inv.tax_authority is None {
                                        Err(SplitError::MissingElement)
                                    } else {
                                        let token = inv.tokens[idx];
                                        let me = s.contract_address;
                                        Ok((
                                            SplitView {
                                                invoices: s.invoices.insert(id, EntryView {
                                                    invoice: InvoiceView { claimed: mark_claimed(inv.claimed, idx), ..inv },
                                                    archived: false,
                                                }),
                                                audit_logs: s.audit_logs.insert(id, s.log(id).push(AuditEntry { action: AuditAction::Claim, actor: recipient, timestamp: now })),
                                                ..s
                                            },
                                            seq![Action::RequireAuth { who: recipient }] + (if tax > 0 {
                                                seq![Action::Transfer { token, from: me, to: inv.tax_authority->0, amount: tax }]
                                            } else {
                                                Seq::empty()
                                            }) + seq![Action::Transfer { token, from: me, to: recipient, amount: (p - fee - tax) as i128 }],
                                        ))
                                    },
                                    _ => Err(SplitError::ArithmeticOverflow),
                                },
                            }
                        },
                    }
                },
            }
        }
    }
}

/// `a / b` rounded toward zero, as Rust divides integers (for `b > 0`).
pub open spec fn trunc_div(a: int, b: int) -> int {
    if a >= 0 { a / b } else { -((-a) / b) }
}

/// Amount of `total` vested `elapsed` seconds into a drip of `duration`
/// seconds; `None` where the product overflows.
pub open spec fn vested(total: i128, elapsed: u64, duration: u64) -> Option<i128> {
    if elapsed >= duration {
        Some(total)
    } else if !fits_i128(elapsed * total) {
        None
    } else {
        Some(trunc_div(elapsed * total, duration as int) as i128)
    }
}

/// Outcome of a drip claim by `recipient` on released invoice `id` at
/// `now`: what vested since the release timestamp and was not yet claimed.
pub open spec fn drip_outcome(s: SplitView, id: u64, recipient: Address, now: u64) -> Result<(SplitView, Seq<Action>), SplitError> {
    if !s.invoices.contains_key(id) {
        Err(SplitError::InvoiceNotFound)
    } else {
        let inv = s.inv(id);
        if inv.status != InvoiceStatus::Released {
            Err(SplitError::InvoiceNotReleased)
        } else if inv.drip_duration is None {
            Err(SplitError::NoDripSchedule)
        } else if inv.release_timestamp is None {
            Err(SplitError::NoReleaseTimestamp)
        } else {
            match position_from(inv.recipients, recipient, 0) {
                None => Err(SplitError::RecipientNotFound),
                Some(idx) => if idx >= inv.amounts.len() || idx >= inv.claimed.len() {
                    Err(SplitError::MissingElement)
                } else {
                    let elapsed = if now >= inv.release_timestamp->0 { (now - inv.release_timestamp->0) as u64 } else { 0u64 };
                    match vested(inv.amounts[idx], elapsed, inv.drip_duration->0) {
                        None => Err(SplitError::ArithmeticOverflow),
                        Some(v) => if !fits_i128(v - inv.claimed[idx]) {
                            Err(SplitError::ArithmeticOverflow)
                        } else if v - inv.claimed[idx] <= 0 {
                            Err(SplitError::NothingToClaim)
                        } else if inv.tokens.len() == 0 {
                            Err(SplitError::NoToken)
                        } else {
                            Ok((
                                SplitView {
                                    invoices: s.invoices.insert(id, EntryView {
                                        invoice: InvoiceView { claimed: inv.claimed.update(idx, v), ..inv },
                                        archived: false,
                                    }),
                                    ..s
                                },
                                seq![Action::Transfer { token: inv.tokens[0], from: s.contract_address, to: recipient, amount: (v - inv.claimed[idx]) as i128 }],
                            ))
                        },
                    }
                },
            }
        }
    }
}

/// Position of `a` in `s`; see `position_from`.
pub fn position_of(s: &Vec<Address>, a: Address) -> (r: Option<usize>)
    ensures
        match position_from(s@, a, 0) {
            Some(i) => r is Some && r->0 as int == i && 0 <= i < s@.len(),
            None => r is None,
        },
{
    let mut i: usize = 0;
    while i < s.len()
        invariant
            i <= s.len(),
            position_from(s@, a, i as int) == position_from(s@, a, 0),
        decreases s.len() - i,
    {
        if s[i] == a {
            return Some(i);
        }
        i = i + 1;
    }
    None
}

pub proof fn lemma_share_prefix_none_persists(amounts: Seq<i128>, funded: i128, total: i128, k: nat, n: nat)
    requires
        k <= n,
        share_prefix(amounts, funded, total, k) is None,
    ensures
        share_prefix(amounts, funded, total, n) is None,
    decreases n - k,
{
    if k < n {
        lemma_share_prefix_none_persists(amounts, funded, total, k, (n - 1) as nat);
    }
}

/// Sum of the first `k` proportional shares; see `share_prefix`.
pub fn share_prefix_of(amounts: &Vec<i128>, funded: i128, total: i128, k: usize) -> (r: Option<i128>)
    requires
        k <= amounts@.len(),
    ensures
        r == share_prefix(amounts@, funded, total, k as nat),
{
    let mut acc: i128 = 0;
    let mut i: usize = 0;
    while i < k
        invariant
            i <= k,
            k <= amounts@.len(),
            share_prefix(amounts@, funded, total, i as nat) == Some(acc),
        decreases k - i,
    {
        let next = match mul_div(amounts[i], funded, total) {
            None => None,
            Some(p) => acc.checked_add(p),
        };
        match next {
            Some(x) => {
                acc = x;
            },
            None => {
                proof { lemma_share_prefix_none_persists(amounts@, funded, total, (i + 1) as nat, k as nat); }
                return None;
            },
        }
        i = i + 1;
    }
    Some(acc)
}

/// Vested amount; see `vested`.
pub fn vested_of(total: i128, elapsed: u64, duration: u64) -> (r: Option<i128>)
    ensures
        r == vested(total, elapsed, duration),
{
    if elapsed >= duration {
        return Some(total);
    }
    match (elapsed as i128).checked_mul(total) {
        None => None,
        Some(p) => {
            if p >= 0 {
                Some(p / (duration as i128))
            } else {
                let a: u128 = ((-(p + 1)) as u128) + 1;
                let q: u128 = a / (duration as u128);
                if q == 0x8000_0000_0000_0000_0000_0000_0000_0000u128 {
                    Some(i128::MIN)
                } else {
                    Some(-(q as i128))
                }
            }
        },
    }
}

/// Set the claim flag at `idx`; see `mark_claimed`.
fn mark_claimed_in(claimed: &mut Vec<i128>, idx: usize)
    ensures
        final(claimed)@ == mark_claimed(old(claimed)@, idx as int),
{
    if idx < claimed.len() {
        claimed.set(idx, 1);
    } else {
        let ghost c0 = claimed@;
        while claimed.len() < idx
            invariant
                c0.len() <= claimed.len() <= idx,
                claimed@ == c0 + Seq::new((claimed.len() - c0.len()) as nat, |i: int| 0i128),
            decreases idx - claimed.len(),
        {
            let ghost before = claimed@;
            claimed.push(0);
            assert(claimed@ =~= c0 + Seq::new((claimed.len() - c0.len()) as nat, |i: int| 0i128));
        }
        claimed.push(1);
        assert(claimed@ =~= c0 + Seq::new((idx - c0.len()) as nat, |i: int| 0i128) + seq![1i128]);
    }
}

impl SplitContract {
    /// Store invoice `id` with the claim at `idx` flagged, and log the claim.
    fn store_claim(&mut self, id: u64, inv: Invoice, idx: usize, recipient: Address, now: u64)
        ensures
            final(self)@ == (SplitView {
                invoices: old(self)@.invoices.insert(id, EntryView {
                    invoice: InvoiceView { claimed: mark_claimed(inv@.claimed, idx as int), ..inv@ },
                    archived: false,
                }),
                audit_logs: old(self)@.audit_logs.insert(id, old(self)@.log(id).push(AuditEntry { action: AuditAction::Claim, actor: recipient, timestamp: now })),
                ..old(self)@
            }),
    {
        let ghost v0 = inv@;
        let mut inv = inv;
        mark_claimed_in(&mut inv.claimed, idx);
        assert(inv@ == InvoiceView { claimed: mark_claimed(v0.claimed, idx as int), ..v0 });
        self.put_invoice(id, inv, false);
        self.append_audit(id, AuditAction::Claim, recipient, now);
    }

    /// Claim the share of `recipient` on released invoice `invoice_id` at
    /// `now`. A failed call changes nothing.
    pub fn claim(&mut self, invoice_id: u64, recipient: Address, now: u64) -> (r: Result<Vec<Action>, SplitError>)
        ensures
            exact_outcome(r, old(self)@, final(self)@, claim_outcome(old(self)@, invoice_id, recipient, now)),
    {
        let saved = self.snapshot();
        let r = self.claim_attempt(invoice_id, recipient, now);
        if r.is_err() {
            *self = saved;
        }
        r
    }

    /// `claim` up to the point where a failure is rolled back.
    fn claim_attempt(&mut self, invoice_id: u64, recipient: Address, now: u64) -> (r: Result<Vec<Action>, SplitError>)
        ensures
            matches_outcome(r, final(self)@, claim_outcome(old(self)@, invoice_id, recipient, now)),
    {
        if self.paused {
            return Err(SplitError::ContractIsPaused);
        }
        let inv = match self.load_invoice(invoice_id) {
            Ok(i) => i,
            Err(e) => return Err(e),
        };
        if inv.status != InvoiceStatus::Released {
            return Err(SplitError::InvoiceNotReleased);
        }
        let idx = match position_of(&inv.recipients, recipient) {
            Some(i) => i,
            None => return Err(SplitError::RecipientNotInInvoice),
        };
        if idx < inv.claimed.len() && inv.claimed[idx] != 0 {
            return Err(SplitError::RecipientAlreadyClaimed);
        }
        if idx >= inv.amounts.len() {
            return Err(SplitError::MissingElement);
        }
        let total = match invoice_total(&inv) {
            Ok(t) => t,
            Err(e) => return Err(e),
        };
        let prop = if idx == inv.recipients.len() - 1 {
            match share_prefix_of(&inv.amounts, inv.funded, total, idx) {
                None => None,
                Some(sum) => inv.funded.checked_sub(sum),
            }
        } else {
            mul_div(inv.amounts[idx], inv.funded, total)
        };
        let p = match prop {
            Some(x) => x,
            None => return Err(SplitError::ArithmeticOverflow),
        };
        let (fee, tax) = match (bps_of(p, self.platform_fee_bps), bps_of(p, inv.tax_bps)) {
            (Some(f), Some(t)) => (f, t),
            _ => return Err(SplitError::ArithmeticOverflow),
        };
        let payout = match p.checked_sub(fee) {
            Some(x) => match x.checked_sub(tax) {
                Some(y) => y,
                None => return Err(SplitError::ArithmeticOverflow),
            },
            None => return Err(SplitError::ArithmeticOverflow),
        };
        if idx >= inv.tokens.len() {
            return Err(SplitError::NoToken);
        }
        if tax > 0 && inv.tax_authority.is_none() {
            return Err(SplitError::MissingElement);
        }
        let token = inv.tokens[idx];
        let me = self.contract_address;
        let mut acts: Vec<Action> = Vec::new();
        acts.push(Action::RequireAuth { who: recipient });
        if tax > 0 {
            acts.push(Action::Transfer { token, from: me, to: inv.tax_authority.unwrap(), amount: tax });
        }
        acts.push(Action::Transfer { token, from: me, to: recipient, amount: payout });
        let ghost sp = claim_outcome(old(self)@, invoice_id, recipient, now);
        assert(acts@ =~= sp->Ok_0.1);
        self.store_claim(invoice_id, inv, idx, recipient, now);
        Ok(acts)
    }

    /// Claim what vested for `recipient` on released invoice `invoice_id`
    /// by `now` and was not yet claimed.
    pub fn drip_claim(&mut self, invoice_id: u64, recipient: Address, now: u64) -> (r: Result<Vec<Action>, SplitError>)
        ensures
            match drip_outcome(old(self)@, invoice_id, recipient, now) {
                Ok((s2, acts)) => r is Ok && r->Ok_0@ == acts && final(self)@ == s2,
                Err(e) => r == Err::<Vec<Action>, SplitError>(e) && final(self)@ == old(self)@,
            },
    {
        let inv = match self.load_invoice(invoice_id) {
            Ok(i) => i,
            Err(e) => return Err(e),
        };
        if inv.status != InvoiceStatus::Released {
            return Err(SplitError::InvoiceNotReleased);
        }
        let duration = match inv.drip_duration {
            Some(d) => d,
            None => return Err(SplitError::NoDripSchedule),
        };
        let release_ts = match inv.release_timestamp {
            Some(t) => t,
            None => return Err(SplitError::NoReleaseTimestamp),
        };
        let idx = match position_of(&inv.recipients, recipient) {
            Some(i) => i,
            None => return Err(SplitError::RecipientNotFound),
        };
        if idx >= inv.amounts.len() || idx >= inv.claimed.len() {
            return Err(SplitError::MissingElement);
        }
        let already = inv.claimed[idx];
        let elapsed = now.saturating_sub(release_ts);
        let v = match vested_of(inv.amounts[idx], elapsed, duration) {
            Some(x) => x,
            None => return Err(SplitError::ArithmeticOverflow),
        };
        let claimable = match v.checked_sub(already) {
            Some(x) => x,
            None => return Err(SplitError::ArithmeticOverflow),
        };
        if claimable <= 0 {
            return Err(SplitError::NothingToClaim);
        }
        if inv.tokens.len() == 0 {
            return Err(SplitError::NoToken);
        }
        let mut acts: Vec<Action> = Vec::new();
        acts.push(Action::Transfer { token: inv.tokens[0], from: self.contract_address, to: recipient, amount: claimable });
        let mut inv2 = inv;
        inv2.claimed.set(idx, v);
        self.put_invoice(invoice_id, inv2, false);
        Ok(acts)
    }
}

/// Position in the first `k` entries of `pool` of the recipient with the
/// lowest priority, the first of equals; starts from position 0 and
/// priority `u32::MAX`.
pub open spec fn best_in_pool(pr: Seq<u32>, pool: Seq<usize>, k: nat) -> Result<(int, u32), SplitError>
    decreases k,
{
    if k == 0 {
        Ok((0, u32::MAX))
    } else {
        match best_in_pool(pr, pool, (k - 1) as nat) {
            Err(e) => Err(e),
            Ok((bp, bpri)) => {
                let idx = pool[k - 1] as int;
                if idx >= pr.len() {
                    Err(SplitError::MissingElement)
                } else if pr[idx] < bpri {
                    Ok((k - 1, pr[idx]))
                } else {
                    Ok((bp, bpri))
                }
            },
        }
    }
}

/// `r` with `s` in front, where it is a success.
pub open spec fn prepend(s: Seq<usize>, r: Result<Seq<usize>, SplitError>) -> Result<Seq<usize>, SplitError> {
    match r {
        Err(e) => Err(e),
        Ok(x) => Ok(s + x),
    }
}

/// The recipients of `pool` in ascending priority, picked one by one
/// (selection order) for `steps` steps.
pub open spec fn priority_order(pr: Seq<u32>, pool: Seq<usize>, steps: nat) -> Result<Seq<usize>, SplitError>
    decreases steps,
{
    if steps == 0 {
        Ok(Seq::empty())
    } else {
        match best_in_pool(pr, pool, pool.len()) {
            Err(e) => Err(e),
            Ok((bp, _)) => if bp >= pool.len() {
                Err(SplitError::MissingElement)
            } else {
                prepend(seq![pool[bp]], priority_order(pr, pool.remove(bp), (steps - 1) as nat))
            },
        }
    }
}

/// Payments in priority order out of `remaining`: each recipient in
/// `order` whose whole amount is still covered is paid it.
pub open spec fn priority_payouts(inv: InvoiceView, token: Address, me: Address, order: Seq<usize>, remaining: i128, k: nat) -> Result<(Seq<Action>, i128), SplitError>
    decreases k,
{
    if k == 0 {
        Ok((Seq::empty(), remaining))
    } else {
        match priority_payouts(inv, token, me, order, remaining, (k - 1) as nat) {
            Err(e) => Err(e),
            Ok((acts, rem)) => {
                let idx = order[k - 1] as int;
                if idx >= inv.recipients.len() || idx >= inv.amounts.len() {
                    Err(SplitError::MissingElement)
                } else if rem >= inv.amounts[idx] {
                    if !fits_i128(rem - inv.amounts[idx]) {
                        Err(SplitError::ArithmeticOverflow)
                    } else {
                        Ok((
                            acts.push(Action::Transfer { token, from: me, to: inv.recipients[idx], amount: inv.amounts[idx] }),
                            (rem - inv.amounts[idx]) as i128,
                        ))
                    }
                } else {
                    Ok((acts, rem))
                }
            },
        }
    }
}

/// Proportional payments of `amount`: `amount * amounts[i] / total` each,
/// the remainder to the last recipient; with the running sum.
pub open spec fn proportional_payouts(inv: InvoiceView, token: Address, me: Address, amount: i128, total: i128, k: nat) -> Result<(Seq<Action>, i128), SplitError>
    decreases k,
{
    if k == 0 {
        Ok((Seq::empty(), 0i128))
    } else {
        match proportional_payouts(inv, token, me, amount, total, (k - 1) as nat) {
            Err(e) => Err(e),
            Ok((acts, dist)) => {
                let i = k - 1;
                if i >= inv.amounts.len() {
                    Err(SplitError::MissingElement)
                } else {
                    let share = if i == inv.recipients.len() - 1 {
                        if fits_i128(amount - dist) { Some((amount - dist) as i128) } else { None }
                    } else {
                        mul_div_spec(amount, inv.amounts[i], total)
                    };
                    match share {
                        None => Err(SplitError::ArithmeticOverflow),
                        Some(sh) => if !fits_i128(dist + sh) {
                            Err(SplitError::ArithmeticOverflow)
                        } else {
                            Ok((
                                if sh > 0 { acts.push(Action::Transfer { token, from: me, to: inv.recipients[i], amount: sh }) } else { acts },
                                (dist + sh) as i128,
                            ))
                        },
                    }
                }
            },
        }
    }
}

/// The indices `0..n`.
pub open spec fn index_pool(n: nat) -> Seq<usize> {
    Seq::new(n, |i: int| i as usize)
}

/// The transfers of a partial release of `amount` from `inv`.
pub open spec fn partial_payouts(inv: InvoiceView, token: Address, me: Address, amount: i128) -> Result<Seq<Action>, SplitError> {
    let n = inv.recipients.len();
    if inv.priorities.len() > 0 {
        match priority_order(inv.priorities, index_pool(n), n) {
            Err(e) => Err(e),
            Ok(order) => match priority_payouts(inv, token, me, order, amount, n) {
                Err(e) => Err(e),
                Ok((acts, _)) => Ok(acts),
            },
        }
    } else {
        match total_of(inv) {
            Err(e) => Err(e),
            Ok(total) => match proportional_payouts(inv, token, me, amount, total, n) {
                Err(e) => Err(e),
                Ok((acts, _)) => Ok(acts),
            },
        }
    }
}

/// Outcome of a partial release of `amount` from pending invoice `id` by
/// its creator: in priority order where priorities are set, proportionally
/// otherwise; the funded amount drops by `amount` and the invoice stays
/// pending.
pub open spec fn partial_outcome(s: SplitView, id: u64, creator: Address, amount: i128, now: u64) -> Result<(SplitView, Seq<Action>), SplitError> {
    if s.paused {
        Err(SplitError::ContractIsPaused)
    } else if !s.invoices.contains_key(id) {
        Err(SplitError::InvoiceNotFound)
    } else {
        let inv = s.inv(id);
        if inv.creator != creator {
            Err(SplitError::OnlyCreatorCanCallPartialRelease)
        } else if inv.frozen {
            Err(SplitError::InvoiceIsFrozen)
        } else if inv.status != InvoiceStatus::Pending {
            Err(SplitError::InvoiceIsNotPending)
        } else if amount <= 0 {
            Err(SplitError::AmountMustBePositive)
        } else if amount > inv.funded {
            Err(SplitError::AmountExceedsFundedBalance)
        } else if inv.tokens.len() == 0 {
            Err(SplitError::NoToken)
        } else {
            match partial_payouts(inv, inv.tokens[0], s.contract_address, amount) {
                Err(e) => Err(e),
                Ok(acts) => Ok((
                    SplitView {
                        invoices: s.invoices.insert(id, EntryView { invoice: InvoiceView { funded: (inv.funded - amount) as i128, ..inv }, archived: false }),
                        audit_logs: s.audit_logs.insert(id, s.log(id).push(AuditEntry { action: AuditAction::PartialRelease, actor: creator, timestamp: now })),
                        ..s
                    },
                    seq![Action::RequireAuth { who: creator }] + acts + seq![Action::Emit { event: Event::InvoicePartiallyReleased { invoice_id: id } }],
                )),
            }
        }
    }
}

pub proof fn lemma_best_in_pool_err_persists(pr: Seq<u32>, pool: Seq<usize>, k: nat, n: nat)
    requires
        k <= n,
        best_in_pool(pr, pool, k) is Err,
    ensures
        best_in_pool(pr, pool, n) == best_in_pool(pr, pool, k),
    decreases n - k,
{
    if k < n {
        lemma_best_in_pool_err_persists(pr, pool, k, (n - 1) as nat);
    }
}

pub proof fn lemma_best_in_pool_range(pr: Seq<u32>, pool: Seq<usize>, k: nat)
    ensures
        best_in_pool(pr, pool, k) is Ok ==> 0 <= best_in_pool(pr, pool, k)->Ok_0.0 && (k > 0 ==> best_in_pool(pr, pool, k)->Ok_0.0 < k),
    decreases k,
{
    if k > 0 {
        lemma_best_in_pool_range(pr, pool, (k - 1) as nat);
    }
}

pub proof fn lemma_priority_payouts_err_persists(inv: InvoiceView, token: Address, me: Address, order: Seq<usize>, remaining: i128, k: nat, n: nat)
    requires
        k <= n,
        priority_payouts(inv, token, me, order, remaining, k) is Err,
    ensures
        priority_payouts(inv, token, me, order, remaining, n) == priority_payouts(inv, token, me, order, remaining, k),
    decreases n - k,
{
    if k < n {
        lemma_priority_payouts_err_persists(inv, token, me, order, remaining, k, (n - 1) as nat);
    }
}

pub proof fn lemma_proportional_payouts_err_persists(inv: InvoiceView, token: Address, me: Address, amount: i128, total: i128, k: nat, n: nat)
    requires
        k <= n,
        proportional_payouts(inv, token, me, amount, total, k) is Err,
    ensures
        proportional_payouts(inv, token, me, amount, total, n) == proportional_payouts(inv, token, me, amount, total, k),
    decreases n - k,
{
    if k < n {
        lemma_proportional_payouts_err_persists(inv, token, me, amount, total, k, (n - 1) as nat);
    }
}

/// Position in `pool` of the lowest priority; see `best_in_pool`.
pub fn best_position(pr: &Vec<u32>, pool: &Vec<usize>) -> (r: Result<usize, SplitError>)
    ensures
        match (r, best_in_pool(pr@, pool@, pool@.len())) {
            (Ok(p), Ok((sp, _))) => p as int == sp,
            (Err(e), Err(se)) => e == se,
            _ => false,
        },
{
    let mut best_pos: usize = 0;
    let mut best_pri: u32 = u32::MAX;
    let mut i: usize = 0;
    while i < pool.len()
        invariant
            i <= pool.len(),
            best_in_pool(pr@, pool@, i as nat) == Ok::<(int, u32), SplitError>((best_pos as int, best_pri)),
        decreases pool.len() - i,
    {
        let idx = pool[i];
        if idx >= pr.len() {
            proof { lemma_best_in_pool_err_persists(pr@, pool@, (i + 1) as nat, pool@.len()); }
            return Err(SplitError::MissingElement);
        }
        let p = pr[idx];
        if p < best_pri {
            best_pri = p;
            best_pos = i;
        }
        i = i + 1;
    }
    Ok(best_pos)
}

/// Recipient indices in ascending priority; see `priority_order`.
pub fn priority_order_of(pr: &Vec<u32>, n: usize) -> (r: Result<Vec<usize>, SplitError>)
    ensures
        match (r, priority_order(pr@, index_pool(n as nat), n as nat)) {
            (Ok(o), Ok(so)) => o@ == so,
            (Err(e), Err(se)) => e == se,
            _ => false,
        },
{
    let mut pool: Vec<usize> = Vec::new();
    let mut i: usize = 0;
    while i < n
        invariant
            i <= n,
            pool@ == index_pool(i as nat),
        decreases n - i,
    {
        pool.push(i);
        assert(pool@ =~= index_pool((i + 1) as nat));
        i = i + 1;
    }
    let ghost full = priority_order(pr@, index_pool(n as nat), n as nat);
    let mut sorted: Vec<usize> = Vec::new();
    let mut t: usize = 0;
    while t < n
        invariant
            t <= n,
            pool@.len() == n - t,
            full == priority_order(pr@, index_pool(n as nat), n as nat),
            full == prepend(sorted@, priority_order(pr@, pool@, (n - t) as nat)),
        decreases n - t,
    {
        let bp = match best_position(pr, &pool) {
            Ok(p) => p,
            Err(e) => {
                assert(priority_order(pr@, pool@, (n - t) as nat) == Err::<Seq<usize>, SplitError>(e));
                return Err(e);
            },
        };
        proof { lemma_best_in_pool_range(pr@, pool@, pool@.len()); }
        let chosen = pool[bp];
        let ghost rest = priority_order(pr@, pool@.remove(bp as int), (n - t - 1) as nat);
        let mut new_pool: Vec<usize> = Vec::new();
        let mut j: usize = 0;
        while j < pool.len()
            invariant
                j <= pool.len(),
                bp < pool.len(),
                new_pool@ == (if j <= bp { pool@.take(j as int) } else { pool@.take(bp as int) + pool@.subrange(bp as int + 1, j as int) }),
            decreases pool.len() - j,
        {
            if j != bp {
                new_pool.push(pool[j]);
            }
            proof {
                if j < bp {
                    assert(new_pool@ =~= pool@.take(j + 1));
                } else if j == bp {
                    assert(new_pool@ =~= pool@.take(bp as int) + pool@.subrange(bp as int + 1, j + 1));
                } else {
                    assert(new_pool@ =~= pool@.take(bp as int) + pool@.subrange(bp as int + 1, j + 1));
                }
            }
            j = j + 1;
        }
        assert(new_pool@ =~= pool@.remove(bp as int));
        proof {
            assert(sorted@ + (seq![chosen] + rest->Ok_0) =~= sorted@.push(chosen) + rest->Ok_0);
        }
        sorted.push(chosen);
        pool = new_pool;
        t = t + 1;
    }
    assert(sorted@ + Seq::<usize>::empty() =~= sorted@);
    Ok(sorted)
}
/// Payments in priority order; see `priority_payouts`.
pub fn priority_payments(inv: &Invoice, token: Address, me: Address, order: &Vec<usize>, amount: i128) -> (r: Result<Vec<Action>, SplitError>)
    requires
        order@.len() == inv@.recipients.len(),
    ensures
        match (r, priority_payouts(inv@, token, me, order@, amount, order@.len())) {
            (Ok(a), Ok((sa, _))) => a@ == sa,
            (Err(e), Err(se)) => e == se,
            _ => false,
        },
{
    let mut acts: Vec<Action> = Vec::new();
    let mut rem: i128 = amount;
    let mut k: usize = 0;
    while k < order.len()
        invariant
            k <= order.len(),
            priority_payouts(inv@, token, me, order@, amount, k as nat) == Ok::<(Seq<Action>, i128), SplitError>((acts@, rem)),
        decreases order.len() - k,
    {
        let idx = order[k];
        if idx >= inv.recipients.len() || idx >= inv.amounts.len() {
            proof { lemma_priority_payouts_err_persists(inv@, token, me, order@, amount, (k + 1) as nat, order@.len()); }
            return Err(SplitError::MissingElement);
        }
        let a = inv.amounts[idx];
        if rem >= a {
            match rem.checked_sub(a) {
                Some(x) => {
                    acts.push(Action::Transfer { token, from: me, to: inv.recipients[idx], amount: a });
                    rem = x;
                },
                None => {
                    proof { lemma_priority_payouts_err_persists(inv@, token, me, order@, amount, (k + 1) as nat, order@.len()); }
                    return Err(SplitError::ArithmeticOverflow);
                },
            }
        }
        k = k + 1;
    }
    Ok(acts)
}

/// Proportional payments; see `proportional_payouts`.
pub fn proportional_payments(inv: &Invoice, token: Address, me: Address, amount: i128, total: i128) -> (r: Result<Vec<Action>, SplitError>)
    ensures
        match (r, proportional_payouts(inv@, token, me, amount, total, inv@.recipients.len())) {
            (Ok(a), Ok((sa, _))) => a@ == sa,
            (Err(e), Err(se)) => e == se,
            _ => false,
        },
{
    let n = inv.recipients.len();
    let mut acts: Vec<Action> = Vec::new();
    let mut dist: i128 = 0;
    let mut i: usize = 0;
    while i < n
        invariant
            i <= n,
            n == inv@.recipients.len(),
            proportional_payouts(inv@, token, me, amount, total, i as nat) == Ok::<(Seq<Action>, i128), SplitError>((acts@, dist)),
        decreases n - i,
    {
        if i >= inv.amounts.len() {
            proof { lemma_proportional_payouts_err_persists(inv@, token, me, amount, total, (i + 1) as nat, n as nat); }
            return Err(SplitError::MissingElement);
        }
        let share = if i == n - 1 { amount.checked_sub(dist) } else { mul_div(amount, inv.amounts[i], total) };
        let (sh, nd) = match share {
            Some(sh) => match dist.checked_add(sh) {
                Some(nd) => (sh, nd),
                None => {
                    proof { lemma_proportional_payouts_err_persists(inv@, token, me, amount, total, (i + 1) as nat, n as nat); }
                    return Err(SplitError::ArithmeticOverflow);
                },
            },
            None => {
                proof { lemma_proportional_payouts_err_persists(inv@, token, me, amount, total, (i + 1) as nat, n as nat); }
                return Err(SplitError::ArithmeticOverflow);
            },
        };
        if sh > 0 {
            acts.push(Action::Transfer { token, from: me, to: inv.recipients[i], amount: sh });
        }
        dist = nd;
        i = i + 1;
    }
    Ok(acts)
}

/// The transfers of a partial release; see `partial_payouts`.
pub fn partial_payments(inv: &Invoice, token: Address, me: Address, amount: i128) -> (r: Result<Vec<Action>, SplitError>)
    ensures
        match (r, partial_payouts(inv@, token, me, amount)) {
            (Ok(a), Ok(sa)) => a@ == sa,
            (Err(e), Err(se)) => e == se,
            _ => false,
        },
{
    let n = inv.recipients.len();
    if inv.priorities.len() > 0 {
        let order = match priority_order_of(&inv.priorities, n) {
            Ok(o) => o,
            Err(e) => return Err(e),
        };
        proof { lemma_priority_order_len(inv@.priorities, index_pool(n as nat), n as nat); }
        priority_payments(inv, token, me, &order, amount)
    } else {
        let total = match invoice_total(inv) {
            Ok(t) => t,
            Err(e) => return Err(e),
        };
        proportional_payments(inv, token, me, amount, total)
    }
}

pub proof fn lemma_priority_order_len(pr: Seq<u32>, pool: Seq<usize>, steps: nat)
    ensures
        priority_order(pr, pool, steps) is Ok ==> priority_order(pr, pool, steps)->Ok_0.len() == steps,
    decreases steps,
{
    if steps > 0 {
        match best_in_pool(pr, pool, pool.len()) {
            Err(_) => {},
            Ok((bp, _)) => {
                if bp < pool.len() {
                    lemma_priority_order_len(pr, pool.remove(bp), (steps - 1) as nat);
                }
            },
        }
    }
}

impl SplitContract {
    /// Release `amount` of pending invoice `invoice_id` early, by its creator:
    /// in priority order where priorities are set, else proportionally. A
    /// failed call changes nothing.
    pub fn partial_release(&mut self, invoice_id: u64, creator: Address, amount: i128, now: u64) -> (r: Result<Vec<Action>, SplitError>)
        ensures
            exact_outcome(r, old(self)@, final(self)@, partial_outcome(old(self)@, invoice_id, creator, amount, now)),
    {
        let saved = self.snapshot();
        let r = self.partial_release_attempt(invoice_id, creator, amount, now);
        if r.is_err() {
            *self = saved;
        }
        r
    }

    /// `partial_release` up to the point where a failure is rolled back.
    fn partial_release_attempt(&mut self, invoice_id: u64, creator: Address, amount: i128, now: u64) -> (r: Result<Vec<Action>, SplitError>)
        ensures
            matches_outcome(r, final(self)@, partial_outcome(old(self)@, invoice_id, creator, amount, now)),
    {
        if self.paused {
            return Err(SplitError::ContractIsPaused);
        }
        let inv = match self.load_invoice(invoice_id) {
            Ok(i) => i,
            Err(e) => return Err(e),
        };
        if inv.creator != creator {
            return Err(SplitError::OnlyCreatorCanCallPartialRelease);
        }
        if inv.frozen {
            return Err(SplitError::InvoiceIsFrozen);
        }
        if inv.status != InvoiceStatus::Pending {
            return Err(SplitError::InvoiceIsNotPending);
        }
        if amount <= 0 {
            return Err(SplitError::AmountMustBePositive);
        }
        if amount > inv.funded {
            return Err(SplitError::AmountExceedsFundedBalance);
        }
        if inv.tokens.len() == 0 {
            return Err(SplitError::NoToken);
        }
        let mut pays = match partial_payments(&inv, inv.tokens[0], self.contract_address, amount) {
            Ok(a) => a,
            Err(e) => return Err(e),
        };
        let mut acts: Vec<Action> = Vec::new();
        acts.push(Action::RequireAuth { who: creator });
        acts.append(&mut pays);
        acts.push(Action::Emit { event: Event::InvoicePartiallyReleased { invoice_id } });
        let ghost sp = partial_outcome(old(self)@, invoice_id, creator, amount, now);
        assert(acts@ =~= sp->Ok_0.1);
        let mut inv2 = inv;
        inv2.funded = inv2.funded - amount;
        self.put_invoice(invoice_id, inv2, false);
        self.append_audit(invoice_id, AuditAction::PartialRelease, creator, now);
        Ok(acts)
    }
}

} // verus!
