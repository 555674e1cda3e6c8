//! Releasing an invoice's funds: the full release with its follow-ups
//! (bonus pool, group members, insurance, leftover forwarding, the next
//! subscription invoice) and the tranche release.

use vstd::prelude::*;
use crate::types::{Address, AuditAction, AuditEntry, InvoiceStatus, Payment, SubscriptionParams};
use crate::invoice::{Invoice, InvoiceView};
use crate::effects::{Action, Event, Notice, SplitError};
use crate::math::{sum_i128, running_sums_fit_i128, checked_sum_i128};
use crate::distribution::{ShareLine, ShareTotals, share_lines, compute_share_lines, fits_i128, lemma_share_lines_len};
use crate::state::{EntryView, InvoiceEntry, SplitContract, SplitView, Stats, AccountStats};
use crate::math::{mul_div_spec, bps_of_spec, mul_div, bps_of};
use crate::tranches::tranche_release;
use crate::create::{create_error, created_state, created_actions};
use crate::terms::{plain_terms, plain_terms_view};
use crate::invoice::copy_vec;
use crate::state::lemma_map_values_remove;

verus! {

broadcast use vstd::std_specs::hash::group_hash_axioms;

/// Sum of the invoice amounts, where every running sum fits.
pub open spec fn total_of(inv: InvoiceView) -> Result<i128, SplitError> {
    if running_sums_fit_i128(inv.amounts) {
        Ok(sum_i128(inv.amounts) as i128)
    } else {
        Err(SplitError::ArithmeticOverflow)
    }
}

/// The invoice's token: the first entry of `tokens`.
pub open spec fn token_of(inv: InvoiceView) -> Result<Address, SplitError> {
    if inv.tokens.len() > 0 {
        Ok(inv.tokens[0])
    } else {
        Err(SplitError::NoToken)
    }
}

pub fn invoice_total(inv: &Invoice) -> (r: Result<i128, SplitError>)
    ensures
        r == total_of(inv@),
{
    match checked_sum_i128(&inv.amounts) {
        Some(t) => Ok(t),
        None => Err(SplitError::ArithmeticOverflow),
    }
}

pub fn invoice_token(inv: &Invoice) -> (r: Result<Address, SplitError>)
    ensures
        r == token_of(inv@),
{
    if inv.tokens.len() > 0 {
        Ok(inv.tokens[0])
    } else {
        Err(SplitError::NoToken)
    }
}

/// How the payout of recipient `i` is delivered, followed by the transfer of
/// the whole tax to the tax authority, as the release does for every recipient.
pub open spec fn delivery_actions(s: SplitView, inv: InvoiceView, token: Address, i: int, payout: i128, total_tax: i128) -> Seq<Action> {
    let recipient = inv.recipients[i];
    let swap = if 0 <= i < inv.swap_tokens.len() { inv.swap_tokens[i] } else { None };
    let direct = seq![Action::Transfer { token, from: s.contract_address, to: recipient, amount: payout }];
    (match swap {
        Some(out) => seq![Action::SwapPayout { from_token: token, out_token: out, amount: payout, recipient }],
        None => if inv.smart_route {
            direct
        } else if inv.convert_to_stream && s.stream_contract is Some {
            seq![
                Action::Transfer { token, from: s.contract_address, to: s.stream_contract->0, amount: payout },
                Action::CreateStream {
                    stream_contract: s.stream_contract->0,
                    recipient,
                    amount: payout,
                    duration: match inv.drip_duration { Some(d) => d, None => 86_400 },
                },
            ]
        } else {
            direct
        },
    }) + (match inv.tax_authority {
        Some(a) => seq![Action::Transfer { token, from: s.contract_address, to: a, amount: total_tax }],
        None => Seq::empty(),
    })
}

/// Actions paying the first `k` recipients their share after tax and fee.
pub open spec fn recipient_actions(s: SplitView, inv: InvoiceView, lines: Seq<ShareLine>, token: Address, total_tax: i128, k: nat) -> Result<Seq<Action>, SplitError>
    decreases k,
{
    if k == 0 {
        Ok(Seq::empty())
    } else {
        match recipient_actions(s, inv, lines, token, total_tax, (k - 1) as nat) {
            Err(e) => Err(e),
            Ok(acts) => {
                let l = lines[k - 1];
                if !fits_i128(l.proportional - l.tax) || !fits_i128(l.proportional - l.tax - l.fee) {
                    Err(SplitError::ArithmeticOverflow)
                } else {
                    Ok(acts + delivery_actions(s, inv, token, k - 1, (l.proportional - l.tax - l.fee) as i128, total_tax))
                }
            },
        }
    }
}

pub proof fn lemma_recipient_actions_err_persists(s: SplitView, inv: InvoiceView, lines: Seq<ShareLine>, token: Address, total_tax: i128, k: nat, m: nat)
    requires
        k <= m,
        recipient_actions(s, inv, lines, token, total_tax, k) is Err,
    ensures
        recipient_actions(s, inv, lines, token, total_tax, m) == recipient_actions(s, inv, lines, token, total_tax, k),
    decreases m - k,
{
    if k < m {
        lemma_recipient_actions_err_persists(s, inv, lines, token, total_tax, k, (m - 1) as nat);
    }
}

/// The treasury group record that receives this invoice's release, if any.
pub open spec fn treasury_route(s: SplitView, id: u64) -> Option<Address> {
    if s.invoice_treasury_groups.contains_key(id) && s.treasury_groups.contains_key(s.invoice_treasury_groups[id]) {
        Some(s.treasury_groups[s.invoice_treasury_groups[id]].treasury)
    } else {
        None
    }
}

/// Transfers that distribute a full release: either everything net to the
/// group treasury, or each recipient's payout; then the platform fee.
pub open spec fn distribution_actions(s: SplitView, id: u64, inv: InvoiceView, lines: Seq<ShareLine>, t: ShareTotals, token: Address) -> Result<Seq<Action>, SplitError> {
    let me = s.contract_address;
    let fee_part = if t.total_fee > 0 {
        seq![Action::Transfer { token, from: me, to: s.treasury->0, amount: t.total_fee }]
    } else {
        Seq::empty()
    };
    match treasury_route(s, id) {
        Some(group_treasury) => {
            let net = t.distributed - t.total_tax - t.total_fee;
            if t.total_fee > 0 && s.treasury is None {
                Err(SplitError::TreasuryNotSet)
            } else if !fits_i128(t.distributed - t.total_tax) || !fits_i128(net) {
                Err(SplitError::ArithmeticOverflow)
            } else {
                Ok((if t.total_tax > 0 && inv.tax_authority is Some {
                    seq![Action::Transfer { token, from: me, to: inv.tax_authority->0, amount: t.total_tax }]
                } else {
                    Seq::empty()
                }) + fee_part + (if net > 0 {
                    seq![Action::Transfer { token, from: me, to: group_treasury, amount: net as i128 }]
                } else {
                    Seq::empty()
                }))
            }
        },
        None => match recipient_actions(s, inv, lines, token, t.total_tax, lines.len()) {
            Err(e) => Err(e),
            Ok(acts) => if t.total_fee > 0 && s.treasury is None {
                Err(SplitError::TreasuryNotSet)
            } else {
                Ok(acts + fee_part)
            },
        },
    }
}

/// Unique payers in order of their first payment, at most `max` of them.
pub open spec fn unique_payers(ps: Seq<Payment>, max: u32, k: nat) -> Seq<Address>
    decreases k,
{
    if k == 0 {
        Seq::empty()
    } else {
        let u = unique_payers(ps, max, (k - 1) as nat);
        let p = ps[k - 1].payer;
        if !u.contains(p) && u.len() < max {
            u.push(p)
        } else {
            u
        }
    }
}

/// Bonus payouts: an equal share of the pool per payer, the last payer
/// taking the remainder.
pub open spec fn bonus_actions(inv: InvoiceView, token: Address, me: Address) -> Seq<Action> {
    if inv.bonus_pool > 0 && inv.bonus_max_payers > 0 {
        let u = unique_payers(inv.payments, inv.bonus_max_payers, inv.payments.len());
        let n = u.len() as int;
        let per = inv.bonus_pool as int / n;
        Seq::new(u.len(), |i: int| Action::Transfer {
            token,
            from: me,
            to: u[i],
            amount: if i == n - 1 { (inv.bonus_pool - per * (n - 1)) as i128 } else { per as i128 },
        })
    } else {
        Seq::empty()
    }
}



/// Payout transfers of the first `k` recipients of a group member released
/// with its group; also the running distributed amount and platform fee.
pub open spec fn member_lines(s: SplitView, m: InvoiceView, token: Address, total: i128, k: nat) -> Result<(Seq<Action>, i128, i128), SplitError>
    decreases k,
{
    if k == 0 {
        Ok((Seq::empty(), 0i128, 0i128))
    } else {
        match member_lines(s, m, token, total, (k - 1) as nat) {
            Err(e) => Err(e),
            Ok((acts, dist, fee_sum)) => {
                let j = k - 1;
                let prop_r = if j == m.recipients.len() - 1 {
                    if fits_i128(m.funded - dist) { Some((m.funded - dist) as i128) } else { None }
                } else {
                    mul_div_spec(m.amounts[j], m.funded, total)
                };
                match prop_r {
                    None => Err(SplitError::ArithmeticOverflow),
                    Some(prop) => match (bps_of_spec(prop, s.platform_fee_bps), bps_of_spec(prop, m.tax_bps)) {
                        (Some(fee), Some(tax)) => {
                            if !fits_i128(prop - fee) || !fits_i128(prop - fee - tax) || !fits_i128(dist + prop) || !fits_i128(fee_sum + fee) {
                                Err(SplitError::ArithmeticOverflow)
                            } else if tax > 0 && m.tax_authority is None {
                                Err(SplitError::MissingElement)
                            } else {
                                Ok((
                                    acts + (if tax > 0 {
                                        seq![Action::Transfer { token, from: s.contract_address, to: m.tax_authority->0, amount: tax }]
                                    } else {
                                        Seq::empty()
                                    }) + seq![Action::Transfer { token, from: s.contract_address, to: m.recipients[j], amount: (prop - fee - tax) as i128 }],
                                    (dist + prop) as i128,
                                    (fee_sum + fee) as i128,
                                ))
                            }
                        },
                        _ => Err(SplitError::ArithmeticOverflow),
                    },
                }
            },
        }
    }
}

/// Number of (recipient, amount) pairs a group member's release walks.
pub open spec fn pair_count(m: InvoiceView) -> nat {
    if m.recipients.len() <= m.amounts.len() { m.recipients.len() } else { m.amounts.len() }
}

/// Release of a pending member of the releasing invoice's group.
pub open spec fn member_release(s: SplitView, mid: u64, m: InvoiceView, actor: Address, now: u64) -> Result<(SplitView, Seq<Action>), SplitError> {
    match token_of(m) {
        Err(e) => Err(e),
        Ok(token) => match total_of(m) {
            Err(e) => Err(e),
            Ok(total) => match member_lines(s, m, token, total, pair_count(m)) {
                Err(e) => Err(e),
                Ok((acts, _dist, fee)) => if fee > 0 && s.treasury is None {
                    Err(SplitError::TreasuryNotSet)
                } else {
                    Ok((
                        SplitView {
                            invoices: s.invoices.insert(mid, EntryView {
                                invoice: InvoiceView { status: InvoiceStatus::Released, completion_time: Some(now), ..m },
                                archived: false,
                            }),
                            audit_logs: s.audit_logs.insert(mid, s.log(mid).push(AuditEntry { action: AuditAction::Release, actor, timestamp: now })),
                            ..s
                        },
                        acts + (if fee > 0 {
                            seq![Action::Transfer { token, from: s.contract_address, to: s.treasury->0, amount: fee }]
                        } else {
                            Seq::empty()
                        }) + seq![Action::Emit { event: Event::InvoiceReleased { invoice_id: mid } }],
                    ))
                },
            },
        },
    }
}

/// Releases of the pending members among the first `k` ids of a group.
pub open spec fn group_fold(s0: SplitView, members: Seq<u64>, self_id: u64, actor: Address, now: u64, k: nat) -> Result<(SplitView, Seq<Action>), SplitError>
    decreases k,
{
    if k == 0 {
        Ok((s0, Seq::empty()))
    } else {
        match group_fold(s0, members, self_id, actor, now, (k - 1) as nat) {
            Err(e) => Err(e),
            Ok((s, acts)) => {
                let mid = members[k - 1];
                if mid == self_id {
                    Ok((s, acts))
                } else if !s.invoices.contains_key(mid) {
                    Err(SplitError::InvoiceNotFound)
                } else if s.inv(mid).status != InvoiceStatus::Pending {
                    Ok((s, acts))
                } else {
                    match member_release(s, mid, s.inv(mid), actor, now) {
                        Err(e) => Err(e),
                        Ok((s2, a)) => Ok((s2, acts + a)),
                    }
                }
            },
        }
    }
}

/// The releasing invoice's group members released with it.
pub open spec fn group_release(s: SplitView, id: u64, actor: Address, now: u64) -> Result<(SplitView, Seq<Action>), SplitError> {
    if !s.invoice_groups.contains_key(id) {
        Ok((s, Seq::empty()))
    } else if !s.groups.contains_key(s.invoice_groups[id]) {
        Err(SplitError::GroupNotFound)
    } else {
        let ms = s.groups[s.invoice_groups[id]];
        group_fold(s, ms, id, actor, now, ms.len())
    }
}

/// Whether a fully funded invoice waits for an explicit release: it has a
/// prerequisite, tranches, stages, a group or co-signers.
pub open spec fn forward_guarded(s: SplitView, id: u64, inv: InvoiceView) -> bool {
    inv.prerequisite_id is Some || inv.tranches.len() > 0 || inv.release_stages.len() > 0
        || s.invoice_groups.contains_key(id) || inv.co_signers.len() > 0
}

/// What a release has left over after distributing `distributed`.
pub open spec fn leftover_of(funded: i128, distributed: i128) -> int {
    if fits_i128(funded - distributed) { funded - distributed } else { 0 }
}

/// Actions of the notification contract for `notice`, if one is set.
pub open spec fn notify_actions(inv: InvoiceView, id: u64, notice: Notice) -> Seq<Action> {
    match inv.notification_contract {
        Some(c) => seq![Action::Notify { contract: c, invoice_id: id, notice }],
        None => Seq::empty(),
    }
}

/// What a full release settles before forwarding its leftover.
pub struct ReleasePrefix {
    /// State after the group members were released with it.
    pub state: SplitView,
    /// Distribution, bonus, group and insurance actions, in order.
    pub actions: Seq<Action>,
    /// The invoice with its insurance fund returned.
    pub invoice: InvoiceView,
    pub token: Address,
    pub distributed: i128,
}

/// The steps of a full release of invoice `id` (current value `inv`) up to
/// the forwarding of its leftover: the distribution, the bonus pool, the
/// group members and the insurance fund.
pub open spec fn release_prefix(s: SplitView, id: u64, inv: InvoiceView, actor: Address, now: u64) -> Result<ReleasePrefix, SplitError> {
    match token_of(inv) {
        Err(e) => Err(e),
        Ok(token) => match total_of(inv) {
            Err(e) => Err(e),
            Ok(total) => match share_lines(inv, s.platform_fee_bps, inv.funded, total, inv.recipients.len()) {
                Err(e) => Err(e),
                Ok((lines, t)) => match distribution_actions(s, id, inv, lines, t, token) {
                    Err(e) => Err(e),
                    Ok(a1) => match group_release(s, id, actor, now) {
                        Err(e) => Err(e),
                        Ok((s3, a3)) => {
                            let a4 = if inv.insurance_fund > 0 {
                                seq![Action::Transfer { token, from: s.contract_address, to: inv.creator, amount: inv.insurance_fund }]
                            } else {
                                Seq::empty()
                            };
                            Ok(ReleasePrefix {
                                state: s3,
                                actions: a1 + bonus_actions(inv, token, s.contract_address) + a3 + a4,
                                invoice: if inv.insurance_fund > 0 { InvoiceView { insurance_fund: 0, ..inv } } else { inv },
                                token,
                                distributed: t.distributed,
                            })
                        },
                    },
                },
            },
        },
    }
}

/// Where the leftover of a release goes.
pub enum ForwardStep {
    /// Nothing more to do beyond these actions.
    Done(Seq<Action>),
    /// Store the credited target invoice.
    Store(u64, InvoiceView),
    /// Release the credited target invoice, now fully funded.
    Release(u64, InvoiceView),
}

/// The leftover of a release that distributed `distributed`: paid to an
/// address, or credited to another invoice as a payment by the contract.
pub open spec fn forward_step(s: SplitView, inv: InvoiceView, token: Address, distributed: i128) -> Result<ForwardStep, SplitError> {
    let leftover = leftover_of(inv.funded, distributed);
    if leftover <= 0 {
        Ok(ForwardStep::Done(Seq::empty()))
    } else if inv.forward_to is Some {
        Ok(ForwardStep::Done(seq![Action::Transfer { token, from: s.contract_address, to: inv.forward_to->0, amount: leftover as i128 }]))
    } else if inv.forward_invoice_id is Some {
        let tid = inv.forward_invoice_id->0;
        if !s.invoices.contains_key(tid) {
            Err(SplitError::InvoiceNotFound)
        } else {
            let target = s.inv(tid);
            if !fits_i128(target.funded + leftover) {
                Err(SplitError::ArithmeticOverflow)
            } else {
                let t2 = InvoiceView {
                    payments: target.payments.push(Payment { payer: s.contract_address, amount: leftover as i128, tip: 0 }),
                    funded: (target.funded + leftover) as i128,
                    ..target
                };
                match total_of(t2) {
                    Err(e) => Err(e),
                    Ok(ttotal) => if t2.funded >= ttotal && !forward_guarded(s, tid, t2) {
                        Ok(ForwardStep::Release(tid, t2))
                    } else {
                        Ok(ForwardStep::Store(tid, t2))
                    },
                }
            }
        }
    } else {
        Ok(ForwardStep::Done(Seq::empty()))
    }
}

/// Full release of invoice `id` whose current (unsaved) value is `inv`.
/// `depth` bounds how many forwarded releases may follow; a forward chain
/// longer than the stored invoices loops.
pub open spec fn release_full_spec(s: SplitView, id: u64, inv: InvoiceView, actor: Address, now: u64, gov: bool, depth: nat) -> Result<(SplitView, Seq<Action>), SplitError>
    decreases depth, 1nat,
{
    match release_prefix(s, id, inv, actor, now) {
        Err(e) => Err(e),
        Ok(p) => match forward_spec(p.state, p.invoice, p.token, p.distributed, now, gov, depth) {
            Err(e) => Err(e),
            Ok((s5, a5)) => finished_release(s5, id, p.invoice, actor, now, gov, p.actions + a5),
        },
    }
}

/// Forward the leftover of a release; a credited invoice that becomes
/// fully funded and is not guarded is released in turn.
pub open spec fn forward_spec(s: SplitView, inv: InvoiceView, token: Address, distributed: i128, now: u64, gov: bool, depth: nat) -> Result<(SplitView, Seq<Action>), SplitError>
    decreases depth, 0nat,
{
    match forward_step(s, inv, token, distributed) {
        Err(e) => Err(e),
        Ok(ForwardStep::Done(a)) => Ok((s, a)),
        Ok(ForwardStep::Store(tid, t2)) => Ok((SplitView { invoices: s.invoices.insert(tid, EntryView { invoice: t2, archived: false }), ..s }, Seq::empty())),
        Ok(ForwardStep::Release(tid, t2)) => if depth == 0 {
            Err(SplitError::ForwardChainDoesNotEnd)
        } else {
            release_full_spec(s, tid, t2, s.contract_address, now, gov, (depth - 1) as nat)
        },
    }
}

/// Last steps of a full release: mark it released, log it, count it in the
/// analytics and create the next subscription invoice where one is due.
pub open spec fn finished_release(s: SplitView, id: u64, inv: InvoiceView, actor: Address, now: u64, gov: bool, acts: Seq<Action>) -> Result<(SplitView, Seq<Action>), SplitError> {
    let f = inv.funded;
    let c = s.account(inv.creator);
    let s6 = SplitView {
        invoices: s.invoices.insert(id, EntryView {
            invoice: InvoiceView { status: InvoiceStatus::Released, completion_time: Some(now), ..inv },
            archived: false,
        }),
        audit_logs: s.audit_logs.insert(id, s.log(id).push(AuditEntry { action: AuditAction::Release, actor, timestamp: now })),
        ..s
    };
    let a6 = seq![Action::Emit { event: Event::InvoiceReleased { invoice_id: id } }] + notify_actions(inv, id, Notice::Release);
    if !fits_i128(s.stats.total_volume + f) {
        Err(SplitError::TotalVolumeOverflow)
    } else if !fits_i128(s.stats.total_released + f) {
        Err(SplitError::TotalReleasedOverflow)
    } else if !fits_i128(c.creator_volume + f) {
        Err(SplitError::CreatorVolumeOverflow)
    } else if c.creator_released == u64::MAX {
        Err(SplitError::CreatorReleasedOverflow)
    } else {
        let s7 = SplitView {
            stats: Stats {
                total_volume: (s.stats.total_volume + f) as i128,
                total_released: (s.stats.total_released + f) as i128,
                ..s.stats
            },
            accounts: s.accounts.insert(inv.creator.0, AccountStats {
                creator_volume: (c.creator_volume + f) as i128,
                creator_released: (c.creator_released + 1) as u64,
                ..c
            }),
            ..s6
        };
        if !s7.subscriptions.contains_key(id) {
            Ok((s7, acts + a6))
        } else {
            let p = s7.subscriptions[id];
            if now + 2_592_000 > u64::MAX {
                Err(SplitError::ArithmeticOverflow)
            } else if p.tokens.len() == 0 {
                Err(SplitError::NoTokenInSubscription)
            } else {
                let d = (now + 2_592_000) as u64;
                match create_error(s7, now, p.creator, p.recipients, p.amounts, d, plain_terms_view(), gov) {
                    Some(e) => Err(e),
                    None => {
                        let s8 = created_state(s7, p.creator, p.recipients, p.amounts, p.tokens[0], d, plain_terms_view());
                        Ok((
                            SplitView { subscriptions: s8.subscriptions.remove(id), ..s8 },
                            acts + a6 + created_actions(s7, p.creator, p.amounts, p.tokens[0], plain_terms_view()),
                        ))
                    },
                }
            }
        }
    }
}


/// Outcome relation of a call before a failure is rolled back: on success
/// the new state and actions are the spec's; on failure the error is the
/// spec's.
pub open spec fn matches_outcome(r: Result<Vec<Action>, SplitError>, fin: SplitView, spec: Result<(SplitView, Seq<Action>), SplitError>) -> bool {
    match (r, spec) {
        (Ok(a), Ok((s2, sa))) => fin == s2 && a@ == sa,
        (Err(e), Err(se)) => e == se,
        _ => false,
    }
}

/// Outcome relation of the operations that fail before changing anything:
/// on success the new state and actions are the spec's; on failure the
/// error is the spec's and the state is unchanged.
pub open spec fn exact_outcome(r: Result<Vec<Action>, SplitError>, before: SplitView, after: SplitView, spec: Result<(SplitView, Seq<Action>), SplitError>) -> bool {
    match spec {
        Ok((s2, acts)) => r is Ok && r->Ok_0@ == acts && after == s2,
        Err(e) => r == Err::<Vec<Action>, SplitError>(e) && after == before,
    }
}

pub proof fn lemma_member_lines_err_persists(s: SplitView, m: InvoiceView, token: Address, total: i128, k: nat, n: nat)
    requires
        k <= n,
        member_lines(s, m, token, total, k) is Err,
    ensures
        member_lines(s, m, token, total, n) == member_lines(s, m, token, total, k),
    decreases n - k,
{
    if k < n {
        lemma_member_lines_err_persists(s, m, token, total, k, (n - 1) as nat);
    }
}

pub proof fn lemma_group_fold_err_persists(s0: SplitView, members: Seq<u64>, self_id: u64, actor: Address, now: u64, k: nat, n: nat)
    requires
        k <= n,
        group_fold(s0, members, self_id, actor, now, k) is Err,
    ensures
        group_fold(s0, members, self_id, actor, now, n) == group_fold(s0, members, self_id, actor, now, k),
    decreases n - k,
{
    if k < n {
        lemma_group_fold_err_persists(s0, members, self_id, actor, now, k, (n - 1) as nat);
    }
}

impl SplitContract {
    /// Store `inv` as released at `now` and log the release by `actor`.
    pub(crate) fn mark_released(&mut self, id: u64, inv: Invoice, actor: Address, now: u64)
        ensures
            final(self)@ == (SplitView {
                invoices: old(self)@.invoices.insert(id, EntryView {
                    invoice: InvoiceView { status: InvoiceStatus::Released, completion_time: Some(now), ..inv@ },
                    archived: false,
                }),
                audit_logs: old(self)@.audit_logs.insert(id, old(self)@.log(id).push(AuditEntry { action: AuditAction::Release, actor, timestamp: now })),
                ..old(self)@
            }),
    {
        let mut m = inv;
        m.status = InvoiceStatus::Released;
        m.completion_time = Some(now);
        assert(m@ == InvoiceView { status: InvoiceStatus::Released, completion_time: Some(now), ..inv@ });
        self.put_invoice(id, m, false);
        self.append_audit(id, AuditAction::Release, actor, now);
    }

    /// Payout transfers of a group member released with its group.
    fn member_payouts(&self, m: &Invoice, token: Address, total: i128) -> (r: Result<(Vec<Action>, i128, i128), SplitError>)
        ensures
            match (r, member_lines(self@, m@, token, total, pair_count(m@))) {
                (Ok((a, d, f)), Ok((sa, sd, sf))) => a@ == sa && d == sd && f == sf,
                (Err(e), Err(se)) => e == se,
                _ => false,
            },
    {
        let n = if m.recipients.len() <= m.amounts.len() { m.recipients.len() } else { m.amounts.len() };
        let me = self.contract_address;
        let fee_bps = self.platform_fee_bps;
        let mut acts: Vec<Action> = Vec::new();
        let mut dist: i128 = 0;
        let mut fee_sum: i128 = 0;
        let mut j: usize = 0;
        while j < n
            invariant
                j <= n,
                n == pair_count(m@),
                me == self@.contract_address,
                fee_bps == self@.platform_fee_bps,
                member_lines(self@, m@, token, total, j as nat) == Ok::<(Seq<Action>, i128, i128), SplitError>((acts@, dist, fee_sum)),
            decreases n - j,
        {
            let prop_r = if j == m.recipients.len() - 1 {
                m.funded.checked_sub(dist)
            } else {
                mul_div(m.amounts[j], m.funded, total)
            };
            let ghost next = member_lines(self@, m@, token, total, (j + 1) as nat);
            let prop = match prop_r {
                Some(x) => x,
                None => {
                    proof { lemma_member_lines_err_persists(self@, m@, token, total, (j + 1) as nat, n as nat); }
                    return Err(SplitError::ArithmeticOverflow);
                },
            };
            let fee_o = bps_of(prop, fee_bps);
            let tax_o = bps_of(prop, m.tax_bps);
            let (fee, tax) = match (fee_o, tax_o) {
                (Some(f), Some(t)) => (f, t),
                _ => {
                    proof { lemma_member_lines_err_persists(self@, m@, token, total, (j + 1) as nat, n as nat); }
                    return Err(SplitError::ArithmeticOverflow);
                },
            };
            let a1 = prop.checked_sub(fee);
            let payout_o = match a1 {
                Some(x) => x.checked_sub(tax),
                None => None,
            };
            let d2 = dist.checked_add(prop);
            let f2 = fee_sum.checked_add(fee);
            let (payout, nd, nf) = match (payout_o, d2, f2) {
                (Some(p), Some(d), Some(f)) => (p, d, f),
                _ => {
                    proof { lemma_member_lines_err_persists(self@, m@, token, total, (j + 1) as nat, n as nat); }
                    return Err(SplitError::ArithmeticOverflow);
                },
            };
            let ghost before = acts@;
            if tax > 0 {
                match m.tax_authority {
                    Some(a) => {
                        acts.push(Action::Transfer { token, from: me, to: a, amount: tax });
                    },
                    None => {
                        proof { lemma_member_lines_err_persists(self@, m@, token, total, (j + 1) as nat, n as nat); }
                        return Err(SplitError::MissingElement);
                    },
                }
            }
            acts.push(Action::Transfer { token, from: me, to: m.recipients[j], amount: payout });
            dist = nd;
            fee_sum = nf;
            proof {
                assert(acts@ =~= before + (if tax > 0 {
                    seq![Action::Transfer { token, from: me, to: m@.tax_authority->0, amount: tax }]
                } else {
                    Seq::empty()
                }) + seq![Action::Transfer { token, from: me, to: m@.recipients[j as int], amount: payout }]);
            }
            j = j + 1;
        }
        Ok((acts, dist, fee_sum))
    }

    /// Release a pending member of a group along with the releasing invoice.
    fn release_member(&mut self, mid: u64, actor: Address, now: u64) -> (r: Result<Vec<Action>, SplitError>)
        requires
            old(self)@.invoices.contains_key(mid),
        ensures
            matches_outcome(r, final(self)@, member_release(old(self)@, mid, old(self)@.inv(mid), actor, now)),
    {
        let m = self.invoices.get(&mid).unwrap().invoice.copy();
        assert(m@ == old(self)@.inv(mid));
        let token = match invoice_token(&m) {
            Ok(t) => t,
            Err(e) => return Err(e),
        };
        let total = match invoice_total(&m) {
            Ok(t) => t,
            Err(e) => return Err(e),
        };
        let (mut acts, _dist, fee) = match self.member_payouts(&m, token, total) {
            Ok(x) => x,
            Err(e) => return Err(e),
        };
        if fee > 0 {
            match self.treasury {
                Some(tr) => {
                    acts.push(Action::Transfer { token, from: self.contract_address, to: tr, amount: fee });
                },
                None => return Err(SplitError::TreasuryNotSet),
            }
        }
        acts.push(Action::Emit { event: Event::InvoiceReleased { invoice_id: mid } });
        self.mark_released(mid, m, actor, now);
        proof {
            let sp = member_release(old(self)@, mid, old(self)@.inv(mid), actor, now);
            assert(acts@ =~= sp->Ok_0.1);
        }
        Ok(acts)
    }

    /// Release the pending members of the group of `id`, if any.
    fn release_group(&mut self, id: u64, actor: Address, now: u64) -> (r: Result<Vec<Action>, SplitError>)
        ensures
            matches_outcome(r, final(self)@, group_release(old(self)@, id, actor, now)),
    {
        let gid = match self.invoice_groups.get(&id) {
            None => return Ok(Vec::new()),
            Some(g) => *g,
        };
        let members = match self.groups.get(&gid) {
            None => return Err(SplitError::GroupNotFound),
            Some(v) => crate::invoice::copy_vec(v),
        };
        let ghost s0 = self@;
        assert(members@ == s0.groups[gid]);
        let mut acts: Vec<Action> = Vec::new();
        let mut k: usize = 0;
        while k < members.len()
            invariant
                k <= members.len(),
                s0 == old(self)@,
                s0.invoice_groups.contains_key(id),
                s0.invoice_groups[id] == gid,
                s0.groups.contains_key(gid),
                members@ == s0.groups[gid],
                group_fold(s0, members@, id, actor, now, k as nat) == Ok::<(SplitView, Seq<Action>), SplitError>((self@, acts@)),
            decreases members.len() - k,
        {
            let mid = members[k];
            let ghost prev = group_fold(s0, members@, id, actor, now, k as nat);
            assert(group_fold(s0, members@, id, actor, now, (k + 1) as nat) == {
                let (sv, av) = prev->Ok_0;
                if mid == id {
                    Ok((sv, av))
                } else if !sv.invoices.contains_key(mid) {
                    Err(SplitError::InvoiceNotFound)
                } else if sv.inv(mid).status != InvoiceStatus::Pending {
                    Ok((sv, av))
                } else {
                    match member_release(sv, mid, sv.inv(mid), actor, now) {
                        Err(e) => Err(e),
                        Ok((s2, a)) => Ok((s2, av + a)),
                    }
                }
            });
            if mid != id {
                let pending = match self.invoices.get(&mid) {
                    None => {
                        proof { lemma_group_fold_err_persists(s0, members@, id, actor, now, (k + 1) as nat, members@.len()); }
                        return Err(SplitError::InvoiceNotFound);
                    },
                    Some(e) => e.invoice.status == InvoiceStatus::Pending,
                };
                if pending {
                    match self.release_member(mid, actor, now) {
                        Err(e) => {
                            proof { lemma_group_fold_err_persists(s0, members@, id, actor, now, (k + 1) as nat, members@.len()); }
                            return Err(e);
                        },
                        Ok(mut a) => {
                            acts.append(&mut a);
                        },
                    }
                }
            }
            k = k + 1;
        }
        Ok(acts)
    }
}

impl SplitContract {
    /// Group treasury that receives the release of `id`, if the invoice is in a treasury group.
    pub(crate) fn treasury_route_of(&self, id: u64) -> (r: Option<Address>)
        ensures
            r == treasury_route(self@, id),
    {
        match self.invoice_treasury_groups.get(&id) {
            None => None,
            Some(gid) => match self.treasury_groups.get(gid) {
                None => None,
                Some(rec) => Some(rec.treasury),
            },
        }
    }

    /// Transfers of a full release given the share lines.
    pub(crate) fn distribution(&self, id: u64, inv: &Invoice, lines: &Vec<ShareLine>, t: ShareTotals, token: Address) -> (r: Result<Vec<Action>, SplitError>)
        requires
            lines@.len() == inv@.recipients.len(),
        ensures
            match (r, distribution_actions(self@, id, inv@, lines@, t, token)) {
                (Ok(a), Ok(sa)) => a@ == sa,
                (Err(e), Err(se)) => e == se,
                _ => false,
            },
    {
        let me = self.contract_address;
        let mut acts: Vec<Action> = Vec::new();
        match self.treasury_route_of(id) {
            Some(group_treasury) => {
                if t.total_fee > 0 && self.treasury.is_none() {
                    return Err(SplitError::TreasuryNotSet);
                }
                let after_tax = match t.distributed.checked_sub(t.total_tax) {
                    Some(x) => x,
                    None => return Err(SplitError::ArithmeticOverflow),
                };
                let net = match after_tax.checked_sub(t.total_fee) {
                    Some(x) => x,
                    None => return Err(SplitError::ArithmeticOverflow),
                };
                if t.total_tax > 0 {
                    match inv.tax_authority {
                        Some(a) => {
                            acts.push(Action::Transfer { token, from: me, to: a, amount: t.total_tax });
                        },
                        None => {},
                    }
                }
                if t.total_fee > 0 {
                    let treasury = match self.treasury {
                        Some(x) => x,
                        None => return Err(SplitError::TreasuryNotSet),
                    };
                    acts.push(Action::Transfer { token, from: me, to: treasury, amount: t.total_fee });
                }
                if net > 0 {
                    acts.push(Action::Transfer { token, from: me, to: group_treasury, amount: net });
                }
                proof {
                    assert(acts@ =~= distribution_actions(self@, id, inv@, lines@, t, token)->Ok_0);
                }
                Ok(acts)
            },
            None => {
                let n = lines.len();
                let mut i: usize = 0;
                while i < n
                    invariant
                        i <= n,
                        n == lines@.len(),
                        n == inv@.recipients.len(),
                        me == self@.contract_address,
                        treasury_route(self@, id) is None,
                        recipient_actions(self@, inv@, lines@, token, t.total_tax, i as nat) == Ok::<Seq<Action>, SplitError>(acts@),
                    decreases n - i,
                {
                    let l = lines[i];
                    let post_tax = match l.proportional.checked_sub(l.tax) {
                        Some(x) => x,
                        None => {
                            proof { lemma_recipient_actions_err_persists(self@, inv@, lines@, token, t.total_tax, (i + 1) as nat, n as nat); }
                            return Err(SplitError::ArithmeticOverflow);
                        },
                    };
                    let payout = match post_tax.checked_sub(l.fee) {
                        Some(x) => x,
                        None => {
                            proof { lemma_recipient_actions_err_persists(self@, inv@, lines@, token, t.total_tax, (i + 1) as nat, n as nat); }
                            return Err(SplitError::ArithmeticOverflow);
                        },
                    };
                    let ghost before = acts@;
                    let recipient = inv.recipients[i];
                    let swap: Option<Address> = if i < inv.swap_tokens.len() { inv.swap_tokens[i] } else { None };
                    match swap {
                        Some(out) => {
                            acts.push(Action::SwapPayout { from_token: token, out_token: out, amount: payout, recipient });
                        },
                        None => {
                            if inv.smart_route {
                                acts.push(Action::Transfer { token, from: me, to: recipient, amount: payout });
                            } else if inv.convert_to_stream && self.stream_contract.is_some() {
                                let sc = self.stream_contract.unwrap();
                                let duration = match inv.drip_duration {
                                    Some(d) => d,
                                    None => 86_400,
                                };
                                acts.push(Action::Transfer { token, from: me, to: sc, amount: payout });
                                acts.push(Action::CreateStream { stream_contract: sc, recipient, amount: payout, duration });
                            } else {
                                acts.push(Action::Transfer { token, from: me, to: recipient, amount: payout });
                            }
                        },
                    }
                    match inv.tax_authority {
                        Some(a) => {
                            acts.push(Action::Transfer { token, from: me, to: a, amount: t.total_tax });
                        },
                        None => {},
                    }
                    proof {
                        assert(acts@ =~= before + delivery_actions(self@, inv@, token, i as int, payout, t.total_tax));
                    }
                    i = i + 1;
                }
                if t.total_fee > 0 {
                    let treasury = match self.treasury {
                        Some(x) => x,
                        None => return Err(SplitError::TreasuryNotSet),
                    };
                    acts.push(Action::Transfer { token, from: me, to: treasury, amount: t.total_fee });
                }
                proof {
                    assert(acts@ =~= distribution_actions(self@, id, inv@, lines@, t, token)->Ok_0);
                }
                Ok(acts)
            },
        }
    }
}

/// Unique payers in order of first payment, at most `max`.
pub fn collect_unique_payers(ps: &Vec<Payment>, max: u32) -> (r: Vec<Address>)
    ensures
        r@ == unique_payers(ps@, max, ps@.len()),
{
    let mut u: Vec<Address> = Vec::new();
    let mut i: usize = 0;
    while i < ps.len()
        invariant
            i <= ps.len(),
            u@ == unique_payers(ps@, max, i as nat),
        decreases ps.len() - i,
    {
        let p = ps[i].payer;
        if !crate::admin::contains_address(&u, p) && u.len() < max as usize {
            u.push(p);
        }
        i = i + 1;
    }
    u
}

pub proof fn lemma_unique_payers_len(ps: Seq<Payment>, max: u32, k: nat)
    ensures
        unique_payers(ps, max, k).len() <= max,
        unique_payers(ps, max, k).len() <= k,
    decreases k,
{
    if k > 0 {
        lemma_unique_payers_len(ps, max, (k - 1) as nat);
    }
}

/// Bonus pool payouts of a full release.
pub fn bonus_payouts(inv: &Invoice, token: Address, me: Address) -> (r: Vec<Action>)
    ensures
        r@ == bonus_actions(inv@, token, me),
{
    let mut acts: Vec<Action> = Vec::new();
    if !(inv.bonus_pool > 0 && inv.bonus_max_payers > 0) {
        assert(acts@ =~= bonus_actions(inv@, token, me));
        return acts;
    }
    let u = collect_unique_payers(&inv.payments, inv.bonus_max_payers);
    proof { lemma_unique_payers_len(inv@.payments, inv.bonus_max_payers, inv@.payments.len()); }
    let n = u.len();
    if n == 0 {
        assert(acts@ =~= bonus_actions(inv@, token, me));
        return acts;
    }
    let pool = inv.bonus_pool;
    let per: i128 = pool / (n as i128);
    let ghost nn = n as int;
    assert(per == pool as int / nn);
    assert(0 <= per <= pool) by (nonlinear_arith)
        requires per == pool as int / nn, pool > 0, nn > 0;
    let mut i: usize = 0;
    while i < n - 1
        invariant
            i <= n - 1,
            n == u@.len(),
            n >= 1,
            nn == n as int,
            pool == inv@.bonus_pool,
            pool > 0,
            per == pool as int / nn,
            acts@ =~= Seq::new(i as nat, |j: int| Action::Transfer {
                token,
                from: me,
                to: u@[j],
                amount: if j == nn - 1 { (pool - per * (nn - 1)) as i128 } else { per as i128 },
            }),
        decreases n - 1 - i,
    {
        acts.push(Action::Transfer { token, from: me, to: u[i], amount: per });
        i = i + 1;
    }
    assert(per * (nn - 1) <= pool) by (nonlinear_arith)
        requires per == pool as int / nn, pool > 0, nn > 0;
    assert(per * (nn - 1) >= 0) by (nonlinear_arith)
        requires per >= 0, nn > 0;
    let distributed: i128 = per * ((n - 1) as i128);
    acts.push(Action::Transfer { token, from: me, to: u[n - 1], amount: pool - distributed });
    acts
}

impl SplitContract {
    /// Last steps of a full release; see `finished_release`.
    fn complete_release(&mut self, id: u64, inv: Invoice, actor: Address, now: u64, gov: bool, acts: Vec<Action>) -> (r: Result<Vec<Action>, SplitError>)
        ensures
            matches_outcome(r, final(self)@, finished_release(old(self)@, id, inv@, actor, now, gov, acts@)),
    {
        let f = inv.funded;
        let creator = inv.creator;
        let c = self.account_of(creator);
        let tv = match self.stats.total_volume.checked_add(f) {
            Some(x) => x,
            None => return Err(SplitError::TotalVolumeOverflow),
        };
        let tr = match self.stats.total_released.checked_add(f) {
            Some(x) => x,
            None => return Err(SplitError::TotalReleasedOverflow),
        };
        let cv = match c.creator_volume.checked_add(f) {
            Some(x) => x,
            None => return Err(SplitError::CreatorVolumeOverflow),
        };
        if c.creator_released == u64::MAX {
            return Err(SplitError::CreatorReleasedOverflow);
        }
        let mut all = acts;
        all.push(Action::Emit { event: Event::InvoiceReleased { invoice_id: id } });
        match inv.notification_contract {
            Some(nc) => {
                all.push(Action::Notify { contract: nc, invoice_id: id, notice: Notice::Release });
            },
            None => {},
        }
        proof {
            assert(all@ =~= acts@ + (seq![Action::Emit { event: Event::InvoiceReleased { invoice_id: id } }] + notify_actions(inv@, id, Notice::Release)));
        }
        self.mark_released(id, inv, actor, now);
        self.stats = Stats { total_volume: tv, total_released: tr, ..self.stats };
        self.accounts.insert(creator.0, AccountStats { creator_volume: cv, creator_released: c.creator_released + 1, ..c });
        let ghost s7 = self@;
        let params = match self.subscriptions.get(&id) {
            None => return Ok(all),
            Some(p) => SubscriptionParams {
                creator: p.creator,
                recipients: copy_vec(&p.recipients),
                amounts: copy_vec(&p.amounts),
                tokens: copy_vec(&p.tokens),
            },
        };
        assert(params@ == s7.subscriptions[id]);
        if now > u64::MAX - 2_592_000 {
            return Err(SplitError::ArithmeticOverflow);
        }
        if params.tokens.len() == 0 {
            return Err(SplitError::NoTokenInSubscription);
        }
        let d = now + 2_592_000;
        let first = params.tokens[0];
        match self.create_inner(now, params.creator, params.recipients, params.amounts, first, d, plain_terms(), gov) {
            Err(e) => Err(e),
            Ok((_next, mut a)) => {
                let ghost s8 = self@;
                let ghost m0 = self.subscriptions@;
                self.subscriptions.remove(&id);
                proof {
                    lemma_map_values_remove(m0, id, |p: SubscriptionParams| p@);
                    assert(self@ =~= SplitView { subscriptions: s8.subscriptions.remove(id), ..s8 });
                }
                let ghost before = all@;
                all.append(&mut a);
                Ok(all)
            },
        }
    }

    /// The leftover step of a release; see `forward_step`.
    fn leftover_step(&self, inv: &Invoice, token: Address, distributed: i128) -> (r: Result<(Vec<Action>, Option<(u64, Invoice, bool)>), SplitError>)
        ensures
            match (r, forward_step(self@, inv@, token, distributed)) {
                (Ok((a, None)), Ok(ForwardStep::Done(sa))) => a@ == sa,
                (Ok((a, Some((tid, t2, false)))), Ok(ForwardStep::Store(stid, st2))) => a@.len() == 0 && tid == stid && t2@ == st2,
                (Ok((a, Some((tid, t2, true)))), Ok(ForwardStep::Release(stid, st2))) => a@.len() == 0 && tid == stid && t2@ == st2,
                (Err(e), Err(se)) => e == se,
                _ => false,
            },
    {
        let leftover: i128 = match inv.funded.checked_sub(distributed) {
            Some(x) => x,
            None => 0,
        };
        let mut acts: Vec<Action> = Vec::new();
        if leftover <= 0 {
            return Ok((acts, None));
        }
        match inv.forward_to {
            Some(a) => {
                acts.push(Action::Transfer { token, from: self.contract_address, to: a, amount: leftover });
                return Ok((acts, None));
            },
            None => {},
        }
        let tid = match inv.forward_invoice_id {
            Some(t) => t,
            None => return Ok((acts, None)),
        };
        assert(self@.invoices.dom() =~= self.invoices@.dom());
        let mut target = match self.invoices.get(&tid) {
            Some(e) => e.invoice.copy(),
            None => return Err(SplitError::InvoiceNotFound),
        };
        let nf = match target.funded.checked_add(leftover) {
            Some(x) => x,
            None => return Err(SplitError::ArithmeticOverflow),
        };
        let me = self.contract_address;
        target.payments.push(Payment { payer: me, amount: leftover, tip: 0 });
        target.funded = nf;
        let ttotal = match invoice_total(&target) {
            Ok(x) => x,
            Err(e) => return Err(e),
        };
        let guarded = target.prerequisite_id.is_some() || target.tranches.len() > 0 || target.release_stages.len() > 0
            || self.invoice_groups.contains_key(&tid) || target.co_signers.len() > 0;
        let release = target.funded >= ttotal && !guarded;
        Ok((acts, Some((tid, target, release))))
    }

    /// Forward the leftover of a release; see `forward_spec`.
    fn forward_leftover(&mut self, inv: &Invoice, token: Address, distributed: i128, now: u64, gov: bool, depth: u64) -> (r: Result<Vec<Action>, SplitError>)
        ensures
            matches_outcome(r, final(self)@, forward_spec(old(self)@, inv@, token, distributed, now, gov, depth as nat)),
        decreases depth, 0nat,
    {
        let ghost s0 = self@;
        match self.leftover_step(inv, token, distributed) {
            Err(e) => Err(e),
            Ok((acts, None)) => {
                assert(forward_spec(s0, inv@, token, distributed, now, gov, depth as nat) == Ok::<(SplitView, Seq<Action>), SplitError>((s0, acts@)));
                Ok(acts)
            },
            Ok((acts, Some((tid, target, release)))) => {
                if !release {
                    self.put_invoice(tid, target, false);
                    assert(acts@ =~= Seq::<Action>::empty());
                    return Ok(acts);
                }
                if depth == 0 {
                    return Err(SplitError::ForwardChainDoesNotEnd);
                }
                let me = self.contract_address;
                let ghost s0 = self@;
                let ghost t2 = target@;
                let r = self.release_full(tid, target, me, now, gov, depth - 1);
                assert(forward_spec(s0, inv@, token, distributed, now, gov, depth as nat)
                    == release_full_spec(s0, tid, t2, me, now, gov, (depth - 1) as nat));
                r
            },
        }
    }

    /// The part of a full release before its leftover is forwarded; see
    /// `release_prefix`.
    fn release_start(&mut self, id: u64, inv: Invoice, actor: Address, now: u64) -> (r: Result<(Vec<Action>, Invoice, Address, i128), SplitError>)
        ensures
            match (r, release_prefix(old(self)@, id, inv@, actor, now)) {
                (Ok((a, inv4, token, dist)), Ok(p)) => final(self)@ == p.state && a@ == p.actions
                    && inv4@ == p.invoice && token == p.token && dist == p.distributed,
                (Err(e), Err(se)) => e == se,
                _ => false,
            },
    {
        let me = self.contract_address;
        let token = match invoice_token(&inv) {
            Ok(t) => t,
            Err(e) => return Err(e),
        };
        let total = match invoice_total(&inv) {
            Ok(t) => t,
            Err(e) => return Err(e),
        };
        let (lines, t) = match compute_share_lines(&inv, self.platform_fee_bps, inv.funded, total) {
            Ok(x) => x,
            Err(e) => return Err(e),
        };
        proof { lemma_share_lines_len(inv@, self@.platform_fee_bps, inv@.funded, total, inv@.recipients.len()); }
        let mut acts = match self.distribution(id, &inv, &lines, t, token) {
            Ok(a) => a,
            Err(e) => return Err(e),
        };
        let mut a2 = bonus_payouts(&inv, token, me);
        let mut a3 = match self.release_group(id, actor, now) {
            Ok(a) => a,
            Err(e) => return Err(e),
        };
        let mut inv4 = inv;
        let mut a4: Vec<Action> = Vec::new();
        if inv4.insurance_fund > 0 {
            a4.push(Action::Transfer { token, from: me, to: inv4.creator, amount: inv4.insurance_fund });
            inv4.insurance_fund = 0;
        }
        let ghost (g1, g2, g3, g4) = (acts@, a2@, a3@, a4@);
        acts.append(&mut a2);
        acts.append(&mut a3);
        acts.append(&mut a4);
        assert(acts@ =~= g1 + g2 + g3 + g4);
        Ok((acts, inv4, token, t.distributed))
    }

    /// Full release of invoice `id`, whose current value is `inv`; see
    /// `release_full_spec`.
    fn release_full(&mut self, id: u64, inv: Invoice, actor: Address, now: u64, gov: bool, depth: u64) -> (r: Result<Vec<Action>, SplitError>)
        ensures
            matches_outcome(r, final(self)@, release_full_spec(old(self)@, id, inv@, actor, now, gov, depth as nat)),
        decreases depth, 1nat,
    {
        let (mut acts, inv4, token, dist) = match self.release_start(id, inv, actor, now) {
            Ok(x) => x,
            Err(e) => return Err(e),
        };
        let mut a5 = match self.forward_leftover(&inv4, token, dist, now, gov, depth) {
            Ok(a) => a,
            Err(e) => return Err(e),
        };
        let ghost (g1, g5) = (acts@, a5@);
        acts.append(&mut a5);
        assert(acts@ =~= g1 + g5);
        self.complete_release(id, inv4, actor, now, gov, acts)
    }
}

/// Whether the first `k` invoices of a group are fully funded; stops at the
/// first one that is not.
pub open spec fn group_funded(s: SplitView, ids: Seq<u64>, k: nat) -> Result<bool, SplitError>
    decreases k,
{
    if k == 0 {
        Ok(true)
    } else {
        match group_funded(s, ids, (k - 1) as nat) {
            Err(e) => Err(e),
            Ok(false) => Ok(false),
            Ok(true) => {
                let id = ids[k - 1];
                if !s.invoices.contains_key(id) {
                    Err(SplitError::InvoiceNotFound)
                } else {
                    match total_of(s.inv(id)) {
                        Err(e) => Err(e),
                        Ok(t) => Ok(s.inv(id).funded >= t),
                    }
                }
            },
        }
    }
}

pub proof fn lemma_group_funded_stops(s: SplitView, ids: Seq<u64>, k: nat, n: nat)
    requires
        k <= n,
        group_funded(s, ids, k) is Err || group_funded(s, ids, k) == Ok::<bool, SplitError>(false),
    ensures
        group_funded(s, ids, n) == group_funded(s, ids, k),
    decreases n - k,
{
    if k < n {
        lemma_group_funded_stops(s, ids, k, (n - 1) as nat);
    }
}

/// The checks of an explicit release of invoice `id`; the invoice to
/// release where they pass.
pub open spec fn release_checks(s: SplitView, id: u64) -> Result<InvoiceView, SplitError> {
    if s.paused {
        Err(SplitError::ContractIsPaused)
    } else if !s.invoices.contains_key(id) {
        Err(SplitError::InvoiceNotFound)
    } else {
        let inv = s.inv(id);
        if inv.frozen {
            Err(SplitError::InvoiceIsFrozen)
        } else if inv.admin_frozen {
            Err(SplitError::InvoiceFrozenByAdmin)
        } else if inv.status != InvoiceStatus::Pending {
            Err(SplitError::InvoiceIsNotPending)
        } else {
            match total_of(inv) {
                Err(e) => Err(e),
                Ok(total) => {
                    let min_required = if inv.min_funding_bps > 0 { bps_of_spec(total, inv.min_funding_bps) } else { Some(total) };
                    match min_required {
                        None => Err(SplitError::ArithmeticOverflow),
                        Some(m) => if inv.funded < m {
                            Err(SplitError::MinimumFundingNotReached)
                        } else if inv.approver is Some && !inv.approved {
                            Err(SplitError::AwaitingApproval)
                        } else if inv.prerequisite_id is Some && !s.invoices.contains_key(inv.prerequisite_id->0) {
                            Err(SplitError::InvoiceNotFound)
                        } else if inv.prerequisite_id is Some && s.inv(inv.prerequisite_id->0).status != InvoiceStatus::Released {
                            Err(SplitError::PrerequisiteNotReleased)
                        } else {
                            let grouped = if s.invoice_groups.contains_key(id) {
                                let gid = s.invoice_groups[id];
                                if !s.groups.contains_key(gid) {
                                    Err(SplitError::GroupNotFound)
                                } else {
                                    match group_funded(s, s.groups[gid], s.groups[gid].len()) {
                                        Err(e) => Err(e),
                                        Ok(false) => Err(SplitError::GroupMembersNotFullyFunded),
                                        Ok(true) => Ok(()),
                                    }
                                }
                            } else {
                                Ok(())
                            };
                            match grouped {
                                Err(e) => Err(e),
                                Ok(_) => if inv.co_signers.len() > 0 && inv.signatures.len() < inv.required_signatures {
                                    Err(SplitError::NotEnoughCoSignerApprovals)
                                } else {
                                    Ok(inv)
                                },
                            }
                        },
                    }
                },
            }
        }
    }
}

/// Release invoice `id` as the contract: the tranches due where it has
/// tranches, else everything at once.
pub open spec fn release_dispatch(s: SplitView, id: u64, inv: InvoiceView, actor: Address, now: u64, gov: bool) -> Result<(SplitView, Seq<Action>), SplitError> {
    if inv.tranches.len() == 0 {
        release_full_spec(s, id, inv, actor, now, gov, s.invoices.len())
    } else {
        tranche_release(s, id, inv, actor, now)
    }
}

/// Outcome of an explicit release of invoice `id` at `now`.
pub open spec fn release_outcome(s: SplitView, id: u64, now: u64, gov: bool) -> Result<(SplitView, Seq<Action>), SplitError> {
    match release_checks(s, id) {
        Err(e) => Err(e),
        Ok(inv) => release_dispatch(s, id, inv, s.contract_address, now, gov),
    }
}

impl SplitContract {
    /// Whether every invoice of `ids` is fully funded; see `group_funded`.
    fn group_all_funded(&self, ids: &Vec<u64>) -> (r: Result<bool, SplitError>)
        ensures
            r == group_funded(self@, ids@, ids@.len()),
    {
        let mut i: usize = 0;
        while i < ids.len()
            invariant
                i <= ids.len(),
                group_funded(self@, ids@, i as nat) == Ok::<bool, SplitError>(true),
            decreases ids.len() - i,
        {
            let id = ids[i];
            assert(self@.invoices.dom() =~= self.invoices@.dom());
            let total = match self.invoices.get(&id) {
                None => {
                    proof { lemma_group_funded_stops(self@, ids@, (i + 1) as nat, ids@.len()); }
                    return Err(SplitError::InvoiceNotFound);
                },
                Some(e) => match invoice_total(&e.invoice) {
                    Err(err) => {
                        proof { lemma_group_funded_stops(self@, ids@, (i + 1) as nat, ids@.len()); }
                        return Err(err);
                    },
                    Ok(t) => {
                        if e.invoice.funded < t {
                            proof { lemma_group_funded_stops(self@, ids@, (i + 1) as nat, ids@.len()); }
                            return Ok(false);
                        }
                        t
                    },
                },
            };
            i = i + 1;
        }
        Ok(true)
    }

    /// The checks of `release`; see `release_checks`.
    fn check_release(&self, id: u64) -> (r: Result<Invoice, SplitError>)
        ensures
            match (r, release_checks(self@, id)) {
                (Ok(inv), Ok(si)) => inv@ == si,
                (Err(e), Err(se)) => e == se,
                _ => false,
            },
    {
        if self.paused {
            return Err(SplitError::ContractIsPaused);
        }
        assert(self@.invoices.dom() =~= self.invoices@.dom());
        let inv = match self.invoices.get(&id) {
            None => return Err(SplitError::InvoiceNotFound),
            Some(e) => e.invoice.copy(),
        };
        if inv.frozen {
            return Err(SplitError::InvoiceIsFrozen);
        }
        if inv.admin_frozen {
            return Err(SplitError::InvoiceFrozenByAdmin);
        }
        if inv.status != InvoiceStatus::Pending {
            return Err(SplitError::InvoiceIsNotPending);
        }
        let total = match invoice_total(&inv) {
            Ok(t) => t,
            Err(e) => return Err(e),
        };
        let min_required = if inv.min_funding_bps > 0 { bps_of(total, inv.min_funding_bps) } else { Some(total) };
        match min_required {
            None => return Err(SplitError::ArithmeticOverflow),
            Some(m) => {
                if inv.funded < m {
                    return Err(SplitError::MinimumFundingNotReached);
                }
            },
        }
        if inv.approver.is_some() && !inv.approved {
            return Err(SplitError::AwaitingApproval);
        }
        match inv.prerequisite_id {
            Some(pid) => match self.invoices.get(&pid) {
                None => return Err(SplitError::InvoiceNotFound),
                Some(p) => {
                    if p.invoice.status != InvoiceStatus::Released {
                        return Err(SplitError::PrerequisiteNotReleased);
                    }
                },
            },
            None => {},
        }
        match self.invoice_groups.get(&id) {
            Some(gid) => match self.groups.get(gid) {
                None => return Err(SplitError::GroupNotFound),
                Some(ids) => match self.group_all_funded(ids) {
                    Err(e) => return Err(e),
                    Ok(false) => return Err(SplitError::GroupMembersNotFullyFunded),
                    Ok(true) => {},
                },
            },
            None => {},
        }
        if inv.co_signers.len() > 0 && inv.signatures.len() < inv.required_signatures as usize {
            return Err(SplitError::NotEnoughCoSignerApprovals);
        }
        Ok(inv)
    }

    /// Release invoice `id` (current value `inv`): see `release_dispatch`.
    pub(crate) fn dispatch_release(&mut self, id: u64, inv: Invoice, actor: Address, now: u64, gov: bool) -> (r: Result<Vec<Action>, SplitError>)
        ensures
            matches_outcome(r, final(self)@, release_dispatch(old(self)@, id, inv@, actor, now, gov)),
    {
        if inv.tranches.len() == 0 {
            assert(self@.invoices.dom() =~= self.invoices@.dom());
            let depth = self.invoices.len() as u64;
            self.release_full(id, inv, actor, now, gov, depth)
        } else {
            self.release_tranches(id, inv, actor, now)
        }
    }

    /// Release the funds of invoice `invoice_id` at `now`: the tranches due
    /// where it has tranches, else everything. `governance_approved` is the
    /// governance contract's answer for the next subscription invoice, where
    /// one is due. A failed call changes nothing.
    pub fn release(&mut self, invoice_id: u64, now: u64, governance_approved: bool) -> (r: Result<Vec<Action>, SplitError>)
        ensures
            exact_outcome(r, old(self)@, final(self)@, release_outcome(old(self)@, invoice_id, now, governance_approved)),
    {
        let saved = self.snapshot();
        let r = self.release_attempt(invoice_id, now, governance_approved);
        if r.is_err() {
            *self = saved;
        }
        r
    }

    /// `release` up to the point where a failure is rolled back.
    fn release_attempt(&mut self, invoice_id: u64, now: u64, governance_approved: bool) -> (r: Result<Vec<Action>, SplitError>)
        ensures
            matches_outcome(r, final(self)@, release_outcome(old(self)@, invoice_id, now, governance_approved)),
    {
        let inv = match self.check_release(invoice_id) {
            Ok(i) => i,
            Err(e) => return Err(e),
        };
        let me = self.contract_address;
        self.dispatch_release(invoice_id, inv, me, now, governance_approved)
    }
}

} // verus!
