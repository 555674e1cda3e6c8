//! Properties of the contract that span its operations.

use vstd::prelude::*;
use vstd::arithmetic::power::pow;
use crate::types::{Address, InvoiceStatus, OverflowBehavior, Payment, SplitRule};
use crate::invoice::{Invoice, InvoiceCore, InvoiceExt, InvoiceExt2, InvoiceView};
use crate::math::{as_u128, wrap_i128, sum_i128, mul_div_spec, bps_of_spec};
use crate::tranches::sat_u128;
use crate::distribution::{share_lines, share_line, gross_share, rule_amount, ShareLine};
use crate::state::{SplitView, PayerState, EntryView};
use crate::compact::{compact_bytes, restored, be_value, lemma_be_value_of_bytes, lemma_pow256_values};
use crate::proofs::be_bytes;
use crate::pay::{credit_plan, charge, pay_outcome, pay_checks, auto_resumes, credit_state, pay_guarded};
use crate::groups::{archive_outcome, archived, migrate_outcome, vote_outcome, distinct_payers};
use crate::invoice::{LegacyInvoice, upgraded};
use crate::paths::{compress_outcome, compressed, total_for, tips_as_payments};
use crate::lifecycle::{pause_outcome, resume_outcome};
use crate::refunds::{lower_bound, add_total, payer_totals, refund_actions, payer_refunds};
use crate::tranches::{tranche_raw, tranche_lines, stage_outcome, stage_checks, stage_apply};
use crate::release::{total_of, token_of, forward_step, ForwardStep, leftover_of, release_full_spec, release_prefix, group_fold, forward_spec, finished_release, recipient_actions, distribution_actions, treasury_route};
use crate::effects::{Action, SplitError};
use crate::admin::{with_listed, without_listed, other_than, queue_outcome, execute_outcome, cancel_outcome, timelock_due, applied};
use crate::types::TimelockAction;
use crate::payouts::{claim_outcome, mark_claimed, position_from};
use crate::admin::fresh_view;
use crate::create::{create_invoice_outcome, rate_limited};
use crate::copies::{clone_outcome, OverridesView};
use crate::terms::TermsView;

verus! {

/// Reading an invoice back from its compact bytes restores its status,
/// funded amount and deadline; every other field comes from the parts it
/// is assembled with.
pub proof fn law_compact_roundtrip(inv: Invoice, core: InvoiceCore, ext: InvoiceExt, ext2: InvoiceExt2)
    ensures
        restored(compact_bytes(inv.status, inv.funded, inv.deadline), core, ext, ext2).status == inv.status,
        restored(compact_bytes(inv.status, inv.funded, inv.deadline), core, ext, ext2).funded == inv.funded,
        restored(compact_bytes(inv.status, inv.funded, inv.deadline), core, ext, ext2).deadline == inv.deadline,
{
    let data = compact_bytes(inv.status, inv.funded, inv.deadline);
    let f = be_bytes(as_u128(inv.funded) as nat, 16);
    let d = be_bytes(inv.deadline as nat, 8);
    lemma_be_value_of_bytes(as_u128(inv.funded) as nat, 16);
    lemma_be_value_of_bytes(inv.deadline as nat, 8);
    lemma_pow256_values();
    assert(data.subrange(1, 17) =~= f);
    assert(data.subrange(17, 25) =~= d);
    vstd::arithmetic::div_mod::lemma_small_mod(as_u128(inv.funded) as nat, pow(256, 16) as nat);
    vstd::arithmetic::div_mod::lemma_small_mod(inv.deadline as nat, pow(256, 8) as nat);
}

/// Splitting an invoice into its three stored parts and assembling them
/// gives the invoice back.
pub proof fn law_split_assemble(inv: Invoice)
    ensures
        Invoice::spec_assemble(inv.spec_parts().0, inv.spec_parts().1, inv.spec_parts().2) == inv,
{
}

/// A full release of an invoice without split rules distributes exactly
/// its funded amount: the last recipient takes what rounding left over.
pub proof fn law_release_distributes_funded(inv: InvoiceView, fee_bps: u32, funded: i128, total: i128)
    requires
        inv.split_rules.len() == 0,
        inv.recipients.len() > 0,
        share_lines(inv, fee_bps, funded, total, inv.recipients.len()) is Ok,
    ensures
        share_lines(inv, fee_bps, funded, total, inv.recipients.len())->Ok_0.1.distributed == funded,
{
    let n = inv.recipients.len();
    assert(share_lines(inv, fee_bps, funded, total, (n - 1) as nat) is Ok);
}

/// A payment that goes through advances the payer's nonce by one.
pub proof fn law_payment_advances_nonce(s: SplitView, payer: Address, id: u64, amount: i128, nonce: u64, now: u64, inv: InvoiceView, remaining: i128)
    requires
        credit_plan(s, payer, id, amount, nonce, now, inv, remaining) is Ok,
    ensures
        nonce == s.payer(id, payer).nonce,
        credit_plan(s, payer, id, amount, nonce, now, inv, remaining)->Ok_0.payer_state.nonce == s.payer(id, payer).nonce + 1,
{
}

/// Archiving keeps the invoice as it was; it only moves to archive storage.
pub proof fn law_archive_keeps_invoice(s: SplitView, id: u64)
    requires
        archive_outcome(s, id) is Ok,
    ensures
        archive_outcome(s, id)->Ok_0.0.inv(id) == s.inv(id),
        archive_outcome(s, id)->Ok_0.0.invoices[id].archived,
        archive_outcome(s, id)->Ok_0.0.invoices.dom() == s.invoices.dom(),
{
    assert(archive_outcome(s, id)->Ok_0.0.invoices.dom() =~= s.invoices.dom());
}

/// Resuming an invoice right after pausing it leaves it unfrozen with no
/// reason and no auto-resume time.
pub proof fn law_pause_then_resume(s: SplitView, creator: Address, id: u64, reason: Seq<char>, auto_resume_at: Option<u64>, now: u64)
    requires
        pause_outcome(s, creator, id, reason, auto_resume_at, now) is Ok,
    ensures
        resume_outcome(pause_outcome(s, creator, id, reason, auto_resume_at, now)->Ok_0.0, creator, id, now) is Ok,
        ({
            let s2 = resume_outcome(pause_outcome(s, creator, id, reason, auto_resume_at, now)->Ok_0.0, creator, id, now)->Ok_0.0;
            &&& !s2.inv(id).frozen
            &&& s2.inv(id).pause_reason is None
            &&& s2.inv(id).auto_resume_at is None
            &&& s2.inv(id) == (InvoiceView { frozen: false, pause_reason: None, auto_resume_at: None, ..s.inv(id) })
        }),
{
}


/// What `payer` paid in the first `k` payments of `ps`.
pub open spec fn paid_by(ps: Seq<Payment>, payer: Address, k: nat) -> int
    decreases k,
{
    if k == 0 {
        0
    } else {
        paid_by(ps, payer, (k - 1) as nat) + if ps[k - 1].payer == payer { ps[k - 1].amount as int } else { 0 }
    }
}

/// Per-payer totals listed in strictly increasing address order, so that no
/// payer is listed twice.
pub open spec fn sorted_totals(l: Seq<(Address, i128)>) -> bool {
    forall|i: int, j: int| 0 <= i < j < l.len() ==> (#[trigger] l[i]).0.0 < (#[trigger] l[j]).0.0
}

/// Per-payer totals that are exact for the first `k` payments of `ps`:
/// each listed total is what its payer paid, each payer of one of those
/// payments is listed, and anyone not listed paid nothing.
pub open spec fn exact_totals(l: Seq<(Address, i128)>, ps: Seq<Payment>, k: nat) -> bool {
    &&& sorted_totals(l)
    &&& forall|i: int| 0 <= i < l.len() ==> (#[trigger] l[i]).1 == paid_by(ps, l[i].0, k)
    &&& forall|j: int| 0 <= j < k ==> exists|i: int| 0 <= i < l.len() && (#[trigger] l[i]).0 == (#[trigger] ps[j]).payer
    &&& forall|p: Address| (forall|i: int| 0 <= i < l.len() ==> (#[trigger] l[i]).0 != p) ==> #[trigger] paid_by(ps, p, k) == 0
}

proof fn lemma_lower_bound(l: Seq<(Address, i128)>, x: u64, i: int)
    requires
        sorted_totals(l),
        0 <= i <= l.len(),
        forall|j: int| 0 <= j < i ==> (#[trigger] l[j]).0.0 < x,
    ensures
        i <= lower_bound(l, x, i) <= l.len(),
        forall|j: int| 0 <= j < lower_bound(l, x, i) ==> (#[trigger] l[j]).0.0 < x,
        lower_bound(l, x, i) < l.len() ==> l[lower_bound(l, x, i)].0.0 >= x,
    decreases l.len() - i,
{
    if i < l.len() && l[i].0.0 < x {
        lemma_lower_bound(l, x, i + 1);
    }
}

proof fn lemma_totals_step(ps: Seq<Payment>, k: nat)
    requires
        0 < k <= ps.len(),
        payer_totals(ps, (k - 1) as nat) is Some,
        exact_totals(payer_totals(ps, (k - 1) as nat)->0, ps, (k - 1) as nat),
        payer_totals(ps, k) is Some,
    ensures
        exact_totals(payer_totals(ps, k)->0, ps, k),
{
    let l = payer_totals(ps, (k - 1) as nat)->0;
    let pay = ps[k - 1];
    let x = pay.payer.0;
    let i = lower_bound(l, x, 0);
    lemma_lower_bound(l, x, 0);
    let l2 = payer_totals(ps, k)->0;
    assert(l2 == add_total(l, pay.payer, pay.amount)->0);
    if i < l.len() && l[i].0 == pay.payer {
        assert(l2 == l.update(i, (pay.payer, (l[i].1 + pay.amount) as i128)));
        assert(sorted_totals(l2));
        assert forall|m: int| 0 <= m < l2.len() implies (#[trigger] l2[m]).1 == paid_by(ps, l2[m].0, k) by {
            if m != i {
                assert(l[m].0 != pay.payer) by {
                    if m < i { assert(l[m].0.0 < l[i].0.0); } else { assert(l[i].0.0 < l[m].0.0); }
                }
            }
        }
        assert forall|j: int| 0 <= j < k implies exists|m: int| 0 <= m < l2.len() && (#[trigger] l2[m]).0 == (#[trigger] ps[j]).payer by {
            if j < k - 1 {
                let m = choose|m: int| 0 <= m < l.len() && (#[trigger] l[m]).0 == (#[trigger] ps[j]).payer;
                assert(l2[m].0 == l[m].0);
            } else {
                assert(l2[i].0 == ps[j].payer);
            }
        }
        assert forall|p: Address| (forall|m: int| 0 <= m < l2.len() ==> (#[trigger] l2[m]).0 != p) implies #[trigger] paid_by(ps, p, k) == 0 by {
            assert(l2[i].0 != p);
            assert forall|m: int| 0 <= m < l.len() implies (#[trigger] l[m]).0 != p by {
                assert(l2[m].0 == l[m].0);
            }
            assert(paid_by(ps, p, (k - 1) as nat) == 0);
            assert(pay.payer != p);
        }
    } else {
        assert(l2 == l.insert(i, (pay.payer, pay.amount)));
        assert forall|m: int| 0 <= m < l.len() implies (#[trigger] l[m]).0 != pay.payer by {
            if m >= i {
                if m > i { assert(l[i].0.0 < l[m].0.0); }
                assert(l[i].0.0 >= x);
                assert(l[i].0 != pay.payer);
                assert(l[m].0.0 != x);
            }
        }
        assert(paid_by(ps, pay.payer, (k - 1) as nat) == 0);
        assert(sorted_totals(l2)) by {
            assert forall|a: int, b: int| 0 <= a < b < l2.len() implies (#[trigger] l2[a]).0.0 < (#[trigger] l2[b]).0.0 by {
                if b < i {
                    assert(l2[a] == l[a] && l2[b] == l[b]);
                } else if b == i {
                    assert(l2[a] == l[a]);
                } else if a == i {
                    assert(l2[b] == l[b - 1]);
                    assert(l[b - 1].0.0 >= x);
                    assert(l[b - 1].0 != pay.payer);
                } else if a < i {
                    assert(l2[a] == l[a] && l2[b] == l[b - 1]);
                } else {
                    assert(l2[a] == l[a - 1] && l2[b] == l[b - 1]);
                }
            }
        }
        assert forall|m: int| 0 <= m < l2.len() implies (#[trigger] l2[m]).1 == paid_by(ps, l2[m].0, k) by {
            if m < i {
                assert(l2[m] == l[m]);
                assert(l[m].0 != pay.payer);
            } else if m > i {
                assert(l2[m] == l[m - 1]);
                assert(l[m - 1].0 != pay.payer);
            }
        }
        assert forall|j: int| 0 <= j < k implies exists|m: int| 0 <= m < l2.len() && (#[trigger] l2[m]).0 == (#[trigger] ps[j]).payer by {
            if j < k - 1 {
                let m = choose|m: int| 0 <= m < l.len() && (#[trigger] l[m]).0 == (#[trigger] ps[j]).payer;
                if m < i {
                    assert(l2[m] == l[m]);
                } else {
                    assert(l2[m + 1] == l[m]);
                }
            } else {
                assert(l2[i].0 == ps[j].payer);
            }
        }
        assert forall|p: Address| (forall|m: int| 0 <= m < l2.len() ==> (#[trigger] l2[m]).0 != p) implies #[trigger] paid_by(ps, p, k) == 0 by {
            assert(l2[i].0 != p);
            assert forall|m: int| 0 <= m < l.len() implies (#[trigger] l[m]).0 != p by {
                if m < i {
                    assert(l2[m] == l[m]);
                } else {
                    assert(l2[m + 1] == l[m]);
                }
            }
            assert(paid_by(ps, p, (k - 1) as nat) == 0);
            assert(pay.payer != p);
        }
    }
}

/// The per-payer totals of the first `k` payments, where none overflows,
/// are exact.
pub proof fn lemma_payer_totals_exact(ps: Seq<Payment>, k: nat)
    requires
        k <= ps.len(),
        payer_totals(ps, k) is Some,
    ensures
        exact_totals(payer_totals(ps, k)->0, ps, k),
    decreases k,
{
    if k > 0 {
        if payer_totals(ps, (k - 1) as nat) is None {
            crate::refunds::lemma_payer_totals_none_persists(ps, (k - 1) as nat, k);
        }
        lemma_payer_totals_exact(ps, (k - 1) as nat);
        lemma_totals_step(ps, k);
    }
}

proof fn lemma_refund_actions_shape(id: u64, token: Address, me: Address, t: Seq<(Address, i128)>, k: nat)
    requires
        k <= t.len(),
        refund_actions(id, token, me, t, k) is Ok,
    ensures
        refund_actions(id, token, me, t, k)->Ok_0.0.len() == 2 * k,
        forall|i: int| 0 <= i < k ==> #[trigger] refund_actions(id, token, me, t, k)->Ok_0.0[2 * i] == (Action::Transfer { token, from: me, to: t[i].0, amount: t[i].1 }),
    decreases k,
{
    if k > 0 {
        if refund_actions(id, token, me, t, (k - 1) as nat) is Err {
            crate::refunds::lemma_refund_actions_err_persists(id, token, me, t, (k - 1) as nat, k);
        }
        lemma_refund_actions_shape(id, token, me, t, (k - 1) as nat);
        let a0 = refund_actions(id, token, me, t, (k - 1) as nat)->Ok_0.0;
        let a1 = refund_actions(id, token, me, t, k)->Ok_0.0;
        assert forall|i: int| 0 <= i < k implies #[trigger] a1[2 * i] == Action::Transfer { token, from: me, to: t[i].0, amount: t[i].1 } by {
            if i < k - 1 {
                assert(a1[2 * i] == a0[2 * i]);
            }
        }
    }
}

/// A refund gives every payer back exactly what it paid: the refund's
/// transfers come first, one for each payer of the invoice and none twice,
/// each from the contract and of the payer's whole contribution.
pub proof fn law_refund_returns_contributions(id: u64, inv: InvoiceView, me: Address)
    requires
        payer_refunds(id, inv, me) is Ok,
    ensures
        ({
            let acts = payer_refunds(id, inv, me)->Ok_0.0;
            let n = acts.len() / 2;
            &&& acts.len() % 2 == 0
            &&& forall|i: int| 0 <= i < n ==> (#[trigger] acts[2 * i]) is Transfer
                && acts[2 * i]->Transfer_from == me
                && acts[2 * i]->Transfer_token == inv.tokens[0]
                && acts[2 * i]->Transfer_amount == paid_by(inv.payments, acts[2 * i]->Transfer_to, inv.payments.len())
            &&& forall|i: int, j: int| 0 <= i < j < n ==> (#[trigger] acts[2 * i])->Transfer_to != (#[trigger] acts[2 * j])->Transfer_to
            &&& forall|q: int| 0 <= q < inv.payments.len() ==> exists|i: int| 0 <= i < n && (#[trigger] acts[2 * i])->Transfer_to == (#[trigger] inv.payments[q]).payer
        }),
{
    let ps = inv.payments;
    let t = payer_totals(ps, ps.len())->0;
    let token = token_of(inv)->Ok_0;
    lemma_payer_totals_exact(ps, ps.len());
    lemma_refund_actions_shape(id, token, me, t, t.len());
    let acts = payer_refunds(id, inv, me)->Ok_0.0;
    assert(acts.len() / 2 == t.len());
    assert forall|i: int, j: int| 0 <= i < j < t.len() implies (#[trigger] acts[2 * i])->Transfer_to != (#[trigger] acts[2 * j])->Transfer_to by {
        assert(acts[2 * i] == Action::Transfer { token, from: me, to: t[i].0, amount: t[i].1 });
        assert(acts[2 * j] == Action::Transfer { token, from: me, to: t[j].0, amount: t[j].1 });
        assert(t[i].0.0 < t[j].0.0);
    }
    assert forall|q: int| 0 <= q < ps.len() implies exists|i: int| 0 <= i < t.len() && (#[trigger] acts[2 * i])->Transfer_to == (#[trigger] ps[q]).payer by {
        let m = choose|m: int| 0 <= m < t.len() && (#[trigger] t[m]).0 == (#[trigger] ps[q]).payer;
        assert(acts[2 * m] == Action::Transfer { token, from: me, to: t[m].0, amount: t[m].1 });
    }
}


/// Whitelisting puts the address on the whitelist without listing anyone
/// twice, and removing it afterwards takes it off again.
pub proof fn law_whitelist_then_remove(w: Seq<Address>, a: Address)
    ensures
        with_listed(w, a).contains(a),
        w.no_duplicates() ==> with_listed(w, a).no_duplicates(),
        !without_listed(with_listed(w, a), a).contains(a),
        forall|b: Address| b != a ==> (#[trigger] without_listed(with_listed(w, a), a).contains(b) <==> w.contains(b)),
{
    let w1 = with_listed(w, a);
    if !w.contains(a) {
        assert(w1[w1.len() - 1] == a);
    } else {
        let i = choose|i: int| 0 <= i < w.len() && w[i] == a;
        assert(w1[i] == a);
    }
    let f = without_listed(w1, a);
    assert forall|b: Address| b != a implies (#[trigger] without_listed(w1, a).contains(b) <==> w.contains(b)) by {
        if w.contains(b) {
            let i = choose|i: int| 0 <= i < w.len() && w[i] == b;
            assert(w1[i] == b);
            w1.lemma_filter_contains(other_than(a), i);
        }
        if f.contains(b) {
            w1.lemma_filter_contains_rev(other_than(a), b);
            let i = choose|i: int| 0 <= i < w1.len() && w1[i] == b;
            if i == w.len() {
                assert(w1[i] == a);
            } else {
                assert(w[i] == b);
            }
        }
    }
    if f.contains(a) {
        let k = choose|k: int| 0 <= k < f.len() && f[k] == a;
        w1.lemma_filter_pred(other_than(a), k);
    }
}

/// A queued admin action cannot run before its timelock has elapsed; from
/// then on it runs once, with its effect, and never a second time.
pub proof fn law_timelock_holds(s: SplitView, action: TimelockAction, now: u64, later: u64)
    requires
        queue_outcome(s, action, now) is Ok,
    ensures
        ({
            let (id, s1, _acts) = queue_outcome(s, action, now)->Ok_0;
            &&& (later as int) < timelock_due(now, s.timelock_secs) ==> execute_outcome(s1, id, later) == Err::<(SplitView, Seq<Action>), SplitError>(SplitError::TimelockNotYetElapsed)
            &&& (later as int) >= timelock_due(now, s.timelock_secs) && !(action matches TimelockAction::SetPlatformFee(f) && f > 10_000) ==> {
                &&& execute_outcome(s1, id, later) is Ok
                &&& execute_outcome(s1, id, later)->Ok_0.0.treasury == applied(s, action).treasury
                &&& execute_outcome(s1, id, later)->Ok_0.0.platform_fee_bps == applied(s, action).platform_fee_bps
                &&& execute_outcome(execute_outcome(s1, id, later)->Ok_0.0, id, later) == Err::<(SplitView, Seq<Action>), SplitError>(SplitError::ActionAlreadyExecuted)
            }
        }),
{
}

/// A cancelled admin action never runs.
pub proof fn law_cancelled_action_never_runs(s: SplitView, action_id: u64, now: u64, later: u64)
    requires
        cancel_outcome(s, action_id, now) is Ok,
    ensures
        execute_outcome(cancel_outcome(s, action_id, now)->Ok_0.0, action_id, later) == Err::<(SplitView, Seq<Action>), SplitError>(SplitError::ActionNotFound),
{
}


/// A payment never funds an invoice beyond its total. It is credited with
/// the smaller of the amount paid and the remaining balance, funded grows
/// by exactly that and the payment is recorded with that amount. The payer
/// sends the whole amount (with the insurance premium); what exceeds the
/// balance goes back to the payer under the refund behaviour and to the
/// treasury under the donate behaviour, and under the reject behaviour an
/// amount above the balance is refused.
pub proof fn law_payment_never_overfunds(s: SplitView, payer: Address, id: u64, amount: i128, nonce: u64, now: u64, inv: InvoiceView, total: i128, remaining: i128)
    requires
        remaining == total - inv.funded,
        credit_plan(s, payer, id, amount, nonce, now, inv, remaining) is Ok,
    ensures
        ({
            let p = credit_plan(s, payer, id, amount, nonce, now, inv, remaining)->Ok_0;
            let credited = if amount <= remaining { amount } else { remaining };
            let token = inv.tokens[0];
            let ch = charge(s, inv, payer, amount, remaining, token);
            &&& p.invoice.funded == inv.funded + credited
            &&& p.invoice.funded <= total
            &&& p.invoice.payments == inv.payments.push(Payment { payer, amount: credited, tip: 0 })
            &&& inv.overflow_behavior == OverflowBehavior::Reject ==> amount <= remaining
            &&& ch is Ok && ch->Ok_0.0 == credited
            &&& ch->Ok_0.2[0] == Action::Transfer { token, from: payer, to: s.contract_address, amount: (amount + ch->Ok_0.1) as i128 }
            &&& p.actions.subrange(1, 1 + ch->Ok_0.2.len() as int) == ch->Ok_0.2
            &&& amount <= remaining ==> ch->Ok_0.2.len() == 1
            &&& amount > remaining && inv.overflow_behavior == OverflowBehavior::Refund ==> ch->Ok_0.2.len() == 2
                && ch->Ok_0.2[1] == Action::Transfer { token, from: s.contract_address, to: payer, amount: (amount - remaining) as i128 }
            &&& amount > remaining && inv.overflow_behavior == OverflowBehavior::Donate ==> ch->Ok_0.2.len() == 2
                && ch->Ok_0.2[1] == Action::Transfer { token, from: s.contract_address, to: s.treasury->0, amount: (amount - remaining) as i128 }
        }),
{
    let p = credit_plan(s, payer, id, amount, nonce, now, inv, remaining)->Ok_0;
    let ch = charge(s, inv, payer, amount, remaining, inv.tokens[0]);
    assert(p.actions.subrange(1, 1 + ch->Ok_0.2.len() as int) =~= ch->Ok_0.2);
}


proof fn lemma_position_from_bounds(s: Seq<Address>, a: Address, i: int)
    requires
        0 <= i,
    ensures
        position_from(s, a, i) matches Some(j) ==> i <= j < s.len() && s[j] == a,
    decreases s.len() - i,
{
    if 0 <= i < s.len() && s[i] != a {
        lemma_position_from_bounds(s, a, i + 1);
    }
}

/// Each recipient of a released invoice can claim exactly once: after a
/// claim goes through, a second claim by the same recipient is refused.
pub proof fn law_claim_once(s: SplitView, id: u64, recipient: Address, now: u64, later: u64)
    requires
        claim_outcome(s, id, recipient, now) is Ok,
    ensures
        claim_outcome(claim_outcome(s, id, recipient, now)->Ok_0.0, id, recipient, later) == Err::<(SplitView, Seq<Action>), SplitError>(SplitError::RecipientAlreadyClaimed),
{
    let inv = s.inv(id);
    let idx = position_from(inv.recipients, recipient, 0)->0;
    lemma_position_from_bounds(inv.recipients, recipient, 0);
    let c = mark_claimed(inv.claimed, idx);
    if idx >= inv.claimed.len() {
        assert(c[idx] == 1);
    }
    let s2 = claim_outcome(s, id, recipient, now)->Ok_0.0;
    assert(s2.invoices.contains_key(id));
    assert(s2.inv(id) == InvoiceView { claimed: c, ..inv });
    assert(!s2.paused);
    assert(position_from(s2.inv(id).recipients, recipient, 0) == Some(idx));
    assert(idx < c.len() && c[idx] != 0);
}


/// Migration is safe to repeat: an invoice that was upgraded is left as it
/// is by a second migration, whatever legacy record is offered.
pub proof fn law_migrate_twice_is_once(s: SplitView, id: u64, legacy: LegacyInvoice, again: Option<InvoiceView>)
    requires
        migrate_outcome(s, id, Some(upgraded(legacy))) is Ok,
    ensures
        migrate_outcome(migrate_outcome(s, id, Some(upgraded(legacy)))->Ok_0.0, id, again) is Ok,
        migrate_outcome(migrate_outcome(s, id, Some(upgraded(legacy)))->Ok_0.0, id, again)->Ok_0.0
            == migrate_outcome(s, id, Some(upgraded(legacy)))->Ok_0.0,
{
}


/// A vote to extend the deadline by a payer who has not voted yet extends
/// it by seven days exactly when, with this vote, a strict majority of the
/// invoice's distinct payers has voted; the votes are then cleared.
pub proof fn law_vote_extends_on_strict_majority(s: SplitView, id: u64, voter: Address)
    requires
        vote_outcome(s, id, voter) is Ok,
        !(s.extension_votes.contains_key(id) && s.extension_votes[id].contains(voter)),
    ensures
        ({
            let inv = s.inv(id);
            let n = distinct_payers(inv.payments, inv.payments.len()).len();
            let votes = if s.extension_votes.contains_key(id) { s.extension_votes[id].len() } else { 0 };
            let s2 = vote_outcome(s, id, voter)->Ok_0.0;
            &&& 2 * (votes + 1) > n ==> s2.inv(id).deadline == inv.deadline + 604_800 && !s2.extension_votes.contains_key(id)
            &&& 2 * (votes + 1) <= n ==> s2.inv(id).deadline == inv.deadline && s2.extension_votes[id].len() == votes + 1
        }),
{
}


proof fn lemma_total_for(l: Seq<(Address, i128)>, p: Address, i: int)
    requires
        sorted_totals(l),
        0 <= i <= l.len(),
    ensures
        forall|m: int| i <= m < l.len() && (#[trigger] l[m]).0 == p ==> total_for(l, p, i) == l[m].1,
        (forall|m: int| i <= m < l.len() ==> (#[trigger] l[m]).0 != p) ==> total_for(l, p, i) == 0,
    decreases l.len() - i,
{
    if i < l.len() {
        lemma_total_for(l, p, i + 1);
        if l[i].0 == p {
            assert forall|m: int| i <= m < l.len() && (#[trigger] l[m]).0 == p implies m == i by {
                if m > i {
                    assert(l[i].0.0 < l[m].0.0);
                }
            }
        }
    }
}

/// Compressing the payments of an invoice leaves one payment per distinct
/// payer, in address order: its amount is everything that payer paid and
/// its tip every tip it gave; each payer of the invoice keeps its entry.
/// The funded amount, still the sum of the payments, and every other field
/// of the invoice stay as they were.
pub proof fn law_compression_per_payer(s: SplitView, id: u64)
    requires
        compress_outcome(s, id) is Ok,
    ensures
        sum_i128(compress_outcome(s, id)->Ok_0.0.inv(id).payments.map_values(|p: Payment| p.amount)) == s.inv(id).funded,
        compress_outcome(s, id)->Ok_0.0.inv(id) == (InvoiceView { payments: compress_outcome(s, id)->Ok_0.0.inv(id).payments, ..s.inv(id) }),
        ({
            let old_ps = s.inv(id).payments;
            let n = old_ps.len();
            let new_ps = compress_outcome(s, id)->Ok_0.0.inv(id).payments;
            &&& forall|i: int, j: int| 0 <= i < j < new_ps.len() ==> (#[trigger] new_ps[i]).payer.0 < (#[trigger] new_ps[j]).payer.0
            &&& forall|i: int| 0 <= i < new_ps.len() ==> (#[trigger] new_ps[i]).amount == paid_by(old_ps, new_ps[i].payer, n)
                && new_ps[i].tip == paid_by(tips_as_payments(old_ps), new_ps[i].payer, n)
            &&& forall|q: int| 0 <= q < n ==> exists|i: int| 0 <= i < new_ps.len() && (#[trigger] new_ps[i]).payer == (#[trigger] old_ps[q]).payer
        }),
{
    let old_ps = s.inv(id).payments;
    let n = old_ps.len();
    let tps = tips_as_payments(old_ps);
    let a = payer_totals(old_ps, n)->0;
    let t = payer_totals(tps, n)->0;
    lemma_payer_totals_exact(old_ps, n);
    lemma_payer_totals_exact(tps, n);
    let new_ps = compress_outcome(s, id)->Ok_0.0.inv(id).payments;
    assert(new_ps == compressed(a, t));
    assert forall|i: int| 0 <= i < new_ps.len() implies (#[trigger] new_ps[i]).amount == paid_by(old_ps, new_ps[i].payer, n)
        && new_ps[i].tip == paid_by(tps, new_ps[i].payer, n) by {
        let p = a[i].0;
        lemma_total_for(t, p, 0);
        if exists|m: int| 0 <= m < t.len() && t[m].0 == p {
            let m = choose|m: int| 0 <= m < t.len() && t[m].0 == p;
            assert(t[m].1 == paid_by(tps, t[m].0, n));
        } else {
            assert(forall|m: int| 0 <= m < t.len() ==> (#[trigger] t[m]).0 != p);
        }
    }
    assert forall|q: int| 0 <= q < n implies exists|i: int| 0 <= i < new_ps.len() && (#[trigger] new_ps[i]).payer == (#[trigger] old_ps[q]).payer by {
        let m = choose|m: int| 0 <= m < a.len() && (#[trigger] a[m]).0 == (#[trigger] old_ps[q]).payer;
        assert(new_ps[m].payer == a[m].0);
    }
}


/// Sum of the gross shares of the first `k` share lines.
pub open spec fn gross_sum(lines: Seq<ShareLine>, k: nat) -> int
    decreases k,
{
    if k == 0 {
        0
    } else {
        gross_sum(lines, (k - 1) as nat) + lines[k - 1].proportional
    }
}

proof fn lemma_share_lines_facts(inv: InvoiceView, fee_bps: u32, funded: i128, total: i128, k: nat)
    requires
        share_lines(inv, fee_bps, funded, total, k) is Ok,
    ensures
        ({
            let (lines, t) = share_lines(inv, fee_bps, funded, total, k)->Ok_0;
            &&& lines.len() == k
            &&& t.distributed == gross_sum(lines, k)
            &&& t.total_fee == fee_sum(lines, k)
            &&& forall|i: int| 0 <= i < k ==> {
                &&& inv.split_rules.len() > 0 ==> rule_amount(inv.split_rules[i], funded) == Some(#[trigger] lines[i].proportional)
                &&& inv.split_rules.len() == 0 && i != inv.recipients.len() - 1 ==> mul_div_spec(inv.amounts[i], funded, total) == Some(lines[i].proportional)
                &&& bps_of_spec(lines[i].proportional, inv.tax_bps) == Some(lines[i].tax)
                &&& bps_of_spec((lines[i].proportional - lines[i].tax) as i128, fee_bps) == Some(lines[i].fee)
            }
        }),
    decreases k,
{
    if k > 0 {
        lemma_share_lines_facts(inv, fee_bps, funded, total, (k - 1) as nat);
        let (l0, t0) = share_lines(inv, fee_bps, funded, total, (k - 1) as nat)->Ok_0;
        let (l1, t1) = share_lines(inv, fee_bps, funded, total, k)->Ok_0;
        assert forall|i: int| 0 <= i < k - 1 implies l1[i] == l0[i] by {}
        assert(gross_sum(l1, (k - 1) as nat) == gross_sum(l0, (k - 1) as nat)) by {
            lemma_gross_sum_prefix(l0, l1, (k - 1) as nat);
        }
        assert(fee_sum(l1, (k - 1) as nat) == fee_sum(l0, (k - 1) as nat)) by {
            lemma_fee_sum_prefix(l0, l1, (k - 1) as nat);
        }
    }
}

/// Sum of the platform fees of the first `k` share lines.
pub open spec fn fee_sum(lines: Seq<ShareLine>, k: nat) -> int
    decreases k,
{
    if k == 0 {
        0
    } else {
        fee_sum(lines, (k - 1) as nat) + lines[k - 1].fee
    }
}

proof fn lemma_fee_sum_prefix(a: Seq<ShareLine>, b: Seq<ShareLine>, k: nat)
    requires
        k <= a.len(),
        k <= b.len(),
        forall|i: int| 0 <= i < k ==> a[i] == b[i],
    ensures
        fee_sum(a, k) == fee_sum(b, k),
    decreases k,
{
    if k > 0 {
        lemma_fee_sum_prefix(a, b, (k - 1) as nat);
    }
}

proof fn lemma_gross_sum_prefix(a: Seq<ShareLine>, b: Seq<ShareLine>, k: nat)
    requires
        k <= a.len(),
        k <= b.len(),
        forall|i: int| 0 <= i < k ==> a[i] == b[i],
    ensures
        gross_sum(a, k) == gross_sum(b, k),
    decreases k,
{
    if k > 0 {
        lemma_gross_sum_prefix(a, b, (k - 1) as nat);
    }
}

/// A release without split rules divides exactly the funded amount: every
/// recipient but the last gets `amounts[i] * funded / total` (rounded down
/// for non-negative values), the last one what is left, and each share
/// then pays the tax rate on its gross and the platform fee on the rest.
pub proof fn law_proportional_release(inv: InvoiceView, fee_bps: u32, funded: i128, total: i128)
    requires
        inv.split_rules.len() == 0,
        inv.recipients.len() > 0,
        share_lines(inv, fee_bps, funded, total, inv.recipients.len()) is Ok,
    ensures
        ({
            let n = inv.recipients.len();
            let (lines, t) = share_lines(inv, fee_bps, funded, total, n)->Ok_0;
            &&& lines.len() == n
            &&& gross_sum(lines, n) == funded
            &&& t.distributed == funded
            &&& forall|i: int| 0 <= i < n - 1 ==> mul_div_spec(inv.amounts[i], funded, total) == Some(#[trigger] lines[i].proportional)
            &&& forall|i: int| 0 <= i < n - 1 && 0 <= inv.amounts[i] && 0 <= funded && 0 < total
                && inv.amounts[i] * funded <= u128::MAX && inv.amounts[i] * funded / (total as int) <= i128::MAX
                ==> (#[trigger] lines[i].proportional) == inv.amounts[i] * funded / (total as int)
            &&& lines[n - 1].proportional == funded - gross_sum(lines, (n - 1) as nat)
            &&& forall|i: int| 0 <= i < n ==> bps_of_spec((#[trigger] lines[i]).proportional, inv.tax_bps) == Some(lines[i].tax)
                && bps_of_spec((lines[i].proportional - lines[i].tax) as i128, fee_bps) == Some(lines[i].fee)
        }),
{
    let n = inv.recipients.len();
    lemma_share_lines_facts(inv, fee_bps, funded, total, n);
    law_release_distributes_funded(inv, fee_bps, funded, total);
    lemma_share_lines_facts(inv, fee_bps, funded, total, (n - 1) as nat);
    let (l0, t0) = share_lines(inv, fee_bps, funded, total, (n - 1) as nat)->Ok_0;
    let (lines, t) = share_lines(inv, fee_bps, funded, total, n)->Ok_0;
    lemma_gross_sum_prefix(l0, lines, (n - 1) as nat);
}

/// A release with split rules pays each recipient what its rule gives:
/// a fixed amount, a rate of the funded amount, or a rate of it only above
/// a threshold; tax and platform fee come off as for any share. What the
/// rules leave over (where it fits in an amount) is forwarded: to an
/// address as one transfer, or to another invoice as a payment by the
/// contract.
pub proof fn law_split_rule_release(s: SplitView, inv: InvoiceView, fee_bps: u32, funded: i128, total: i128, token: Address)
    requires
        inv.split_rules.len() > 0,
        inv.funded == funded,
        share_lines(inv, fee_bps, funded, total, inv.recipients.len()) is Ok,
    ensures
        ({
            let n = inv.recipients.len();
            let (lines, t) = share_lines(inv, fee_bps, funded, total, n)->Ok_0;
            let left = leftover_of(funded, t.distributed);
            &&& t.distributed == gross_sum(lines, n)
            &&& forall|i: int| 0 <= i < n ==> match inv.split_rules[i] {
                SplitRule::Fixed(a) => (#[trigger] lines[i]).proportional == a,
                SplitRule::Percentage(b) => Some(lines[i].proportional) == mul_div_spec(funded, b as i128, 10_000),
                SplitRule::Tiered(threshold, b) => if funded > threshold {
                    Some(lines[i].proportional) == mul_div_spec(funded, b as i128, 10_000)
                } else {
                    lines[i].proportional == 0
                },
            }
            &&& left <= 0 ==> forward_step(s, inv, token, t.distributed) == Ok::<ForwardStep, SplitError>(ForwardStep::Done(Seq::empty()))
            &&& left > 0 && inv.forward_to is Some ==> forward_step(s, inv, token, t.distributed) == Ok::<ForwardStep, SplitError>(ForwardStep::Done(
                seq![Action::Transfer { token, from: s.contract_address, to: inv.forward_to->0, amount: left as i128 }]))
            &&& left > 0 && inv.forward_to is None && inv.forward_invoice_id is Some && forward_step(s, inv, token, t.distributed) is Ok ==>
                match forward_step(s, inv, token, t.distributed)->Ok_0 {
                    ForwardStep::Store(tid, t2) => tid == inv.forward_invoice_id->0 && t2.funded == s.inv(tid).funded + left
                        && t2.payments == s.inv(tid).payments.push(Payment { payer: s.contract_address, amount: left as i128, tip: 0 }),
                    ForwardStep::Release(tid, t2) => tid == inv.forward_invoice_id->0 && t2.funded == s.inv(tid).funded + left
                        && t2.payments == s.inv(tid).payments.push(Payment { payer: s.contract_address, amount: left as i128, tip: 0 }),
                    ForwardStep::Done(_) => false,
                }
        }),
{
    let n = inv.recipients.len();
    lemma_share_lines_facts(inv, fee_bps, funded, total, n);
}


/// Gross payout of recipient `j` in a tranche or stage of `bps`.
pub open spec fn stage_raw(inv: InvoiceView, bps: u32, total: i128, j: int) -> i128 {
    tranche_raw(inv.amounts[j], bps, inv.funded, total)->0
}

/// The transfer to recipient `j` in a tranche or stage of `bps`: its gross
/// payout less platform fee and tax.
pub open spec fn stage_payout(s: SplitView, inv: InvoiceView, token: Address, bps: u32, total: i128, j: int) -> Action {
    let raw = stage_raw(inv, bps, total, j);
    Action::Transfer {
        token,
        from: s.contract_address,
        to: inv.recipients[j],
        amount: (raw - bps_of_spec(raw, s.platform_fee_bps)->0 - bps_of_spec(raw, inv.tax_bps)->0) as i128,
    }
}

/// The payouts of a tranche or stage of `bps` over the first `k`
/// recipients: each recipient with a positive gross share gets one
/// transfer of it less platform fee and tax, and there is no other payout.
pub proof fn law_stage_payouts(s: SplitView, inv: InvoiceView, token: Address, bps: u32, total: i128, k: nat)
    requires
        tranche_lines(s, inv, token, bps, total, k) is Ok,
    ensures
        ({
            let acts = tranche_lines(s, inv, token, bps, total, k)->Ok_0.0;
            &&& forall|x: int| 0 <= x < acts.len() ==> exists|j: int| 0 <= j < k && stage_raw(inv, bps, total, j) > 0
                && #[trigger] acts[x] == stage_payout(s, inv, token, bps, total, j)
            &&& forall|j: int| 0 <= j < k && #[trigger] stage_raw(inv, bps, total, j) > 0 ==> exists|x: int| 0 <= x < acts.len()
                && acts[x] == stage_payout(s, inv, token, bps, total, j)
        }),
    decreases k,
{
    if k > 0 {
        law_stage_payouts(s, inv, token, bps, total, (k - 1) as nat);
        let a0 = tranche_lines(s, inv, token, bps, total, (k - 1) as nat)->Ok_0.0;
        let a1 = tranche_lines(s, inv, token, bps, total, k)->Ok_0.0;
        let j1 = k - 1;
        if stage_raw(inv, bps, total, j1) > 0 {
            assert(a1 == a0.push(stage_payout(s, inv, token, bps, total, j1)));
            assert forall|x: int| 0 <= x < a1.len() implies exists|j: int| 0 <= j < k && stage_raw(inv, bps, total, j) > 0
                && #[trigger] a1[x] == stage_payout(s, inv, token, bps, total, j) by {
                if x < a0.len() {
                    assert(a1[x] == a0[x]);
                } else {
                    assert(a1[x] == stage_payout(s, inv, token, bps, total, j1));
                }
            }
            assert forall|j: int| 0 <= j < k && #[trigger] stage_raw(inv, bps, total, j) > 0 implies exists|x: int| 0 <= x < a1.len()
                && a1[x] == stage_payout(s, inv, token, bps, total, j) by {
                if j < k - 1 {
                    let x = choose|x: int| 0 <= x < a0.len() && a0[x] == stage_payout(s, inv, token, bps, total, j);
                    assert(a1[x] == a0[x]);
                } else {
                    assert(a1[a0.len() as int] == stage_payout(s, inv, token, bps, total, j));
                }
            }
        } else {
            assert(a1 == a0);
        }
    }
}

/// A stage release pays out the invoice's next stage, as `law_stage_payouts`
/// describes the payouts of a stage, right after the creator's
/// authorization; the stage counter moves on by one, the released totals
/// grow by the stage's part of the funded amount, and the last stage marks
/// the invoice released.
pub proof fn law_stage_release(s: SplitView, id: u64, creator: Address, now: u64)
    requires
        stage_outcome(s, id, creator, now) is Ok,
    ensures
        ({
            let inv = s.inv(id);
            let k = inv.released_stages;
            let bps = inv.release_stages[k as int];
            let total = total_of(inv)->Ok_0;
            let token = inv.tokens[0];
            let n = inv.recipients.len();
            let (s2, acts) = stage_outcome(s, id, creator, now)->Ok_0;
            let pays = tranche_lines(s, inv, token, bps, total, n)->Ok_0.0;
            &&& s2.inv(id).released_stages == k + 1
            &&& s2.stats.total_volume == s.stats.total_volume + wrap_i128(sat_u128(as_u128(inv.funded) * bps) / 10_000)
            &&& s2.stats.total_released == s.stats.total_released + wrap_i128(sat_u128(as_u128(inv.funded) * bps) / 10_000)
            &&& 0 <= inv.funded && inv.funded * bps <= u128::MAX ==> s2.stats.total_released == s.stats.total_released + inv.funded * bps / 10_000
            &&& k + 1 >= inv.release_stages.len() ==> s2.inv(id).status == InvoiceStatus::Released && s2.inv(id).completion_time == Some(now)
            &&& k + 1 < inv.release_stages.len() ==> s2.inv(id).status == InvoiceStatus::Pending
            &&& acts[0] == Action::RequireAuth { who: creator }
            &&& acts.subrange(1, 1 + pays.len() as int) == pays
        }),
{
    let inv = s.inv(id);
    let k = inv.released_stages;
    let bps = inv.release_stages[k as int];
    let total = total_of(inv)->Ok_0;
    let token = inv.tokens[0];
    let n = inv.recipients.len();
    assert(stage_checks(s, id, creator) == Ok::<(InvoiceView, u32, i128, Address), SplitError>((inv, bps, total, token)));
    let tl = tranche_lines(s, inv, token, bps, total, n);
    assert(tl is Ok);
    let (pays, fee, tax) = tl->Ok_0;
    assert(stage_outcome(s, id, creator, now) == stage_apply(s, id, inv, creator, now, token, bps, pays, fee, tax));
    let acts = stage_outcome(s, id, creator, now)->Ok_0.1;
    assert(acts.subrange(1, 1 + pays.len() as int) =~= pays);
}


/// Once the last stage is out, no further stage release goes through.
pub proof fn law_no_stage_after_last(s: SplitView, id: u64, creator: Address, now: u64, later: u64)
    requires
        stage_outcome(s, id, creator, now) is Ok,
        s.inv(id).released_stages + 1 >= s.inv(id).release_stages.len(),
    ensures
        stage_outcome(stage_outcome(s, id, creator, now)->Ok_0.0, id, creator, later) is Err,
{
    law_stage_release(s, id, creator, now);
}


proof fn lemma_group_fold_keeps_payers(s0: SplitView, members: Seq<u64>, self_id: u64, actor: Address, now: u64, k: nat)
    requires
        group_fold(s0, members, self_id, actor, now, k) is Ok,
    ensures
        group_fold(s0, members, self_id, actor, now, k)->Ok_0.0.payer_states == s0.payer_states,
    decreases k,
{
    if k > 0 {
        lemma_group_fold_keeps_payers(s0, members, self_id, actor, now, (k - 1) as nat);
    }
}

proof fn lemma_release_keeps_payers(s: SplitView, id: u64, inv: InvoiceView, actor: Address, now: u64, gov: bool, depth: nat)
    requires
        release_full_spec(s, id, inv, actor, now, gov, depth) is Ok,
    ensures
        release_full_spec(s, id, inv, actor, now, gov, depth)->Ok_0.0.payer_states == s.payer_states,
    decreases depth,
{
    let p = release_prefix(s, id, inv, actor, now)->Ok_0;
    if s.invoice_groups.contains_key(id) {
        let ms = s.groups[s.invoice_groups[id]];
        lemma_group_fold_keeps_payers(s, ms, id, actor, now, ms.len());
    }
    assert(p.state.payer_states == s.payer_states);
    match forward_step(p.state, p.invoice, p.token, p.distributed) {
        Ok(ForwardStep::Release(tid, t2)) => {
            if depth > 0 {
                lemma_release_keeps_payers(p.state, tid, t2, p.state.contract_address, now, gov, (depth - 1) as nat);
            }
        },
        _ => {},
    }
}

/// A payment that goes through (where the invoice has no minimum payment)
/// carries the payer's stored nonce and leaves it one higher, also where
/// the payment completes the invoice and releases it; a replay of the same
/// nonce is then refused.
pub proof fn law_payment_nonce(s: SplitView, payer: Address, id: u64, amount: i128, nonce: u64, now: u64, oracle_price: i128, kyc_verified: bool, gov: bool, amount2: i128, now2: u64)
    requires
        pay_outcome(s, payer, id, amount, nonce, now, oracle_price, kyc_verified, gov) is Ok,
        s.inv(id).min_payment == 0,
    ensures
        nonce == s.payer(id, payer).nonce,
        pay_outcome(s, payer, id, amount, nonce, now, oracle_price, kyc_verified, gov)->Ok_0.0.payer(id, payer).nonce == nonce + 1,
        pay_outcome(s, payer, id, amount, nonce, now, oracle_price, kyc_verified, gov)->Ok_0.0.inv(id).min_payment == 0
            ==> pay_outcome(pay_outcome(s, payer, id, amount, nonce, now, oracle_price, kyc_verified, gov)->Ok_0.0, payer, id, amount2, nonce, now2, oracle_price, kyc_verified, gov) is Err,
{
    let (inv, total, remaining) = pay_checks(s, payer, id, amount, now, oracle_price, kyc_verified)->Ok_0;
    let s0 = if auto_resumes(s.inv(id), now) {
        SplitView { invoices: s.invoices.insert(id, EntryView { invoice: inv, archived: false }), ..s }
    } else {
        s
    };
    assert(s0.payer(id, payer) == s.payer(id, payer));
    let p = credit_plan(s0, payer, id, amount, nonce, now, inv, remaining)->Ok_0;
    law_payment_advances_nonce(s0, payer, id, amount, nonce, now, inv, remaining);
    let s1 = credit_state(s0, payer, id, now, inv, p);
    assert(s1.payer(id, payer) == p.payer_state);
    if p.invoice.funded >= total && !pay_guarded(s0, id, p.invoice) {
        lemma_release_keeps_payers(s1, id, p.invoice, payer, now, gov, s1.invoices.len());
    }
    let s2 = pay_outcome(s, payer, id, amount, nonce, now, oracle_price, kyc_verified, gov)->Ok_0.0;
    assert(s2.payer(id, payer).nonce == nonce + 1);
    if pay_outcome(s2, payer, id, amount2, nonce, now2, oracle_price, kyc_verified, gov) is Ok && s2.inv(id).min_payment == 0 {
        law_payment_nonce_carried(s2, payer, id, amount2, nonce, now2, oracle_price, kyc_verified, gov);
    }
}

/// A payment that goes through without a minimum payment carries the
/// payer's stored nonce.
pub proof fn law_payment_nonce_carried(s: SplitView, payer: Address, id: u64, amount: i128, nonce: u64, now: u64, oracle_price: i128, kyc_verified: bool, gov: bool)
    requires
        pay_outcome(s, payer, id, amount, nonce, now, oracle_price, kyc_verified, gov) is Ok,
        s.inv(id).min_payment == 0,
    ensures
        nonce == s.payer(id, payer).nonce,
{
    let (inv, total, remaining) = pay_checks(s, payer, id, amount, now, oracle_price, kyc_verified)->Ok_0;
    let s0 = if auto_resumes(s.inv(id), now) {
        SplitView { invoices: s.invoices.insert(id, EntryView { invoice: inv, archived: false }), ..s }
    } else {
        s
    };
    assert(s0.payer(id, payer) == s.payer(id, payer));
    law_payment_advances_nonce(s0, payer, id, amount, nonce, now, inv, remaining);
}


proof fn lemma_prefix_keeps(s: SplitView, id: u64, inv: InvoiceView, actor: Address, now: u64)
    requires
        release_prefix(s, id, inv, actor, now) is Ok,
        !s.invoice_groups.contains_key(id),
    ensures
        release_prefix(s, id, inv, actor, now)->Ok_0.state == s,
        release_prefix(s, id, inv, actor, now)->Ok_0.invoice == (if inv.insurance_fund > 0 { InvoiceView { insurance_fund: 0, ..inv } } else { inv }),
{
}

proof fn lemma_finished_frame(s: SplitView, id: u64, inv: InvoiceView, actor: Address, now: u64, gov: bool, acts: Seq<Action>, who: Address)
    requires
        finished_release(s, id, inv, actor, now, gov, acts) is Ok,
        id <= s.invoice_counter,
    ensures
        finished_release(s, id, inv, actor, now, gov, acts)->Ok_0.0.inv(id).funded == inv.funded,
        finished_release(s, id, inv, actor, now, gov, acts)->Ok_0.0.inv(id).payments == inv.payments,
        finished_release(s, id, inv, actor, now, gov, acts)->Ok_0.0.account(who).reputation == s.account(who).reputation,
        finished_release(s, id, inv, actor, now, gov, acts)->Ok_0.0.account(who).credit_score == s.account(who).credit_score,
{
}

proof fn lemma_release_keeps_scores(s: SplitView, id: u64, inv: InvoiceView, actor: Address, now: u64, gov: bool, depth: nat, who: Address)
    requires
        release_full_spec(s, id, inv, actor, now, gov, depth) is Ok,
        !s.invoice_groups.contains_key(id),
    ensures
        release_full_spec(s, id, inv, actor, now, gov, depth)->Ok_0.0.account(who).reputation == s.account(who).reputation,
        release_full_spec(s, id, inv, actor, now, gov, depth)->Ok_0.0.account(who).credit_score == s.account(who).credit_score,
        release_full_spec(s, id, inv, actor, now, gov, depth)->Ok_0.0.invoice_counter >= s.invoice_counter,
    decreases depth,
{
    lemma_prefix_keeps(s, id, inv, actor, now);
    let pre = release_prefix(s, id, inv, actor, now)->Ok_0;
    let fw = forward_spec(pre.state, pre.invoice, pre.token, pre.distributed, now, gov, depth)->Ok_0;
    match forward_step(pre.state, pre.invoice, pre.token, pre.distributed) {
        Ok(ForwardStep::Release(tid, t2)) => {
            if depth > 0 {
                lemma_release_keeps_scores(pre.state, tid, t2, pre.state.contract_address, now, gov, (depth - 1) as nat, who);
            }
        },
        _ => {},
    }
    assert(fw.0.account(who).reputation == s.account(who).reputation);
    assert(fw.0.account(who).credit_score == s.account(who).credit_score);
    assert(fw.0.invoice_counter >= s.invoice_counter);
}

proof fn lemma_auto_release_frame(s: SplitView, id: u64, inv: InvoiceView, actor: Address, now: u64, gov: bool, depth: nat, who: Address)
    requires
        release_full_spec(s, id, inv, actor, now, gov, depth) is Ok,
        !s.invoice_groups.contains_key(id),
        id <= s.invoice_counter,
    ensures
        release_full_spec(s, id, inv, actor, now, gov, depth)->Ok_0.0.inv(id).funded == inv.funded,
        release_full_spec(s, id, inv, actor, now, gov, depth)->Ok_0.0.inv(id).payments == inv.payments,
        release_full_spec(s, id, inv, actor, now, gov, depth)->Ok_0.0.account(who).reputation == s.account(who).reputation,
        release_full_spec(s, id, inv, actor, now, gov, depth)->Ok_0.0.account(who).credit_score == s.account(who).credit_score,
{
    lemma_prefix_keeps(s, id, inv, actor, now);
    let pre = release_prefix(s, id, inv, actor, now)->Ok_0;
    let (s5, a5) = forward_spec(pre.state, pre.invoice, pre.token, pre.distributed, now, gov, depth)->Ok_0;
    match forward_step(pre.state, pre.invoice, pre.token, pre.distributed) {
        Ok(ForwardStep::Release(tid, t2)) => {
            if depth > 0 {
                lemma_release_keeps_scores(pre.state, tid, t2, pre.state.contract_address, now, gov, (depth - 1) as nat, who);
            }
        },
        _ => {},
    }
    assert(s5.invoice_counter >= s.invoice_counter);
    assert(s5.account(who).reputation == s.account(who).reputation);
    assert(s5.account(who).credit_score == s.account(who).credit_score);
    assert(release_full_spec(s, id, inv, actor, now, gov, depth) == finished_release(s5, id, pre.invoice, actor, now, gov, pre.actions + a5));
    lemma_finished_frame(s5, id, pre.invoice, actor, now, gov, pre.actions + a5, who);
}

/// A payment that goes through (where the invoice has no minimum payment
/// and has an issued id) leaves the
/// invoice funded by the credited amount, the smaller of the amount paid
/// and the remaining balance, never above its total, with the payment
/// recorded; the payer's reputation and credit score grow by one, also
/// where the payment completes the invoice and releases it. After the
/// payer's authorization come the transfers of the charge: the whole
/// amount in, and the excess back to the payer or on to the treasury as
/// `law_payment_never_overfunds` describes.
#[verifier::rlimit(50)]
pub proof fn law_pay_credits(s: SplitView, payer: Address, id: u64, amount: i128, nonce: u64, now: u64, oracle_price: i128, kyc_verified: bool, gov: bool)
    requires
        pay_outcome(s, payer, id, amount, nonce, now, oracle_price, kyc_verified, gov) is Ok,
        s.inv(id).min_payment == 0,
        id <= s.invoice_counter,
    ensures
        ({
            let (inv, total, remaining) = pay_checks(s, payer, id, amount, now, oracle_price, kyc_verified)->Ok_0;
            let credited = if amount <= remaining { amount } else { remaining };
            let (s2, acts) = pay_outcome(s, payer, id, amount, nonce, now, oracle_price, kyc_verified, gov)->Ok_0;
            let ch = charge(s, inv, payer, amount, remaining, inv.tokens[0])->Ok_0.2;
            &&& s2.inv(id).funded == inv.funded + credited
            &&& s2.inv(id).funded <= total
            &&& s2.inv(id).payments == inv.payments.push(Payment { payer, amount: credited, tip: 0 })
            &&& s2.account(payer).reputation == s.account(payer).reputation + 1
            &&& s2.account(payer).credit_score == s.account(payer).credit_score + 1
            &&& acts[0] == Action::RequireAuth { who: payer }
            &&& acts.subrange(1, 1 + ch.len() as int) == ch
        }),
{
    let (inv, total, remaining) = pay_checks(s, payer, id, amount, now, oracle_price, kyc_verified)->Ok_0;
    let s0 = if auto_resumes(s.inv(id), now) {
        SplitView { invoices: s.invoices.insert(id, EntryView { invoice: inv, archived: false }), ..s }
    } else {
        s
    };
    assert(s0.account(payer) == s.account(payer));
    let p = credit_plan(s0, payer, id, amount, nonce, now, inv, remaining)->Ok_0;
    law_payment_never_overfunds(s0, payer, id, amount, nonce, now, inv, total, remaining);
    assert(charge(s0, inv, payer, amount, remaining, inv.tokens[0]) == charge(s, inv, payer, amount, remaining, inv.tokens[0]));
    let s1 = credit_state(s0, payer, id, now, inv, p);
    assert(s1.account(payer) == p.account);
    let (s2, acts) = pay_outcome(s, payer, id, amount, nonce, now, oracle_price, kyc_verified, gov)->Ok_0;
    if p.invoice.funded >= total && !pay_guarded(s0, id, p.invoice) {
        lemma_auto_release_frame(s1, id, p.invoice, payer, now, gov, s1.invoices.len(), payer);
    }
    assert(acts.subrange(0, p.actions.len() as int) =~= p.actions);
    assert(acts.subrange(1, 1 + charge(s, inv, payer, amount, remaining, inv.tokens[0])->Ok_0.2.len() as int)
        =~= p.actions.subrange(1, 1 + charge(s, inv, payer, amount, remaining, inv.tokens[0])->Ok_0.2.len() as int));
}


proof fn lemma_direct_payouts(s: SplitView, inv: InvoiceView, lines: Seq<ShareLine>, token: Address, total_tax: i128, k: nat)
    requires
        recipient_actions(s, inv, lines, token, total_tax, k) is Ok,
        inv.swap_tokens.len() == 0,
        !inv.convert_to_stream,
        inv.tax_authority is None,
    ensures
        recipient_actions(s, inv, lines, token, total_tax, k)->Ok_0.len() == k,
        forall|i: int| 0 <= i < k ==> #[trigger] recipient_actions(s, inv, lines, token, total_tax, k)->Ok_0[i] == (Action::Transfer {
            token,
            from: s.contract_address,
            to: inv.recipients[i],
            amount: (lines[i].proportional - lines[i].tax - lines[i].fee) as i128,
        }),
    decreases k,
{
    if k > 0 {
        lemma_direct_payouts(s, inv, lines, token, total_tax, (k - 1) as nat);
        let a0 = recipient_actions(s, inv, lines, token, total_tax, (k - 1) as nat)->Ok_0;
        let a1 = recipient_actions(s, inv, lines, token, total_tax, k)->Ok_0;
        assert forall|i: int| 0 <= i < k - 1 implies a1[i] == a0[i] by {}
    }
}


/// The shape of a full release without group, bonus pool or insurance: the
/// state before forwarding is the given one, the actions are the
/// distribution's.
proof fn lemma_plain_prefix(s: SplitView, id: u64, inv: InvoiceView, actor: Address, now: u64)
    requires
        release_prefix(s, id, inv, actor, now) is Ok,
        inv.bonus_pool == 0,
        inv.insurance_fund == 0,
        !s.invoice_groups.contains_key(id),
    ensures
        ({
            let pre = release_prefix(s, id, inv, actor, now)->Ok_0;
            let total = total_of(inv)->Ok_0;
            let (lines, t) = share_lines(inv, s.platform_fee_bps, inv.funded, total, inv.recipients.len())->Ok_0;
            &&& pre.state == s
            &&& pre.invoice == inv
            &&& pre.token == inv.tokens[0]
            &&& pre.distributed == t.distributed
            &&& pre.actions == distribution_actions(s, id, inv, lines, t, inv.tokens[0])->Ok_0
        }),
{
    let pre = release_prefix(s, id, inv, actor, now)->Ok_0;
    let total = total_of(inv)->Ok_0;
    let (lines, t) = share_lines(inv, s.platform_fee_bps, inv.funded, total, inv.recipients.len())->Ok_0;
    assert(pre.actions =~= distribution_actions(s, id, inv, lines, t, inv.tokens[0])->Ok_0);
}

/// The payouts of a full release paid out directly (no group, no treasury
/// route, no swap or stream, no tax authority, no bonus pool or insurance):
/// each recipient in order gets its gross
/// share less tax and platform fee, then the platform fees, their sum, go
/// in one transfer to the treasury, then what the split rules left over
/// goes to the forwarding address. Without split rules the gross shares add
/// up to the funded amount.
pub proof fn law_full_release_payouts(s: SplitView, id: u64, inv: InvoiceView, actor: Address, now: u64, gov: bool, depth: nat)
    requires
        release_full_spec(s, id, inv, actor, now, gov, depth) is Ok,
        inv.swap_tokens.len() == 0,
        !inv.convert_to_stream,
        inv.tax_authority is None,
        inv.bonus_pool == 0,
        inv.insurance_fund == 0,
        !s.invoice_groups.contains_key(id),
        treasury_route(s, id) is None,
    ensures
        ({
            let n = inv.recipients.len();
            let total = total_of(inv)->Ok_0;
            let token = inv.tokens[0];
            let me = s.contract_address;
            let (lines, t) = share_lines(inv, s.platform_fee_bps, inv.funded, total, n)->Ok_0;
            let fees = if t.total_fee > 0 { 1int } else { 0int };
            let left = leftover_of(inv.funded, t.distributed);
            let acts = release_full_spec(s, id, inv, actor, now, gov, depth)->Ok_0.1;
            &&& forall|i: int| 0 <= i < n ==> #[trigger] acts[i] == (Action::Transfer {
                token,
                from: me,
                to: inv.recipients[i],
                amount: (lines[i].proportional - lines[i].tax - lines[i].fee) as i128,
            })
            &&& t.total_fee > 0 ==> acts[n as int] == (Action::Transfer { token, from: me, to: s.treasury->0, amount: t.total_fee })
            &&& t.total_fee == fee_sum(lines, n)
            &&& gross_sum(lines, n) == t.distributed
            &&& inv.split_rules.len() == 0 && n > 0 ==> t.distributed == inv.funded
            &&& left > 0 && inv.forward_to is Some ==> acts[n + fees] == (Action::Transfer { token, from: me, to: inv.forward_to->0, amount: left as i128 })
        }),
{
    let n = inv.recipients.len();
    let total = total_of(inv)->Ok_0;
    let token = inv.tokens[0];
    lemma_share_lines_facts(inv, s.platform_fee_bps, inv.funded, total, n);
    let (lines, t) = share_lines(inv, s.platform_fee_bps, inv.funded, total, n)->Ok_0;
    if inv.split_rules.len() == 0 && n > 0 {
        law_release_distributes_funded(inv, s.platform_fee_bps, inv.funded, total);
    }
    lemma_plain_prefix(s, id, inv, actor, now);
    lemma_direct_payouts(s, inv, lines, token, t.total_tax, n);
    let a1 = distribution_actions(s, id, inv, lines, t, token)->Ok_0;
    let pre = release_prefix(s, id, inv, actor, now)->Ok_0;
    lemma_release_unfold(s, id, inv, actor, now, gov, depth);
    let (s5, a5) = forward_spec(pre.state, pre.invoice, pre.token, pre.distributed, now, gov, depth)->Ok_0;
    lemma_finished_prefix(s5, id, inv, actor, now, gov, pre.actions + a5);
    let acts = release_full_spec(s, id, inv, actor, now, gov, depth)->Ok_0.1;
    let both = a1 + a5;
    assert(acts.subrange(0, both.len() as int) == both);
    assert forall|i: int| 0 <= i < a1.len() implies acts[i] == a1[i] by {
        assert(acts.subrange(0, both.len() as int)[i] == acts[i]);
        assert(both[i] == a1[i]);
    }
    let fees = if t.total_fee > 0 { 1int } else { 0int };
    if leftover_of(inv.funded, t.distributed) > 0 && inv.forward_to is Some {
        lemma_forward_done(pre.state, pre.invoice, pre.token, pre.distributed, now, gov, depth);
        assert(a1.len() == n + fees);
        assert(acts.subrange(0, both.len() as int)[n + fees] == acts[n + fees]);
        assert(both[n + fees] == a5[0]);
    }
}

/// A successful full release is its prefix, the forwarding of its leftover
/// and its last steps, in that order.
proof fn lemma_release_unfold(s: SplitView, id: u64, inv: InvoiceView, actor: Address, now: u64, gov: bool, depth: nat)
    requires
        release_full_spec(s, id, inv, actor, now, gov, depth) is Ok,
    ensures
        release_prefix(s, id, inv, actor, now) is Ok,
        ({
            let pre = release_prefix(s, id, inv, actor, now)->Ok_0;
            let fw = forward_spec(pre.state, pre.invoice, pre.token, pre.distributed, now, gov, depth);
            &&& fw is Ok
            &&& release_full_spec(s, id, inv, actor, now, gov, depth)
                == finished_release(fw->Ok_0.0, id, pre.invoice, actor, now, gov, pre.actions + fw->Ok_0.1)
        }),
{
}

proof fn lemma_finished_prefix(s: SplitView, id: u64, inv: InvoiceView, actor: Address, now: u64, gov: bool, acts: Seq<Action>)
    requires
        finished_release(s, id, inv, actor, now, gov, acts) is Ok,
    ensures
        finished_release(s, id, inv, actor, now, gov, acts)->Ok_0.1.subrange(0, acts.len() as int) == acts,
{
    let r = finished_release(s, id, inv, actor, now, gov, acts)->Ok_0.1;
    assert(r.subrange(0, acts.len() as int) =~= acts);
}

/// A full release without group, bonus pool, insurance or subscription,
/// that forwards no leftover to another invoice (as a release without split
/// rules, which pays out the whole funded amount), marks the invoice
/// released at `now`; the
/// contract's released and volume totals and the creator's released volume
/// grow by the funded amount, the creator's release count by one.
pub proof fn law_full_release_counts(s: SplitView, id: u64, inv: InvoiceView, actor: Address, now: u64, gov: bool, depth: nat)
    requires
        release_full_spec(s, id, inv, actor, now, gov, depth) is Ok,
        inv.bonus_pool == 0,
        inv.insurance_fund == 0,
        inv.forward_invoice_id is None || (inv.split_rules.len() == 0 && inv.recipients.len() > 0),
        !s.invoice_groups.contains_key(id),
        !s.subscriptions.contains_key(id),
    ensures
        ({
            let s2 = release_full_spec(s, id, inv, actor, now, gov, depth)->Ok_0.0;
            let c = s.account(inv.creator);
            &&& s2.inv(id) == (InvoiceView { status: InvoiceStatus::Released, completion_time: Some(now), ..inv })
            &&& s2.stats.total_volume == s.stats.total_volume + inv.funded
            &&& s2.stats.total_released == s.stats.total_released + inv.funded
            &&& s2.account(inv.creator).creator_volume == c.creator_volume + inv.funded
            &&& s2.account(inv.creator).creator_released == c.creator_released + 1
        }),
{
    lemma_plain_prefix(s, id, inv, actor, now);
    lemma_release_unfold(s, id, inv, actor, now, gov, depth);
    let pre = release_prefix(s, id, inv, actor, now)->Ok_0;
    assert(inv.forward_invoice_id is None || leftover_of(inv.funded, pre.distributed) <= 0) by {
        if inv.split_rules.len() == 0 && inv.recipients.len() > 0 {
            let (lines, t) = share_lines(inv, s.platform_fee_bps, inv.funded, total_of(inv)->Ok_0, inv.recipients.len())->Ok_0;
            law_release_distributes_funded(inv, s.platform_fee_bps, inv.funded, total_of(inv)->Ok_0);
            assert(pre.distributed == t.distributed);
        }
    }
    lemma_forward_done(pre.state, pre.invoice, pre.token, pre.distributed, now, gov, depth);
    let a5 = forward_spec(pre.state, pre.invoice, pre.token, pre.distributed, now, gov, depth)->Ok_0.1;
    lemma_finished_counts(s, id, inv, actor, now, gov, pre.actions + a5);
}

proof fn lemma_forward_done(s: SplitView, inv: InvoiceView, token: Address, distributed: i128, now: u64, gov: bool, depth: nat)
    requires
        forward_spec(s, inv, token, distributed, now, gov, depth) is Ok,
        inv.forward_invoice_id is None || inv.forward_to is Some || leftover_of(inv.funded, distributed) <= 0,
    ensures
        forward_spec(s, inv, token, distributed, now, gov, depth)->Ok_0.0 == s,
        forward_spec(s, inv, token, distributed, now, gov, depth)->Ok_0.1 == (if leftover_of(inv.funded, distributed) > 0 && inv.forward_to is Some {
            seq![Action::Transfer { token, from: s.contract_address, to: inv.forward_to->0, amount: leftover_of(inv.funded, distributed) as i128 }]
        } else {
            Seq::empty()
        }),
{
}

proof fn lemma_finished_counts(s: SplitView, id: u64, inv: InvoiceView, actor: Address, now: u64, gov: bool, acts: Seq<Action>)
    requires
        finished_release(s, id, inv, actor, now, gov, acts) is Ok,
        !s.subscriptions.contains_key(id),
    ensures
        ({
            let s2 = finished_release(s, id, inv, actor, now, gov, acts)->Ok_0.0;
            let c = s.account(inv.creator);
            &&& s2.inv(id) == (InvoiceView { status: InvoiceStatus::Released, completion_time: Some(now), ..inv })
            &&& s2.stats.total_volume == s.stats.total_volume + inv.funded
            &&& s2.stats.total_released == s.stats.total_released + inv.funded
            &&& s2.account(inv.creator).creator_volume == c.creator_volume + inv.funded
            &&& s2.account(inv.creator).creator_released == c.creator_released + 1
            &&& finished_release(s, id, inv, actor, now, gov, acts)->Ok_0.1.subrange(0, acts.len() as int) == acts
        }),
{
    let r = finished_release(s, id, inv, actor, now, gov, acts)->Ok_0.1;
    assert(r.subrange(0, acts.len() as int) =~= acts);
}


/// A full release with split rules, paid out directly, sends recipient `i`
/// what its rule gives, less tax and platform fee: a fixed amount, a rate
/// of the funded amount, or that rate only above a threshold and nothing
/// otherwise. What the rules leave over goes to the forwarding address.
pub proof fn law_split_rule_payouts(s: SplitView, id: u64, inv: InvoiceView, actor: Address, now: u64, gov: bool, depth: nat)
    requires
        release_full_spec(s, id, inv, actor, now, gov, depth) is Ok,
        inv.split_rules.len() > 0,
        inv.swap_tokens.len() == 0,
        !inv.convert_to_stream,
        inv.tax_authority is None,
        inv.bonus_pool == 0,
        inv.insurance_fund == 0,
        !s.invoice_groups.contains_key(id),
        treasury_route(s, id) is None,
    ensures
        ({
            let n = inv.recipients.len();
            let total = total_of(inv)->Ok_0;
            let token = inv.tokens[0];
            let me = s.contract_address;
            let f = inv.funded;
            let (lines, t) = share_lines(inv, s.platform_fee_bps, f, total, n)->Ok_0;
            let acts = release_full_spec(s, id, inv, actor, now, gov, depth)->Ok_0.1;
            let left = leftover_of(f, t.distributed);
            let fees = if t.total_fee > 0 { 1int } else { 0int };
            &&& forall|i: int| 0 <= i < n ==> {
                &&& #[trigger] acts[i] == (Action::Transfer {
                    token,
                    from: me,
                    to: inv.recipients[i],
                    amount: (lines[i].proportional - lines[i].tax - lines[i].fee) as i128,
                })
                &&& match inv.split_rules[i] {
                    SplitRule::Fixed(a) => lines[i].proportional == a,
                    SplitRule::Percentage(b) => Some(lines[i].proportional) == mul_div_spec(f, b as i128, 10_000),
                    SplitRule::Tiered(threshold, b) => if f > threshold {
                        Some(lines[i].proportional) == mul_div_spec(f, b as i128, 10_000)
                    } else {
                        lines[i].proportional == 0
                    },
                }
            }
            &&& left > 0 && inv.forward_to is Some ==> acts[n + fees] == (Action::Transfer { token, from: me, to: inv.forward_to->0, amount: left as i128 })
        }),
{
    let total = total_of(inv)->Ok_0;
    lemma_plain_prefix(s, id, inv, actor, now);
    law_full_release_payouts(s, id, inv, actor, now, gov, depth);
    law_split_rule_release(s, inv, s.platform_fee_bps, inv.funded, total, inv.tokens[0]);
}


proof fn lemma_finished_keeps_other(s: SplitView, id: u64, inv: InvoiceView, actor: Address, now: u64, gov: bool, acts: Seq<Action>, x: u64)
    requires
        finished_release(s, id, inv, actor, now, gov, acts) is Ok,
        x != id,
        x <= s.invoice_counter,
    ensures
        finished_release(s, id, inv, actor, now, gov, acts)->Ok_0.0.inv(x) == s.inv(x),
{
}

/// Where a full release (of an invoice in no group) has a leftover and no
/// forwarding address but another issued invoice to forward to, that
/// invoice ends up credited with the leftover: its funded amount grows by
/// it and a payment of it by the contract is recorded, also where the
/// credit completes it and releases it in turn.
pub proof fn law_leftover_credits_forward_invoice(s: SplitView, id: u64, inv: InvoiceView, actor: Address, now: u64, gov: bool, depth: nat)
    requires
        release_full_spec(s, id, inv, actor, now, gov, depth) is Ok,
        !s.invoice_groups.contains_key(id),
        inv.forward_to is None,
        inv.forward_invoice_id is Some,
        inv.forward_invoice_id->0 != id,
        inv.forward_invoice_id->0 <= s.invoice_counter,
    ensures
        ({
            let tid = inv.forward_invoice_id->0;
            let (lines, t) = share_lines(inv, s.platform_fee_bps, inv.funded, total_of(inv)->Ok_0, inv.recipients.len())->Ok_0;
            let left = leftover_of(inv.funded, t.distributed);
            let s2 = release_full_spec(s, id, inv, actor, now, gov, depth)->Ok_0.0;
            left > 0 ==> {
                &&& s2.inv(tid).funded == s.inv(tid).funded + left
                &&& s2.inv(tid).payments == s.inv(tid).payments.push(Payment { payer: s.contract_address, amount: left as i128, tip: 0 })
            }
        }),
{
    let tid = inv.forward_invoice_id->0;
    lemma_prefix_keeps(s, id, inv, actor, now);
    lemma_release_unfold(s, id, inv, actor, now, gov, depth);
    let pre = release_prefix(s, id, inv, actor, now)->Ok_0;
    let (s5, a5) = forward_spec(pre.state, pre.invoice, pre.token, pre.distributed, now, gov, depth)->Ok_0;
    match forward_step(pre.state, pre.invoice, pre.token, pre.distributed) {
        Ok(ForwardStep::Store(t, t2)) => {
            assert(t == tid);
            assert(s5.inv(tid) == t2);
            lemma_finished_keeps_other(s5, id, pre.invoice, actor, now, gov, pre.actions + a5, tid);
        },
        Ok(ForwardStep::Release(t, t2)) => {
            assert(t == tid);
            let me = s.contract_address;
            lemma_auto_release_frame(s, tid, t2, me, now, gov, (depth - 1) as nat, me);
            lemma_release_keeps_scores(s, tid, t2, me, now, gov, (depth - 1) as nat, me);
            lemma_finished_keeps_other(s5, id, pre.invoice, actor, now, gov, pre.actions + a5, tid);
        },
        _ => {},
    }
}

/// Every stored invoice has an id the counter has issued: between 1 and
/// the invoice counter.
pub open spec fn ids_issued(s: SplitView) -> bool {
    forall|id: u64| #[trigger] s.invoices.contains_key(id) ==> 1 <= id <= s.invoice_counter
}

/// A fresh contract has issued no ids; creating and cloning invoices keep
/// every stored id issued; so a clone takes a new id and leaves its source
/// as it was.
pub proof fn law_ids_issued(
    addr: Address,
    s: SplitView,
    now: u64,
    creator: Address,
    rs: Seq<Address>,
    am: Seq<i128>,
    token: Address,
    deadline: u64,
    t: TermsView,
    nft_balance: i128,
    gov: bool,
    source_id: u64,
    ov: OverridesView,
)
    requires
        ids_issued(s),
    ensures
        ids_issued(fresh_view(addr)),
        create_invoice_outcome(s, now, creator, rs, am, token, deadline, t, nft_balance, gov) is Ok
            ==> ids_issued(create_invoice_outcome(s, now, creator, rs, am, token, deadline, t, nft_balance, gov)->Ok_0.1),
        clone_outcome(s, creator, source_id, ov) is Ok ==> {
            let (id, s2, _acts) = clone_outcome(s, creator, source_id, ov)->Ok_0;
            &&& ids_issued(s2)
            &&& id != source_id
            &&& s2.inv(source_id) == s.inv(source_id)
            &&& !s.invoices.contains_key(id)
        },
{
    if create_invoice_outcome(s, now, creator, rs, am, token, deadline, t, nft_balance, gov) is Ok {
        let s1 = rate_limited(s, creator, now)->Ok_0;
        assert(s1.invoices == s.invoices && s1.invoice_counter == s.invoice_counter);
    }
}

} // verus!
