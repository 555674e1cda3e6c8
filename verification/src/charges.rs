//! What the contract charges and pays out, stated directly over the inputs
//! of each operation: creation fee, late-payment penalty, unlocked
//! tranches, partial releases and claims.

use vstd::prelude::*;
use crate::types::{Address, InvoiceStatus, Tranche};
use crate::invoice::InvoiceView;
use crate::state::SplitView;
use crate::effects::{Action, Event};
use crate::create::{create_invoice_outcome, rate_limited};
use crate::terms::TermsView;
use crate::payouts::{partial_outcome, partial_payouts, claim_outcome, position_from, share_prefix, proportional_payouts};
use crate::math::{sum_i128, mul_div_spec, bps_of_spec};
use crate::tranches::{unlocked_bps, tranche_release, tranche_raw, tranche_lines, sat_u128};
use crate::release::{release_outcome, release_checks};
use crate::pay::{pay_outcome, pay_checks, pay_credit, credit_plan, charge, auto_resumes, penalty_actions};
use crate::release::total_of;
use crate::state::EntryView;

verus! {

/// A successful invoice creation charges the creation fee, when there is
/// one, as the first action after the creator's authorization: a transfer
/// of exactly the fee, in the USDC token, from the creator to the treasury.
/// Every other transfer it asks for is a deposit into the contract, so no
/// second fee is taken and none is taken when the fee is zero.
pub proof fn law_creation_fee_charged_once(
    s: SplitView,
    now: u64,
    creator: Address,
    rs: Seq<Address>,
    am: Seq<i128>,
    token: Address,
    deadline: u64,
    t: TermsView,
    nft_balance: i128,
    gov: bool,
)
    requires
        create_invoice_outcome(s, now, creator, rs, am, token, deadline, t, nft_balance, gov) is Ok,
    ensures
        ({
            let acts = create_invoice_outcome(s, now, creator, rs, am, token, deadline, t, nft_balance, gov)->Ok_0.2;
            &&& acts[0] == Action::RequireAuth { who: creator }
            &&& s.creation_fee > 0 ==> s.usdc_token is Some && s.treasury is Some && acts.len() > 1
                && acts[1] == (Action::Transfer { token: s.usdc_token->0, from: creator, to: s.treasury->0, amount: s.creation_fee })
            &&& forall|i: int| 0 <= i < acts.len() && (i != 1 || s.creation_fee <= 0) && #[trigger] acts[i] is Transfer
                ==> acts[i]->Transfer_to == s.contract_address
        }),
{
    let s1 = rate_limited(s, creator, now)->Ok_0;
    assert(s1.creation_fee == s.creation_fee && s1.usdc_token == s.usdc_token && s1.treasury == s.treasury
        && s1.contract_address == s.contract_address);
    let acts = create_invoice_outcome(s, now, creator, rs, am, token, deadline, t, nft_balance, gov)->Ok_0.2;
    assert forall|i: int| 0 <= i < acts.len() && (i != 1 || s.creation_fee <= 0) && #[trigger] acts[i] is Transfer
        implies acts[i]->Transfer_to == s.contract_address by {
    }
}

/// A successful partial release of `amount` lowers the invoice's funded
/// balance by exactly `amount` and changes nothing else on it: it stays
/// pending, so the released part cannot be paid out again.
pub proof fn law_partial_release_lowers_funded(s: SplitView, id: u64, creator: Address, amount: i128, now: u64)
    requires
        partial_outcome(s, id, creator, amount, now) is Ok,
    ensures
        ({
            let s2 = partial_outcome(s, id, creator, amount, now)->Ok_0.0;
            &&& s2.inv(id).funded == s.inv(id).funded - amount
            &&& 0 < amount <= s.inv(id).funded
            &&& s2.inv(id).status == InvoiceStatus::Pending
            &&& s2.inv(id) == (InvoiceView { funded: s2.inv(id).funded, ..s.inv(id) })
        }),
{
}

/// A partial release of `amount` without priorities pays out exactly
/// `amount`, from the contract to recipients of the invoice, in proportion
/// to what they are owed. (Stated for invoices with recipients and amounts
/// that are not negative.)
pub proof fn law_partial_release_pays_amount(s: SplitView, id: u64, creator: Address, amount: i128, now: u64)
    requires
        partial_outcome(s, id, creator, amount, now) is Ok,
        s.inv(id).priorities.len() == 0,
        s.inv(id).recipients.len() > 0,
        forall|i: int| 0 <= i < s.inv(id).amounts.len() ==> s.inv(id).amounts[i] >= 0,
    ensures
        ({
            let inv = s.inv(id);
            let acts = partial_outcome(s, id, creator, amount, now)->Ok_0.1;
            &&& acts[0] == Action::RequireAuth { who: creator }
            &&& all_paid_to(acts.subrange(1, acts.len() - 1), inv.tokens[0], s.contract_address, inv.recipients)
            &&& acts.subrange(1, acts.len() - 1) == split_transfers(inv.recipients, inv.amounts, amount as int,
                sum_i128(inv.amounts), inv.tokens[0], s.contract_address, inv.recipients.len())
            &&& transfers_total(acts.subrange(1, acts.len() - 1)) == amount
        }),
{
    let inv = s.inv(id);
    let acts = partial_outcome(s, id, creator, amount, now)->Ok_0.1;
    let t = total_of(inv)->Ok_0;
    assert(inv.amounts.take(inv.amounts.len() as int) =~= inv.amounts);
    lemma_proportional_total(inv, inv.tokens[0], s.contract_address, amount, t, inv.recipients.len());
    let pays = partial_payouts(inv, inv.tokens[0], s.contract_address, amount)->Ok_0;
    assert(acts.subrange(1, acts.len() - 1) =~= pays);
}

/// Basis points of the tranches among the first `k` of `ts` whose time has
/// come at `now`: a tranche counts with its basis points where its timestamp
/// is at most `now`, with nothing otherwise.
pub open spec fn due_bps(ts: Seq<Tranche>, now: u64, k: nat) -> int
    decreases k,
{
    if k == 0 {
        0
    } else {
        due_bps(ts, now, (k - 1) as nat) + (if ts[k - 1].timestamp <= now { ts[k - 1].basis_points as int } else { 0 })
    }
}

proof fn lemma_due_bps_prefix(ts: Seq<Tranche>, t: Tranche, now: u64, k: nat)
    requires
        k <= ts.len(),
    ensures
        due_bps(ts.push(t), now, k) == due_bps(ts, now, k),
        unlocked_bps(ts.push(t), now, k) == unlocked_bps(ts, now, k),
    decreases k,
{
    if k > 0 {
        lemma_due_bps_prefix(ts, t, now, (k - 1) as nat);
        assert(ts.push(t)[k - 1] == ts[k - 1]);
    }
}

proof fn lemma_due_bps_monotone(ts: Seq<Tranche>, now: u64, k: nat, n: nat)
    requires
        k <= n,
    ensures
        due_bps(ts, now, k) <= due_bps(ts, now, n),
    decreases n - k,
{
    if k < n {
        lemma_due_bps_monotone(ts, now, k, (n - 1) as nat);
    }
}

proof fn lemma_unlocked_is_due(ts: Seq<Tranche>, now: u64, k: nat)
    ensures
        unlocked_bps(ts, now, k) is Some <==> due_bps(ts, now, k) <= u32::MAX,
        unlocked_bps(ts, now, k) matches Some(u) ==> u == due_bps(ts, now, k),
    decreases k,
{
    if k > 0 {
        lemma_unlocked_is_due(ts, now, (k - 1) as nat);
        lemma_due_bps_monotone(ts, now, (k - 1) as nat, k);
    }
}

/// The basis points unlocked at `now` are the sum of the basis points of the
/// tranches whose timestamp is at most `now` (there is no result where that
/// sum does not fit a u32); a tranche due later adds nothing.
pub proof fn law_unlocked_tranches(ts: Seq<Tranche>, now: u64, t: Tranche)
    ensures
        unlocked_bps(ts, now, ts.len()) is Some <==> due_bps(ts, now, ts.len()) <= u32::MAX,
        unlocked_bps(ts, now, ts.len()) matches Some(u) ==> u == due_bps(ts, now, ts.len()),
        t.timestamp > now ==> unlocked_bps(ts.push(t), now, ts.len() + 1) == unlocked_bps(ts, now, ts.len()),
        t.timestamp <= now ==> due_bps(ts.push(t), now, ts.len() + 1) == due_bps(ts, now, ts.len()) + t.basis_points,
{
    lemma_unlocked_is_due(ts, now, ts.len());
    lemma_due_bps_prefix(ts, t, now, ts.len());
}

/// A tranche release at `now` pays out the basis points of the tranches due
/// by `now` that were not yet released, and only those: it goes through
/// only where that is positive, the invoice's released basis points become
/// the due total, and the invoice is released (at `now`) exactly when all
/// 10 000 are out; before that it keeps its status.
pub proof fn law_tranche_release_pays_due(s: SplitView, id: u64, inv: InvoiceView, actor: Address, now: u64)
    requires
        tranche_release(s, id, inv, actor, now) is Ok,
    ensures
        ({
            let due = due_bps(inv.tranches, now, inv.tranches.len());
            let s2 = tranche_release(s, id, inv, actor, now)->Ok_0.0;
            &&& due > inv.released_bps
            &&& s2.inv(id).released_bps == due
            &&& due >= 10_000 ==> s2.inv(id).status == InvoiceStatus::Released && s2.inv(id).completion_time == Some(now)
            &&& due < 10_000 ==> s2.inv(id).status == inv.status && s2.inv(id).completion_time == inv.completion_time
            &&& s2.inv(id).funded == inv.funded
            &&& ({
                let pays = tranche_lines(s, inv, inv.tokens[0], (due - inv.released_bps) as u32, sum_i128(inv.amounts) as i128, inv.recipients.len())->Ok_0.0;
                tranche_release(s, id, inv, actor, now)->Ok_0.1.subrange(0, pays.len() as int) == pays
            })
        }),
{
    lemma_unlocked_is_due(inv.tranches, now, inv.tranches.len());
    let due = due_bps(inv.tranches, now, inv.tranches.len());
    let total = total_of(inv)->Ok_0;
    assert(inv.amounts.take(inv.amounts.len() as int) =~= inv.amounts);
    assert(total == sum_i128(inv.amounts));
    let tl = tranche_lines(s, inv, inv.tokens[0], (due - inv.released_bps) as u32, total, inv.recipients.len())->Ok_0;
    let acts = tranche_release(s, id, inv, actor, now)->Ok_0.1;
    assert(acts.subrange(0, tl.0.len() as int) =~= tl.0);
}

/// The gross tranche payout of a recipient owed `amount` of `total`, for
/// `bps` basis points of the funded amount, is `amount * bps * funded /
/// (10 000 * total)` rounded down, where the products fit a u128 (beyond
/// that they saturate).
pub proof fn law_tranche_share_formula(amount: i128, bps: u32, funded: i128, total: i128)
    requires
        0 <= amount <= total,
        0 < total,
        0 <= funded,
        bps <= 10_000,
        amount * bps * funded <= u128::MAX,
        10_000 * total <= u128::MAX,
    ensures
        tranche_raw(amount, bps, funded, total) == Some(((amount as int) * (bps as int) * (funded as int) / (10_000 * (total as int))) as i128),
{
    let (a, b, f, t) = (amount as int, bps as int, funded as int, total as int);
    assert(0 <= a * b) by (nonlinear_arith) requires 0 <= a, 0 <= b;
    if f == 0 {
        assert(sat_u128(a * b) * f == 0);
        assert(a * b * f == 0) by (nonlinear_arith) requires f == 0;
    } else {
        assert(a * b <= a * b * f) by (nonlinear_arith) requires 0 <= a * b, 1 <= f;
    }
    assert(0 <= a * b * f / (10_000 * t) <= f) by (nonlinear_arith)
        requires 0 <= a <= t, 0 <= b <= 10_000, 0 <= f, t > 0;
}

/// An explicit release of an invoice with tranches at `now` takes it to the
/// basis points of its tranches due by `now`; it is marked released only
/// once those reach 10 000, and otherwise stays pending.
pub proof fn law_release_of_tranches(s: SplitView, id: u64, now: u64, gov: bool)
    requires
        release_outcome(s, id, now, gov) is Ok,
        s.inv(id).tranches.len() > 0,
    ensures
        ({
            let inv = s.inv(id);
            let due = due_bps(inv.tranches, now, inv.tranches.len());
            let s2 = release_outcome(s, id, now, gov)->Ok_0.0;
            &&& due > inv.released_bps
            &&& s2.inv(id).released_bps == due
            &&& due >= 10_000 <==> s2.inv(id).status == InvoiceStatus::Released
            &&& due < 10_000 ==> s2.inv(id).status == InvoiceStatus::Pending
        }),
{
    let inv = release_checks(s, id)->Ok_0;
    assert(inv == s.inv(id));
    law_tranche_release_pays_due(s, id, inv, s.contract_address, now);
}

/// Whether the actions before position `e` move the payer's tokens only into
/// the contract.
pub open spec fn payer_pays_only_contract(acts: Seq<Action>, payer: Address, me: Address, e: int) -> bool {
    forall|i: int| 0 <= i < e && #[trigger] acts[i] is Transfer && acts[i]->Transfer_from == payer
        ==> acts[i]->Transfer_to == me
}

/// Whether `a` is the event of a payment by `payer` into invoice `id`.
pub open spec fn is_payment_event(a: Action, id: u64, payer: Address) -> bool {
    a matches Action::Emit { event: Event::PaymentReceived { invoice_id, payer: q, .. } } && invoice_id == id && q == payer
}

proof fn lemma_on_time_plan(s: SplitView, payer: Address, id: u64, amount: i128, nonce: u64, now: u64, inv: InvoiceView, remaining: i128)
    requires
        credit_plan(s, payer, id, amount, nonce, now, inv, remaining) is Ok,
        now <= inv.penalty_deadline || inv.penalty_bps == 0,
        payer != s.contract_address,
    ensures
        ({
            let acts = credit_plan(s, payer, id, amount, nonce, now, inv, remaining)->Ok_0.actions;
            let e: int = 1 + (charge(s, inv, payer, amount, remaining, inv.tokens[0])->Ok_0.2.len() as int);
            &&& 0 < e < acts.len()
            &&& is_payment_event(acts[e], id, payer)
            &&& payer_pays_only_contract(acts, payer, s.contract_address, e)
        }),
{
    let p = credit_plan(s, payer, id, amount, nonce, now, inv, remaining)->Ok_0;
    let ch = charge(s, inv, payer, amount, remaining, inv.tokens[0])->Ok_0.2;
    let e: int = 1 + (ch.len() as int);
    assert(p.actions[e] == p.actions.subrange(0, e + 1)[e]);
    assert forall|i: int| 0 <= i < e && #[trigger] p.actions[i] is Transfer && p.actions[i]->Transfer_from == payer
        implies p.actions[i]->Transfer_to == s.contract_address by {
        if i > 0 {
            assert(p.actions[i] == ch[i - 1]);
        }
    }
}

/// A payment made by the penalty deadline (or on an invoice without a
/// penalty) is charged no penalty: up to the event of the payment, every
/// transfer out of the payer goes into the contract, none to the
/// recipients. (A payment that only accumulates below the invoice's minimum
/// asks for nothing but the payer's authorization.)
#[verifier::spinoff_prover]
#[verifier::rlimit(80)]
pub proof fn law_on_time_payment_has_no_penalty(s: SplitView, payer: Address, id: u64, amount: i128, nonce: u64, now: u64, oracle_price: i128, kyc_verified: bool, gov: bool)
    requires
        pay_outcome(s, payer, id, amount, nonce, now, oracle_price, kyc_verified, gov) is Ok,
        now <= s.inv(id).penalty_deadline || s.inv(id).penalty_bps == 0,
        payer != s.contract_address,
    ensures
        ({
            let acts = pay_outcome(s, payer, id, amount, nonce, now, oracle_price, kyc_verified, gov)->Ok_0.1;
            ||| acts == seq![Action::RequireAuth { who: payer }]
            ||| exists|e: int| 0 < e < acts.len() && is_payment_event(#[trigger] acts[e], id, payer)
                && payer_pays_only_contract(acts, payer, s.contract_address, e)
        }),
{
    let (inv, total, remaining) = pay_checks(s, payer, id, amount, now, oracle_price, kyc_verified)->Ok_0;
    assert(inv.penalty_deadline == s.inv(id).penalty_deadline && inv.penalty_bps == s.inv(id).penalty_bps);
    let s0 = if auto_resumes(s.inv(id), now) {
        SplitView { invoices: s.invoices.insert(id, EntryView { invoice: inv, archived: false }), ..s }
    } else {
        s
    };
    let acts = pay_outcome(s, payer, id, amount, nonce, now, oracle_price, kyc_verified, gov)->Ok_0.1;
    if acts != seq![Action::RequireAuth { who: payer }] {
        let ps = s.payer(id, payer);
        if !(inv.min_payment > 0 && ps.accumulated + amount < inv.min_payment) {
            assert(pay_outcome(s, payer, id, amount, nonce, now, oracle_price, kyc_verified, gov)
                == pay_credit(s0, payer, id, amount, nonce, now, gov, inv, total, remaining));
            lemma_on_time_plan(s0, payer, id, amount, nonce, now, inv, remaining);
            let p = credit_plan(s0, payer, id, amount, nonce, now, inv, remaining)->Ok_0;
            let e: int = 1 + (charge(s0, inv, payer, amount, remaining, inv.tokens[0])->Ok_0.2.len() as int);
            assert(acts.subrange(0, p.actions.len() as int) =~= p.actions);
            assert forall|i: int| 0 <= i < p.actions.len() implies acts[i] == p.actions[i] by {
                assert(acts.subrange(0, p.actions.len() as int)[i] == acts[i]);
            }
            assert(is_payment_event(acts[e], id, payer));
            assert(payer_pays_only_contract(acts, payer, s.contract_address, e));
        }
    }
}

/// `p` basis points of `x`, rounded down.
pub open spec fn bps_cut(x: int, p: int) -> int {
    x * p / 10_000
}

/// The proportional share of recipient `j`: its amount times the funded
/// amount over the total, rounded down.
pub open spec fn prop_share(am: Seq<i128>, funded: int, total: int, j: int) -> int {
    am[j] * funded / total
}

/// The proportional shares of the first `k` recipients, added up.
pub open spec fn shares_before(am: Seq<i128>, funded: int, total: int, k: nat) -> int
    decreases k,
{
    if k == 0 { 0 } else { shares_before(am, funded, total, (k - 1) as nat) + prop_share(am, funded, total, k - 1) }
}

/// What recipient `j` of `inv` claims before fees: its proportional share,
/// or for the last recipient what the others' shares leave of the funded
/// amount.
pub open spec fn claim_share(inv: InvoiceView, j: int) -> int {
    let total = sum_i128(inv.amounts);
    if j == inv.recipients.len() - 1 {
        inv.funded - shares_before(inv.amounts, inv.funded as int, total, j as nat)
    } else {
        prop_share(inv.amounts, inv.funded as int, total, j)
    }
}

proof fn lemma_position_first(s: Seq<Address>, a: Address, i: int)
    requires
        0 <= i,
    ensures
        position_from(s, a, i) matches Some(j) ==> i <= j < s.len() && s[j] == a
            && forall|k: int| i <= k < j ==> s[k] != a,
    decreases s.len() - i,
{
    if 0 <= i < s.len() && s[i] != a {
        lemma_position_first(s, a, i + 1);
    }
}

proof fn lemma_sum_nonneg_bounds(am: Seq<i128>)
    requires
        forall|k: int| 0 <= k < am.len() ==> am[k] >= 0,
    ensures
        sum_i128(am) >= 0,
        forall|k: int| 0 <= k < am.len() ==> am[k] <= sum_i128(am),
    decreases am.len(),
{
    if am.len() > 0 {
        let d = am.drop_last();
        assert forall|k: int| 0 <= k < d.len() implies d[k] >= 0 by {
            assert(d[k] == am[k]);
        }
        lemma_sum_nonneg_bounds(d);
        assert forall|k: int| 0 <= k < am.len() implies am[k] <= sum_i128(am) by {
            if k < am.len() - 1 {
                assert(d[k] == am[k]);
            }
        }
    }
}

proof fn lemma_mul_div_exact(a: i128, f: i128, t: i128)
    requires
        0 <= a <= t,
        0 <= f,
        mul_div_spec(a, f, t) is Some,
    ensures
        mul_div_spec(a, f, t) == Some(((a as int) * (f as int) / (t as int)) as i128),
        0 <= (a as int) * (f as int) / (t as int) <= f,
{
    let (x, y, z) = (a as int, f as int, t as int);
    assert(x * y / z <= y) by (nonlinear_arith)
        requires 0 <= x <= z, 0 <= y, z > 0;
    assert(0 <= x * y / z) by (nonlinear_arith)
        requires 0 <= x, 0 <= y, z > 0;
}

proof fn lemma_mul_div_exact_rev(f: i128, a: i128, t: i128)
    requires
        0 <= a <= t,
        0 <= f,
        mul_div_spec(f, a, t) is Some,
    ensures
        mul_div_spec(f, a, t) == Some(((a as int) * (f as int) / (t as int)) as i128),
        0 <= (a as int) * (f as int) / (t as int) <= f,
{
    let (x, y, z) = (a as int, f as int, t as int);
    assert(y * x == x * y) by (nonlinear_arith);
    assert(x * y / z <= y) by (nonlinear_arith)
        requires 0 <= x <= z, 0 <= y, z > 0;
    assert(0 <= x * y / z) by (nonlinear_arith)
        requires 0 <= x, 0 <= y, z > 0;
}

proof fn lemma_bps_exact(p: i128, b: u32)
    requires
        0 <= p,
        bps_of_spec(p, b) is Some,
    ensures
        bps_of_spec(p, b) == Some(bps_cut(p as int, b as int) as i128),
{
    assert(p * b / 10_000 <= p * b) by (nonlinear_arith)
        requires 0 <= p, 0 <= b;
    assert(0 <= p * b / 10_000) by (nonlinear_arith)
        requires 0 <= p, 0 <= b;
    assert((p * b) / 10_000 < 0x8000_0000_0000_0000_0000_0000_0000_0000) by (nonlinear_arith)
        requires p * b <= 0xffff_ffff_ffff_ffff_ffff_ffff_ffff_ffff, 0 <= p * b;
}

proof fn lemma_share_prefix_exact(am: Seq<i128>, funded: i128, total: i128, k: nat)
    requires
        k <= am.len(),
        funded >= 0,
        total == sum_i128(am),
        forall|i: int| 0 <= i < am.len() ==> am[i] >= 0,
        share_prefix(am, funded, total, k) is Some,
    ensures
        share_prefix(am, funded, total, k)->0 == shares_before(am, funded as int, total as int, k),
    decreases k,
{
    if k > 0 {
        lemma_sum_nonneg_bounds(am);
        lemma_share_prefix_exact(am, funded, total, (k - 1) as nat);
        lemma_mul_div_exact(am[k - 1], funded, total);
    }
}

/// The first `k` amounts added up.
pub open spec fn psum(am: Seq<i128>, k: nat) -> int
    decreases k,
{
    if k == 0 { 0 } else { psum(am, (k - 1) as nat) + am[k - 1] }
}

proof fn lemma_psum_is_sum(am: Seq<i128>, k: nat)
    requires
        k == am.len(),
    ensures
        psum(am, k) == sum_i128(am),
    decreases k,
{
    if k > 0 {
        let d = am.drop_last();
        lemma_psum_is_sum(d, (k - 1) as nat);
        lemma_psum_same(am, d, (k - 1) as nat);
    }
}

proof fn lemma_psum_same(a: Seq<i128>, b: Seq<i128>, k: nat)
    requires
        k <= a.len(),
        k <= b.len(),
        forall|i: int| 0 <= i < k ==> a[i] == b[i],
    ensures
        psum(a, k) == psum(b, k),
    decreases k,
{
    if k > 0 {
        lemma_psum_same(a, b, (k - 1) as nat);
    }
}

proof fn lemma_psum_monotone(am: Seq<i128>, k: nat, n: nat)
    requires
        k <= n <= am.len(),
        forall|i: int| 0 <= i < am.len() ==> am[i] >= 0,
    ensures
        psum(am, k) <= psum(am, n),
    decreases n - k,
{
    if k < n {
        lemma_psum_monotone(am, k, (n - 1) as nat);
    }
}

proof fn lemma_shares_bound(am: Seq<i128>, f: int, t: int, k: nat)
    requires
        k <= am.len(),
        f >= 0,
        t > 0,
        forall|i: int| 0 <= i < am.len() ==> am[i] >= 0,
    ensures
        shares_before(am, f, t, k) * t <= f * psum(am, k),
    decreases k,
{
    if k > 0 {
        lemma_shares_bound(am, f, t, (k - 1) as nat);
        let a = am[k - 1] as int;
        assert((a * f / t) * t <= a * f) by (nonlinear_arith)
            requires a >= 0, f >= 0, t > 0;
        let x = shares_before(am, f, t, (k - 1) as nat);
        assert((x + a * f / t) * t == x * t + (a * f / t) * t) by (nonlinear_arith);
        assert(f * (psum(am, (k - 1) as nat) + a) == f * psum(am, (k - 1) as nat) + a * f) by (nonlinear_arith);
    }
}

/// A claim pays the recipient (at its first place among the recipients) its
/// share `p` less the platform fee `p * platform_fee_bps / 10 000` and less
/// its tax `p * tax_bps / 10 000`, where its share is its proportional part
/// of the funded amount, and for the last recipient what the others' parts
/// leave over. (Stated for invoices with amounts and funded amount that
/// are not negative, as creation and payment keep them.)
pub proof fn law_claim_pays_share_less_fee(s: SplitView, id: u64, recipient: Address, now: u64)
    requires
        claim_outcome(s, id, recipient, now) is Ok,
    ensures
        ({
            let inv = s.inv(id);
            let acts = claim_outcome(s, id, recipient, now)->Ok_0.1;
            &&& inv.recipients.contains(recipient)
            &&& inv.funded >= 0 && (forall|k: int| 0 <= k < inv.amounts.len() ==> inv.amounts[k] >= 0)
                ==> forall|j: int| 0 <= j < inv.recipients.len() && #[trigger] inv.recipients[j] == recipient
                    && (forall|k: int| 0 <= k < j ==> inv.recipients[k] != recipient) ==> {
                        let p = claim_share(inv, j);
                        &&& p >= 0
                        &&& acts.last() == (Action::Transfer {
                            token: inv.tokens[j],
                            from: s.contract_address,
                            to: recipient,
                            amount: (p - bps_cut(p, s.platform_fee_bps as int) - bps_cut(p, inv.tax_bps as int)) as i128,
                        })
                    }
        }),
{
    let inv = s.inv(id);
    lemma_position_first(inv.recipients, recipient, 0);
    let idx = position_from(inv.recipients, recipient, 0)->0;
    assert(inv.recipients[idx] == recipient);
    if inv.funded >= 0 && (forall|k: int| 0 <= k < inv.amounts.len() ==> inv.amounts[k] >= 0) {
        assert(inv.amounts.take(inv.amounts.len() as int) =~= inv.amounts);
        let total = sum_i128(inv.amounts) as i128;
        assert(total == sum_i128(inv.amounts));
        lemma_psum_is_sum(inv.amounts, inv.amounts.len());
        lemma_sum_nonneg_bounds(inv.amounts);
        assert forall|j: int| 0 <= j < inv.recipients.len() && #[trigger] inv.recipients[j] == recipient
            && (forall|k: int| 0 <= k < j ==> inv.recipients[k] != recipient) implies {
                let p = claim_share(inv, j);
                &&& p >= 0
                &&& claim_outcome(s, id, recipient, now)->Ok_0.1.last() == (Action::Transfer {
                    token: inv.tokens[j],
                    from: s.contract_address,
                    to: recipient,
                    amount: (p - bps_cut(p, s.platform_fee_bps as int) - bps_cut(p, inv.tax_bps as int)) as i128,
                })
            } by {
            assert(j == idx);
            let p = claim_share(inv, j);
            if j == inv.recipients.len() - 1 {
                lemma_share_prefix_exact(inv.amounts, inv.funded, total, j as nat);
                if j > 0 {
                    assert(total > 0);
                    lemma_shares_bound(inv.amounts, inv.funded as int, total as int, j as nat);
                    lemma_psum_monotone(inv.amounts, j as nat, inv.amounts.len());
                    assert(shares_before(inv.amounts, inv.funded as int, total as int, j as nat) <= inv.funded) by (nonlinear_arith)
                        requires
                            shares_before(inv.amounts, inv.funded as int, total as int, j as nat) * total
                                <= inv.funded * psum(inv.amounts, j as nat),
                            psum(inv.amounts, j as nat) <= total,
                            inv.funded >= 0,
                            total > 0;
                }
            } else {
                lemma_mul_div_exact(inv.amounts[j], inv.funded, total);
            }
            lemma_bps_exact(p as i128, s.platform_fee_bps);
            lemma_bps_exact(p as i128, inv.tax_bps);
        }
    }
}

/// The amounts of the transfers among `acts`, added up.
pub open spec fn transfers_total(acts: Seq<Action>) -> int
    decreases acts.len(),
{
    if acts.len() == 0 {
        0
    } else {
        transfers_total(acts.drop_last()) + match acts.last() {
            Action::Transfer { amount, .. } => amount as int,
            _ => 0int,
        }
    }
}

/// Whether every action of `acts` is a transfer of `token` from `from` to
/// one of `rs`.
pub open spec fn all_paid_to(acts: Seq<Action>, token: Address, from: Address, rs: Seq<Address>) -> bool {
    forall|i: int| 0 <= i < acts.len() ==> (#[trigger] acts[i] matches Action::Transfer { token: tk, from: f, to, .. }
        && tk == token && f == from && rs.contains(to))
}

/// The part of `amount` that recipient `j` of `n` gets when `amount` is
/// split in proportion to `am`: its proportional share rounded down, and
/// for the last recipient what the others' shares leave over.
pub open spec fn split_part(am: Seq<i128>, amount: int, total: int, n: nat, j: int) -> int {
    if j == n - 1 { amount - shares_before(am, amount, total, j as nat) } else { prop_share(am, amount, total, j) }
}

/// The transfers of `amount` split in proportion to `am` among the first
/// `k` of the `rs`: one from `from` to each recipient whose part is
/// positive, in order.
pub open spec fn split_transfers(rs: Seq<Address>, am: Seq<i128>, amount: int, total: int, token: Address, from: Address, k: nat) -> Seq<Action>
    decreases k,
{
    if k == 0 {
        Seq::empty()
    } else {
        let prev = split_transfers(rs, am, amount, total, token, from, (k - 1) as nat);
        let part = split_part(am, amount, total, rs.len(), k - 1);
        if part > 0 { prev.push(Action::Transfer { token, from, to: rs[k - 1], amount: part as i128 }) } else { prev }
    }
}

proof fn lemma_proportional_total(inv: InvoiceView, token: Address, me: Address, amount: i128, total: i128, k: nat)
    requires
        proportional_payouts(inv, token, me, amount, total, k) is Ok,
        0 < inv.recipients.len(),
        k <= inv.recipients.len(),
        amount >= 0,
        total == sum_i128(inv.amounts),
        forall|i: int| 0 <= i < inv.amounts.len() ==> inv.amounts[i] >= 0,
    ensures
        ({
            let (acts, dist) = proportional_payouts(inv, token, me, amount, total, k)->Ok_0;
            &&& all_paid_to(acts, token, me, inv.recipients)
            &&& acts == split_transfers(inv.recipients, inv.amounts, amount as int, total as int, token, me, k)
            &&& transfers_total(acts) == dist
            &&& k < inv.recipients.len() ==> dist == shares_before(inv.amounts, amount as int, total as int, k)
            &&& k == inv.recipients.len() ==> dist == amount
        }),
    decreases k,
{
    if k > 0 {
        lemma_proportional_total(inv, token, me, amount, total, (k - 1) as nat);
        lemma_sum_nonneg_bounds(inv.amounts);
        lemma_psum_is_sum(inv.amounts, inv.amounts.len());
        let (a0, d0) = proportional_payouts(inv, token, me, amount, total, (k - 1) as nat)->Ok_0;
        let (a1, d1) = proportional_payouts(inv, token, me, amount, total, k)->Ok_0;
        let i = k - 1;
        if i == inv.recipients.len() - 1 {
            if i > 0 {
                assert(total > 0);
                lemma_shares_bound(inv.amounts, amount as int, total as int, i as nat);
                lemma_psum_monotone(inv.amounts, i as nat, inv.amounts.len());
                assert(d0 <= amount) by (nonlinear_arith)
                    requires
                        d0 * total <= amount * psum(inv.amounts, i as nat),
                        psum(inv.amounts, i as nat) <= total,
                        amount >= 0,
                        total > 0;
            }
        } else {
            lemma_mul_div_exact_rev(amount, inv.amounts[i], total);
        }
        let sh = d1 - d0;
        assert(sh >= 0);
        if i < inv.recipients.len() - 1 {
            assert(d1 == shares_before(inv.amounts, amount as int, total as int, k));
        } else {
            assert(d1 == amount);
        }
        if a1 != a0 {
            assert(a1 == a0.push(Action::Transfer { token, from: me, to: inv.recipients[i], amount: sh as i128 }));
            assert(a1.last() == a1[a1.len() - 1]);
            assert(a1.drop_last() =~= a0);
            assert(transfers_total(a1) == transfers_total(a0) + sh);
            assert forall|x: int| 0 <= x < a1.len() implies (#[trigger] a1[x] matches Action::Transfer { token: tk, from: f, to, .. }
                && tk == token && f == me && inv.recipients.contains(to)) by {
                if x < a0.len() {
                    assert(a1[x] == a0[x]);
                } else {
                    assert(inv.recipients[i] == inv.recipients[i]);
                }
            }
        } else {
            assert(sh == 0);
        }
    }
}

/// A payment made after the penalty deadline of an invoice with a penalty
/// pays the penalty, `penalty_bps` of the amount (rounded down), straight to
/// the recipients: right after the charge into the contract and before the
/// payment event come transfers from the payer to recipients of the
/// invoice that add up to exactly the penalty, split among them in
/// proportion to what they are owed. (Stated for invoices with
/// recipients and amounts that are not negative.)
proof fn lemma_late_plan(s: SplitView, payer: Address, id: u64, amount: i128, nonce: u64, now: u64, inv: InvoiceView, remaining: i128)
    requires
        credit_plan(s, payer, id, amount, nonce, now, inv, remaining) is Ok,
        now > inv.penalty_deadline,
        inv.penalty_bps > 0,
        inv.recipients.len() > 0,
        amount > 0,
        forall|i: int| 0 <= i < inv.amounts.len() ==> inv.amounts[i] >= 0,
        payer != s.contract_address,
    ensures
        ({
            let acts = credit_plan(s, payer, id, amount, nonce, now, inv, remaining)->Ok_0.actions;
            let c: int = 1 + (charge(s, inv, payer, amount, remaining, inv.tokens[0])->Ok_0.2.len() as int);
            let pen = penalty_actions(inv, payer, amount, inv.tokens[0], now)->Ok_0;
            let e: int = c + (pen.len() as int);
            &&& 1 <= c <= e < acts.len()
            &&& is_payment_event(acts[e], id, payer)
            &&& payer_pays_only_contract(acts, payer, s.contract_address, c)
            &&& acts.subrange(c, e) == pen
            &&& all_paid_to(pen, inv.tokens[0], payer, inv.recipients)
            &&& bps_cut(amount as int, inv.penalty_bps as int) > 0 ==> pen == split_transfers(inv.recipients, inv.amounts,
                bps_cut(amount as int, inv.penalty_bps as int), sum_i128(inv.amounts), inv.tokens[0], payer, inv.recipients.len())
            &&& transfers_total(pen) == bps_cut(amount as int, inv.penalty_bps as int)
        }),
{
    let p = credit_plan(s, payer, id, amount, nonce, now, inv, remaining)->Ok_0;
    let token = inv.tokens[0];
    let ch = charge(s, inv, payer, amount, remaining, token)->Ok_0.2;
    let pen = penalty_actions(inv, payer, amount, token, now)->Ok_0;
    let c: int = 1 + (ch.len() as int);
    let e: int = c + (pen.len() as int);
    lemma_bps_exact(amount, inv.penalty_bps);
    let penalty = bps_cut(amount as int, inv.penalty_bps as int);
    if penalty > 0 {
        let t = total_of(inv)->Ok_0;
        assert(inv.amounts.take(inv.amounts.len() as int) =~= inv.amounts);
        lemma_proportional_total(inv, token, payer, penalty as i128, t, inv.recipients.len());
    } else {
        assert(pen.len() == 0);
    }
    let head = seq![Action::RequireAuth { who: payer }] + ch;
    assert(p.actions.subrange(0, c) =~= head);
    assert(p.actions.subrange(c, e) =~= pen);
    assert(p.actions[e] == p.actions.subrange(0, e + 1)[e]);
    assert forall|i: int| 0 <= i < c && #[trigger] p.actions[i] is Transfer && p.actions[i]->Transfer_from == payer
        implies p.actions[i]->Transfer_to == s.contract_address by {
        assert(p.actions[i] == p.actions.subrange(0, c)[i]);
        if i > 0 {
            assert(head[i] == ch[i - 1]);
        }
    }
}

/// A payment made after the penalty deadline of an invoice with a penalty
/// pays the penalty, `penalty_bps` of the amount (rounded down), straight to
/// the recipients: right after the charge into the contract and before the
/// payment event come transfers from the payer to recipients of the
/// invoice that add up to exactly the penalty, split among them in
/// proportion to what they are owed. (Stated for invoices with
/// recipients, amounts that are not negative and no minimum payment.)
#[verifier::spinoff_prover]
#[verifier::rlimit(80)]
pub proof fn law_late_payment_pays_penalty(s: SplitView, payer: Address, id: u64, amount: i128, nonce: u64, now: u64, oracle_price: i128, kyc_verified: bool, gov: bool)
    requires
        pay_outcome(s, payer, id, amount, nonce, now, oracle_price, kyc_verified, gov) is Ok,
        now > s.inv(id).penalty_deadline,
        s.inv(id).penalty_bps > 0,
        s.inv(id).recipients.len() > 0,
        forall|i: int| 0 <= i < s.inv(id).amounts.len() ==> s.inv(id).amounts[i] >= 0,
        s.inv(id).min_payment == 0,
        payer != s.contract_address,
    ensures
        ({
            let inv = s.inv(id);
            let acts = pay_outcome(s, payer, id, amount, nonce, now, oracle_price, kyc_verified, gov)->Ok_0.1;
            exists|c: int, e: int| 1 <= c <= e < acts.len()
                && is_payment_event(#[trigger] acts[e], id, payer)
                && payer_pays_only_contract(acts, payer, s.contract_address, c)
                && all_paid_to(#[trigger] acts.subrange(c, e), inv.tokens[0], payer, inv.recipients)
                && transfers_total(acts.subrange(c, e)) == bps_cut(amount as int, inv.penalty_bps as int)
                && (bps_cut(amount as int, inv.penalty_bps as int) > 0 ==> acts.subrange(c, e) == split_transfers(inv.recipients,
                    inv.amounts, bps_cut(amount as int, inv.penalty_bps as int), sum_i128(inv.amounts), inv.tokens[0], payer,
                    inv.recipients.len()))
        }),
{
    let (inv, total, remaining) = pay_checks(s, payer, id, amount, now, oracle_price, kyc_verified)->Ok_0;
    assert(inv.penalty_deadline == s.inv(id).penalty_deadline && inv.penalty_bps == s.inv(id).penalty_bps
        && inv.recipients == s.inv(id).recipients && inv.amounts == s.inv(id).amounts && inv.tokens == s.inv(id).tokens);
    let s0 = if auto_resumes(s.inv(id), now) {
        SplitView { invoices: s.invoices.insert(id, EntryView { invoice: inv, archived: false }), ..s }
    } else {
        s
    };
    let acts = pay_outcome(s, payer, id, amount, nonce, now, oracle_price, kyc_verified, gov)->Ok_0.1;
    assert(pay_outcome(s, payer, id, amount, nonce, now, oracle_price, kyc_verified, gov)
        == pay_credit(s0, payer, id, amount, nonce, now, gov, inv, total, remaining));
    lemma_late_plan(s0, payer, id, amount, nonce, now, inv, remaining);
    let p = credit_plan(s0, payer, id, amount, nonce, now, inv, remaining)->Ok_0;
    let c: int = 1 + (charge(s0, inv, payer, amount, remaining, inv.tokens[0])->Ok_0.2.len() as int);
    let pen = penalty_actions(inv, payer, amount, inv.tokens[0], now)->Ok_0;
    let e: int = c + (pen.len() as int);
    assert(acts.subrange(0, p.actions.len() as int) =~= p.actions);
    assert forall|i: int| 0 <= i < p.actions.len() implies acts[i] == p.actions[i] by {
        assert(acts.subrange(0, p.actions.len() as int)[i] == acts[i]);
    }
    assert(acts.subrange(c, e) =~= p.actions.subrange(c, e));
    assert(is_payment_event(acts[e], id, payer));
    assert(payer_pays_only_contract(acts, payer, s.contract_address, c));
}

} // verus!
