//! Giving the money back: per-payer totals, refunds after the deadline,
//! auctions of expired invoices, cancellation and auto-resolution.

use vstd::prelude::*;
use crate::types::{Address, AuditAction, AuditEntry, Bid, InvoiceStatus, Payment, ResolveAction, ResolveRule};
use crate::invoice::{Invoice, InvoiceView};
use crate::effects::{Action, Event, Notice, SplitError};
use crate::math::{mul_div_spec, mul_div, as_u128, to_u128};
use crate::distribution::fits_i128;
use crate::state::{AccountStats, EntryView, SplitContract, SplitView, Stats};
use crate::release::{token_of, total_of, invoice_token, invoice_total, matches_outcome, exact_outcome, notify_actions, release_dispatch};

verus! {

broadcast use vstd::std_specs::hash::group_hash_axioms;

/// Position of the first entry of `l`, from `i` on, whose payer is not
/// below `x`.
pub open spec fn lower_bound(l: Seq<(Address, i128)>, x: u64, i: int) -> int
    decreases l.len() - i,
{
    if i < 0 || i >= l.len() || l[i].0.0 >= x {
        i
    } else {
        lower_bound(l, x, i + 1)
    }
}

/// Add `amount` to the total of `payer` in the list of per-payer totals
/// kept in address order; `None` where the total overflows.
pub open spec fn add_total(l: Seq<(Address, i128)>, payer: Address, amount: i128) -> Option<Seq<(Address, i128)>> {
    let i = lower_bound(l, payer.0, 0);
    if i < l.len() && l[i].0 == payer {
        if fits_i128(l[i].1 + amount) {
            Some(l.update(i, (payer, (l[i].1 + amount) as i128)))
        } else {
            None
        }
    } else {
        Some(l.insert(i, (payer, amount)))
    }
}

/// Per-payer totals of the first `k` payments, in address order, as the
/// contract's map of totals holds them; `None` where a total overflows.
pub open spec fn payer_totals(ps: Seq<Payment>, k: nat) -> Option<Seq<(Address, i128)>>
    decreases k,
{
    if k == 0 {
        Some(Seq::empty())
    } else {
        match payer_totals(ps, (k - 1) as nat) {
            None => None,
            Some(l) => add_total(l, ps[k - 1].payer, ps[k - 1].amount),
        }
    }
}

/// Refund transfers of the first `k` payer totals, each followed by its
/// event, and the sum refunded.
pub open spec fn refund_actions(id: u64, token: Address, me: Address, totals: Seq<(Address, i128)>, k: nat) -> Result<(Seq<Action>, i128), SplitError>
    decreases k,
{
    if k == 0 {
        Ok((Seq::empty(), 0i128))
    } else {
        match refund_actions(id, token, me, totals, (k - 1) as nat) {
            Err(e) => Err(e),
            Ok((acts, sum)) => {
                let (payer, amount) = totals[k - 1];
                if !fits_i128(sum + amount) {
                    Err(SplitError::ArithmeticOverflow)
                } else {
                    Ok((
                        acts + seq![
                            Action::Transfer { token, from: me, to: payer, amount },
                            Action::Emit { event: Event::PayerRefunded { invoice_id: id, payer, amount } },
                        ],
                        (sum + amount) as i128,
                    ))
                }
            },
        }
    }
}

/// Refund of every payer of `inv`: the transfers with their events and the
/// sum refunded.
pub open spec fn payer_refunds(id: u64, inv: InvoiceView, me: Address) -> Result<(Seq<Action>, i128), SplitError> {
    match token_of(inv) {
        Err(e) => Err(e),
        Ok(token) => match payer_totals(inv.payments, inv.payments.len()) {
            None => Err(SplitError::ArithmeticOverflow),
            Some(t) => refund_actions(id, token, me, t, t.len()),
        },
    }
}

/// The bonus pool back to the creator, where there is one.
pub open spec fn bonus_return(inv: InvoiceView, me: Address) -> Seq<Action> {
    if inv.bonus_pool > 0 {
        seq![Action::Transfer { token: inv.tokens[0], from: me, to: inv.creator, amount: inv.bonus_pool }]
    } else {
        Seq::empty()
    }
}

/// `inv` marked refunded at `now`.
pub open spec fn refunded(inv: InvoiceView, now: u64) -> InvoiceView {
    InvoiceView { status: InvoiceStatus::Refunded, completion_time: Some(now), ..inv }
}

/// State after invoice `id` is stored as `inv`, `action` by `actor` is
/// logged and `amount` more is counted as refunded.
pub open spec fn refund_state(s: SplitView, id: u64, inv: InvoiceView, action: AuditAction, actor: Address, now: u64, amount: i128) -> SplitView {
    SplitView {
        invoices: s.invoices.insert(id, EntryView { invoice: inv, archived: false }),
        audit_logs: s.audit_logs.insert(id, s.log(id).push(AuditEntry { action, actor, timestamp: now })),
        stats: Stats { total_refunded: (s.stats.total_refunded + amount) as i128, ..s.stats },
        ..s
    }
}

/// The checks of `refund` before anything is paid back.
pub open spec fn refund_checks(s: SplitView, id: u64, now: u64) -> Result<InvoiceView, SplitError> {
    if s.paused {
        Err(SplitError::ContractIsPaused)
    } else if !s.invoices.contains_key(id) {
        Err(SplitError::InvoiceNotFound)
    } else {
        let inv = s.inv(id);
        if inv.status != InvoiceStatus::Pending {
            Err(SplitError::InvoiceIsNotPending)
        } else if inv.admin_frozen {
            Err(SplitError::InvoiceFrozenByAdmin)
        } else if now <= inv.deadline {
            Err(SplitError::DeadlineHasNotPassed)
        } else {
            match total_of(inv) {
                Err(e) => Err(e),
                Ok(total) => if inv.funded >= total {
                    Err(SplitError::InvoiceFullyFunded)
                } else {
                    Ok(inv)
                },
            }
        }
    }
}

/// Outcome of `refund` of invoice `id` at `now`. An invoice that is to be
/// auctioned on expiry starts its auction instead (for a day), and cannot
/// be refunded once the auction has started.
pub open spec fn refund_outcome(s: SplitView, id: u64, now: u64) -> Result<(SplitView, Seq<Action>), SplitError> {
    match refund_checks(s, id, now) {
        Err(e) => Err(e),
        Ok(inv) => {
            let me = s.contract_address;
            if inv.auction_on_expiry {
                if inv.auction_end == 0 {
                    let end = if now + 86_400 > u64::MAX { u64::MAX } else { (now + 86_400) as u64 };
                    Ok((
                        SplitView {
                            invoices: s.invoices.insert(id, EntryView { invoice: InvoiceView { auction_end: end, ..inv }, archived: false }),
                            audit_logs: s.audit_logs.insert(id, s.log(id).push(AuditEntry { action: AuditAction::AuctionStarted, actor: me, timestamp: now })),
                            ..s
                        },
                        Seq::empty(),
                    ))
                } else if now <= inv.auction_end {
                    Err(SplitError::AuctionInProgress)
                } else {
                    Err(SplitError::AuctionEndedSettleAuction)
                }
            } else {
                match payer_refunds(id, inv, me) {
                    Err(e) => Err(e),
                    Ok((acts, amount)) => {
                        let c = s.account(inv.creator);
                        if !fits_i128(s.stats.total_refunded + amount) {
                            Err(SplitError::TotalRefundedOverflow)
                        } else if c.creator_refunded == u64::MAX {
                            Err(SplitError::CreatorRefundedOverflow)
                        } else {
                            let s1 = refund_state(s, id, refunded(inv, now), AuditAction::Refund, me, now, amount);
                            Ok((
                                SplitView {
                                    accounts: s1.accounts.insert(inv.creator.0, AccountStats { creator_refunded: (c.creator_refunded + 1) as u64, ..c }),
                                    ..s1
                                },
                                acts + bonus_return(inv, me) + seq![Action::Emit { event: Event::InvoiceRefunded { invoice_id: id } }]
                                    + notify_actions(inv, id, Notice::Refund),
                            ))
                        }
                    },
                }
            }
        },
    }
}

pub proof fn lemma_payer_totals_none_persists(ps: Seq<Payment>, k: nat, n: nat)
    requires
        k <= n,
        payer_totals(ps, k) is None,
    ensures
        payer_totals(ps, n) is None,
    decreases n - k,
{
    if k < n {
        lemma_payer_totals_none_persists(ps, k, (n - 1) as nat);
    }
}

pub proof fn lemma_refund_actions_err_persists(id: u64, token: Address, me: Address, totals: Seq<(Address, i128)>, k: nat, n: nat)
    requires
        k <= n,
        refund_actions(id, token, me, totals, k) is Err,
    ensures
        refund_actions(id, token, me, totals, n) == refund_actions(id, token, me, totals, k),
    decreases n - k,
{
    if k < n {
        lemma_refund_actions_err_persists(id, token, me, totals, k, (n - 1) as nat);
    }
}

/// Add `amount` to the total of `payer`; see `add_total`.
pub fn add_payer_total(l: &mut Vec<(Address, i128)>, payer: Address, amount: i128) -> (ok: bool)
    ensures
        match add_total(old(l)@, payer, amount) {
            Some(r) => ok && final(l)@ == r,
            None => !ok,
        },
{
    let mut i: usize = 0;
    while i < l.len() && l[i].0.0 < payer.0
        invariant
            i <= l.len(),
            l@ == old(l)@,
            lower_bound(l@, payer.0, i as int) == lower_bound(l@, payer.0, 0),
        decreases l.len() - i,
    {
        i = i + 1;
    }
    if i < l.len() && l[i].0 == payer {
        let cur = l[i].1;
        match cur.checked_add(amount) {
            Some(t) => {
                l.set(i, (payer, t));
                true
            },
            None => false,
        }
    } else {
        l.insert(i, (payer, amount));
        true
    }
}

/// Per-payer totals of `ps` in address order; see `payer_totals`.
pub fn collect_payer_totals(ps: &Vec<Payment>) -> (r: Option<Vec<(Address, i128)>>)
    ensures
        match payer_totals(ps@, ps@.len()) {
            Some(t) => r is Some && r->0@ == t,
            None => r is None,
        },
{
    let mut l: Vec<(Address, i128)> = Vec::new();
    let mut k: usize = 0;
    while k < ps.len()
        invariant
            k <= ps.len(),
            payer_totals(ps@, k as nat) == Some(l@),
        decreases ps.len() - k,
    {
        let p = ps[k];
        if !add_payer_total(&mut l, p.payer, p.amount) {
            proof { lemma_payer_totals_none_persists(ps@, (k + 1) as nat, ps@.len()); }
            return None;
        }
        k = k + 1;
    }
    Some(l)
}

/// Refund transfers with their events; see `refund_actions`.
pub fn refund_payouts(id: u64, token: Address, me: Address, totals: &Vec<(Address, i128)>) -> (r: Result<(Vec<Action>, i128), SplitError>)
    ensures
        match (r, refund_actions(id, token, me, totals@, totals@.len())) {
            (Ok((a, sum)), Ok((sa, ssum))) => a@ == sa && sum == ssum,
            (Err(e), Err(se)) => e == se,
            _ => false,
        },
{
    let mut acts: Vec<Action> = Vec::new();
    let mut sum: i128 = 0;
    let mut k: usize = 0;
    while k < totals.len()
        invariant
            k <= totals.len(),
            refund_actions(id, token, me, totals@, k as nat) == Ok::<(Seq<Action>, i128), SplitError>((acts@, sum)),
        decreases totals.len() - k,
    {
        let (payer, amount) = totals[k];
        let ns = match sum.checked_add(amount) {
            Some(x) => x,
            None => {
                proof { lemma_refund_actions_err_persists(id, token, me, totals@, (k + 1) as nat, totals@.len()); }
                return Err(SplitError::ArithmeticOverflow);
            },
        };
        let ghost before = acts@;
        acts.push(Action::Transfer { token, from: me, to: payer, amount });
        acts.push(Action::Emit { event: Event::PayerRefunded { invoice_id: id, payer, amount } });
        assert(acts@ =~= before + seq![
            Action::Transfer { token, from: me, to: payer, amount },
            Action::Emit { event: Event::PayerRefunded { invoice_id: id, payer, amount } },
        ]);
        sum = ns;
        k = k + 1;
    }
    Ok((acts, sum))
}

/// Refunds of every payer of `inv`; see `payer_refunds`.
pub fn refund_payers(id: u64, inv: &Invoice, me: Address) -> (r: Result<(Vec<Action>, i128), SplitError>)
    ensures
        match (r, payer_refunds(id, inv@, me)) {
            (Ok((a, sum)), Ok((sa, ssum))) => a@ == sa && sum == ssum,
            (Err(e), Err(se)) => e == se,
            _ => false,
        },
{
    let token = match invoice_token(inv) {
        Ok(t) => t,
        Err(e) => return Err(e),
    };
    let totals = match collect_payer_totals(&inv.payments) {
        Some(t) => t,
        None => return Err(SplitError::ArithmeticOverflow),
    };
    refund_payouts(id, token, me, &totals)
}

/// The actions of `bonus_return`.
pub fn bonus_return_of(inv: &Invoice, me: Address) -> (r: Vec<Action>)
    requires
        inv@.tokens.len() > 0,
    ensures
        r@ == bonus_return(inv@, me),
{
    let mut acts: Vec<Action> = Vec::new();
    if inv.bonus_pool > 0 {
        acts.push(Action::Transfer { token: inv.tokens[0], from: me, to: inv.creator, amount: inv.bonus_pool });
    }
    assert(acts@ =~= bonus_return(inv@, me));
    acts
}

impl SplitContract {
    /// Store `inv` under `id`, log `action` by `actor` and count `amount`
    /// more as refunded; see `refund_state`.
    pub(crate) fn store_refund(&mut self, id: u64, inv: Invoice, action: AuditAction, actor: Address, now: u64, amount: i128)
        requires
            fits_i128(old(self)@.stats.total_refunded + amount),
        ensures
            final(self)@ == refund_state(old(self)@, id, inv@, action, actor, now, amount),
    {
        self.stats = Stats { total_refunded: self.stats.total_refunded + amount, ..self.stats };
        self.put_invoice(id, inv, false);
        self.append_audit(id, action, actor, now);
    }

    /// The checks of `refund`; see `refund_checks`.
    fn check_refund(&self, id: u64, now: u64) -> (r: Result<Invoice, SplitError>)
        ensures
            match (r, refund_checks(self@, id, now)) {
                (Ok(inv), Ok(si)) => inv@ == si,
                (Err(e), Err(se)) => e == se,
                _ => false,
            },
    {
        if self.paused {
            return Err(SplitError::ContractIsPaused);
        }
        assert(self@.invoices.dom() =~= self.invoices@.dom());
        let inv = match self.invoices.get(&id) {
            None => return Err(SplitError::InvoiceNotFound),
            Some(e) => e.invoice.copy(),
        };
        if inv.status != InvoiceStatus::Pending {
            return Err(SplitError::InvoiceIsNotPending);
        }
        if inv.admin_frozen {
            return Err(SplitError::InvoiceFrozenByAdmin);
        }
        if now <= inv.deadline {
            return Err(SplitError::DeadlineHasNotPassed);
        }
        let total = match invoice_total(&inv) {
            Ok(t) => t,
            Err(e) => return Err(e),
        };
        if inv.funded >= total {
            return Err(SplitError::InvoiceFullyFunded);
        }
        Ok(inv)
    }

    /// Refund every payer of invoice `invoice_id` after its deadline, at `now`,
    /// where it is short of its total; or start its auction where it is to be
    /// auctioned on expiry. A failed call changes nothing.
    pub fn refund(&mut self, invoice_id: u64, now: u64) -> (r: Result<Vec<Action>, SplitError>)
        ensures
            exact_outcome(r, old(self)@, final(self)@, refund_outcome(old(self)@, invoice_id, now)),
    {
        let saved = self.snapshot();
        let r = self.refund_attempt(invoice_id, now);
        if r.is_err() {
            *self = saved;
        }
        r
    }

    /// `refund` up to the point where a failure is rolled back.
    fn refund_attempt(&mut self, invoice_id: u64, now: u64) -> (r: Result<Vec<Action>, SplitError>)
        ensures
            matches_outcome(r, final(self)@, refund_outcome(old(self)@, invoice_id, now)),
    {
        let inv = match self.check_refund(invoice_id, now) {
            Ok(i) => i,
            Err(e) => return Err(e),
        };
        let me = self.contract_address;
        if inv.auction_on_expiry {
            if inv.auction_end == 0 {
                let mut inv2 = inv;
                inv2.auction_end = now.saturating_add(86_400);
                self.put_invoice(invoice_id, inv2, false);
                self.append_audit(invoice_id, AuditAction::AuctionStarted, me, now);
                return Ok(Vec::new());
            } else if now <= inv.auction_end {
                return Err(SplitError::AuctionInProgress);
            } else {
                return Err(SplitError::AuctionEndedSettleAuction);
            }
        }
        let (mut acts, amount) = match refund_payers(invoice_id, &inv, me) {
            Ok(x) => x,
            Err(e) => return Err(e),
        };
        let creator = inv.creator;
        let c = self.account_of(creator);
        if self.stats.total_refunded.checked_add(amount).is_none() {
            return Err(SplitError::TotalRefundedOverflow);
        }
        if c.creator_refunded == u64::MAX {
            return Err(SplitError::CreatorRefundedOverflow);
        }
        let mut bonus = bonus_return_of(&inv, me);
        acts.append(&mut bonus);
        acts.push(Action::Emit { event: Event::InvoiceRefunded { invoice_id } });
        match inv.notification_contract {
            Some(nc) => {
                acts.push(Action::Notify { contract: nc, invoice_id, notice: Notice::Refund });
            },
            None => {},
        }
        let ghost sp = refund_outcome(old(self)@, invoice_id, now);
        assert(acts@ =~= sp->Ok_0.1);
        let mut inv2 = inv;
        inv2.status = InvoiceStatus::Refunded;
        inv2.completion_time = Some(now);
        self.store_refund(invoice_id, inv2, AuditAction::Refund, me, now, amount);
        self.accounts.insert(creator.0, AccountStats { creator_refunded: c.creator_refunded + 1, ..c });
        assert(self@ =~= sp->Ok_0.0);
        Ok(acts)
    }
}

/// Highest amount among the first `k` bids, starting from 0.
pub open spec fn highest_bid(bids: Seq<Bid>, k: nat) -> i128
    decreases k,
{
    if k == 0 {
        0
    } else {
        let m = highest_bid(bids, (k - 1) as nat);
        if bids[k - 1].amount > m { bids[k - 1].amount } else { m }
    }
}

/// Outcome of a bid of `amount` by `bidder` on the auction of invoice `id`.
pub open spec fn bid_outcome(s: SplitView, bidder: Address, id: u64, amount: i128, now: u64) -> Result<(SplitView, Seq<Action>), SplitError> {
    if s.paused {
        Err(SplitError::ContractIsPaused)
    } else if !s.invoices.contains_key(id) {
        Err(SplitError::InvoiceNotFound)
    } else {
        let inv = s.inv(id);
        if !inv.auction_on_expiry {
            Err(SplitError::AuctionNotEnabled)
        } else if inv.auction_end == 0 {
            Err(SplitError::AuctionNotStarted)
        } else if now > inv.auction_end {
            Err(SplitError::AuctionNotActive)
        } else if amount <= 0 {
            Err(SplitError::BidAmountMustBePositive)
        } else if amount <= highest_bid(inv.bids, inv.bids.len()) {
            Err(SplitError::BidMustBeHigherThanCurrentHighestBid)
        } else if inv.tokens.len() == 0 {
            Err(SplitError::NoToken)
        } else {
            Ok((
                SplitView {
                    invoices: s.invoices.insert(id, EntryView { invoice: InvoiceView { bids: inv.bids.push(Bid { bidder, amount }), ..inv }, archived: false }),
                    audit_logs: s.audit_logs.insert(id, s.log(id).push(AuditEntry { action: AuditAction::Bid, actor: bidder, timestamp: now })),
                    ..s
                },
                seq![
                    Action::RequireAuth { who: bidder },
                    Action::Transfer { token: inv.tokens[0], from: bidder, to: s.contract_address, amount },
                ],
            ))
        }
    }
}

/// The winning bid among the first `k`: the first of the highest, where
/// any bid beats having none.
pub open spec fn winning_bid(bids: Seq<Bid>, k: nat) -> Option<int>
    decreases k,
{
    if k == 0 {
        None
    } else {
        match winning_bid(bids, (k - 1) as nat) {
            None => Some(k - 1),
            Some(w) => if bids[k - 1].amount > bids[w].amount { Some(k - 1) } else { Some(w) },
        }
    }
}

/// Bids returned to the losers among the first `k`, in order.
pub open spec fn losing_bid_returns(bids: Seq<Bid>, winner: int, token: Address, me: Address, k: nat) -> Seq<Action>
    decreases k,
{
    if k == 0 {
        Seq::empty()
    } else {
        let prev = losing_bid_returns(bids, winner, token, me, (k - 1) as nat);
        if k - 1 != winner {
            prev.push(Action::Transfer { token, from: me, to: bids[k - 1].bidder, amount: bids[k - 1].amount })
        } else {
            prev
        }
    }
}

/// Outcome of settling the auction of invoice `id` after it ended: the
/// winner receives the funded amount and the other bids go back; with no
/// bids the payers are refunded.
pub open spec fn settle_outcome(s: SplitView, id: u64, now: u64) -> Result<(SplitView, Seq<Action>), SplitError> {
    if s.paused {
        Err(SplitError::ContractIsPaused)
    } else if !s.invoices.contains_key(id) {
        Err(SplitError::InvoiceNotFound)
    } else {
        let inv = s.inv(id);
        let me = s.contract_address;
        if !inv.auction_on_expiry {
            Err(SplitError::AuctionNotEnabled)
        } else if inv.auction_end == 0 {
            Err(SplitError::AuctionNotStarted)
        } else if now <= inv.auction_end {
            Err(SplitError::AuctionNotEnded)
        } else if inv.status != InvoiceStatus::Pending {
            Err(SplitError::InvoiceIsNotPending)
        } else if inv.tokens.len() == 0 {
            Err(SplitError::NoToken)
        } else {
            let token = inv.tokens[0];
            match winning_bid(inv.bids, inv.bids.len()) {
                Some(w) => Ok((
                    SplitView {
                        invoices: s.invoices.insert(id, EntryView { invoice: refunded(inv, now), archived: false }),
                        audit_logs: s.audit_logs.insert(id, s.log(id).push(AuditEntry { action: AuditAction::AuctionSettled, actor: me, timestamp: now })),
                        ..s
                    },
                    seq![Action::Transfer { token, from: me, to: inv.bids[w].bidder, amount: inv.funded }]
                        + losing_bid_returns(inv.bids, w, token, me, inv.bids.len()),
                )),
                None => match payer_refunds(id, inv, me) {
                    Err(e) => Err(e),
                    Ok((acts, amount)) => if !fits_i128(s.stats.total_refunded + amount) {
                        Err(SplitError::TotalRefundedOverflow)
                    } else {
                        Ok((
                            refund_state(s, id, refunded(inv, now), AuditAction::AuctionSettled, me, now, amount),
                            acts + bonus_return(inv, me),
                        ))
                    },
                },
            }
        }
    }
}

/// Highest bid amount, from 0; see `highest_bid`.
pub fn highest_bid_of(bids: &Vec<Bid>) -> (r: i128)
    ensures
        r == highest_bid(bids@, bids@.len()),
{
    let mut m: i128 = 0;
    let mut i: usize = 0;
    while i < bids.len()
        invariant
            i <= bids.len(),
            m == highest_bid(bids@, i as nat),
        decreases bids.len() - i,
    {
        if bids[i].amount > m {
            m = bids[i].amount;
        }
        i = i + 1;
    }
    m
}

/// Index of the winning bid; see `winning_bid`.
pub fn winning_bid_of(bids: &Vec<Bid>) -> (r: Option<usize>)
    ensures
        match winning_bid(bids@, bids@.len()) {
            Some(w) => r is Some && r->0 as int == w && 0 <= w < bids@.len(),
            None => r is None,
        },
{
    let mut w: Option<usize> = None;
    let mut i: usize = 0;
    while i < bids.len()
        invariant
            i <= bids.len(),
            match winning_bid(bids@, i as nat) {
                Some(x) => w is Some && w->0 as int == x && 0 <= x < i,
                None => w is None,
            },
        decreases bids.len() - i,
    {
        match w {
            None => {
                w = Some(i);
            },
            Some(x) => {
                if bids[i].amount > bids[x].amount {
                    w = Some(i);
                }
            },
        }
        i = i + 1;
    }
    w
}

/// Return of the losing bids; see `losing_bid_returns`.
pub fn losing_bid_returns_of(bids: &Vec<Bid>, winner: usize, token: Address, me: Address) -> (r: Vec<Action>)
    ensures
        r@ == losing_bid_returns(bids@, winner as int, token, me, bids@.len()),
{
    let mut acts: Vec<Action> = Vec::new();
    let mut i: usize = 0;
    while i < bids.len()
        invariant
            i <= bids.len(),
            acts@ == losing_bid_returns(bids@, winner as int, token, me, i as nat),
        decreases bids.len() - i,
    {
        if i != winner {
            acts.push(Action::Transfer { token, from: me, to: bids[i].bidder, amount: bids[i].amount });
        }
        i = i + 1;
    }
    acts
}

impl SplitContract {
    /// The stored invoice `id`, or the error of loading a missing one.
    pub(crate) fn load_invoice(&self, id: u64) -> (r: Result<Invoice, SplitError>)
        ensures
            match r {
                Ok(inv) => self@.invoices.contains_key(id) && inv@ == self@.inv(id),
                Err(e) => !self@.invoices.contains_key(id) && e == SplitError::InvoiceNotFound,
            },
    {
        assert(self@.invoices.dom() =~= self.invoices@.dom());
        match self.invoices.get(&id) {
            None => Err(SplitError::InvoiceNotFound),
            Some(e) => Ok(e.invoice.copy()),
        }
    }

    /// Bid `amount` on the auction of expired invoice `invoice_id`; the bid
    /// must beat the highest so far.
    pub fn place_bid(&mut self, bidder: Address, invoice_id: u64, amount: i128, now: u64) -> (r: Result<Vec<Action>, SplitError>)
        ensures
            match bid_outcome(old(self)@, bidder, invoice_id, amount, now) {
                Ok((s2, acts)) => r is Ok && r->Ok_0@ == acts && final(self)@ == s2,
                Err(e) => r == Err::<Vec<Action>, SplitError>(e) && final(self)@ == old(self)@,
            },
    {
        if self.paused {
            return Err(SplitError::ContractIsPaused);
        }
        let inv = match self.load_invoice(invoice_id) {
            Ok(i) => i,
            Err(e) => return Err(e),
        };
        if !inv.auction_on_expiry {
            return Err(SplitError::AuctionNotEnabled);
        }
        if inv.auction_end == 0 {
            return Err(SplitError::AuctionNotStarted);
        }
        if now > inv.auction_end {
            return Err(SplitError::AuctionNotActive);
        }
        if amount <= 0 {
            return Err(SplitError::BidAmountMustBePositive);
        }
        if amount <= highest_bid_of(&inv.bids) {
            return Err(SplitError::BidMustBeHigherThanCurrentHighestBid);
        }
        if inv.tokens.len() == 0 {
            return Err(SplitError::NoToken);
        }
        let mut acts: Vec<Action> = Vec::new();
        acts.push(Action::RequireAuth { who: bidder });
        acts.push(Action::Transfer { token: inv.tokens[0], from: bidder, to: self.contract_address, amount });
        let mut inv2 = inv;
        inv2.bids.push(Bid { bidder, amount });
        self.put_invoice(invoice_id, inv2, false);
        self.append_audit(invoice_id, AuditAction::Bid, bidder, now);
        Ok(acts)
    }

    /// Settle the auction of invoice `invoice_id` after it ended. A failed call
    /// changes nothing.
    pub fn settle_auction(&mut self, invoice_id: u64, now: u64) -> (r: Result<Vec<Action>, SplitError>)
        ensures
            exact_outcome(r, old(self)@, final(self)@, settle_outcome(old(self)@, invoice_id, now)),
    {
        let saved = self.snapshot();
        let r = self.settle_auction_attempt(invoice_id, now);
        if r.is_err() {
            *self = saved;
        }
        r
    }

    /// `settle_auction` up to the point where a failure is rolled back.
    fn settle_auction_attempt(&mut self, invoice_id: u64, now: u64) -> (r: Result<Vec<Action>, SplitError>)
        ensures
            matches_outcome(r, final(self)@, settle_outcome(old(self)@, invoice_id, now)),
    {
        if self.paused {
            return Err(SplitError::ContractIsPaused);
        }
        let inv = match self.load_invoice(invoice_id) {
            Ok(i) => i,
            Err(e) => return Err(e),
        };
        let me = self.contract_address;
        if !inv.auction_on_expiry {
            return Err(SplitError::AuctionNotEnabled);
        }
        if inv.auction_end == 0 {
            return Err(SplitError::AuctionNotStarted);
        }
        if now <= inv.auction_end {
            return Err(SplitError::AuctionNotEnded);
        }
        if inv.status != InvoiceStatus::Pending {
            return Err(SplitError::InvoiceIsNotPending);
        }
        if inv.tokens.len() == 0 {
            return Err(SplitError::NoToken);
        }
        let token = inv.tokens[0];
        let ghost sp = settle_outcome(old(self)@, invoice_id, now);
        match winning_bid_of(&inv.bids) {
            Some(w) => {
                let mut acts: Vec<Action> = Vec::new();
                acts.push(Action::Transfer { token, from: me, to: inv.bids[w].bidder, amount: inv.funded });
                let mut rest = losing_bid_returns_of(&inv.bids, w, token, me);
                acts.append(&mut rest);
                let mut inv2 = inv;
                inv2.status = InvoiceStatus::Refunded;
                inv2.completion_time = Some(now);
                self.put_invoice(invoice_id, inv2, false);
                self.append_audit(invoice_id, AuditAction::AuctionSettled, me, now);
                assert(self@ =~= sp->Ok_0.0);
                Ok(acts)
            },
            None => {
                let (mut acts, amount) = match refund_payers(invoice_id, &inv, me) {
                    Ok(x) => x,
                    Err(e) => return Err(e),
                };
                if self.stats.total_refunded.checked_add(amount).is_none() {
                    return Err(SplitError::TotalRefundedOverflow);
                }
                let mut bonus = bonus_return_of(&inv, me);
                acts.append(&mut bonus);
                let mut inv2 = inv;
                inv2.status = InvoiceStatus::Refunded;
                inv2.completion_time = Some(now);
                self.store_refund(invoice_id, inv2, AuditAction::AuctionSettled, me, now, amount);
                Ok(acts)
            },
        }
    }
}

/// Refunds of a cancellation for the first `k` payer totals: each payer
/// gets its total and, where the invoice holds an insurance fund, its
/// share `total * fund / funded` of it; the sum of the totals.
pub open spec fn cancel_refund_actions(token: Address, me: Address, totals: Seq<(Address, i128)>, fund: i128, funded: i128, k: nat) -> Result<(Seq<Action>, i128), SplitError>
    decreases k,
{
    if k == 0 {
        Ok((Seq::empty(), 0i128))
    } else {
        match cancel_refund_actions(token, me, totals, fund, funded, (k - 1) as nat) {
            Err(e) => Err(e),
            Ok((acts, sum)) => {
                let (payer, amount) = totals[k - 1];
                let refund = if fund > 0 {
                    match mul_div_spec(amount, fund, funded) {
                        None => None,
                        Some(p) => if fits_i128(amount + p) { Some((amount + p) as i128) } else { None },
                    }
                } else {
                    Some(amount)
                };
                match refund {
                    None => Err(SplitError::ArithmeticOverflow),
                    Some(r) => if !fits_i128(sum + amount) {
                        Err(SplitError::ArithmeticOverflow)
                    } else {
                        Ok((acts.push(Action::Transfer { token, from: me, to: payer, amount: r }), (sum + amount) as i128))
                    },
                }
            },
        }
    }
}

/// The checks of a cancellation of invoice `id` by `caller`; the invoice
/// and the authorizations the cancellation needs besides the caller's.
pub open spec fn cancel_checks(s: SplitView, caller: Address, id: u64) -> Result<(InvoiceView, Seq<Action>), SplitError> {
    if s.paused {
        Err(SplitError::ContractIsPaused)
    } else if !s.invoices.contains_key(id) {
        Err(SplitError::InvoiceNotFound)
    } else {
        let inv = s.inv(id);
        let a = s.account(caller);
        if inv.status != InvoiceStatus::Pending {
            Err(SplitError::InvoiceIsNotPending)
        } else if inv.creator_cosigner is None && inv.creator != caller {
            Err(SplitError::OnlyCreatorCanCancel)
        } else if a.invoices_created > 0 && s.max_cancel_bps > 0 && a.invoices_cancelled * 10_000 > u64::MAX {
            Err(SplitError::ArithmeticOverflow)
        } else if a.invoices_created > 0 && s.max_cancel_bps > 0 && (a.invoices_cancelled * 10_000) / (a.invoices_created as int) >= s.max_cancel_bps {
            Err(SplitError::CancellationRateTooHigh)
        } else {
            Ok((inv, match inv.creator_cosigner {
                Some(c) => seq![Action::RequireAuth { who: inv.creator }, Action::RequireAuth { who: c }],
                None => Seq::empty(),
            }))
        }
    }
}

/// The refunds of a cancelled invoice with payments, with its bonus pool
/// returned; the amount refunded and the refunded invoice.
pub open spec fn cancel_refunded(inv: InvoiceView, me: Address) -> Result<(Seq<Action>, i128, InvoiceView), SplitError> {
    match token_of(inv) {
        Err(e) => Err(e),
        Ok(token) => match payer_totals(inv.payments, inv.payments.len()) {
            None => Err(SplitError::ArithmeticOverflow),
            Some(t) => match cancel_refund_actions(token, me, t, inv.insurance_fund, inv.funded, t.len()) {
                Err(e) => Err(e),
                Ok((acts, amount)) => Ok((
                    acts + bonus_return(inv, me),
                    amount,
                    InvoiceView {
                        status: InvoiceStatus::Refunded,
                        insurance_fund: if inv.insurance_fund > 0 { 0 } else { inv.insurance_fund },
                        ..inv
                    },
                )),
            },
        },
    }
}

/// What a cancellation pays out: refunds where the invoice has funds, else
/// only the bonus pool; the amount refunded and the invoice it leaves.
pub open spec fn cancel_paid(inv: InvoiceView, me: Address) -> Result<(Seq<Action>, i128, InvoiceView), SplitError> {
    if inv.funded > 0 {
        cancel_refunded(inv, me)
    } else if inv.bonus_pool > 0 && inv.tokens.len() == 0 {
        Err(SplitError::NoToken)
    } else {
        Ok((bonus_return(inv, me), 0i128, InvoiceView { status: InvoiceStatus::Cancelled, ..inv }))
    }
}

/// Outcome of the cancellation of invoice `id` by `caller`: with payments,
/// every payer is refunded (with its share of the insurance fund) and the
/// invoice is refunded; without, it is cancelled. The bonus pool goes back
/// to the creator either way, and the caller's cancellations are counted.
pub open spec fn cancel_outcome(s: SplitView, caller: Address, id: u64, now: u64) -> Result<(SplitView, Seq<Action>), SplitError> {
    match cancel_checks(s, caller, id) {
        Err(e) => Err(e),
        Ok((inv, auths)) => {
            let me = s.contract_address;
            match cancel_paid(inv, me) {
                Err(e) => Err(e),
                Ok((acts, amount, inv2)) => {
                    let a = s.account(caller);
                    if !fits_i128(s.stats.total_refunded + amount) {
                        Err(SplitError::TotalRefundedOverflow)
                    } else if a.invoices_cancelled == u64::MAX {
                        Err(SplitError::ArithmeticOverflow)
                    } else {
                        let s1 = refund_state(s, id, inv2, AuditAction::Cancel, caller, now, amount);
                        Ok((
                            SplitView {
                                accounts: s1.accounts.insert(caller.0, AccountStats { invoices_cancelled: (a.invoices_cancelled + 1) as u64, ..a }),
                                ..s1
                            },
                            seq![Action::RequireAuth { who: caller }] + auths + acts,
                        ))
                    }
                },
            }
        },
    }
}

/// The first rule from index `i` on whose threshold `funded_bps` reaches.
pub open spec fn rule_from(rules: Seq<ResolveRule>, funded_bps: u32, i: int) -> Option<ResolveAction>
    decreases rules.len() - i,
{
    if i < 0 || i >= rules.len() {
        None
    } else if funded_bps >= rules[i].min_funded_bps {
        Some(rules[i].action)
    } else {
        rule_from(rules, funded_bps, i + 1)
    }
}

/// The checks of `auto_resolve`; the invoice and its funding in basis
/// points, `(funded * 10_000 / total) as u32`.
pub open spec fn auto_checks(s: SplitView, id: u64) -> Result<(InvoiceView, u32), SplitError> {
    if s.paused {
        Err(SplitError::ContractIsPaused)
    } else if !s.invoices.contains_key(id) {
        Err(SplitError::InvoiceNotFound)
    } else {
        let inv = s.inv(id);
        if inv.status != InvoiceStatus::Pending {
            Err(SplitError::InvoiceIsNotPending)
        } else if inv.auto_resolve_rules.len() == 0 {
            Err(SplitError::NoAutoResolveRulesDefined)
        } else {
            match total_of(inv) {
                Err(e) => Err(e),
                Ok(total) => if total <= 0 {
                    Err(SplitError::InvoiceTotalMustBePositive)
                } else if as_u128(inv.funded) * 10_000 > u128::MAX {
                    Err(SplitError::ArithmeticOverflow)
                } else {
                    Ok((inv, ((as_u128(inv.funded) * 10_000) / (total as int) % 0x1_0000_0000) as u32))
                },
            }
        }
    }
}

/// The refund branch of `auto_resolve`.
pub open spec fn auto_refund(s: SplitView, id: u64, inv: InvoiceView, now: u64) -> Result<(SplitView, Seq<Action>), SplitError> {
    let me = s.contract_address;
    match payer_refunds(id, inv, me) {
        Err(e) => Err(e),
        Ok((acts, amount)) => if !fits_i128(s.stats.total_refunded + amount) {
            Err(SplitError::TotalRefundedOverflow)
        } else {
            Ok((
                refund_state(s, id, refunded(inv, now), AuditAction::AutoRefund, me, now, amount),
                acts + seq![Action::Emit { event: Event::InvoiceRefunded { invoice_id: id } }] + notify_actions(inv, id, Notice::Refund),
            ))
        },
    }
}

/// Outcome of `auto_resolve` of invoice `id`: the first rule whose
/// threshold the funding reaches decides between a release and a refund.
pub open spec fn auto_outcome(s: SplitView, id: u64, now: u64, gov: bool) -> Result<(SplitView, Seq<Action>), SplitError> {
    match auto_checks(s, id) {
        Err(e) => Err(e),
        Ok((inv, fb)) => match rule_from(inv.auto_resolve_rules, fb, 0) {
            None => Err(SplitError::NoMatchingResolutionRule),
            Some(ResolveAction::Release) => release_dispatch(s, id, inv, s.contract_address, now, gov),
            Some(ResolveAction::Refund) => auto_refund(s, id, inv, now),
        },
    }
}

pub proof fn lemma_cancel_refund_err_persists(token: Address, me: Address, totals: Seq<(Address, i128)>, fund: i128, funded: i128, k: nat, n: nat)
    requires
        k <= n,
        cancel_refund_actions(token, me, totals, fund, funded, k) is Err,
    ensures
        cancel_refund_actions(token, me, totals, fund, funded, n) == cancel_refund_actions(token, me, totals, fund, funded, k),
    decreases n - k,
{
    if k < n {
        lemma_cancel_refund_err_persists(token, me, totals, fund, funded, k, (n - 1) as nat);
    }
}

/// Refunds of a cancellation; see `cancel_refund_actions`.
pub fn cancel_refunds(token: Address, me: Address, totals: &Vec<(Address, i128)>, fund: i128, funded: i128) -> (r: Result<(Vec<Action>, i128), SplitError>)
    ensures
        match (r, cancel_refund_actions(token, me, totals@, fund, funded, totals@.len())) {
            (Ok((a, sum)), Ok((sa, ssum))) => a@ == sa && sum == ssum,
            (Err(e), Err(se)) => e == se,
            _ => false,
        },
{
    let mut acts: Vec<Action> = Vec::new();
    let mut sum: i128 = 0;
    let mut k: usize = 0;
    while k < totals.len()
        invariant
            k <= totals.len(),
            cancel_refund_actions(token, me, totals@, fund, funded, k as nat) == Ok::<(Seq<Action>, i128), SplitError>((acts@, sum)),
        decreases totals.len() - k,
    {
        let (payer, amount) = totals[k];
        let refund = if fund > 0 {
            match mul_div(amount, fund, funded) {
                None => None,
                Some(p) => amount.checked_add(p),
            }
        } else {
            Some(amount)
        };
        let (rf, ns) = match (refund, sum.checked_add(amount)) {
            (Some(rf), Some(ns)) => (rf, ns),
            _ => {
                proof { lemma_cancel_refund_err_persists(token, me, totals@, fund, funded, (k + 1) as nat, totals@.len()); }
                return Err(SplitError::ArithmeticOverflow);
            },
        };
        acts.push(Action::Transfer { token, from: me, to: payer, amount: rf });
        sum = ns;
        k = k + 1;
    }
    Ok((acts, sum))
}

/// The first matching rule; see `rule_from`.
pub fn first_matching_rule(rules: &Vec<ResolveRule>, funded_bps: u32) -> (r: Option<ResolveAction>)
    ensures
        r == rule_from(rules@, funded_bps, 0),
{
    let mut i: usize = 0;
    while i < rules.len()
        invariant
            i <= rules.len(),
            rule_from(rules@, funded_bps, i as int) == rule_from(rules@, funded_bps, 0),
        decreases rules.len() - i,
    {
        if funded_bps >= rules[i].min_funded_bps {
            return Some(rules[i].action);
        }
        i = i + 1;
    }
    None
}

impl SplitContract {
    /// The checks of `cancel_invoice`; see `cancel_checks`.
    fn check_cancel(&self, caller: Address, id: u64) -> (r: Result<(Invoice, Vec<Action>), SplitError>)
        ensures
            match (r, cancel_checks(self@, caller, id)) {
                (Ok((inv, a)), Ok((si, sa))) => inv@ == si && a@ == sa,
                (Err(e), Err(se)) => e == se,
                _ => false,
            },
    {
        if self.paused {
            return Err(SplitError::ContractIsPaused);
        }
        let inv = match self.load_invoice(id) {
            Ok(i) => i,
            Err(e) => return Err(e),
        };
        let a = self.account_of(caller);
        if inv.status != InvoiceStatus::Pending {
            return Err(SplitError::InvoiceIsNotPending);
        }
        let mut auths: Vec<Action> = Vec::new();
        match inv.creator_cosigner {
            Some(c) => {
                auths.push(Action::RequireAuth { who: inv.creator });
                auths.push(Action::RequireAuth { who: c });
            },
            None => {
                if inv.creator != caller {
                    return Err(SplitError::OnlyCreatorCanCancel);
                }
            },
        }
        if a.invoices_created > 0 && self.max_cancel_bps > 0 {
            let scaled = match a.invoices_cancelled.checked_mul(10_000) {
                Some(x) => x,
                None => return Err(SplitError::ArithmeticOverflow),
            };
            if scaled / a.invoices_created >= self.max_cancel_bps as u64 {
                return Err(SplitError::CancellationRateTooHigh);
            }
        }
        assert(auths@ =~= cancel_checks(self@, caller, id)->Ok_0.1);
        Ok((inv, auths))
    }

    /// Refunds of a cancelled invoice with payments; see `cancel_refunded`.
    fn cancel_refund_payouts(&self, inv: Invoice) -> (r: Result<(Vec<Action>, i128, Invoice), SplitError>)
        ensures
            match (r, cancel_refunded(inv@, self@.contract_address)) {
                (Ok((a, amt, i2)), Ok((sa, samt, si))) => a@ == sa && amt == samt && i2@ == si,
                (Err(e), Err(se)) => e == se,
                _ => false,
            },
    {
        let me = self.contract_address;
        let token = match invoice_token(&inv) {
            Ok(t) => t,
            Err(e) => return Err(e),
        };
        let totals = match collect_payer_totals(&inv.payments) {
            Some(t) => t,
            None => return Err(SplitError::ArithmeticOverflow),
        };
        let (mut acts, amount) = match cancel_refunds(token, me, &totals, inv.insurance_fund, inv.funded) {
            Ok(x) => x,
            Err(e) => return Err(e),
        };
        let mut bonus = bonus_return_of(&inv, me);
        acts.append(&mut bonus);
        let mut inv2 = inv;
        inv2.status = InvoiceStatus::Refunded;
        if inv2.insurance_fund > 0 {
            inv2.insurance_fund = 0;
        }
        Ok((acts, amount, inv2))
    }

    /// What a cancellation pays out; see `cancel_paid`.
    fn cancel_payouts(&self, inv: Invoice) -> (r: Result<(Vec<Action>, i128, Invoice), SplitError>)
        ensures
            match (r, cancel_paid(inv@, self@.contract_address)) {
                (Ok((a, amt, i2)), Ok((sa, samt, si))) => a@ == sa && amt == samt && i2@ == si,
                (Err(e), Err(se)) => e == se,
                _ => false,
            },
    {
        let me = self.contract_address;
        if inv.funded > 0 {
            self.cancel_refund_payouts(inv)
        } else {
            if inv.bonus_pool > 0 && inv.tokens.len() == 0 {
                return Err(SplitError::NoToken);
            }
            let acts = if inv.bonus_pool > 0 { bonus_return_of(&inv, me) } else { Vec::new() };
            assert(acts@ =~= bonus_return(inv@, me));
            let mut inv2 = inv;
            inv2.status = InvoiceStatus::Cancelled;
            Ok((acts, 0, inv2))
        }
    }

    /// Cancel invoice `invoice_id` at `now` by `caller`: refund its payers, or
    /// cancel it where nothing was paid. A failed call changes nothing.
    pub fn cancel_invoice(&mut self, caller: Address, invoice_id: u64, now: u64) -> (r: Result<Vec<Action>, SplitError>)
        ensures
            exact_outcome(r, old(self)@, final(self)@, cancel_outcome(old(self)@, caller, invoice_id, now)),
    {
        let saved = self.snapshot();
        let r = self.cancel_invoice_attempt(caller, invoice_id, now);
        if r.is_err() {
            *self = saved;
        }
        r
    }

    /// `cancel_invoice` up to the point where a failure is rolled back.
    fn cancel_invoice_attempt(&mut self, caller: Address, invoice_id: u64, now: u64) -> (r: Result<Vec<Action>, SplitError>)
        ensures
            matches_outcome(r, final(self)@, cancel_outcome(old(self)@, caller, invoice_id, now)),
    {
        let (inv, auths) = match self.check_cancel(caller, invoice_id) {
            Ok(x) => x,
            Err(e) => return Err(e),
        };
        let (mut acts, amount, inv2) = match self.cancel_payouts(inv) {
            Ok(x) => x,
            Err(e) => return Err(e),
        };
        let a = self.account_of(caller);
        if self.stats.total_refunded.checked_add(amount).is_none() {
            return Err(SplitError::TotalRefundedOverflow);
        }
        if a.invoices_cancelled == u64::MAX {
            return Err(SplitError::ArithmeticOverflow);
        }
        let mut all: Vec<Action> = Vec::new();
        all.push(Action::RequireAuth { who: caller });
        let mut auths = auths;
        all.append(&mut auths);
        all.append(&mut acts);
        let ghost sp = cancel_outcome(old(self)@, caller, invoice_id, now);
        self.store_refund(invoice_id, inv2, AuditAction::Cancel, caller, now, amount);
        self.accounts.insert(caller.0, AccountStats { invoices_cancelled: a.invoices_cancelled + 1, ..a });
        assert(self@ =~= sp->Ok_0.0);
        assert(all@ =~= sp->Ok_0.1);
        Ok(all)
    }

    /// The checks of `auto_resolve`; see `auto_checks`.
    fn check_auto(&self, id: u64) -> (r: Result<(Invoice, u32), SplitError>)
        ensures
            match (r, auto_checks(self@, id)) {
                (Ok((inv, fb)), Ok((si, sfb))) => inv@ == si && fb == sfb,
                (Err(e), Err(se)) => e == se,
                _ => false,
            },
    {
        if self.paused {
            return Err(SplitError::ContractIsPaused);
        }
        let inv = match self.load_invoice(id) {
            Ok(i) => i,
            Err(e) => return Err(e),
        };
        if inv.status != InvoiceStatus::Pending {
            return Err(SplitError::InvoiceIsNotPending);
        }
        if inv.auto_resolve_rules.len() == 0 {
            return Err(SplitError::NoAutoResolveRulesDefined);
        }
        let total = match invoice_total(&inv) {
            Ok(t) => t,
            Err(e) => return Err(e),
        };
        if total <= 0 {
            return Err(SplitError::InvoiceTotalMustBePositive);
        }
        let q = match to_u128(inv.funded).checked_mul(10_000) {
            Some(x) => x,
            None => return Err(SplitError::ArithmeticOverflow),
        };
        let fb = ((q / (total as u128)) % 0x1_0000_0000) as u32;
        Ok((inv, fb))
    }

    /// Resolve invoice `invoice_id` by its first auto-resolve rule whose
    /// funding threshold is reached: release it, or refund its payers. A failed
    /// call changes nothing.
    pub fn auto_resolve(&mut self, invoice_id: u64, now: u64, governance_approved: bool) -> (r: Result<Vec<Action>, SplitError>)
        ensures
            exact_outcome(r, old(self)@, final(self)@, auto_outcome(old(self)@, invoice_id, now, governance_approved)),
    {
        let saved = self.snapshot();
        let r = self.auto_resolve_attempt(invoice_id, now, governance_approved);
        if r.is_err() {
            *self = saved;
        }
        r
    }

    /// `auto_resolve` up to the point where a failure is rolled back.
    fn auto_resolve_attempt(&mut self, invoice_id: u64, now: u64, governance_approved: bool) -> (r: Result<Vec<Action>, SplitError>)
        ensures
            matches_outcome(r, final(self)@, auto_outcome(old(self)@, invoice_id, now, governance_approved)),
    {
        let (inv, fb) = match self.check_auto(invoice_id) {
            Ok(x) => x,
            Err(e) => return Err(e),
        };
        let me = self.contract_address;
        match first_matching_rule(&inv.auto_resolve_rules, fb) {
            None => Err(SplitError::NoMatchingResolutionRule),
            Some(ResolveAction::Release) => self.dispatch_release(invoice_id, inv, me, now, governance_approved),
            Some(ResolveAction::Refund) => {
                let (mut acts, amount) = match refund_payers(invoice_id, &inv, me) {
                    Ok(x) => x,
                    Err(e) => return Err(e),
                };
                if self.stats.total_refunded.checked_add(amount).is_none() {
                    return Err(SplitError::TotalRefundedOverflow);
                }
                acts.push(Action::Emit { event: Event::InvoiceRefunded { invoice_id } });
                match inv.notification_contract {
                    Some(nc) => {
                        acts.push(Action::Notify { contract: nc, invoice_id, notice: Notice::Refund });
                    },
                    None => {},
                }
                let ghost sp = auto_refund(old(self)@, invoice_id, inv@, now);
                assert(acts@ =~= sp->Ok_0.1);
                let mut inv2 = inv;
                inv2.status = InvoiceStatus::Refunded;
                inv2.completion_time = Some(now);
                self.store_refund(invoice_id, inv2, AuditAction::AutoRefund, me, now, amount);
                Ok(acts)
            },
        }
    }
}

} // verus!
