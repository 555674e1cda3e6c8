//! Invoices made from other invoices: clones with overrides and rollovers
//! of expired invoices.

use vstd::prelude::*;
use crate::types::{Address, AuditAction, CloneOverrides, InvoiceStatus, OverflowBehavior};
use crate::invoice::{Invoice, InvoiceView};
use crate::effects::{Action, Event, SplitError};
use crate::state::{SplitContract, SplitView};
use crate::terms::{InvoiceTerms, TermsView, new_invoice_view, repeat_address, zeros};
use crate::create::{create_error, created_state, created_actions, index_invoice};
use crate::lifecycle::stored;
use crate::paths::logged;
use crate::refunds::refunded;
use crate::invoice::copy_vec;

verus! {

broadcast use vstd::std_specs::hash::group_hash_axioms;

/// Deepest chain of clones an invoice may start.
pub const MAX_CLONE_DEPTH: u32 = 5;

/// The overrides of a clone as mathematical values.
pub struct OverridesView {
    pub new_deadline: Option<u64>,
    pub new_amounts: Option<Seq<i128>>,
    pub new_recipients: Option<Seq<Address>>,
    pub new_overflow_behavior: Seq<OverflowBehavior>,
}

impl View for CloneOverrides {
    type V = OverridesView;

    open spec fn view(&self) -> OverridesView {
        OverridesView {
            new_deadline: self.new_deadline,
            new_amounts: match &self.new_amounts { Some(v) => Some(v@), None => None },
            new_recipients: match &self.new_recipients { Some(v) => Some(v@), None => None },
            new_overflow_behavior: self.new_overflow_behavior@,
        }
    }
}

/// The clone of `src` (invoice `source_id`) with recipients `rs`, amounts
/// `am`, deadline and overflow behaviour: funding, payments, claims and
/// release progress start afresh; everything else is copied.
pub open spec fn cloned_view(src: InvoiceView, source_id: u64, rs: Seq<Address>, am: Seq<i128>, deadline: u64, ob: OverflowBehavior, token: Address) -> InvoiceView {
    InvoiceView {
        recipients: rs,
        base_amounts: am,
        amounts: am,
        tokens: Seq::new(rs.len(), |i: int| token),
        deadline,
        funded: 0,
        status: InvoiceStatus::Pending,
        payments: Seq::empty(),
        claimed: Seq::new(rs.len(), |i: int| 0i128),
        released_bps: 0,
        completion_time: None,
        clone_depth: (src.clone_depth + 1) as u32,
        parent_invoice_id: Some(source_id),
        overflow_behavior: ob,
        ..src
    }
}

/// Outcome of cloning invoice `source_id` by its creator with overrides;
/// the clone's id.
pub open spec fn clone_outcome(s: SplitView, creator: Address, source_id: u64, ov: OverridesView) -> Result<(u64, SplitView, Seq<Action>), SplitError> {
    if s.paused {
        Err(SplitError::ContractIsPaused)
    } else if !s.invoices.contains_key(source_id) {
        Err(SplitError::InvoiceNotFound)
    } else {
        let src = s.inv(source_id);
        if src.creator != creator {
            Err(SplitError::NotInvoiceCreator)
        } else if src.clone_depth >= MAX_CLONE_DEPTH {
            Err(SplitError::MaxCloneDepthExceeded)
        } else if src.tokens.len() == 0 {
            Err(SplitError::NoToken)
        } else if s.invoice_counter == u64::MAX {
            Err(SplitError::ArithmeticOverflow)
        } else {
            let rs = match ov.new_recipients { Some(r) => r, None => src.recipients };
            let am = match ov.new_amounts { Some(a) => a, None => src.amounts };
            let deadline = match ov.new_deadline { Some(d) => d, None => src.deadline };
            let ob = if ov.new_overflow_behavior.len() > 0 { ov.new_overflow_behavior[0] } else { src.overflow_behavior };
            let id = (s.invoice_counter + 1) as u64;
            let s1 = stored(SplitView { invoice_counter: id, ..s }, id, cloned_view(src, source_id, rs, am, deadline, ob, src.tokens[0]));
            Ok((
                id,
                SplitView { recipient_invoice_ids: index_invoice(s1.recipient_invoice_ids, rs, id), ..s1 },
                seq![
                    Action::RequireAuth { who: creator },
                    Action::Emit { event: Event::InvoiceCloned { source_id, new_id: id } },
                ],
            ))
        }
    }
}

/// The terms a rollover creates its new invoice with: the old invoice's,
/// without a bonus pool or payer allowlist.
pub open spec fn rollover_terms(inv: InvoiceView) -> TermsView {
    TermsView {
        co_creators: inv.co_creators,
        allow_early_withdrawal: inv.allow_early_withdrawal,
        bonus_pool: 0,
        bonus_max_payers: 0,
        prerequisite_id: inv.prerequisite_id,
        tranches: inv.tranches,
        co_signers: inv.co_signers,
        required_signatures: inv.required_signatures,
        penalty_bps: inv.penalty_bps,
        penalty_deadline: inv.penalty_deadline,
        min_funding_bps: inv.min_funding_bps,
        release_stages: inv.release_stages,
        price_oracle: inv.price_oracle,
        swap_tokens: inv.swap_tokens,
        oracle_address: inv.oracle_address,
        tax_bps: inv.tax_bps,
        tax_authority: inv.tax_authority,
        insurance_premium_bps: inv.insurance_premium_bps,
        smart_route: inv.smart_route,
        notification_contract: inv.notification_contract,
        overflow_behavior: inv.overflow_behavior,
        convert_to_stream: inv.convert_to_stream,
        accepted_tokens: inv.accepted_tokens,
        forward_to: inv.forward_to,
        forward_invoice_id: inv.forward_invoice_id,
        creator_cosigner: inv.creator_cosigner,
        velocity_limit: inv.velocity_limit,
        velocity_window: inv.velocity_window,
        split_rules: inv.split_rules,
        auto_resolve_rules: inv.auto_resolve_rules,
        cross_chain_ref: inv.cross_chain_ref,
        allowed_payers: None,
        min_funding_amount: inv.min_funding_amount,
        payment_cooldown_secs: inv.payment_cooldown_secs,
        max_payments_per_window: inv.max_payments_per_window,
        payment_window_secs: inv.payment_window_secs,
        priorities: inv.priorities,
    }
}

/// Outcome of rolling over the expired invoice `id` by its creator: a new
/// invoice with the same recipients, amounts and token carries over its
/// payments and funding, and the old one is marked refunded without any
/// transfer. The new invoice's id.
pub open spec fn rollover_outcome(s: SplitView, caller: Address, id: u64, new_deadline: u64, now: u64, gov: bool) -> Result<(u64, SplitView, Seq<Action>), SplitError> {
    if s.paused {
        Err(SplitError::ContractIsPaused)
    } else if !s.invoices.contains_key(id) {
        Err(SplitError::InvoiceNotFound)
    } else {
        let inv = s.inv(id);
        if inv.status != InvoiceStatus::Pending {
            Err(SplitError::InvoiceIsNotPending)
        } else if inv.creator != caller {
            Err(SplitError::OnlyCreatorCanRolloverInvoice)
        } else if now <= inv.deadline {
            Err(SplitError::InvoiceDeadlineHasNotPassed)
        } else if new_deadline <= now {
            Err(SplitError::NewDeadlineMustBeInTheFuture)
        } else if inv.tokens.len() == 0 {
            Err(SplitError::NoToken)
        } else {
            let t = rollover_terms(inv);
            match create_error(s, now, inv.creator, inv.recipients, inv.amounts, new_deadline, t, gov) {
                Some(e) => Err(e),
                None => {
                    let nid = (s.invoice_counter + 1) as u64;
                    let s1 = created_state(s, inv.creator, inv.recipients, inv.amounts, inv.tokens[0], new_deadline, t);
                    let fresh = new_invoice_view(inv.creator, inv.recipients, inv.amounts, inv.tokens[0], new_deadline, t);
                    let s2 = stored(stored(s1, nid, InvoiceView { payments: inv.payments, funded: inv.funded, ..fresh }), id, refunded(inv, now));
                    Ok((
                        nid,
                        logged(logged(s2, id, AuditAction::Rollover, caller, now), nid, AuditAction::Rollover, caller, now),
                        seq![Action::RequireAuth { who: caller }] + created_actions(s, inv.creator, inv.amounts, inv.tokens[0], t),
                    ))
                },
            }
        }
    }
}

/// The clone of `src`; see `cloned_view`.
pub fn cloned_of(src: Invoice, source_id: u64, rs: Vec<Address>, am: Vec<i128>, deadline: u64, ob: OverflowBehavior, token: Address) -> (r: Invoice)
    requires
        src@.clone_depth < MAX_CLONE_DEPTH,
    ensures
        r@ == cloned_view(src@, source_id, rs@, am@, deadline, ob, token),
{
    let n = rs.len();
    let mut m = src;
    m.tokens = repeat_address(token, n);
    m.claimed = zeros(n);
    m.base_amounts = copy_vec(&am);
    m.recipients = rs;
    m.amounts = am;
    m.deadline = deadline;
    m.funded = 0;
    m.status = InvoiceStatus::Pending;
    m.payments = Vec::new();
    m.released_bps = 0;
    m.completion_time = None;
    m.clone_depth = m.clone_depth + 1;
    m.parent_invoice_id = Some(source_id);
    m.overflow_behavior = ob;
    assert(m@ =~= cloned_view(src@, source_id, rs@, am@, deadline, ob, token));
    m
}

/// The terms of a rollover; see `rollover_terms`.
pub fn rollover_terms_of(inv: &Invoice) -> (r: InvoiceTerms)
    ensures
        r@ == rollover_terms(inv@),
{
    let r = InvoiceTerms {
        co_creators: copy_vec(&inv.co_creators),
        allow_early_withdrawal: inv.allow_early_withdrawal,
        bonus_pool: 0,
        bonus_max_payers: 0,
        prerequisite_id: inv.prerequisite_id,
        tranches: copy_vec(&inv.tranches),
        co_signers: copy_vec(&inv.co_signers),
        required_signatures: inv.required_signatures,
        penalty_bps: inv.penalty_bps,
        penalty_deadline: inv.penalty_deadline,
        min_funding_bps: inv.min_funding_bps,
        release_stages: copy_vec(&inv.release_stages),
        price_oracle: inv.price_oracle,
        swap_tokens: copy_vec(&inv.swap_tokens),
        oracle_address: inv.oracle_address,
        tax_bps: inv.tax_bps,
        tax_authority: inv.tax_authority,
        insurance_premium_bps: inv.insurance_premium_bps,
        smart_route: inv.smart_route,
        notification_contract: inv.notification_contract,
        overflow_behavior: inv.overflow_behavior,
        convert_to_stream: inv.convert_to_stream,
        accepted_tokens: copy_vec(&inv.accepted_tokens),
        forward_to: inv.forward_to,
        forward_invoice_id: inv.forward_invoice_id,
        creator_cosigner: inv.creator_cosigner,
        velocity_limit: inv.velocity_limit,
        velocity_window: inv.velocity_window,
        split_rules: copy_vec(&inv.split_rules),
        auto_resolve_rules: copy_vec(&inv.auto_resolve_rules),
        cross_chain_ref: match &inv.cross_chain_ref { Some(x) => Some(x.clone()), None => None },
        allowed_payers: None,
        min_funding_amount: inv.min_funding_amount,
        payment_cooldown_secs: inv.payment_cooldown_secs,
        max_payments_per_window: inv.max_payments_per_window,
        payment_window_secs: inv.payment_window_secs,
        priorities: copy_vec(&inv.priorities),
    };
    assert(r@ =~= rollover_terms(inv@));
    r
}

impl SplitContract {
    /// Clone invoice `source_id`, by its creator, with `overrides`; returns
    /// the clone's id.
    pub fn clone_invoice(&mut self, creator: Address, source_id: u64, overrides: CloneOverrides) -> (r: Result<(u64, Vec<Action>), SplitError>)
        ensures
            match clone_outcome(old(self)@, creator, source_id, overrides@) {
                Ok((id, s2, acts)) => r is Ok && r->Ok_0.0 == id && r->Ok_0.1@ == acts && final(self)@ == s2,
                Err(e) => r == Err::<(u64, Vec<Action>), SplitError>(e) && final(self)@ == old(self)@,
            },
    {
        if self.paused {
            return Err(SplitError::ContractIsPaused);
        }
        let src = match self.load_invoice(source_id) {
            Ok(i) => i,
            Err(e) => return Err(e),
        };
        if src.creator != creator {
            return Err(SplitError::NotInvoiceCreator);
        }
        if src.clone_depth >= MAX_CLONE_DEPTH {
            return Err(SplitError::MaxCloneDepthExceeded);
        }
        if src.tokens.len() == 0 {
            return Err(SplitError::NoToken);
        }
        if self.invoice_counter == u64::MAX {
            return Err(SplitError::ArithmeticOverflow);
        }
        let token = src.tokens[0];
        let rs = match overrides.new_recipients {
            Some(r) => r,
            None => copy_vec(&src.recipients),
        };
        let am = match overrides.new_amounts {
            Some(a) => a,
            None => copy_vec(&src.amounts),
        };
        let deadline = match overrides.new_deadline {
            Some(d) => d,
            None => src.deadline,
        };
        let ob = if overrides.new_overflow_behavior.len() > 0 { overrides.new_overflow_behavior[0] } else { src.overflow_behavior };
        let id = self.invoice_counter + 1;
        self.invoice_counter = id;
        let rs_index = copy_vec(&rs);
        let inv = cloned_of(src, source_id, rs, am, deadline, ob, token);
        self.put_invoice(id, inv, false);
        self.index_recipients(&rs_index, id);
        let mut acts: Vec<Action> = Vec::new();
        acts.push(Action::RequireAuth { who: creator });
        acts.push(Action::Emit { event: Event::InvoiceCloned { source_id, new_id: id } });
        Ok((id, acts))
    }

    /// Give the stored invoice `nid` these payments and this funding.
    fn take_over_payments(&mut self, nid: u64, payments: Vec<crate::types::Payment>, funded: i128)
        requires
            old(self)@.invoices.contains_key(nid),
        ensures
            final(self)@ == stored(old(self)@, nid, InvoiceView { payments: payments@, funded, ..old(self)@.inv(nid) }),
    {
        let mut fresh = self.load_invoice(nid).unwrap();
        fresh.payments = payments;
        fresh.funded = funded;
        self.put_invoice(nid, fresh, false);
    }

    /// The bookkeeping of a rollover once invoice `nid` is created: it takes
    /// over the payments and funding of `inv` (invoice `id`), which is
    /// marked refunded; both log the rollover.
    fn finish_rollover(&mut self, id: u64, inv: Invoice, nid: u64, caller: Address, now: u64)
        requires
            old(self)@.invoices.contains_key(nid),
        ensures
            final(self)@ == logged(logged(stored(stored(old(self)@, nid, InvoiceView { payments: inv@.payments, funded: inv@.funded, ..old(self)@.inv(nid) }), id, refunded(inv@, now)), id, AuditAction::Rollover, caller, now), nid, AuditAction::Rollover, caller, now),
    {
        let payments = copy_vec(&inv.payments);
        self.take_over_payments(nid, payments, inv.funded);
        let mut old_inv = inv;
        old_inv.status = InvoiceStatus::Refunded;
        old_inv.completion_time = Some(now);
        self.put_invoice(id, old_inv, false);
        self.append_audit(id, AuditAction::Rollover, caller, now);
        self.append_audit(nid, AuditAction::Rollover, caller, now);
    }

    /// Roll the expired invoice `invoice_id` over to a new invoice with a
    /// new deadline, by its creator; returns the new invoice's id.
    /// `governance_approved` is the governance contract's answer for the new
    /// invoice, where one is set.
    pub fn rollover_invoice(&mut self, caller: Address, invoice_id: u64, new_deadline: u64, now: u64, governance_approved: bool) -> (r: Result<(u64, Vec<Action>), SplitError>)
        ensures
            match rollover_outcome(old(self)@, caller, invoice_id, new_deadline, now, governance_approved) {
                Ok((id, s2, acts)) => r is Ok && r->Ok_0.0 == id && r->Ok_0.1@ == acts && final(self)@ == s2,
                Err(e) => r == Err::<(u64, Vec<Action>), SplitError>(e) && final(self)@ == old(self)@,
            },
    {
        if self.paused {
            return Err(SplitError::ContractIsPaused);
        }
        let inv = match self.load_invoice(invoice_id) {
            Ok(i) => i,
            Err(e) => return Err(e),
        };
        if inv.status != InvoiceStatus::Pending {
            return Err(SplitError::InvoiceIsNotPending);
        }
        if inv.creator != caller {
            return Err(SplitError::OnlyCreatorCanRolloverInvoice);
        }
        if now <= inv.deadline {
            return Err(SplitError::InvoiceDeadlineHasNotPassed);
        }
        if new_deadline <= now {
            return Err(SplitError::NewDeadlineMustBeInTheFuture);
        }
        if inv.tokens.len() == 0 {
            return Err(SplitError::NoToken);
        }
        let t = rollover_terms_of(&inv);
        let (nid, created) = match self.create_inner(now, inv.creator, copy_vec(&inv.recipients), copy_vec(&inv.amounts), inv.tokens[0], new_deadline, t, governance_approved) {
            Ok(x) => x,
            Err(e) => return Err(e),
        };
        self.finish_rollover(invoice_id, inv, nid, caller, now);
        let mut acts: Vec<Action> = Vec::new();
        acts.push(Action::RequireAuth { who: caller });
        let mut created = created;
        acts.append(&mut created);
        Ok((nid, acts))
    }
}

} // verus!
