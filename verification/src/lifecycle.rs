//! Managing pending invoices: ownership, deadlines, recipients and split,
//! co-signatures, approval, pausing and admin freezes, the oracle
//! condition, and delegates.

use vstd::prelude::*;
use crate::types::{Address, AuditAction, AuditEntry, InvoiceStatus};
use crate::invoice::{Invoice, InvoiceView};
use crate::effects::{Action, Event, SplitError};
use crate::state::{EntryView, SplitContract, SplitView, lemma_map_values_insert, lemma_map_values_remove};
use crate::release::exact_outcome;
use crate::create::index_invoice;
use crate::admin::contains_address;
use crate::paths::logged;

verus! {

broadcast use vstd::std_specs::hash::group_hash_axioms;

/// `s` with invoice `id` stored as `inv` (in live storage).
pub open spec fn stored(s: SplitView, id: u64, inv: InvoiceView) -> SplitView {
    SplitView { invoices: s.invoices.insert(id, EntryView { invoice: inv, archived: false }), ..s }
}

/// Outcome of handing invoice `id` over to `new_creator`.
pub open spec fn transfer_outcome(s: SplitView, id: u64, new_creator: Address) -> Result<(SplitView, Seq<Action>), SplitError> {
    if s.paused {
        Err(SplitError::ContractIsPaused)
    } else if !s.invoices.contains_key(id) {
        Err(SplitError::InvoiceNotFound)
    } else if s.inv(id).status != InvoiceStatus::Pending {
        Err(SplitError::InvoiceIsNotPending)
    } else {
        Ok((stored(s, id, InvoiceView { creator: new_creator, ..s.inv(id) }), seq![Action::RequireAuth { who: s.inv(id).creator }]))
    }
}

/// Outcome of moving the deadline of invoice `id` to `new_deadline` by
/// `caller`: the creator or its delegate, or creator and co-signer together.
pub open spec fn extend_outcome(s: SplitView, id: u64, new_deadline: u64, caller: Address, now: u64) -> Result<(SplitView, Seq<Action>), SplitError> {
    if s.paused {
        Err(SplitError::ContractIsPaused)
    } else if !s.invoices.contains_key(id) {
        Err(SplitError::InvoiceNotFound)
    } else {
        let inv = s.inv(id);
        if inv.status != InvoiceStatus::Pending {
            Err(SplitError::InvoiceNotPending)
        } else if new_deadline <= inv.deadline {
            Err(SplitError::NewDeadlineMustBeAfterCurrentDeadline)
        } else if inv.creator_cosigner is None && inv.creator != caller
            && !(s.delegates.contains_key(id) && s.delegates[id] == caller) {
            Err(SplitError::NotAuthorized)
        } else {
            Ok((
                logged(stored(s, id, InvoiceView { deadline: new_deadline, ..inv }), id, AuditAction::Extend, caller, now),
                seq![Action::RequireAuth { who: caller }] + match inv.creator_cosigner {
                    Some(c) => seq![Action::RequireAuth { who: inv.creator }, Action::RequireAuth { who: c }],
                    None => Seq::empty(),
                },
            ))
        }
    }
}

/// Outcome of adding `recipient` with `amount` to invoice `id` by `caller`,
/// before any payment.
pub open spec fn add_recipient_outcome(s: SplitView, caller: Address, id: u64, recipient: Address, amount: i128, now: u64) -> Result<(SplitView, Seq<Action>), SplitError> {
    if s.paused {
        Err(SplitError::ContractIsPaused)
    } else if !s.invoices.contains_key(id) {
        Err(SplitError::InvoiceNotFound)
    } else {
        let inv = s.inv(id);
        if inv.status != InvoiceStatus::Pending {
            Err(SplitError::InvoiceIsNotPending)
        } else if inv.creator != caller {
            Err(SplitError::OnlyCreatorCanAddRecipients)
        } else if inv.funded != 0 {
            Err(SplitError::CannotAddRecipientAfterPaymentReceived)
        } else if amount <= 0 {
            Err(SplitError::AmountMustBePositive)
        } else if inv.tokens.len() == 0 {
            Err(SplitError::NoToken)
        } else {
            let s1 = logged(stored(s, id, InvoiceView {
                recipients: inv.recipients.push(recipient),
                amounts: inv.amounts.push(amount),
                tokens: inv.tokens.push(inv.tokens[0]),
                claimed: inv.claimed.push(0),
                ..inv
            }), id, AuditAction::AddRecipient, caller, now);
            Ok((
                SplitView { recipient_invoice_ids: index_invoice(s1.recipient_invoice_ids, seq![recipient], id), ..s1 },
                seq![
                    Action::RequireAuth { who: caller },
                    Action::Emit { event: Event::RecipientAdded { invoice_id: id, recipient, amount } },
                ],
            ))
        }
    }
}

/// Outcome of replacing the amounts of invoice `id` by `caller`, before any
/// payment.
pub open spec fn adjust_outcome(s: SplitView, caller: Address, id: u64, new_amounts: Seq<i128>, now: u64) -> Result<(SplitView, Seq<Action>), SplitError> {
    if s.paused {
        Err(SplitError::ContractIsPaused)
    } else if !s.invoices.contains_key(id) {
        Err(SplitError::InvoiceNotFound)
    } else {
        let inv = s.inv(id);
        if inv.status != InvoiceStatus::Pending {
            Err(SplitError::InvoiceIsNotPending)
        } else if inv.creator_cosigner is None && inv.creator != caller {
            Err(SplitError::OnlyCreatorCanAdjustSplit)
        } else if inv.funded != 0 {
            Err(SplitError::PaymentsAlreadyReceived)
        } else if new_amounts.len() != inv.recipients.len() {
            Err(SplitError::AmountsLengthMismatch)
        } else if exists|i: int| 0 <= i < new_amounts.len() && new_amounts[i] <= 0 {
            Err(SplitError::AmountsMustBePositive)
        } else {
            Ok((
                logged(stored(s, id, InvoiceView { amounts: new_amounts, ..inv }), id, AuditAction::AdjustSplit, caller, now),
                seq![Action::RequireAuth { who: caller }] + (match inv.creator_cosigner {
                    Some(c) => seq![Action::RequireAuth { who: inv.creator }, Action::RequireAuth { who: c }],
                    None => Seq::empty(),
                }) + seq![Action::Emit { event: Event::SplitAdjusted { invoice_id: id, creator: caller } }],
            ))
        }
    }
}

/// Outcome of the release approval of co-signer `signer` on invoice `id`.
pub open spec fn sign_outcome(s: SplitView, id: u64, signer: Address, now: u64) -> Result<(SplitView, Seq<Action>), SplitError> {
    if s.paused {
        Err(SplitError::ContractIsPaused)
    } else if !s.invoices.contains_key(id) {
        Err(SplitError::InvoiceNotFound)
    } else {
        let inv = s.inv(id);
        if inv.status != InvoiceStatus::Pending {
            Err(SplitError::InvoiceIsNotPending)
        } else if inv.co_signers.len() == 0 {
            Err(SplitError::NoCoSignersRequired)
        } else if !inv.co_signers.contains(signer) {
            Err(SplitError::NotAnAuthorizedCoSigner)
        } else if inv.signatures.contains(signer) {
            Err(SplitError::AlreadySigned)
        } else {
            Ok((
                logged(stored(s, id, InvoiceView { signatures: inv.signatures.push(signer), ..inv }), id, AuditAction::SignRelease, signer, now),
                seq![Action::RequireAuth { who: signer }],
            ))
        }
    }
}

/// Outcome of the approval of invoice `id` by its approver.
pub open spec fn approve_outcome(s: SplitView, id: u64, now: u64) -> Result<(SplitView, Seq<Action>), SplitError> {
    if s.paused {
        Err(SplitError::ContractIsPaused)
    } else if !s.invoices.contains_key(id) {
        Err(SplitError::InvoiceNotFound)
    } else {
        let inv = s.inv(id);
        match inv.approver {
            None => Err(SplitError::NoApproverSetOnThisInvoice),
            Some(a) => Ok((
                logged(stored(s, id, InvoiceView { approved: true, ..inv }), id, AuditAction::Approve, a, now),
                seq![Action::RequireAuth { who: a }],
            )),
        }
    }
}

/// Outcome of the confirmation of the condition of invoice `id` by its oracle.
pub open spec fn confirm_outcome(s: SplitView, id: u64, now: u64) -> Result<(SplitView, Seq<Action>), SplitError> {
    if s.paused {
        Err(SplitError::ContractIsPaused)
    } else if !s.invoices.contains_key(id) {
        Err(SplitError::InvoiceNotFound)
    } else {
        let inv = s.inv(id);
        match inv.oracle_address {
            None => Err(SplitError::NoOracleSetForInvoice),
            Some(o) => Ok((
                logged(stored(s, id, InvoiceView { condition_met: true, ..inv }), id, AuditAction::OracleConfirmed, o, now),
                seq![Action::RequireAuth { who: o }],
            )),
        }
    }
}

/// Whether `who` is the creator or a co-creator of `inv`.
pub open spec fn is_creator(inv: InvoiceView, who: Address) -> bool {
    inv.creator == who || inv.co_creators.contains(who)
}

/// Outcome of pausing invoice `id` by its creator or a co-creator, with a
/// reason and an optional time at which it resumes by itself.
pub open spec fn pause_outcome(s: SplitView, creator: Address, id: u64, reason: Seq<char>, auto_resume_at: Option<u64>, now: u64) -> Result<(SplitView, Seq<Action>), SplitError> {
    if s.paused {
        Err(SplitError::ContractIsPaused)
    } else if !s.invoices.contains_key(id) {
        Err(SplitError::InvoiceNotFound)
    } else {
        let inv = s.inv(id);
        if !is_creator(inv, creator) {
            Err(SplitError::OnlyCreatorCanPauseInvoice)
        } else if inv.status != InvoiceStatus::Pending {
            Err(SplitError::InvoiceIsNotPending)
        } else if inv.frozen {
            Err(SplitError::InvoiceIsAlreadyFrozen)
        } else {
            Ok((
                logged(stored(s, id, InvoiceView { frozen: true, pause_reason: Some(reason), auto_resume_at, ..inv }), id, AuditAction::Paused, creator, now),
                seq![
                    Action::RequireAuth { who: creator },
                    Action::Emit { event: Event::InvoicePaused { invoice_id: id, creator, auto_resume_at } },
                ],
            ))
        }
    }
}

/// `inv` unfrozen, with its reason and auto-resume time cleared.
pub open spec fn unfrozen(inv: InvoiceView) -> InvoiceView {
    InvoiceView { frozen: false, pause_reason: None, auto_resume_at: None, ..inv }
}

/// Outcome of resuming invoice `id` by its creator or a co-creator.
pub open spec fn resume_outcome(s: SplitView, creator: Address, id: u64, now: u64) -> Result<(SplitView, Seq<Action>), SplitError> {
    if s.paused {
        Err(SplitError::ContractIsPaused)
    } else if !s.invoices.contains_key(id) {
        Err(SplitError::InvoiceNotFound)
    } else {
        let inv = s.inv(id);
        if !is_creator(inv, creator) {
            Err(SplitError::OnlyCreatorCanResumeInvoice)
        } else if !inv.frozen {
            Err(SplitError::InvoiceIsNotFrozen)
        } else {
            Ok((
                logged(stored(s, id, unfrozen(inv)), id, AuditAction::Resumed, creator, now),
                seq![
                    Action::RequireAuth { who: creator },
                    Action::Emit { event: Event::InvoiceResumed { invoice_id: id, creator } },
                ],
            ))
        }
    }
}

/// Outcome of the admin resuming invoice `id`, whoever paused it.
pub open spec fn force_resume_outcome(s: SplitView, id: u64, now: u64) -> Result<(SplitView, Seq<Action>), SplitError> {
    match s.admin {
        None => Err(SplitError::AdminNotSet),
        Some(a) => if !s.invoices.contains_key(id) {
            Err(SplitError::InvoiceNotFound)
        } else if !s.inv(id).frozen {
            Err(SplitError::InvoiceIsNotFrozen)
        } else {
            Ok((
                logged(stored(s, id, unfrozen(s.inv(id))), id, AuditAction::ForceResumed, a, now),
                seq![
                    Action::RequireAuth { who: a },
                    Action::Emit { event: Event::InvoiceForceResumed { invoice_id: id, admin: a } },
                ],
            ))
        },
    }
}

/// Outcome of the admin freezing invoice `id` with a reason.
pub open spec fn admin_freeze_outcome(s: SplitView, id: u64, reason: Seq<char>, now: u64) -> Result<(SplitView, Seq<Action>), SplitError> {
    match s.admin {
        None => Err(SplitError::AdminNotSet),
        Some(a) => if !s.invoices.contains_key(id) {
            Err(SplitError::InvoiceNotFound)
        } else if s.inv(id).status != InvoiceStatus::Pending {
            Err(SplitError::InvoiceIsNotPending)
        } else if s.inv(id).admin_frozen {
            Err(SplitError::InvoiceAlreadyFrozenByAdmin)
        } else {
            Ok((
                logged(stored(s, id, InvoiceView { admin_frozen: true, pause_reason: Some(reason), ..s.inv(id) }), id, AuditAction::AdminFrozen, a, now),
                seq![
                    Action::RequireAuth { who: a },
                    Action::Emit { event: Event::InvoiceAdminFrozen { invoice_id: id, admin: a } },
                ],
            ))
        },
    }
}

/// Outcome of the admin lifting its freeze of invoice `id`; the reason is
/// cleared unless the creator's pause still holds.
pub open spec fn admin_unfreeze_outcome(s: SplitView, id: u64, now: u64) -> Result<(SplitView, Seq<Action>), SplitError> {
    match s.admin {
        None => Err(SplitError::AdminNotSet),
        Some(a) => if !s.invoices.contains_key(id) {
            Err(SplitError::InvoiceNotFound)
        } else if !s.inv(id).admin_frozen {
            Err(SplitError::InvoiceIsNotFrozenByAdmin)
        } else {
            let inv = s.inv(id);
            Ok((
                logged(stored(s, id, InvoiceView {
                    admin_frozen: false,
                    pause_reason: if inv.frozen { inv.pause_reason } else { None },
                    ..inv
                }), id, AuditAction::AdminUnfrozen, a, now),
                seq![
                    Action::RequireAuth { who: a },
                    Action::Emit { event: Event::InvoiceAdminUnfrozen { invoice_id: id, admin: a } },
                ],
            ))
        },
    }
}

/// Outcome of naming `delegate` for invoice `id`, by its creator.
pub open spec fn delegate_outcome(s: SplitView, id: u64, delegate: Address, now: u64) -> Result<(SplitView, Seq<Action>), SplitError> {
    if !s.invoices.contains_key(id) {
        Err(SplitError::InvoiceNotFound)
    } else {
        let c = s.inv(id).creator;
        Ok((
            logged(SplitView { delegates: s.delegates.insert(id, delegate), ..s }, id, AuditAction::Delegate, c, now),
            seq![
                Action::RequireAuth { who: c },
                Action::Emit { event: Event::DelegateSet { invoice_id: id, delegate } },
            ],
        ))
    }
}

/// Outcome of removing the delegate of invoice `id`, by its creator.
pub open spec fn revoke_outcome(s: SplitView, id: u64, now: u64) -> Result<(SplitView, Seq<Action>), SplitError> {
    if !s.invoices.contains_key(id) {
        Err(SplitError::InvoiceNotFound)
    } else {
        let c = s.inv(id).creator;
        Ok((
            logged(SplitView { delegates: s.delegates.remove(id), ..s }, id, AuditAction::RevokeDelegate, c, now),
            seq![
                Action::RequireAuth { who: c },
                Action::Emit { event: Event::DelegateRevoked { invoice_id: id } },
            ],
        ))
    }
}

/// Outcome of `beneficiary` allowing `delegate` to pay on its behalf.
pub open spec fn authorise_outcome(s: SplitView, beneficiary: Address, delegate: Address) -> Result<(SplitView, Seq<Action>), SplitError> {
    let ds = if s.pay_delegates.contains_key(beneficiary.0) { s.pay_delegates[beneficiary.0] } else { Seq::empty() };
    if s.paused {
        Err(SplitError::ContractIsPaused)
    } else if ds.contains(delegate) {
        Ok((s, seq![Action::RequireAuth { who: beneficiary }]))
    } else {
        Ok((
            SplitView { pay_delegates: s.pay_delegates.insert(beneficiary.0, ds.push(delegate)), ..s },
            seq![Action::RequireAuth { who: beneficiary }],
        ))
    }
}

impl SplitContract {
    /// Hand invoice `invoice_id` over to `new_creator`; needs the current
    /// creator's authorization.
    pub fn transfer_invoice(&mut self, invoice_id: u64, new_creator: Address) -> (r: Result<Vec<Action>, SplitError>)
        ensures
            exact_outcome(r, old(self)@, final(self)@, transfer_outcome(old(self)@, invoice_id, new_creator)),
    {
        if self.paused {
            return Err(SplitError::ContractIsPaused);
        }
        let inv = match self.load_invoice(invoice_id) {
            Ok(i) => i,
            Err(e) => return Err(e),
        };
        if inv.status != InvoiceStatus::Pending {
            return Err(SplitError::InvoiceIsNotPending);
        }
        let mut acts: Vec<Action> = Vec::new();
        acts.push(Action::RequireAuth { who: inv.creator });
        let mut inv2 = inv;
        inv2.creator = new_creator;
        self.put_invoice(invoice_id, inv2, false);
        Ok(acts)
    }

    /// Move the deadline of invoice `invoice_id` later, by its creator or
    /// delegate (or creator and co-signer together where one is set).
    pub fn extend_deadline(&mut self, invoice_id: u64, new_deadline: u64, caller: Address, now: u64) -> (r: Result<Vec<Action>, SplitError>)
        ensures
            exact_outcome(r, old(self)@, final(self)@, extend_outcome(old(self)@, invoice_id, new_deadline, caller, now)),
    {
        if self.paused {
            return Err(SplitError::ContractIsPaused);
        }
        let inv = match self.load_invoice(invoice_id) {
            Ok(i) => i,
            Err(e) => return Err(e),
        };
        if inv.status != InvoiceStatus::Pending {
            return Err(SplitError::InvoiceNotPending);
        }
        if new_deadline <= inv.deadline {
            return Err(SplitError::NewDeadlineMustBeAfterCurrentDeadline);
        }
        let mut acts: Vec<Action> = Vec::new();
        acts.push(Action::RequireAuth { who: caller });
        match inv.creator_cosigner {
            Some(c) => {
                acts.push(Action::RequireAuth { who: inv.creator });
                acts.push(Action::RequireAuth { who: c });
            },
            None => {
                let is_delegate = match self.delegates.get(&invoice_id) {
                    Some(d) => *d == caller,
                    None => false,
                };
                if inv.creator != caller && !is_delegate {
                    return Err(SplitError::NotAuthorized);
                }
            },
        }
        let ghost sp = extend_outcome(old(self)@, invoice_id, new_deadline, caller, now);
        assert(acts@ =~= sp->Ok_0.1);
        let mut inv2 = inv;
        inv2.deadline = new_deadline;
        self.put_invoice(invoice_id, inv2, false);
        self.append_audit(invoice_id, AuditAction::Extend, caller, now);
        Ok(acts)
    }

    /// Add `recipient` with `amount` to invoice `invoice_id`, by its
    /// creator, before any payment.
    pub fn add_recipient(&mut self, caller: Address, invoice_id: u64, recipient: Address, amount: i128, now: u64) -> (r: Result<Vec<Action>, SplitError>)
        ensures
            exact_outcome(r, old(self)@, final(self)@, add_recipient_outcome(old(self)@, caller, invoice_id, recipient, amount, now)),
    {
        if self.paused {
            return Err(SplitError::ContractIsPaused);
        }
        let inv = match self.load_invoice(invoice_id) {
            Ok(i) => i,
            Err(e) => return Err(e),
        };
        if inv.status != InvoiceStatus::Pending {
            return Err(SplitError::InvoiceIsNotPending);
        }
        if inv.creator != caller {
            return Err(SplitError::OnlyCreatorCanAddRecipients);
        }
        if inv.funded != 0 {
            return Err(SplitError::CannotAddRecipientAfterPaymentReceived);
        }
        if amount <= 0 {
            return Err(SplitError::AmountMustBePositive);
        }
        if inv.tokens.len() == 0 {
            return Err(SplitError::NoToken);
        }
        let token = inv.tokens[0];
        let mut inv2 = inv;
        inv2.recipients.push(recipient);
        inv2.amounts.push(amount);
        inv2.tokens.push(token);
        inv2.claimed.push(0);
        self.put_invoice(invoice_id, inv2, false);
        self.append_audit(invoice_id, AuditAction::AddRecipient, caller, now);
        let mut one: Vec<Address> = Vec::new();
        one.push(recipient);
        assert(one@ =~= seq![recipient]);
        self.index_recipients(&one, invoice_id);
        let mut acts: Vec<Action> = Vec::new();
        acts.push(Action::RequireAuth { who: caller });
        acts.push(Action::Emit { event: Event::RecipientAdded { invoice_id, recipient, amount } });
        assert(acts@ =~= add_recipient_outcome(old(self)@, caller, invoice_id, recipient, amount, now)->Ok_0.1);
        Ok(acts)
    }

    /// Replace the amounts of invoice `invoice_id`, by its creator (or
    /// creator and co-signer), before any payment.
    pub fn adjust_split(&mut self, caller: Address, invoice_id: u64, new_amounts: Vec<i128>, now: u64) -> (r: Result<Vec<Action>, SplitError>)
        ensures
            exact_outcome(r, old(self)@, final(self)@, adjust_outcome(old(self)@, caller, invoice_id, new_amounts@, now)),
    {
        if self.paused {
            return Err(SplitError::ContractIsPaused);
        }
        let inv = match self.load_invoice(invoice_id) {
            Ok(i) => i,
            Err(e) => return Err(e),
        };
        if inv.status != InvoiceStatus::Pending {
            return Err(SplitError::InvoiceIsNotPending);
        }
        let mut acts: Vec<Action> = Vec::new();
        acts.push(Action::RequireAuth { who: caller });
        match inv.creator_cosigner {
            Some(c) => {
                acts.push(Action::RequireAuth { who: inv.creator });
                acts.push(Action::RequireAuth { who: c });
            },
            None => {
                if inv.creator != caller {
                    return Err(SplitError::OnlyCreatorCanAdjustSplit);
                }
            },
        }
        if inv.funded != 0 {
            return Err(SplitError::PaymentsAlreadyReceived);
        }
        if new_amounts.len() != inv.recipients.len() {
            return Err(SplitError::AmountsLengthMismatch);
        }
        if !crate::create::all_positive(&new_amounts) {
            return Err(SplitError::AmountsMustBePositive);
        }
        acts.push(Action::Emit { event: Event::SplitAdjusted { invoice_id, creator: caller } });
        let ghost sp = adjust_outcome(old(self)@, caller, invoice_id, new_amounts@, now);
        assert(acts@ =~= sp->Ok_0.1);
        let mut inv2 = inv;
        inv2.amounts = new_amounts;
        self.put_invoice(invoice_id, inv2, false);
        self.append_audit(invoice_id, AuditAction::AdjustSplit, caller, now);
        Ok(acts)
    }

    /// Record the release approval of co-signer `signer` on invoice
    /// `invoice_id`.
    pub fn sign_release(&mut self, invoice_id: u64, signer: Address, now: u64) -> (r: Result<Vec<Action>, SplitError>)
        ensures
            exact_outcome(r, old(self)@, final(self)@, sign_outcome(old(self)@, invoice_id, signer, now)),
    {
        if self.paused {
            return Err(SplitError::ContractIsPaused);
        }
        let inv = match self.load_invoice(invoice_id) {
            Ok(i) => i,
            Err(e) => return Err(e),
        };
        if inv.status != InvoiceStatus::Pending {
            return Err(SplitError::InvoiceIsNotPending);
        }
        if inv.co_signers.len() == 0 {
            return Err(SplitError::NoCoSignersRequired);
        }
        if !contains_address(&inv.co_signers, signer) {
            return Err(SplitError::NotAnAuthorizedCoSigner);
        }
        if contains_address(&inv.signatures, signer) {
            return Err(SplitError::AlreadySigned);
        }
        let mut inv2 = inv;
        inv2.signatures.push(signer);
        self.put_invoice(invoice_id, inv2, false);
        self.append_audit(invoice_id, AuditAction::SignRelease, signer, now);
        let mut acts: Vec<Action> = Vec::new();
        acts.push(Action::RequireAuth { who: signer });
        Ok(acts)
    }

    /// Approve invoice `invoice_id`; needs its approver's authorization.
    pub fn approve_invoice(&mut self, invoice_id: u64, now: u64) -> (r: Result<Vec<Action>, SplitError>)
        ensures
            exact_outcome(r, old(self)@, final(self)@, approve_outcome(old(self)@, invoice_id, now)),
    {
        if self.paused {
            return Err(SplitError::ContractIsPaused);
        }
        let inv = match self.load_invoice(invoice_id) {
            Ok(i) => i,
            Err(e) => return Err(e),
        };
        let a = match inv.approver {
            Some(a) => a,
            None => return Err(SplitError::NoApproverSetOnThisInvoice),
        };
        let mut inv2 = inv;
        inv2.approved = true;
        self.put_invoice(invoice_id, inv2, false);
        self.append_audit(invoice_id, AuditAction::Approve, a, now);
        let mut acts: Vec<Action> = Vec::new();
        acts.push(Action::RequireAuth { who: a });
        Ok(acts)
    }

    /// Confirm the condition of invoice `invoice_id`; needs its oracle's
    /// authorization.
    pub fn confirm_condition(&mut self, invoice_id: u64, now: u64) -> (r: Result<Vec<Action>, SplitError>)
        ensures
            exact_outcome(r, old(self)@, final(self)@, confirm_outcome(old(self)@, invoice_id, now)),
    {
        if self.paused {
            return Err(SplitError::ContractIsPaused);
        }
        let inv = match self.load_invoice(invoice_id) {
            Ok(i) => i,
            Err(e) => return Err(e),
        };
        let o = match inv.oracle_address {
            Some(o) => o,
            None => return Err(SplitError::NoOracleSetForInvoice),
        };
        let mut inv2 = inv;
        inv2.condition_met = true;
        self.put_invoice(invoice_id, inv2, false);
        self.append_audit(invoice_id, AuditAction::OracleConfirmed, o, now);
        let mut acts: Vec<Action> = Vec::new();
        acts.push(Action::RequireAuth { who: o });
        Ok(acts)
    }

    /// Pause invoice `invoice_id` by its creator or a co-creator, with a
    /// reason and an optional time at which it resumes by itself.
    pub fn pause_invoice(&mut self, creator: Address, invoice_id: u64, reason: String, auto_resume_at: Option<u64>, now: u64) -> (r: Result<Vec<Action>, SplitError>)
        ensures
            exact_outcome(r, old(self)@, final(self)@, pause_outcome(old(self)@, creator, invoice_id, reason@, auto_resume_at, now)),
    {
        if self.paused {
            return Err(SplitError::ContractIsPaused);
        }
        let inv = match self.load_invoice(invoice_id) {
            Ok(i) => i,
            Err(e) => return Err(e),
        };
        if !(inv.creator == creator || contains_address(&inv.co_creators, creator)) {
            return Err(SplitError::OnlyCreatorCanPauseInvoice);
        }
        if inv.status != InvoiceStatus::Pending {
            return Err(SplitError::InvoiceIsNotPending);
        }
        if inv.frozen {
            return Err(SplitError::InvoiceIsAlreadyFrozen);
        }
        let mut inv2 = inv;
        inv2.frozen = true;
        inv2.pause_reason = Some(reason);
        inv2.auto_resume_at = auto_resume_at;
        self.put_invoice(invoice_id, inv2, false);
        self.append_audit(invoice_id, AuditAction::Paused, creator, now);
        let mut acts: Vec<Action> = Vec::new();
        acts.push(Action::RequireAuth { who: creator });
        acts.push(Action::Emit { event: Event::InvoicePaused { invoice_id, creator, auto_resume_at } });
        assert(acts@ =~= pause_outcome(old(self)@, creator, invoice_id, reason@, auto_resume_at, now)->Ok_0.1);
        Ok(acts)
    }

    /// Resume invoice `invoice_id` by its creator or a co-creator.
    pub fn resume_invoice(&mut self, creator: Address, invoice_id: u64, now: u64) -> (r: Result<Vec<Action>, SplitError>)
        ensures
            exact_outcome(r, old(self)@, final(self)@, resume_outcome(old(self)@, creator, invoice_id, now)),
    {
        if self.paused {
            return Err(SplitError::ContractIsPaused);
        }
        let inv = match self.load_invoice(invoice_id) {
            Ok(i) => i,
            Err(e) => return Err(e),
        };
        if !(inv.creator == creator || contains_address(&inv.co_creators, creator)) {
            return Err(SplitError::OnlyCreatorCanResumeInvoice);
        }
        if !inv.frozen {
            return Err(SplitError::InvoiceIsNotFrozen);
        }
        let mut inv2 = inv;
        inv2.frozen = false;
        inv2.pause_reason = None;
        inv2.auto_resume_at = None;
        self.put_invoice(invoice_id, inv2, false);
        self.append_audit(invoice_id, AuditAction::Resumed, creator, now);
        let mut acts: Vec<Action> = Vec::new();
        acts.push(Action::RequireAuth { who: creator });
        acts.push(Action::Emit { event: Event::InvoiceResumed { invoice_id, creator } });
        assert(acts@ =~= resume_outcome(old(self)@, creator, invoice_id, now)->Ok_0.1);
        Ok(acts)
    }

    /// Resume invoice `invoice_id` as the admin, whoever paused it.
    pub fn admin_force_resume(&mut self, admin: Address, invoice_id: u64, now: u64) -> (r: Result<Vec<Action>, SplitError>)
        ensures
            exact_outcome(r, old(self)@, final(self)@, force_resume_outcome(old(self)@, invoice_id, now)),
    {
        let a = match self.require_admin() {
            Ok(a) => a,
            Err(e) => return Err(e),
        };
        let inv = match self.load_invoice(invoice_id) {
            Ok(i) => i,
            Err(e) => return Err(e),
        };
        if !inv.frozen {
            return Err(SplitError::InvoiceIsNotFrozen);
        }
        let mut inv2 = inv;
        inv2.frozen = false;
        inv2.pause_reason = None;
        inv2.auto_resume_at = None;
        self.put_invoice(invoice_id, inv2, false);
        self.append_audit(invoice_id, AuditAction::ForceResumed, a, now);
        let mut acts: Vec<Action> = Vec::new();
        acts.push(Action::RequireAuth { who: a });
        acts.push(Action::Emit { event: Event::InvoiceForceResumed { invoice_id, admin: a } });
        assert(acts@ =~= force_resume_outcome(old(self)@, invoice_id, now)->Ok_0.1);
        Ok(acts)
    }

    /// Freeze invoice `invoice_id` as the admin, with a reason.
    pub fn admin_freeze(&mut self, admin: Address, invoice_id: u64, reason: String, now: u64) -> (r: Result<Vec<Action>, SplitError>)
        ensures
            exact_outcome(r, old(self)@, final(self)@, admin_freeze_outcome(old(self)@, invoice_id, reason@, now)),
    {
        let a = match self.require_admin() {
            Ok(a) => a,
            Err(e) => return Err(e),
        };
        let inv = match self.load_invoice(invoice_id) {
            Ok(i) => i,
            Err(e) => return Err(e),
        };
        if inv.status != InvoiceStatus::Pending {
            return Err(SplitError::InvoiceIsNotPending);
        }
        if inv.admin_frozen {
            return Err(SplitError::InvoiceAlreadyFrozenByAdmin);
        }
        let mut inv2 = inv;
        inv2.admin_frozen = true;
        inv2.pause_reason = Some(reason);
        self.put_invoice(invoice_id, inv2, false);
        self.append_audit(invoice_id, AuditAction::AdminFrozen, a, now);
        let mut acts: Vec<Action> = Vec::new();
        acts.push(Action::RequireAuth { who: a });
        acts.push(Action::Emit { event: Event::InvoiceAdminFrozen { invoice_id, admin: a } });
        assert(acts@ =~= admin_freeze_outcome(old(self)@, invoice_id, reason@, now)->Ok_0.1);
        Ok(acts)
    }

    /// Lift the admin's freeze of invoice `invoice_id`.
    pub fn admin_unfreeze(&mut self, admin: Address, invoice_id: u64, now: u64) -> (r: Result<Vec<Action>, SplitError>)
        ensures
            exact_outcome(r, old(self)@, final(self)@, admin_unfreeze_outcome(old(self)@, invoice_id, now)),
    {
        let a = match self.require_admin() {
            Ok(a) => a,
            Err(e) => return Err(e),
        };
        let inv = match self.load_invoice(invoice_id) {
            Ok(i) => i,
            Err(e) => return Err(e),
        };
        if !inv.admin_frozen {
            return Err(SplitError::InvoiceIsNotFrozenByAdmin);
        }
        let mut inv2 = inv;
        inv2.admin_frozen = false;
        if !inv2.frozen {
            inv2.pause_reason = None;
        }
        self.put_invoice(invoice_id, inv2, false);
        self.append_audit(invoice_id, AuditAction::AdminUnfrozen, a, now);
        let mut acts: Vec<Action> = Vec::new();
        acts.push(Action::RequireAuth { who: a });
        acts.push(Action::Emit { event: Event::InvoiceAdminUnfrozen { invoice_id, admin: a } });
        assert(acts@ =~= admin_unfreeze_outcome(old(self)@, invoice_id, now)->Ok_0.1);
        Ok(acts)
    }

    /// Name `delegate` for invoice `invoice_id`; needs the creator's
    /// authorization.
    pub fn delegate_invoice(&mut self, invoice_id: u64, delegate: Address, now: u64) -> (r: Result<Vec<Action>, SplitError>)
        ensures
            exact_outcome(r, old(self)@, final(self)@, delegate_outcome(old(self)@, invoice_id, delegate, now)),
    {
        let inv = match self.load_invoice(invoice_id) {
            Ok(i) => i,
            Err(e) => return Err(e),
        };
        let c = inv.creator;
        self.delegates.insert(invoice_id, delegate);
        self.append_audit(invoice_id, AuditAction::Delegate, c, now);
        let mut acts: Vec<Action> = Vec::new();
        acts.push(Action::RequireAuth { who: c });
        acts.push(Action::Emit { event: Event::DelegateSet { invoice_id, delegate } });
        assert(acts@ =~= delegate_outcome(old(self)@, invoice_id, delegate, now)->Ok_0.1);
        Ok(acts)
    }

    /// Remove the delegate of invoice `invoice_id`; needs the creator's
    /// authorization.
    pub fn revoke_delegate(&mut self, invoice_id: u64, now: u64) -> (r: Result<Vec<Action>, SplitError>)
        ensures
            exact_outcome(r, old(self)@, final(self)@, revoke_outcome(old(self)@, invoice_id, now)),
    {
        let inv = match self.load_invoice(invoice_id) {
            Ok(i) => i,
            Err(e) => return Err(e),
        };
        let c = inv.creator;
        self.delegates.remove(&invoice_id);
        self.append_audit(invoice_id, AuditAction::RevokeDelegate, c, now);
        let mut acts: Vec<Action> = Vec::new();
        acts.push(Action::RequireAuth { who: c });
        acts.push(Action::Emit { event: Event::DelegateRevoked { invoice_id } });
        assert(acts@ =~= revoke_outcome(old(self)@, invoice_id, now)->Ok_0.1);
        Ok(acts)
    }

    /// The delegate of invoice `invoice_id`, if one is set.
    pub fn get_delegate(&self, invoice_id: u64) -> (r: Option<Address>)
        ensures
            r == (if self@.delegates.contains_key(invoice_id) { Some(self@.delegates[invoice_id]) } else { None::<Address> }),
    {
        match self.delegates.get(&invoice_id) {
            Some(d) => Some(*d),
            None => None,
        }
    }

    /// Allow `delegate` to pay on behalf of `beneficiary`.
    pub fn authorise_delegate(&mut self, beneficiary: Address, delegate: Address) -> (r: Result<Vec<Action>, SplitError>)
        ensures
            exact_outcome(r, old(self)@, final(self)@, authorise_outcome(old(self)@, beneficiary, delegate)),
    {
        if self.paused {
            return Err(SplitError::ContractIsPaused);
        }
        let mut acts: Vec<Action> = Vec::new();
        acts.push(Action::RequireAuth { who: beneficiary });
        let ghost m0 = self.pay_delegates@;
        let mut ds = match self.pay_delegates.get(&beneficiary.0) {
            Some(v) => crate::invoice::copy_vec(v),
            None => Vec::new(),
        };
        if contains_address(&ds, delegate) {
            return Ok(acts);
        }
        ds.push(delegate);
        let ghost gd = ds;
        self.pay_delegates.insert(beneficiary.0, ds);
        proof { lemma_map_values_insert(m0, beneficiary.0, gd, |v: Vec<Address>| v@); }
        Ok(acts)
    }
}

} // verus!
