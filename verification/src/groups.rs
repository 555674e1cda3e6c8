//! Invoice groups and treasury groups, payer reminders and deadline votes,
//! archiving, and the migration of legacy invoices.

use vstd::prelude::*;
use crate::types::{Address, AuditAction, AuditEntry, InvoiceStatus, Payment};
use crate::invoice::{Invoice, InvoiceView, LegacyInvoice, upgraded};
use crate::effects::{Action, Event, SplitError};
use crate::state::{EntryView, PayerState, SplitContract, SplitView, TreasuryView, lemma_map_values_insert, lemma_map_values_remove};
use crate::release::exact_outcome;
use crate::paths::logged;
use crate::pay::with_payer;
use crate::lifecycle::stored;
use crate::admin::contains_address;

verus! {

broadcast use vstd::std_specs::hash::group_hash_axioms;

/// The first `k` invoices of a treasury group linked to it, each with the
/// link logged by `creator`.
pub open spec fn treasury_links(s: SplitView, ids: Seq<u64>, gid: u64, creator: Address, now: u64, k: nat) -> SplitView
    decreases k,
{
    if k == 0 {
        s
    } else {
        let s1 = treasury_links(s, ids, gid, creator, now, (k - 1) as nat);
        logged(SplitView { invoice_treasury_groups: s1.invoice_treasury_groups.insert(ids[k - 1], gid), ..s1 }, ids[k - 1], AuditAction::GroupTreasury, creator, now)
    }
}

/// Outcome of creating a treasury group of `ids` paying to `treasury`; the
/// group's id.
pub open spec fn treasury_group_outcome(s: SplitView, creator: Address, ids: Seq<u64>, treasury: Address, now: u64) -> Result<(u64, SplitView, Seq<Action>), SplitError> {
    if s.paused {
        Err(SplitError::ContractIsPaused)
    } else if s.treasury_group_counter == u64::MAX {
        Err(SplitError::ArithmeticOverflow)
    } else {
        let gid = (s.treasury_group_counter + 1) as u64;
        let s1 = SplitView {
            treasury_group_counter: gid,
            treasury_groups: s.treasury_groups.insert(gid, TreasuryView { invoice_ids: ids, treasury }),
            ..s
        };
        Ok((gid, treasury_links(s1, ids, gid, creator, now, ids.len()), seq![Action::RequireAuth { who: creator }]))
    }
}

/// The first `k` invoices of a group linked to it.
pub open spec fn group_links(m: Map<u64, u64>, ids: Seq<u64>, gid: u64, k: nat) -> Map<u64, u64>
    decreases k,
{
    if k == 0 {
        m
    } else {
        group_links(m, ids, gid, (k - 1) as nat).insert(ids[k - 1], gid)
    }
}

/// Outcome of grouping `ids`, which are then released together; the
/// group's id.
pub open spec fn invoice_group_outcome(s: SplitView, ids: Seq<u64>) -> Result<(u64, SplitView), SplitError> {
    if ids.len() < 2 {
        Err(SplitError::GroupNeedsAtLeast2Invoices)
    } else if s.group_counter == u64::MAX {
        Err(SplitError::ArithmeticOverflow)
    } else {
        let gid = (s.group_counter + 1) as u64;
        Ok((gid, SplitView {
            group_counter: gid,
            invoice_groups: group_links(s.invoice_groups, ids, gid, ids.len()),
            groups: s.groups.insert(gid, ids),
            ..s
        }))
    }
}

/// Outcome of `who` setting a reminder on invoice `id` at `remind_at`.
pub open spec fn set_reminder_outcome(s: SplitView, who: Address, id: u64, remind_at: u64, now: u64) -> Result<(SplitView, Seq<Action>), SplitError> {
    if s.paused {
        Err(SplitError::ContractIsPaused)
    } else {
        Ok((
            logged(with_payer(s, id, who, PayerState { reminder_at: Some(remind_at), ..s.payer(id, who) }), id, AuditAction::SetReminder, who, now),
            seq![Action::RequireAuth { who }],
        ))
    }
}

/// Outcome of triggering the reminder of `who` on invoice `id` at `now`.
pub open spec fn trigger_reminder_outcome(s: SplitView, id: u64, who: Address, now: u64) -> Result<(SplitView, Seq<Action>), SplitError> {
    let ps = s.payer(id, who);
    if s.paused {
        Err(SplitError::ContractIsPaused)
    } else if ps.reminder_at is None {
        Err(SplitError::ReminderNotSet)
    } else if now < ps.reminder_at->0 {
        Err(SplitError::ReminderNotDue)
    } else {
        Ok((
            logged(with_payer(s, id, who, PayerState { reminder_at: None, ..ps }), id, AuditAction::TriggerReminder, who, now),
            seq![Action::Emit { event: Event::PaymentReminder { invoice_id: id, who } }],
        ))
    }
}

/// The distinct payers among the first `k` payments, in order of first
/// payment.
pub open spec fn distinct_payers(ps: Seq<Payment>, k: nat) -> Seq<Address>
    decreases k,
{
    if k == 0 {
        Seq::empty()
    } else {
        let u = distinct_payers(ps, (k - 1) as nat);
        if u.contains(ps[k - 1].payer) { u } else { u.push(ps[k - 1].payer) }
    }
}

/// Outcome of payer `voter` voting to extend the deadline of invoice `id`:
/// once a strict majority of the distinct payers voted, the deadline moves
/// a week later and the votes are cleared.
pub open spec fn vote_outcome(s: SplitView, id: u64, voter: Address) -> Result<(SplitView, Seq<Action>), SplitError> {
    if !s.invoices.contains_key(id) {
        Err(SplitError::InvoiceNotFound)
    } else {
        let inv = s.inv(id);
        let u = distinct_payers(inv.payments, inv.payments.len());
        let votes = if s.extension_votes.contains_key(id) { s.extension_votes[id] } else { Seq::empty() };
        if inv.status != InvoiceStatus::Pending {
            Err(SplitError::InvoiceIsNotPending)
        } else if !(exists|i: int| 0 <= i < inv.payments.len() && inv.payments[i].payer == voter) {
            Err(SplitError::OnlyPayersCanVote)
        } else if votes.contains(voter) {
            Ok((s, seq![Action::RequireAuth { who: voter }]))
        } else if votes.len() + 1 > u.len() / 2 {
            if inv.deadline + 604_800 > u64::MAX {
                Err(SplitError::ArithmeticOverflow)
            } else {
                Ok((
                    SplitView {
                        extension_votes: s.extension_votes.remove(id),
                        ..stored(s, id, InvoiceView { deadline: (inv.deadline + 604_800) as u64, ..inv })
                    },
                    seq![Action::RequireAuth { who: voter }],
                ))
            }
        } else {
            Ok((
                SplitView { extension_votes: s.extension_votes.insert(id, votes.push(voter)), ..s },
                seq![Action::RequireAuth { who: voter }],
            ))
        }
    }
}

/// Whether invoice `id` is stored live and complete, so it can be archived.
pub open spec fn archivable(s: SplitView, id: u64) -> bool {
    s.invoices.contains_key(id) && !s.invoices[id].archived
        && (s.inv(id).status == InvoiceStatus::Released || s.inv(id).status == InvoiceStatus::Refunded)
}

/// `s` with invoice `id` moved to archive storage.
pub open spec fn archived(s: SplitView, id: u64) -> SplitView {
    SplitView { invoices: s.invoices.insert(id, EntryView { invoice: s.inv(id), archived: true }), ..s }
}

/// Outcome of archiving the complete invoice `id`.
pub open spec fn archive_outcome(s: SplitView, id: u64) -> Result<(SplitView, Seq<Action>), SplitError> {
    if !s.invoices.contains_key(id) || s.invoices[id].archived {
        Err(SplitError::InvoiceNotFound)
    } else if !archivable(s, id) {
        Err(SplitError::InvoiceNotCompleted)
    } else {
        Ok((archived(s, id), seq![Action::Emit { event: Event::InvoiceArchived { invoice_id: id } }]))
    }
}

/// Archiving of the complete ones among the first `k` of `ids`: the state,
/// the ids archived and their events.
pub open spec fn archive_fold(s: SplitView, ids: Seq<u64>, k: nat) -> (SplitView, Seq<u64>, Seq<Action>)
    decreases k,
{
    if k == 0 {
        (s, Seq::empty(), Seq::empty())
    } else {
        let (s1, done, acts) = archive_fold(s, ids, (k - 1) as nat);
        let id = ids[k - 1];
        if archivable(s1, id) {
            (archived(s1, id), done.push(id), acts.push(Action::Emit { event: Event::InvoiceArchived { invoice_id: id } }))
        } else {
            (s1, done, acts)
        }
    }
}

/// Most invoices one archive sweep takes.
pub const ARCHIVE_BATCH_LIMIT: usize = 20;

/// Outcome of an archive sweep over at most `ARCHIVE_BATCH_LIMIT` ids: the
/// complete ones are archived and returned.
pub open spec fn archive_batch_outcome(s: SplitView, ids: Seq<u64>) -> Result<(Seq<u64>, SplitView, Seq<Action>), SplitError> {
    if ids.len() > ARCHIVE_BATCH_LIMIT {
        Err(SplitError::BatchLimitExceeded)
    } else {
        let (s1, done, acts) = archive_fold(s, ids, ids.len());
        Ok((done, s1, acts.push(Action::Emit { event: Event::BatchArchived { count: done.len() as u64 } })))
    }
}

/// Outcome of the admin migrating invoice `id`: nothing where it is stored
/// live in the current layout (version 1 or later), else the legacy record
/// `legacy` found under its key is upgraded.
pub open spec fn migrate_outcome(s: SplitView, id: u64, legacy: Option<InvoiceView>) -> Result<(SplitView, Seq<Action>), SplitError> {
    match s.admin {
        None => Err(SplitError::AdminNotSet),
        Some(a) => if s.invoices.contains_key(id) && !s.invoices[id].archived && s.inv(id).version >= 1 {
            Ok((s, seq![Action::RequireAuth { who: a }]))
        } else {
            match legacy {
                None => Err(SplitError::InvoiceNotFound),
                Some(l) => Ok((stored(s, id, l), seq![Action::RequireAuth { who: a }])),
            }
        },
    }
}

/// Whether some payment of `ps` was made by `who`.
pub fn paid_any(ps: &Vec<Payment>, who: Address) -> (r: bool)
    ensures
        r == (exists|i: int| 0 <= i < ps@.len() && ps@[i].payer == who),
{
    let mut i: usize = 0;
    while i < ps.len()
        invariant
            i <= ps.len(),
            forall|j: int| 0 <= j < i ==> ps@[j].payer != who,
        decreases ps.len() - i,
    {
        if ps[i].payer == who {
            return true;
        }
        i = i + 1;
    }
    false
}

/// The distinct payers; see `distinct_payers`.
pub fn distinct_payers_of(ps: &Vec<Payment>) -> (r: Vec<Address>)
    ensures
        r@ == distinct_payers(ps@, ps@.len()),
{
    let mut u: Vec<Address> = Vec::new();
    let mut i: usize = 0;
    while i < ps.len()
        invariant
            i <= ps.len(),
            u@ == distinct_payers(ps@, i as nat),
        decreases ps.len() - i,
    {
        if !contains_address(&u, ps[i].payer) {
            u.push(ps[i].payer);
        }
        i = i + 1;
    }
    u
}

impl SplitContract {
    /// Create a treasury group of `invoice_ids` whose full releases pay out
    /// to `treasury`; returns the group's id.
    pub fn group_treasury_create(&mut self, creator: Address, invoice_ids: Vec<u64>, treasury: Address, now: u64) -> (r: Result<(u64, Vec<Action>), SplitError>)
        ensures
            match treasury_group_outcome(old(self)@, creator, invoice_ids@, treasury, now) {
                Ok((gid, s2, acts)) => r is Ok && r->Ok_0.0 == gid && r->Ok_0.1@ == acts && final(self)@ == s2,
                Err(e) => r == Err::<(u64, Vec<Action>), SplitError>(e) && final(self)@ == old(self)@,
            },
    {
        if self.paused {
            return Err(SplitError::ContractIsPaused);
        }
        if self.treasury_group_counter == u64::MAX {
            return Err(SplitError::ArithmeticOverflow);
        }
        let gid = self.treasury_group_counter + 1;
        self.treasury_group_counter = gid;
        let ids = crate::invoice::copy_vec(&invoice_ids);
        let ghost m0 = self.treasury_groups@;
        let rec = crate::types::TreasuryRecord { invoice_ids, treasury };
        let ghost grec = rec;
        self.treasury_groups.insert(gid, rec);
        proof { lemma_map_values_insert(m0, gid, grec, |t: crate::types::TreasuryRecord| t@); }
        let ghost s1 = self@;
        let mut k: usize = 0;
        while k < ids.len()
            invariant
                k <= ids.len(),
                self@ == treasury_links(s1, ids@, gid, creator, now, k as nat),
            decreases ids.len() - k,
        {
            let iid = ids[k];
            self.invoice_treasury_groups.insert(iid, gid);
            self.append_audit(iid, AuditAction::GroupTreasury, creator, now);
            k = k + 1;
        }
        let mut acts: Vec<Action> = Vec::new();
        acts.push(Action::RequireAuth { who: creator });
        Ok((gid, acts))
    }

    /// Group `invoice_ids` so that they are released together; returns the
    /// group's id.
    pub fn create_invoice_group(&mut self, invoice_ids: Vec<u64>) -> (r: Result<u64, SplitError>)
        ensures
            match invoice_group_outcome(old(self)@, invoice_ids@) {
                Ok((gid, s2)) => r == Ok::<u64, SplitError>(gid) && final(self)@ == s2,
                Err(e) => r == Err::<u64, SplitError>(e) && final(self)@ == old(self)@,
            },
    {
        if invoice_ids.len() < 2 {
            return Err(SplitError::GroupNeedsAtLeast2Invoices);
        }
        if self.group_counter == u64::MAX {
            return Err(SplitError::ArithmeticOverflow);
        }
        let gid = self.group_counter + 1;
        let ghost s0 = self@;
        self.group_counter = gid;
        let mut k: usize = 0;
        while k < invoice_ids.len()
            invariant
                k <= invoice_ids.len(),
                self@ == (SplitView { group_counter: gid, invoice_groups: group_links(s0.invoice_groups, invoice_ids@, gid, k as nat), ..s0 }),
            decreases invoice_ids.len() - k,
        {
            self.invoice_groups.insert(invoice_ids[k], gid);
            k = k + 1;
        }
        let ghost m0 = self.groups@;
        let ghost gv = invoice_ids;
        self.groups.insert(gid, invoice_ids);
        proof { lemma_map_values_insert(m0, gid, gv, |v: Vec<u64>| v@); }
        Ok(gid)
    }

    /// Set a reminder of `who` on invoice `invoice_id` at `remind_at`.
    pub fn set_reminder(&mut self, who: Address, invoice_id: u64, remind_at: u64, now: u64) -> (r: Result<Vec<Action>, SplitError>)
        ensures
            exact_outcome(r, old(self)@, final(self)@, set_reminder_outcome(old(self)@, who, invoice_id, remind_at, now)),
    {
        if self.paused {
            return Err(SplitError::ContractIsPaused);
        }
        let ps = self.payer_state_of(invoice_id, who);
        self.set_payer_state(invoice_id, who, PayerState { reminder_at: Some(remind_at), ..ps });
        self.append_audit(invoice_id, AuditAction::SetReminder, who, now);
        let mut acts: Vec<Action> = Vec::new();
        acts.push(Action::RequireAuth { who });
        Ok(acts)
    }

    /// Trigger the due reminder of `who` on invoice `invoice_id` at `now`.
    pub fn trigger_reminder(&mut self, invoice_id: u64, who: Address, now: u64) -> (r: Result<Vec<Action>, SplitError>)
        ensures
            exact_outcome(r, old(self)@, final(self)@, trigger_reminder_outcome(old(self)@, invoice_id, who, now)),
    {
        if self.paused {
            return Err(SplitError::ContractIsPaused);
        }
        let ps = self.payer_state_of(invoice_id, who);
        let at = match ps.reminder_at {
            Some(t) => t,
            None => return Err(SplitError::ReminderNotSet),
        };
        if now < at {
            return Err(SplitError::ReminderNotDue);
        }
        self.set_payer_state(invoice_id, who, PayerState { reminder_at: None, ..ps });
        self.append_audit(invoice_id, AuditAction::TriggerReminder, who, now);
        let mut acts: Vec<Action> = Vec::new();
        acts.push(Action::Emit { event: Event::PaymentReminder { invoice_id, who } });
        Ok(acts)
    }

    /// Store the extended invoice and clear its votes.
    fn extend_by_vote(&mut self, id: u64, inv: Invoice)
        ensures
            final(self)@ == (SplitView { extension_votes: old(self)@.extension_votes.remove(id), ..stored(old(self)@, id, inv@) }),
    {
        self.put_invoice(id, inv, false);
        let ghost m0 = self.extension_votes@;
        self.extension_votes.remove(&id);
        proof { lemma_map_values_remove(m0, id, |v: Vec<Address>| v@); }
    }

    /// Store the extension votes of invoice `id`.
    fn store_votes(&mut self, id: u64, votes: Vec<Address>)
        ensures
            final(self)@ == (SplitView { extension_votes: old(self)@.extension_votes.insert(id, votes@), ..old(self)@ }),
    {
        let ghost m0 = self.extension_votes@;
        let ghost gv = votes;
        self.extension_votes.insert(id, votes);
        proof { lemma_map_values_insert(m0, id, gv, |v: Vec<Address>| v@); }
    }

    /// Vote by payer `voter` to extend the deadline of invoice `invoice_id`
    /// by a week; it moves once a strict majority of the payers voted.
    #[verifier::rlimit(50)]
    pub fn vote_extend_deadline(&mut self, invoice_id: u64, voter: Address) -> (r: Result<Vec<Action>, SplitError>)
        ensures
            exact_outcome(r, old(self)@, final(self)@, vote_outcome(old(self)@, invoice_id, voter)),
    {
        let inv = match self.load_invoice(invoice_id) {
            Ok(i) => i,
            Err(e) => return Err(e),
        };
        if inv.status != InvoiceStatus::Pending {
            return Err(SplitError::InvoiceIsNotPending);
        }
        if !paid_any(&inv.payments, voter) {
            return Err(SplitError::OnlyPayersCanVote);
        }
        let u = distinct_payers_of(&inv.payments);
        let mut votes = match self.extension_votes.get(&invoice_id) {
            Some(v) => crate::invoice::copy_vec(v),
            None => Vec::new(),
        };
        let mut acts: Vec<Action> = Vec::new();
        acts.push(Action::RequireAuth { who: voter });
        if contains_address(&votes, voter) {
            return Ok(acts);
        }
        votes.push(voter);
        if votes.len() > u.len() / 2 {
            let d = match inv.deadline.checked_add(604_800) {
                Some(x) => x,
                None => return Err(SplitError::ArithmeticOverflow),
            };
            let mut inv2 = inv;
            inv2.deadline = d;
            self.extend_by_vote(invoice_id, inv2);
        } else {
            self.store_votes(invoice_id, votes);
        }
        Ok(acts)
    }

    /// Whether invoice `id` can be archived; see `archivable`.
    fn archivable_of(&self, id: u64) -> (r: bool)
        ensures
            r == archivable(self@, id),
    {
        assert(self@.invoices.dom() =~= self.invoices@.dom());
        match self.invoices.get(&id) {
            None => false,
            Some(e) => !e.archived && (e.invoice.status == InvoiceStatus::Released || e.invoice.status == InvoiceStatus::Refunded),
        }
    }

    /// Move invoice `id` to archive storage; see `archived`.
    fn move_to_archive(&mut self, id: u64)
        requires
            old(self)@.invoices.contains_key(id),
        ensures
            final(self)@ == archived(old(self)@, id),
    {
        let inv = self.load_invoice(id).unwrap();
        self.put_invoice(id, inv, true);
    }

    /// Archive the complete invoice `invoice_id`.
    pub fn archive_invoice(&mut self, invoice_id: u64) -> (r: Result<Vec<Action>, SplitError>)
        ensures
            exact_outcome(r, old(self)@, final(self)@, archive_outcome(old(self)@, invoice_id)),
    {
        assert(self@.invoices.dom() =~= self.invoices@.dom());
        match self.invoices.get(&invoice_id) {
            None => return Err(SplitError::InvoiceNotFound),
            Some(e) => {
                if e.archived {
                    return Err(SplitError::InvoiceNotFound);
                }
            },
        }
        if !self.archivable_of(invoice_id) {
            return Err(SplitError::InvoiceNotCompleted);
        }
        self.move_to_archive(invoice_id);
        let mut acts: Vec<Action> = Vec::new();
        acts.push(Action::Emit { event: Event::InvoiceArchived { invoice_id } });
        Ok(acts)
    }

    /// Archive the complete invoices among at most `ARCHIVE_BATCH_LIMIT` ids;
    /// returns the ids archived.
    pub fn archive_invoices_batch(&mut self, invoice_ids: Vec<u64>) -> (r: Result<(Vec<u64>, Vec<Action>), SplitError>)
        ensures
            match archive_batch_outcome(old(self)@, invoice_ids@) {
                Ok((done, s2, acts)) => r is Ok && r->Ok_0.0@ == done && r->Ok_0.1@ == acts && final(self)@ == s2,
                Err(e) => r == Err::<(Vec<u64>, Vec<Action>), SplitError>(e) && final(self)@ == old(self)@,
            },
    {
        if invoice_ids.len() > ARCHIVE_BATCH_LIMIT {
            return Err(SplitError::BatchLimitExceeded);
        }
        let ghost s0 = self@;
        let mut done: Vec<u64> = Vec::new();
        let mut acts: Vec<Action> = Vec::new();
        let mut k: usize = 0;
        while k < invoice_ids.len()
            invariant
                k <= invoice_ids.len(),
                invoice_ids.len() <= ARCHIVE_BATCH_LIMIT,
                done@.len() <= k,
                archive_fold(s0, invoice_ids@, k as nat) == (self@, done@, acts@),
            decreases invoice_ids.len() - k,
        {
            let id = invoice_ids[k];
            if self.archivable_of(id) {
                self.move_to_archive(id);
                done.push(id);
                acts.push(Action::Emit { event: Event::InvoiceArchived { invoice_id: id } });
            }
            k = k + 1;
        }
        let count = done.len() as u64;
        acts.push(Action::Emit { event: Event::BatchArchived { count } });
        Ok((done, acts))
    }

    /// Upgrade invoice `invoice_id` as the admin: nothing where it is stored
    /// live in the current layout, else `legacy`, the legacy record found
    /// under its key, is upgraded and stored.
    pub fn migrate_invoice(&mut self, admin: Address, invoice_id: u64, legacy: Option<LegacyInvoice>) -> (r: Result<Vec<Action>, SplitError>)
        ensures
            exact_outcome(r, old(self)@, final(self)@, migrate_outcome(old(self)@, invoice_id, match legacy {
                Some(l) => Some(upgraded(l)),
                None => None,
            })),
    {
        let a = match self.require_admin() {
            Ok(a) => a,
            Err(e) => return Err(e),
        };
        let mut acts: Vec<Action> = Vec::new();
        acts.push(Action::RequireAuth { who: a });
        assert(self@.invoices.dom() =~= self.invoices@.dom());
        let current = match self.invoices.get(&invoice_id) {
            Some(e) => !e.archived && e.invoice.version >= 1,
            None => false,
        };
        if current {
            return Ok(acts);
        }
        match legacy {
            None => Err(SplitError::InvoiceNotFound),
            Some(l) => {
                let inv = Invoice::from_legacy(l);
                self.put_invoice(invoice_id, inv, false);
                Ok(acts)
            },
        }
    }
}

} // verus!
