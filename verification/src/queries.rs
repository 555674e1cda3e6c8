//! Read-only queries of the split contract.

use vstd::prelude::*;
use crate::types::{Address, AuditEntry, InvoiceStatus};
use crate::invoice::{Invoice, InvoiceCore, InvoiceExt, InvoiceExt2, copy_vec};
use crate::effects::SplitError;
use crate::state::{SplitContract, SplitView, PayerState};
use crate::math::{sum_i128, running_sums_fit_i128, checked_sum_i128};
use crate::paths::paid_by;
use crate::pay::with_payer;

verus! {

broadcast use vstd::std_specs::hash::group_hash_axioms;

impl SplitContract {
    /// The stored invoice `id`, live or archived.
    pub open spec fn stored_invoice(&self, id: u64) -> Invoice {
        self.invoices@[id].invoice
    }

    /// The core part of invoice `invoice_id`.
    pub fn get_invoice(&self, invoice_id: u64) -> (r: Result<InvoiceCore, SplitError>)
        ensures
            match r {
                Ok(c) => self@.invoices.contains_key(invoice_id)
                    && Invoice::spec_assemble(c, self.stored_invoice(invoice_id).spec_parts().1, self.stored_invoice(invoice_id).spec_parts().2)@ == self@.inv(invoice_id),
                Err(e) => !self@.invoices.contains_key(invoice_id) && e == SplitError::InvoiceNotFound,
            },
    {
        match self.load_invoice(invoice_id) {
            Err(e) => Err(e),
            Ok(inv) => {
                let (c, _, _) = inv.split();
                Ok(c)
            },
        }
    }

    /// The first extension part of invoice `invoice_id`.
    pub fn get_invoice_ext(&self, invoice_id: u64) -> (r: Result<InvoiceExt, SplitError>)
        ensures
            match r {
                Ok(x) => self@.invoices.contains_key(invoice_id)
                    && Invoice::spec_assemble(self.stored_invoice(invoice_id).spec_parts().0, x, self.stored_invoice(invoice_id).spec_parts().2)@ == self@.inv(invoice_id),
                Err(e) => !self@.invoices.contains_key(invoice_id) && e == SplitError::InvoiceNotFound,
            },
    {
        match self.load_invoice(invoice_id) {
            Err(e) => Err(e),
            Ok(inv) => {
                let (_, x, _) = inv.split();
                Ok(x)
            },
        }
    }

    /// The second extension part of invoice `invoice_id`.
    pub fn get_invoice_ext2(&self, invoice_id: u64) -> (r: Result<InvoiceExt2, SplitError>)
        ensures
            match r {
                Ok(x) => self@.invoices.contains_key(invoice_id)
                    && Invoice::spec_assemble(self.stored_invoice(invoice_id).spec_parts().0, self.stored_invoice(invoice_id).spec_parts().1, x)@ == self@.inv(invoice_id),
                Err(e) => !self@.invoices.contains_key(invoice_id) && e == SplitError::InvoiceNotFound,
            },
    {
        match self.load_invoice(invoice_id) {
            Err(e) => Err(e),
            Ok(inv) => {
                let (_, _, x) = inv.split();
                Ok(x)
            },
        }
    }

    /// The audit log of invoice `invoice_id`; empty before any entry.
    pub fn get_audit_log(&self, invoice_id: u64) -> (r: Vec<AuditEntry>)
        ensures
            r@ == self@.log(invoice_id),
    {
        match self.audit_logs.get(&invoice_id) {
            Some(v) => copy_vec(v),
            None => Vec::new(),
        }
    }

    /// What `payer` paid into invoice `invoice_id`, tips excluded.
    pub fn get_payer_total(&self, invoice_id: u64, payer: Address) -> (r: Result<i128, SplitError>)
        ensures
            !self@.invoices.contains_key(invoice_id) ==> r == Err::<i128, SplitError>(SplitError::InvoiceNotFound),
            self@.invoices.contains_key(invoice_id) ==> match paid_by(self@.inv(invoice_id).payments, payer, self@.inv(invoice_id).payments.len()) {
                Some(t) => r == Ok::<i128, SplitError>(t),
                None => r == Err::<i128, SplitError>(SplitError::ArithmeticOverflow),
            },
    {
        let inv = match self.load_invoice(invoice_id) {
            Ok(i) => i,
            Err(e) => return Err(e),
        };
        match crate::paths::paid_by_of(&inv.payments, payer) {
            Some(t) => Ok(t),
            None => Err(SplitError::ArithmeticOverflow),
        }
    }

    /// Number of successful payments of `address`; 0 before any.
    pub fn get_reputation(&self, address: Address) -> (r: u64)
        ensures
            r == self@.account(address).reputation,
    {
        self.account_of(address).reputation
    }

    /// Credit score of `address`: +1 per payment, -2 per early withdrawal
    /// (not below 0); 0 before any.
    pub fn get_credit_score(&self, address: Address) -> (r: u64)
        ensures
            r == self@.account(address).credit_score,
    {
        self.account_of(address).credit_score
    }

    /// Number of invoices created with `referrer` as the referrer.
    pub fn get_referral_count(&self, referrer: Address) -> (r: u64)
        ensures
            r == self@.account(referrer).referral_count,
    {
        self.account_of(referrer).referral_count
    }

    /// The nonce the next payment of `payer` into invoice `invoice_id` must
    /// carry; 0 before its first payment.
    pub fn get_nonce(&self, invoice_id: u64, payer: Address) -> (r: u64)
        ensures
            r == self@.payer(invoice_id, payer).nonce,
    {
        self.payer_state_of(invoice_id, payer).nonce
    }

    /// Ids of the invoices that have `recipient` among their recipients,
    /// in order of indexing.
    pub fn get_recipient_invoice_ids(&self, recipient: Address) -> (r: Vec<u64>)
        ensures
            r@ == (if self@.recipient_invoice_ids.contains_key(recipient.0) { self@.recipient_invoice_ids[recipient.0] } else { Seq::empty() }),
    {
        match self.recipient_invoice_ids.get(&recipient.0) {
            Some(v) => copy_vec(v),
            None => Vec::new(),
        }
    }

    /// Creator analytics of `creator`: invoices created, volume released,
    /// invoices released and invoices refunded.
    pub fn get_creator_stats(&self, creator: Address) -> (r: (u64, i128, u64, u64))
        ensures
            r == (self@.account(creator).creator_count, self@.account(creator).creator_volume,
                self@.account(creator).creator_released, self@.account(creator).creator_refunded),
    {
        let a = self.account_of(creator);
        (a.creator_count, a.creator_volume, a.creator_released, a.creator_refunded)
    }

    /// Whether invoice `invoice_id` exists, live or archived, with status
    /// `expected`.
    pub fn verify_invoice(&self, invoice_id: u64, expected: InvoiceStatus) -> (r: bool)
        ensures
            r == (self@.invoices.contains_key(invoice_id) && self@.inv(invoice_id).status == expected),
    {
        assert(self@.invoices.dom() =~= self.invoices@.dom());
        match self.invoices.get(&invoice_id) {
            Some(e) => e.invoice.status == expected,
            None => false,
        }
    }

    /// Contract analytics: invoices created, volume, released and refunded.
    pub fn get_stats(&self) -> (r: (u64, i128, i128, i128))
        ensures
            r == (self@.stats.total_invoices, self@.stats.total_volume, self@.stats.total_released, self@.stats.total_refunded),
    {
        (self.stats.total_invoices, self.stats.total_volume, self.stats.total_released, self.stats.total_refunded)
    }

    /// Record the receipt token the receipt factory minted for `payer` on
    /// invoice `invoice_id` (the answer to a `MintReceipt` action).
    pub fn record_receipt_token(&mut self, invoice_id: u64, payer: Address, token: Address)
        ensures
            final(self)@ == with_payer(old(self)@, invoice_id, payer, PayerState { receipt_token: Some(token), ..old(self)@.payer(invoice_id, payer) }),
    {
        let ps = self.payer_state_of(invoice_id, payer);
        self.set_payer_state(invoice_id, payer, PayerState { receipt_token: Some(token), ..ps });
    }

    /// The creator and total that the governance contract is asked about for
    /// the next invoice of subscription `invoice_id`, where one is kept; the
    /// total is `None` where the amounts overflow.
    pub fn next_subscription_request(&self, invoice_id: u64) -> (r: Option<(Address, Option<i128>)>)
        ensures
            match r {
                None => !self@.subscriptions.contains_key(invoice_id),
                Some((c, t)) => {
                    let sub = self@.subscriptions[invoice_id];
                    &&& self@.subscriptions.contains_key(invoice_id)
                    &&& c == sub.creator
                    &&& (t is Some <==> running_sums_fit_i128(sub.amounts))
                    &&& (t is Some ==> t->0 == sum_i128(sub.amounts))
                },
            },
    {
        assert(self@.subscriptions.dom() =~= self.subscriptions@.dom());
        match self.subscriptions.get(&invoice_id) {
            Some(p) => Some((p.creator, checked_sum_i128(&p.amounts))),
            None => None,
        }
    }

}

} // verus!
