//! Proofs of completion and of payment: their preimages in bytes and their
//! SHA-256 digests, computed by the ledger host.

use vstd::prelude::*;
use soroban_sdk::{Bytes, Env};
use crate::types::{Address, CompletionProof, InvoiceStatus, PaymentProof, Payment};
use crate::effects::SplitError;
use crate::math::{as_u128, to_u128};
use crate::distribution::fits_i128;
use crate::state::SplitContract;

verus! {

/// The ledger host's environment, which computes digests.
#[verifier::external_type_specification]
#[verifier::external_body]
pub struct ExEnv(Env);

/// The SHA-256 digest of `data`.
pub uninterp spec fn sha256_digest(data: Seq<u8>) -> Seq<u8>;

/// SHA-256 of `data`, computed by the host through
/// `soroban_sdk::crypto::Crypto::sha256`. Trusted: the result is the
/// digest of exactly these bytes, 32 bytes long.
#[verifier::external_body]
fn sha256(env: &Env, data: &Vec<u8>) -> (r: Vec<u8>)
    ensures
        r@ == sha256_digest(data@),
        r@.len() == 32,
{
    let bytes = Bytes::from_slice(env, data.as_slice());
    env.crypto().sha256(&bytes).to_array().to_vec()
}

/// The `n` lowest bytes of `x`, least significant first.
pub open spec fn le_bytes(x: nat, n: nat) -> Seq<u8>
    decreases n,
{
    if n == 0 {
        Seq::empty()
    } else {
        seq![(x % 256) as u8] + le_bytes(x / 256, (n - 1) as nat)
    }
}

/// The `n` lowest bytes of `x`, most significant first.
pub open spec fn be_bytes(x: nat, n: nat) -> Seq<u8> {
    le_bytes(x, n).reverse()
}

/// The byte a completion proof gives a status.
pub open spec fn status_byte(st: InvoiceStatus) -> u8 {
    match st {
        InvoiceStatus::Pending => 0,
        InvoiceStatus::Released => 1,
        InvoiceStatus::Refunded => 2,
        InvoiceStatus::Cancelled => 3,
    }
}

/// Preimage of a completion proof: the id in 8 bytes, the low 64 bits of
/// the funded amount in 8 bytes (both big-endian), the status byte.
pub open spec fn completion_preimage(id: u64, funded: i128, st: InvoiceStatus) -> Seq<u8> {
    be_bytes(id as nat, 8) + be_bytes((as_u128(funded) % 0x1_0000_0000_0000_0000) as nat, 8) + seq![status_byte(st)]
}

/// Preimage of a payment proof: the id in 8 bytes and the total paid in 16
/// bytes (two's complement), both big-endian. The proof carries the payer
/// beside its hash.
pub open spec fn payment_preimage(id: u64, total_paid: i128) -> Seq<u8> {
    be_bytes(id as nat, 8) + be_bytes(as_u128(total_paid) as nat, 16)
}

/// Sum of amount and tip of the first `k` payments by `payer`; `None` on
/// overflow.
pub open spec fn paid_with_tips(ps: Seq<Payment>, payer: Address, k: nat) -> Option<i128>
    decreases k,
{
    if k == 0 {
        Some(0i128)
    } else {
        match paid_with_tips(ps, payer, (k - 1) as nat) {
            None => None,
            Some(t) => if ps[k - 1].payer != payer {
                Some(t)
            } else if !fits_i128(ps[k - 1].amount + ps[k - 1].tip) || !fits_i128(t + ps[k - 1].amount + ps[k - 1].tip) {
                None
            } else {
                Some((t + ps[k - 1].amount + ps[k - 1].tip) as i128)
            },
        }
    }
}

/// The `n` lowest bytes of `x`, most significant first; see `be_bytes`.
pub fn be_bytes_of(x: u128, n: usize) -> (r: Vec<u8>)
    ensures
        r@ == be_bytes(x as nat, n as nat),
{
    let mut le: Vec<u8> = Vec::new();
    let mut v: u128 = x;
    let mut i: usize = 0;
    while i < n
        invariant
            i <= n,
            le@ + le_bytes(v as nat, (n - i) as nat) == le_bytes(x as nat, n as nat),
        decreases n - i,
    {
        let ghost before = le@;
        le.push((v % 256) as u8);
        proof {
            assert(le_bytes(v as nat, (n - i) as nat) == seq![(v % 256) as u8] + le_bytes((v / 256) as nat, (n - i - 1) as nat));
            assert(before + (seq![(v % 256) as u8] + le_bytes((v / 256) as nat, (n - i - 1) as nat))
                =~= le@ + le_bytes((v / 256) as nat, (n - i - 1) as nat));
        }
        v = v / 256;
        i = i + 1;
    }
    assert(le@ =~= le_bytes(x as nat, n as nat));
    let mut r: Vec<u8> = Vec::new();
    let mut j: usize = 0;
    while j < le.len()
        invariant
            j <= le@.len(),
            r@ =~= le@.reverse().take(j as int),
        decreases le.len() - j,
    {
        r.push(le[le.len() - 1 - j]);
        j = j + 1;
    }
    assert(r@ =~= le@.reverse());
    r
}

/// What `payer` paid with tips; see `paid_with_tips`.
pub fn paid_with_tips_of(ps: &Vec<Payment>, payer: Address) -> (r: Option<i128>)
    ensures
        r == paid_with_tips(ps@, payer, ps@.len()),
{
    let mut t: i128 = 0;
    let mut k: usize = 0;
    while k < ps.len()
        invariant
            k <= ps.len(),
            paid_with_tips(ps@, payer, k as nat) == Some(t),
        decreases ps.len() - k,
    {
        let p = ps[k];
        if p.payer == payer {
            let next = match p.amount.checked_add(p.tip) {
                Some(x) => t.checked_add(x),
                None => None,
            };
            match next {
                Some(x) => {
                    t = x;
                },
                None => {
                    proof { lemma_paid_with_tips_none_persists(ps@, payer, (k + 1) as nat, ps@.len()); }
                    return None;
                },
            }
        }
        k = k + 1;
    }
    Some(t)
}

pub proof fn lemma_paid_with_tips_none_persists(ps: Seq<Payment>, payer: Address, k: nat, n: nat)
    requires
        k <= n,
        paid_with_tips(ps, payer, k) is None,
    ensures
        paid_with_tips(ps, payer, n) is None,
    decreases n - k,
{
    if k < n {
        lemma_paid_with_tips_none_persists(ps, payer, k, (n - 1) as nat);
    }
}

/// The preimage of a completion proof; see `completion_preimage`.
pub fn completion_preimage_of(id: u64, funded: i128, st: InvoiceStatus) -> (r: Vec<u8>)
    ensures
        r@ == completion_preimage(id, funded, st),
{
    let mut r = be_bytes_of(id as u128, 8);
    let mut f = be_bytes_of(to_u128(funded) % 0x1_0000_0000_0000_0000, 8);
    r.append(&mut f);
    let b: u8 = match st {
        InvoiceStatus::Pending => 0,
        InvoiceStatus::Released => 1,
        InvoiceStatus::Refunded => 2,
        InvoiceStatus::Cancelled => 3,
    };
    r.push(b);
    r
}

/// The preimage of a payment proof; see `payment_preimage`.
pub fn payment_preimage_of(id: u64, total_paid: i128) -> (r: Vec<u8>)
    ensures
        r@ == payment_preimage(id, total_paid),
{
    let mut r = be_bytes_of(id as u128, 8);
    let mut t = be_bytes_of(to_u128(total_paid), 16);
    r.append(&mut t);
    r
}

impl SplitContract {
    /// Proof that invoice `invoice_id` was finalized (released or
    /// refunded), taken at `now`: its id, status and funded amount with the
    /// digest of their preimage.
    pub fn get_completion_proof(&self, env: &Env, invoice_id: u64, now: u64) -> (r: Result<CompletionProof, SplitError>)
        ensures
            !self@.invoices.contains_key(invoice_id) ==> r == Err::<CompletionProof, SplitError>(SplitError::InvoiceNotFound),
            self@.invoices.contains_key(invoice_id) ==> ({
                let inv = self@.inv(invoice_id);
                if inv.status != InvoiceStatus::Released && inv.status != InvoiceStatus::Refunded {
                    r == Err::<CompletionProof, SplitError>(SplitError::InvoiceNotFinalized)
                } else {
                    r is Ok && r->Ok_0.id == invoice_id && r->Ok_0.status == inv.status && r->Ok_0.funded == inv.funded
                        && r->Ok_0.timestamp == now
                        && r->Ok_0.hash@ == sha256_digest(completion_preimage(invoice_id, inv.funded, inv.status))
                }
            }),
    {
        let inv = match self.load_invoice(invoice_id) {
            Ok(i) => i,
            Err(e) => return Err(e),
        };
        if inv.status != InvoiceStatus::Released && inv.status != InvoiceStatus::Refunded {
            return Err(SplitError::InvoiceNotFinalized);
        }
        let pre = completion_preimage_of(invoice_id, inv.funded, inv.status);
        let hash = sha256(env, &pre);
        Ok(CompletionProof { id: invoice_id, status: inv.status, funded: inv.funded, timestamp: now, hash })
    }

    /// Proof of what `payer` contributed to invoice `invoice_id`, tips
    /// included (0 where it paid nothing), with the digest of its preimage.
    pub fn generate_payment_proof(&self, env: &Env, invoice_id: u64, payer: Address) -> (r: Result<PaymentProof, SplitError>)
        ensures
            !self@.invoices.contains_key(invoice_id) ==> r == Err::<PaymentProof, SplitError>(SplitError::InvoiceNotFound),
            self@.invoices.contains_key(invoice_id) ==> match paid_with_tips(self@.inv(invoice_id).payments, payer, self@.inv(invoice_id).payments.len()) {
                None => r == Err::<PaymentProof, SplitError>(SplitError::ArithmeticOverflow),
                Some(t) => r is Ok && r->Ok_0.invoice_id == invoice_id && r->Ok_0.payer == payer && r->Ok_0.total_paid == t
                    && r->Ok_0.proof_hash@ == sha256_digest(payment_preimage(invoice_id, t)),
            },
    {
        let inv = match self.load_invoice(invoice_id) {
            Ok(i) => i,
            Err(e) => return Err(e),
        };
        let t = match paid_with_tips_of(&inv.payments, payer) {
            Some(x) => x,
            None => return Err(SplitError::ArithmeticOverflow),
        };
        let pre = payment_preimage_of(invoice_id, t);
        let proof_hash = sha256(env, &pre);
        Ok(PaymentProof { invoice_id, payer, total_paid: t, proof_hash })
    }
}

} // verus!
