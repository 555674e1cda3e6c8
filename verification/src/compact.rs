//! The compact byte form of an invoice's changing fields: status, funded
//! amount and deadline.

use vstd::prelude::*;
use vstd::arithmetic::power::pow;
use crate::types::InvoiceStatus;
use crate::invoice::{Invoice, InvoiceCore, InvoiceExt, InvoiceExt2};
use crate::math::{as_u128, wrap_i128, to_u128, from_u128};
use crate::proofs::{le_bytes, be_bytes, be_bytes_of, status_byte};

verus! {

/// Status, funded amount and deadline of an invoice in bytes: one status
/// byte, the funded amount in 16 bytes and the deadline in 8, big-endian.
pub struct CompactInvoice {
    pub data: Vec<u8>,
}

/// The compact bytes of an invoice with this status, funding and deadline.
pub open spec fn compact_bytes(status: InvoiceStatus, funded: i128, deadline: u64) -> Seq<u8> {
    seq![status_byte(status)] + be_bytes(as_u128(funded) as nat, 16) + be_bytes(deadline as nat, 8)
}

/// The number that big-endian bytes `s` spell.
pub open spec fn be_value(s: Seq<u8>) -> nat
    decreases s.len(),
{
    if s.len() == 0 {
        0
    } else {
        (be_value(s.drop_last()) * 256 + s.last()) as nat
    }
}

/// The status a compact status byte stands for; an unknown byte reads as
/// pending.
pub open spec fn status_of_byte(b: u8) -> InvoiceStatus {
    if b == 1 {
        InvoiceStatus::Released
    } else if b == 2 {
        InvoiceStatus::Refunded
    } else if b == 3 {
        InvoiceStatus::Cancelled
    } else {
        InvoiceStatus::Pending
    }
}

/// The invoice made of `core`, `ext` and `ext2` with status, funded amount
/// and deadline read from the compact bytes `data`.
pub open spec fn restored(data: Seq<u8>, core: InvoiceCore, ext: InvoiceExt, ext2: InvoiceExt2) -> Invoice {
    Invoice {
        status: status_of_byte(data[0]),
        funded: wrap_i128(be_value(data.subrange(1, 17)) as int) as i128,
        deadline: be_value(data.subrange(17, 25)) as u64,
        ..Invoice::spec_assemble(core, ext, ext2)
    }
}

/// The number that big-endian bytes spell; see `be_value`.
pub fn be_value_of(s: &Vec<u8>, from: usize, to: usize) -> (r: u128)
    requires
        from <= to <= s@.len(),
        to - from <= 16,
    ensures
        r == be_value(s@.subrange(from as int, to as int)),
{
    let mut v: u128 = 0;
    let mut i: usize = from;
    proof { vstd::arithmetic::power::lemma_pow0(256); }
    while i < to
        invariant
            from <= i <= to,
            to <= s@.len(),
            to - from <= 16,
            v == be_value(s@.subrange(from as int, i as int)),
            v < pow(256, (i - from) as nat),
        decreases to - i,
    {
        proof {
            assert(s@.subrange(from as int, i + 1).drop_last() =~= s@.subrange(from as int, i as int));
            vstd::arithmetic::power::lemma_pow_adds(256, (i - from) as nat, 1);
            vstd::arithmetic::power::lemma_pow1(256);
            lemma_pow256_bound((i + 1 - from) as nat);
            assert(v * 256 + 255 < pow(256, (i + 1 - from) as nat)) by (nonlinear_arith)
                requires
                    v < pow(256, (i - from) as nat),
                    pow(256, (i + 1 - from) as nat) == pow(256, (i - from) as nat) * 256;
        }
        v = v * 256 + s[i] as u128;
        i = i + 1;
    }
    v
}

/// The powers of 256 up to 16 bytes.
pub proof fn lemma_pow256_values()
    ensures
        pow(256, 8) == 0x1_0000_0000_0000_0000,
        pow(256, 16) == u128::MAX as int + 1,
{
    reveal(pow);
    assert(pow(256, 0) == 1);
    assert(pow(256, 1) == 256);
    assert(pow(256, 2) == 65536);
    assert(pow(256, 3) == 16777216);
    assert(pow(256, 4) == 4294967296);
    assert(pow(256, 5) == 1099511627776);
    assert(pow(256, 6) == 281474976710656);
    assert(pow(256, 7) == 72057594037927936);
    assert(pow(256, 8) == 18446744073709551616);
    assert(pow(256, 9) == 4722366482869645213696);
    assert(pow(256, 10) == 1208925819614629174706176);
    assert(pow(256, 11) == 309485009821345068724781056);
    assert(pow(256, 12) == 79228162514264337593543950336);
    assert(pow(256, 13) == 20282409603651670423947251286016);
    assert(pow(256, 14) == 5192296858534827628530496329220096);
    assert(pow(256, 15) == 1329227995784915872903807060280344576);
    assert(pow(256, 16) == 340282366920938463463374607431768211456);
}

/// 256 to the power `n` fits u128 arithmetic up to 16 bytes.
pub proof fn lemma_pow256_bound(n: nat)
    requires
        n <= 16,
    ensures
        pow(256, n) <= u128::MAX as int + 1,
        pow(256, n) > 0,
{
    vstd::arithmetic::power::lemma_pow_positive(256, n);
    lemma_pow256_values();
    vstd::arithmetic::power::lemma_pow_increases(256, n, 16);
}

/// Reading back little-endian bytes reversed gives the number modulo the
/// range of `n` bytes.
pub proof fn lemma_be_value_of_bytes(x: nat, n: nat)
    ensures
        be_value(be_bytes(x, n)) == x % (pow(256, n) as nat),
        be_bytes(x, n).len() == n,
    decreases n,
{
    reveal(pow);
    vstd::arithmetic::power::lemma_pow_positive(256, n);
    if n == 0 {
        assert(be_bytes(x, 0) =~= Seq::<u8>::empty());
    } else {
        let rest = le_bytes(x / 256, (n - 1) as nat);
        lemma_be_value_of_bytes(x / 256, (n - 1) as nat);
        assert(le_bytes(x, n) == seq![(x % 256) as u8] + rest);
        assert(be_bytes(x, n) =~= rest.reverse().push((x % 256) as u8));
        assert(be_bytes(x, n).drop_last() =~= rest.reverse());
        vstd::arithmetic::power::lemma_pow_positive(256, (n - 1) as nat);
        let p = pow(256, (n - 1) as nat);
        assert(pow(256, n) == 256 * p);
        vstd::arithmetic::div_mod::lemma_mod_breakdown(x as int, 256, p);
        assert((x as int) % (256 * p) == 256 * (((x as int) / 256) % p) + (x as int) % 256);
    }
}

impl Invoice {
    /// The compact bytes of this invoice's status, funding and deadline.
    pub fn to_compact(&self) -> (r: CompactInvoice)
        ensures
            r.data@ == compact_bytes(self.status, self.funded, self.deadline),
    {
        let mut data: Vec<u8> = Vec::new();
        let b: u8 = match self.status {
            InvoiceStatus::Pending => 0,
            InvoiceStatus::Released => 1,
            InvoiceStatus::Refunded => 2,
            InvoiceStatus::Cancelled => 3,
        };
        data.push(b);
        let mut f = be_bytes_of(to_u128(self.funded), 16);
        data.append(&mut f);
        let mut d = be_bytes_of(self.deadline as u128, 8);
        data.append(&mut d);
        CompactInvoice { data }
    }

    /// The invoice made of `core`, `ext` and `ext2` with the status,
    /// funding and deadline of `compact`.
    pub fn from_compact(compact: &CompactInvoice, core: InvoiceCore, ext: InvoiceExt, ext2: InvoiceExt2) -> (r: Invoice)
        requires
            compact.data@.len() >= 25,
        ensures
            r == restored(compact.data@, core, ext, ext2),
    {
        let bytes = &compact.data;
        let status = if bytes[0] == 1 {
            InvoiceStatus::Released
        } else if bytes[0] == 2 {
            InvoiceStatus::Refunded
        } else if bytes[0] == 3 {
            InvoiceStatus::Cancelled
        } else {
            InvoiceStatus::Pending
        };
        let funded = from_u128(be_value_of(bytes, 1, 17));
        let deadline_wide = be_value_of(bytes, 17, 25);
        proof {
            lemma_pow256_values();
        }
        let deadline = deadline_wide as u64;
        let mut invoice = Invoice::assemble(core, ext, ext2);
        invoice.status = status;
        invoice.funded = funded;
        invoice.deadline = deadline;
        invoice
    }
}

} // verus!
