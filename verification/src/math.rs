//! Integer helpers with the exact semantics of the contract's arithmetic:
//! sums that abort on overflow and `(a as u128 * b as u128 / c as u128) as i128`.

use vstd::prelude::*;

verus! {

/// 2^128.
pub open spec fn two_pow_128() -> int {
    u128::MAX as int + 1
}

/// The value of `x as u128` for an `i128` x (two's complement).
pub open spec fn as_u128(x: i128) -> int {
    if x >= 0 {
        x as int
    } else {
        x + two_pow_128()
    }
}

/// The value of `q as i128` for a `u128` q (two's complement).
pub open spec fn wrap_i128(q: int) -> int {
    if q <= i128::MAX {
        q
    } else {
        q - two_pow_128()
    }
}

/// `(a as u128 * b as u128 / c as u128) as i128`, or `None` where the product
/// overflows `u128` or the divisor is zero.
pub open spec fn mul_div_spec(a: i128, b: i128, c: i128) -> Option<i128> {
    let p = as_u128(a) * as_u128(b);
    if as_u128(c) == 0 || p > u128::MAX {
        None
    } else {
        Some(wrap_i128(p / as_u128(c)) as i128)
    }
}

/// `(x as u128 * bps as u128 / 10_000) as i128`, or `None` on overflow.
pub open spec fn bps_of_spec(x: i128, bps: u32) -> Option<i128> {
    mul_div_spec(x, bps as i128, 10_000)
}

/// Sum of a sequence of i128 values.
pub open spec fn sum_i128(s: Seq<i128>) -> int
    decreases s.len(),
{
    if s.len() == 0 {
        0
    } else {
        sum_i128(s.drop_last()) + s.last()
    }
}

/// Every running sum of `s` (what `iter().sum()` computes step by step) fits in i128.
pub open spec fn running_sums_fit_i128(s: Seq<i128>) -> bool {
    forall|k: int| 0 <= k <= s.len() ==> i128::MIN <= #[trigger] sum_i128(s.take(k)) <= i128::MAX
}

/// Sum of a sequence of u32 values.
pub open spec fn sum_u32(s: Seq<u32>) -> int
    decreases s.len(),
{
    if s.len() == 0 {
        0
    } else {
        sum_u32(s.drop_last()) + s.last()
    }
}

/// `x as u128` computed without a cast of a negative value.
pub fn to_u128(x: i128) -> (r: u128)
    ensures
        r == as_u128(x),
{
    if x >= 0 {
        x as u128
    } else {
        ((x + i128::MAX + 1) as u128) + (i128::MAX as u128) + 1
    }
}

/// `q as i128` computed without a cast of an out-of-range value.
pub fn from_u128(q: u128) -> (r: i128)
    ensures
        r == wrap_i128(q as int),
{
    if q <= i128::MAX as u128 {
        q as i128
    } else {
        ((q - 0x8000_0000_0000_0000_0000_0000_0000_0000u128) as i128) + i128::MIN
    }
}

/// `(a as u128 * b as u128 / c as u128) as i128`; `None` where that aborts.
pub fn mul_div(a: i128, b: i128, c: i128) -> (r: Option<i128>)
    ensures
        r == mul_div_spec(a, b, c),
{
    let ua = to_u128(a);
    let ub = to_u128(b);
    let uc = to_u128(c);
    if uc == 0 {
        return None;
    }
    match ua.checked_mul(ub) {
        None => None,
        Some(p) => Some(from_u128(p / uc)),
    }
}

/// `(x as u128 * bps as u128 / 10_000) as i128`; `None` where that aborts.
pub fn bps_of(x: i128, bps: u32) -> (r: Option<i128>)
    ensures
        r == bps_of_spec(x, bps),
{
    mul_div(x, bps as i128, 10_000)
}

pub proof fn lemma_sum_i128_take_full(s: Seq<i128>)
    ensures
        s.take(s.len() as int) == s,
{
    assert(s.take(s.len() as int) =~= s);
}

pub proof fn lemma_sum_i128_step(s: Seq<i128>, k: int)
    requires
        0 <= k < s.len(),
    ensures
        sum_i128(s.take(k + 1)) == sum_i128(s.take(k)) + s[k],
{
    assert(s.take(k + 1).drop_last() =~= s.take(k));
}

pub proof fn lemma_sum_u32_step(s: Seq<u32>, k: int)
    requires
        0 <= k < s.len(),
    ensures
        sum_u32(s.take(k + 1)) == sum_u32(s.take(k)) + s[k],
{
    assert(s.take(k + 1).drop_last() =~= s.take(k));
}

/// `v.iter().sum()` over i128 values; `None` where a running sum overflows.
pub fn checked_sum_i128(v: &Vec<i128>) -> (r: Option<i128>)
    ensures
        r is Some <==> running_sums_fit_i128(v@),
        r is Some ==> r->0 == sum_i128(v@),
{
    let mut acc: i128 = 0;
    let mut i: usize = 0;
    assert(v@.take(0) =~= Seq::<i128>::empty());
    while i < v.len()
        invariant
            i <= v.len(),
            acc == sum_i128(v@.take(i as int)),
            forall|k: int| 0 <= k <= i ==> i128::MIN <= #[trigger] sum_i128(v@.take(k)) <= i128::MAX,
        decreases v.len() - i,
    {
        proof {
            lemma_sum_i128_step(v@, i as int);
        }
        match acc.checked_add(v[i]) {
            Some(a) => {
                acc = a;
            },
            None => {
                assert(!(i128::MIN <= sum_i128(v@.take(i + 1)) <= i128::MAX));
                return None;
            },
        }
        i = i + 1;
    }
    proof {
        lemma_sum_i128_take_full(v@);
    }
    Some(acc)
}

/// Sum of u32 values; `None` where a running sum overflows u32.
pub fn checked_sum_u32(v: &Vec<u32>) -> (r: Option<u32>)
    ensures
        r is Some <==> (forall|k: int| 0 <= k <= v@.len() ==> #[trigger] sum_u32(v@.take(k)) <= u32::MAX),
        r is Some ==> r->0 == sum_u32(v@),
{
    let mut acc: u32 = 0;
    let mut i: usize = 0;
    assert(v@.take(0) =~= Seq::<u32>::empty());
    while i < v.len()
        invariant
            i <= v.len(),
            acc == sum_u32(v@.take(i as int)),
            forall|k: int| 0 <= k <= i ==> #[trigger] sum_u32(v@.take(k)) <= u32::MAX,
        decreases v.len() - i,
    {
        proof {
            lemma_sum_u32_step(v@, i as int);
        }
        match acc.checked_add(v[i]) {
            Some(a) => {
                acc = a;
            },
            None => {
                assert(!(sum_u32(v@.take(i + 1)) <= u32::MAX));
                return None;
            },
        }
        i = i + 1;
    }
    assert(v@.take(v@.len() as int) =~= v@);
    Some(acc)
}

} // verus!
