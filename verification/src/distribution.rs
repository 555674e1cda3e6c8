//! How a release divides the funded amount among recipients, and the
//! per-recipient tax and platform fee.

use vstd::prelude::*;
use crate::types::SplitRule;
use crate::invoice::{Invoice, InvoiceView};
use crate::effects::SplitError;
use crate::math::{bps_of, bps_of_spec, mul_div, mul_div_spec};

verus! {

/// Gross share, tax and platform fee of one recipient; the recipient
/// receives `proportional - tax - fee`.
#[derive(Clone, Copy, Debug, PartialEq, Eq, Structural)]
pub struct ShareLine {
    pub proportional: i128,
    pub tax: i128,
    pub fee: i128,
}

/// Running totals over the share lines computed so far.
#[derive(Clone, Copy, Debug, PartialEq, Eq, Structural)]
pub struct ShareTotals {
    pub distributed: i128,
    pub total_tax: i128,
    pub total_fee: i128,
}

pub open spec fn fits_i128(x: int) -> bool {
    i128::MIN <= x <= i128::MAX
}

/// What a split rule pays out of `funded`.
pub open spec fn rule_amount(rule: SplitRule, funded: i128) -> Option<i128> {
    match rule {
        SplitRule::Fixed(a) => Some(a),
        SplitRule::Percentage(bps) => mul_div_spec(funded, bps as i128, 10_000),
        SplitRule::Tiered(threshold, bps) => if funded > threshold {
            mul_div_spec(funded, bps as i128, 10_000)
        } else {
            Some(0)
        },
    }
}

/// Gross share of recipient `i`: its split rule if the invoice has rules,
/// the remainder `funded - distributed` for the last recipient, and
/// `amounts[i] * funded / total` otherwise.
pub open spec fn gross_share(inv: InvoiceView, funded: i128, total: i128, distributed: i128, i: int) -> Result<i128, SplitError> {
    if i >= inv.amounts.len() {
        Err(SplitError::MissingElement)
    } else if inv.split_rules.len() > 0 {
        if i >= inv.split_rules.len() {
            Err(SplitError::MissingElement)
        } else {
            match rule_amount(inv.split_rules[i], funded) {
                Some(a) => Ok(a),
                None => Err(SplitError::ArithmeticOverflow),
            }
        }
    } else if i == inv.recipients.len() - 1 {
        if fits_i128(funded - distributed) {
            Ok((funded - distributed) as i128)
        } else {
            Err(SplitError::ArithmeticOverflow)
        }
    } else {
        match mul_div_spec(inv.amounts[i], funded, total) {
            Some(a) => Ok(a),
            None => Err(SplitError::ArithmeticOverflow),
        }
    }
}

/// Share line of recipient `i`: tax on the gross share, platform fee on the
/// share after tax.
pub open spec fn share_line(inv: InvoiceView, fee_bps: u32, funded: i128, total: i128, distributed: i128, i: int) -> Result<ShareLine, SplitError> {
    match gross_share(inv, funded, total, distributed, i) {
        Err(e) => Err(e),
        Ok(p) => {
            if !fits_i128(distributed + p) {
                Err(SplitError::ArithmeticOverflow)
            } else {
                match bps_of_spec(p, inv.tax_bps) {
                    None => Err(SplitError::ArithmeticOverflow),
                    Some(tax) => if !fits_i128(p - tax) {
                        Err(SplitError::ArithmeticOverflow)
                    } else {
                        match bps_of_spec((p - tax) as i128, fee_bps) {
                            None => Err(SplitError::ArithmeticOverflow),
                            Some(fee) => Ok(ShareLine { proportional: p, tax, fee }),
                        }
                    },
                }
            }
        },
    }
}

/// The share lines of the first `k` recipients with their running totals.
pub open spec fn share_lines(inv: InvoiceView, fee_bps: u32, funded: i128, total: i128, k: nat) -> Result<(Seq<ShareLine>, ShareTotals), SplitError>
    decreases k,
{
    if k == 0 {
        Ok((Seq::empty(), ShareTotals { distributed: 0, total_tax: 0, total_fee: 0 }))
    } else {
        match share_lines(inv, fee_bps, funded, total, (k - 1) as nat) {
            Err(e) => Err(e),
            Ok((lines, t)) => match share_line(inv, fee_bps, funded, total, t.distributed, k - 1) {
                Err(e) => Err(e),
                Ok(l) => if !fits_i128(t.total_tax + l.tax) || !fits_i128(t.total_fee + l.fee) {
                    Err(SplitError::ArithmeticOverflow)
                } else {
                    Ok((
                        lines.push(l),
                        ShareTotals {
                            distributed: (t.distributed + l.proportional) as i128,
                            total_tax: (t.total_tax + l.tax) as i128,
                            total_fee: (t.total_fee + l.fee) as i128,
                        },
                    ))
                },
            },
        }
    }
}

/// Computed share lines have one line per recipient walked.
pub proof fn lemma_share_lines_len(inv: InvoiceView, fee_bps: u32, funded: i128, total: i128, k: nat)
    ensures
        share_lines(inv, fee_bps, funded, total, k) is Ok ==> share_lines(inv, fee_bps, funded, total, k)->Ok_0.0.len() == k,
    decreases k,
{
    if k > 0 {
        lemma_share_lines_len(inv, fee_bps, funded, total, (k - 1) as nat);
    }
}

/// Once the share lines fail at some recipient, they fail for every longer prefix.
pub proof fn lemma_share_lines_err_persists(inv: InvoiceView, fee_bps: u32, funded: i128, total: i128, k: nat, m: nat)
    requires
        k <= m,
        share_lines(inv, fee_bps, funded, total, k) is Err,
    ensures
        share_lines(inv, fee_bps, funded, total, m) == share_lines(inv, fee_bps, funded, total, k),
    decreases m - k,
{
    if k < m {
        lemma_share_lines_err_persists(inv, fee_bps, funded, total, k, (m - 1) as nat);
    }
}

/// Share line of recipient `i` given the running totals before it.
fn compute_share_line(inv: &Invoice, fee_bps: u32, funded: i128, total: i128, t: ShareTotals, i: usize) -> (r: Result<(ShareLine, ShareTotals), SplitError>)
    requires
        i < inv@.recipients.len(),
    ensures
        match share_line(inv@, fee_bps, funded, total, t.distributed, i as int) {
            Err(e) => r == Err::<(ShareLine, ShareTotals), SplitError>(e),
            Ok(l) => if !fits_i128(t.total_tax + l.tax) || !fits_i128(t.total_fee + l.fee) {
                r == Err::<(ShareLine, ShareTotals), SplitError>(SplitError::ArithmeticOverflow)
            } else {
                r == Ok::<(ShareLine, ShareTotals), SplitError>((l, ShareTotals {
                    distributed: (t.distributed + l.proportional) as i128,
                    total_tax: (t.total_tax + l.tax) as i128,
                    total_fee: (t.total_fee + l.fee) as i128,
                }))
            },
        },
{
    if i >= inv.amounts.len() {
        return Err(SplitError::MissingElement);
    }
    let n = inv.recipients.len();
    let p: i128 = if inv.split_rules.len() > 0 {
        if i >= inv.split_rules.len() {
            return Err(SplitError::MissingElement);
        }
        let a = match inv.split_rules[i] {
            SplitRule::Fixed(a) => Some(a),
            SplitRule::Percentage(bps) => mul_div(funded, bps as i128, 10_000),
            SplitRule::Tiered(threshold, bps) => if funded > threshold {
                mul_div(funded, bps as i128, 10_000)
            } else {
                Some(0)
            },
        };
        match a {
            Some(a) => a,
            None => return Err(SplitError::ArithmeticOverflow),
        }
    } else if i == n - 1 {
        match funded.checked_sub(t.distributed) {
            Some(a) => a,
            None => return Err(SplitError::ArithmeticOverflow),
        }
    } else {
        match mul_div(inv.amounts[i], funded, total) {
            Some(a) => a,
            None => return Err(SplitError::ArithmeticOverflow),
        }
    };
    let distributed = match t.distributed.checked_add(p) {
        Some(d) => d,
        None => return Err(SplitError::ArithmeticOverflow),
    };
    let tax = match bps_of(p, inv.tax_bps) {
        Some(x) => x,
        None => return Err(SplitError::ArithmeticOverflow),
    };
    let post_tax = match p.checked_sub(tax) {
        Some(x) => x,
        None => return Err(SplitError::ArithmeticOverflow),
    };
    let fee = match bps_of(post_tax, fee_bps) {
        Some(x) => x,
        None => return Err(SplitError::ArithmeticOverflow),
    };
    let total_tax = match t.total_tax.checked_add(tax) {
        Some(x) => x,
        None => return Err(SplitError::ArithmeticOverflow),
    };
    let total_fee = match t.total_fee.checked_add(fee) {
        Some(x) => x,
        None => return Err(SplitError::ArithmeticOverflow),
    };
    Ok((ShareLine { proportional: p, tax, fee }, ShareTotals { distributed, total_tax, total_fee }))
}

/// Share lines of all recipients of `inv` for a release of `funded` out of `total`.
pub fn compute_share_lines(inv: &Invoice, fee_bps: u32, funded: i128, total: i128) -> (r: Result<(Vec<ShareLine>, ShareTotals), SplitError>)
    ensures
        match (r, share_lines(inv@, fee_bps, funded, total, inv@.recipients.len())) {
            (Ok((v, t)), Ok((s, st))) => v@ == s && t == st,
            (Err(e), Err(se)) => e == se,
            _ => false,
        },
{
    let n = inv.recipients.len();
    let mut lines: Vec<ShareLine> = Vec::new();
    let mut t = ShareTotals { distributed: 0, total_tax: 0, total_fee: 0 };
    let mut i: usize = 0;
    while i < n
        invariant
            i <= n,
            n == inv@.recipients.len(),
            share_lines(inv@, fee_bps, funded, total, i as nat) == Ok::<(Seq<ShareLine>, ShareTotals), SplitError>((lines@, t)),
        decreases n - i,
    {
        match compute_share_line(inv, fee_bps, funded, total, t, i) {
            Err(e) => {
                proof {
                    lemma_share_lines_err_persists(inv@, fee_bps, funded, total, (i + 1) as nat, n as nat);
                }
                return Err(e);
            },
            Ok((l, t2)) => {
                lines.push(l);
                t = t2;
            },
        }
        i = i + 1;
    }
    Ok((lines, t))
}

} // verus!
