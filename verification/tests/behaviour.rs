use soroban_sdk::{Bytes, Env};

use stellar_split::effects::{Action, Event, SplitError};
use stellar_split::invoice::{Invoice, LegacyInvoice};
use stellar_split::math::{bps_of, checked_sum_i128, mul_div};
use stellar_split::proofs::completion_preimage_of;
use stellar_split::state::SplitContract;
use stellar_split::terms::InvoiceOptions;
use stellar_split::types::{Address, AuditAction, CreateInvoiceParams, InvoicePayment, InvoiceStatus, OverflowBehavior, Payment, SplitRule, TimelockAction};

const CONTRACT: Address = Address(1);
const TOKEN: Address = Address(2);
const ADMIN: Address = Address(30);
const TREASURY: Address = Address(31);
const CREATOR: Address = Address(10);
const PAYER: Address = Address(12);

fn options() -> InvoiceOptions {
    InvoiceOptions {
        co_creators: Vec::new(),
        allow_early_withdrawal: false,
        bonus_pool: 0,
        bonus_max_payers: 0,
        prerequisite_id: None,
        tranches: Vec::new(),
        co_signers: Vec::new(),
        required_signatures: 0,
        penalty_bps: None,
        penalty_deadline: None,
        min_funding_bps: None,
        release_stages: Vec::new(),
        price_oracle: None,
        swap_tokens: Vec::new(),
        oracle_address: None,
        tax_bps: None,
        tax_authority: None,
        insurance_premium_bps: None,
        smart_route: None,
        notification_contract: None,
        overflow_behavior: OverflowBehavior::Reject,
        convert_to_stream: false,
        accepted_tokens: Vec::new(),
        forward_to: None,
        forward_invoice_id: None,
        creator_cosigner: None,
        velocity_limit: 0,
        velocity_window: 0,
        split_rules: Vec::new(),
        auto_resolve_rules: Vec::new(),
        cross_chain_ref: None,
        allowed_payers: None,
        min_funding_amount: None,
        payment_cooldown_secs: None,
        max_payments_per_window: None,
        payment_window_secs: None,
        priorities: Vec::new(),
    }
}

fn initialized(platform_fee_bps: u32) -> SplitContract {
    let mut c = SplitContract::new(CONTRACT);
    c.initialize(ADMIN, 0, TREASURY, Address(32), platform_fee_bps, None, 0, 0, 0).unwrap();
    c
}

fn create(c: &mut SplitContract, recipients: Vec<Address>, amounts: Vec<i128>, deadline: u64) -> u64 {
    c.create_invoice(1_000, CREATOR, recipients, amounts, TOKEN, deadline, options(), 0, false).unwrap().0
}

fn pay(c: &mut SplitContract, payer: Address, id: u64, amount: i128, now: u64) -> Result<Vec<Action>, SplitError> {
    let nonce = c.get_nonce(id, payer);
    c.pay(payer, id, amount, nonce, now, 0, false, false)
}

fn stored(c: &SplitContract, id: u64) -> Invoice {
    c.invoices.get(&id).unwrap().invoice.copy()
}

/// Sum of the transfers of `acts` from `from` to `to`.
fn moved(acts: &[Action], from: Address, to: Address) -> i128 {
    acts.iter()
        .map(|a| match a {
            Action::Transfer { token, from: f, to: t, amount } if *token == TOKEN && *f == from && *t == to => *amount,
            _ => 0,
        })
        .sum()
}

/// Sum of all transfers of `acts` out of `from`.
fn moved_out(acts: &[Action], from: Address) -> i128 {
    acts.iter()
        .map(|a| match a {
            Action::Transfer { token, from: f, amount, .. } if *token == TOKEN && *f == from => *amount,
            _ => 0,
        })
        .sum()
}

#[test]
fn mul_div_and_basis_points() {
    assert_eq!(mul_div(7, 3, 2), Some(10));
    assert_eq!(mul_div(1000, 250, 10_000), Some(25));
    assert_eq!(mul_div(5, 5, 0), None);
    assert_eq!(bps_of(1000, 250), Some(25));
    assert_eq!(bps_of(999, 1), Some(0));
    assert_eq!(checked_sum_i128(&vec![1, 2, 3]), Some(6));
    assert_eq!(checked_sum_i128(&vec![i128::MAX, 1]), None);
}

#[test]
fn release_with_platform_fee_distributes_funded_amount() {
    let mut c = initialized(250);
    let (r1, r2, r3) = (Address(21), Address(22), Address(23));
    let id = create(&mut c, vec![r1, r2, r3], vec![333, 333, 334], 9_999);
    let acts = pay(&mut c, PAYER, id, 1_000, 1_000).unwrap();

    assert_eq!(moved(&acts, PAYER, CONTRACT), 1_000);
    // 2.5% of each share goes to the treasury.
    assert_eq!(moved(&acts, CONTRACT, r1), 325);
    assert_eq!(moved(&acts, CONTRACT, r2), 325);
    assert_eq!(moved_out(&acts, CONTRACT), 1_000);
    assert_eq!(moved(&acts, CONTRACT, TREASURY) + moved(&acts, CONTRACT, r1) + moved(&acts, CONTRACT, r2) + moved(&acts, CONTRACT, r3), 1_000);
    assert_eq!(c.get_invoice(id).unwrap().status, InvoiceStatus::Released);
}

#[test]
fn payment_advances_nonce_and_stale_nonce_is_rejected() {
    let mut c = initialized(0);
    let id = create(&mut c, vec![Address(21)], vec![500], 9_999);
    assert_eq!(c.get_nonce(id, PAYER), 0);
    pay(&mut c, PAYER, id, 100, 1_000).unwrap();
    assert_eq!(c.get_nonce(id, PAYER), 1);
    assert_eq!(c.pay(PAYER, id, 100, 0, 1_000, 0, false, false).unwrap_err(), SplitError::InvalidNonce);
}

#[test]
fn refund_before_deadline_is_rejected() {
    let mut c = initialized(0);
    let id = create(&mut c, vec![Address(21)], vec![500], 2_000);
    pay(&mut c, PAYER, id, 100, 1_000).unwrap();
    assert!(c.refund(id, 1_500).is_err());
    assert_eq!(c.get_invoice(id).unwrap().status, InvoiceStatus::Pending);
}

#[test]
fn refund_returns_each_payers_total() {
    let mut c = initialized(0);
    let (p1, p2) = (Address(41), Address(42));
    let id = create(&mut c, vec![Address(21)], vec![1_000], 2_000);
    pay(&mut c, p1, id, 100, 1_000).unwrap();
    pay(&mut c, p2, id, 50, 1_000).unwrap();
    pay(&mut c, p1, id, 25, 1_000).unwrap();
    let acts = c.refund(id, 3_000).unwrap();
    assert_eq!(moved(&acts, CONTRACT, p1), 125);
    assert_eq!(moved(&acts, CONTRACT, p2), 50);
    assert!(acts.contains(&Action::Emit { event: Event::InvoiceRefunded { invoice_id: id } }));
}

#[test]
fn missing_invoice_is_reported() {
    let c = initialized(0);
    assert_eq!(c.get_invoice(42).err(), Some(SplitError::InvoiceNotFound));
    assert!(!c.verify_invoice(42, InvoiceStatus::Pending));
}

#[test]
fn initialize_errors() {
    let mut c = initialized(0);
    assert_eq!(c.initialize(ADMIN, 0, TREASURY, Address(32), 0, None, 0, 0, 0).unwrap_err(), SplitError::AlreadyInitialized);
    let mut d = SplitContract::new(CONTRACT);
    assert_eq!(d.initialize(ADMIN, 0, TREASURY, Address(32), 10_001, None, 0, 0, 0).unwrap_err(), SplitError::PlatformFeeBpsMustBeLe10000);
    assert_eq!(d.initialize(ADMIN, -1, TREASURY, Address(32), 0, None, 0, 0, 0).unwrap_err(), SplitError::CreationFeeMustBeNonNegative);
}

#[test]
fn paused_contract_rejects_creation() {
    let mut c = initialized(0);
    c.pause(ADMIN).unwrap();
    let e = c.create_invoice(1_000, CREATOR, vec![Address(21)], vec![100], TOKEN, 9_999, options(), 0, false).unwrap_err();
    assert_eq!(e, SplitError::ContractIsPaused);
    c.unpause(ADMIN).unwrap();
    assert_eq!(create(&mut c, vec![Address(21)], vec![100], 9_999), 1);
}

#[test]
fn creator_whitelist_is_enforced() {
    let mut c = initialized(0);
    c.whitelist_creator(ADMIN, Address(99)).unwrap();
    let e = c.create_invoice(1_000, CREATOR, vec![Address(21)], vec![100], TOKEN, 9_999, options(), 0, false).unwrap_err();
    assert_eq!(e, SplitError::CreatorNotWhitelisted);
    c.whitelist_creator(ADMIN, CREATOR).unwrap();
    assert!(c.create_invoice(1_000, CREATOR, vec![Address(21)], vec![100], TOKEN, 9_999, options(), 0, false).is_ok());
}

#[test]
fn compact_form_round_trips() {
    let mut c = initialized(0);
    let id = create(&mut c, vec![Address(21)], vec![500], 9_999);
    pay(&mut c, PAYER, id, 123, 1_000).unwrap();
    let inv = stored(&c, id);
    let compact = inv.to_compact();
    assert_eq!(compact.data.len(), 25);
    assert_eq!(compact.data[0], 0);
    let (core, ext, ext2) = stored(&c, id).split();
    let back = Invoice::from_compact(&compact, core, ext, ext2);
    assert_eq!(back.status, InvoiceStatus::Pending);
    assert_eq!(back.funded, 123);
    assert_eq!(back.deadline, 9_999);
    assert_eq!(back.creator, CREATOR);
}

#[test]
fn split_then_assemble_gives_the_invoice_back() {
    let mut c = initialized(0);
    let id = create(&mut c, vec![Address(21), Address(22)], vec![500, 700], 9_999);
    let (core, ext, ext2) = stored(&c, id).split();
    let inv = Invoice::assemble(core, ext, ext2);
    assert_eq!(inv.recipients, vec![Address(21), Address(22)]);
    assert_eq!(inv.amounts, vec![500, 700]);
    assert_eq!(inv.deadline, 9_999);
    assert_eq!(inv.creator, CREATOR);
}

#[test]
fn archive_keeps_the_invoice() {
    let mut c = initialized(0);
    let id = create(&mut c, vec![Address(21)], vec![100], 9_999);
    assert_eq!(c.archive_invoice(id).unwrap_err(), SplitError::InvoiceNotCompleted);
    pay(&mut c, PAYER, id, 100, 1_000).unwrap();
    c.archive_invoice(id).unwrap();
    assert!(c.invoices.get(&id).unwrap().archived);
    assert!(c.verify_invoice(id, InvoiceStatus::Released));
    let inv = c.get_invoice(id).unwrap();
    assert_eq!(inv.status, InvoiceStatus::Released);
    assert_eq!(inv.funded, 100);
    assert_eq!(c.archive_invoice(id).unwrap_err(), SplitError::InvoiceNotFound);
}

#[test]
fn compression_keeps_funded() {
    let mut c = initialized(0);
    let id = create(&mut c, vec![Address(21)], vec![1_000], 9_999);
    pay(&mut c, PAYER, id, 100, 1_000).unwrap();
    pay(&mut c, Address(43), id, 40, 1_000).unwrap();
    pay(&mut c, PAYER, id, 60, 1_000).unwrap();
    c.compress_payments(id).unwrap();
    let inv = c.get_invoice(id).unwrap();
    assert_eq!(inv.funded, 200);
    assert_eq!(inv.payments.iter().map(|p| p.amount).sum::<i128>(), 200);
    assert_eq!(inv.payments.iter().filter(|p| p.payer == PAYER).count(), 1);
}

#[test]
fn pause_then_resume_unfreezes() {
    let mut c = initialized(0);
    let id = create(&mut c, vec![Address(21)], vec![100], 9_999);
    c.pause_invoice(CREATOR, id, String::from("audit"), Some(5_000), 1_000).unwrap();
    assert!(c.get_invoice(id).unwrap().frozen);
    assert_eq!(c.get_invoice_ext(id).unwrap().pause_reason, Some(String::from("audit")));
    assert_eq!(c.pause_invoice(CREATOR, id, String::from("again"), None, 1_000).unwrap_err(), SplitError::InvoiceIsAlreadyFrozen);
    c.resume_invoice(CREATOR, id, 1_100).unwrap();
    assert!(!c.get_invoice(id).unwrap().frozen);
    assert_eq!(c.get_invoice_ext(id).unwrap().pause_reason, None);
    assert_eq!(c.get_invoice_ext(id).unwrap().auto_resume_at, None);
    let log = c.get_audit_log(id);
    assert_eq!(log[0].action, AuditAction::Paused);
    assert_eq!(log[1].action, AuditAction::Resumed);
}

#[test]
fn completion_proof_digest_is_host_sha256_of_preimage() {
    let env = Env::default();
    let mut c = initialized(0);
    let id = create(&mut c, vec![Address(21)], vec![100], 9_999);
    assert_eq!(c.get_completion_proof(&env, id, 1_000).err(), Some(SplitError::InvoiceNotFinalized));
    pay(&mut c, PAYER, id, 100, 1_000).unwrap();
    let proof = c.get_completion_proof(&env, id, 1_500).unwrap();
    let pre = completion_preimage_of(id, 100, InvoiceStatus::Released);
    assert_eq!(pre.len(), 17);
    assert_eq!(pre[7], 1);
    assert_eq!(pre[15], 100);
    assert_eq!(pre[16], 1);
    let expected = env.crypto().sha256(&Bytes::from_slice(&env, &pre)).to_array().to_vec();
    assert_eq!(proof.hash, expected);
    assert_eq!(proof.hash.len(), 32);
    assert_ne!(proof.hash, pre);
    assert_eq!(proof.timestamp, 1_500);
    assert_eq!(proof.funded, 100);
}

#[test]
fn payment_proof_sums_amounts_of_the_payer() {
    let env = Env::default();
    let mut c = initialized(0);
    let id = create(&mut c, vec![Address(21)], vec![1_000], 9_999);
    pay(&mut c, PAYER, id, 100, 1_000).unwrap();
    pay(&mut c, PAYER, id, 150, 1_000).unwrap();
    let proof = c.generate_payment_proof(&env, id, PAYER).unwrap();
    assert_eq!(proof.total_paid, 250);
    assert_eq!(proof.proof_hash.len(), 32);
    let other = c.generate_payment_proof(&env, id, Address(77)).unwrap();
    assert_eq!(other.total_paid, 0);
    assert_ne!(other.proof_hash, proof.proof_hash);
}

#[test]
fn cancel_by_stranger_is_rejected() {
    let mut c = initialized(0);
    let id = create(&mut c, vec![Address(21)], vec![100], 9_999);
    assert_eq!(c.cancel_invoice(Address(77), id, 1_000).unwrap_err(), SplitError::OnlyCreatorCanCancel);
    assert_eq!(c.get_invoice(id).unwrap().status, InvoiceStatus::Pending);
}

#[test]
fn extend_deadline_must_move_later() {
    let mut c = initialized(0);
    let id = create(&mut c, vec![Address(21)], vec![100], 2_000);
    assert_eq!(c.extend_deadline(id, 1_500, CREATOR, 1_000).unwrap_err(), SplitError::NewDeadlineMustBeAfterCurrentDeadline);
    assert_eq!(c.extend_deadline(id, 3_000, Address(77), 1_000).unwrap_err(), SplitError::NotAuthorized);
}

#[test]
fn timelocked_action_waits_then_runs_once() {
    let mut c = initialized(0);
    c.set_timelock_secs(ADMIN, 100, 1_000).unwrap();
    let (id, _) = c.queue_action(ADMIN, TimelockAction::SetPlatformFee(300), 1_000).unwrap();
    assert_eq!(id, 1);
    assert_eq!(c.execute_action(id, 1_099).unwrap_err(), SplitError::TimelockNotYetElapsed);
    assert_eq!(c.get_platform_fee_bps(), 0);
    c.execute_action(id, 1_100).unwrap();
    assert_eq!(c.get_platform_fee_bps(), 300);
    assert_eq!(c.execute_action(id, 1_200).unwrap_err(), SplitError::ActionAlreadyExecuted);
}

#[test]
fn cancelled_action_never_runs() {
    let mut c = initialized(0);
    let (id, _) = c.queue_action(ADMIN, TimelockAction::SetTreasury(Address(55)), 1_000).unwrap();
    c.cancel_action(ADMIN, id, 1_000).unwrap();
    assert_eq!(c.execute_action(id, 9_000).unwrap_err(), SplitError::ActionNotFound);
    assert_eq!(c.get_treasury(), Ok(TREASURY));
}

#[test]
fn removed_creator_can_no_longer_create() {
    let mut c = initialized(0);
    c.whitelist_creator(ADMIN, CREATOR).unwrap();
    c.whitelist_creator(ADMIN, CREATOR).unwrap();
    c.whitelist_creator(ADMIN, Address(99)).unwrap();
    assert_eq!(c.creator_whitelist, vec![CREATOR, Address(99)]);
    c.remove_creator(ADMIN, CREATOR).unwrap();
    assert_eq!(c.creator_whitelist, vec![Address(99)]);
    let e = c.create_invoice(1_000, CREATOR, vec![Address(21)], vec![100], TOKEN, 9_999, options(), 0, false).unwrap_err();
    assert_eq!(e, SplitError::CreatorNotWhitelisted);
}

#[test]
fn overpayment_with_refund_behaviour_credits_only_the_balance() {
    let mut c = initialized(0);
    let mut o = options();
    o.overflow_behavior = OverflowBehavior::Refund;
    let (id, _) = c.create_invoice(1_000, CREATOR, vec![Address(21)], vec![100], TOKEN, 9_999, o, 0, false).unwrap();
    let acts = pay(&mut c, PAYER, id, 150, 1_000).unwrap();
    assert_eq!(moved(&acts, PAYER, CONTRACT), 150);
    assert_eq!(moved(&acts, CONTRACT, PAYER), 50);
    assert_eq!(moved(&acts, CONTRACT, Address(21)), 100);
    let inv = c.get_invoice(id).unwrap();
    assert_eq!(inv.funded, 100);
    assert_eq!(inv.status, InvoiceStatus::Released);
}

#[test]
fn each_recipient_claims_once() {
    let mut c = initialized(0);
    let (r1, r2) = (Address(21), Address(22));
    let id = create(&mut c, vec![r1, r2], vec![100, 300], 9_999);
    assert_eq!(c.claim(id, r1, 1_000).unwrap_err(), SplitError::InvoiceNotReleased);
    pay(&mut c, PAYER, id, 400, 1_000).unwrap();
    let acts = c.claim(id, r1, 1_100).unwrap();
    assert_eq!(moved(&acts, CONTRACT, r1), 100);
    assert_eq!(c.claim(id, r1, 1_200).unwrap_err(), SplitError::RecipientAlreadyClaimed);
    let acts = c.claim(id, r2, 1_200).unwrap();
    assert_eq!(moved(&acts, CONTRACT, r2), 300);
    assert_eq!(c.claim(id, Address(77), 1_200).unwrap_err(), SplitError::RecipientNotInInvoice);
}

#[test]
fn migration_is_safe_to_repeat() {
    let mut c = initialized(0);
    let id = create(&mut c, vec![Address(21)], vec![100], 9_999);
    c.invoices.get_mut(&id).unwrap().invoice.version = 0;
    let legacy = LegacyInvoice {
        creator: CREATOR,
        co_creators: Vec::new(),
        recipients: vec![Address(21)],
        amounts: vec![100],
        tokens: vec![TOKEN],
        deadline: 9_999,
        funded: 0,
        status: InvoiceStatus::Pending,
        payments: Vec::new(),
        drip_duration: None,
        release_timestamp: None,
        claimed: vec![0],
        frozen: false,
        completion_time: None,
        allow_early_withdrawal: false,
        bonus_pool: 0,
        bonus_max_payers: 0,
        prerequisite_id: None,
        tranches: Vec::new(),
        released_bps: 0,
        stake_amount: 0,
        referrer: None,
        tax_bps: 0,
        tax_authority: None,
        insurance_premium_bps: 0,
        insurance_fund: 0,
        smart_route: false,
    };
    c.migrate_invoice(ADMIN, id, Some(legacy)).unwrap();
    assert_eq!(c.get_invoice(id).unwrap().version, 1);
    assert_eq!(c.get_invoice_ext(id).unwrap().base_amounts, vec![100]);
    c.pay(PAYER, id, 40, 0, 1_000, 0, false, false).unwrap();
    c.migrate_invoice(ADMIN, id, None).unwrap();
    assert_eq!(c.get_invoice(id).unwrap().funded, 40);
    assert_eq!(c.get_invoice(id).unwrap().version, 1);
}

#[test]
fn deadline_extends_on_strict_majority_of_payers() {
    let mut c = initialized(0);
    let id = create(&mut c, vec![Address(21)], vec![1_000], 9_999);
    for p in [Address(41), Address(42), Address(43)] {
        pay(&mut c, p, id, 10, 1_000).unwrap();
    }
    assert_eq!(c.vote_extend_deadline(id, Address(77)).unwrap_err(), SplitError::OnlyPayersCanVote);
    c.vote_extend_deadline(id, Address(41)).unwrap();
    assert_eq!(c.get_invoice(id).unwrap().deadline, 9_999);
    c.vote_extend_deadline(id, Address(41)).unwrap();
    assert_eq!(c.get_invoice(id).unwrap().deadline, 9_999);
    c.vote_extend_deadline(id, Address(42)).unwrap();
    assert_eq!(c.get_invoice(id).unwrap().deadline, 9_999 + 604_800);
}

#[test]
fn fully_funded_invoice_is_not_refunded() {
    let mut c = initialized(0);
    let mut o = options();
    o.co_signers = vec![Address(50)];
    o.required_signatures = 1;
    let (id, _) = c.create_invoice(1_000, CREATOR, vec![Address(21)], vec![100], TOKEN, 2_000, o, 0, false).unwrap();
    pay(&mut c, PAYER, id, 100, 1_000).unwrap();
    assert_eq!(c.get_invoice(id).unwrap().status, InvoiceStatus::Pending);
    assert_eq!(c.refund(id, 3_000).unwrap_err(), SplitError::InvoiceFullyFunded);
    assert_eq!(c.get_invoice(id).unwrap().status, InvoiceStatus::Pending);
    assert_eq!(c.get_invoice(id).unwrap().funded, 100);
}

#[test]
fn early_withdrawal_only_before_the_deadline() {
    let mut c = initialized(0);
    let mut o = options();
    o.allow_early_withdrawal = true;
    let (id, _) = c.create_invoice(1_000, CREATOR, vec![Address(21)], vec![1_000], TOKEN, 2_000, o, 0, false).unwrap();
    pay(&mut c, PAYER, id, 100, 1_000).unwrap();
    pay(&mut c, PAYER, id, 50, 1_000).unwrap();
    assert_eq!(c.withdraw(id, PAYER, 2_001).unwrap_err(), SplitError::InvoiceDeadlineHasPassed);
    assert_eq!(c.get_invoice(id).unwrap().funded, 150);
    let acts = c.withdraw(id, PAYER, 1_500).unwrap();
    assert_eq!(moved(&acts, CONTRACT, PAYER), 150);
    assert_eq!(c.get_invoice(id).unwrap().funded, 0);
    assert_eq!(c.withdraw(id, PAYER, 1_600).unwrap_err(), SplitError::NoContributionsToWithdraw);
}

#[test]
fn payment_proof_hashes_invoice_and_total() {
    let env = Env::default();
    let mut c = initialized(0);
    let id = create(&mut c, vec![Address(21)], vec![1_000], 9_999);
    pay(&mut c, Address(41), id, 100, 1_000).unwrap();
    pay(&mut c, Address(42), id, 100, 1_000).unwrap();
    let a = c.generate_payment_proof(&env, id, Address(41)).unwrap();
    let b = c.generate_payment_proof(&env, id, Address(42)).unwrap();
    assert_eq!(a.payer, Address(41));
    assert_eq!(b.payer, Address(42));
    assert_eq!(a.total_paid, b.total_paid);
    assert_eq!(a.proof_hash, b.proof_hash);
    let mut pre = id.to_be_bytes().to_vec();
    pre.extend_from_slice(&100i128.to_be_bytes());
    let expected = env.crypto().sha256(&Bytes::from_slice(&env, &pre)).to_array().to_vec();
    assert_eq!(a.proof_hash, expected);
}

#[test]
fn pooled_entries_for_one_invoice_cannot_overfund_it() {
    let mut c = initialized(0);
    let id = create(&mut c, vec![Address(21)], vec![100], 9_999);
    let id2 = create(&mut c, vec![Address(22)], vec![100], 9_999);
    let ps = vec![
        InvoicePayment { invoice_id: id, amount: 60 },
        InvoicePayment { invoice_id: id2, amount: 10 },
        InvoicePayment { invoice_id: id, amount: 60 },
    ];
    assert_eq!(c.pool_pay(PAYER, ps, 1_000, false).unwrap_err(), SplitError::PaymentExceedsRemainingBalance);
    assert_eq!(c.get_invoice(id).unwrap().funded, 0);
    assert_eq!(c.get_invoice(id2).unwrap().funded, 0);
    let ok = vec![InvoicePayment { invoice_id: id, amount: 60 }, InvoicePayment { invoice_id: id, amount: 40 }];
    let acts = c.pool_pay(PAYER, ok, 1_000, false).unwrap();
    assert_eq!(moved(&acts, PAYER, CONTRACT), 100);
    assert_eq!(c.get_invoice(id).unwrap().status, InvoiceStatus::Released);
}

#[test]
fn failed_payments_change_nothing() {
    let mut c = initialized(0);
    let id = create(&mut c, vec![Address(21)], vec![100], 2_000);
    assert_eq!(c.pay(PAYER, id, 200, 0, 1_000, 0, false, false).unwrap_err(), SplitError::PaymentExceedsRemainingBalance);
    assert_eq!(c.pay(PAYER, id, 10, 5, 1_000, 0, false, false).unwrap_err(), SplitError::InvalidNonce);
    assert_eq!(c.pay(PAYER, id, 10, 0, 3_000, 0, false, false).unwrap_err(), SplitError::InvoiceDeadlineHasPassed);
    assert_eq!(c.get_nonce(id, PAYER), 0);
    let inv = c.get_invoice(id).unwrap();
    assert_eq!(inv.funded, 0);
    assert_eq!(inv.status, InvoiceStatus::Pending);
    assert!(inv.payments.is_empty());
    assert!(c.get_audit_log(id).is_empty());
}

#[test]
fn oversized_batch_creates_nothing() {
    let mut c = initialized(0);
    let params: Vec<CreateInvoiceParams> = (0..6)
        .map(|_| CreateInvoiceParams { recipients: vec![Address(21)], amounts: vec![100], token: TOKEN, deadline: 9_999 })
        .collect();
    assert_eq!(c.create_batch(1_000, CREATOR, params, vec![]).err(), Some(SplitError::BatchLimitExceeded));
    let mut bad: Vec<CreateInvoiceParams> = (0..2)
        .map(|_| CreateInvoiceParams { recipients: vec![Address(21)], amounts: vec![100], token: TOKEN, deadline: 9_999 })
        .collect();
    bad.push(CreateInvoiceParams { recipients: vec![Address(21)], amounts: vec![0], token: TOKEN, deadline: 9_999 });
    assert_eq!(c.create_batch(1_000, CREATOR, bad, vec![]).err(), Some(SplitError::AmountsMustBePositive));
    assert_eq!(c.invoice_counter, 0);
    assert!(c.get_invoice(1).is_err());
}

#[test]
fn migration_keeps_every_legacy_field() {
    let mut c = initialized(0);
    let id = create(&mut c, vec![Address(21)], vec![100], 9_999);
    c.invoices.get_mut(&id).unwrap().invoice.version = 0;
    let legacy = LegacyInvoice {
        creator: CREATOR,
        co_creators: Vec::new(),
        recipients: vec![Address(21)],
        amounts: vec![100],
        tokens: vec![TOKEN],
        deadline: 9_999,
        funded: 30,
        status: InvoiceStatus::Pending,
        payments: Vec::new(),
        drip_duration: None,
        release_timestamp: None,
        claimed: vec![0],
        frozen: false,
        completion_time: None,
        allow_early_withdrawal: false,
        bonus_pool: 0,
        bonus_max_payers: 0,
        prerequisite_id: None,
        tranches: Vec::new(),
        released_bps: 0,
        stake_amount: 0,
        referrer: None,
        tax_bps: 150,
        tax_authority: Some(Address(60)),
        insurance_premium_bps: 20,
        insurance_fund: 7,
        smart_route: true,
    };
    c.migrate_invoice(ADMIN, id, Some(legacy)).unwrap();
    let ext = c.get_invoice_ext(id).unwrap();
    assert_eq!(ext.tax_bps, 150);
    assert_eq!(ext.tax_authority, Some(Address(60)));
    assert_eq!(ext.insurance_premium_bps, 20);
    assert_eq!(ext.insurance_fund, 7);
    assert!(ext.smart_route);
    assert_eq!(c.get_invoice(id).unwrap().funded, 30);
}

#[test]
fn release_leftover_is_credited_to_the_forward_invoice() {
    let mut c = initialized(0);
    let target = create(&mut c, vec![Address(24)], vec![5_000], 9_999);
    let mut o = options();
    o.split_rules = vec![SplitRule::Tiered(5_000, 10_000)];
    o.forward_invoice_id = Some(target);
    let id = c.create_invoice(1_000, CREATOR, vec![Address(21)], vec![1_000], TOKEN, 9_999, o, 0, false).unwrap().0;
    let acts = pay(&mut c, PAYER, id, 1_000, 1_000).unwrap();

    // Below its threshold the tiered rule pays nothing: all of it is left over.
    assert_eq!(moved(&acts, CONTRACT, Address(21)), 0);
    assert_eq!(stored(&c, id).status, InvoiceStatus::Released);
    let t = stored(&c, target);
    assert_eq!(t.funded, 1_000);
    assert_eq!(*t.payments.last().unwrap(), Payment { payer: CONTRACT, amount: 1_000, tip: 0 });
    assert_eq!(t.status, InvoiceStatus::Pending);
}
