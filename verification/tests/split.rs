use std::collections::HashMap;

use stellar_split::effects::{Action, SplitError};
use stellar_split::invoice::LegacyInvoice;
use stellar_split::state::SplitContract;
use stellar_split::terms::InvoiceOptions;
use stellar_split::types::{Address, AuditAction, InvoiceStatus, OverflowBehavior};

const CONTRACT: Address = Address(1);
const TOKEN: Address = Address(2);

/// Token balances, moved by the transfers a call asks the host for.
struct Ledger {
    balances: HashMap<u64, i128>,
}

impl Ledger {
    fn new() -> Ledger {
        Ledger { balances: HashMap::new() }
    }

    fn mint(&mut self, to: Address, amount: i128) {
        *self.balances.entry(to.0).or_insert(0) += amount;
    }

    fn balance(&self, who: Address) -> i128 {
        *self.balances.get(&who.0).unwrap_or(&0)
    }

    fn apply(&mut self, acts: &[Action]) {
        for a in acts {
            if let Action::Transfer { token, from, to, amount } = a {
                if *token == TOKEN {
                    let f = self.balance(*from);
                    assert!(f >= *amount, "insufficient balance");
                    self.balances.insert(from.0, f - amount);
                    self.mint(*to, *amount);
                }
            }
        }
    }
}

fn options() -> InvoiceOptions {
    InvoiceOptions {
        co_creators: Vec::new(),
        allow_early_withdrawal: false,
        bonus_pool: 0,
        bonus_max_payers: 0,
        prerequisite_id: None,
        tranches: Vec::new(),
        co_signers: Vec::new(),
        required_signatures: 0,
        penalty_bps: None,
        penalty_deadline: None,
        min_funding_bps: None,
        release_stages: Vec::new(),
        price_oracle: None,
        swap_tokens: Vec::new(),
        oracle_address: None,
        tax_bps: None,
        tax_authority: None,
        insurance_premium_bps: None,
        smart_route: None,
        notification_contract: None,
        overflow_behavior: OverflowBehavior::Reject,
        convert_to_stream: false,
        accepted_tokens: Vec::new(),
        forward_to: None,
        forward_invoice_id: None,
        creator_cosigner: None,
        velocity_limit: 0,
        velocity_window: 0,
        split_rules: Vec::new(),
        auto_resolve_rules: Vec::new(),
        cross_chain_ref: None,
        allowed_payers: None,
        min_funding_amount: None,
        payment_cooldown_secs: None,
        max_payments_per_window: None,
        payment_window_secs: None,
        priorities: Vec::new(),
    }
}

fn setup() -> (SplitContract, Ledger) {
    (SplitContract::new(CONTRACT), Ledger::new())
}

fn create(
    c: &mut SplitContract,
    ledger: &mut Ledger,
    now: u64,
    creator: Address,
    recipients: Vec<Address>,
    amounts: Vec<i128>,
    deadline: u64,
    allowed_payers: Option<Vec<Address>>,
) -> u64 {
    let mut o = options();
    o.allowed_payers = allowed_payers;
    let (id, acts) = c
        .create_invoice(now, creator, recipients, amounts, TOKEN, deadline, o, 0, false)
        .unwrap();
    ledger.apply(&acts);
    id
}

fn make_invoice(c: &mut SplitContract, ledger: &mut Ledger, now: u64, creator: Address, recipient: Address, amount: i128, deadline: u64) -> u64 {
    create(c, ledger, now, creator, vec![recipient], vec![amount], deadline, None)
}

fn pay(c: &mut SplitContract, ledger: &mut Ledger, payer: Address, id: u64, amount: i128, now: u64) -> Result<(), SplitError> {
    let nonce = c.get_nonce(id, payer);
    let acts = c.pay(payer, id, amount, nonce, now, 0, false, false)?;
    ledger.apply(&acts);
    Ok(())
}

#[test]
fn test_create_invoice() {
    let (mut c, mut l) = setup();
    let creator = Address(10);
    let recipient = Address(11);
    let id = make_invoice(&mut c, &mut l, 1_000, creator, recipient, 100, 2_000);
    assert_eq!(id, 1);

    let invoice = c.get_invoice(id).unwrap();
    assert_eq!(invoice.status, InvoiceStatus::Pending);
    assert_eq!(invoice.funded, 0);
    assert!(c.get_invoice_ext(id).unwrap().allowed_payers.is_none());
}

#[test]
fn test_pay_and_auto_release() {
    let (mut c, mut l) = setup();
    let (creator, payer, recipient) = (Address(10), Address(12), Address(11));
    l.mint(payer, 500);
    let id = make_invoice(&mut c, &mut l, 1_000, creator, recipient, 200, 9_999);
    pay(&mut c, &mut l, payer, id, 200, 1_000).unwrap();

    assert_eq!(c.get_invoice(id).unwrap().status, InvoiceStatus::Released);
    assert_eq!(l.balance(recipient), 200);
}

#[test]
fn test_partial_pay_then_release() {
    let (mut c, mut l) = setup();
    let (creator, payer1, payer2, recipient) = (Address(10), Address(12), Address(13), Address(11));
    l.mint(payer1, 150);
    l.mint(payer2, 150);
    let id = make_invoice(&mut c, &mut l, 1_000, creator, recipient, 300, 9_999);

    pay(&mut c, &mut l, payer1, id, 150, 1_000).unwrap();
    assert_eq!(c.get_invoice(id).unwrap().status, InvoiceStatus::Pending);

    pay(&mut c, &mut l, payer2, id, 150, 1_000).unwrap();
    assert_eq!(c.get_invoice(id).unwrap().status, InvoiceStatus::Released);
    assert_eq!(l.balance(recipient), 300);
}

#[test]
fn test_refund_after_deadline() {
    let (mut c, mut l) = setup();
    let (creator, payer, recipient) = (Address(10), Address(12), Address(11));
    l.mint(payer, 100);
    let id = make_invoice(&mut c, &mut l, 1_000, creator, recipient, 500, 2_000);
    pay(&mut c, &mut l, payer, id, 100, 1_000).unwrap();

    let acts = c.refund(id, 3_000).unwrap();
    l.apply(&acts);

    assert_eq!(c.get_invoice(id).unwrap().status, InvoiceStatus::Refunded);
    assert_eq!(l.balance(payer), 100);
}

#[test]
fn test_pay_after_deadline_panics() {
    let (mut c, mut l) = setup();
    let (creator, payer, recipient) = (Address(10), Address(12), Address(11));
    l.mint(payer, 100);
    let id = make_invoice(&mut c, &mut l, 1_000, creator, recipient, 100, 2_000);
    let e = pay(&mut c, &mut l, payer, id, 100, 3_000).unwrap_err();
    assert_eq!(e, SplitError::InvoiceDeadlineHasPassed);
    assert_eq!(e.message(), "invoice deadline has passed");
}

#[test]
fn test_overpayment_panics() {
    let (mut c, mut l) = setup();
    let (creator, payer, recipient) = (Address(10), Address(12), Address(11));
    l.mint(payer, 1_000);
    let id = make_invoice(&mut c, &mut l, 1_000, creator, recipient, 100, 9_999);
    let e = pay(&mut c, &mut l, payer, id, 200, 1_000).unwrap_err();
    assert_eq!(e, SplitError::PaymentExceedsRemainingBalance);
    assert_eq!(e.message(), "payment exceeds remaining balance");
}

#[test]
fn test_multi_recipient_release() {
    let (mut c, mut l) = setup();
    let (creator, payer) = (Address(10), Address(12));
    let (r1, r2, r3) = (Address(21), Address(22), Address(23));
    l.mint(payer, 600);
    let id = create(&mut c, &mut l, 1_000, creator, vec![r1, r2, r3], vec![100, 200, 300], 9_999, None);
    pay(&mut c, &mut l, payer, id, 600, 1_000).unwrap();

    assert_eq!(l.balance(r1), 100);
    assert_eq!(l.balance(r2), 200);
    assert_eq!(l.balance(r3), 300);
}

#[test]
fn test_audit_log() {
    let (mut c, mut l) = setup();
    let (creator, payer, recipient) = (Address(10), Address(12), Address(11));
    l.mint(payer, 500);
    let id = make_invoice(&mut c, &mut l, 1_000, creator, recipient, 200, 9_999);
    pay(&mut c, &mut l, payer, id, 200, 1_000).unwrap();

    assert_eq!(c.get_invoice(id).unwrap().status, InvoiceStatus::Released);

    let log = c.get_audit_log(id);
    assert_eq!(log.len(), 2);
    assert_eq!(log[0].action, AuditAction::Pay);
    assert_eq!(log[1].action, AuditAction::Release);
}

#[test]
fn test_cancel_invoice() {
    let (mut c, mut l) = setup();
    let (creator, recipient) = (Address(10), Address(11));
    let id = make_invoice(&mut c, &mut l, 1_000, creator, recipient, 100, 9_999);
    let acts = c.cancel_invoice(creator, id, 1_000).unwrap();
    l.apply(&acts);

    assert_eq!(c.get_invoice(id).unwrap().status, InvoiceStatus::Cancelled);

    let log = c.get_audit_log(id);
    assert_eq!(log.len(), 1);
    assert_eq!(log[0].action, AuditAction::Cancel);
}

#[test]
fn test_transfer_invoice() {
    let (mut c, mut l) = setup();
    let (creator, new_creator, recipient) = (Address(10), Address(14), Address(11));
    let id = make_invoice(&mut c, &mut l, 1_000, creator, recipient, 100, 9_999);
    c.transfer_invoice(id, new_creator).unwrap();

    assert_eq!(c.get_invoice(id).unwrap().creator, new_creator);
}

#[test]
fn test_extend_deadline() {
    let (mut c, mut l) = setup();
    let (creator, recipient) = (Address(10), Address(11));
    let id = make_invoice(&mut c, &mut l, 1_000, creator, recipient, 100, 2_000);
    c.extend_deadline(id, 9_999, creator, 1_000).unwrap();

    assert_eq!(c.get_invoice(id).unwrap().deadline, 9_999);

    let log = c.get_audit_log(id);
    assert_eq!(log[0].action, AuditAction::Extend);
}

#[test]
fn test_get_payer_total() {
    let (mut c, mut l) = setup();
    let (creator, payer, recipient) = (Address(10), Address(12), Address(11));
    l.mint(payer, 500);
    let id = make_invoice(&mut c, &mut l, 1_000, creator, recipient, 500, 9_999);

    assert_eq!(c.get_payer_total(id, payer).unwrap(), 0);

    pay(&mut c, &mut l, payer, id, 200, 1_000).unwrap();
    assert_eq!(c.get_payer_total(id, payer).unwrap(), 200);

    pay(&mut c, &mut l, payer, id, 150, 1_000).unwrap();
    assert_eq!(c.get_payer_total(id, payer).unwrap(), 350);
}

#[test]
fn test_verify_invoice() {
    let (mut c, mut l) = setup();
    let (creator, payer, recipient) = (Address(10), Address(12), Address(11));
    l.mint(payer, 100);
    let id = make_invoice(&mut c, &mut l, 1_000, creator, recipient, 100, 9_999);
    assert!(c.verify_invoice(id, InvoiceStatus::Pending));
    assert!(!c.verify_invoice(id, InvoiceStatus::Released));

    pay(&mut c, &mut l, payer, id, 100, 1_000).unwrap();
    assert!(c.verify_invoice(id, InvoiceStatus::Released));
    assert!(!c.verify_invoice(id, InvoiceStatus::Pending));
}

#[test]
fn test_allowed_payers_listed_address_succeeds() {
    let (mut c, mut l) = setup();
    let (creator, allowed, recipient) = (Address(10), Address(15), Address(11));
    l.mint(allowed, 200);
    let id = create(&mut c, &mut l, 1_000, creator, vec![recipient], vec![200], 9_999, Some(vec![allowed]));

    pay(&mut c, &mut l, allowed, id, 200, 1_000).unwrap();
    assert_eq!(c.get_invoice(id).unwrap().status, InvoiceStatus::Released);
    assert_eq!(l.balance(recipient), 200);
}

#[test]
fn test_allowed_payers_unlisted_address_rejected() {
    let (mut c, mut l) = setup();
    let (creator, allowed, unlisted, recipient) = (Address(10), Address(15), Address(16), Address(11));
    l.mint(unlisted, 200);
    let id = create(&mut c, &mut l, 1_000, creator, vec![recipient], vec![200], 9_999, Some(vec![allowed]));

    let e = pay(&mut c, &mut l, unlisted, id, 200, 1_000).unwrap_err();
    assert_eq!(e, SplitError::PayerNotAllowed);
    assert_eq!(e.message(), "payer not allowed");
}

#[test]
fn test_allowed_payers_none_behaves_as_open() {
    let (mut c, mut l) = setup();
    let (creator, anyone, recipient) = (Address(10), Address(17), Address(11));
    l.mint(anyone, 100);
    let id = make_invoice(&mut c, &mut l, 1_000, creator, recipient, 100, 9_999);
    pay(&mut c, &mut l, anyone, id, 100, 1_000).unwrap();

    assert_eq!(c.get_invoice(id).unwrap().status, InvoiceStatus::Released);
    assert_eq!(l.balance(recipient), 100);
}

#[test]
fn test_migrate_invoice_retains_fields_and_sets_defaults() {
    let (mut c, mut l) = setup();
    let (admin, creator, payer, recipient) = (Address(30), Address(10), Address(12), Address(11));
    l.mint(payer, 100);
    c.initialize(admin, 0, Address(31), Address(32), 0, None, 0, 0, 0).unwrap();

    let id = make_invoice(&mut c, &mut l, 1_000, creator, recipient, 100, 9_999);

    // The record under the invoice's key is now in the legacy layout.
    c.invoices.get_mut(&id).unwrap().invoice.version = 0;
    let legacy = LegacyInvoice {
        creator,
        co_creators: Vec::new(),
        recipients: vec![recipient],
        amounts: vec![100],
        tokens: vec![TOKEN],
        deadline: 9_999,
        funded: 0,
        status: InvoiceStatus::Pending,
        payments: Vec::new(),
        drip_duration: None,
        release_timestamp: None,
        claimed: vec![0],
        frozen: false,
        completion_time: None,
        allow_early_withdrawal: false,
        bonus_pool: 0,
        bonus_max_payers: 0,
        prerequisite_id: None,
        tranches: Vec::new(),
        released_bps: 0,
        stake_amount: 0,
        referrer: None,
        tax_bps: 0,
        tax_authority: None,
        insurance_premium_bps: 0,
        insurance_fund: 0,
        smart_route: false,
    };
    c.migrate_invoice(admin, id, Some(legacy)).unwrap();

    let v2 = c.get_invoice(id).unwrap();
    assert_eq!(v2.creator, creator);
    assert_eq!(v2.recipients[0], recipient);
    assert_eq!(v2.amounts[0], 100);
    assert_eq!(v2.tokens[0], TOKEN);
    assert_eq!(v2.deadline, 9_999);
    assert_eq!(v2.funded, 0);
    assert_eq!(v2.status, InvoiceStatus::Pending);

    assert!(c.get_invoice_ext(id).unwrap().allowed_payers.is_none());
}
