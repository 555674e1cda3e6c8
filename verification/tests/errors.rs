use stellar_split::effects::SplitError;
use stellar_split::state::SplitContract;
use stellar_split::terms::InvoiceOptions;
use stellar_split::types::{Address, OverflowBehavior, SplitRule, Tranche};

const CONTRACT: Address = Address(1);
const TOKEN: Address = Address(2);
const ADMIN: Address = Address(30);
const CREATOR: Address = Address(10);
const PAYER: Address = Address(12);
const R1: Address = Address(21);

fn options() -> InvoiceOptions {
    InvoiceOptions {
        co_creators: Vec::new(),
        allow_early_withdrawal: false,
        bonus_pool: 0,
        bonus_max_payers: 0,
        prerequisite_id: None,
        tranches: Vec::new(),
        co_signers: Vec::new(),
        required_signatures: 0,
        penalty_bps: None,
        penalty_deadline: None,
        min_funding_bps: None,
        release_stages: Vec::new(),
        price_oracle: None,
        swap_tokens: Vec::new(),
        oracle_address: None,
        tax_bps: None,
        tax_authority: None,
        insurance_premium_bps: None,
        smart_route: None,
        notification_contract: None,
        overflow_behavior: OverflowBehavior::Reject,
        convert_to_stream: false,
        accepted_tokens: Vec::new(),
        forward_to: None,
        forward_invoice_id: None,
        creator_cosigner: None,
        velocity_limit: 0,
        velocity_window: 0,
        split_rules: Vec::new(),
        auto_resolve_rules: Vec::new(),
        cross_chain_ref: None,
        allowed_payers: None,
        min_funding_amount: None,
        payment_cooldown_secs: None,
        max_payments_per_window: None,
        payment_window_secs: None,
        priorities: Vec::new(),
    }
}

fn contract() -> SplitContract {
    let mut c = SplitContract::new(CONTRACT);
    c.initialize(ADMIN, 0, Address(31), Address(32), 0, None, 0, 0, 0).unwrap();
    c
}

fn create_with(c: &mut SplitContract, rs: Vec<Address>, am: Vec<i128>, deadline: u64, o: InvoiceOptions) -> Result<u64, SplitError> {
    c.create_invoice(1_000, CREATOR, rs, am, TOKEN, deadline, o, 0, false).map(|(id, _)| id)
}

fn create_err(rs: Vec<Address>, am: Vec<i128>, deadline: u64, o: InvoiceOptions) -> SplitError {
    let mut c = contract();
    create_with(&mut c, rs, am, deadline, o).unwrap_err()
}

#[test]
fn creation_errors() {
    assert_eq!(create_err(vec![R1], vec![1, 2], 9_999, options()), SplitError::RecipientsAndAmountsLengthMismatch);
    assert_eq!(create_err(vec![], vec![], 9_999, options()), SplitError::MustHaveAtLeastOneRecipient);
    assert_eq!(create_err(vec![R1], vec![100], 1_000, options()), SplitError::DeadlineMustBeInTheFuture);
    assert_eq!(create_err(vec![R1], vec![0], 9_999, options()), SplitError::AmountsMustBePositive);
    assert_eq!(create_err(vec![R1, R1], vec![i128::MAX, 1], 9_999, options()), SplitError::ArithmeticOverflow);

    let mut o = options();
    o.bonus_pool = -1;
    assert_eq!(create_err(vec![R1], vec![100], 9_999, o), SplitError::BonusPoolMustBeNonNegative);
    let mut o = options();
    o.penalty_bps = Some(10_001);
    assert_eq!(create_err(vec![R1], vec![100], 9_999, o), SplitError::PenaltyBpsMustBeLe10000);
    let mut o = options();
    o.min_funding_bps = Some(10_001);
    assert_eq!(create_err(vec![R1], vec![100], 9_999, o), SplitError::MinFundingBpsMustBeLe10000);
    let mut o = options();
    o.tax_bps = Some(10_001);
    assert_eq!(create_err(vec![R1], vec![100], 9_999, o), SplitError::TaxBpsMustBeLe10000);
    let mut o = options();
    o.insurance_premium_bps = Some(10_001);
    assert_eq!(create_err(vec![R1], vec![100], 9_999, o), SplitError::InsurancePremiumBpsMustBeLe10000);
    let mut o = options();
    o.tax_bps = Some(100);
    assert_eq!(create_err(vec![R1], vec![100], 9_999, o), SplitError::TaxAuthorityMustBeSet);
    let mut o = options();
    o.priorities = vec![1, 2];
    assert_eq!(create_err(vec![R1], vec![100], 9_999, o), SplitError::PrioritiesLengthMustMatchRecipients);
    let mut o = options();
    o.prerequisite_id = Some(77);
    assert_eq!(create_err(vec![R1], vec![100], 9_999, o), SplitError::InvoiceNotFound);
    let mut o = options();
    o.tranches = vec![Tranche { timestamp: 2_000, basis_points: 5_000 }];
    assert_eq!(create_err(vec![R1], vec![100], 9_999, o), SplitError::TranchesMustSumTo10000BasisPoints);
    let mut o = options();
    o.release_stages = vec![3_000, 3_000];
    assert_eq!(create_err(vec![R1], vec![100], 9_999, o), SplitError::ReleaseStagesMustSumTo10000BasisPoints);
    let mut o = options();
    o.split_rules = vec![SplitRule::Percentage(10_000), SplitRule::Percentage(0)];
    assert_eq!(create_err(vec![R1], vec![100], 9_999, o), SplitError::SplitRulesLengthMustMatchRecipients);
    let mut o = options();
    o.split_rules = vec![SplitRule::Percentage(5_000)];
    assert_eq!(create_err(vec![R1], vec![100], 9_999, o), SplitError::SplitRulesMustSumTo100Percent);
}

#[test]
fn configuration_errors() {
    let mut fresh = SplitContract::new(CONTRACT);
    assert_eq!(fresh.pause(ADMIN).unwrap_err(), SplitError::AdminNotSet);
    assert_eq!(fresh.get_treasury(), Err(SplitError::TreasuryNotSet));
    assert_eq!(fresh.get_usdc_token(), Err(SplitError::UsdcTokenNotSet));
    assert_eq!(fresh.initialize(ADMIN, 0, Address(31), Address(32), 0, None, 10_001, 0, 0).unwrap_err(), SplitError::MaxCancelBpsMustBeLe10000);
    assert_eq!(
        fresh.initialize(ADMIN, 0, Address(31), Address(32), 0, None, 0, 3, 0).unwrap_err(),
        SplitError::RateWindowMustBePositiveWhenRateLimitIsEnabled
    );
    let mut c = SplitContract::new(CONTRACT);
    c.initialize(ADMIN, 0, Address(31), Address(32), 0, Some(Address(40)), 0, 1, 100).unwrap();
    assert_eq!(
        c.create_invoice(1_000, CREATOR, vec![R1], vec![100], TOKEN, 9_999, options(), 0, false).unwrap_err(),
        SplitError::GovernanceApprovalRequired
    );
    c.create_invoice(1_000, CREATOR, vec![R1], vec![100], TOKEN, 9_999, options(), 0, true).unwrap();
    assert_eq!(
        c.create_invoice(1_010, CREATOR, vec![R1], vec![100], TOKEN, 9_999, options(), 0, true).unwrap_err(),
        SplitError::RateLimitExceeded
    );
    assert!(c.create_invoice(1_200, CREATOR, vec![R1], vec![100], TOKEN, 9_999, options(), 0, true).is_ok());
    c.set_nft_gate(ADMIN, Some(Address(41))).unwrap();
    assert_eq!(
        c.create_invoice(5_000, CREATOR, vec![R1], vec![100], TOKEN, 9_999, options(), 0, true).unwrap_err(),
        SplitError::NftGateNotAHolder
    );
}

#[test]
fn payment_errors() {
    let mut c = contract();
    let id = create_with(&mut c, vec![R1], vec![100], 2_000, options()).unwrap();
    assert_eq!(c.pay(PAYER, 99, 10, 0, 1_000, 0, false, false).unwrap_err(), SplitError::InvoiceNotFound);
    assert_eq!(c.pay(PAYER, id, 0, 0, 1_000, 0, false, false).unwrap_err(), SplitError::PaymentAmountMustBePositive);
    c.pause_invoice(CREATOR, id, String::from("hold"), None, 1_000).unwrap();
    assert_eq!(c.pay(PAYER, id, 10, 0, 1_000, 0, false, false).unwrap_err(), SplitError::InvoiceIsFrozen);
    c.resume_invoice(CREATOR, id, 1_000).unwrap();
    assert_eq!(c.resume_invoice(CREATOR, id, 1_000).unwrap_err(), SplitError::InvoiceIsNotFrozen);
    c.admin_freeze(ADMIN, id, String::from("review"), 1_000).unwrap();
    assert_eq!(c.pay(PAYER, id, 10, 0, 1_000, 0, false, false).unwrap_err(), SplitError::InvoiceFrozenByAdmin);
    assert_eq!(c.admin_freeze(ADMIN, id, String::from("again"), 1_000).unwrap_err(), SplitError::InvoiceAlreadyFrozenByAdmin);
    c.admin_unfreeze(ADMIN, id, 1_000).unwrap();
    assert_eq!(c.admin_unfreeze(ADMIN, id, 1_000).unwrap_err(), SplitError::InvoiceIsNotFrozenByAdmin);
    c.pay(PAYER, id, 100, 0, 1_000, 0, false, false).unwrap();
    assert_eq!(c.pay(PAYER, id, 10, 1, 1_000, 0, false, false).unwrap_err(), SplitError::InvoiceIsNotPending);
}

#[test]
fn payment_limit_errors() {
    let mut c = contract();
    let mut o = options();
    o.payment_cooldown_secs = Some(60);
    let id = create_with(&mut c, vec![R1], vec![1_000], 9_999, o).unwrap();
    c.pay(PAYER, id, 10, 0, 1_000, 0, false, false).unwrap();
    assert_eq!(c.pay(PAYER, id, 10, 1, 1_030, 0, false, false).unwrap_err(), SplitError::PaymentCooldownActive);
    c.pay(PAYER, id, 10, 1, 1_060, 0, false, false).unwrap();

    let mut o = options();
    o.max_payments_per_window = Some(1);
    o.payment_window_secs = Some(100);
    let id2 = create_with(&mut c, vec![R1], vec![1_000], 9_999, o).unwrap();
    c.pay(PAYER, id2, 10, 0, 1_000, 0, false, false).unwrap();
    assert_eq!(c.pay(Address(13), id2, 10, 0, 1_050, 0, false, false).unwrap_err(), SplitError::PaymentRateLimitExceeded);

    let mut o = options();
    o.velocity_limit = 50;
    o.velocity_window = 100;
    let id3 = create_with(&mut c, vec![R1], vec![1_000], 9_999, o).unwrap();
    c.pay(PAYER, id3, 40, 0, 1_000, 0, false, false).unwrap();
    assert_eq!(c.pay(PAYER, id3, 20, 1, 1_010, 0, false, false).unwrap_err(), SplitError::VelocityLimitExceeded);
}

#[test]
fn lifecycle_errors() {
    let mut c = contract();
    let id = create_with(&mut c, vec![R1], vec![100], 9_999, options()).unwrap();
    assert_eq!(c.pause_invoice(Address(77), id, String::from("x"), None, 1_000).unwrap_err(), SplitError::OnlyCreatorCanPauseInvoice);
    assert_eq!(c.add_recipient(Address(77), id, Address(22), 50, 1_000).unwrap_err(), SplitError::OnlyCreatorCanAddRecipients);
    assert_eq!(c.adjust_split(Address(77), id, vec![100], 1_000).unwrap_err(), SplitError::OnlyCreatorCanAdjustSplit);
    assert_eq!(c.approve_invoice(id, 1_000).unwrap_err(), SplitError::NoApproverSetOnThisInvoice);
    assert_eq!(c.confirm_condition(id, 1_000).unwrap_err(), SplitError::NoOracleSetForInvoice);
    assert_eq!(c.sign_release(id, Address(77), 1_000).unwrap_err(), SplitError::NoCoSignersRequired);
    assert_eq!(c.stage_release(id, CREATOR, 1_000).unwrap_err(), SplitError::NoReleaseStagesDefined);
    c.pay(PAYER, id, 40, 0, 1_000, 0, false, false).unwrap();
    assert_eq!(c.add_recipient(CREATOR, id, Address(22), 50, 1_000).unwrap_err(), SplitError::CannotAddRecipientAfterPaymentReceived);
    assert_eq!(c.refund(id, 1_000).unwrap_err(), SplitError::DeadlineHasNotPassed);
    assert_eq!(c.withdraw(id, PAYER, 1_000).unwrap_err(), SplitError::EarlyWithdrawalNotAllowed);
}
