use iln::host::{Address, Hash32, LedgerInfo};
use iln::invoice_liquidity::env::HostCall;
use iln::invoice_liquidity::events::{ContractUpgraded, Event, InvoiceUpdated};
use iln::invoice_liquidity::invoice::set_payer_score;
use iln::invoice_liquidity::storage::set_config;
use iln::invoice_liquidity::{
    Config, ContractError, Env, Invoice, InvoiceLiquidityContract, InvoiceParams, InvoiceStatus,
};
use std::collections::HashMap;

const INVOICE_AMOUNT: i128 = 1_000_000_000;
const DISCOUNT_RATE: u32 = 300;
const DUE_DATE_OFFSET: u64 = 60 * 60 * 24 * 30;

type Book = HashMap<(Address, Address), i128>;

fn address(n: u128) -> Address {
    Address { contract: false, hi: 0, lo: n }
}

fn contract_address(n: u128) -> Address {
    Address { contract: true, hi: 0, lo: n }
}

/// A contract on a host that keeps a book of token balances.
struct TestEnv {
    env: Env,
    book: Book,
    performed: usize,
    admin: Address,
    token: Address,
    xlm: Address,
    freelancer: Address,
    payer: Address,
    funder: Address,
}

impl TestEnv {
    fn mint(&mut self, token: Address, to: Address, amount: i128) {
        *self.book.entry((token, to)).or_insert(0) += amount;
    }

    fn balance(&self, token: Address, who: Address) -> i128 {
        *self.book.get(&(token, who)).unwrap_or(&0)
    }

    /// Performs the transfers that the contract has asked for since the last time.
    fn perform(&mut self) {
        while self.performed < self.env.calls.len() {
            if let HostCall::Transfer { token, from, to, amount } = self.env.calls[self.performed] {
                assert!(amount >= 0, "a token refuses a negative amount");
                assert!(self.balance(token, from) >= amount, "balance is not sufficient");
                *self.book.entry((token, from)).or_insert(0) -= amount;
                *self.book.entry((token, to)).or_insert(0) += amount;
            }
            self.performed += 1;
        }
    }

    fn now(&self) -> u64 {
        self.env.ledger.timestamp
    }

    fn submit(&mut self, amount: i128, due_date: u64, rate: u32) -> Result<u64, ContractError> {
        InvoiceLiquidityContract::submit_invoice(
            &mut self.env,
            self.freelancer,
            self.payer,
            amount,
            due_date,
            rate,
            self.token,
        )
    }

    fn fund(&mut self, funder: Address, id: u64, amount: i128) -> Result<(), ContractError> {
        let result = InvoiceLiquidityContract::fund_invoice(&mut self.env, funder, id, amount);
        self.perform();
        result
    }

    fn pay(&mut self, id: u64, amount: i128) -> Result<(), ContractError> {
        let result = InvoiceLiquidityContract::mark_paid(&mut self.env, id, amount);
        self.perform();
        result
    }

    fn claim_default(&mut self, funder: Address, id: u64) -> Result<(), ContractError> {
        let result = InvoiceLiquidityContract::claim_default(&mut self.env, funder, id);
        self.perform();
        result
    }

    fn invoice(&self, id: u64) -> Invoice {
        InvoiceLiquidityContract::get_invoice(&self.env, id).unwrap()
    }
}

fn setup() -> TestEnv {
    let contract = contract_address(1);
    let token = contract_address(2);
    let xlm = contract_address(3);
    let env = Env::new(contract, LedgerInfo { timestamp: 0, sequence: 0 });
    let mut t = TestEnv {
        env,
        book: HashMap::new(),
        performed: 0,
        admin: address(10),
        token,
        xlm,
        freelancer: address(11),
        payer: address(12),
        funder: address(13),
    };
    t.mint(token, t.funder, INVOICE_AMOUNT * 10);
    t.mint(token, t.payer, INVOICE_AMOUNT * 10);
    // The treasury of the contract, which covers defaults.
    t.mint(token, contract, INVOICE_AMOUNT * 100);
    InvoiceLiquidityContract::initialize(&mut t.env, t.admin, token, xlm).unwrap();
    t.env.ledger.timestamp = 1_700_000_000;
    t.env.ledger.sequence = 100;
    t
}

fn submit_standard_invoice(t: &mut TestEnv) -> u64 {
    let due_date = t.now() + DUE_DATE_OFFSET;
    t.submit(INVOICE_AMOUNT, due_date, DISCOUNT_RATE).unwrap()
}

fn last_event(env: &Env) -> Event {
    env.calls
        .iter()
        .rev()
        .find_map(|call| match call {
            HostCall::Publish(event) => Some(*event),
            _ => None,
        })
        .unwrap()
}

fn hash(byte: u8) -> Hash32 {
    let word = u128::from_be_bytes([byte; 16]);
    Hash32 { hi: word, lo: word }
}

// ----------------------------------------------------------------
// submit_invoice
// ----------------------------------------------------------------

#[test]
fn test_submit_invoice_returns_id() {
    let mut t = setup();
    let id = submit_standard_invoice(&mut t);
    assert_eq!(id, 1);
}

#[test]
fn test_submit_invoice_stores_correct_fields() {
    let mut t = setup();
    let due_date = t.now() + DUE_DATE_OFFSET;
    let id = t.submit(INVOICE_AMOUNT, due_date, DISCOUNT_RATE).unwrap();
    let invoice = t.invoice(id);

    assert_eq!(invoice.id, id);
    assert_eq!(invoice.freelancer, t.freelancer);
    assert_eq!(invoice.payer, t.payer);
    assert_eq!(invoice.token, t.token);
    assert_eq!(invoice.amount, INVOICE_AMOUNT);
    assert_eq!(u64::from(invoice.due_date), due_date);
    assert_eq!(invoice.discount_rate, DISCOUNT_RATE);
    assert_eq!(invoice.status, InvoiceStatus::Pending);
    assert!(invoice.funder.is_none());
    assert!(invoice.funded_at.is_none());
}

#[test]
fn test_get_invoice_returns_existing_invoice() {
    let mut t = setup();
    let due_date = t.now() + DUE_DATE_OFFSET;
    let id = t.submit(INVOICE_AMOUNT, due_date, DISCOUNT_RATE).unwrap();
    let invoice = t.invoice(id);

    assert_eq!(invoice.id, id);
    assert_eq!(invoice.freelancer, t.freelancer);
    assert_eq!(invoice.payer, t.payer);
    assert_eq!(invoice.token, t.token);
    assert_eq!(invoice.amount, INVOICE_AMOUNT);
    assert_eq!(u64::from(invoice.due_date), due_date);
    assert_eq!(invoice.discount_rate, DISCOUNT_RATE);
    assert_eq!(invoice.status, InvoiceStatus::Pending);
    assert_eq!(invoice.amount_funded, 0);
    assert!(invoice.funder.is_none());
    assert!(invoice.funded_at.is_none());
}

#[test]
fn test_submitter_reputation_snapshot_at_submission() {
    let mut t = setup();
    let due_date = t.now() + DUE_DATE_OFFSET;
    let id = t.submit(INVOICE_AMOUNT, due_date, DISCOUNT_RATE).unwrap();
    let invoice = t.invoice(id);
    assert_eq!(invoice.submitter_reputation, 50);
    assert_eq!(invoice.freelancer, t.freelancer);
}

#[test]
fn test_get_invoice_returns_invoice_not_found_for_missing_id() {
    let t = setup();
    let result = InvoiceLiquidityContract::get_invoice(&t.env, 999);
    assert_eq!(result, Err(ContractError::InvoiceNotFound));
}

#[test]
fn test_submit_multiple_invoices_increment_ids() {
    let mut t = setup();
    let id1 = submit_standard_invoice(&mut t);
    let id2 = submit_standard_invoice(&mut t);
    let id3 = submit_standard_invoice(&mut t);
    assert_eq!(id1, 1);
    assert_eq!(id2, 2);
    assert_eq!(id3, 3);
}

// ----------------------------------------------------------------
// submit_invoices_batch
// ----------------------------------------------------------------

fn params(t: &TestEnv) -> InvoiceParams {
    InvoiceParams {
        freelancer: t.freelancer,
        payer: t.payer,
        amount: INVOICE_AMOUNT,
        due_date: t.now() + DUE_DATE_OFFSET,
        discount_rate: DISCOUNT_RATE,
        token: t.token,
    }
}

#[test]
fn test_submit_invoices_batch_happy_path() {
    let mut t = setup();
    let p = params(&t);
    let ids = InvoiceLiquidityContract::submit_invoices_batch(&mut t.env, vec![p, p, p]).unwrap();
    assert_eq!(ids.len(), 3);
    assert_eq!(ids[0], 1);
    assert_eq!(ids[1], 2);
    assert_eq!(ids[2], 3);
}

#[test]
fn test_submit_invoices_batch_rejects_over_limit() {
    let mut t = setup();
    let p = params(&t);
    let result = InvoiceLiquidityContract::submit_invoices_batch(&mut t.env, vec![p; 11]);
    assert_eq!(result, Err(ContractError::BatchTooLarge));
}

#[test]
fn test_submit_invoices_batch_atomicity_fail() {
    let mut t = setup();
    let valid = params(&t);
    let invalid = InvoiceParams { amount: 0, ..valid };
    let result =
        InvoiceLiquidityContract::submit_invoices_batch(&mut t.env, vec![valid, invalid]);
    assert_eq!(result, Err(ContractError::InvalidAmount));
    assert_eq!(InvoiceLiquidityContract::get_invoice_count(&t.env), 0);
}

// ----------------------------------------------------------------
// submit_invoice: validation
// ----------------------------------------------------------------

#[test]
fn test_submit_rejects_zero_amount() {
    let mut t = setup();
    let due_date = t.now() + DUE_DATE_OFFSET;
    let result = t.submit(0, due_date, DISCOUNT_RATE);
    assert_eq!(result, Err(ContractError::InvalidAmount));
}

#[test]
fn test_submit_rejects_negative_amount() {
    let mut t = setup();
    let due_date = t.now() + DUE_DATE_OFFSET;
    let result = t.submit(-1, due_date, DISCOUNT_RATE);
    assert_eq!(result, Err(ContractError::InvalidAmount));
}

#[test]
fn test_submit_rejects_past_due_date() {
    let mut t = setup();
    let past_due_date = t.now() - 1;
    let result = t.submit(INVOICE_AMOUNT, past_due_date, DISCOUNT_RATE);
    assert_eq!(result, Err(ContractError::InvalidDueDate));
}

#[test]
fn test_submit_rejects_zero_discount_rate() {
    let mut t = setup();
    let due_date = t.now() + DUE_DATE_OFFSET;
    let result = t.submit(INVOICE_AMOUNT, due_date, 0);
    assert_eq!(result, Err(ContractError::InvalidDiscountRate));
}

#[test]
fn test_submit_rejects_discount_rate_above_50_percent() {
    let mut t = setup();
    let due_date = t.now() + DUE_DATE_OFFSET;
    let result = t.submit(INVOICE_AMOUNT, due_date, 5_001);
    assert_eq!(result, Err(ContractError::InvalidDiscountRate));
}

// ----------------------------------------------------------------
// update_invoice
// ----------------------------------------------------------------

fn update(
    t: &mut TestEnv,
    who: Address,
    id: u64,
    amount: i128,
    due_date: u64,
    rate: u32,
) -> Result<(), ContractError> {
    InvoiceLiquidityContract::update_invoice(&mut t.env, who, id, amount, due_date, rate)
}

#[test]
fn test_update_invoice_updates_pending_invoice_fields() {
    let mut t = setup();
    let id = submit_standard_invoice(&mut t);
    let updated_amount = INVOICE_AMOUNT + 250_000_000;
    let updated_due_date = t.now() + DUE_DATE_OFFSET * 2;
    let updated_discount_rate = DISCOUNT_RATE + 100;
    let freelancer = t.freelancer;
    update(&mut t, freelancer, id, updated_amount, updated_due_date, updated_discount_rate)
        .unwrap();

    let invoice = t.invoice(id);
    assert_eq!(invoice.amount, updated_amount);
    assert_eq!(u64::from(invoice.due_date), updated_due_date);
    assert_eq!(invoice.discount_rate, updated_discount_rate);
    assert_eq!(invoice.payer, t.payer);
    assert_eq!(invoice.status, InvoiceStatus::Pending);
}

#[test]
fn test_update_invoice_emits_updated_event() {
    let mut t = setup();
    let id = submit_standard_invoice(&mut t);
    let updated_amount = INVOICE_AMOUNT + 250_000_000;
    let updated_due_date = t.now() + DUE_DATE_OFFSET * 2;
    let updated_discount_rate = DISCOUNT_RATE + 100;
    let freelancer = t.freelancer;
    update(&mut t, freelancer, id, updated_amount, updated_due_date, updated_discount_rate)
        .unwrap();

    let expected_event = InvoiceUpdated {
        invoice_id: id,
        freelancer: t.freelancer,
        payer: t.payer,
        token: t.token,
        amount: updated_amount,
        due_date: updated_due_date,
        discount_rate: updated_discount_rate,
        status: InvoiceStatus::Pending,
    };
    assert_eq!(
        t.env.calls.last(),
        Some(&HostCall::Publish(Event::InvoiceUpdated(expected_event)))
    );
}

#[test]
fn test_update_invoice_rejects_non_freelancer() {
    let mut t = setup();
    let id = submit_standard_invoice(&mut t);
    let impostor = address(99);
    let updated_due_date = t.now() + DUE_DATE_OFFSET * 2;
    let result = update(&mut t, impostor, id, INVOICE_AMOUNT, updated_due_date, DISCOUNT_RATE);
    assert_eq!(result, Err(ContractError::Unauthorized));
}

#[test]
fn test_update_funded_invoice_fails() {
    let mut t = setup();
    let id = submit_standard_invoice(&mut t);
    let updated_due_date = t.now() + DUE_DATE_OFFSET * 2;
    t.fund(t.funder, id, INVOICE_AMOUNT).unwrap();
    let freelancer = t.freelancer;
    let result = update(&mut t, freelancer, id, INVOICE_AMOUNT, updated_due_date, DISCOUNT_RATE);
    assert_eq!(result, Err(ContractError::AlreadyFunded));
}

#[test]
fn test_update_invoice_rejects_invalid_amount() {
    let mut t = setup();
    let id = submit_standard_invoice(&mut t);
    let updated_due_date = t.now() + DUE_DATE_OFFSET * 2;
    let freelancer = t.freelancer;
    let result = update(&mut t, freelancer, id, 0, updated_due_date, DISCOUNT_RATE);
    assert_eq!(result, Err(ContractError::InvalidAmount));
}

#[test]
fn test_update_invoice_rejects_invalid_due_date() {
    let mut t = setup();
    let id = submit_standard_invoice(&mut t);
    let past_due_date = t.now();
    let freelancer = t.freelancer;
    let result = update(&mut t, freelancer, id, INVOICE_AMOUNT, past_due_date, DISCOUNT_RATE);
    assert_eq!(result, Err(ContractError::InvalidDueDate));
}

#[test]
fn test_update_invoice_rejects_invalid_discount_rate() {
    let mut t = setup();
    let id = submit_standard_invoice(&mut t);
    let updated_due_date = t.now() + DUE_DATE_OFFSET * 2;
    let freelancer = t.freelancer;
    let result = update(&mut t, freelancer, id, INVOICE_AMOUNT, updated_due_date, 0);
    assert_eq!(result, Err(ContractError::InvalidDiscountRate));
}

// ----------------------------------------------------------------
// transfer_invoice
// ----------------------------------------------------------------

#[test]
fn test_transfer_invoice_updates_freelancer() {
    let mut t = setup();
    let id = submit_standard_invoice(&mut t);
    let new_freelancer = address(98);
    InvoiceLiquidityContract::transfer_invoice(&mut t.env, id, new_freelancer).unwrap();
    assert_eq!(t.invoice(id).freelancer, new_freelancer);
}

#[test]
fn test_transfer_nonexistent_invoice_fails() {
    let mut t = setup();
    let result = InvoiceLiquidityContract::transfer_invoice(&mut t.env, 999, address(98));
    assert_eq!(result, Err(ContractError::InvoiceNotFound));
}

#[test]
fn test_transfer_funded_invoice_fails() {
    let mut t = setup();
    let id = submit_standard_invoice(&mut t);
    t.fund(t.funder, id, INVOICE_AMOUNT).unwrap();
    let result = InvoiceLiquidityContract::transfer_invoice(&mut t.env, id, address(98));
    assert_eq!(result, Err(ContractError::AlreadyFunded));
}

// ----------------------------------------------------------------
// fund_invoice
// ----------------------------------------------------------------

#[test]
fn test_fund_invoice_transfers_correct_amounts() {
    let mut t = setup();
    let id = submit_standard_invoice(&mut t);
    let funder_balance_before = t.balance(t.token, t.funder);
    let freelancer_balance_before = t.balance(t.token, t.freelancer);
    t.fund(t.funder, id, INVOICE_AMOUNT).unwrap();
    let funder_balance_after = t.balance(t.token, t.funder);
    let freelancer_balance_after = t.balance(t.token, t.freelancer);

    // 1_000_000_000 * 300 / 10_000 = 30_000_000
    let discount_amount = INVOICE_AMOUNT * DISCOUNT_RATE as i128 / 10_000;
    let freelancer_payout = INVOICE_AMOUNT - discount_amount;
    assert_eq!(discount_amount, 30_000_000);
    assert_eq!(
        funder_balance_before - funder_balance_after,
        freelancer_payout,
        "LP should have sent the cost amount"
    );
    assert_eq!(
        freelancer_balance_after - freelancer_balance_before,
        freelancer_payout,
        "Freelancer should receive amount minus discount"
    );
}

#[test]
fn test_fund_invoice_updates_status_to_funded() {
    let mut t = setup();
    let id = submit_standard_invoice(&mut t);
    t.fund(t.funder, id, INVOICE_AMOUNT).unwrap();
    let invoice = t.invoice(id);
    assert_eq!(invoice.status, InvoiceStatus::Funded);
    assert_eq!(invoice.funder, Some(t.funder));
    assert!(invoice.funded_at.is_some());
}

#[test]
fn test_fund_invoice_sets_funded_at_timestamp() {
    let mut t = setup();
    let id = submit_standard_invoice(&mut t);
    let now = t.now();
    t.fund(t.funder, id, INVOICE_AMOUNT).unwrap();
    assert_eq!(t.invoice(id).funded_at.map(u64::from), Some(now));
}

#[test]
fn test_fund_nonexistent_invoice_fails() {
    let mut t = setup();
    let result = t.fund(t.funder, 999, INVOICE_AMOUNT);
    assert_eq!(result, Err(ContractError::InvoiceNotFound));
}

#[test]
fn test_fund_already_funded_invoice_fails() {
    let mut t = setup();
    let id = submit_standard_invoice(&mut t);
    t.fund(t.funder, id, INVOICE_AMOUNT).unwrap();
    let second_funder = address(97);
    let result = t.fund(second_funder, id, INVOICE_AMOUNT);
    assert_eq!(result, Err(ContractError::AlreadyFunded));
}

// ----------------------------------------------------------------
// mark_paid
// ----------------------------------------------------------------

#[test]
fn test_mark_paid_releases_full_amount_to_lp() {
    let mut t = setup();
    let id = submit_standard_invoice(&mut t);
    t.fund(t.funder, id, INVOICE_AMOUNT).unwrap();
    let funder_balance_before = t.balance(t.token, t.funder);
    t.pay(id, INVOICE_AMOUNT).unwrap();
    let funder_balance_after = t.balance(t.token, t.funder);
    assert_eq!(
        funder_balance_after - funder_balance_before,
        INVOICE_AMOUNT,
        "LP should receive the full invoice amount when invoice is paid"
    );
}

#[test]
fn test_mark_paid_updates_status() {
    let mut t = setup();
    let id = submit_standard_invoice(&mut t);
    t.fund(t.funder, id, INVOICE_AMOUNT).unwrap();
    t.pay(id, INVOICE_AMOUNT).unwrap();
    assert_eq!(t.invoice(id).status, InvoiceStatus::Paid);
}

#[test]
fn test_full_lifecycle_lp_earns_correct_yield() {
    let mut t = setup();
    let id = submit_standard_invoice(&mut t);
    let lp_start = t.balance(t.token, t.funder);
    t.fund(t.funder, id, INVOICE_AMOUNT).unwrap();
    t.pay(id, INVOICE_AMOUNT).unwrap();
    let lp_end = t.balance(t.token, t.funder);
    let expected_yield = INVOICE_AMOUNT * DISCOUNT_RATE as i128 / 10_000;
    assert_eq!(lp_end - lp_start, expected_yield, "LP net yield should equal the discount amount");
}

#[test]
fn test_full_lifecycle_payer_balance_reduces_correctly() {
    let mut t = setup();
    let id = submit_standard_invoice(&mut t);
    let payer_start = t.balance(t.token, t.payer);
    t.fund(t.funder, id, INVOICE_AMOUNT).unwrap();
    t.pay(id, INVOICE_AMOUNT).unwrap();
    let payer_end = t.balance(t.token, t.payer);
    assert_eq!(
        payer_start - payer_end,
        INVOICE_AMOUNT,
        "Payer should have paid the full invoice amount"
    );
}

#[test]
fn test_mark_paid_on_pending_invoice_fails() {
    let mut t = setup();
    let id = submit_standard_invoice(&mut t);
    let result = t.pay(id, INVOICE_AMOUNT);
    assert_eq!(result, Err(ContractError::NotFunded));
}

#[test]
fn test_mark_paid_twice_fails() {
    let mut t = setup();
    let id = submit_standard_invoice(&mut t);
    t.fund(t.funder, id, INVOICE_AMOUNT).unwrap();
    t.pay(id, INVOICE_AMOUNT).unwrap();
    let result = t.pay(id, INVOICE_AMOUNT);
    assert_eq!(result, Err(ContractError::AlreadyPaid));
}

#[test]
fn test_mark_paid_nonexistent_invoice_fails() {
    let mut t = setup();
    let result = t.pay(999, INVOICE_AMOUNT);
    assert_eq!(result, Err(ContractError::InvoiceNotFound));
}

// ----------------------------------------------------------------
// claim_default
// ----------------------------------------------------------------

#[test]
fn test_claim_default_success() {
    let mut t = setup();
    let id = submit_standard_invoice(&mut t);
    t.fund(t.funder, id, INVOICE_AMOUNT).unwrap();
    t.env.ledger.timestamp += DUE_DATE_OFFSET + 1;

    let funder_before = t.balance(t.token, t.funder);
    t.claim_default(t.funder, id).unwrap();
    let funder_after = t.balance(t.token, t.funder);
    let discount_amount = INVOICE_AMOUNT * DISCOUNT_RATE as i128 / 10_000;
    assert_eq!(
        funder_after - funder_before,
        INVOICE_AMOUNT - discount_amount,
        "LP should recover their contributed principal after default"
    );
    assert_eq!(t.invoice(id).status, InvoiceStatus::Defaulted);
}

#[test]
fn test_claim_default_before_due_date_fails() {
    let mut t = setup();
    let id = submit_standard_invoice(&mut t);
    t.fund(t.funder, id, INVOICE_AMOUNT).unwrap();
    let result = t.claim_default(t.funder, id);
    assert_eq!(result, Err(ContractError::NotYetDefaulted));
}

#[test]
fn test_claim_default_non_funder_fails() {
    let mut t = setup();
    let id = submit_standard_invoice(&mut t);
    t.fund(t.funder, id, INVOICE_AMOUNT).unwrap();
    t.env.ledger.timestamp += DUE_DATE_OFFSET + 1;
    let result = t.claim_default(address(96), id);
    assert_eq!(result, Err(ContractError::Unauthorized));
}

#[test]
fn test_claim_default_on_paid_invoice_fails() {
    let mut t = setup();
    let id = submit_standard_invoice(&mut t);
    t.fund(t.funder, id, INVOICE_AMOUNT).unwrap();
    t.pay(id, INVOICE_AMOUNT).unwrap();
    t.env.ledger.timestamp += DUE_DATE_OFFSET + 1;
    let result = t.claim_default(t.funder, id);
    assert_eq!(result, Err(ContractError::AlreadyPaid));
}

#[test]
fn test_claim_default_twice_fails() {
    let mut t = setup();
    let id = submit_standard_invoice(&mut t);
    t.fund(t.funder, id, INVOICE_AMOUNT).unwrap();
    t.env.ledger.timestamp += DUE_DATE_OFFSET + 1;
    t.claim_default(t.funder, id).unwrap();
    let result = t.claim_default(t.funder, id);
    assert_eq!(result, Err(ContractError::InvoiceDefaulted));
}

// ----------------------------------------------------------------
// expire_invoice
// ----------------------------------------------------------------

#[test]
fn test_expire_pending_invoice_after_due_date() {
    let mut t = setup();
    let id = submit_standard_invoice(&mut t);
    t.env.ledger.timestamp += DUE_DATE_OFFSET + 1;
    InvoiceLiquidityContract::expire_invoice(&mut t.env, id).unwrap();
    assert_eq!(t.invoice(id).status, InvoiceStatus::Expired);
}

#[test]
fn test_expire_pending_invoice_before_due_date_fails() {
    let mut t = setup();
    let id = submit_standard_invoice(&mut t);
    let result = InvoiceLiquidityContract::expire_invoice(&mut t.env, id);
    assert_eq!(result, Err(ContractError::NotYetDefaulted));
    assert_eq!(t.invoice(id).status, InvoiceStatus::Pending);
}

#[test]
fn test_fund_expired_invoice_fails() {
    let mut t = setup();
    let id = submit_standard_invoice(&mut t);
    t.env.ledger.timestamp += DUE_DATE_OFFSET + 1;
    InvoiceLiquidityContract::expire_invoice(&mut t.env, id).unwrap();
    let result = t.fund(t.funder, id, INVOICE_AMOUNT);
    assert_eq!(result, Err(ContractError::InvoiceExpired));
    assert_eq!(t.invoice(id).status, InvoiceStatus::Expired);
}

// ----------------------------------------------------------------
// Scores
// ----------------------------------------------------------------

#[test]
fn test_new_payer_score_is_neutral() {
    let t = setup();
    let score = InvoiceLiquidityContract::payer_score(&t.env, t.payer);
    assert_eq!(score, 50);
}

#[test]
fn test_perfect_payer_score() {
    let mut t = setup();
    let id = submit_standard_invoice(&mut t);
    t.fund(t.funder, id, INVOICE_AMOUNT).unwrap();
    t.pay(id, INVOICE_AMOUNT).unwrap();
    let score = InvoiceLiquidityContract::payer_score(&t.env, t.payer);
    assert_eq!(score, 51);
}

#[test]
fn test_payer_with_default() {
    let mut t = setup();
    let id = submit_standard_invoice(&mut t);
    t.fund(t.funder, id, INVOICE_AMOUNT).unwrap();
    t.env.ledger.timestamp += DUE_DATE_OFFSET + 1;
    t.claim_default(t.funder, id).unwrap();
    let score = InvoiceLiquidityContract::payer_score(&t.env, t.payer);
    assert!(score < 50);
    assert_eq!(score, 45);
}

fn decay_config(t: &TestEnv, decay_rate_bps: u32, decay_period_ledgers: u64) -> Config {
    Config {
        high_rep_threshold: 80,
        bonus_bps: 200,
        min_discount_rate_bps: 100,
        decay_rate_bps,
        decay_period_ledgers,
        dispute_timeout_ledgers: 100,
        xlm_sac_address: t.xlm,
        price_oracle: None,
    }
}

#[test]
fn test_reputation_decay_inactive_score() {
    let mut t = setup();
    let payer = t.payer;
    set_payer_score(&mut t.env, &payer, 80);
    let config = decay_config(&t, 100, 1000);
    set_config(&mut t.env, &config);
    t.env.ledger.sequence += 2100;
    let score = InvoiceLiquidityContract::payer_score(&t.env, payer);
    assert!(score < 80, "Score should decay from 80, got {}", score);
    assert!(score >= 78, "Score should decay to ~78, got {}", score);
}

#[test]
fn test_reputation_no_decay_when_inactive() {
    let mut t = setup();
    let payer = t.payer;
    set_payer_score(&mut t.env, &payer, 80);
    let config = decay_config(&t, 100, 10_000_000);
    set_config(&mut t.env, &config);
    t.env.ledger.sequence += 1000;
    let score = InvoiceLiquidityContract::payer_score(&t.env, payer);
    assert_eq!(score, 80, "Score should not decay when period not reached");
}

#[test]
fn test_reputation_decay_activity_resets() {
    let mut t = setup();
    let payer = t.payer;
    set_payer_score(&mut t.env, &payer, 80);
    let config = decay_config(&t, 100, 1000);
    set_config(&mut t.env, &config);
    t.env.ledger.sequence += 500;
    set_payer_score(&mut t.env, &payer, 85);
    t.env.ledger.sequence += 500;
    let score = InvoiceLiquidityContract::payer_score(&t.env, payer);
    assert_eq!(score, 85, "Score should not decay shortly after activity");
}

#[test]
fn test_reputation_score_never_goes_below_zero() {
    let mut t = setup();
    let payer = t.payer;
    set_payer_score(&mut t.env, &payer, 5);
    let config = decay_config(&t, 5000, 100);
    set_config(&mut t.env, &config);
    t.env.ledger.sequence += 1000;
    let score = InvoiceLiquidityContract::payer_score(&t.env, payer);
    assert_eq!(score, 0, "Score should floor at 0, not go negative");
}

#[test]
fn test_reputation_score_never_exceeds_100() {
    let mut t = setup();
    let payer = t.payer;
    set_payer_score(&mut t.env, &payer, 150);
    let score = InvoiceLiquidityContract::payer_score(&t.env, payer);
    assert_eq!(score, 100, "Score should be capped at 100");
}

// ----------------------------------------------------------------
// upgrade
// ----------------------------------------------------------------

#[test]
fn test_upgrade_emits_correct_event() {
    let mut t = setup();
    let wasm_hash = hash(1);
    let result = InvoiceLiquidityContract::upgrade(&mut t.env, wasm_hash);
    assert!(result.is_ok(), "Admin should be able to call upgrade");
    assert_eq!(
        last_event(&t.env),
        Event::ContractUpgraded(ContractUpgraded {
            admin: t.admin,
            new_wasm_hash: wasm_hash,
            timestamp: t.now(),
        })
    );
}

#[test]
fn test_upgrade_requires_admin() {
    let mut t = setup();
    t.env.calls.clear();
    let wasm_hash = hash(2);
    InvoiceLiquidityContract::upgrade(&mut t.env, wasm_hash).unwrap();
    // The host is asked for the admin's authorisation before anything else.
    assert_eq!(t.env.calls[0], HostCall::RequireAuth(t.admin));
    // Without an admin nobody can upgrade.
    t.env.instance.admin = None;
    assert_eq!(
        InvoiceLiquidityContract::upgrade(&mut t.env, wasm_hash),
        Err(ContractError::Unauthorized)
    );
}

#[test]
fn test_upgrade_does_not_affect_existing_invoices() {
    let mut t = setup();
    let id = submit_standard_invoice(&mut t);
    let invoice_before = t.invoice(id);
    InvoiceLiquidityContract::upgrade(&mut t.env, hash(3)).unwrap();
    let invoice_after = t.invoice(id);
    assert_eq!(invoice_before.id, invoice_after.id, "Invoice ID should be preserved");
    assert_eq!(
        invoice_before.freelancer, invoice_after.freelancer,
        "Freelancer address should be preserved"
    );
    assert_eq!(invoice_before.payer, invoice_after.payer, "Payer address should be preserved");
    assert_eq!(invoice_before.amount, invoice_after.amount, "Amount should be preserved");
    assert_eq!(invoice_before.status, invoice_after.status, "Status should be preserved");
}

#[test]
fn test_upgrade_snapshot_before_after() {
    let mut t = setup();
    let stats_before = InvoiceLiquidityContract::get_contract_stats(&t.env);
    assert_eq!(stats_before.total_invoices, 0);
    submit_standard_invoice(&mut t);
    let stats_with_data = InvoiceLiquidityContract::get_contract_stats(&t.env);
    InvoiceLiquidityContract::upgrade(&mut t.env, hash(4)).unwrap();
    let stats_after = InvoiceLiquidityContract::get_contract_stats(&t.env);
    assert_eq!(
        stats_with_data.total_invoices, stats_after.total_invoices,
        "Total invoices should be preserved after upgrade"
    );
    assert_eq!(
        stats_with_data.total_paid, stats_after.total_paid,
        "Total paid should be preserved after upgrade"
    );
}
