use iln::host::{Address, LedgerInfo};
use iln::invoice_liquidity::env::HostCall;
use iln::invoice_liquidity::{ContractError, Env, Invoice, InvoiceLiquidityContract};
use std::collections::HashMap;

const INVOICE_AMOUNT: i128 = 1_000_000_000;
const DISCOUNT_RATE: u32 = 300;
const DUE_DATE_OFFSET: u64 = 60 * 60 * 24 * 30;

type Book = HashMap<(Address, Address), i128>;

fn address(n: u128) -> Address {
    Address { contract: false, hi: 0, lo: n }
}

fn contract_address(n: u128) -> Address {
    Address { contract: true, hi: 0, lo: n }
}

/// A contract on a host that keeps a book of token balances.
struct TestEnv {
    env: Env,
    book: Book,
    performed: usize,
    admin: Address,
    token: Address,
    xlm: Address,
    freelancer: Address,
    payer: Address,
    funder: Address,
}

impl TestEnv {
    fn mint(&mut self, token: Address, to: Address, amount: i128) {
        *self.book.entry((token, to)).or_insert(0) += amount;
    }

    fn balance(&self, token: Address, who: Address) -> i128 {
        *self.book.get(&(token, who)).unwrap_or(&0)
    }

    /// Performs the transfers that the contract has asked for since the last time.
    fn perform(&mut self) {
        while self.performed < self.env.calls.len() {
            if let HostCall::Transfer { token, from, to, amount } = self.env.calls[self.performed] {
                assert!(amount >= 0, "a token refuses a negative amount");
                assert!(self.balance(token, from) >= amount, "balance is not sufficient");
                *self.book.entry((token, from)).or_insert(0) -= amount;
                *self.book.entry((token, to)).or_insert(0) += amount;
            }
            self.performed += 1;
        }
    }

    fn now(&self) -> u64 {
        self.env.ledger.timestamp
    }

    fn submit(&mut self, amount: i128, due_date: u64, rate: u32) -> Result<u64, ContractError> {
        InvoiceLiquidityContract::submit_invoice(
            &mut self.env,
            self.freelancer,
            self.payer,
            amount,
            due_date,
            rate,
            self.token,
        )
    }

    fn fund(&mut self, funder: Address, id: u64, amount: i128) -> Result<(), ContractError> {
        let result = InvoiceLiquidityContract::fund_invoice(&mut self.env, funder, id, amount);
        self.perform();
        result
    }

    fn pay(&mut self, id: u64, amount: i128) -> Result<(), ContractError> {
        let result = InvoiceLiquidityContract::mark_paid(&mut self.env, id, amount);
        self.perform();
        result
    }

    fn claim_default(&mut self, funder: Address, id: u64) -> Result<(), ContractError> {
        let result = InvoiceLiquidityContract::claim_default(&mut self.env, funder, id);
        self.perform();
        result
    }

    fn invoice(&self, id: u64) -> Invoice {
        InvoiceLiquidityContract::get_invoice(&self.env, id).unwrap()
    }
}

fn setup() -> TestEnv {
    let contract = contract_address(1);
    let token = contract_address(2);
    let xlm = contract_address(3);
    let env = Env::new(contract, LedgerInfo { timestamp: 0, sequence: 0 });
    let mut t = TestEnv {
        env,
        book: HashMap::new(),
        performed: 0,
        admin: address(10),
        token,
        xlm,
        freelancer: address(11),
        payer: address(12),
        funder: address(13),
    };
    t.mint(token, t.funder, INVOICE_AMOUNT * 10);
    t.mint(token, t.payer, INVOICE_AMOUNT * 10);
    // The treasury of the contract, which covers defaults.
    t.mint(token, contract, INVOICE_AMOUNT * 100);
    InvoiceLiquidityContract::initialize(&mut t.env, t.admin, token, xlm).unwrap();
    t.env.ledger.timestamp = 1_700_000_000;
    t.env.ledger.sequence = 100;
    t
}

fn submit_standard_invoice(t: &mut TestEnv) -> u64 {
    let due_date = t.now() + DUE_DATE_OFFSET;
    t.submit(INVOICE_AMOUNT, due_date, DISCOUNT_RATE).unwrap()
}

fn pause(t: &mut TestEnv) {
    InvoiceLiquidityContract::pause(&mut t.env).unwrap();
}

#[test]
fn test_contract_stats_initial_state() {
    let t = setup();
    let stats = InvoiceLiquidityContract::get_contract_stats(&t.env);
    assert_eq!(stats.total_invoices, 0);
    assert_eq!(stats.total_funded, 0);
    assert_eq!(stats.total_paid, 0);
    assert_eq!(stats.total_volume_usdc, 0);
    assert_eq!(stats.total_volume_eurc, 0);
    assert_eq!(stats.total_volume_xlm, 0);
}

#[test]
fn test_contract_stats_increments_on_submit() {
    let mut t = setup();
    submit_standard_invoice(&mut t);
    let stats = InvoiceLiquidityContract::get_contract_stats(&t.env);
    assert_eq!(stats.total_invoices, 1);
    assert_eq!(stats.total_funded, 0);
    assert_eq!(stats.total_paid, 0);
}

#[test]
fn test_contract_stats_increments_on_fund() {
    let mut t = setup();
    let invoice_id = submit_standard_invoice(&mut t);
    t.fund(t.funder, invoice_id, INVOICE_AMOUNT).unwrap();
    let stats = InvoiceLiquidityContract::get_contract_stats(&t.env);
    assert_eq!(stats.total_invoices, 1);
    assert_eq!(stats.total_funded, 1);
    assert_eq!(stats.total_paid, 0);
    assert_eq!(stats.total_volume_usdc, INVOICE_AMOUNT);
}

#[test]
fn test_contract_stats_increments_on_mark_paid() {
    let mut t = setup();
    let invoice_id = submit_standard_invoice(&mut t);
    t.fund(t.funder, invoice_id, INVOICE_AMOUNT).unwrap();
    t.pay(invoice_id, INVOICE_AMOUNT).unwrap();
    let stats = InvoiceLiquidityContract::get_contract_stats(&t.env);
    assert_eq!(stats.total_invoices, 1);
    assert_eq!(stats.total_funded, 1);
    assert_eq!(stats.total_paid, 1);
    assert_eq!(stats.total_volume_usdc, INVOICE_AMOUNT);
}

#[test]
fn test_contract_stats_multiple_invoices() {
    let mut t = setup();
    for _ in 0..3 {
        submit_standard_invoice(&mut t);
    }
    let stats = InvoiceLiquidityContract::get_contract_stats(&t.env);
    assert_eq!(stats.total_invoices, 3);
    assert_eq!(stats.total_funded, 0);
    assert_eq!(stats.total_paid, 0);
}

#[test]
fn test_contract_stats_tracks_token_volumes_and_oracle_normalization() {
    let mut t = setup();
    let invoice_id = submit_standard_invoice(&mut t);
    t.fund(t.funder, invoice_id, INVOICE_AMOUNT).unwrap();
    t.pay(invoice_id, INVOICE_AMOUNT).unwrap();

    let stats = InvoiceLiquidityContract::get_contract_stats(&t.env);
    assert_eq!(stats.total_volume_usdc, INVOICE_AMOUNT);
    assert_eq!(stats.token_volumes.len(), 2);
    let volume_entry = stats.token_volumes[0];
    assert_eq!(volume_entry.0, t.token);
    assert_eq!(volume_entry.1, INVOICE_AMOUNT);
    assert_eq!(stats.total_volume_usd_normalized, 0);

    // An oracle that prices every token at two dollars.
    let oracle = contract_address(4);
    InvoiceLiquidityContract::set_price_oracle(&mut t.env, oracle).unwrap();
    t.env.oracle_prices.set(t.token, 20_000);
    t.env.oracle_prices.set(t.xlm, 20_000);
    let stats = InvoiceLiquidityContract::get_contract_stats(&t.env);
    assert_eq!(stats.total_volume_usd_normalized, INVOICE_AMOUNT * 20_000 / 10_000);
}

#[test]
fn test_pause_blocks_submit_invoice() {
    let mut t = setup();
    pause(&mut t);
    let due_date = t.now() + DUE_DATE_OFFSET;
    let result = t.submit(INVOICE_AMOUNT, due_date, DISCOUNT_RATE);
    assert!(result.is_err());
    assert_eq!(result, Err(ContractError::ContractPaused));
}

#[test]
fn test_pause_blocks_fund_invoice() {
    let mut t = setup();
    let invoice_id = submit_standard_invoice(&mut t);
    pause(&mut t);
    let result = t.fund(t.funder, invoice_id, INVOICE_AMOUNT);
    assert!(result.is_err());
    assert_eq!(result, Err(ContractError::ContractPaused));
}

#[test]
fn test_pause_blocks_mark_paid() {
    let mut t = setup();
    let invoice_id = submit_standard_invoice(&mut t);
    t.fund(t.funder, invoice_id, INVOICE_AMOUNT).unwrap();
    pause(&mut t);
    let result = t.pay(invoice_id, INVOICE_AMOUNT);
    assert!(result.is_err());
    assert_eq!(result, Err(ContractError::ContractPaused));
}

#[test]
fn test_pause_blocks_cancel_invoice() {
    let mut t = setup();
    let invoice_id = submit_standard_invoice(&mut t);
    pause(&mut t);
    let result = InvoiceLiquidityContract::cancel_invoice(&mut t.env, invoice_id);
    assert!(result.is_err());
    assert_eq!(result, Err(ContractError::ContractPaused));
}

#[test]
fn test_pause_blocks_claim_default() {
    let mut t = setup();
    let due_date = t.now() + DUE_DATE_OFFSET;
    let invoice_id = submit_standard_invoice(&mut t);
    t.fund(t.funder, invoice_id, INVOICE_AMOUNT).unwrap();
    t.env.ledger.timestamp = due_date + 1;
    pause(&mut t);
    let result = t.claim_default(t.funder, invoice_id);
    assert!(result.is_err());
    assert_eq!(result, Err(ContractError::ContractPaused));
}

#[test]
fn test_unpause_restores_functionality() {
    let mut t = setup();
    pause(&mut t);
    InvoiceLiquidityContract::unpause(&mut t.env).unwrap();
    let due_date = t.now() + DUE_DATE_OFFSET;
    let result = t.submit(INVOICE_AMOUNT, due_date, DISCOUNT_RATE);
    assert!(result.is_ok());
}

#[test]
fn test_pause_non_admin_fails() {
    let mut t = setup();
    t.env.calls.clear();
    // Whoever calls, it is the admin whose authorisation is asked for.
    pause(&mut t);
    assert_eq!(t.env.calls[0], HostCall::RequireAuth(t.admin));
    t.env.instance.admin = None;
    assert_eq!(InvoiceLiquidityContract::pause(&mut t.env), Err(ContractError::Unauthorized));
}

#[test]
fn test_unpause_non_admin_fails() {
    let mut t = setup();
    pause(&mut t);
    t.env.calls.clear();
    InvoiceLiquidityContract::unpause(&mut t.env).unwrap();
    assert_eq!(t.env.calls[0], HostCall::RequireAuth(t.admin));
    t.env.instance.admin = None;
    assert_eq!(InvoiceLiquidityContract::unpause(&mut t.env), Err(ContractError::Unauthorized));
}

#[test]
fn test_get_contract_stats_works_when_paused() {
    let mut t = setup();
    submit_standard_invoice(&mut t);
    pause(&mut t);
    let stats = InvoiceLiquidityContract::get_contract_stats(&t.env);
    assert_eq!(stats.total_invoices, 1);
}

#[test]
fn test_due_date_too_soon_rejected() {
    let mut t = setup();
    let too_soon = t.now() + (12 * 60 * 60);
    let result = t.submit(INVOICE_AMOUNT, too_soon, DISCOUNT_RATE);
    assert!(result.is_err());
    assert_eq!(result, Err(ContractError::DueDateTooSoon));
}

#[test]
fn test_due_date_exactly_24_hours_accepted() {
    let mut t = setup();
    let exactly_24h = t.now() + (24 * 60 * 60);
    let result = t.submit(INVOICE_AMOUNT, exactly_24h, DISCOUNT_RATE);
    assert!(result.is_ok());
}

#[test]
fn test_due_date_too_far_rejected() {
    let mut t = setup();
    let too_far = t.now() + (366 * 24 * 60 * 60);
    let result = t.submit(INVOICE_AMOUNT, too_far, DISCOUNT_RATE);
    assert!(result.is_err());
    assert_eq!(result, Err(ContractError::DueDateTooFar));
}

#[test]
fn test_due_date_exactly_365_days_accepted() {
    let mut t = setup();
    let exactly_365d = t.now() + (365 * 24 * 60 * 60);
    let result = t.submit(INVOICE_AMOUNT, exactly_365d, DISCOUNT_RATE);
    assert!(result.is_ok());
}

#[test]
fn test_due_date_in_past_rejected() {
    let mut t = setup();
    let past = t.now() - 1;
    let result = t.submit(INVOICE_AMOUNT, past, DISCOUNT_RATE);
    assert!(result.is_err());
    assert_eq!(result, Err(ContractError::InvalidDueDate));
}

#[test]
fn test_due_date_equal_to_now_rejected() {
    let mut t = setup();
    let now = t.now();
    let result = t.submit(INVOICE_AMOUNT, now, DISCOUNT_RATE);
    assert!(result.is_err());
    assert_eq!(result, Err(ContractError::InvalidDueDate));
}
