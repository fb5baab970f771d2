use iln::host::{Address, LedgerInfo};
use iln::invoice_liquidity::env::HostCall;
use iln::invoice_liquidity::{ContractError, Env, Invoice, InvoiceLiquidityContract, InvoiceStatus};
use std::collections::HashMap;

const INVOICE_AMOUNT: i128 = 0;
// Amounts with seven decimal places.
const XLM_INVOICE_AMOUNT: i128 = 100_000_000;
const XLM_FUND_AMOUNT: i128 = 50_000_000;
// Amounts with six decimal places.
const USDC_INVOICE_AMOUNT: i128 = 10_000_000;

type Book = HashMap<(Address, Address), i128>;

fn address(n: u128) -> Address {
    Address { contract: false, hi: 0, lo: n }
}

fn contract_address(n: u128) -> Address {
    Address { contract: true, hi: 0, lo: n }
}

/// A contract on a host that keeps a book of token balances.
struct TestEnv {
    env: Env,
    book: Book,
    performed: usize,
    admin: Address,
    token: Address,
    xlm: Address,
    freelancer: Address,
    payer: Address,
    funder: Address,
}

impl TestEnv {
    fn mint(&mut self, token: Address, to: Address, amount: i128) {
        *self.book.entry((token, to)).or_insert(0) += amount;
    }

    fn balance(&self, token: Address, who: Address) -> i128 {
        *self.book.get(&(token, who)).unwrap_or(&0)
    }

    /// Performs the transfers that the contract has asked for since the last time.
    fn perform(&mut self) {
        while self.performed < self.env.calls.len() {
            if let HostCall::Transfer { token, from, to, amount } = self.env.calls[self.performed] {
                assert!(amount >= 0, "a token refuses a negative amount");
                assert!(self.balance(token, from) >= amount, "balance is not sufficient");
                *self.book.entry((token, from)).or_insert(0) -= amount;
                *self.book.entry((token, to)).or_insert(0) += amount;
            }
            self.performed += 1;
        }
    }

    fn now(&self) -> u64 {
        self.env.ledger.timestamp
    }

    fn submit(&mut self, amount: i128, due_date: u64, rate: u32) -> Result<u64, ContractError> {
        InvoiceLiquidityContract::submit_invoice(
            &mut self.env,
            self.freelancer,
            self.payer,
            amount,
            due_date,
            rate,
            self.token,
        )
    }

    fn fund(&mut self, funder: Address, id: u64, amount: i128) -> Result<(), ContractError> {
        let result = InvoiceLiquidityContract::fund_invoice(&mut self.env, funder, id, amount);
        self.perform();
        result
    }

    fn pay(&mut self, id: u64, amount: i128) -> Result<(), ContractError> {
        let result = InvoiceLiquidityContract::mark_paid(&mut self.env, id, amount);
        self.perform();
        result
    }

    fn claim_default(&mut self, funder: Address, id: u64) -> Result<(), ContractError> {
        let result = InvoiceLiquidityContract::claim_default(&mut self.env, funder, id);
        self.perform();
        result
    }

    fn invoice(&self, id: u64) -> Invoice {
        InvoiceLiquidityContract::get_invoice(&self.env, id).unwrap()
    }
}

fn setup() -> TestEnv {
    let contract = contract_address(1);
    let token = contract_address(2);
    let xlm = contract_address(3);
    let env = Env::new(contract, LedgerInfo { timestamp: 0, sequence: 0 });
    let mut t = TestEnv {
        env,
        book: HashMap::new(),
        performed: 0,
        admin: address(10),
        token,
        xlm,
        freelancer: address(11),
        payer: address(12),
        funder: address(13),
    };
    t.mint(token, t.funder, INVOICE_AMOUNT * 10);
    t.mint(token, t.payer, INVOICE_AMOUNT * 10);
    // The treasury of the contract, which covers defaults.
    t.mint(token, contract, INVOICE_AMOUNT * 100);
    InvoiceLiquidityContract::initialize(&mut t.env, t.admin, token, xlm).unwrap();
    t.env.ledger.timestamp = 1_700_000_000;
    t.env.ledger.sequence = 100;
    t
}

/// As [`setup`], at time zero.
fn setup_xlm() -> TestEnv {
    let mut t = setup();
    t.env.ledger = LedgerInfo { timestamp: 0, sequence: 0 };
    t
}

fn submit_in(t: &mut TestEnv, token: Address, amount: i128) -> u64 {
    let due_date = t.now() + 30 * 24 * 60 * 60;
    InvoiceLiquidityContract::submit_invoice(
        &mut t.env,
        t.freelancer,
        t.payer,
        amount,
        due_date,
        300,
        token,
    )
    .unwrap()
}

#[test]
fn test_initialize_stores_xlm_sac_address_in_config() {
    let t = setup_xlm();
    let stats = InvoiceLiquidityContract::get_contract_stats(&t.env);
    assert_eq!(stats.total_invoices, 0);
    let config = InvoiceLiquidityContract::get_config(&t.env).unwrap();
    assert_eq!(config.xlm_sac_address, t.xlm);
}

#[test]
fn test_submit_invoice_with_xlm_token() {
    let mut t = setup_xlm();
    let xlm = t.xlm;
    let invoice_id = submit_in(&mut t, xlm, XLM_INVOICE_AMOUNT);
    let invoice = t.invoice(invoice_id);
    assert_eq!(invoice.token, t.xlm);
    assert_eq!(invoice.amount, XLM_INVOICE_AMOUNT);
    assert_eq!(invoice.status, InvoiceStatus::Pending);
}

#[test]
fn test_fund_invoice_with_xlm() {
    let mut t = setup_xlm();
    let xlm = t.xlm;
    let invoice_id = submit_in(&mut t, xlm, XLM_INVOICE_AMOUNT);
    t.mint(t.xlm, t.funder, XLM_INVOICE_AMOUNT);
    t.fund(t.funder, invoice_id, XLM_INVOICE_AMOUNT).unwrap();

    let invoice = t.invoice(invoice_id);
    assert_eq!(invoice.status, InvoiceStatus::Funded);
    assert_eq!(invoice.amount_funded, XLM_INVOICE_AMOUNT);
    assert_eq!(invoice.funder, Some(t.funder));
    let expected_payout = XLM_INVOICE_AMOUNT - (XLM_INVOICE_AMOUNT * 300 / 10_000);
    assert_eq!(t.balance(t.xlm, t.freelancer), expected_payout);
}

#[test]
fn test_mark_paid_with_xlm() {
    let mut t = setup_xlm();
    let xlm = t.xlm;
    let invoice_id = submit_in(&mut t, xlm, XLM_INVOICE_AMOUNT);
    t.mint(t.xlm, t.funder, XLM_INVOICE_AMOUNT);
    t.fund(t.funder, invoice_id, XLM_INVOICE_AMOUNT).unwrap();
    t.mint(t.xlm, t.payer, XLM_INVOICE_AMOUNT);
    t.pay(invoice_id, XLM_INVOICE_AMOUNT).unwrap();

    let invoice = t.invoice(invoice_id);
    assert_eq!(invoice.status, InvoiceStatus::Paid);
    assert_eq!(invoice.amount_paid, XLM_INVOICE_AMOUNT);
    assert!(t.balance(t.xlm, t.funder) > 0);
}

#[test]
fn test_partial_funding_with_xlm() {
    let mut t = setup_xlm();
    let xlm = t.xlm;
    let invoice_id = submit_in(&mut t, xlm, XLM_INVOICE_AMOUNT);
    t.mint(t.xlm, t.funder, XLM_INVOICE_AMOUNT);
    t.fund(t.funder, invoice_id, XLM_FUND_AMOUNT).unwrap();
    let invoice = t.invoice(invoice_id);
    assert_eq!(invoice.status, InvoiceStatus::PartiallyFunded);
    assert_eq!(invoice.amount_funded, XLM_FUND_AMOUNT);
}

#[test]
fn test_xlm_volume_tracking() {
    let mut t = setup_xlm();
    let xlm = t.xlm;
    let invoice_id = submit_in(&mut t, xlm, XLM_INVOICE_AMOUNT);
    t.mint(t.xlm, t.funder, XLM_INVOICE_AMOUNT);
    t.fund(t.funder, invoice_id, XLM_INVOICE_AMOUNT).unwrap();
    let stats = InvoiceLiquidityContract::get_contract_stats(&t.env);
    assert_eq!(stats.total_volume_xlm, XLM_INVOICE_AMOUNT);
    assert_eq!(stats.total_volume_usdc, 0);
}

#[test]
fn test_mixed_token_operations() {
    let mut t = setup_xlm();
    let (usdc, xlm) = (t.token, t.xlm);
    let usdc_invoice_id = submit_in(&mut t, usdc, USDC_INVOICE_AMOUNT);
    t.mint(usdc, t.funder, USDC_INVOICE_AMOUNT);
    t.fund(t.funder, usdc_invoice_id, USDC_INVOICE_AMOUNT).unwrap();
    let xlm_invoice_id = submit_in(&mut t, xlm, XLM_INVOICE_AMOUNT);
    t.mint(xlm, t.funder, XLM_INVOICE_AMOUNT);
    t.fund(t.funder, xlm_invoice_id, XLM_INVOICE_AMOUNT).unwrap();
    let stats = InvoiceLiquidityContract::get_contract_stats(&t.env);
    assert_eq!(stats.total_volume_usdc, USDC_INVOICE_AMOUNT);
    assert_eq!(stats.total_volume_xlm, XLM_INVOICE_AMOUNT);
}

#[test]
fn test_xlm_precision_in_calculations() {
    let mut t = setup_xlm();
    let xlm = t.xlm;
    let invoice_id = submit_in(&mut t, xlm, XLM_INVOICE_AMOUNT);
    t.mint(t.xlm, t.funder, XLM_INVOICE_AMOUNT);
    t.fund(t.funder, invoice_id, XLM_INVOICE_AMOUNT).unwrap();
    // 100,000,000 * 300 / 10,000 = 3,000,000 stroops
    let expected_discount = XLM_INVOICE_AMOUNT * 300 / 10_000;
    assert_eq!(expected_discount, 3_000_000);
    let expected_payout = XLM_INVOICE_AMOUNT - expected_discount;
    assert_eq!(t.balance(t.xlm, t.freelancer), expected_payout);
}
