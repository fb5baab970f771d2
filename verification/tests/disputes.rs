use iln::host::{Address, Hash32, LedgerInfo};
use iln::invoice_liquidity::env::HostCall;
use iln::invoice_liquidity::storage::set_config;
use iln::invoice_liquidity::{
    Config, ContractError, Env, Invoice, InvoiceLiquidityContract, InvoiceStatus,
};
use std::collections::HashMap;

const INVOICE_AMOUNT: i128 = 1_000_000_000;
const DISCOUNT_RATE: u32 = 300;
const DUE_DATE_OFFSET: u64 = 60 * 60 * 24 * 30;

type Book = HashMap<(Address, Address), i128>;

fn address(n: u128) -> Address {
    Address { contract: false, hi: 0, lo: n }
}

fn contract_address(n: u128) -> Address {
    Address { contract: true, hi: 0, lo: n }
}

/// A contract on a host that keeps a book of token balances.
struct TestEnv {
    env: Env,
    book: Book,
    performed: usize,
    admin: Address,
    token: Address,
    xlm: Address,
    freelancer: Address,
    payer: Address,
    funder: Address,
}

impl TestEnv {
    fn mint(&mut self, token: Address, to: Address, amount: i128) {
        *self.book.entry((token, to)).or_insert(0) += amount;
    }

    fn balance(&self, token: Address, who: Address) -> i128 {
        *self.book.get(&(token, who)).unwrap_or(&0)
    }

    /// Performs the transfers that the contract has asked for since the last time.
    fn perform(&mut self) {
        while self.performed < self.env.calls.len() {
            if let HostCall::Transfer { token, from, to, amount } = self.env.calls[self.performed] {
                assert!(amount >= 0, "a token refuses a negative amount");
                assert!(self.balance(token, from) >= amount, "balance is not sufficient");
                *self.book.entry((token, from)).or_insert(0) -= amount;
                *self.book.entry((token, to)).or_insert(0) += amount;
            }
            self.performed += 1;
        }
    }

    fn now(&self) -> u64 {
        self.env.ledger.timestamp
    }

    fn submit(&mut self, amount: i128, due_date: u64, rate: u32) -> Result<u64, ContractError> {
        InvoiceLiquidityContract::submit_invoice(
            &mut self.env,
            self.freelancer,
            self.payer,
            amount,
            due_date,
            rate,
            self.token,
        )
    }

    fn fund(&mut self, funder: Address, id: u64, amount: i128) -> Result<(), ContractError> {
        let result = InvoiceLiquidityContract::fund_invoice(&mut self.env, funder, id, amount);
        self.perform();
        result
    }

    fn pay(&mut self, id: u64, amount: i128) -> Result<(), ContractError> {
        let result = InvoiceLiquidityContract::mark_paid(&mut self.env, id, amount);
        self.perform();
        result
    }

    fn claim_default(&mut self, funder: Address, id: u64) -> Result<(), ContractError> {
        let result = InvoiceLiquidityContract::claim_default(&mut self.env, funder, id);
        self.perform();
        result
    }

    fn invoice(&self, id: u64) -> Invoice {
        InvoiceLiquidityContract::get_invoice(&self.env, id).unwrap()
    }
}

fn setup() -> TestEnv {
    let contract = contract_address(1);
    let token = contract_address(2);
    let xlm = contract_address(3);
    let env = Env::new(contract, LedgerInfo { timestamp: 0, sequence: 0 });
    let mut t = TestEnv {
        env,
        book: HashMap::new(),
        performed: 0,
        admin: address(10),
        token,
        xlm,
        freelancer: address(11),
        payer: address(12),
        funder: address(13),
    };
    t.mint(token, t.funder, INVOICE_AMOUNT * 10);
    t.mint(token, t.payer, INVOICE_AMOUNT * 10);
    // The treasury of the contract, which covers defaults.
    t.mint(token, contract, INVOICE_AMOUNT * 100);
    InvoiceLiquidityContract::initialize(&mut t.env, t.admin, token, xlm).unwrap();
    t.env.ledger.timestamp = 1_700_000_000;
    t.env.ledger.sequence = 100;
    t
}

fn submit_standard_invoice(t: &mut TestEnv) -> u64 {
    let due_date = t.now() + DUE_DATE_OFFSET;
    t.submit(INVOICE_AMOUNT, due_date, DISCOUNT_RATE).unwrap()
}

fn reason_hash() -> Hash32 {
    Hash32 { hi: 0xbaad << 112, lo: 0x01 }
}

fn dispute(t: &mut TestEnv, id: u64) {
    InvoiceLiquidityContract::dispute_invoice(&mut t.env, id, reason_hash()).unwrap();
}

#[test]
fn test_dispute_pending_invoice() {
    let mut t = setup();
    let id = submit_standard_invoice(&mut t);
    dispute(&mut t, id);
    assert_eq!(t.invoice(id).status, InvoiceStatus::Disputed);
}

#[test]
fn test_dispute_funded_invoice() {
    let mut t = setup();
    let id = submit_standard_invoice(&mut t);
    t.fund(t.funder, id, INVOICE_AMOUNT).unwrap();
    dispute(&mut t, id);
    assert_eq!(t.invoice(id).status, InvoiceStatus::Disputed);
}

#[test]
fn test_cannot_fund_disputed_invoice() {
    let mut t = setup();
    let id = submit_standard_invoice(&mut t);
    dispute(&mut t, id);
    let result = t.fund(t.funder, id, INVOICE_AMOUNT);
    assert_eq!(result, Err(ContractError::InvoiceDisputed));
}

#[test]
fn test_cannot_mark_paid_disputed_invoice() {
    let mut t = setup();
    let id = submit_standard_invoice(&mut t);
    t.fund(t.funder, id, INVOICE_AMOUNT).unwrap();
    dispute(&mut t, id);
    let result = t.pay(id, INVOICE_AMOUNT);
    assert_eq!(result, Err(ContractError::InvoiceDisputed));
}

#[test]
fn test_resolve_dispute_upheld_refunds_lp() {
    let mut t = setup();
    let id = submit_standard_invoice(&mut t);
    let fund_discount = INVOICE_AMOUNT * DISCOUNT_RATE as i128 / 10_000;
    let cost = INVOICE_AMOUNT - fund_discount;
    let initial_funder_balance = t.balance(t.token, t.funder);
    t.fund(t.funder, id, INVOICE_AMOUNT).unwrap();
    assert_eq!(t.balance(t.token, t.funder), initial_funder_balance - cost);
    dispute(&mut t, id);

    InvoiceLiquidityContract::resolve_dispute(&mut t.env, id, reason_hash(), 1).unwrap();
    t.perform();
    assert_eq!(t.invoice(id).status, InvoiceStatus::Cancelled);
    assert_eq!(t.balance(t.token, t.funder), initial_funder_balance);
}

#[test]
fn test_resolve_dispute_rejected_restores_funded_status() {
    let mut t = setup();
    let id = submit_standard_invoice(&mut t);
    t.fund(t.funder, id, INVOICE_AMOUNT).unwrap();
    dispute(&mut t, id);
    InvoiceLiquidityContract::resolve_dispute(&mut t.env, id, reason_hash(), 2).unwrap();
    assert_eq!(t.invoice(id).status, InvoiceStatus::Funded);
}

#[test]
fn test_non_payer_cannot_dispute() {
    let mut t = setup();
    let id = submit_standard_invoice(&mut t);
    t.env.calls.clear();
    // Whoever calls, it is the payer whose authorisation is asked for.
    let result = InvoiceLiquidityContract::dispute_invoice(&mut t.env, id, reason_hash());
    assert_eq!(result, Ok(()));
    assert_eq!(t.env.calls[0], HostCall::RequireAuth(t.payer));
}

#[test]
fn test_auto_resolve_dispute_timeout_behavior() {
    let mut t = setup();
    let config = Config {
        high_rep_threshold: 80,
        bonus_bps: 200,
        min_discount_rate_bps: 100,
        decay_rate_bps: 100,
        decay_period_ledgers: 1000,
        dispute_timeout_ledgers: 100,
        xlm_sac_address: t.xlm,
        price_oracle: None,
    };
    set_config(&mut t.env, &config);
    let id = submit_standard_invoice(&mut t);
    dispute(&mut t, id);

    let result = InvoiceLiquidityContract::auto_resolve_dispute(&mut t.env, id);
    assert_eq!(result, Err(ContractError::Unauthorized));

    t.env.ledger.sequence += 150;
    InvoiceLiquidityContract::auto_resolve_dispute(&mut t.env, id).unwrap();
    assert_eq!(t.invoice(id).status, InvoiceStatus::Pending);
}
