use iln::host::{Address, Hash32, LedgerInfo};
use iln::invoice_liquidity::access::{
    require_governance, require_lp_by_id, require_payer_by_id, require_submitter_by_id,
};
use iln::invoice_liquidity::config;
use iln::invoice_liquidity::contract::{
    discount_rate_as_i128, is_approved_token, is_xlm_token, normalize_usdc_amount,
    normalize_xlm_amount,
};
use iln::invoice_liquidity::env::HostCall;
use iln::invoice_liquidity::events::{
    AdminChanged, AppealResolved, DisputeResolved, Event, FundQueueResolved, FundRequested,
    InvoiceDefaulted, InvoiceFunded, InvoicePartiallyPaid, InvoiceTransferred, ParamName,
    ParameterUpdated, TokenAdded, TokenRemoved,
};
use iln::invoice_liquidity::invoice::{
    get_reputation, set_lp_score, set_payer_score, set_reputation, ContractStats, PayerStats,
};
use iln::invoice_liquidity::limits;
use iln::invoice_liquidity::storage;
use iln::invoice_liquidity::{
    Config, ConfigError, ContractError, DataKey, Env, Invoice, InvoiceLiquidityContract,
    InvoiceParams, InvoiceStatus, ReputationProfile,
};
use std::collections::HashMap;

const INVOICE_AMOUNT: i128 = 1_000_000_000;
const DISCOUNT_RATE: u32 = 300;
const DUE_DATE_OFFSET: u64 = 60 * 60 * 24 * 30;

type Book = HashMap<(Address, Address), i128>;

fn address(n: u128) -> Address {
    Address { contract: false, hi: 0, lo: n }
}

fn contract_address(n: u128) -> Address {
    Address { contract: true, hi: 0, lo: n }
}

/// A contract on a host that keeps a book of token balances.
struct TestEnv {
    env: Env,
    book: Book,
    performed: usize,
    admin: Address,
    token: Address,
    xlm: Address,
    freelancer: Address,
    payer: Address,
    funder: Address,
}

impl TestEnv {
    fn mint(&mut self, token: Address, to: Address, amount: i128) {
        *self.book.entry((token, to)).or_insert(0) += amount;
    }

    fn balance(&self, token: Address, who: Address) -> i128 {
        *self.book.get(&(token, who)).unwrap_or(&0)
    }

    /// Performs the transfers that the contract has asked for since the last time.
    fn perform(&mut self) {
        while self.performed < self.env.calls.len() {
            if let HostCall::Transfer { token, from, to, amount } = self.env.calls[self.performed] {
                assert!(amount >= 0, "a token refuses a negative amount");
                assert!(self.balance(token, from) >= amount, "balance is not sufficient");
                *self.book.entry((token, from)).or_insert(0) -= amount;
                *self.book.entry((token, to)).or_insert(0) += amount;
            }
            self.performed += 1;
        }
    }

    fn now(&self) -> u64 {
        self.env.ledger.timestamp
    }

    fn submit(&mut self, amount: i128, due_date: u64, rate: u32) -> Result<u64, ContractError> {
        InvoiceLiquidityContract::submit_invoice(
            &mut self.env,
            self.freelancer,
            self.payer,
            amount,
            due_date,
            rate,
            self.token,
        )
    }

    fn fund(&mut self, funder: Address, id: u64, amount: i128) -> Result<(), ContractError> {
        let result = InvoiceLiquidityContract::fund_invoice(&mut self.env, funder, id, amount);
        self.perform();
        result
    }

    fn pay(&mut self, id: u64, amount: i128) -> Result<(), ContractError> {
        let result = InvoiceLiquidityContract::mark_paid(&mut self.env, id, amount);
        self.perform();
        result
    }

    fn claim_default(&mut self, funder: Address, id: u64) -> Result<(), ContractError> {
        let result = InvoiceLiquidityContract::claim_default(&mut self.env, funder, id);
        self.perform();
        result
    }

    fn invoice(&self, id: u64) -> Invoice {
        InvoiceLiquidityContract::get_invoice(&self.env, id).unwrap()
    }
}

fn setup() -> TestEnv {
    let contract = contract_address(1);
    let token = contract_address(2);
    let xlm = contract_address(3);
    let env = Env::new(contract, LedgerInfo { timestamp: 0, sequence: 0 });
    let mut t = TestEnv {
        env,
        book: HashMap::new(),
        performed: 0,
        admin: address(10),
        token,
        xlm,
        freelancer: address(11),
        payer: address(12),
        funder: address(13),
    };
    t.mint(token, t.funder, INVOICE_AMOUNT * 10);
    t.mint(token, t.payer, INVOICE_AMOUNT * 10);
    // The treasury of the contract, which covers defaults.
    t.mint(token, contract, INVOICE_AMOUNT * 100);
    InvoiceLiquidityContract::initialize(&mut t.env, t.admin, token, xlm).unwrap();
    t.env.ledger.timestamp = 1_700_000_000;
    t.env.ledger.sequence = 100;
    t
}

fn submit_standard_invoice(t: &mut TestEnv) -> u64 {
    let due_date = t.now() + DUE_DATE_OFFSET;
    t.submit(INVOICE_AMOUNT, due_date, DISCOUNT_RATE).unwrap()
}

fn events(env: &Env) -> Vec<Event> {
    env.calls
        .iter()
        .filter_map(|call| match call {
            HostCall::Publish(event) => Some(*event),
            _ => None,
        })
        .collect()
}

fn auths(env: &Env) -> Vec<Address> {
    env.calls
        .iter()
        .filter_map(|call| match call {
            HostCall::RequireAuth(who) => Some(*who),
            _ => None,
        })
        .collect()
}

fn hash(byte: u8) -> Hash32 {
    let word = u128::from_be_bytes([byte; 16]);
    Hash32 { hi: word, lo: word }
}

// ----------------------------------------------------------------
// Set-up and administration
// ----------------------------------------------------------------

#[test]
fn set_up_is_refused_with_an_invoice_counter_in_the_instance() {
    let mut t = setup();
    t.env.instance.invoice_count = Some(0);
    let result =
        InvoiceLiquidityContract::initialize(&mut t.env, address(1), address(2), address(3));
    assert_eq!(result, Err(ContractError::AlreadyInitialized));
    assert_eq!(t.env.instance.admin, Some(t.admin));
}

#[test]
fn set_up_gives_the_initial_parameters() {
    let t = setup();
    let config = InvoiceLiquidityContract::get_config(&t.env).unwrap();
    assert_eq!(
        config,
        Config {
            high_rep_threshold: 70,
            bonus_bps: 100,
            min_discount_rate_bps: 100,
            decay_rate_bps: 50,
            decay_period_ledgers: 10000,
            dispute_timeout_ledgers: 10000,
            xlm_sac_address: t.xlm,
            price_oracle: None,
        }
    );
    assert_eq!(t.env.instance.fee_rate, Some(0));
    assert_eq!(t.env.instance.max_discount_rate, Some(5000));
    assert!(is_approved_token(&t.env, &t.token));
    assert!(is_approved_token(&t.env, &t.xlm));
    assert!(is_xlm_token(&t.env, &t.xlm));
    assert!(!is_xlm_token(&t.env, &t.token));
    assert_eq!(InvoiceLiquidityContract::get_price_oracle(&t.env), None);
}

#[test]
fn the_admin_can_hand_over() {
    let mut t = setup();
    let next = address(20);
    InvoiceLiquidityContract::set_admin(&mut t.env, next).unwrap();
    assert_eq!(
        t.env.calls,
        vec![
            HostCall::RequireAuth(t.admin),
            HostCall::Publish(Event::AdminChanged(AdminChanged {
                old_admin: t.admin,
                new_admin: next,
                timestamp: t.now(),
            })),
        ]
    );
    assert_eq!(storage::get_admin(&t.env), Some(next));
}

#[test]
fn nobody_administers_without_an_admin() {
    let mut t = setup();
    t.env.instance.admin = None;
    let e = Err(ContractError::Unauthorized);
    let env = &mut t.env;
    assert_eq!(InvoiceLiquidityContract::set_admin(env, address(1)), e);
    assert_eq!(InvoiceLiquidityContract::update_fee_rate(env, 1), e);
    assert_eq!(InvoiceLiquidityContract::update_max_discount(env, 1), e);
    assert_eq!(InvoiceLiquidityContract::set_distribution_contract(env, address(1)), e);
    assert_eq!(InvoiceLiquidityContract::set_price_oracle(env, address(1)), e);
    assert_eq!(InvoiceLiquidityContract::add_token(env, address(1)), e);
    assert_eq!(InvoiceLiquidityContract::remove_token(env, address(1)), e);
    assert_eq!(InvoiceLiquidityContract::set_min_payer_reputation(env, 1), e);
    assert_eq!(InvoiceLiquidityContract::resolve_appeal(env, 1, true), e);
    assert_eq!(InvoiceLiquidityContract::resolve_dispute(env, 1, hash(1), 1), e);
    assert_eq!(require_governance(env), e);
    assert!(env.calls.is_empty());
}

#[test]
fn parameters_announce_their_changes() {
    let mut t = setup();
    InvoiceLiquidityContract::update_fee_rate(&mut t.env, 25).unwrap();
    InvoiceLiquidityContract::update_max_discount(&mut t.env, 4000).unwrap();
    InvoiceLiquidityContract::set_min_payer_reputation(&mut t.env, 30).unwrap();
    let updated = |param_name, old_value, new_value| {
        Event::ParameterUpdated(ParameterUpdated {
            param_name,
            old_value,
            new_value,
            updated_by: t.admin,
        })
    };
    assert_eq!(
        events(&t.env),
        vec![
            updated(ParamName::ProtocolFeeRateBps, 0, 25),
            updated(ParamName::MaxDiscountRateBps, 5000, 4000),
            updated(ParamName::MinPayerReputation, 0, 30),
        ]
    );
    assert_eq!(ParamName::ProtocolFeeRateBps.symbol(), "protocol_fee_rate_bps");
    assert_eq!(ParamName::MaxDiscountRateBps.symbol(), "max_discount_rate_bps");
    assert_eq!(ParamName::MinPayerReputation.symbol(), "min_payer_reputation");
    assert_eq!(InvoiceLiquidityContract::min_payer_reputation(&t.env), 30);
}

#[test]
fn configuration_is_updated_within_bounds() {
    let mut t = setup();
    let admin = t.admin;
    let xlm = address(77);
    let oracle = contract_address(9);
    InvoiceLiquidityContract::set_price_oracle(&mut t.env, oracle).unwrap();
    assert_eq!(InvoiceLiquidityContract::get_price_oracle(&t.env), Some(oracle));
    assert_eq!(
        config::update_config(&mut t.env, &address(5), 1, 1, 1, 1, 1, 1, xlm),
        Err(ConfigError::Unauthorized)
    );
    assert_eq!(
        config::update_config(&mut t.env, &admin, 1, 501, 1, 1, 1, 1, xlm),
        Err(ConfigError::InvalidBonusBps)
    );
    assert_eq!(
        config::update_config(&mut t.env, &admin, 1, 500, 0, 1, 1, 1, xlm),
        Err(ConfigError::InvalidMinDiscountRate)
    );
    assert_eq!(
        InvoiceLiquidityContract::update_config(&mut t.env, admin, 1, 501, 1, 1, 1, 1, xlm),
        Err(ContractError::Unauthorized)
    );
    t.env.calls.clear();
    InvoiceLiquidityContract::update_config(&mut t.env, admin, 81, 500, 90, 60, 700, 800, xlm)
        .unwrap();
    let updated = |param_name, old_value, new_value| {
        Event::ParameterUpdated(ParameterUpdated {
            param_name,
            old_value,
            new_value,
            updated_by: admin,
        })
    };
    assert_eq!(
        events(&t.env),
        vec![
            updated(ParamName::HighRepThreshold, 70, 81),
            updated(ParamName::BonusBps, 100, 500),
            updated(ParamName::MinDiscountRateBps, 100, 90),
            updated(ParamName::DecayRateBps, 50, 60),
            updated(ParamName::DecayPeriodLedgers, 10000, 700),
            updated(ParamName::DisputeTimeoutLedgers, 10000, 800),
        ]
    );
    let config = InvoiceLiquidityContract::get_config(&t.env).unwrap();
    assert_eq!(config.xlm_sac_address, xlm);
    assert_eq!(config.price_oracle, Some(oracle));
    assert_eq!(ParamName::DisputeTimeoutLedgers.symbol(), "dispute_timeout_ledgers");

    t.env.instance.config = None;
    assert_eq!(InvoiceLiquidityContract::get_config(&t.env), Err(ContractError::Unauthorized));
    assert_eq!(
        InvoiceLiquidityContract::set_price_oracle(&mut t.env, oracle),
        Err(ContractError::Unauthorized)
    );
}

#[test]
fn the_allowlist_grows_and_shrinks() {
    let mut t = setup();
    let other = contract_address(30);
    let due_date = t.now() + DUE_DATE_OFFSET;
    let submit = |t: &mut TestEnv| {
        InvoiceLiquidityContract::submit_invoice(
            &mut t.env,
            t.freelancer,
            t.payer,
            INVOICE_AMOUNT,
            due_date,
            DISCOUNT_RATE,
            other,
        )
    };
    assert_eq!(submit(&mut t), Err(ContractError::Unauthorized));
    InvoiceLiquidityContract::add_token(&mut t.env, other).unwrap();
    InvoiceLiquidityContract::add_token(&mut t.env, other).unwrap();
    assert_eq!(t.env.persistent.token_list, Some(vec![t.token, t.xlm, other]));
    let id = submit(&mut t).unwrap();
    InvoiceLiquidityContract::remove_token(&mut t.env, other).unwrap();
    assert_eq!(t.env.persistent.token_list, Some(vec![t.token, t.xlm]));
    assert_eq!(submit(&mut t), Err(ContractError::Unauthorized));
    // An invoice in a token that was taken off the list cannot be funded.
    assert_eq!(t.fund(t.funder, id, 1), Err(ContractError::Unauthorized));
    let published = events(&t.env);
    assert_eq!(published[0], Event::TokenAdded(TokenAdded { token: other }));
    assert!(published.contains(&Event::TokenRemoved(TokenRemoved { token: other })));
}

// ----------------------------------------------------------------
// Submission
// ----------------------------------------------------------------

#[test]
fn submission_refusals_name_their_reason() {
    let mut t = setup();
    let due_date = t.now() + DUE_DATE_OFFSET;
    assert_eq!(
        InvoiceLiquidityContract::submit_invoice(
            &mut t.env,
            t.payer,
            t.payer,
            INVOICE_AMOUNT,
            due_date,
            DISCOUNT_RATE,
            t.token,
        ),
        Err(ContractError::SelfInvoice)
    );
    assert_eq!(t.submit(999_999, due_date, DISCOUNT_RATE), Err(ContractError::InvalidAmount));
    assert_eq!(
        t.submit(INVOICE_AMOUNT, u64::from(u32::MAX) + 1, DISCOUNT_RATE),
        Err(ContractError::InvalidDueDate)
    );
    assert_eq!(t.submit(1_000_000, due_date, 5_000), Ok(1));
    assert_eq!(InvoiceLiquidityContract::get_invoice_count(&t.env), 1);
}

#[test]
fn a_batch_asks_every_freelancer_once() {
    let mut t = setup();
    let p = InvoiceParams {
        freelancer: t.freelancer,
        payer: t.payer,
        amount: INVOICE_AMOUNT,
        due_date: t.now() + DUE_DATE_OFFSET,
        discount_rate: DISCOUNT_RATE,
        token: t.token,
    };
    let q = InvoiceParams { freelancer: address(21), ..p };
    let r = InvoiceParams { freelancer: address(22), amount: 5, ..p };
    // A freelancer may invoice themselves in a batch.
    let own = InvoiceParams { payer: t.freelancer, ..p };
    let before = t.env.clone();
    assert_eq!(
        InvoiceLiquidityContract::submit_invoices_batch(&mut t.env, vec![p, q, p, r, q]),
        Err(ContractError::InvalidAmount)
    );
    assert_eq!(auths(&t.env), vec![t.freelancer, address(21), address(22)]);
    assert_eq!(t.env.calls.len(), 3);
    t.env = before;
    assert_eq!(
        InvoiceLiquidityContract::submit_invoices_batch(&mut t.env, vec![p, q, own]),
        Ok(vec![1, 2, 3])
    );
    assert_eq!(auths(&t.env), vec![t.freelancer, address(21)]);
    assert_eq!(events(&t.env).len(), 3);
    assert_eq!(t.invoice(2).freelancer, address(21));
    assert_eq!(InvoiceLiquidityContract::submit_invoices_batch(&mut t.env, vec![]), Ok(vec![]));
    InvoiceLiquidityContract::pause(&mut t.env).unwrap();
    assert_eq!(
        InvoiceLiquidityContract::submit_invoices_batch(&mut t.env, vec![p; 20]),
        Err(ContractError::ContractPaused)
    );
}

#[test]
fn a_submission_keeps_its_entries_alive() {
    let mut t = setup();
    submit_standard_invoice(&mut t);
    let kept: Vec<DataKey> = t
        .env
        .calls
        .iter()
        .filter_map(|call| match call {
            HostCall::ExtendTtl { key, threshold, extend_to } => {
                assert_eq!((*threshold, *extend_to), (1_000_000, 2_000_000));
                Some(*key)
            },
            _ => None,
        })
        .collect();
    assert_eq!(
        kept,
        vec![
            DataKey::InvoiceCount,
            DataKey::Invoice(1),
            DataKey::SubmitterInvoices(t.freelancer),
        ]
    );
}

#[test]
fn lists_come_in_pages() {
    let mut t = setup();
    for _ in 0..5 {
        submit_standard_invoice(&mut t);
    }
    let ids = |t: &TestEnv, page: u32, size: u32| -> Vec<u64> {
        InvoiceLiquidityContract::list_invoices_by_submitter(&t.env, t.freelancer, page, size)
            .iter()
            .map(|invoice| invoice.id)
            .collect()
    };
    assert_eq!(ids(&t, 0, 2), vec![1, 2]);
    assert_eq!(ids(&t, 1, 2), vec![3, 4]);
    assert_eq!(ids(&t, 2, 2), vec![5]);
    assert_eq!(ids(&t, 3, 2), Vec::<u64>::new());
    assert_eq!(ids(&t, 0, 1000), vec![1, 2, 3, 4, 5]);
    assert_eq!(ids(&t, 1, 1000), Vec::<u64>::new());
    assert_eq!(ids(&t, 0, 0), Vec::<u64>::new());

    // A transfer moves the invoice to the other list.
    let other = address(23);
    InvoiceLiquidityContract::transfer_invoice(&mut t.env, 2, other).unwrap();
    assert_eq!(ids(&t, 0, 50), vec![1, 3, 4, 5]);
    let moved = InvoiceLiquidityContract::list_invoices_by_submitter(&t.env, other, 0, 50);
    assert_eq!(moved.len(), 1);
    assert_eq!(moved[0].id, 2);
    assert_eq!(
        *events(&t.env).last().unwrap(),
        Event::InvoiceTransferred(InvoiceTransferred {
            invoice_id: 2,
            old_freelancer: t.freelancer,
            new_freelancer: other,
            status: InvoiceStatus::Pending,
        })
    );

    // Funding twice lists the invoice once.
    t.fund(t.funder, 1, 1_000).unwrap();
    t.fund(t.funder, 1, 1_000).unwrap();
    t.fund(t.funder, 3, 1_000).unwrap();
    let funded = InvoiceLiquidityContract::list_invoices_by_lp(&t.env, t.funder, 0, 10);
    assert_eq!(funded.iter().map(|invoice| invoice.id).collect::<Vec<u64>>(), vec![1, 3]);
}

#[test]
fn a_lapsed_invoice_is_marked_on_the_way() {
    let mut t = setup();
    let a = submit_standard_invoice(&mut t);
    let b = submit_standard_invoice(&mut t);
    t.env.ledger.timestamp += DUE_DATE_OFFSET;
    assert_eq!(t.fund(t.funder, a, INVOICE_AMOUNT), Err(ContractError::InvoiceExpired));
    assert_eq!(t.invoice(a).status, InvoiceStatus::Expired);
    let due_date = t.now() + DUE_DATE_OFFSET;
    assert_eq!(
        InvoiceLiquidityContract::update_invoice(
            &mut t.env,
            t.freelancer,
            b,
            INVOICE_AMOUNT,
            due_date,
            DISCOUNT_RATE,
        ),
        Err(ContractError::InvoiceExpired)
    );
    assert_eq!(t.invoice(b).status, InvoiceStatus::Expired);
    assert_eq!(
        InvoiceLiquidityContract::expire_invoice(&mut t.env, b),
        Err(ContractError::InvoiceExpired)
    );
}

#[test]
fn cancelling_gives_back_what_was_paid() {
    let mut t = setup();
    let id = submit_standard_invoice(&mut t);
    let second = address(24);
    t.mint(t.token, second, INVOICE_AMOUNT);
    let before = (t.balance(t.token, t.funder), t.balance(t.token, second));
    t.fund(t.funder, id, 333_333_333).unwrap();
    t.fund(second, id, 100).unwrap();
    // 333_333_333 less 3%, the discount rounded down: 9_999_999.
    assert_eq!(before.0 - t.balance(t.token, t.funder), 323_333_334);
    assert_eq!(before.1 - t.balance(t.token, second), 97);
    InvoiceLiquidityContract::cancel_invoice(&mut t.env, id).unwrap();
    t.perform();
    assert_eq!(before, (t.balance(t.token, t.funder), t.balance(t.token, second)));
    assert_eq!(t.invoice(id).status, InvoiceStatus::Cancelled);
    assert_eq!(
        InvoiceLiquidityContract::cancel_invoice(&mut t.env, id),
        Err(ContractError::AlreadyCancelled)
    );
    assert_eq!(
        InvoiceLiquidityContract::cancel_invoice(&mut t.env, 999),
        Err(ContractError::InvoiceNotFound)
    );
}

// ----------------------------------------------------------------
// The queue and funding
// ----------------------------------------------------------------

#[test]
fn the_queue_is_won_by_score_then_by_time() {
    let mut t = setup();
    let id = submit_standard_invoice(&mut t);
    let (low, first, second) = (address(25), address(26), address(27));
    set_lp_score(&mut t.env, &first, 80);
    set_lp_score(&mut t.env, &second, 80);
    assert_eq!(
        InvoiceLiquidityContract::resolve_fund_queue(&mut t.env, id),
        Err(ContractError::NotFunded)
    );
    for lp in [low, first, second] {
        InvoiceLiquidityContract::join_fund_queue(&mut t.env, lp, id).unwrap();
    }
    assert_eq!(
        InvoiceLiquidityContract::join_fund_queue(&mut t.env, low, id),
        Err(ContractError::AlreadyInQueue)
    );
    // The score at the time of joining is what counts.
    set_lp_score(&mut t.env, &low, 100);
    assert_eq!(InvoiceLiquidityContract::resolve_fund_queue(&mut t.env, id), Ok(first));
    let published = events(&t.env);
    assert_eq!(
        published[1],
        Event::FundRequested(FundRequested { invoice_id: id, lp: low, score: 50 })
    );
    assert_eq!(
        *published.last().unwrap(),
        Event::FundQueueResolved(FundQueueResolved {
            invoice_id: id,
            approved_lp: first,
            score: 80,
        })
    );
    let calls = t.env.calls.len();
    assert_eq!(InvoiceLiquidityContract::resolve_fund_queue(&mut t.env, id), Ok(first));
    assert_eq!(t.env.calls.len(), calls);
    assert_eq!(
        InvoiceLiquidityContract::join_fund_queue(&mut t.env, t.funder, id),
        Err(ContractError::NotApprovedFunder)
    );
    assert_eq!(t.fund(t.funder, id, 1), Err(ContractError::NotApprovedFunder));
    t.mint(t.token, first, INVOICE_AMOUNT);
    assert_eq!(t.fund(first, id, INVOICE_AMOUNT), Ok(()));
    assert_eq!(InvoiceLiquidityContract::lp_score(&t.env, first), 81);
    assert_eq!(
        InvoiceLiquidityContract::resolve_fund_queue(&mut t.env, 999),
        Err(ContractError::InvoiceNotFound)
    );
    assert_eq!(
        InvoiceLiquidityContract::join_fund_queue(&mut t.env, low, 999),
        Err(ContractError::InvoiceNotFound)
    );
}

#[test]
fn a_payer_of_low_reputation_is_not_funded() {
    let mut t = setup();
    let id = submit_standard_invoice(&mut t);
    InvoiceLiquidityContract::set_min_payer_reputation(&mut t.env, 51).unwrap();
    assert_eq!(t.fund(t.funder, id, 1), Err(ContractError::PayerReputationTooLow));
    InvoiceLiquidityContract::set_min_payer_reputation(&mut t.env, 50).unwrap();
    assert_eq!(t.fund(t.funder, id, 1), Ok(()));
}

#[test]
fn funding_stops_at_the_amount() {
    let mut t = setup();
    let id = submit_standard_invoice(&mut t);
    t.fund(t.funder, id, INVOICE_AMOUNT - 1).unwrap();
    assert_eq!(t.fund(t.funder, id, 2), Err(ContractError::OverfundingRejected));
    t.env.ledger.timestamp += 5 * 86_400 + 1;
    t.fund(t.funder, id, 1).unwrap();
    assert_eq!(
        storage::get_invoice_funders(&t.env, id),
        vec![(t.funder, INVOICE_AMOUNT)]
    );
    assert_eq!(
        *events(&t.env).last().unwrap(),
        Event::InvoiceFunded(InvoiceFunded {
            invoice_id: id,
            funder: t.funder,
            freelancer: t.freelancer,
            payer: t.payer,
            token: t.token,
            fund_amount: 1,
            amount_funded: INVOICE_AMOUNT,
            invoice_amount: INVOICE_AMOUNT,
            due_date: 1_700_000_000 + DUE_DATE_OFFSET,
            discount_rate: 300,
            funded_at: Some(t.now()),
            status: InvoiceStatus::Funded,
            lp: t.funder,
            // 24 whole days are left: 300 * 24 / 365.
            effective_yield_bps: 19,
            timestamp: t.now(),
        })
    );
    // What the funder paid in parts covers what the freelancer was paid.
    let paid_in = INVOICE_AMOUNT * 10 - t.balance(t.token, t.funder);
    assert!(paid_in >= t.balance(t.token, t.freelancer));
    assert_eq!(paid_in - t.balance(t.token, t.freelancer), 1);
}

#[test]
fn the_distribution_contract_is_told() {
    let mut t = setup();
    let contract = contract_address(31);
    InvoiceLiquidityContract::set_distribution_contract(&mut t.env, contract).unwrap();
    let id = submit_standard_invoice(&mut t);
    t.fund(t.funder, id, INVOICE_AMOUNT).unwrap();
    t.env.ledger.timestamp += DUE_DATE_OFFSET + 1;
    t.pay(id, INVOICE_AMOUNT).unwrap();
    assert!(t.env.calls.contains(&HostCall::AccrueLp {
        contract,
        lp: t.funder,
        amount: INVOICE_AMOUNT,
    }));
    assert!(t.env.calls.contains(&HostCall::AccrueSettlement {
        contract,
        freelancer: t.freelancer,
        payer: t.payer,
        on_time: false,
    }));
}

#[test]
fn volume_goes_by_the_place_on_the_list() {
    let mut t = setup();
    let (third, fourth) = (contract_address(32), contract_address(33));
    InvoiceLiquidityContract::add_token(&mut t.env, third).unwrap();
    InvoiceLiquidityContract::add_token(&mut t.env, fourth).unwrap();
    for (token, amount) in [(t.token, 1), (t.xlm, 20), (third, 300), (fourth, 4000)] {
        iln::invoice_liquidity::invoice::add_volume(&mut t.env, &token, amount);
    }
    let stats = InvoiceLiquidityContract::get_contract_stats(&t.env);
    assert_eq!(stats.total_volume_usdc, 1);
    assert_eq!(stats.total_volume_eurc, 0);
    assert_eq!(stats.total_volume_xlm, 320);
    assert_eq!(
        stats.token_volumes,
        vec![(t.token, 1), (t.xlm, 20), (third, 300), (fourth, 4000)]
    );
    // The second on the list is EURC if it is not the wrapped native asset.
    InvoiceLiquidityContract::remove_token(&mut t.env, t.xlm).unwrap();
    iln::invoice_liquidity::invoice::add_volume(&mut t.env, &third, 5);
    let stats = InvoiceLiquidityContract::get_contract_stats(&t.env);
    assert_eq!(stats.total_volume_eurc, 5);
    assert_eq!(stats.total_volume_xlm, 320);
    // The place on the list decides: first, the wrapped native asset is USDC alone,
    // and behind the third it is in no total by asset.
    t.env.persistent.token_list = Some(vec![t.xlm, t.token, third, fourth]);
    iln::invoice_liquidity::invoice::add_volume(&mut t.env, &t.xlm, 600);
    t.env.persistent.token_list = Some(vec![t.token, third, fourth, t.xlm]);
    iln::invoice_liquidity::invoice::add_volume(&mut t.env, &t.xlm, 7000);
    let stats = InvoiceLiquidityContract::get_contract_stats(&t.env);
    assert_eq!(stats.total_volume_usdc, 601);
    assert_eq!(stats.total_volume_eurc, 5);
    assert_eq!(stats.total_volume_xlm, 320);
    assert_eq!(stats.token_volumes[3], (t.xlm, 7620));
    // With the three tokens named, the first that matches gets it all.
    storage::add_volume(&mut t.env, &third, 7, &fourth, &third, &third);
    assert_eq!(t.env.persistent.total_volume_eurc, Some(12));
}

// ----------------------------------------------------------------
// Settlement
// ----------------------------------------------------------------

#[test]
fn settlement_pays_the_fee_and_the_shares() {
    let mut t = setup();
    let second = address(28);
    t.mint(t.token, second, INVOICE_AMOUNT);
    InvoiceLiquidityContract::update_fee_rate(&mut t.env, 100).unwrap();
    let id = submit_standard_invoice(&mut t);
    t.fund(t.funder, id, 600_000_001).unwrap();
    t.fund(second, id, 399_999_999).unwrap();
    let (a, b) = (t.balance(t.token, t.funder), t.balance(t.token, second));
    let held = t.balance(t.token, t.env.contract);

    assert_eq!(t.pay(id, 0), Err(ContractError::InvalidAmount));
    assert_eq!(t.pay(id, INVOICE_AMOUNT + 1), Err(ContractError::OverpaymentRejected));
    t.pay(id, 400_000_000).unwrap();
    assert_eq!(
        *events(&t.env).last().unwrap(),
        Event::InvoicePartiallyPaid(InvoicePartiallyPaid {
            invoice_id: id,
            payer: t.payer,
            amount_paid_now: 400_000_000,
            total_amount_paid: 400_000_000,
            remaining_amount: 600_000_000,
        })
    );
    assert_eq!(t.invoice(id).status, InvoiceStatus::Funded);
    assert_eq!(t.pay(id, 600_000_001), Err(ContractError::OverpaymentRejected));
    t.pay(id, 600_000_000).unwrap();
    // One per cent is the fee; the shares of 990_000_000 are rounded down.
    assert_eq!(t.balance(t.token, t.admin), 10_000_000);
    assert_eq!(t.balance(t.token, t.funder) - a, 594_000_000);
    assert_eq!(t.balance(t.token, second) - b, 395_999_999);
    assert_eq!(t.balance(t.token, t.env.contract) - held, 1);
    match *events(&t.env).last().unwrap() {
        Event::InvoicePaid(paid) => {
            assert_eq!(paid.lp, t.funder);
            assert_eq!(paid.lp_payout, 594_000_000);
            assert_eq!(paid.lp_earned, -6_000_001);
            assert!(paid.paid_on_time);
        },
        other => panic!("unexpected event {:?}", other),
    }
}

#[test]
fn yield_is_the_discount_once_paid() {
    let mut t = setup();
    let id = submit_standard_invoice(&mut t);
    assert_eq!(
        InvoiceLiquidityContract::claim_yield(&mut t.env, 999),
        Err(ContractError::InvoiceNotFound)
    );
    assert_eq!(
        InvoiceLiquidityContract::claim_yield(&mut t.env, id),
        Err(ContractError::NothingToClaim)
    );
    t.fund(t.funder, id, INVOICE_AMOUNT).unwrap();
    assert_eq!(InvoiceLiquidityContract::claim_yield(&mut t.env, id), Ok(0));
    assert_eq!(t.env.calls.last(), Some(&HostCall::RequireAuth(t.funder)));
    t.pay(id, INVOICE_AMOUNT).unwrap();
    assert_eq!(InvoiceLiquidityContract::claim_yield(&mut t.env, id), Ok(30_000_000));
    // A funder who is not on the list has no claim.
    storage::save_invoice_funders(&mut t.env, id, &vec![]);
    assert_eq!(
        InvoiceLiquidityContract::claim_yield(&mut t.env, id),
        Err(ContractError::Unauthorized)
    );
}

// ----------------------------------------------------------------
// Defaults and appeals
// ----------------------------------------------------------------

fn default_one(t: &mut TestEnv) -> u64 {
    let id = submit_standard_invoice(t);
    t.fund(t.funder, id, INVOICE_AMOUNT).unwrap();
    t.env.ledger.timestamp += DUE_DATE_OFFSET;
    t.claim_default(t.funder, id).unwrap();
    id
}

#[test]
fn a_default_announces_the_refunds() {
    let mut t = setup();
    let id = default_one(&mut t);
    assert_eq!(
        *events(&t.env).last().unwrap(),
        Event::InvoiceDefaulted(InvoiceDefaulted {
            invoice_id: id,
            funder: t.funder,
            freelancer: t.freelancer,
            payer: t.payer,
            token: t.token,
            amount: INVOICE_AMOUNT,
            due_date: t.now(),
            defaulted_at: t.now(),
            discount_amount: 970_000_000,
            status: InvoiceStatus::Defaulted,
        })
    );
    assert_eq!(
        InvoiceLiquidityContract::claim_yield(&mut t.env, id),
        Err(ContractError::InvoiceDefaulted)
    );
    assert_eq!(t.claim_default(t.funder, 999), Err(ContractError::InvoiceNotFound));
}

#[test]
fn an_upheld_appeal_restores_the_score() {
    let mut t = setup();
    let payer = t.payer;
    set_payer_score(&mut t.env, &payer, 63);
    let id = default_one(&mut t);
    assert_eq!(InvoiceLiquidityContract::payer_score(&t.env, payer), 58);
    t.env.ledger.timestamp += 2_592_000;
    t.env.ledger.sequence += 100_000;
    assert!(InvoiceLiquidityContract::payer_score(&t.env, payer) < 58);
    InvoiceLiquidityContract::appeal_default(&mut t.env, id, hash(7)).unwrap();
    assert_eq!(t.invoice(id).status, InvoiceStatus::Appealed);
    assert_eq!(
        InvoiceLiquidityContract::appeal_default(&mut t.env, id, hash(7)),
        Err(ContractError::AlreadyAppealed)
    );
    InvoiceLiquidityContract::resolve_appeal(&mut t.env, id, true).unwrap();
    assert_eq!(InvoiceLiquidityContract::payer_score(&t.env, payer), 63);
    assert_eq!(t.invoice(id).status, InvoiceStatus::Defaulted);
    assert_eq!(
        *events(&t.env).last().unwrap(),
        Event::AppealResolved(AppealResolved {
            invoice_id: id,
            payer,
            upheld: true,
            resolved_at: t.now(),
        })
    );
    assert_eq!(
        InvoiceLiquidityContract::resolve_appeal(&mut t.env, id, true),
        Err(ContractError::NotDefaulted)
    );
}

#[test]
fn a_rejected_appeal_leaves_the_penalty() {
    let mut t = setup();
    let id = default_one(&mut t);
    InvoiceLiquidityContract::appeal_default(&mut t.env, id, hash(7)).unwrap();
    InvoiceLiquidityContract::resolve_appeal(&mut t.env, id, false).unwrap();
    assert_eq!(InvoiceLiquidityContract::payer_score(&t.env, t.payer), 45);
    assert_eq!(t.invoice(id).status, InvoiceStatus::Defaulted);
}

#[test]
fn appeals_are_refused_out_of_time_and_out_of_place() {
    let mut t = setup();
    let pending = submit_standard_invoice(&mut t);
    assert_eq!(
        InvoiceLiquidityContract::appeal_default(&mut t.env, 999, hash(1)),
        Err(ContractError::InvoiceNotFound)
    );
    assert_eq!(
        InvoiceLiquidityContract::appeal_default(&mut t.env, pending, hash(1)),
        Err(ContractError::NotDefaulted)
    );
    let id = default_one(&mut t);
    t.env.ledger.timestamp += 2_592_001;
    assert_eq!(
        InvoiceLiquidityContract::appeal_default(&mut t.env, id, hash(1)),
        Err(ContractError::AppealWindowClosed)
    );
    assert_eq!(
        InvoiceLiquidityContract::resolve_appeal(&mut t.env, id, true),
        Err(ContractError::NotDefaulted)
    );
    assert_eq!(
        InvoiceLiquidityContract::resolve_appeal(&mut t.env, 999, true),
        Err(ContractError::InvoiceNotFound)
    );
}

// ----------------------------------------------------------------
// Disputes
// ----------------------------------------------------------------

#[test]
fn disputes_end_in_one_of_two_ways() {
    let mut t = setup();
    let id = submit_standard_invoice(&mut t);
    let before = t.invoice(id);
    assert_eq!(
        InvoiceLiquidityContract::resolve_dispute(&mut t.env, id, hash(1), 1),
        Err(ContractError::NotDisputed)
    );
    assert_eq!(
        InvoiceLiquidityContract::auto_resolve_dispute(&mut t.env, id),
        Err(ContractError::NotDisputed)
    );
    t.fund(t.funder, id, 5).unwrap();
    InvoiceLiquidityContract::dispute_invoice(&mut t.env, id, hash(1)).unwrap();
    assert_eq!(
        InvoiceLiquidityContract::dispute_invoice(&mut t.env, id, hash(1)),
        Err(ContractError::AlreadyDisputed)
    );
    assert_eq!(
        InvoiceLiquidityContract::resolve_dispute(&mut t.env, id, hash(1), 3),
        Err(ContractError::Unauthorized)
    );
    InvoiceLiquidityContract::resolve_dispute(&mut t.env, id, hash(2), 2).unwrap();
    assert_eq!(t.invoice(id).status, InvoiceStatus::PartiallyFunded);
    assert_eq!(t.invoice(id).amount, before.amount);
    assert_eq!(
        *events(&t.env).last().unwrap(),
        Event::DisputeResolved(DisputeResolved {
            invoice_id: id,
            resolution_hash: hash(2),
            resolution: 2,
            resolved_at: t.now(),
        })
    );
    // Once disputed, never again.
    assert_eq!(
        InvoiceLiquidityContract::dispute_invoice(&mut t.env, id, hash(1)),
        Err(ContractError::AlreadyDisputed)
    );
    assert_eq!(
        InvoiceLiquidityContract::resolve_dispute(&mut t.env, 999, hash(1), 1),
        Err(ContractError::InvoiceNotFound)
    );
    assert_eq!(
        InvoiceLiquidityContract::dispute_invoice(&mut t.env, 999, hash(1)),
        Err(ContractError::InvoiceNotFound)
    );
}

// ----------------------------------------------------------------
// Scores and views
// ----------------------------------------------------------------

#[test]
fn the_suggested_rate_falls_with_the_score() {
    let mut t = setup();
    let payer = t.payer;
    for (score, rate) in [(0, 1000), (50, 750), (99, 505), (100, 500)] {
        set_payer_score(&mut t.env, &payer, score);
        assert_eq!(InvoiceLiquidityContract::suggested_discount_rate(&t.env, payer), rate);
    }
}

#[test]
fn the_two_ways_of_decay_differ_for_small_scores() {
    let mut t = setup();
    let payer = t.payer;
    set_payer_score(&mut t.env, &payer, 100);
    t.env.ledger.sequence += 30_000;
    // Three periods at half a per cent: less than a point each.
    assert_eq!(InvoiceLiquidityContract::payer_score(&t.env, payer), 97);
    assert_eq!(storage::get_payer_score(&t.env, &payer), 100);
    // At ten per cent both take the same.
    let mut config = InvoiceLiquidityContract::get_config(&t.env).unwrap();
    config.decay_rate_bps = 1000;
    storage::set_config(&mut t.env, &config);
    assert_eq!(InvoiceLiquidityContract::payer_score(&t.env, payer), 73);
    assert_eq!(storage::get_payer_score(&t.env, &payer), 73);
}

#[test]
fn reputation_profiles_are_kept_by_address() {
    let mut t = setup();
    let who = address(40);
    let blank = InvoiceLiquidityContract::get_reputation(&t.env, who);
    assert_eq!(
        blank,
        ReputationProfile {
            address: who,
            invoices_submitted: 0,
            invoices_paid: 0,
            invoices_defaulted: 0,
            score: 0,
        }
    );
    let profile = ReputationProfile { invoices_paid: 3, score: 9, ..blank };
    set_reputation(&mut t.env, &profile);
    assert_eq!(get_reputation(&t.env, &who), profile);
}

#[test]
fn the_instance_sequence_starts_at_one_and_ends() {
    let mut t = setup();
    assert_eq!(storage::next_invoice_id(&mut t.env), Ok(1));
    assert_eq!(storage::next_invoice_id(&mut t.env), Ok(2));
    storage::write_next_invoice_id(&mut t.env, u64::MAX);
    assert_eq!(storage::next_invoice_id(&mut t.env), Err(ContractError::ArithmeticOverflow));
    assert_eq!(storage::read_next_invoice_id(&t.env), u64::MAX);
}

#[test]
fn access_goes_by_the_invoice() {
    let mut t = setup();
    let id = submit_standard_invoice(&mut t);
    t.fund(t.funder, id, 7).unwrap();
    t.env.calls.clear();
    let (freelancer, funder, stranger) = (t.freelancer, t.funder, address(41));
    let env = &mut t.env;
    assert_eq!(require_submitter_by_id(env, &freelancer, id), Ok(()));
    assert_eq!(
        require_submitter_by_id(env, &stranger, id),
        Err(ContractError::Unauthorized)
    );
    assert_eq!(
        require_submitter_by_id(env, &stranger, 9),
        Err(ContractError::InvoiceNotFound)
    );
    assert_eq!(require_payer_by_id(env, id), Ok(()));
    assert_eq!(require_payer_by_id(env, 9), Err(ContractError::InvoiceNotFound));
    assert_eq!(require_lp_by_id(env, &funder, id), Ok(()));
    assert_eq!(require_lp_by_id(env, &stranger, id), Err(ContractError::Unauthorized));
    assert_eq!(require_lp_by_id(env, &funder, 9), Err(ContractError::InvoiceNotFound));
    assert_eq!(auths(&t.env), vec![freelancer, stranger, t.payer, funder, stranger]);
}

#[test]
fn plain_values_convert_as_they_are() {
    assert_eq!(discount_rate_as_i128(300), 300);
    assert_eq!(normalize_xlm_amount(10_000_000), 10_000_000);
    assert_eq!(normalize_usdc_amount(-5), -5);
    let stats = ContractStats::default();
    assert_eq!(stats.token_volumes, vec![]);
    assert_eq!(stats.total_volume_usd_normalized, 0);
    assert_eq!(
        PayerStats::default(),
        PayerStats { total_invoices: 0, paid_on_time: 0, defaults: 0, total_volume: 0 }
    );
}

#[test]
fn the_dollar_total_leaves_out_what_would_overflow() {
    let mut t = setup();
    InvoiceLiquidityContract::set_price_oracle(&mut t.env, contract_address(9)).unwrap();
    t.env.persistent.token_volumes.set(t.token, i128::MAX / 2);
    t.env.persistent.token_volumes.set(t.xlm, 12_345);
    // The product does not fit: the first token counts for nothing.
    t.env.oracle_prices.set(t.token, 20_000);
    t.env.oracle_prices.set(t.xlm, -10_000);
    let stats = InvoiceLiquidityContract::get_contract_stats(&t.env);
    assert_eq!(stats.total_volume_usd_normalized, -12_345);
}

#[test]
fn idle_scores_never_rise() {
    let mut t = setup();
    let payer = t.payer;
    set_payer_score(&mut t.env, &payer, 80);
    let mut last = 80;
    for _ in 0..40 {
        t.env.ledger.sequence += 3_700;
        let score = InvoiceLiquidityContract::payer_score(&t.env, payer);
        assert!(score <= last);
        last = score;
    }
    // Fourteen whole periods have passed, each of which costs a point.
    assert_eq!(last, 66);
}

#[test]
fn rounding_keeps_back_less_than_a_unit_per_funder() {
    let mut t = setup();
    let id = submit_standard_invoice(&mut t);
    let token = t.token;
    let lps = [t.funder, address(63), address(64)];
    for (lp, amount) in lps.iter().zip([333_333_333, 333_333_333, 333_333_334]) {
        t.mint(token, *lp, INVOICE_AMOUNT);
        t.fund(*lp, id, amount).unwrap();
    }
    InvoiceLiquidityContract::update_fee_rate(&mut t.env, 123).unwrap();
    let before = lps.map(|lp| t.balance(token, lp));
    let fees = t.balance(token, t.admin);
    t.pay(id, INVOICE_AMOUNT).unwrap();
    let shares: i128 = lps.iter().zip(before).map(|(lp, b)| t.balance(token, *lp) - b).sum();
    let left = INVOICE_AMOUNT - (t.balance(token, t.admin) - fees) - shares;
    assert_eq!(left, 1);
}

// ----------------------------------------------------------------
// Rows of calls
// ----------------------------------------------------------------

#[test]
fn a_batch_stores_what_single_submissions_store() {
    let mut batch = setup();
    let mut single = setup();
    let item = |t: &TestEnv, freelancer: Address, amount: i128| InvoiceParams {
        freelancer,
        payer: t.payer,
        amount,
        due_date: t.now() + DUE_DATE_OFFSET,
        discount_rate: DISCOUNT_RATE,
        token: t.token,
    };
    let items = vec![
        item(&batch, batch.freelancer, 1_000_000),
        item(&batch, address(61), 2_000_000),
        item(&batch, batch.freelancer, 3_000_000),
    ];
    let ids = InvoiceLiquidityContract::submit_invoices_batch(&mut batch.env, items.clone());
    assert_eq!(ids, Ok(vec![1, 2, 3]));
    for (i, p) in items.iter().enumerate() {
        let id = InvoiceLiquidityContract::submit_invoice(
            &mut single.env,
            p.freelancer,
            p.payer,
            p.amount,
            p.due_date,
            p.discount_rate,
            p.token,
        );
        assert_eq!(id, Ok(i as u64 + 1));
    }
    for id in 1..4 {
        assert_eq!(batch.invoice(id), single.invoice(id));
    }
    for who in [batch.freelancer, address(61)] {
        assert_eq!(
            batch.env.persistent.submitter_invoices.get(&who),
            single.env.persistent.submitter_invoices.get(&who)
        );
    }
    assert_eq!(batch.env.persistent.invoice_count, single.env.persistent.invoice_count);
    assert_eq!(batch.env.persistent.total_invoices, single.env.persistent.total_invoices);
}

#[test]
fn parts_settle_like_one_payment() {
    let settle = |parts: &[i128]| {
        let mut t = setup();
        InvoiceLiquidityContract::update_fee_rate(&mut t.env, 200).unwrap();
        let id = submit_standard_invoice(&mut t);
        let (funder, second, payer) = (t.funder, address(62), t.payer);
        let token = t.token;
        t.mint(token, second, INVOICE_AMOUNT);
        t.mint(token, payer, INVOICE_AMOUNT);
        t.fund(funder, id, 333_333_333).unwrap();
        t.fund(second, id, INVOICE_AMOUNT - 333_333_333).unwrap();
        for (i, part) in parts.iter().enumerate() {
            let before = (t.balance(token, t.admin), t.balance(token, funder));
            t.pay(id, *part).unwrap();
            if i + 1 < parts.len() {
                assert_eq!(t.invoice(id).status, InvoiceStatus::Funded);
                assert_eq!((t.balance(token, t.admin), t.balance(token, funder)), before);
            }
        }
        assert_eq!(t.invoice(id).status, InvoiceStatus::Paid);
        assert_eq!(InvoiceLiquidityContract::payer_score(&t.env, payer), 51);
        assert_eq!(t.env.persistent.total_paid, Some(1));
        [t.admin, funder, second, payer, t.env.contract].map(|who| t.balance(token, who))
    };
    let one = settle(&[INVOICE_AMOUNT]);
    assert_eq!(settle(&[1, 400_000_000, INVOICE_AMOUNT - 400_000_001]), one);
    assert_eq!(settle(&[INVOICE_AMOUNT / 2, INVOICE_AMOUNT / 2]), one);
}

#[test]
fn cancelling_undoes_every_contribution() {
    let mut t = setup();
    let id = submit_standard_invoice(&mut t);
    let token = t.token;
    let lps = [t.funder, address(63), address(64)];
    for lp in lps {
        t.mint(token, lp, INVOICE_AMOUNT);
    }
    let before = lps.map(|lp| t.balance(token, lp));
    let treasury = t.balance(token, t.env.contract);
    for (lp, amount) in lps.iter().zip([1, 333_333_333, 77]) {
        t.fund(*lp, id, amount).unwrap();
    }
    let partly = t.invoice(id);
    assert_eq!((partly.funder, partly.funded_at), (None, None));
    assert!(t.balance(token, t.env.contract) > treasury);
    InvoiceLiquidityContract::cancel_invoice(&mut t.env, id).unwrap();
    t.perform();
    assert_eq!(lps.map(|lp| t.balance(token, lp)), before);
    assert_eq!(t.balance(token, t.env.contract), treasury);
    assert_eq!(t.invoice(id), Invoice { status: InvoiceStatus::Cancelled, ..partly });
    assert_eq!(
        InvoiceLiquidityContract::cancel_invoice(&mut t.env, id),
        Err(ContractError::AlreadyCancelled)
    );
}

// ----------------------------------------------------------------
// Limits
// ----------------------------------------------------------------

#[test]
fn submissions_need_room_in_the_counters() {
    let mut t = setup();
    let p = InvoiceParams {
        freelancer: t.freelancer,
        payer: t.payer,
        amount: INVOICE_AMOUNT,
        due_date: t.now() + DUE_DATE_OFFSET,
        discount_rate: DISCOUNT_RATE,
        token: t.token,
    };
    assert!(limits::can_submit(&t.env, &p));
    assert!(limits::can_submit_batch(&t.env, &vec![p, p]));
    t.env.persistent.invoice_count = Some(u64::MAX - 1);
    assert!(limits::can_submit(&t.env, &p));
    assert!(!limits::can_submit_batch(&t.env, &vec![p, p]));
    t.env.persistent.total_invoices = Some(u64::MAX);
    assert!(!limits::can_submit(&t.env, &p));
    // A refused submission needs no room.
    assert!(limits::can_submit(&t.env, &InvoiceParams { amount: 0, ..p }));
    assert!(limits::can_submit_batch(&t.env, &vec![p; 11]));
}

#[test]
fn funding_needs_room_in_every_total() {
    let mut t = setup();
    let id = submit_standard_invoice(&mut t);
    let funder = t.funder;
    assert!(limits::can_fund(&t.env, &funder, id, INVOICE_AMOUNT));
    // Too much is refused, which needs no room; too much to add up cannot be asked.
    assert!(limits::can_fund(&t.env, &funder, id, i128::MAX));
    t.env.persistent.total_volume_usdc = Some(i128::MAX);
    assert!(!limits::can_fund(&t.env, &funder, id, 1));
    assert!(limits::can_fund(&t.env, &funder, id, 0));
    t.env.persistent.total_volume_usdc = None;
    t.env.persistent.total_funded = Some(u64::MAX);
    assert!(!limits::can_fund(&t.env, &funder, id, INVOICE_AMOUNT));
    assert!(limits::can_fund(&t.env, &funder, id, INVOICE_AMOUNT - 1));
    t.env.persistent.total_funded = None;
    t.fund(funder, id, 1).unwrap();
    assert!(!limits::can_fund(&t.env, &funder, id, i128::MAX));
}

#[test]
fn settlement_needs_someone_to_take_the_fee() {
    let mut t = setup();
    let id = submit_standard_invoice(&mut t);
    let funder = t.funder;
    t.fund(funder, id, INVOICE_AMOUNT).unwrap();
    assert!(limits::can_pay(&t.env, id, INVOICE_AMOUNT));
    t.env.instance.fee_rate = Some(100);
    t.env.instance.admin = None;
    assert!(!limits::can_pay(&t.env, id, INVOICE_AMOUNT));
    assert!(limits::can_pay(&t.env, id, INVOICE_AMOUNT - 1));
    t.env.instance.fee_rate = None;
    t.env.persistent.total_paid = Some(u64::MAX);
    assert!(!limits::can_pay(&t.env, id, INVOICE_AMOUNT));
}

#[test]
fn refunds_must_add_up() {
    let mut t = setup();
    let id = submit_standard_invoice(&mut t);
    let funder = t.funder;
    t.fund(funder, id, INVOICE_AMOUNT).unwrap();
    t.env.ledger.timestamp += DUE_DATE_OFFSET;
    assert!(limits::can_claim_default(&t.env, &funder, id));
    let huge = vec![(funder, i128::MAX), (address(77), i128::MAX)];
    storage::save_invoice_funders(&mut t.env, id, &huge);
    assert!(!limits::can_claim_default(&t.env, &funder, id));
    assert!(limits::can_claim_default(&t.env, &address(78), id));
}

#[test]
fn times_must_fit_the_records() {
    let mut t = setup();
    let id = default_one(&mut t);
    assert!(limits::can_appeal(&t.env, id));
    let mut late = t.invoice(id);
    late.due_date = u32::MAX;
    storage::save_invoice(&mut t.env, &late);
    t.env.ledger.timestamp = u32::MAX as u64 + 1;
    assert!(!limits::can_appeal(&t.env, id));
    assert!(limits::can_appeal(&t.env, id + 1));

    let mut t = setup();
    let id = submit_standard_invoice(&mut t);
    t.env.ledger.sequence = 1;
    InvoiceLiquidityContract::dispute_invoice(&mut t.env, id, hash(1)).unwrap();
    assert!(limits::can_auto_resolve(&t.env, id));
    let mut config = InvoiceLiquidityContract::get_config(&t.env).unwrap();
    config.dispute_timeout_ledgers = u64::MAX;
    storage::set_config(&mut t.env, &config);
    assert!(!limits::can_auto_resolve(&t.env, id));
    assert!(limits::can_auto_resolve(&t.env, id + 1));
}

#[test]
fn pages_must_be_within_reach() {
    let mut t = setup();
    submit_standard_invoice(&mut t);
    let freelancer = t.freelancer;
    assert!(limits::can_list_by_submitter(&t.env, &freelancer, 0, 50));
    assert!(limits::can_list_by_lp(&t.env, &freelancer, 0, 50));
    assert!(!limits::can_list_by_submitter(&t.env, &freelancer, u32::MAX, 50));
    assert!(!limits::can_list_by_lp(&t.env, &freelancer, u32::MAX, 50));
    t.env.persistent.submitter_invoices.set(freelancer, vec![1, 99]);
    assert!(limits::can_list_by_submitter(&t.env, &freelancer, 0, 1));
    assert!(!limits::can_list_by_submitter(&t.env, &freelancer, 1, 1));
}

#[test]
fn statistics_need_the_answers_of_the_oracle() {
    let mut t = setup();
    assert!(limits::can_read_stats(&t.env));
    InvoiceLiquidityContract::set_price_oracle(&mut t.env, contract_address(40)).unwrap();
    assert!(!limits::can_read_stats(&t.env));
    t.env.oracle_prices.set(t.token, 10_000);
    assert!(!limits::can_read_stats(&t.env));
    t.env.oracle_prices.set(t.xlm, 1_000);
    assert!(limits::can_read_stats(&t.env));
}
