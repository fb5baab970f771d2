use iln::host::Address;
use iln::reputation_bonus::config;
use iln::reputation_bonus::config::{Config, ConfigError};
use iln::reputation_bonus::env::HostCall;
use iln::reputation_bonus::events::{Event, ParamName, ParameterUpdated, ReputationUpdated};
use iln::reputation_bonus::invoice::InvoiceKey;
use iln::reputation_bonus::rate_logic::calculate_effective_rate;
use iln::reputation_bonus::{
    ContractError, Env, InvoiceStatus, ReputationBonusContract, ReputationScore,
};

fn address(n: u128) -> Address {
    Address { contract: false, hi: 0, lo: n }
}

fn events(env: &Env) -> Vec<Event> {
    env.calls
        .iter()
        .filter_map(|call| match call {
            HostCall::Publish(event) => Some(*event),
            _ => None,
        })
        .collect()
}

/// A contract with an admin and a configuration.
fn configured(config: Config) -> (Env, Address) {
    let admin = address(1);
    let mut env = Env::new();
    ReputationBonusContract::init(&mut env, admin);
    ReputationBonusContract::set_config(&mut env, config).unwrap();
    (env, admin)
}

#[test]
fn test_rate_calculation_bonus_applied() {
    let base_rate = 1000;
    let rep_score = 80;
    let threshold = 80;
    let bonus = 200;
    let min_rate = 100;

    let res = calculate_effective_rate(base_rate, rep_score, threshold, bonus, min_rate).unwrap();
    assert_eq!(res, 800);
}

#[test]
fn test_rate_calculation_no_bonus() {
    let base_rate = 1000;
    let rep_score = 79;
    let threshold = 80;
    let bonus = 200;
    let min_rate = 100;

    let res = calculate_effective_rate(base_rate, rep_score, threshold, bonus, min_rate).unwrap();
    assert_eq!(res, 1000);
}

#[test]
fn test_rate_calculation_floor_enforced() {
    let base_rate = 300;
    let rep_score = 90;
    let threshold = 80;
    let bonus = 250;
    let min_rate = 100;

    let res = calculate_effective_rate(base_rate, rep_score, threshold, bonus, min_rate).unwrap();
    assert_eq!(res, 100);
}

#[test]
fn test_exact_threshold_match() {
    let base_rate = 500;
    let rep_score = 50;
    let threshold = 50;
    let bonus = 100;
    let min_rate = 50;

    let res = calculate_effective_rate(base_rate, rep_score, threshold, bonus, min_rate).unwrap();
    assert_eq!(res, 400);
}

#[test]
fn test_zero_reputation() {
    let base_rate = 500;
    let rep_score = 0;
    let threshold = 50;
    let bonus = 100;
    let min_rate = 50;

    let res = calculate_effective_rate(base_rate, rep_score, threshold, bonus, min_rate).unwrap();
    assert_eq!(res, 500);
}

#[test]
fn test_maximum_bonus_application() {
    let base_rate = 600;
    let rep_score = 99;
    let threshold = 50;
    let bonus = 500;
    let min_rate = 50;

    let res = calculate_effective_rate(base_rate, rep_score, threshold, bonus, min_rate).unwrap();
    assert_eq!(res, 100);
}

#[test]
fn test_zero_base_rate() {
    let base_rate = 0;
    let rep_score = 90;
    let threshold = 50;
    let bonus = 200;
    let min_rate = 50;

    let res = calculate_effective_rate(base_rate, rep_score, threshold, bonus, min_rate).unwrap();
    assert_eq!(res, 50);
}

#[test]
fn test_governance_setters_and_access_control() {
    let admin = address(1);
    let non_admin = address(2);
    let mut env = Env::new();

    ReputationBonusContract::init(&mut env, admin);
    let initial_config =
        Config { high_rep_threshold: 80, bonus_bps: 200, min_discount_rate_bps: 100 };
    ReputationBonusContract::set_config(&mut env, initial_config).unwrap();

    let update_res = ReputationBonusContract::update_config(&mut env, non_admin, 90, 300, 150);
    assert!(update_res.is_err());

    env.calls.clear();
    let update_res_admin = ReputationBonusContract::update_config(&mut env, admin, 90, 300, 150);
    assert!(update_res_admin.is_ok());

    let expected = [
        (ParamName::HighRepThreshold, "high_rep_threshold", 80, 90),
        (ParamName::BonusBps, "bonus_bps", 200, 300),
        (ParamName::MinDiscountRateBps, "min_discount_rate_bps", 100, 150),
    ];
    let published = events(&env);
    assert_eq!(published.len(), expected.len());
    for (idx, (param_name, symbol, old_value, new_value)) in expected.iter().enumerate() {
        assert_eq!(
            published[idx],
            Event::ParameterUpdated(ParameterUpdated {
                param_name: *param_name,
                old_value: *old_value,
                new_value: *new_value,
                updated_by: admin,
            })
        );
        assert_eq!(param_name.symbol(), *symbol);
    }

    let config = ReputationBonusContract::get_config(&env).unwrap();
    assert_eq!(config.high_rep_threshold, 90);
    assert_eq!(config.bonus_bps, 300);
    assert_eq!(config.min_discount_rate_bps, 150);

    let invalid_bonus_res =
        ReputationBonusContract::update_config(&mut env, admin, 90, 501, 150);
    assert!(invalid_bonus_res.is_err());

    let invalid_min_rate_res = ReputationBonusContract::update_config(&mut env, admin, 90, 300, 0);
    assert!(invalid_min_rate_res.is_err());
}

#[test]
fn test_submit_invoice_flow() {
    let (mut env, _) =
        configured(Config { high_rep_threshold: 80, bonus_bps: 150, min_discount_rate_bps: 50 });
    let freelancer = address(3);
    let payer = address(4);

    // No reputation yet.
    let inv1 = ReputationBonusContract::submit_invoice(
        &mut env, freelancer, payer, 10_000, 1700000000, 400,
    )
    .unwrap();
    assert_eq!(inv1.base_discount_rate_bps, 400);
    assert_eq!(inv1.effective_discount_rate_bps, 400);

    // Paying brings the score to 100.
    ReputationBonusContract::mark_paid(&mut env, inv1.id).unwrap();

    let inv2 = ReputationBonusContract::submit_invoice(
        &mut env, freelancer, payer, 10_000, 1700000000, 400,
    )
    .unwrap();
    assert_eq!(inv2.base_discount_rate_bps, 400);
    assert_eq!(inv2.effective_discount_rate_bps, 250);
}

#[test]
fn test_reputation_lifecycle_flow() {
    let (mut env, _) =
        configured(Config { high_rep_threshold: 80, bonus_bps: 200, min_discount_rate_bps: 100 });
    let freelancer = address(3);
    let payer = address(4);

    let initial_rep = ReputationBonusContract::get_reputation(&env, freelancer);
    assert_eq!(initial_rep.score, 0);
    assert_eq!(initial_rep.invoices_submitted, 0);

    let inv = ReputationBonusContract::submit_invoice(
        &mut env, freelancer, payer, 1000, 1800000000, 500,
    )
    .unwrap();
    let rep_f1 = ReputationBonusContract::get_reputation(&env, freelancer);
    let rep_p1 = ReputationBonusContract::get_reputation(&env, payer);
    assert_eq!(rep_f1.invoices_submitted, 1);
    assert_eq!(rep_p1.invoices_submitted, 1);
    assert_eq!(rep_f1.score, 0);

    ReputationBonusContract::mark_paid(&mut env, inv.id).unwrap();
    let rep_f2 = ReputationBonusContract::get_reputation(&env, freelancer);
    let rep_p2 = ReputationBonusContract::get_reputation(&env, payer);
    assert_eq!(rep_f2.invoices_paid, 1);
    assert_eq!(rep_p2.invoices_paid, 1);
    assert_eq!(rep_f2.score, 100);
    assert_eq!(rep_p2.score, 100);

    let inv2 = ReputationBonusContract::submit_invoice(
        &mut env, freelancer, payer, 1000, 1800000000, 500,
    )
    .unwrap();
    ReputationBonusContract::handle_default(&mut env, inv2.id).unwrap();
    let rep_f3 = ReputationBonusContract::get_reputation(&env, freelancer);
    let rep_p3 = ReputationBonusContract::get_reputation(&env, payer);
    assert_eq!(rep_f3.invoices_defaulted, 1);
    assert_eq!(rep_p3.invoices_defaulted, 1);
    assert_eq!(rep_f3.invoices_submitted, 2);
    assert_eq!(rep_f3.score, 50);
}

#[test]
fn test_reputation_bonus_integration() {
    let (mut env, _) =
        configured(Config { high_rep_threshold: 80, bonus_bps: 200, min_discount_rate_bps: 100 });
    let freelancer = address(3);
    let payer = address(4);

    let inv1 = ReputationBonusContract::submit_invoice(
        &mut env, freelancer, payer, 1000, 1800000000, 500,
    )
    .unwrap();
    assert_eq!(inv1.effective_discount_rate_bps, 500);

    ReputationBonusContract::mark_paid(&mut env, inv1.id).unwrap();
    assert_eq!(ReputationBonusContract::get_reputation(&env, freelancer).score, 100);

    let inv2 = ReputationBonusContract::submit_invoice(
        &mut env, freelancer, payer, 1000, 1800000000, 500,
    )
    .unwrap();
    assert_eq!(inv2.effective_discount_rate_bps, 300);
}

#[test]
fn bonus_score_is_the_paid_share() {
    let mut record = ReputationScore::new();
    assert_eq!(record.score, 0);
    record.invoices_submitted = 3;
    record.invoices_paid = 2;
    record.recalculate_score();
    assert_eq!(record.score, 66);
    record.invoices_paid = 3;
    record.recalculate_score();
    assert_eq!(record.score, 100);
    // More paid than submitted is still capped.
    record.invoices_paid = 9;
    record.recalculate_score();
    assert_eq!(record.score, 100);
    // Nothing submitted counts as one.
    record.invoices_submitted = 0;
    record.invoices_paid = 0;
    record.recalculate_score();
    assert_eq!(record.score, 0);
    // The percentage passes through 32 bits before the cap.
    record.invoices_submitted = 1;
    record.invoices_paid = 42_949_673;
    record.recalculate_score();
    assert_eq!(record.score, 4);
}

#[test]
fn bonus_refusals() {
    let mut env = Env::new();
    let admin = address(1);
    let config = Config { high_rep_threshold: 80, bonus_bps: 200, min_discount_rate_bps: 100 };
    assert_eq!(
        ReputationBonusContract::set_config(&mut env, config),
        Err(ContractError::ConfigErrorUnauthorized)
    );
    assert_eq!(
        ReputationBonusContract::get_config(&env),
        Err(ContractError::ConfigErrorUnauthorized)
    );
    assert_eq!(
        ReputationBonusContract::submit_invoice(&mut env, address(2), address(3), 1, 1, 1),
        Err(ContractError::ConfigErrorUnauthorized)
    );
    assert_eq!(
        ReputationBonusContract::mark_paid(&mut env, 1),
        Err(ContractError::InvoiceNotFound)
    );
    assert_eq!(
        ReputationBonusContract::handle_default(&mut env, 1),
        Err(ContractError::InvoiceNotFound)
    );

    ReputationBonusContract::init(&mut env, admin);
    ReputationBonusContract::set_config(&mut env, config).unwrap();
    assert_eq!(
        config::update_config(&mut env, &address(9), 1, 1, 1),
        Err(ConfigError::Unauthorized)
    );
    assert_eq!(
        config::update_config(&mut env, &admin, 1, 501, 1),
        Err(ConfigError::InvalidBonusBps)
    );
    assert_eq!(
        config::update_config(&mut env, &admin, 1, 500, 0),
        Err(ConfigError::InvalidMinDiscountRate)
    );
    assert_eq!(config::update_config(&mut env, &admin, 1, 500, 1), Ok(()));

    env.invoice_count = Some(u64::MAX);
    assert_eq!(
        ReputationBonusContract::submit_invoice(&mut env, address(2), address(3), 1, 1, 1),
        Err(ContractError::ArithmeticError)
    );
}

#[test]
fn bonus_invoice_ends_once() {
    let (mut env, _) =
        configured(Config { high_rep_threshold: 80, bonus_bps: 200, min_discount_rate_bps: 100 });
    let inv = ReputationBonusContract::submit_invoice(
        &mut env, address(3), address(4), 1000, 1800000000, 500,
    )
    .unwrap();
    assert_eq!(inv.id, 1);
    assert_eq!(inv.status, InvoiceStatus::Pending);
    env.calls.clear();
    ReputationBonusContract::mark_paid(&mut env, 1).unwrap();
    assert_eq!(
        env.invoices.get(&InvoiceKey::Invoice(1)).unwrap().status,
        InvoiceStatus::Paid
    );
    // The payer authorises, and both records are announced, the payer's first.
    assert_eq!(env.calls[0], HostCall::RequireAuth(address(4)));
    let record = |who: u128| {
        Event::ReputationUpdated(ReputationUpdated {
            address: address(who),
            invoices_submitted: 1,
            invoices_paid: 1,
            invoices_defaulted: 0,
            score: 100,
        })
    };
    assert_eq!(events(&env), vec![record(4), record(3)]);

    assert_eq!(ReputationBonusContract::mark_paid(&mut env, 1), Err(ContractError::IllegalState));
    assert_eq!(
        ReputationBonusContract::handle_default(&mut env, 1),
        Err(ContractError::IllegalState)
    );
}

#[test]
fn bonus_one_party_on_both_sides_is_counted_twice() {
    let (mut env, _) =
        configured(Config { high_rep_threshold: 80, bonus_bps: 200, min_discount_rate_bps: 100 });
    let both = address(7);
    let inv =
        ReputationBonusContract::submit_invoice(&mut env, both, both, 1000, 1800000000, 500)
            .unwrap();
    assert_eq!(ReputationBonusContract::get_reputation(&env, both).invoices_submitted, 2);
    ReputationBonusContract::mark_paid(&mut env, inv.id).unwrap();
    let record = ReputationBonusContract::get_reputation(&env, both);
    assert_eq!(record.invoices_paid, 2);
    assert_eq!(record.score, 100);
}
