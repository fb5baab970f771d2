//! Set-up, parameters, scores and views, said of the operations themselves: what each
//! answers to which request, and what it leaves behind.

use crate::host::{Address, Hash32};
use crate::invoice_liquidity::access::{
    require_admin, require_governance, require_lp, require_lp_by_id, require_payer_by_id,
    require_submitter, require_submitter_by_id,
};
use crate::invoice_liquidity::config;
use crate::invoice_liquidity::config::{Config, ConfigError};
use crate::invoice_liquidity::contract::InvoiceLiquidityContract;
use crate::invoice_liquidity::env::{Env, EnvView, HostCall, Instance, PersistentView};
use crate::invoice_liquidity::errors::ContractError;
use crate::invoice_liquidity::events::{
    AdminChanged, ContractPaused, ContractUnpaused, ContractUpgraded, Event, ParamName,
    ParameterUpdated, TokenAdded, TokenRemoved,
};
use crate::list::{law_without_keeps_the_order, other_than};
use vstd::prelude::*;

verus! {

// ----------------------------------------------------------------
// Administration
// ----------------------------------------------------------------

/// Setting the contract up takes effect while there is no invoice counter with the
/// instance. It gives the contract its admin, two approved tokens in that order, no fee, a
/// discount cap of one half and the initial parameters.
pub proof fn law_initialize(
    env: &mut Env,
    admin: Address,
    token: Address,
    xlm_token: Address,
    r: Result<(), ContractError>,
)
    requires
        call_ensures(InvoiceLiquidityContract::initialize, (env, admin, token, xlm_token), r),
    ensures
        ({
            let s = old(env)@;
            if s.instance.invoice_count is Some {
                r == Err::<(), ContractError>(ContractError::AlreadyInitialized) && final(env)@ == s
            } else {
                &&& r == Ok::<(), ContractError>(())
                &&& final(env)@ == (EnvView {
                    instance: Instance {
                        admin: Some(admin),
                        fee_rate: Some(0),
                        max_discount_rate: Some(5000),
                        config: Some(
                            Config {
                                high_rep_threshold: 70,
                                bonus_bps: 100,
                                min_discount_rate_bps: 100,
                                decay_rate_bps: 50,
                                decay_period_ledgers: 10_000,
                                dispute_timeout_ledgers: 10_000,
                                xlm_sac_address: xlm_token,
                                price_oracle: None,
                            },
                        ),
                        ..s.instance
                    },
                    persistent: PersistentView {
                        approved_tokens: s.persistent.approved_tokens.insert(token, true).insert(
                            xlm_token,
                            true,
                        ),
                        token_list: Some(seq![token, xlm_token]),
                        ..s.persistent
                    },
                    ..s
                })
            }
        }),
{
}

/// A change of one entry of the instance that only the admin can make: the admin is
/// asked, the entry changes, and the change is announced, where it is. Without an admin
/// nobody can.
pub open spec fn changed_by_admin(
    s: EnvView,
    t: EnvView,
    r: Result<(), ContractError>,
    instance: Instance,
    announced: Seq<HostCall>,
) -> bool {
    match s.instance.admin {
        None => r == Err::<(), ContractError>(ContractError::Unauthorized) && t == s,
        Some(admin) => {
            &&& r == Ok::<(), ContractError>(())
            &&& t =~= (EnvView {
                instance,
                calls: s.calls + (seq![HostCall::RequireAuth(admin)] + announced),
                ..s
            })
        },
    }
}

/// The admin can hand over to another.
pub proof fn law_set_admin(env: &mut Env, new_admin: Address, r: Result<(), ContractError>)
    requires
        call_ensures(InvoiceLiquidityContract::set_admin, (env, new_admin), r),
    ensures
        changed_by_admin(
            old(env)@,
            final(env)@,
            r,
            (Instance { admin: Some(new_admin), ..old(env)@.instance }),
            seq![
                HostCall::Publish(
                    Event::AdminChanged(
                        AdminChanged {
                            old_admin: old(env)@.instance.admin->0,
                            new_admin,
                            timestamp: old(env)@.ledger.timestamp,
                        },
                    ),
                ),
            ],
        ),
{
}

/// The admin sets the fee; the old rate, or none, and the new one are announced.
pub proof fn law_update_fee_rate(env: &mut Env, rate: u32, r: Result<(), ContractError>)
    requires
        call_ensures(InvoiceLiquidityContract::update_fee_rate, (env, rate), r),
    ensures
        changed_by_admin(
            old(env)@,
            final(env)@,
            r,
            (Instance { fee_rate: Some(rate), ..old(env)@.instance }),
            seq![
                HostCall::Publish(
                    Event::ParameterUpdated(
                        ParameterUpdated {
                            param_name: ParamName::ProtocolFeeRateBps,
                            old_value: match old(env)@.instance.fee_rate {
                                Some(before) => before as i128,
                                None => 0,
                            },
                            new_value: rate as i128,
                            updated_by: old(env)@.instance.admin->0,
                        },
                    ),
                ),
            ],
        ),
{
}

/// The admin sets the discount cap; the old cap, or none, and the new one are announced.
pub proof fn law_update_max_discount(env: &mut Env, rate: u32, r: Result<(), ContractError>)
    requires
        call_ensures(InvoiceLiquidityContract::update_max_discount, (env, rate), r),
    ensures
        changed_by_admin(
            old(env)@,
            final(env)@,
            r,
            (Instance { max_discount_rate: Some(rate), ..old(env)@.instance }),
            seq![
                HostCall::Publish(
                    Event::ParameterUpdated(
                        ParameterUpdated {
                            param_name: ParamName::MaxDiscountRateBps,
                            old_value: match old(env)@.instance.max_discount_rate {
                                Some(before) => before as i128,
                                None => 0,
                            },
                            new_value: rate as i128,
                            updated_by: old(env)@.instance.admin->0,
                        },
                    ),
                ),
            ],
        ),
{
}

/// The admin sets the lowest payer score at which an invoice can be funded; the old one,
/// or none, and the new one are announced.
pub proof fn law_set_min_payer_reputation(env: &mut Env, value: u32, r: Result<(), ContractError>)
    requires
        call_ensures(InvoiceLiquidityContract::set_min_payer_reputation, (env, value), r),
    ensures
        changed_by_admin(
            old(env)@,
            final(env)@,
            r,
            (Instance { min_payer_reputation: Some(value), ..old(env)@.instance }),
            seq![
                HostCall::Publish(
                    Event::ParameterUpdated(
                        ParameterUpdated {
                            param_name: ParamName::MinPayerReputation,
                            old_value: match old(env)@.instance.min_payer_reputation {
                                Some(before) => before as i128,
                                None => 0,
                            },
                            new_value: value as i128,
                            updated_by: old(env)@.instance.admin->0,
                        },
                    ),
                ),
            ],
        ),
{
}

/// The admin names the contract that is told of funding and settlement.
pub proof fn law_set_distribution_contract(
    env: &mut Env,
    contract: Address,
    r: Result<(), ContractError>,
)
    requires
        call_ensures(InvoiceLiquidityContract::set_distribution_contract, (env, contract), r),
    ensures
        changed_by_admin(
            old(env)@,
            final(env)@,
            r,
            (Instance { distribution_contract: Some(contract), ..old(env)@.instance }),
            Seq::empty(),
        ),
{
}

/// The admin pauses the contract, and ends a pause.
pub proof fn law_pause_and_unpause(
    stop: &mut Env,
    go: &mut Env,
    stopped: Result<(), ContractError>,
    gone: Result<(), ContractError>,
)
    requires
        call_ensures(InvoiceLiquidityContract::pause, (stop,), stopped),
        call_ensures(InvoiceLiquidityContract::unpause, (go,), gone),
    ensures
        changed_by_admin(
            old(stop)@,
            final(stop)@,
            stopped,
            (Instance { paused: Some(true), ..old(stop)@.instance }),
            seq![
                HostCall::Publish(
                    Event::ContractPaused(
                        ContractPaused { timestamp: old(stop)@.ledger.timestamp },
                    ),
                ),
            ],
        ),
        changed_by_admin(
            old(go)@,
            final(go)@,
            gone,
            (Instance { paused: Some(false), ..old(go)@.instance }),
            seq![
                HostCall::Publish(
                    Event::ContractUnpaused(
                        ContractUnpaused { timestamp: old(go)@.ledger.timestamp },
                    ),
                ),
            ],
        ),
{
}

/// The admin announces new code; storage stays as it is.
pub proof fn law_upgrade(env: &mut Env, new_wasm_hash: Hash32, r: Result<(), ContractError>)
    requires
        call_ensures(InvoiceLiquidityContract::upgrade, (env, new_wasm_hash), r),
    ensures
        changed_by_admin(
            old(env)@,
            final(env)@,
            r,
            old(env)@.instance,
            seq![
                HostCall::Publish(
                    Event::ContractUpgraded(
                        ContractUpgraded {
                            admin: old(env)@.instance.admin->0,
                            new_wasm_hash,
                            timestamp: old(env)@.ledger.timestamp,
                        },
                    ),
                ),
            ],
        ),
{
}

/// The admin names the price oracle, in a contract that was set up. Nothing else of the
/// parameters changes, and the oracle that was named is the one that is read.
pub proof fn law_set_price_oracle(
    env: &mut Env,
    oracle: Address,
    r: Result<(), ContractError>,
    after: &Env,
    named: Option<Address>,
)
    requires
        call_ensures(InvoiceLiquidityContract::set_price_oracle, (env, oracle), r),
        call_ensures(InvoiceLiquidityContract::get_price_oracle, (after,), named),
        after@ == final(env)@,
    ensures
        ({
            let s = old(env)@;
            let asked = |n: nat|
                Seq::new(n, |i: int| HostCall::RequireAuth(s.instance.admin->0));
            if s.instance.admin is None {
                r == Err::<(), ContractError>(ContractError::Unauthorized) && final(env)@ == s
            } else if s.instance.config is None {
                &&& r == Err::<(), ContractError>(ContractError::Unauthorized)
                &&& final(env)@ == (EnvView { calls: s.calls + asked(1), ..s })
            } else {
                &&& r == Ok::<(), ContractError>(())
                &&& final(env)@ == (EnvView {
                    instance: Instance {
                        config: Some(
                            Config { price_oracle: Some(oracle), ..s.instance.config->0 },
                        ),
                        ..s.instance
                    },
                    calls: s.calls + asked(2),
                    ..s
                })
                &&& named == Some(oracle)
            }
        }),
        named == (match after@.instance.config {
            Some(config) => config.price_oracle,
            None => None,
        }),
{
}

/// The admin puts a token on the allowlist: it is approved, and last on the list, where it
/// was not on it.
pub proof fn law_add_token(env: &mut Env, token: Address, r: Result<(), ContractError>)
    requires
        call_ensures(InvoiceLiquidityContract::add_token, (env, token), r),
    ensures
        ({
            let s = old(env)@;
            match s.instance.admin {
                None => r == Err::<(), ContractError>(ContractError::Unauthorized) && final(env)@
                    == s,
                Some(admin) => {
                    &&& r == Ok::<(), ContractError>(())
                    &&& final(env)@ == (EnvView {
                        persistent: PersistentView {
                            approved_tokens: s.persistent.approved_tokens.insert(token, true),
                            token_list: if s.token_list().contains(token) {
                                s.persistent.token_list
                            } else {
                                Some(s.token_list().push(token))
                            },
                            ..s.persistent
                        },
                        calls: s.calls + seq![
                            HostCall::RequireAuth(admin),
                            HostCall::Publish(Event::TokenAdded(TokenAdded { token })),
                        ],
                        ..s
                    })
                },
            }
        }),
{
}

/// The admin takes a token off the allowlist: it is no longer approved, and the list is
/// without it and otherwise in the same order.
pub proof fn law_remove_token(env: &mut Env, token: Address, r: Result<(), ContractError>)
    requires
        call_ensures(InvoiceLiquidityContract::remove_token, (env, token), r),
    ensures
        ({
            let s = old(env)@;
            match s.instance.admin {
                None => r == Err::<(), ContractError>(ContractError::Unauthorized) && final(env)@
                    == s,
                Some(admin) => {
                    &&& r == Ok::<(), ContractError>(())
                    &&& final(env)@ == (EnvView {
                        persistent: PersistentView {
                            approved_tokens: s.persistent.approved_tokens.insert(token, false),
                            token_list: Some(s.token_list().filter(other_than(token))),
                            ..s.persistent
                        },
                        calls: s.calls + seq![
                            HostCall::RequireAuth(admin),
                            HostCall::Publish(Event::TokenRemoved(TokenRemoved { token })),
                        ],
                        ..s
                    })
                },
            }
        }),
{
    law_without_keeps_the_order(old(env)@.token_list(), token);
}

/// What replacing the parameters leaves behind: the new ones, with the oracle as it was,
/// and an announcement of every number, old and new, in this order.
pub open spec fn parameters_replaced(s: EnvView, caller: Address, new: Config) -> EnvView {
    let before = s.instance.config->0;
    let announced = |param_name: ParamName, old_value: int, new_value: int|
        HostCall::Publish(
            Event::ParameterUpdated(
                ParameterUpdated {
                    param_name,
                    old_value: old_value as i128,
                    new_value: new_value as i128,
                    updated_by: caller,
                },
            ),
        );
    EnvView {
        instance: Instance { config: Some(new), ..s.instance },
        calls: s.calls + seq![
            HostCall::RequireAuth(caller),
            announced(
                ParamName::HighRepThreshold,
                before.high_rep_threshold as int,
                new.high_rep_threshold as int,
            ),
            announced(ParamName::BonusBps, before.bonus_bps as int, new.bonus_bps as int),
            announced(
                ParamName::MinDiscountRateBps,
                before.min_discount_rate_bps as int,
                new.min_discount_rate_bps as int,
            ),
            announced(
                ParamName::DecayRateBps,
                before.decay_rate_bps as int,
                new.decay_rate_bps as int,
            ),
            announced(
                ParamName::DecayPeriodLedgers,
                before.decay_period_ledgers as int,
                new.decay_period_ledgers as int,
            ),
            announced(
                ParamName::DisputeTimeoutLedgers,
                before.dispute_timeout_ledgers as int,
                new.dispute_timeout_ledgers as int,
            ),
        ],
        ..s
    }
}

/// The admin replaces the parameters: a bonus of at most five percent, and a floor for
/// the discount that is not zero. Every refusal is answered as a want of authority.
pub proof fn law_update_config(
    env: &mut Env,
    caller: Address,
    high_rep_threshold: u32,
    bonus_bps: u32,
    min_discount_rate_bps: u32,
    decay_rate_bps: u32,
    decay_period_ledgers: u64,
    dispute_timeout_ledgers: u64,
    xlm_sac_address: Address,
    r: Result<(), ContractError>,
)
    requires
        call_ensures(
            InvoiceLiquidityContract::update_config,
            (
                env,
                caller,
                high_rep_threshold,
                bonus_bps,
                min_discount_rate_bps,
                decay_rate_bps,
                decay_period_ledgers,
                dispute_timeout_ledgers,
                xlm_sac_address,
            ),
            r,
        ),
    ensures
        ({
            let s = old(env)@;
            if s.instance.admin != Some(caller) || s.instance.config is None || bonus_bps > 500
                || min_discount_rate_bps == 0 {
                &&& r == Err::<(), ContractError>(ContractError::Unauthorized)
                &&& final(env)@ == (if s.instance.admin is None || s.instance.config is None {
                    s
                } else {
                    EnvView { calls: s.calls.push(HostCall::RequireAuth(caller)), ..s }
                })
            } else {
                &&& r == Ok::<(), ContractError>(())
                &&& final(env)@ == parameters_replaced(
                    s,
                    caller,
                    Config {
                        high_rep_threshold,
                        bonus_bps,
                        min_discount_rate_bps,
                        decay_rate_bps,
                        decay_period_ledgers,
                        dispute_timeout_ledgers,
                        xlm_sac_address,
                        price_oracle: s.instance.config->0.price_oracle,
                    },
                )
            }
        }),
{
}

/// The same below the entry point, where each refusal has a name of its own.
pub proof fn law_parameters_are_checked(
    env: &mut Env,
    caller: &Address,
    high_rep_threshold: u32,
    bonus_bps: u32,
    min_discount_rate_bps: u32,
    decay_rate_bps: u32,
    decay_period_ledgers: u64,
    dispute_timeout_ledgers: u64,
    xlm_sac_address: Address,
    r: Result<(), ConfigError>,
)
    requires
        call_ensures(
            config::update_config,
            (
                env,
                caller,
                high_rep_threshold,
                bonus_bps,
                min_discount_rate_bps,
                decay_rate_bps,
                decay_period_ledgers,
                dispute_timeout_ledgers,
                xlm_sac_address,
            ),
            r,
        ),
    ensures
        ({
            let s = old(env)@;
            &&& r == (if s.instance.admin != Some(*caller) || s.instance.config is None {
                Err::<(), ConfigError>(ConfigError::Unauthorized)
            } else if bonus_bps > 500 {
                Err(ConfigError::InvalidBonusBps)
            } else if min_discount_rate_bps == 0 {
                Err(ConfigError::InvalidMinDiscountRate)
            } else {
                Ok(())
            })
            &&& final(env)@ == (if r is Ok {
                parameters_replaced(
                    s,
                    *caller,
                    Config {
                        high_rep_threshold,
                        bonus_bps,
                        min_discount_rate_bps,
                        decay_rate_bps,
                        decay_period_ledgers,
                        dispute_timeout_ledgers,
                        xlm_sac_address,
                        price_oracle: s.instance.config->0.price_oracle,
                    },
                )
            } else if s.instance.admin is None || s.instance.config is None {
                s
            } else {
                EnvView { calls: s.calls.push(HostCall::RequireAuth(*caller)), ..s }
            })
        }),
{
}

// ----------------------------------------------------------------
// Access
// ----------------------------------------------------------------

/// Who is asked, and who is turned away: the admin, where there is one; whoever calls as a
/// freelancer, for an invoice of their own; the payer of an invoice; whoever calls as a
/// provider, for an invoice that they have funded. Governance is not set up.
pub proof fn law_access_is_checked(
    a: &mut Env,
    b: &mut Env,
    c: &mut Env,
    d: &mut Env,
    caller: &Address,
    id: u64,
    admin: Result<(), ContractError>,
    freelancer: Result<(), ContractError>,
    payer: Result<(), ContractError>,
    provider: Result<(), ContractError>,
)
    requires
        call_ensures(require_admin, (a,), admin),
        call_ensures(require_submitter_by_id, (b, caller, id), freelancer),
        call_ensures(require_payer_by_id, (c, id), payer),
        call_ensures(require_lp_by_id, (d, caller, id), provider),
    ensures
        admin is Ok <==> old(a)@.instance.admin is Some,
        admin is Ok ==> final(a)@ == (EnvView {
            calls: old(a)@.calls.push(HostCall::RequireAuth(old(a)@.instance.admin->0)),
            ..old(a)@
        }),
        admin is Err ==> admin == Err::<(), ContractError>(ContractError::Unauthorized) && final(a)@
            == old(a)@,
        ({
            let (s, t) = (old(b)@, final(b)@);
            if s.persistent.invoices.contains_key(id) {
                &&& t == (EnvView { calls: s.calls.push(HostCall::RequireAuth(*caller)), ..s })
                &&& freelancer == (if s.persistent.invoices[id].freelancer == *caller {
                    Ok::<(), ContractError>(())
                } else {
                    Err(ContractError::Unauthorized)
                })
            } else {
                freelancer == Err::<(), ContractError>(ContractError::InvoiceNotFound) && t == s
            }
        }),
        ({
            let (s, t) = (old(c)@, final(c)@);
            if s.persistent.invoices.contains_key(id) {
                &&& payer == Ok::<(), ContractError>(())
                &&& t == (EnvView {
                    calls: s.calls.push(HostCall::RequireAuth(s.persistent.invoices[id].payer)),
                    ..s
                })
            } else {
                payer == Err::<(), ContractError>(ContractError::InvoiceNotFound) && t == s
            }
        }),
        ({
            let (s, t) = (old(d)@, final(d)@);
            let list = s.funders(id);
            if s.persistent.invoices.contains_key(id) {
                &&& t == (EnvView { calls: s.calls.push(HostCall::RequireAuth(*caller)), ..s })
                &&& provider == (if exists|i: int|
                    0 <= i < list.len() && (#[trigger] list[i]).0 == *caller {
                    Ok::<(), ContractError>(())
                } else {
                    Err(ContractError::Unauthorized)
                })
            } else {
                provider == Err::<(), ContractError>(ContractError::InvoiceNotFound) && t == s
            }
        }),
{
}

/// Whoever calls as a freelancer or as a provider, with no invoice in question, is asked
/// and let in. Nobody is let in as governance.
pub proof fn law_callers_are_asked(
    a: &mut Env,
    b: &mut Env,
    c: &Env,
    caller: &Address,
    freelancer: Result<(), ContractError>,
    provider: Result<(), ContractError>,
    governance: Result<(), ContractError>,
)
    requires
        call_ensures(require_submitter, (a, caller), freelancer),
        call_ensures(require_lp, (b, caller), provider),
        call_ensures(require_governance, (c,), governance),
    ensures
        freelancer is Ok,
        provider is Ok,
        governance == Err::<(), ContractError>(ContractError::Unauthorized),
        final(a)@ == (EnvView {
            calls: old(a)@.calls.push(HostCall::RequireAuth(*caller)),
            ..old(a)@
        }),
        final(b)@ == (EnvView {
            calls: old(b)@.calls.push(HostCall::RequireAuth(*caller)),
            ..old(b)@
        }),
{
}

} // verus!
