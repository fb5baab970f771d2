//! Parameters of the protocol.

use crate::host::Address;
use crate::invoice_liquidity::env::{Env, EnvView, Instance};
use crate::invoice_liquidity::events::{Event, ParamName, ParameterUpdated};
use crate::invoice_liquidity::storage::{get_admin, get_config, set_config};
use vstd::prelude::*;

verus! {

#[derive(Clone, Copy, Debug, PartialEq)]
pub struct Config {
    pub high_rep_threshold: u32,
    pub bonus_bps: u32,
    pub min_discount_rate_bps: u32,
    /// Basis points to decay per period (50 = 0.5%).
    pub decay_rate_bps: u32,
    /// Ledgers between two applications of the decay.
    pub decay_period_ledgers: u64,
    /// Ledgers after which a dispute can be resolved by anyone.
    pub dispute_timeout_ledgers: u64,
    /// Contract that wraps the native asset, XLM.
    pub xlm_sac_address: Address,
    /// Price oracle for amounts in dollars, if there is one.
    pub price_oracle: Option<Address>,
}

#[derive(Clone, Copy, Debug, PartialEq, Eq, Structural)]
pub enum ConfigError {
    Unauthorized,
    InvalidBonusBps,
    InvalidMinDiscountRate,
}

/// The largest bonus that an update may set.
pub const MAX_BONUS_BPS: u32 = 500;

/// Why an update of the parameters is refused, if it is.
pub open spec fn config_refusal(
    s: EnvView,
    caller: Address,
    bonus_bps: u32,
    min_discount_rate_bps: u32,
) -> Option<ConfigError> {
    if s.instance.config is None || s.instance.admin != Some(caller) {
        Some(ConfigError::Unauthorized)
    } else if bonus_bps > MAX_BONUS_BPS {
        Some(ConfigError::InvalidBonusBps)
    } else if min_discount_rate_bps == 0 {
        Some(ConfigError::InvalidMinDiscountRate)
    } else {
        None
    }
}

/// The invocation after a call was refused by [`update_config`] or
/// [`set_price_oracle`]: the caller is asked to authorise only where there is a
/// contract to configure.
pub open spec fn config_refused(s: EnvView, caller: Address) -> EnvView {
    if s.instance.admin is None || s.instance.config is None {
        s
    } else {
        s.authorized(caller)
    }
}

/// The event that announces a change of one parameter.
pub open spec fn parameter_event(name: ParamName, old_value: int, new_value: int, by: Address)
    -> Event {
    Event::ParameterUpdated(
        ParameterUpdated {
            param_name: name,
            old_value: old_value as i128,
            new_value: new_value as i128,
            updated_by: by,
        },
    )
}

/// The invocation after the parameters were replaced and each number among them
/// was announced.
pub open spec fn config_updated(s: EnvView, caller: Address, config: Config) -> EnvView {
    let before = s.instance.config->0;
    s.authorized(caller).with_instance(
        Instance { config: Some(config), ..s.instance },
    ).published(
        parameter_event(
            ParamName::HighRepThreshold,
            before.high_rep_threshold as int,
            config.high_rep_threshold as int,
            caller,
        ),
    ).published(
        parameter_event(
            ParamName::BonusBps,
            before.bonus_bps as int,
            config.bonus_bps as int,
            caller,
        ),
    ).published(
        parameter_event(
            ParamName::MinDiscountRateBps,
            before.min_discount_rate_bps as int,
            config.min_discount_rate_bps as int,
            caller,
        ),
    ).published(
        parameter_event(
            ParamName::DecayRateBps,
            before.decay_rate_bps as int,
            config.decay_rate_bps as int,
            caller,
        ),
    ).published(
        parameter_event(
            ParamName::DecayPeriodLedgers,
            before.decay_period_ledgers as int,
            config.decay_period_ledgers as int,
            caller,
        ),
    ).published(
        parameter_event(
            ParamName::DisputeTimeoutLedgers,
            before.dispute_timeout_ledgers as int,
            config.dispute_timeout_ledgers as int,
            caller,
        ),
    )
}

/// Replaces the parameters, within their bounds, on the authority of the admin,
/// and announces each number. The oracle stays.
pub fn update_config(
    env: &mut Env,
    caller: &Address,
    high_rep_threshold: u32,
    bonus_bps: u32,
    min_discount_rate_bps: u32,
    decay_rate_bps: u32,
    decay_period_ledgers: u64,
    dispute_timeout_ledgers: u64,
    xlm_sac_address: Address,
) -> (r: Result<(), ConfigError>)
    ensures
        match config_refusal(old(env)@, *caller, bonus_bps, min_discount_rate_bps) {
            Some(e) => r == Err::<(), ConfigError>(e) && final(env)@ == config_refused(
                old(env)@,
                *caller,
            ),
            None => r == Ok::<(), ConfigError>(()) && final(env)@ == config_updated(
                old(env)@,
                *caller,
                Config {
                    high_rep_threshold,
                    bonus_bps,
                    min_discount_rate_bps,
                    decay_rate_bps,
                    decay_period_ledgers,
                    dispute_timeout_ledgers,
                    xlm_sac_address,
                    price_oracle: old(env)@.instance.config->0.price_oracle,
                },
            ),
        },
{
    let admin: Address = match get_admin(env) {
        Some(admin) => admin,
        None => return Err(ConfigError::Unauthorized),
    };
    let old_config: Config = match get_config(env) {
        Some(config) => config,
        None => return Err(ConfigError::Unauthorized),
    };
    env.require_auth(*caller);
    if *caller != admin {
        return Err(ConfigError::Unauthorized);
    }
    if bonus_bps > MAX_BONUS_BPS {
        return Err(ConfigError::InvalidBonusBps);
    }
    if min_discount_rate_bps == 0 {
        return Err(ConfigError::InvalidMinDiscountRate);
    }
    let new_config: Config = Config {
        high_rep_threshold,
        bonus_bps,
        min_discount_rate_bps,
        decay_rate_bps,
        decay_period_ledgers,
        dispute_timeout_ledgers,
        xlm_sac_address,
        price_oracle: old_config.price_oracle,
    };
    set_config(env, &new_config);
    emit_parameter(
        env,
        ParamName::HighRepThreshold,
        old_config.high_rep_threshold as i128,
        high_rep_threshold as i128,
        caller,
    );
    emit_parameter(
        env,
        ParamName::BonusBps,
        old_config.bonus_bps as i128,
        bonus_bps as i128,
        caller,
    );
    emit_parameter(
        env,
        ParamName::MinDiscountRateBps,
        old_config.min_discount_rate_bps as i128,
        min_discount_rate_bps as i128,
        caller,
    );
    emit_parameter(
        env,
        ParamName::DecayRateBps,
        old_config.decay_rate_bps as i128,
        decay_rate_bps as i128,
        caller,
    );
    emit_parameter(
        env,
        ParamName::DecayPeriodLedgers,
        old_config.decay_period_ledgers as i128,
        decay_period_ledgers as i128,
        caller,
    );
    emit_parameter(
        env,
        ParamName::DisputeTimeoutLedgers,
        old_config.dispute_timeout_ledgers as i128,
        dispute_timeout_ledgers as i128,
        caller,
    );
    Ok(())
}

/// Announces a change of one parameter.
pub(crate) fn emit_parameter(
    env: &mut Env,
    param_name: ParamName,
    old_value: i128,
    new_value: i128,
    caller: &Address,
)
    ensures
        final(env)@ == old(env)@.published(
            parameter_event(param_name, old_value as int, new_value as int, *caller),
        ),
{
    env.publish_event(
        Event::ParameterUpdated(
            ParameterUpdated { param_name, old_value, new_value, updated_by: *caller },
        ),
    );
}

/// Sets the price oracle on the authority of the admin.
pub fn set_price_oracle(env: &mut Env, caller: &Address, oracle: Address) -> (r: Result<
    (),
    ConfigError,
>)
    ensures
        if old(env)@.instance.config is None || old(env)@.instance.admin != Some(*caller) {
            r == Err::<(), ConfigError>(ConfigError::Unauthorized) && final(env)@
                == config_refused(old(env)@, *caller)
        } else {
            r == Ok::<(), ConfigError>(()) && final(env)@ == old(env)@.authorized(
                *caller,
            ).with_instance(
                Instance {
                    config: Some(
                        Config {
                            price_oracle: Some(oracle),
                            ..old(env)@.instance.config->0
                        },
                    ),
                    ..old(env)@.instance
                },
            )
        },
{
    let admin: Address = match get_admin(env) {
        Some(admin) => admin,
        None => return Err(ConfigError::Unauthorized),
    };
    let mut config: Config = match get_config(env) {
        Some(config) => config,
        None => return Err(ConfigError::Unauthorized),
    };
    env.require_auth(*caller);
    if *caller != admin {
        return Err(ConfigError::Unauthorized);
    }
    config.price_oracle = Some(oracle);
    set_config(env, &config);
    Ok(())
}

} // verus!
