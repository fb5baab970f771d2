//! Parameters of the bonus.

use crate::host::Address;
use crate::reputation_bonus::env::{Env, EnvView};
use crate::reputation_bonus::events::{Event, ParamName, ParameterUpdated};
use vstd::prelude::*;

verus! {

#[derive(Clone, Copy, Debug, PartialEq)]
pub struct Config {
    /// Score from which the bonus applies.
    pub high_rep_threshold: u32,
    /// Basis points taken off the base rate.
    pub bonus_bps: u32,
    /// Rate below which the bonus does not go.
    pub min_discount_rate_bps: u32,
}

#[derive(Clone, Copy, Debug, PartialEq, Eq, Structural)]
pub enum ConfigError {
    Unauthorized,
    InvalidBonusBps,
    InvalidMinDiscountRate,
}

/// The largest bonus that an update may set.
pub const MAX_BONUS_BPS: u32 = 500;

pub fn set_admin(env: &mut Env, admin: &Address)
    ensures
        final(env)@ == (EnvView { admin: Some(*admin), ..old(env)@ }),
{
    env.admin = Some(*admin);
}

pub fn get_config(env: &Env) -> (r: Result<Config, ConfigError>)
    ensures
        r == (match env@.config {
            Some(config) => Ok::<Config, ConfigError>(config),
            None => Err(ConfigError::Unauthorized),
        }),
{
    match env.config {
        Some(config) => Ok(config),
        None => Err(ConfigError::Unauthorized),
    }
}

/// Sets all parameters at once, on the authority of the admin.
pub fn set_config(env: &mut Env, config: &Config) -> (r: Result<(), ConfigError>)
    ensures
        match old(env)@.admin {
            Some(admin) => r == Ok::<(), ConfigError>(()) && final(env)@ == (EnvView {
                config: Some(*config),
                ..old(env)@.authorized(admin)
            }),
            None => r == Err::<(), ConfigError>(ConfigError::Unauthorized) && final(env)@ == old(
                env)@,
        },
{
    match env.admin {
        Some(admin) => {
            env.require_auth(admin);
            env.config = Some(*config);
            Ok(())
        },
        None => Err(ConfigError::Unauthorized),
    }
}

/// Why an update of the parameters is refused, if it is.
pub open spec fn update_refusal(
    s: EnvView,
    caller: Address,
    bonus_bps: u32,
    min_discount_rate_bps: u32,
) -> Option<ConfigError> {
    if s.admin is None || s.config is None || s.admin != Some(caller) {
        Some(ConfigError::Unauthorized)
    } else if bonus_bps > MAX_BONUS_BPS {
        Some(ConfigError::InvalidBonusBps)
    } else if min_discount_rate_bps == 0 {
        Some(ConfigError::InvalidMinDiscountRate)
    } else {
        None
    }
}

/// The event that announces a change of one parameter.
pub open spec fn parameter_event(name: ParamName, old_value: u32, new_value: u32, by: Address)
    -> Event {
    Event::ParameterUpdated(
        ParameterUpdated {
            param_name: name,
            old_value: old_value as i128,
            new_value: new_value as i128,
            updated_by: by,
        },
    )
}

/// The invocation after the parameters were updated and each was announced.
pub open spec fn updated(s: EnvView, caller: Address, config: Config) -> EnvView {
    let before = s.config->0;
    (EnvView { config: Some(config), ..s }).authorized(caller).published(
        parameter_event(
            ParamName::HighRepThreshold,
            before.high_rep_threshold,
            config.high_rep_threshold,
            caller,
        ),
    ).published(
        parameter_event(ParamName::BonusBps, before.bonus_bps, config.bonus_bps, caller),
    ).published(
        parameter_event(
            ParamName::MinDiscountRateBps,
            before.min_discount_rate_bps,
            config.min_discount_rate_bps,
            caller,
        ),
    )
}

/// Sets the parameters, within their bounds, on the authority of the admin, and
/// announces each.
pub fn update_config(
    env: &mut Env,
    caller: &Address,
    high_rep_threshold: u32,
    bonus_bps: u32,
    min_discount_rate_bps: u32,
) -> (r: Result<(), ConfigError>)
    ensures
        match update_refusal(old(env)@, *caller, bonus_bps, min_discount_rate_bps) {
            Some(e) => r == Err::<(), ConfigError>(e) && final(env)@ == (if old(env)@.admin is None
                || old(env)@.config is None {
                old(env)@
            } else {
                old(env)@.authorized(*caller)
            }),
            None => r == Ok::<(), ConfigError>(()) && final(env)@ == updated(
                old(env)@,
                *caller,
                Config { high_rep_threshold, bonus_bps, min_discount_rate_bps },
            ),
        },
{
    let admin: Address = match env.admin {
        Some(admin) => admin,
        None => return Err(ConfigError::Unauthorized),
    };
    let before: Config = match env.config {
        Some(config) => config,
        None => return Err(ConfigError::Unauthorized),
    };
    env.require_auth(*caller);
    if *caller != admin {
        return Err(ConfigError::Unauthorized);
    }
    if bonus_bps > MAX_BONUS_BPS {
        return Err(ConfigError::InvalidBonusBps);
    }
    if min_discount_rate_bps == 0 {
        return Err(ConfigError::InvalidMinDiscountRate);
    }
    env.config = Some(Config { high_rep_threshold, bonus_bps, min_discount_rate_bps });
    emit(env, ParamName::HighRepThreshold, before.high_rep_threshold, high_rep_threshold, caller);
    emit(env, ParamName::BonusBps, before.bonus_bps, bonus_bps, caller);
    emit(
        env,
        ParamName::MinDiscountRateBps,
        before.min_discount_rate_bps,
        min_discount_rate_bps,
        caller,
    );
    Ok(())
}

fn emit(env: &mut Env, param_name: ParamName, old_value: u32, new_value: u32, caller: &Address)
    ensures
        final(env)@ == old(env)@.published(
            parameter_event(param_name, old_value, new_value, *caller),
        ),
{
    env.publish_event(
        Event::ParameterUpdated(
            ParameterUpdated {
                param_name,
                old_value: old_value as i128,
                new_value: new_value as i128,
                updated_by: *caller,
            },
        ),
    );
}

} // verus!
