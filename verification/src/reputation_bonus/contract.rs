//! Entry points of the contract.

use crate::host::Address;
use crate::reputation_bonus::config;
use crate::reputation_bonus::config::{update_refusal, Config};
use crate::reputation_bonus::env::{Env, EnvView};
use crate::reputation_bonus::errors::ContractError;
use crate::reputation_bonus::invoice;
use crate::reputation_bonus::invoice::{
    closing_refusal, defaulted, paid_off, submitted_invoice, Invoice,
};
use crate::reputation_bonus::reputation::{read_reputation, ReputationScore};
use vstd::prelude::*;

verus! {

pub struct ReputationBonusContract;

impl ReputationBonusContract {
    pub fn init(env: &mut Env, admin: Address)
        ensures
            final(env)@ == (EnvView { admin: Some(admin), ..old(env)@ }),
    {
        config::set_admin(env, &admin);
    }

    pub fn set_config(env: &mut Env, config: Config) -> (r: Result<(), ContractError>)
        ensures
            match old(env)@.admin {
                Some(admin) => r == Ok::<(), ContractError>(()) && final(env)@ == (EnvView {
                    config: Some(config),
                    ..old(env)@.authorized(admin)
                }),
                None => r == Err::<(), ContractError>(ContractError::ConfigErrorUnauthorized)
                    && final(env)@ == old(env)@,
            },
    {
        match config::set_config(env, &config) {
            Ok(()) => Ok(()),
            Err(_) => Err(ContractError::ConfigErrorUnauthorized),
        }
    }

    pub fn get_config(env: &Env) -> (r: Result<Config, ContractError>)
        ensures
            r == (match env@.config {
                Some(config) => Ok::<Config, ContractError>(config),
                None => Err(ContractError::ConfigErrorUnauthorized),
            }),
    {
        match config::get_config(env) {
            Ok(config) => Ok(config),
            Err(_) => Err(ContractError::ConfigErrorUnauthorized),
        }
    }

    /// Changes the parameters. Every refusal is reported as a want of authority.
    pub fn update_config(
        env: &mut Env,
        caller: Address,
        high_rep_threshold: u32,
        bonus_bps: u32,
        min_discount_rate_bps: u32,
    ) -> (r: Result<(), ContractError>)
        ensures
            match update_refusal(old(env)@, caller, bonus_bps, min_discount_rate_bps) {
                Some(_) => r == Err::<(), ContractError>(ContractError::ConfigErrorUnauthorized)
                    && final(env)@ == (if old(env)@.admin is None || old(env)@.config is None {
                    old(env)@
                } else {
                    old(env)@.authorized(caller)
                }),
                None => r == Ok::<(), ContractError>(()) && final(env)@ == config::updated(
                    old(env)@,
                    caller,
                    Config { high_rep_threshold, bonus_bps, min_discount_rate_bps },
                ),
            },
    {
        match config::update_config(
            env,
            &caller,
            high_rep_threshold,
            bonus_bps,
            min_discount_rate_bps,
        ) {
            Ok(()) => Ok(()),
            Err(_) => Err(ContractError::ConfigErrorUnauthorized),
        }
    }

    pub fn get_reputation(env: &Env, address: Address) -> (r: ReputationScore)
        ensures
            r == env@.reputation(address),
    {
        read_reputation(env, &address)
    }

    pub fn submit_invoice(
        env: &mut Env,
        freelancer: Address,
        payer: Address,
        amount: i128,
        due_date: u64,
        base_discount_rate_bps: u32,
    ) -> (r: Result<Invoice, ContractError>)
        ensures
            ({
                let s = old(env)@;
                let invoice = submitted_invoice(
                    s,
                    freelancer,
                    payer,
                    amount,
                    due_date,
                    base_discount_rate_bps,
                );
                if s.config is None {
                    r == Err::<Invoice, ContractError>(ContractError::ConfigErrorUnauthorized)
                        && final(env)@ == s.authorized(freelancer)
                } else if s.invoice_count() == u64::MAX {
                    r == Err::<Invoice, ContractError>(ContractError::ArithmeticError)
                        && final(env)@ == s.authorized(freelancer)
                } else {
                    r == Ok::<Invoice, ContractError>(invoice) && final(env)@ == (EnvView {
                        invoice_count: Some(invoice.id),
                        ..s
                    }).authorized(freelancer).invoice_saved(
                        invoice.id,
                        invoice,
                    ).submission_counted(freelancer).submission_counted(payer)
                }
            }),
    {
        invoice::submit_invoice(env, &freelancer, &payer, amount, due_date, base_discount_rate_bps)
    }

    pub fn mark_paid(env: &mut Env, invoice_id: u64) -> (r: Result<(), ContractError>)
        ensures
            match closing_refusal(old(env)@, invoice_id) {
                Some(e) => r == Err::<(), ContractError>(e) && final(env)@ == old(env)@,
                None => r == Ok::<(), ContractError>(()) && final(env)@ == paid_off(
                    old(env)@,
                    invoice_id,
                ),
            },
    {
        invoice::mark_paid(env, invoice_id)
    }

    pub fn handle_default(env: &mut Env, invoice_id: u64) -> (r: Result<(), ContractError>)
        ensures
            match closing_refusal(old(env)@, invoice_id) {
                Some(e) => r == Err::<(), ContractError>(e) && final(env)@ == old(env)@,
                None => r == Ok::<(), ContractError>(()) && final(env)@ == defaulted(
                    old(env)@,
                    invoice_id,
                ),
            },
    {
        invoice::handle_default(env, invoice_id)
    }
}

} // verus!
