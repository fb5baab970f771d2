//! Who may do what.

use crate::host::Address;
use crate::invoice_liquidity::contributions::{
    contributes, find_entry, law_contributors_have_an_entry,
};
use crate::invoice_liquidity::env::Env;
use crate::invoice_liquidity::errors::ContractError;
use crate::invoice_liquidity::invoice::{
    get_invoice_funders, invoice_exists, load_invoice, Invoice,
};
use vstd::prelude::*;

verus! {

#[derive(Clone, Copy, Debug, PartialEq, Eq, Structural)]
pub enum Role {
    Submitter,
    Payer,
    LP,
    Admin,
    Governance,
    Anyone,
}

/// The admin must have authorised the call. Without an admin nobody can.
pub fn require_admin(env: &mut Env) -> (r: Result<(), ContractError>)
    ensures
        match old(env)@.instance.admin {
            Some(admin) => r == Ok::<(), ContractError>(()) && final(env)@ == old(env)@.authorized(
                admin,
            ),
            None => r == Err::<(), ContractError>(ContractError::Unauthorized) && final(env)@
                == old(env)@,
        },
{
    match env.instance.admin {
        Some(admin) => {
            env.require_auth(admin);
            Ok(())
        },
        None => Err(ContractError::Unauthorized),
    }
}

/// The submitter must have authorised the call.
pub fn require_submitter(env: &mut Env, caller: &Address) -> (r: Result<(), ContractError>)
    ensures
        r == Ok::<(), ContractError>(()),
        final(env)@ == old(env)@.authorized(*caller),
{
    env.require_auth(*caller);
    Ok(())
}

/// The caller must have authorised the call and be the freelancer of the invoice.
pub fn require_submitter_by_id(env: &mut Env, caller: &Address, invoice_id: u64) -> (r: Result<
    (),
    ContractError,
>)
    ensures
        if !old(env)@.has_invoice(invoice_id) {
            r == Err::<(), ContractError>(ContractError::InvoiceNotFound) && final(env)@ == old(
                env)@
        } else {
            final(env)@ == old(env)@.authorized(*caller) && r == (if *caller == old(env)@.invoice(
                invoice_id,
            ).freelancer {
                Ok::<(), ContractError>(())
            } else {
                Err(ContractError::Unauthorized)
            })
        },
{
    if !invoice_exists(env, invoice_id) {
        return Err(ContractError::InvoiceNotFound);
    }
    let invoice: Invoice = load_invoice(env, invoice_id);
    env.require_auth(*caller);
    if *caller != invoice.freelancer {
        return Err(ContractError::Unauthorized);
    }
    Ok(())
}

/// The payer of the invoice must have authorised the call.
pub fn require_payer_by_id(env: &mut Env, invoice_id: u64) -> (r: Result<(), ContractError>)
    ensures
        if !old(env)@.has_invoice(invoice_id) {
            r == Err::<(), ContractError>(ContractError::InvoiceNotFound) && final(env)@ == old(
                env)@
        } else {
            r == Ok::<(), ContractError>(()) && final(env)@ == old(env)@.authorized(
                old(env)@.invoice(invoice_id).payer,
            )
        },
{
    if !invoice_exists(env, invoice_id) {
        return Err(ContractError::InvoiceNotFound);
    }
    let invoice: Invoice = load_invoice(env, invoice_id);
    env.require_auth(invoice.payer);
    Ok(())
}

/// The liquidity provider must have authorised the call.
pub fn require_lp(env: &mut Env, caller: &Address) -> (r: Result<(), ContractError>)
    ensures
        r == Ok::<(), ContractError>(()),
        final(env)@ == old(env)@.authorized(*caller),
{
    env.require_auth(*caller);
    Ok(())
}

/// The caller must have authorised the call and have funded the invoice.
pub fn require_lp_by_id(env: &mut Env, caller: &Address, invoice_id: u64) -> (r: Result<
    (),
    ContractError,
>)
    ensures
        if !old(env)@.has_invoice(invoice_id) {
            r == Err::<(), ContractError>(ContractError::InvoiceNotFound) && final(env)@ == old(
                env)@
        } else {
            final(env)@ == old(env)@.authorized(*caller) && r == (if contributes(
                old(env)@.funders(invoice_id),
                *caller,
            ) {
                Ok::<(), ContractError>(())
            } else {
                Err(ContractError::Unauthorized)
            })
        },
{
    if !invoice_exists(env, invoice_id) {
        return Err(ContractError::InvoiceNotFound);
    }
    env.require_auth(*caller);
    let funders: Vec<(Address, i128)> = get_invoice_funders(env, invoice_id);
    proof {
        law_contributors_have_an_entry(funders@, *caller);
    }
    if find_entry(&funders, caller) == funders.len() {
        return Err(ContractError::Unauthorized);
    }
    Ok(())
}

/// No governance is set up: the call is always refused.
pub fn require_governance(_env: &Env) -> (r: Result<(), ContractError>)
    ensures
        r == Err::<(), ContractError>(ContractError::Unauthorized),
{
    Err(ContractError::Unauthorized)
}

} // verus!
