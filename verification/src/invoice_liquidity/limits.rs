//! Whether a call stays within what its numbers can hold. A caller that cannot
//! know beforehand asks here first.

use crate::host::Address;
use crate::invoice_liquidity::arith::{discounted, in_i128, scale, share};
use crate::invoice_liquidity::config::Config;
use crate::invoice_liquidity::contract::{
    is_approved_token, is_xlm_token, page_ids, page_limit, page_readable, APPEAL_WINDOW_SECONDS,
};
use crate::invoice_liquidity::contributions::{
    find_entry, law_contributors_have_an_entry, refund_total, refunds_add_up,
};
use crate::invoice_liquidity::defaults::{appeal_refusal, default_refusal};
use crate::invoice_liquidity::disputes::timeout_fits;
use crate::invoice_liquidity::env::Env;
use crate::invoice_liquidity::errors::ContractError;
use crate::invoice_liquidity::funding::{fund_fits, fund_gate};
use crate::invoice_liquidity::invoice::{
    get_appeal, get_dispute, get_invoice_funders, get_lp_invoices, get_lp_score,
    get_min_payer_reputation, get_payer_score, get_queue_resolution, get_submitter_invoices,
    get_token_list, get_token_volume, invoice_exists, is_paused, load_invoice, try_load_invoice,
    DisputeRecord, Invoice, InvoiceParams, InvoiceStatus,
};
use crate::invoice_liquidity::model::{oracle_answers, volume_fits};
use crate::invoice_liquidity::settlement::pay_fits;
use crate::invoice_liquidity::submission::{
    batch_refusal, check_item, find_refused, room_for, submit_refusal,
};
use vstd::prelude::*;

verus! {

/// Whether the counters have room for `n` more invoices.
fn has_room(env: &Env, n: u64) -> (r: bool)
    ensures
        r == room_for(env@, n as int),
{
    let count: u64 = env.persistent.invoice_count.unwrap_or(0);
    let total: u64 = env.persistent.total_invoices.unwrap_or(0);
    count.checked_add(n).is_some() && total.checked_add(n).is_some()
}

/// Whether [`submit_invoice`](super::InvoiceLiquidityContract::submit_invoice) can
/// be called.
pub fn can_submit(env: &Env, p: &InvoiceParams) -> (r: bool)
    ensures
        r == (submit_refusal(env@, *p) is None ==> room_for(env@, 1)),
{
    is_paused(env) || p.freelancer == p.payer || check_item(env, p).is_some() || has_room(env, 1)
}

/// Whether
/// [`submit_invoices_batch`](super::InvoiceLiquidityContract::submit_invoices_batch)
/// can be called.
pub fn can_submit_batch(env: &Env, items: &Vec<InvoiceParams>) -> (r: bool)
    ensures
        r == (batch_refusal(env@, items@) is None ==> room_for(env@, items@.len() as int)),
{
    if is_paused(env) || items.len() > 10 {
        return true;
    }
    find_refused(env, items) < items.len() || has_room(env, items.len() as u64)
}

/// Why funding is refused before the amount counts, if it is.
fn check_fund_gate(env: &Env, funder: &Address, id: u64) -> (r: Option<ContractError>)
    ensures
        r == fund_gate(env@, *funder, id),
{
    if is_paused(env) {
        return Some(ContractError::ContractPaused);
    }
    let invoice: Invoice = match try_load_invoice(env, id) {
        Some(invoice) => invoice,
        None => return Some(ContractError::InvoiceNotFound),
    };
    if let Some(approved) = get_queue_resolution(env, id) {
        if approved != *funder {
            return Some(ContractError::NotApprovedFunder);
        }
    }
    if !is_approved_token(env, &invoice.token) {
        return Some(ContractError::Unauthorized);
    }
    let least: u32 = get_min_payer_reputation(env);
    if least > 0 && get_payer_score(env, &invoice.payer) < least {
        return Some(ContractError::PayerReputationTooLow);
    }
    if invoice.status == InvoiceStatus::Pending && env.ledger.timestamp >= invoice.due_date as u64 {
        return Some(ContractError::InvoiceExpired);
    }
    invoice.status.fundable_error()
}

/// Whether every total can hold `amount` more of a token.
fn volume_has_room(env: &Env, token: &Address, amount: i128) -> (r: bool)
    ensures
        r == volume_fits(env@, *token, amount as int),
{
    let list: Vec<Address> = get_token_list(env);
    let native: bool = is_xlm_token(env, token);
    let usdc: bool = list.len() > 0 && *token == list[0];
    let second: bool = list.len() > 1 && *token == list[1];
    let eurc: bool = second && !native;
    let xlm: bool = (second && native) || (list.len() > 2 && *token == list[2]);
    let p_usdc: i128 = env.persistent.total_volume_usdc.unwrap_or(0);
    let p_eurc: i128 = env.persistent.total_volume_eurc.unwrap_or(0);
    let p_xlm: i128 = env.persistent.total_volume_xlm.unwrap_or(0);
    get_token_volume(env, token).checked_add(amount).is_some() && (!usdc || p_usdc.checked_add(
        amount,
    ).is_some()) && (!eurc || p_eurc.checked_add(amount).is_some()) && (!xlm || p_xlm.checked_add(
        amount,
    ).is_some())
}

/// Whether [`fund_invoice`](super::InvoiceLiquidityContract::fund_invoice) can be
/// called.
pub fn can_fund(env: &Env, funder: &Address, id: u64, amount: i128) -> (r: bool)
    ensures
        r == fund_fits(env@, *funder, id, amount as int),
{
    if check_fund_gate(env, funder, id).is_some() {
        return true;
    }
    let invoice: Invoice = load_invoice(env, id);
    let sum: i128 = match invoice.amount_funded.checked_add(amount) {
        Some(sum) => sum,
        None => return false,
    };
    if sum > invoice.amount {
        return true;
    }
    let funders: Vec<(Address, i128)> = get_invoice_funders(env, id);
    let p: usize = find_entry(&funders, funder);
    let so_far: i128 = if p < funders.len() {
        funders[p].1
    } else {
        0
    };
    if so_far.checked_add(amount).is_none() || !volume_has_room(env, &invoice.token, amount) {
        return false;
    }
    sum != invoice.amount || (env.ledger.timestamp <= u32::MAX as u64 && get_lp_score(env, funder)
        < u32::MAX && env.persistent.total_funded.unwrap_or(0) < u64::MAX)
}

/// Whether [`mark_paid`](super::InvoiceLiquidityContract::mark_paid) can be called.
pub fn can_pay(env: &Env, id: u64, amount: i128) -> (r: bool)
    ensures
        r == pay_fits(env@, id, amount as int),
{
    if is_paused(env) || amount <= 0 || !invoice_exists(env, id) {
        return true;
    }
    let invoice: Invoice = load_invoice(env, id);
    if invoice.status.funded_error().is_some() {
        return true;
    }
    let remaining: i128 = match invoice.amount.checked_sub(invoice.amount_paid) {
        Some(remaining) => remaining,
        None => return false,
    };
    let funders: Vec<(Address, i128)> = get_invoice_funders(env, id);
    if amount != remaining || funders.len() == 0 {
        return true;
    }
    if invoice.amount <= 0 {
        return false;
    }
    let fee_rate: u32 = env.instance.fee_rate.unwrap_or(0);
    let fee: i128 = scale(invoice.amount, fee_rate as i128);
    let pot: i128 = discounted(invoice.amount, fee_rate as i128);
    let payout: i128 = share(pot, funders[0].1, invoice.amount);
    (fee <= 0 || env.instance.admin.is_some()) && payout.checked_sub(funders[0].1).is_some()
        && env.persistent.total_paid.unwrap_or(0) < u64::MAX && get_payer_score(
        env,
        &invoice.payer,
    ) < u32::MAX
}

/// Whether the refunds can be added up one by one.
fn can_add_refunds(list: &Vec<(Address, i128)>, rate: u32) -> (r: bool)
    ensures
        r == refunds_add_up(list@, rate as int),
{
    let mut sum: i128 = 0;
    let mut i: usize = 0;
    while i < list.len()
        invariant
            i <= list@.len(),
            sum == refund_total(list@.take(i as int), rate as int),
            forall|k: int|
                0 <= k <= i ==> in_i128(#[trigger] refund_total(list@.take(k), rate as int)),
        decreases list@.len() - i,
    {
        let refund: i128 = discounted(list[i].1, rate as i128);
        assert(list@.take(i + 1).drop_last() =~= list@.take(i as int));
        match sum.checked_add(refund) {
            Some(next) => {
                sum = next;
            },
            None => {
                assert(!in_i128(refund_total(list@.take(i + 1), rate as int)));
                return false;
            },
        }
        i = i + 1;
    }
    true
}

/// Whether [`claim_default`](super::InvoiceLiquidityContract::claim_default) can be
/// called.
pub fn can_claim_default(env: &Env, funder: &Address, id: u64) -> (r: bool)
    ensures
        r == (default_refusal(env@, *funder, id) is None ==> refunds_add_up(
            env@.funders(id),
            env@.invoice(id).discount_rate as int,
        )),
{
    if is_paused(env) || !invoice_exists(env, id) {
        return true;
    }
    let invoice: Invoice = load_invoice(env, id);
    let funders: Vec<(Address, i128)> = get_invoice_funders(env, id);
    proof {
        law_contributors_have_an_entry(funders@, *funder);
    }
    find_entry(&funders, funder) == funders.len() || env.ledger.timestamp < invoice.due_date as u64
        || invoice.status.funded_error().is_some() || can_add_refunds(
        &funders,
        invoice.discount_rate,
    )
}

/// Whether [`appeal_default`](super::InvoiceLiquidityContract::appeal_default) can
/// be called.
pub fn can_appeal(env: &Env, id: u64) -> (r: bool)
    ensures
        r == (appeal_refusal(env@, id) is None ==> env@.ledger.timestamp <= u32::MAX),
{
    if !invoice_exists(env, id) || env.ledger.timestamp <= u32::MAX as u64 {
        return true;
    }
    let invoice: Invoice = load_invoice(env, id);
    get_appeal(env, id).is_some() || invoice.status != InvoiceStatus::Defaulted
        || env.ledger.timestamp > invoice.due_date as u64 + APPEAL_WINDOW_SECONDS
}

/// Whether
/// [`auto_resolve_dispute`](super::InvoiceLiquidityContract::auto_resolve_dispute)
/// can be called.
pub fn can_auto_resolve(env: &Env, id: u64) -> (r: bool)
    ensures
        r == timeout_fits(env@, id),
{
    if !invoice_exists(env, id) {
        return true;
    }
    let invoice: Invoice = load_invoice(env, id);
    let dispute: Option<DisputeRecord> = get_dispute(env, id);
    let config: Option<Config> = env.instance.config;
    match (dispute, config) {
        (Some(dispute), Some(config)) => invoice.status != InvoiceStatus::Disputed || (
        dispute.disputed_at as u64).checked_add(config.dispute_timeout_ledgers).is_some(),
        _ => true,
    }
}

/// Whether one page of the invoices on a list can be read.
fn can_read_page(env: &Env, ids: &Vec<u64>, page: u32, page_size: u32) -> (r: bool)
    ensures
        r == page_readable(env@, ids@, page as int, page_size as int),
{
    if ids.len() > u32::MAX as usize {
        return false;
    }
    let size: u32 = page_size.min(50);
    let count: u32 = ids.len() as u32;
    proof {
        assert(size == page_limit(page_size as int));
        assert(page * size >= 0) by (nonlinear_arith);
    }
    let start: u32 = match page.checked_mul(size) {
        Some(start) => start,
        None => return false,
    };
    let ghost wanted = page_ids(ids@, page as int, page_size as int);
    if start >= count {
        return true;
    }
    let end: u32 = match start.checked_add(size) {
        Some(end) => end.min(count),
        None => return false,
    };
    assert(wanted =~= ids@.subrange(start as int, end as int));
    let mut i: u32 = start;
    while i < end
        invariant
            start <= i <= end <= ids@.len(),
            wanted == ids@.subrange(start as int, end as int),
            wanted == page_ids(ids@, page as int, page_size as int),
            forall|j: int| 0 <= j < i - start ==> env@.has_invoice(#[trigger] wanted[j]),
        decreases end - i,
    {
        assert(wanted[i - start] == ids@[i as int]);
        if !invoice_exists(env, ids[i as usize]) {
            return false;
        }
        i = i + 1;
    }
    true
}

/// Whether a page of a freelancer's invoices can be read.
pub fn can_list_by_submitter(env: &Env, submitter: &Address, page: u32, page_size: u32) -> (r: bool)
    ensures
        r == page_readable(env@, env@.submitter_ids(*submitter), page as int, page_size as int),
{
    let ids: Vec<u64> = get_submitter_invoices(env, submitter);
    can_read_page(env, &ids, page, page_size)
}

/// Whether a page of a liquidity provider's invoices can be read.
pub fn can_list_by_lp(env: &Env, lp: &Address, page: u32, page_size: u32) -> (r: bool)
    ensures
        r == page_readable(env@, env@.lp_ids(*lp), page as int, page_size as int),
{
    let ids: Vec<u64> = get_lp_invoices(env, lp);
    can_read_page(env, &ids, page, page_size)
}

/// Whether the oracle, where there is one, has a price for every listed token.
pub fn can_read_stats(env: &Env) -> (r: bool)
    ensures
        r == oracle_answers(env@),
{
    let oracle: Option<Address> = match env.instance.config {
        Some(config) => config.price_oracle,
        None => None,
    };
    if oracle.is_none() {
        return true;
    }
    let list: Vec<Address> = get_token_list(env);
    let mut i: usize = 0;
    while i < list.len()
        invariant
            i <= list@.len(),
            list@ == env@.token_list(),
            env@.instance.config is Some,
            env@.instance.config->0.price_oracle is Some,
            forall|j: int| 0 <= j < i ==> env@.oracle_prices.contains_key(#[trigger] list@[j]),
        decreases list@.len() - i,
    {
        if !env.oracle_prices.has(&list[i]) {
            assert(list@.contains(list@[i as int]));
            return false;
        }
        i = i + 1;
    }
    assert forall|t: Address| #[trigger] list@.contains(t) implies env@.oracle_prices.contains_key(
        t,
    ) by {
        let j = list@.index_of(t);
        assert(list@[j] == t);
    }
    true
}

} // verus!
