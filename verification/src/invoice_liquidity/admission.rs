//! Which calls can be made: with sound books, every call that stays within plain bounds.

use crate::host::Address;
use crate::invoice_liquidity::contract::page_ids;
use crate::invoice_liquidity::env::Env;
use crate::invoice_liquidity::invoice::InvoiceParams;
use crate::invoice_liquidity::laws::{books_sound, lists_sound};
use crate::invoice_liquidity::limits::{
    can_appeal, can_auto_resolve, can_claim_default, can_fund, can_list_by_lp,
    can_list_by_submitter, can_pay, can_read_stats, can_submit, can_submit_batch,
};
use crate::invoice_liquidity::money::{
    law_sound_books_can_refund, law_sound_books_can_take_funds, law_sound_books_can_take_payments,
};
use crate::invoice_liquidity::readings::law_volume_can_be_counted;
use vstd::prelude::*;

verus! {

/// Submissions can be made as long as the counters have room for them.
pub proof fn law_submissions_can_be_made(
    env: &Env,
    p: &InvoiceParams,
    items: &Vec<InvoiceParams>,
    one: bool,
    many: bool,
)
    requires
        call_ensures(can_submit, (env, p), one),
        call_ensures(can_submit_batch, (env, items), many),
        env@.invoice_count() < u64::MAX,
        env@.total_invoices() < u64::MAX,
        env@.invoice_count() + items@.len() <= u64::MAX,
        env@.total_invoices() + items@.len() <= u64::MAX,
    ensures
        one,
        many,
{
}

/// With sound books, an invoice can be funded by any amount that is not negative, as long
/// as the totals can hold it, the clock fits 32 bits and the counters have room.
pub proof fn law_funding_can_be_made(
    env: &Env,
    funder: &Address,
    id: u64,
    amount: i128,
    r: bool,
)
    requires
        call_ensures(can_fund, (env, funder, id, amount), r),
        books_sound(env@),
        0 <= amount,
        env@.persistent.invoices[id].amount_funded + amount <= i128::MAX,
        env@.token_volume(env@.persistent.invoices[id].token) + amount <= i128::MAX,
        env@.token_volume(env@.persistent.invoices[id].token) >= 0,
        env@.persistent.total_volume_usdc is None || 0 <= env@.persistent.total_volume_usdc->0
            <= i128::MAX - amount,
        env@.persistent.total_volume_eurc is None || 0 <= env@.persistent.total_volume_eurc->0
            <= i128::MAX - amount,
        env@.persistent.total_volume_xlm is None || 0 <= env@.persistent.total_volume_xlm->0
            <= i128::MAX - amount,
        env@.ledger.timestamp <= u32::MAX,
        env@.lp_score(*funder) < u32::MAX,
        env@.total_funded() < u64::MAX,
    ensures
        r,
{
    law_volume_can_be_counted(env@, env@.invoice(id).token, amount as int);
    law_sound_books_can_take_funds(env@, *funder, id, amount as int);
}

/// With sound books and an admin, any payment can be made at any time, for fees up to the
/// whole.
pub proof fn law_payments_can_be_made(env: &Env, id: u64, amount: i128, r: bool)
    requires
        call_ensures(can_pay, (env, id, amount), r),
        books_sound(env@),
        env@.instance.admin is Some,
        env@.instance.fee_rate is None || env@.instance.fee_rate->0 <= 10_000,
        env@.total_paid() < u64::MAX,
        env@.payer_score(env@.persistent.invoices[id].payer) < u32::MAX,
    ensures
        r,
{
    law_sound_books_can_take_payments(env@, id, amount as int);
}

/// With sound books, a default can be claimed, for discounts up to the whole, and an
/// appeal filed, while the clock fits 32 bits. A dispute can be ended as long as the end of
/// its time can be held.
pub proof fn law_claims_can_be_made(
    env: &Env,
    funder: &Address,
    id: u64,
    claim: bool,
    appeal: bool,
    end: bool,
)
    requires
        call_ensures(can_claim_default, (env, funder, id), claim),
        call_ensures(can_appeal, (env, id), appeal),
        call_ensures(can_auto_resolve, (env, id), end),
        books_sound(env@),
        env@.persistent.invoices[id].discount_rate <= 10_000,
        env@.ledger.timestamp <= u32::MAX,
        env@.instance.config is None || env@.instance.config->0.dispute_timeout_ledgers
            <= u64::MAX - u32::MAX,
    ensures
        claim,
        appeal,
        end,
{
    if env@.has_invoice(id) {
        law_sound_books_can_refund(env@, id);
    }
}

/// With sound books and lists, every page can be read whose place fits 32 bits, and the
/// counters and volumes can be read as long as the oracle, where there is one, knows every
/// price.
pub proof fn law_pages_can_be_read(
    env: &Env,
    who: &Address,
    page: u32,
    page_size: u32,
    submitted: bool,
    funded: bool,
    stats: bool,
)
    requires
        call_ensures(can_list_by_submitter, (env, who, page, page_size), submitted),
        call_ensures(can_list_by_lp, (env, who, page, page_size), funded),
        call_ensures(can_read_stats, (env,), stats),
        books_sound(env@),
        lists_sound(env@),
        env@.submitter_ids(*who).len() <= u32::MAX,
        env@.lp_ids(*who).len() <= u32::MAX,
        page * 50 + 50 <= u32::MAX,
        forall|token: Address|
            env@.token_list().contains(token) ==> #[trigger] env@.oracle_prices.contains_key(token),
    ensures
        submitted,
        funded,
        stats,
{
    let size = if page_size < 50 {
        page_size as int
    } else {
        50
    };
    assert(0 <= page * size <= page * 50) by (nonlinear_arith)
        requires
            0 <= page,
            0 <= size <= 50,
    ;
    let a = env@.submitter_ids(*who);
    let b = env@.lp_ids(*who);
    assert forall|i: int| 0 <= i < page_ids(a, page as int, page_size as int).len() implies (
    #[trigger] env@.has_invoice(page_ids(a, page as int, page_size as int)[i])) by {
        let id = page_ids(a, page as int, page_size as int)[i];
        assert(id == a[page * size + i]);
        assert(a.contains(id));
    }
    assert forall|i: int| 0 <= i < page_ids(b, page as int, page_size as int).len() implies (
    #[trigger] env@.has_invoice(page_ids(b, page as int, page_size as int)[i])) by {
        let id = page_ids(b, page as int, page_size as int)[i];
        assert(id == b[page * size + i]);
        assert(b.contains(id));
        if !env@.has_invoice(id) {
            assert(env@.funders(id).len() == 0);
        }
    }
}

} // verus!
