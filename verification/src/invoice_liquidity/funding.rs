//! Funding an invoice, and the queue that decides who may.
//!
//! Any liquidity provider may join the queue of an invoice; the score they have
//! at that moment is what counts. Resolving the queue fixes the provider with the
//! highest score as the only one who may fund. An invoice whose queue is never
//! resolved is open to all comers.

use crate::host::Address;
use crate::invoice_liquidity::access::require_lp;
use crate::invoice_liquidity::arith::{discounted, in_i128, lemma_net_fits, net_of};
use crate::invoice_liquidity::contract::{
    discount_rate_as_i128, funding_notified, is_approved_token, is_xlm_token,
    normalize_usdc_amount, normalize_xlm_amount, notify_distribution_funding,
    InvoiceLiquidityContract,
};
use crate::invoice_liquidity::contributions::{contributed, contribution, find_entry};
use crate::invoice_liquidity::env::{Env, EnvView, HostCall, PersistentView};
use crate::invoice_liquidity::errors::ContractError;
use crate::invoice_liquidity::events::{Event, FundQueueResolved, FundRequested, InvoiceFunded};
use crate::invoice_liquidity::invoice::{
    add_invoice_to_lp, add_volume, get_fund_queue, get_invoice_funders, get_lp_score,
    get_min_payer_reputation, get_payer_score, get_queue_resolution, increment_total_funded,
    invoice_exists, is_paused, load_invoice, save_fund_queue, save_invoice, save_invoice_funders,
    save_queue_resolution, set_lp_score, try_load_invoice, Invoice, InvoiceStatus, LpFundRequest,
};
use crate::invoice_liquidity::model::{volume_added, volume_fits};
use crate::invoice_liquidity::submission::{expired, lapsed};
use vstd::prelude::*;

verus! {

// ----------------------------------------------------------------
// The queue
// ----------------------------------------------------------------

/// Whether `lp` has joined the queue.
pub open spec fn in_queue(queue: Seq<LpFundRequest>, lp: Address) -> bool {
    exists|i: int| 0 <= i < queue.len() && (#[trigger] queue[i]).lp == lp
}

/// Why joining the queue is refused, if it is.
pub open spec fn join_refusal(s: EnvView, lp: Address, id: u64) -> Option<ContractError> {
    if !s.has_invoice(id) {
        Some(ContractError::InvoiceNotFound)
    } else if s.queue_resolution(id) is Some {
        Some(ContractError::NotApprovedFunder)
    } else {
        match s.invoice(id).status.spec_fundable_error() {
            Some(e) => Some(e),
            None => if in_queue(s.fund_queue(id), lp) {
                Some(ContractError::AlreadyInQueue)
            } else {
                None
            },
        }
    }
}

/// The invocation after `lp` joined the queue of an invoice.
pub open spec fn joined(s: EnvView, lp: Address, id: u64) -> EnvView {
    let score = s.lp_score(lp);
    s.authorized(lp).with_persistent(
        PersistentView {
            fund_queues: s.persistent.fund_queues.insert(
                id,
                s.fund_queue(id).push(LpFundRequest { lp, score }),
            ),
            ..s.persistent
        },
    ).published(Event::FundRequested(FundRequested { invoice_id: id, lp, score }))
}

/// Position of the request with the highest score; of several, the first.
pub open spec fn best_request(queue: Seq<LpFundRequest>) -> int
    decreases queue.len(),
{
    if queue.len() <= 1 {
        0
    } else {
        let before = best_request(queue.drop_last());
        if queue.last().score > queue[before].score {
            queue.len() - 1
        } else {
            before
        }
    }
}

/// The queue is won by the highest score; a tie is won by whoever joined first.
pub proof fn law_highest_score_wins_the_queue(queue: Seq<LpFundRequest>)
    requires
        queue.len() > 0,
    ensures
        0 <= best_request(queue) < queue.len(),
        forall|i: int|
            0 <= i < queue.len() ==> (#[trigger] queue[i]).score <= queue[best_request(
                queue,
            )].score,
        forall|i: int|
            0 <= i < best_request(queue) ==> (#[trigger] queue[i]).score < queue[best_request(
                queue,
            )].score,
    decreases queue.len(),
{
    if queue.len() > 1 {
        let rest = queue.drop_last();
        law_highest_score_wins_the_queue(rest);
        assert forall|i: int| 0 <= i < queue.len() implies (#[trigger] queue[i]).score
            <= queue[best_request(queue)].score by {
            if i < rest.len() {
                assert(rest[i] == queue[i]);
            }
        }
        assert forall|i: int| 0 <= i < best_request(queue) implies (#[trigger] queue[i]).score
            < queue[best_request(queue)].score by {
            assert(rest[i] == queue[i]);
        }
    }
}

/// The invocation after the queue of an invoice was resolved.
pub open spec fn queue_resolved(s: EnvView, id: u64) -> EnvView {
    let winner = s.fund_queue(id)[best_request(s.fund_queue(id))];
    s.with_persistent(
        PersistentView {
            queue_resolutions: s.persistent.queue_resolutions.insert(id, winner.lp),
            ..s.persistent
        },
    ).published(
        Event::FundQueueResolved(
            FundQueueResolved { invoice_id: id, approved_lp: winner.lp, score: winner.score },
        ),
    )
}

fn is_queued(queue: &Vec<LpFundRequest>, lp: &Address) -> (r: bool)
    ensures
        r == in_queue(queue@, *lp),
{
    let mut i: usize = 0;
    while i < queue.len()
        invariant
            i <= queue@.len(),
            forall|j: int| 0 <= j < i ==> (#[trigger] queue@[j]).lp != *lp,
        decreases queue@.len() - i,
    {
        if queue[i].lp == *lp {
            return true;
        }
        i = i + 1;
    }
    false
}

// ----------------------------------------------------------------
// Funding
// ----------------------------------------------------------------

/// Why a funder is turned away before the state of the invoice counts, if they
/// are.
pub open spec fn funder_refusal(s: EnvView, funder: Address, id: u64) -> Option<ContractError> {
    if s.is_paused() {
        Some(ContractError::ContractPaused)
    } else if !s.has_invoice(id) {
        Some(ContractError::InvoiceNotFound)
    } else if s.queue_resolution(id) is Some && s.queue_resolution(id) != Some(funder) {
        Some(ContractError::NotApprovedFunder)
    } else if !s.approved(s.invoice(id).token) {
        Some(ContractError::Unauthorized)
    } else if s.min_payer_reputation() > 0 && s.payer_score(s.invoice(id).payer)
        < s.min_payer_reputation() {
        Some(ContractError::PayerReputationTooLow)
    } else {
        None
    }
}

/// Why funding is refused before the amount counts, if it is.
pub open spec fn fund_gate(s: EnvView, funder: Address, id: u64) -> Option<ContractError> {
    match funder_refusal(s, funder, id) {
        Some(e) => Some(e),
        None => if lapsed(s, id) {
            Some(ContractError::InvoiceExpired)
        } else {
            s.invoice(id).status.spec_fundable_error()
        },
    }
}

/// Why funding is refused, if it is.
pub open spec fn fund_refusal(s: EnvView, funder: Address, id: u64, amount: int) -> Option<
    ContractError,
> {
    match fund_gate(s, funder, id) {
        Some(e) => Some(e),
        None => if s.invoice(id).amount_funded + amount > s.invoice(id).amount {
            Some(ContractError::OverfundingRejected)
        } else {
            None
        },
    }
}

/// The invocation after funding was refused. A lapsed invoice is marked as such.
pub open spec fn fund_refused(s: EnvView, funder: Address, id: u64) -> EnvView {
    if s.is_paused() {
        s
    } else if funder_refusal(s, funder, id) is None && lapsed(s, id) {
        expired(s.authorized(funder), id)
    } else {
        s.authorized(funder)
    }
}

/// Whether `amount` completes the funding.
pub open spec fn completes(s: EnvView, id: u64, amount: int) -> bool {
    s.invoice(id).amount_funded + amount == s.invoice(id).amount
}

/// The invoice after `funder` put in `amount`.
pub open spec fn funded_invoice(s: EnvView, funder: Address, id: u64, amount: int) -> Invoice {
    let invoice = s.invoice(id);
    if completes(s, id, amount) {
        Invoice {
            amount_funded: invoice.amount,
            status: InvoiceStatus::Funded,
            funded_at: Some(s.ledger.timestamp as u32),
            funder: Some(funder),
            ..invoice
        }
    } else {
        Invoice {
            amount_funded: (invoice.amount_funded + amount) as i128,
            status: InvoiceStatus::PartiallyFunded,
            ..invoice
        }
    }
}

/// Whole days from now to the due date; zero once it has passed.
pub open spec fn days_to_due(now: u64, due_date: u32) -> int {
    if due_date > now {
        (due_date - now) / 86_400
    } else {
        0
    }
}

/// The discount rate over the days to the due date, as a yearly rate, in 32 bits.
pub open spec fn effective_yield(discount_rate: u32, days: int) -> u32 {
    #[verifier::truncate]
    ((discount_rate * days / 365) as u32)
}

/// The event that announces a contribution.
pub open spec fn funded_event(s: EnvView, funder: Address, id: u64, amount: i128) -> Event {
    let invoice = funded_invoice(s, funder, id, amount as int);
    Event::InvoiceFunded(
        InvoiceFunded {
            invoice_id: invoice.id,
            funder,
            freelancer: invoice.freelancer,
            payer: invoice.payer,
            token: invoice.token,
            fund_amount: amount,
            amount_funded: invoice.amount_funded,
            invoice_amount: invoice.amount,
            due_date: invoice.due_date as u64,
            discount_rate: invoice.discount_rate,
            funded_at: match invoice.funded_at {
                Some(ts) => Some(ts as u64),
                None => None,
            },
            status: invoice.status,
            lp: funder,
            effective_yield_bps: effective_yield(
                invoice.discount_rate,
                days_to_due(s.ledger.timestamp, invoice.due_date),
            ),
            timestamp: s.ledger.timestamp,
        },
    )
}

/// The invocation after the funder has paid their contribution less the discount
/// and it was entered in the list.
pub open spec fn contribution_taken(s: EnvView, funder: Address, id: u64, amount: i128) -> EnvView {
    let invoice = s.invoice(id);
    s.authorized(funder).called(
        HostCall::Transfer {
            token: invoice.token,
            from: funder,
            to: s.contract,
            amount: net_of(amount as int, invoice.discount_rate as int) as i128,
        },
    ).funders_saved(id, contributed(s.funders(id), funder, amount))
}

/// The invocation after the freelancer was paid the full amount less the
/// discount, and the funder's score rose by one.
pub open spec fn freelancer_paid(s: EnvView, funder: Address, invoice: Invoice) -> EnvView {
    s.called(
        HostCall::Transfer {
            token: invoice.token,
            from: s.contract,
            to: invoice.freelancer,
            amount: net_of(invoice.amount as int, invoice.discount_rate as int) as i128,
        },
    ).lp_scored(funder, s.lp_score(funder) + 1)
}

/// The invocation after the number of funded invoices rose by one.
pub open spec fn funding_counted(s: EnvView) -> EnvView {
    s.with_persistent(
        PersistentView { total_funded: Some((s.total_funded() + 1) as u64), ..s.persistent },
    )
}

/// The invocation after `funder` put `amount` into invoice `id`.
pub open spec fn funded(s: EnvView, funder: Address, id: u64, amount: i128) -> EnvView {
    let full = completes(s, id, amount as int);
    let invoice = funded_invoice(s, funder, id, amount as int);
    let taken = contribution_taken(s, funder, id, amount);
    let paid = if full {
        freelancer_paid(taken, funder, invoice)
    } else {
        taken
    };
    let listed = paid.invoice_saved(invoice).lp_id_added(funder, id);
    let counted = if full {
        funding_counted(listed)
    } else {
        listed
    };
    funding_notified(
        volume_added(counted, invoice.token, amount as int),
        funder,
        amount,
    ).published(funded_event(s, funder, id, amount))
}

/// Whether the numbers involved in funding can be held, on the path that funding
/// takes.
pub open spec fn fund_fits(s: EnvView, funder: Address, id: u64, amount: int) -> bool {
    fund_gate(s, funder, id) is None ==> {
        let invoice = s.invoice(id);
        &&& in_i128(invoice.amount_funded + amount)
        &&& invoice.amount_funded + amount <= invoice.amount ==> {
            &&& in_i128(contribution(s.funders(id), funder) + amount)
            &&& volume_fits(s, invoice.token, amount)
            &&& completes(s, id, amount) ==> {
                &&& s.ledger.timestamp <= u32::MAX
                &&& s.lp_score(funder) < u32::MAX
                &&& s.total_funded() < u64::MAX
            }
        }
    }
}

/// Enters a contribution in the list of an invoice.
fn enter_contribution(env: &mut Env, id: u64, funder: &Address, amount: i128)
    requires
        in_i128(contribution(old(env)@.funders(id), *funder) + amount),
    ensures
        final(env)@ == old(env)@.funders_saved(
            id,
            contributed(old(env)@.funders(id), *funder, amount),
        ),
{
    let mut funders: Vec<(Address, i128)> = get_invoice_funders(env, id);
    let p: usize = find_entry(&funders, funder);
    if p < funders.len() {
        let sum: i128 = funders[p].1 + amount;
        funders.set(p, (*funder, sum));
    } else {
        funders.push((*funder, amount));
    }
    save_invoice_funders(env, id, &funders);
}

impl InvoiceLiquidityContract {
    /// Registers the intent of a liquidity provider to fund an invoice. Access:
    /// LP only.
    pub fn join_fund_queue(env: &mut Env, lp: Address, invoice_id: u64) -> (r: Result<
        (),
        ContractError,
    >)
        ensures
            match join_refusal(old(env)@, lp, invoice_id) {
                Some(e) => r == Err::<(), ContractError>(e) && final(env)@ == old(
                    env)@.authorized(lp),
                None => r == Ok::<(), ContractError>(()) && final(env)@ == joined(
                    old(env)@,
                    lp,
                    invoice_id,
                ),
            },
    {
        require_lp(env, &lp)?;
        if !invoice_exists(env, invoice_id) {
            return Err(ContractError::InvoiceNotFound);
        }
        if get_queue_resolution(env, invoice_id).is_some() {
            return Err(ContractError::NotApprovedFunder);
        }
        let invoice: Invoice = load_invoice(env, invoice_id);
        if let Some(e) = invoice.status.fundable_error() {
            return Err(e);
        }
        let mut queue: Vec<LpFundRequest> = get_fund_queue(env, invoice_id);
        if is_queued(&queue, &lp) {
            return Err(ContractError::AlreadyInQueue);
        }
        let score: u32 = get_lp_score(env, &lp);
        queue.push(LpFundRequest { lp, score });
        save_fund_queue(env, invoice_id, &queue);
        env.publish_event(Event::FundRequested(FundRequested { invoice_id, lp, score }));
        Ok(())
    }

    /// Approves the provider with the highest score in the queue, and returns
    /// them. A queue that is resolved stays so. Access: anyone.
    pub fn resolve_fund_queue(env: &mut Env, invoice_id: u64) -> (r: Result<
        Address,
        ContractError,
    >)
        ensures
            ({
                let s = old(env)@;
                let queue = s.fund_queue(invoice_id);
                if !s.has_invoice(invoice_id) {
                    r == Err::<Address, ContractError>(ContractError::InvoiceNotFound) && final(
                        env)@ == s
                } else if s.queue_resolution(invoice_id) is Some {
                    r == Ok::<Address, ContractError>(s.queue_resolution(invoice_id)->0)
                        && final(env)@ == s
                } else if queue.len() == 0 {
                    r == Err::<Address, ContractError>(ContractError::NotFunded) && final(env)@
                        == s
                } else {
                    r == Ok::<Address, ContractError>(queue[best_request(queue)].lp) && final(
                        env)@ == queue_resolved(s, invoice_id)
                }
            }),
    {
        if !invoice_exists(env, invoice_id) {
            return Err(ContractError::InvoiceNotFound);
        }
        if let Some(approved) = get_queue_resolution(env, invoice_id) {
            return Ok(approved);
        }
        let queue: Vec<LpFundRequest> = get_fund_queue(env, invoice_id);
        if queue.len() == 0 {
            return Err(ContractError::NotFunded);
        }
        let mut best_lp: Address = queue[0].lp;
        let mut best_score: u32 = queue[0].score;
        let mut i: usize = 1;
        while i < queue.len()
            invariant
                1 <= i <= queue@.len(),
                0 <= best_request(queue@.take(i as int)) < i,
                best_lp == queue@[best_request(queue@.take(i as int))].lp,
                best_score == queue@[best_request(queue@.take(i as int))].score,
            decreases queue@.len() - i,
        {
            let ghost before = best_request(queue@.take(i as int));
            if queue[i].score > best_score {
                best_score = queue[i].score;
                best_lp = queue[i].lp;
            }
            i = i + 1;
            proof {
                assert(queue@.take(i as int).drop_last() =~= queue@.take(i - 1));
                assert(queue@.take(i as int)[before] == queue@[before]);
            }
        }
        assert(queue@.take(i as int) =~= queue@);
        save_queue_resolution(env, invoice_id, &best_lp);
        env.publish_event(
            Event::FundQueueResolved(
                FundQueueResolved { invoice_id, approved_lp: best_lp, score: best_score },
            ),
        );
        Ok(best_lp)
    }

    /// Funds an invoice, in part or in full. The funder pays the amount less the
    /// discount; with the last part the freelancer is paid. Access: LP only.
    pub fn fund_invoice(env: &mut Env, funder: Address, invoice_id: u64, fund_amount: i128) -> (r:
        Result<(), ContractError>)
        requires
            fund_fits(old(env)@, funder, invoice_id, fund_amount as int),
        ensures
            match fund_refusal(old(env)@, funder, invoice_id, fund_amount as int) {
                Some(e) => r == Err::<(), ContractError>(e) && final(env)@ == fund_refused(
                    old(env)@,
                    funder,
                    invoice_id,
                ),
                None => r == Ok::<(), ContractError>(()) && final(env)@ == funded(
                    old(env)@,
                    funder,
                    invoice_id,
                    fund_amount,
                ),
            },
    {
        if is_paused(env) {
            return Err(ContractError::ContractPaused);
        }
        require_lp(env, &funder)?;
        let mut invoice: Invoice = match try_load_invoice(env, invoice_id) {
            Some(invoice) => invoice,
            None => return Err(ContractError::InvoiceNotFound),
        };
        if let Some(approved) = get_queue_resolution(env, invoice_id) {
            if approved != funder {
                return Err(ContractError::NotApprovedFunder);
            }
        }
        if !is_approved_token(env, &invoice.token) {
            return Err(ContractError::Unauthorized);
        }
        let min_payer_reputation: u32 = get_min_payer_reputation(env);
        if min_payer_reputation > 0 && get_payer_score(env, &invoice.payer)
            < min_payer_reputation {
            return Err(ContractError::PayerReputationTooLow);
        }
        if invoice.status == InvoiceStatus::Pending && env.ledger.timestamp
            >= invoice.due_date as u64 {
            invoice.status = InvoiceStatus::Expired;
            save_invoice(env, &invoice);
            return Err(ContractError::InvoiceExpired);
        }
        if let Some(e) = invoice.status.fundable_error() {
            return Err(e);
        }
        if invoice.amount_funded + fund_amount > invoice.amount {
            return Err(ContractError::OverfundingRejected);
        }
        let contract_address: Address = env.contract;
        let rate: i128 = discount_rate_as_i128(invoice.discount_rate);
        let normalized_fund_amount: i128 = if is_xlm_token(env, &invoice.token) {
            normalize_xlm_amount(fund_amount)
        } else {
            normalize_usdc_amount(fund_amount)
        };
        let cost: i128 = discounted(normalized_fund_amount, rate);
        env.transfer(invoice.token, funder, contract_address, cost);
        enter_contribution(env, invoice_id, &funder, fund_amount);
        proof {
            lemma_net_fits(fund_amount as int, rate as int);
            lemma_net_fits(invoice.amount as int, rate as int);
        }
        assert(env@ == contribution_taken(old(env)@, funder, invoice_id, fund_amount));
        invoice.amount_funded = invoice.amount_funded + fund_amount;
        if invoice.amount_funded == invoice.amount {
            let freelancer_payout: i128 = discounted(invoice.amount, rate);
            env.transfer(
                invoice.token,
                contract_address,
                invoice.freelancer,
                freelancer_payout,
            );
            invoice.status = InvoiceStatus::Funded;
            invoice.funded_at = Some(env.ledger.timestamp as u32);
            invoice.funder = Some(funder);
            let current_lp_score: u32 = get_lp_score(env, &funder);
            set_lp_score(env, &funder, current_lp_score + 1);
        } else {
            invoice.status = InvoiceStatus::PartiallyFunded;
        }
        assert(invoice == funded_invoice(old(env)@, funder, invoice_id, fund_amount as int));
        save_invoice(env, &invoice);
        add_invoice_to_lp(env, &funder, invoice_id);
        if invoice.status == InvoiceStatus::Funded {
            increment_total_funded(env);
        }
        add_volume(env, &invoice.token, fund_amount);
        notify_distribution_funding(env, &funder, fund_amount);
        let now: u64 = env.ledger.timestamp;
        let seconds_to_due: u64 = if invoice.due_date as u64 > now {
            invoice.due_date as u64 - now
        } else {
            0
        };
        let days: u64 = seconds_to_due / 86_400;
        assert(0 <= invoice.discount_rate * days <= u64::MAX) by (nonlinear_arith)
            requires
                days <= u32::MAX,
                invoice.discount_rate <= u32::MAX,
        ;
        let effective_yield_bps: u32 = ((invoice.discount_rate as u64 * days) / 365) as u32;
        env.publish_event(
            Event::InvoiceFunded(
                InvoiceFunded {
                    invoice_id: invoice.id,
                    funder,
                    freelancer: invoice.freelancer,
                    payer: invoice.payer,
                    token: invoice.token,
                    fund_amount,
                    amount_funded: invoice.amount_funded,
                    invoice_amount: invoice.amount,
                    due_date: invoice.due_date as u64,
                    discount_rate: invoice.discount_rate,
                    funded_at: match invoice.funded_at {
                        Some(ts) => Some(ts as u64),
                        None => None,
                    },
                    status: invoice.status,
                    lp: funder,
                    effective_yield_bps,
                    timestamp: now,
                },
            ),
        );
        Ok(())
    }
}

} // verus!
