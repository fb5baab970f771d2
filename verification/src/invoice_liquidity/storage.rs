//! Storage keys and the helpers that read and write single entries.

use crate::host::Address;
use crate::invoice_liquidity::config::Config;
use crate::invoice_liquidity::env::{Env, Instance, PersistentView};
use crate::invoice_liquidity::errors::ContractError;
use crate::invoice_liquidity::invoice::{AppealRecord, Invoice, LpFundRequest, ReputationScore};
use crate::invoice_liquidity::model::{entry, or_default, share_decayed};
use crate::table::copied;
use vstd::prelude::*;

verus! {

/// Names of the storage entries.
#[derive(Clone, Copy, Debug, PartialEq, Eq, Structural)]
pub enum DataKey {
    // Instance storage
    Admin,
    Config,
    FeeRate,
    MaxDiscountRate,
    DistributionContract,
    Paused,
    /// Minimum payer reputation required to fund an invoice.
    MinPayerReputation,
    NextInvoiceId,
    // Persistent storage
    Invoice(u64),
    InvoiceCount,
    Token,
    PayerScore(Address),
    InvoiceFunders(u64),
    ApprovedToken(Address),
    TokenList,
    /// Detailed reputation profile per address.
    Reputation(Address),
    Appeal(u64),
    PreDefaultPayerScore(u64),
    LpScore(Address),
    FundQueue(u64),
    QueueResolution(u64),
    // Statistics, in persistent storage
    TotalInvoices,
    TotalFunded,
    TotalPaid,
    TotalVolumeUsdc,
    TotalVolumeEurc,
    TotalVolumeXlm,
    TokenVolume(Address),
    Dispute(u64),
    SubmitterInvoices(Address),
    LpInvoices(Address),
}

// ----------------------------------------------------------------
// Configuration
// ----------------------------------------------------------------

pub fn get_admin(env: &Env) -> (r: Option<Address>)
    ensures
        r == env@.instance.admin,
{
    env.instance.admin
}

pub fn set_admin(env: &mut Env, admin: &Address)
    ensures
        final(env)@ == old(env)@.with_instance(
            Instance { admin: Some(*admin), ..old(env)@.instance },
        ),
{
    env.instance.admin = Some(*admin);
}

pub fn get_config(env: &Env) -> (r: Option<Config>)
    ensures
        r == env@.instance.config,
{
    env.instance.config
}

pub fn set_config(env: &mut Env, config: &Config)
    ensures
        final(env)@ == old(env)@.with_instance(
            Instance { config: Some(*config), ..old(env)@.instance },
        ),
{
    env.instance.config = Some(*config);
}

pub fn is_paused(env: &Env) -> (r: bool)
    ensures
        r == env@.is_paused(),
{
    env.instance.paused.unwrap_or(false)
}

pub fn set_paused(env: &mut Env, paused: bool)
    ensures
        final(env)@ == old(env)@.with_instance(
            Instance { paused: Some(paused), ..old(env)@.instance },
        ),
{
    env.instance.paused = Some(paused);
}

// ----------------------------------------------------------------
// Invoices
// ----------------------------------------------------------------

pub fn save_invoice(env: &mut Env, invoice: &Invoice)
    ensures
        final(env)@ == old(env)@.invoice_saved(*invoice),
{
    env.persistent.invoices.set(invoice.id, *invoice);
    env.extend_ttl(DataKey::Invoice(invoice.id), 1_000_000, 2_000_000);
}

pub fn load_invoice(env: &Env, id: u64) -> (r: Invoice)
    requires
        env@.has_invoice(id),
    ensures
        r == env@.invoice(id),
{
    *env.persistent.invoices.get(&id).unwrap()
}

pub fn invoice_exists(env: &Env, id: u64) -> (r: bool)
    ensures
        r == env@.has_invoice(id),
{
    env.persistent.invoices.has(&id)
}

pub fn read_next_invoice_id(env: &Env) -> (r: u64)
    ensures
        r == or_default(env@.instance.next_invoice_id, 1),
{
    env.instance.next_invoice_id.unwrap_or(1)
}

pub fn write_next_invoice_id(env: &mut Env, id: u64)
    ensures
        final(env)@ == old(env)@.with_instance(
            Instance { next_invoice_id: Some(id), ..old(env)@.instance },
        ),
{
    env.instance.next_invoice_id = Some(id);
}

/// Hands out the next number of a sequence that starts at one.
pub fn next_invoice_id(env: &mut Env) -> (r: Result<u64, ContractError>)
    ensures
        ({
            let current = or_default(old(env)@.instance.next_invoice_id, 1);
            if current == u64::MAX {
                r == Err::<u64, ContractError>(ContractError::ArithmeticOverflow) && final(env)@
                    == old(env)@
            } else {
                r == Ok::<u64, ContractError>(current) && final(env)@ == old(env)@.with_instance(
                    Instance {
                        next_invoice_id: Some((current + 1) as u64),
                        ..old(env)@.instance
                    },
                )
            }
        }),
{
    let current_id: u64 = read_next_invoice_id(env);
    match current_id.checked_add(1) {
        Some(next_id) => {
            write_next_invoice_id(env, next_id);
            Ok(current_id)
        },
        None => Err(ContractError::ArithmeticOverflow),
    }
}

// ----------------------------------------------------------------
// Funder list
// ----------------------------------------------------------------

/// The funders of an invoice and what each has contributed.
pub fn get_invoice_funders(env: &Env, id: u64) -> (r: Vec<(Address, i128)>)
    ensures
        r@ == env@.funders(id),
{
    match env.persistent.invoice_funders.get(&id) {
        Some(funders) => copied(funders),
        None => Vec::new(),
    }
}

pub fn save_invoice_funders(env: &mut Env, id: u64, funders: &Vec<(Address, i128)>)
    ensures
        final(env)@ == old(env)@.funders_saved(id, funders@),
{
    env.persistent.invoice_funders.set(id, copied(funders));
}

// ----------------------------------------------------------------
// Reputation
// ----------------------------------------------------------------

/// Score of a payer, decayed by share alone: a score that is too low to lose a
/// whole point in a period stays as it is.
pub fn get_payer_score(env: &Env, payer: &Address) -> (r: u32)
    ensures
        r == env@.share_payer_score(*payer),
{
    match env.persistent.payer_scores.get(payer) {
        Some(rep) => {
            let mut score: u32 = rep.score;
            if let Some(decay_config) = get_config(env) {
                let idle: u64 = env.ledger.sequence.saturating_sub(rep.last_activity_ledger) as u64;
                let period: u64 = decay_config.decay_period_ledgers;
                let rate: u32 = decay_config.decay_rate_bps;
                proof {
                    if period > 0 {
                        lemma_whole_periods(idle as int, period as int);
                    }
                }
                if idle >= period && period > 0 && rate > 0 {
                    let periods_passed: u64 = idle / period;
                    let mut decayed_score: u64 = score as u64;
                    let mut i: u64 = 0;
                    while i < periods_passed
                        invariant
                            i <= periods_passed,
                            decayed_score <= score,
                            decayed_score == share_decayed(score as int, rate as int, i as nat),
                        decreases periods_passed - i,
                    {
                        proof {
                            lemma_share_bound(decayed_score as int, rate as int);
                        }
                        let decay_amount: u64 = (decayed_score * rate as u64) / 10_000;
                        decayed_score = decayed_score.saturating_sub(decay_amount);
                        i = i + 1;
                    }
                    score = (if decayed_score > 100 {
                        100
                    } else {
                        decayed_score
                    }) as u32;
                }
            }
            score
        },
        None => 50,
    }
}

pub(crate) proof fn lemma_whole_periods(idle: int, period: int)
    requires
        idle >= 0,
        period > 0,
    ensures
        (idle / period > 0) == (idle >= period),
        idle / period >= 0,
{
    if idle >= period {
        assert(idle / period >= 1) by (nonlinear_arith)
            requires
                idle >= period,
                period > 0,
        ;
    } else {
        assert(idle / period == 0) by (nonlinear_arith)
            requires
                0 <= idle < period,
        ;
    }
}

pub(crate) proof fn lemma_share_bound(score: int, rate: int)
    requires
        0 <= score <= u32::MAX,
        0 <= rate <= u32::MAX,
    ensures
        0 <= score * rate <= u64::MAX,
        score * rate / 10_000 >= 0,
{
    assert(0 <= score * rate <= u32::MAX * u32::MAX) by (nonlinear_arith)
        requires
            0 <= score <= u32::MAX,
            0 <= rate <= u32::MAX,
    ;
}

/// Stores a payer's score, at most 100, as of the present ledger.
pub fn set_payer_score(env: &mut Env, payer: &Address, score: u32)
    ensures
        final(env)@ == old(env)@.payer_scored(*payer, score as int),
{
    let rep: ReputationScore = ReputationScore {
        score: score.min(100),
        last_activity_ledger: env.ledger.sequence,
    };
    env.persistent.payer_scores.set(*payer, rep);
}

/// Score of a liquidity provider; a stranger has the neutral 50.
pub fn get_lp_score(env: &Env, lp: &Address) -> (r: u32)
    ensures
        r == env@.lp_score(*lp),
{
    match env.persistent.lp_scores.get(lp) {
        Some(score) => *score,
        None => 50,
    }
}

/// Stores a liquidity provider's score, at most 100.
pub fn set_lp_score(env: &mut Env, lp: &Address, score: u32)
    ensures
        final(env)@ == old(env)@.lp_scored(*lp, score as int),
{
    env.persistent.lp_scores.set(*lp, score.min(100));
}

// ----------------------------------------------------------------
// Priority queue
// ----------------------------------------------------------------

pub fn get_fund_queue(env: &Env, invoice_id: u64) -> (r: Vec<LpFundRequest>)
    ensures
        r@ == env@.fund_queue(invoice_id),
{
    match env.persistent.fund_queues.get(&invoice_id) {
        Some(queue) => copied(queue),
        None => Vec::new(),
    }
}

pub fn save_fund_queue(env: &mut Env, invoice_id: u64, queue: &Vec<LpFundRequest>)
    ensures
        final(env)@ == old(env)@.with_persistent(
            PersistentView {
                fund_queues: old(env)@.persistent.fund_queues.insert(invoice_id, queue@),
                ..old(env)@.persistent
            },
        ),
{
    env.persistent.fund_queues.set(invoice_id, copied(queue));
}

/// The funder whom the queue has approved for an invoice, if it is resolved.
pub fn get_queue_resolution(env: &Env, invoice_id: u64) -> (r: Option<Address>)
    ensures
        r == env@.queue_resolution(invoice_id),
{
    match env.persistent.queue_resolutions.get(&invoice_id) {
        Some(lp) => Some(*lp),
        None => None,
    }
}

pub fn save_queue_resolution(env: &mut Env, invoice_id: u64, approved_lp: &Address)
    ensures
        final(env)@ == old(env)@.with_persistent(
            PersistentView {
                queue_resolutions: old(env)@.persistent.queue_resolutions.insert(
                    invoice_id,
                    *approved_lp,
                ),
                ..old(env)@.persistent
            },
        ),
{
    env.persistent.queue_resolutions.set(invoice_id, *approved_lp);
}

// ----------------------------------------------------------------
// Appeals
// ----------------------------------------------------------------

pub fn get_appeal(env: &Env, invoice_id: u64) -> (r: Option<AppealRecord>)
    ensures
        r == env@.appeal(invoice_id),
{
    match env.persistent.appeals.get(&invoice_id) {
        Some(record) => Some(*record),
        None => None,
    }
}

pub fn save_appeal(env: &mut Env, invoice_id: u64, record: &AppealRecord)
    ensures
        final(env)@ == old(env)@.with_persistent(
            PersistentView {
                appeals: old(env)@.persistent.appeals.insert(invoice_id, *record),
                ..old(env)@.persistent
            },
        ),
{
    env.persistent.appeals.set(invoice_id, *record);
}

/// Stores the payer's score as it was before the penalty for a default.
pub fn save_pre_default_payer_score(env: &mut Env, invoice_id: u64, score: u32)
    ensures
        final(env)@ == old(env)@.with_persistent(
            PersistentView {
                pre_default_payer_scores: old(env)@.persistent.pre_default_payer_scores.insert(
                    invoice_id,
                    score,
                ),
                ..old(env)@.persistent
            },
        ),
{
    env.persistent.pre_default_payer_scores.set(invoice_id, score);
}

pub fn get_pre_default_payer_score(env: &Env, invoice_id: u64) -> (r: Option<u32>)
    ensures
        r == entry(env@.persistent.pre_default_payer_scores, invoice_id),
{
    match env.persistent.pre_default_payer_scores.get(&invoice_id) {
        Some(score) => Some(*score),
        None => None,
    }
}

// ----------------------------------------------------------------
// Statistics
// ----------------------------------------------------------------

pub fn increment_total_invoices(env: &mut Env)
    requires
        old(env)@.total_invoices() < u64::MAX,
    ensures
        final(env)@ == old(env)@.with_persistent(
            PersistentView {
                total_invoices: Some((old(env)@.total_invoices() + 1) as u64),
                ..old(env)@.persistent
            },
        ),
{
    let current: u64 = env.persistent.total_invoices.unwrap_or(0);
    env.persistent.total_invoices = Some(current + 1);
}

pub fn increment_total_funded(env: &mut Env)
    requires
        old(env)@.total_funded() < u64::MAX,
    ensures
        final(env)@ == old(env)@.with_persistent(
            PersistentView {
                total_funded: Some((old(env)@.total_funded() + 1) as u64),
                ..old(env)@.persistent
            },
        ),
{
    let current: u64 = env.persistent.total_funded.unwrap_or(0);
    env.persistent.total_funded = Some(current + 1);
}

pub fn increment_total_paid(env: &mut Env)
    requires
        old(env)@.total_paid() < u64::MAX,
    ensures
        final(env)@ == old(env)@.with_persistent(
            PersistentView {
                total_paid: Some((old(env)@.total_paid() + 1) as u64),
                ..old(env)@.persistent
            },
        ),
{
    let current: u64 = env.persistent.total_paid.unwrap_or(0);
    env.persistent.total_paid = Some(current + 1);
}

/// The counters after `amount` of `token` was counted under the first of the
/// three tokens that it equals.
pub open spec fn volume_counted(
    p: PersistentView,
    token: Address,
    amount: i128,
    usdc: Address,
    eurc: Address,
    xlm: Address,
) -> PersistentView {
    if token == usdc {
        PersistentView {
            total_volume_usdc: Some((or_default(p.total_volume_usdc, 0) + amount) as i128),
            ..p
        }
    } else if token == eurc {
        PersistentView {
            total_volume_eurc: Some((or_default(p.total_volume_eurc, 0) + amount) as i128),
            ..p
        }
    } else if token == xlm {
        PersistentView {
            total_volume_xlm: Some((or_default(p.total_volume_xlm, 0) + amount) as i128),
            ..p
        }
    } else {
        p
    }
}

/// Adds `amount` to the volume of the token, where the token is one of the three.
pub fn add_volume(
    env: &mut Env,
    token: &Address,
    amount: i128,
    usdc_addr: &Address,
    eurc_addr: &Address,
    xlm_addr: &Address,
)
    requires
        *token == *usdc_addr ==> i128::MIN <= or_default(
            old(env)@.persistent.total_volume_usdc,
            0,
        ) + amount <= i128::MAX,
        *token != *usdc_addr && *token == *eurc_addr ==> i128::MIN <= or_default(
            old(env)@.persistent.total_volume_eurc,
            0,
        ) + amount <= i128::MAX,
        *token != *usdc_addr && *token != *eurc_addr && *token == *xlm_addr ==> i128::MIN
            <= or_default(old(env)@.persistent.total_volume_xlm, 0) + amount <= i128::MAX,
    ensures
        final(env)@ == old(env)@.with_persistent(
            volume_counted(
                old(env)@.persistent,
                *token,
                amount,
                *usdc_addr,
                *eurc_addr,
                *xlm_addr,
            ),
        ),
{
    if *token == *usdc_addr {
        let current: i128 = env.persistent.total_volume_usdc.unwrap_or(0);
        env.persistent.total_volume_usdc = Some(current + amount);
    } else if *token == *eurc_addr {
        let current: i128 = env.persistent.total_volume_eurc.unwrap_or(0);
        env.persistent.total_volume_eurc = Some(current + amount);
    } else if *token == *xlm_addr {
        let current: i128 = env.persistent.total_volume_xlm.unwrap_or(0);
        env.persistent.total_volume_xlm = Some(current + amount);
    }
}

} // verus!
