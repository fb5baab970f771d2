//! Invoices, the records kept about them, and how they are stored.

use crate::host::{Address, Hash32};
use crate::invoice_liquidity::arith::scale;
use crate::invoice_liquidity::env::{Env, Instance, PersistentView};
use crate::invoice_liquidity::model::{
    decayed, entry, normalized_volume, oracle_answers,
    or_default, price_of, volume_added, volume_fits,
};
use crate::invoice_liquidity::storage::{lemma_share_bound, lemma_whole_periods, DataKey};
use crate::list::{holds, take_out, without};
use crate::table::copied;
use vstd::prelude::*;

pub use crate::invoice_liquidity::storage::{
    get_appeal, get_fund_queue, get_invoice_funders, get_lp_score, get_pre_default_payer_score,
    get_queue_resolution, increment_total_funded, increment_total_invoices, increment_total_paid,
    invoice_exists, is_paused, load_invoice, save_appeal, save_fund_queue, save_invoice,
    save_invoice_funders, save_pre_default_payer_score, save_queue_resolution, set_lp_score,
    set_paused, set_payer_score,
};

verus! {

/// Where an invoice stands in its life.
#[derive(Clone, Copy, Debug, PartialEq, Eq, Structural)]
pub enum InvoiceStatus {
    /// Submitted, waiting for a liquidity provider to fund it.
    Pending,
    /// Funded in full; the freelancer has been paid out.
    Funded,
    /// Funded in part by one or more liquidity providers.
    PartiallyFunded,
    /// Settled in full by the payer; the funders have been paid.
    Paid,
    /// Past its due date and still unpaid.
    Defaulted,
    /// The payer has contested the default.
    Appealed,
    /// The payer has disputed the invoice before settlement.
    Disputed,
    /// Past its due date with no funding.
    Expired,
    /// Cancelled before it was funded in full.
    Cancelled,
}

#[derive(Clone, Copy, Debug, PartialEq)]
pub struct Invoice {
    pub id: u64,
    /// Who submitted the invoice and receives the liquidity.
    pub freelancer: Address,
    /// The client who owes the money.
    pub payer: Address,
    /// Token in which the invoice is funded and settled.
    pub token: Address,
    /// Full value in the smallest unit of the token.
    pub amount: i128,
    /// Unix timestamp by which the payer must settle.
    pub due_date: u32,
    /// Basis points: 300 = 3.00%.
    pub discount_rate: u32,
    pub status: InvoiceStatus,
    /// The provider whose contribution completed the funding.
    pub funder: Option<Address>,
    /// Ledger timestamp at which the funding was complete.
    pub funded_at: Option<u32>,
    /// Sum of what was funded so far.
    pub amount_funded: i128,
    /// Sum of what the payer has paid so far.
    pub amount_paid: i128,
    /// Reputation of the freelancer when the invoice was submitted.
    pub submitter_reputation: u32,
}

#[derive(Clone, Copy, Debug, PartialEq)]
pub struct InvoiceParams {
    pub freelancer: Address,
    pub payer: Address,
    pub amount: i128,
    pub due_date: u64,
    pub discount_rate: u32,
    pub token: Address,
}

#[derive(Clone, Copy, Debug, PartialEq)]
pub struct PayerStats {
    pub total_invoices: u64,
    pub paid_on_time: u64,
    pub defaults: u64,
    pub total_volume: i128,
}

impl Default for PayerStats {
    fn default() -> (r: PayerStats)
        ensures
            r == (PayerStats { total_invoices: 0, paid_on_time: 0, defaults: 0, total_volume: 0 }),
    {
        PayerStats { total_invoices: 0, paid_on_time: 0, defaults: 0, total_volume: 0 }
    }
}

/// A score that decays while its owner is idle.
#[derive(Clone, Copy, Debug, PartialEq)]
pub struct ReputationScore {
    pub score: u32,
    pub last_activity_ledger: u32,
}

/// Detailed reputation of an address. An unknown address has a profile of zeros.
#[derive(Clone, Copy, Debug, PartialEq)]
pub struct ReputationProfile {
    pub address: Address,
    pub invoices_submitted: u32,
    pub invoices_paid: u32,
    pub invoices_defaulted: u32,
    pub score: u32,
}

#[derive(Clone, Debug, PartialEq)]
pub struct ContractStats {
    pub total_invoices: u64,
    pub total_funded: u64,
    pub total_paid: u64,
    pub total_volume_usdc: i128,
    pub total_volume_eurc: i128,
    pub total_volume_xlm: i128,
    pub token_volumes: Vec<(Address, i128)>,
    pub total_volume_usd_normalized: i128,
}

impl Default for ContractStats {
    fn default() -> (r: ContractStats)
        ensures
            r.total_invoices == 0,
            r.total_funded == 0,
            r.total_paid == 0,
            r.total_volume_usdc == 0,
            r.total_volume_eurc == 0,
            r.total_volume_xlm == 0,
            r.token_volumes@ == Seq::<(Address, i128)>::empty(),
            r.total_volume_usd_normalized == 0,
    {
        ContractStats {
            total_invoices: 0,
            total_funded: 0,
            total_paid: 0,
            total_volume_usdc: 0,
            total_volume_eurc: 0,
            total_volume_xlm: 0,
            token_volumes: Vec::new(),
            total_volume_usd_normalized: 0,
        }
    }
}

/// Appeal of a default, one per invoice.
#[derive(Clone, Copy, Debug, PartialEq)]
pub struct AppealRecord {
    /// SHA-256 hash of off-chain evidence submitted by the payer.
    pub evidence_hash: Hash32,
    /// Ledger timestamp at which the appeal was filed.
    pub appealed_at: u32,
    /// Payer score just before the default, restored if the appeal is upheld.
    pub pre_default_score: u32,
}

/// Dispute of an invoice, one per invoice.
#[derive(Clone, Copy, Debug, PartialEq)]
pub struct DisputeRecord {
    /// SHA-256 hash of off-chain dispute evidence.
    pub reason_hash: Hash32,
    /// Ledger sequence at which the dispute was filed.
    pub disputed_at: u32,
}

/// One entry of the priority queue of liquidity providers.
#[derive(Clone, Copy, Debug, PartialEq)]
pub struct LpFundRequest {
    pub lp: Address,
    /// Score of the LP at the time of the request, used for ordering.
    pub score: u32,
}

impl View for Invoice {
    type V = Invoice;

    open spec fn view(&self) -> Invoice {
        *self
    }
}

impl View for ReputationScore {
    type V = ReputationScore;

    open spec fn view(&self) -> ReputationScore {
        *self
    }
}

impl View for ReputationProfile {
    type V = ReputationProfile;

    open spec fn view(&self) -> ReputationProfile {
        *self
    }
}

impl View for AppealRecord {
    type V = AppealRecord;

    open spec fn view(&self) -> AppealRecord {
        *self
    }
}

impl View for DisputeRecord {
    type V = DisputeRecord;

    open spec fn view(&self) -> DisputeRecord {
        *self
    }
}

// ----------------------------------------------------------------
// Indexes of invoices
// ----------------------------------------------------------------

pub fn get_submitter_invoices(env: &Env, submitter: &Address) -> (r: Vec<u64>)
    ensures
        r@ == env@.submitter_ids(*submitter),
{
    match env.persistent.submitter_invoices.get(submitter) {
        Some(ids) => copied(ids),
        None => Vec::new(),
    }
}

pub fn add_invoice_to_submitter(env: &mut Env, submitter: &Address, invoice_id: u64)
    ensures
        final(env)@ == old(env)@.submitter_ids_saved(
            *submitter,
            old(env)@.submitter_ids(*submitter).push(invoice_id),
        ),
{
    let mut invoices: Vec<u64> = get_submitter_invoices(env, submitter);
    invoices.push(invoice_id);
    env.persistent.submitter_invoices.set(*submitter, invoices);
    env.extend_ttl(DataKey::SubmitterInvoices(*submitter), 1_000_000, 2_000_000);
}

pub fn remove_invoice_from_submitter(env: &mut Env, submitter: &Address, invoice_id: u64)
    ensures
        final(env)@ == old(env)@.submitter_ids_saved(
            *submitter,
            without(old(env)@.submitter_ids(*submitter), invoice_id),
        ),
{
    let invoices: Vec<u64> = get_submitter_invoices(env, submitter);
    env.persistent.submitter_invoices.set(*submitter, take_out(&invoices, &invoice_id));
    env.extend_ttl(DataKey::SubmitterInvoices(*submitter), 1_000_000, 2_000_000);
}

pub fn get_lp_invoices(env: &Env, lp: &Address) -> (r: Vec<u64>)
    ensures
        r@ == env@.lp_ids(*lp),
{
    match env.persistent.lp_invoices.get(lp) {
        Some(ids) => copied(ids),
        None => Vec::new(),
    }
}

/// Puts an invoice on the list of a liquidity provider. One who funds an invoice
/// in parts has it on the list once.
pub fn add_invoice_to_lp(env: &mut Env, lp: &Address, invoice_id: u64)
    ensures
        final(env)@ == old(env)@.lp_id_added(*lp, invoice_id),
{
    let mut invoices: Vec<u64> = get_lp_invoices(env, lp);
    if !holds(&invoices, &invoice_id) {
        invoices.push(invoice_id);
        env.persistent.lp_invoices.set(*lp, invoices);
        env.extend_ttl(DataKey::LpInvoices(*lp), 1_000_000, 2_000_000);
    }
}

/// Loads an invoice in one read, if it exists.
pub fn try_load_invoice(env: &Env, id: u64) -> (r: Option<Invoice>)
    ensures
        r == entry(env@.persistent.invoices, id),
{
    match env.persistent.invoices.get(&id) {
        Some(invoice) => Some(*invoice),
        None => None,
    }
}

/// Gives out the number after the highest one given out so far.
pub fn next_invoice_id(env: &mut Env) -> (r: u64)
    requires
        old(env)@.invoice_count() < u64::MAX,
    ensures
        r == old(env)@.invoice_count() + 1,
        final(env)@ == old(env)@.numbered(),
{
    let current: u64 = env.persistent.invoice_count.unwrap_or(0);
    let next: u64 = current + 1;
    env.persistent.invoice_count = Some(next);
    env.extend_ttl(DataKey::InvoiceCount, 1_000_000, 2_000_000);
    next
}

// ----------------------------------------------------------------
// Reputation
// ----------------------------------------------------------------

/// Score of a payer, 0 to 100; a stranger has the neutral 50. A score loses
/// `decay_rate_bps` basis points, and at least one point, for every whole period
/// of idleness.
pub fn get_payer_score(env: &Env, payer: &Address) -> (r: u32)
    ensures
        r == env@.payer_score(*payer),
{
    match env.persistent.payer_scores.get(payer) {
        Some(rep) => {
            let mut score: u32 = rep.score;
            if let Some(decay_config) = env.instance.config {
                let idle: u64 = env.ledger.sequence.saturating_sub(rep.last_activity_ledger) as u64;
                let period: u64 = decay_config.decay_period_ledgers;
                let rate: u32 = decay_config.decay_rate_bps;
                proof {
                    if period > 0 {
                        lemma_whole_periods(idle as int, period as int);
                    }
                }
                if idle >= period && period > 0 && rate > 0 {
                    let periods_passed: u64 = idle / period;
                    let mut decayed_score: u64 = score as u64;
                    let mut i: u64 = 0;
                    while i < periods_passed
                        invariant
                            i <= periods_passed,
                            decayed_score <= score,
                            decayed_score == decayed(score as int, rate as int, i as nat),
                        decreases periods_passed - i,
                    {
                        proof {
                            lemma_share_bound(decayed_score as int, rate as int);
                        }
                        let mut decay_amount: u64 = (decayed_score * rate as u64) / 10_000;
                        if decay_amount == 0 && decayed_score > 0 {
                            decay_amount = 1;
                        }
                        decayed_score = decayed_score.saturating_sub(decay_amount);
                        i = i + 1;
                    }
                    score = (if decayed_score > 100 {
                        100
                    } else {
                        decayed_score
                    }) as u32;
                }
            }
            score
        },
        None => 50,
    }
}

/// Detailed reputation of an address; zeros for an unknown one.
pub fn get_reputation(env: &Env, address: &Address) -> (r: ReputationProfile)
    ensures
        r == env@.reputation(*address),
{
    match env.persistent.reputations.get(address) {
        Some(profile) => *profile,
        None => ReputationProfile {
            address: *address,
            invoices_submitted: 0,
            invoices_paid: 0,
            invoices_defaulted: 0,
            score: 0,
        },
    }
}

/// Stores a profile under its address.
pub fn set_reputation(env: &mut Env, profile: &ReputationProfile)
    ensures
        final(env)@ == old(env)@.with_persistent(
            PersistentView {
                reputations: old(env)@.persistent.reputations.insert(profile.address, *profile),
                ..old(env)@.persistent
            },
        ).kept_alive(DataKey::Reputation(profile.address)),
{
    env.persistent.reputations.set(profile.address, *profile);
    env.extend_ttl(DataKey::Reputation(profile.address), 1_000_000, 2_000_000);
}

/// Lowest payer score at which an invoice can be funded; zero lets everyone in.
pub fn get_min_payer_reputation(env: &Env) -> (r: u32)
    ensures
        r == env@.min_payer_reputation(),
{
    env.instance.min_payer_reputation.unwrap_or(0)
}

pub fn set_min_payer_reputation(env: &mut Env, value: u32)
    ensures
        final(env)@ == old(env)@.with_instance(
            Instance { min_payer_reputation: Some(value), ..old(env)@.instance },
        ),
{
    env.instance.min_payer_reputation = Some(value);
}

// ----------------------------------------------------------------
// Disputes
// ----------------------------------------------------------------

pub fn get_dispute(env: &Env, invoice_id: u64) -> (r: Option<DisputeRecord>)
    ensures
        r == env@.dispute(invoice_id),
{
    match env.persistent.disputes.get(&invoice_id) {
        Some(record) => Some(*record),
        None => None,
    }
}

pub fn save_dispute(env: &mut Env, invoice_id: u64, record: &DisputeRecord)
    ensures
        final(env)@ == old(env)@.with_persistent(
            PersistentView {
                disputes: old(env)@.persistent.disputes.insert(invoice_id, *record),
                ..old(env)@.persistent
            },
        ),
{
    env.persistent.disputes.set(invoice_id, *record);
}

// ----------------------------------------------------------------
// Statistics
// ----------------------------------------------------------------

/// The tokens on the allowlist, in the order in which they were added.
pub(crate) fn get_token_list(env: &Env) -> (r: Vec<Address>)
    ensures
        r@ == env@.token_list(),
{
    match &env.persistent.token_list {
        Some(list) => copied(list),
        None => Vec::new(),
    }
}

/// Volume counted for a token.
pub(crate) fn get_token_volume(env: &Env, token: &Address) -> (r: i128)
    ensures
        r == env@.token_volume(*token),
{
    match env.persistent.token_volumes.get(token) {
        Some(volume) => *volume,
        None => 0,
    }
}

/// Counters, the volume of every listed token, and the sum of those volumes in
/// dollars at the prices of the oracle. A volume that would overflow the sum is
/// left out of it.
pub fn get_contract_stats(env: &Env) -> (r: ContractStats)
    requires
        oracle_answers(env@),
    ensures
        r.total_invoices == env@.total_invoices(),
        r.total_funded == env@.total_funded(),
        r.total_paid == env@.total_paid(),
        r.total_volume_usdc == or_default(env@.persistent.total_volume_usdc, 0),
        r.total_volume_eurc == or_default(env@.persistent.total_volume_eurc, 0),
        r.total_volume_xlm == or_default(env@.persistent.total_volume_xlm, 0),
        r.token_volumes@ == Seq::new(
            env@.token_list().len(),
            |i: int| (env@.token_list()[i], env@.token_volume(env@.token_list()[i])),
        ),
        r.total_volume_usd_normalized == normalized_volume(env@, env@.token_list()),
{
    let token_list: Vec<Address> = get_token_list(env);
    let mut token_volumes: Vec<(Address, i128)> = Vec::new();
    let mut total: i128 = 0;
    let mut i: usize = 0;
    while i < token_list.len()
        invariant
            i <= token_list@.len(),
            token_list@ == env@.token_list(),
            oracle_answers(env@),
            token_volumes@.len() == i,
            forall|j: int|
                0 <= j < i ==> #[trigger] token_volumes@[j] == (
                    token_list@[j],
                    env@.token_volume(token_list@[j]),
                ),
            total == normalized_volume(env@, token_list@.take(i as int)),
        decreases token_list@.len() - i,
    {
        let token: Address = token_list[i];
        let volume: i128 = get_token_volume(env, &token);
        token_volumes.push((token, volume));
        if let Some(price_bps) = get_price_from_oracle(env, &token) {
            let value: i128 = scale(volume, price_bps);
            total = total.checked_add(value).unwrap_or(total);
        }
        i = i + 1;
        assert(token_list@.take(i as int).drop_last() =~= token_list@.take(i - 1));
    }
    assert(token_list@.take(i as int) =~= token_list@);
    ContractStats {
        total_invoices: env.persistent.total_invoices.unwrap_or(0),
        total_funded: env.persistent.total_funded.unwrap_or(0),
        total_paid: env.persistent.total_paid.unwrap_or(0),
        total_volume_usdc: env.persistent.total_volume_usdc.unwrap_or(0),
        total_volume_eurc: env.persistent.total_volume_eurc.unwrap_or(0),
        total_volume_xlm: env.persistent.total_volume_xlm.unwrap_or(0),
        token_volumes,
        total_volume_usd_normalized: total,
    }
}

/// Price of a listed token in basis points of a dollar, where an oracle is set.
fn get_price_from_oracle(env: &Env, token: &Address) -> (r: Option<i128>)
    requires
        oracle_answers(env@),
        env@.token_list().contains(*token),
    ensures
        r == price_of(env@, *token),
{
    match env.instance.config {
        Some(config) => match config.price_oracle {
            Some(_) => match env.oracle_prices.get(token) {
                Some(price) => Some(*price),
                None => None,
            },
            None => None,
        },
        None => None,
    }
}

/// Counts `amount` for the token, and in the totals by asset: the first listed
/// token is USDC; the second is EURC, or XLM if it is the wrapped native asset; the
/// third is XLM.
pub fn add_volume(env: &mut Env, token: &Address, amount: i128)
    requires
        volume_fits(old(env)@, *token, amount as int),
    ensures
        final(env)@ == volume_added(old(env)@, *token, amount as int),
{
    let current_per_token: i128 = get_token_volume(env, token);
    env.persistent.token_volumes.set(*token, current_per_token + amount);
    let token_list: Vec<Address> = get_token_list(env);
    let native: bool = match env.instance.config {
        Some(config) => *token == config.xlm_sac_address,
        None => false,
    };
    if token_list.len() > 0 && *token == token_list[0] {
        let current: i128 = env.persistent.total_volume_usdc.unwrap_or(0);
        env.persistent.total_volume_usdc = Some(current + amount);
    }
    let second: bool = token_list.len() > 1 && *token == token_list[1];
    if second && !native {
        let current: i128 = env.persistent.total_volume_eurc.unwrap_or(0);
        env.persistent.total_volume_eurc = Some(current + amount);
    }
    if (second && native) || (token_list.len() > 2 && *token == token_list[2]) {
        let current: i128 = env.persistent.total_volume_xlm.unwrap_or(0);
        env.persistent.total_volume_xlm = Some(current + amount);
    }
}

} // verus!
