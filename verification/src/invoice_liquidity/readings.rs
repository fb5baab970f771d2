//! What can be read of the contract, and what single entries are written as, said of the
//! operations themselves.

use crate::host::{Address, LedgerInfo};
use crate::invoice_liquidity::behaviour::lemma_longer_decay;
use crate::invoice_liquidity::config::Config;
use crate::invoice_liquidity::contract::{
    discount_rate_as_i128, is_approved_token, is_xlm_token, normalize_usdc_amount,
    normalize_xlm_amount, notify_distribution_funding, notify_distribution_settlement,
    InvoiceLiquidityContract,
};
use crate::invoice_liquidity::env::{Env, EnvView, HostCall, Instance, PersistentView};
use crate::invoice_liquidity::errors::ContractError;
use crate::invoice_liquidity::events::{Event, ParamName};
use crate::invoice_liquidity::flows::{basis_points, lemma_basis_points};
use crate::invoice_liquidity::invoice;
use crate::invoice_liquidity::invoice::{
    AppealRecord, ContractStats, DisputeRecord, Invoice, InvoiceStatus, LpFundRequest,
    ReputationProfile, ReputationScore,
};
use crate::invoice_liquidity::model::{
    decay_periods, decayed, normalized_volume, share_decayed, volume_fits,
};
use crate::invoice_liquidity::storage;
use crate::invoice_liquidity::storage::DataKey;
use crate::invoice_liquidity::submission::validate_invoice_terms;
use crate::list::{law_without_keeps_the_order, other_than};
use vstd::prelude::*;

verus! {

// ----------------------------------------------------------------
// Scores
// ----------------------------------------------------------------

/// The score of a payer: 50 for a stranger, and the score that was stored last as long as
/// decay is off or less than a period has passed since. Both readings agree on that.
pub proof fn law_payer_score(env: &Env, payer: Address, r: u32, shared: u32)
    requires
        call_ensures(InvoiceLiquidityContract::payer_score, (env, payer), r),
        call_ensures(storage::get_payer_score, (env, &payer), shared),
    ensures
        ({
            let s = env@;
            let rep = s.persistent.payer_scores[payer];
            let config = s.instance.config->0;
            &&& !s.persistent.payer_scores.contains_key(payer) ==> r == 50 && shared == 50
            &&& s.persistent.payer_scores.contains_key(payer) && (s.instance.config is None
                || config.decay_rate_bps == 0 || config.decay_period_ledgers == 0
                || s.ledger.sequence < rep.last_activity_ledger + config.decay_period_ledgers) ==> r
                == rep.score && shared == rep.score
        }),
{
    let s = env@;
    if s.persistent.payer_scores.contains_key(payer) && s.instance.config is Some {
        let rep = s.persistent.payer_scores[payer];
        let config = s.instance.config->0;
        let period = config.decay_period_ledgers as int;
        if period > 0 && s.ledger.sequence < rep.last_activity_ledger + period {
            let idle = if s.ledger.sequence > rep.last_activity_ledger {
                s.ledger.sequence - rep.last_activity_ledger
            } else {
                0
            };
            assert(idle / period == 0) by (nonlinear_arith)
                requires
                    0 <= idle < period,
            ;
        }
    }
}

/// Every period of idleness costs a payer the configured share of their score, and at
/// least a point while there is one; read by share alone, it costs the share.
pub proof fn law_every_idle_period_costs(
    now: &Env,
    later: &Env,
    payer: Address,
    a: u32,
    b: u32,
    shared_a: u32,
    shared_b: u32,
)
    requires
        call_ensures(InvoiceLiquidityContract::payer_score, (now, payer), a),
        call_ensures(InvoiceLiquidityContract::payer_score, (later, payer), b),
        call_ensures(storage::get_payer_score, (now, &payer), shared_a),
        call_ensures(storage::get_payer_score, (later, &payer), shared_b),
        now@.persistent.payer_scores.contains_key(payer),
        now@.persistent.payer_scores[payer].score <= 100,
        now@.persistent.payer_scores[payer].last_activity_ledger <= now@.ledger.sequence,
        now@.instance.config is Some,
        now@.instance.config->0.decay_rate_bps > 0,
        now@.instance.config->0.decay_period_ledgers > 0,
        later@ == (EnvView { ledger: later@.ledger, ..now@ }),
        later@.ledger.sequence == now@.ledger.sequence
            + now@.instance.config->0.decay_period_ledgers,
    ensures
        ({
            let rate = now@.instance.config->0.decay_rate_bps;
            let share = a as int * rate as int / 10_000;
            let loss = if share == 0 && a > 0 {
                1
            } else {
                share
            };
            b == (if loss >= a {
                0
            } else {
                a - loss
            })
        }),
        ({
            let rate = now@.instance.config->0.decay_rate_bps;
            let share = shared_a as int * rate as int / 10_000;
            shared_b == (if share >= shared_a {
                0
            } else {
                shared_a - share
            })
        }),
{
    let s = now@;
    let rep = s.persistent.payer_scores[payer];
    let rate = s.instance.config->0.decay_rate_bps as int;
    let period = s.instance.config->0.decay_period_ledgers as int;
    let idle = s.ledger.sequence - rep.last_activity_ledger;
    let k = decay_periods(s.instance.config, s.ledger.sequence, rep.last_activity_ledger);
    assert((idle + period) / period == idle / period + 1 && idle / period >= 0)
        by (nonlinear_arith)
        requires
            period > 0,
            idle >= 0,
    ;
    assert(decay_periods(s.instance.config, later@.ledger.sequence, rep.last_activity_ledger) == k
        + 1);
    lemma_longer_decay(rep.score as int, rate, 0, k);
    lemma_longer_decay(rep.score as int, rate, k, k + 1);
    assert(decayed(rep.score as int, rate, 0) == rep.score);
    assert(share_decayed(rep.score as int, rate, 0) == rep.score);
}

/// A score is stored as it is, at most a hundred; that of a payer as of the present
/// ledger.
pub proof fn law_scores_are_stored(p: &mut Env, l: &mut Env, who: &Address, score: u32)
    requires
        call_ensures(storage::set_payer_score, (p, who, score), ()),
        call_ensures(storage::set_lp_score, (l, who, score), ()),
    ensures
        ({
            let s = old(p)@;
            final(p)@ == (EnvView {
                persistent: PersistentView {
                    payer_scores: s.persistent.payer_scores.insert(
                        *who,
                        ReputationScore {
                            score: if score < 100 {
                                score
                            } else {
                                100
                            },
                            last_activity_ledger: s.ledger.sequence,
                        },
                    ),
                    ..s.persistent
                },
                ..s
            })
        }),
        ({
            let s = old(l)@;
            final(l)@ == (EnvView {
                persistent: PersistentView {
                    lp_scores: s.persistent.lp_scores.insert(
                        *who,
                        if score < 100 {
                            score
                        } else {
                            100
                        },
                    ),
                    ..s.persistent
                },
                ..s
            })
        }),
{
}

/// A profile is stored under its address, and read from there; of an address without one
/// everything is zero.
pub proof fn law_reputation_is_read_as_stored(
    w: &mut Env,
    profile: &ReputationProfile,
    env: &Env,
    who: Address,
    r: ReputationProfile,
)
    requires
        call_ensures(invoice::set_reputation, (w, profile), ()),
        call_ensures(InvoiceLiquidityContract::get_reputation, (env, who), r),
    ensures
        final(w)@ == (EnvView {
            persistent: PersistentView {
                reputations: old(w)@.persistent.reputations.insert(profile.address, *profile),
                ..old(w)@.persistent
            },
            calls: old(w)@.calls.push(
                HostCall::ExtendTtl {
                    key: DataKey::Reputation(profile.address),
                    threshold: 1_000_000,
                    extend_to: 2_000_000,
                },
            ),
            ..old(w)@
        }),
        r == (if env@.persistent.reputations.contains_key(who) {
            env@.persistent.reputations[who]
        } else {
            ReputationProfile {
                address: who,
                invoices_submitted: 0,
                invoices_paid: 0,
                invoices_defaulted: 0,
                score: 0,
            }
        }),
{
}

/// The discount suggested for a payer is ten percent for a score of nothing, and five
/// basis points less for every point, down to five percent.
pub proof fn law_suggested_discount_rate(env: &Env, payer: Address, r: u32, score: u32)
    requires
        call_ensures(InvoiceLiquidityContract::suggested_discount_rate, (env, payer), r),
        call_ensures(InvoiceLiquidityContract::payer_score, (env, payer), score),
    ensures
        r == (if score < 100 {
            1000 - 5 * score
        } else {
            500
        }),
{
}

// ----------------------------------------------------------------
// Views
// ----------------------------------------------------------------

/// What the views answer: entries as they are stored, and the neutral value or an error
/// where there is none.
pub proof fn law_what_can_be_read(
    env: &Env,
    id: u64,
    who: Address,
    found: Result<Invoice, ContractError>,
    count: u64,
    parameters: Result<Config, ContractError>,
    score: u32,
    floor: u32,
)
    requires
        call_ensures(InvoiceLiquidityContract::get_invoice, (env, id), found),
        call_ensures(InvoiceLiquidityContract::get_invoice_count, (env,), count),
        call_ensures(InvoiceLiquidityContract::get_config, (env,), parameters),
        call_ensures(InvoiceLiquidityContract::lp_score, (env, who), score),
        call_ensures(InvoiceLiquidityContract::min_payer_reputation, (env,), floor),
    ensures
        found == (if env@.persistent.invoices.contains_key(id) {
            Ok::<Invoice, ContractError>(env@.persistent.invoices[id])
        } else {
            Err(ContractError::InvoiceNotFound)
        }),
        count == (match env@.persistent.invoice_count {
            Some(n) => n,
            None => 0,
        }),
        parameters == (match env@.instance.config {
            Some(config) => Ok::<Config, ContractError>(config),
            None => Err(ContractError::Unauthorized),
        }),
        score == (if env@.persistent.lp_scores.contains_key(who) {
            env@.persistent.lp_scores[who]
        } else {
            50
        }),
        floor == (match env@.instance.min_payer_reputation {
            Some(n) => n,
            None => 0,
        }),
{
}

/// What a page of a list holds: as many invoices as were asked for, at most fifty, from
/// the place where the pages before it end, or as many as are left; in the order of the
/// list.
pub open spec fn is_page(
    s: EnvView,
    ids: Seq<u64>,
    page: int,
    page_size: int,
    r: Seq<Invoice>,
) -> bool {
    let size = if page_size < 50 {
        page_size
    } else {
        50
    };
    let start = page * size;
    &&& r.len() == (if start >= ids.len() {
        0
    } else if ids.len() - start < size {
        ids.len() - start
    } else {
        size
    })
    &&& forall|i: int|
        0 <= i < r.len() ==> #[trigger] r[i] == s.persistent.invoices[ids[start + i]]
}

/// The lists of invoices of a freelancer and of a provider are read page by page.
pub proof fn law_lists_are_read_by_page(
    env: &Env,
    who: Address,
    page: u32,
    page_size: u32,
    submitted: Vec<Invoice>,
    funded: Vec<Invoice>,
)
    requires
        call_ensures(
            InvoiceLiquidityContract::list_invoices_by_submitter,
            (env, who, page, page_size),
            submitted,
        ),
        call_ensures(
            InvoiceLiquidityContract::list_invoices_by_lp,
            (env, who, page, page_size),
            funded,
        ),
    ensures
        is_page(
            env@,
            env@.submitter_ids(who),
            page as int,
            page_size as int,
            submitted@,
        ),
        is_page(env@, env@.lp_ids(who), page as int, page_size as int, funded@),
{
    let size = if page_size < 50 {
        page_size as int
    } else {
        50
    };
    assert(page * size >= 0) by (nonlinear_arith)
        requires
            page >= 0,
            size >= 0,
    ;
}

/// The counters and the volumes are read as they are stored; the volumes of the listed
/// tokens come in the order of the list.
pub proof fn law_stats_are_read_as_stored(env: &Env, r: ContractStats)
    requires
        call_ensures(InvoiceLiquidityContract::get_contract_stats, (env,), r),
    ensures
        ({
            let q = env@.persistent;
            let sum = |n: Option<i128>|
                match n {
                    Some(n) => n,
                    None => 0,
                };
            &&& r.total_invoices == env@.total_invoices()
            &&& r.total_funded == env@.total_funded()
            &&& r.total_paid == env@.total_paid()
            &&& r.total_volume_usdc == sum(q.total_volume_usdc)
            &&& r.total_volume_eurc == sum(q.total_volume_eurc)
            &&& r.total_volume_xlm == sum(q.total_volume_xlm)
            &&& r.token_volumes@.len() == env@.token_list().len()
            &&& forall|i: int|
                0 <= i < env@.token_list().len() ==> #[trigger] r.token_volumes@[i] == (
                    env@.token_list()[i],
                    env@.token_volume(env@.token_list()[i]),
                )
            &&& env@.token_list().len() == 0 || env@.instance.config is None
                || env@.instance.config->0.price_oracle is None ==> r.total_volume_usd_normalized
                == 0
        }),
{
    let config = env@.instance.config;
    if env@.token_list().len() == 0 || config is None || config->0.price_oracle is None {
        lemma_no_prices(env@, env@.token_list());
    }
}

proof fn lemma_no_prices(s: EnvView, tokens: Seq<Address>)
    requires
        tokens.len() == 0 || s.instance.config is None || s.instance.config->0.price_oracle is None,
    ensures
        normalized_volume(s, tokens) == 0,
    decreases tokens.len(),
{
    if tokens.len() > 0 {
        lemma_no_prices(s, tokens.drop_last());
    }
}

proof fn lemma_same_volume(s: EnvView, t: EnvView, tokens: Seq<Address>)
    requires
        s.instance == t.instance,
        s.oracle_prices == t.oracle_prices,
        s.persistent.token_volumes == t.persistent.token_volumes,
    ensures
        normalized_volume(s, tokens) == normalized_volume(t, tokens),
    decreases tokens.len(),
{
    if tokens.len() > 0 {
        lemma_same_volume(s, t, tokens.drop_last());
    }
}

/// A token that is listed last adds its volume at the price of the oracle to the sum in
/// dollars, if the sum can hold it, and nothing if not.
pub proof fn law_a_token_adds_its_dollars(
    without: &Env,
    with: &Env,
    token: Address,
    a: ContractStats,
    b: ContractStats,
)
    requires
        call_ensures(InvoiceLiquidityContract::get_contract_stats, (without,), a),
        call_ensures(InvoiceLiquidityContract::get_contract_stats, (with,), b),
        without@.instance.config is Some,
        without@.instance.config->0.price_oracle is Some,
        with@ == (EnvView {
            persistent: PersistentView {
                token_list: Some(without@.token_list().push(token)),
                ..without@.persistent
            },
            ..without@
        }),
    ensures
        ({
            let value = basis_points(
                without@.token_volume(token) as int,
                without@.oracle_prices[token] as int,
            );
            let sum = a.total_volume_usd_normalized + value;
            b.total_volume_usd_normalized == (if i128::MIN <= sum <= i128::MAX {
                sum
            } else {
                a.total_volume_usd_normalized as int
            })
        }),
{
    let tokens = without@.token_list();
    assert(tokens.push(token).drop_last() =~= tokens);
    lemma_same_volume(without@, with@, tokens);
    lemma_basis_points(
        without@.token_volume(token) as int,
        without@.oracle_prices[token] as int,
    );
    assert(with@.token_volume(token) == without@.token_volume(token));
}

// ----------------------------------------------------------------
// Volumes and numbers
// ----------------------------------------------------------------

/// Volume counts for its token, and in the totals by asset: under USDC for the first
/// listed token, under EURC for the second unless it is the wrapped native asset, under
/// XLM for the second if it is and for the third. Nothing else changes.
pub proof fn law_volume_is_counted(env: &mut Env, token: &Address, amount: i128)
    requires
        call_ensures(invoice::add_volume, (env, token, amount), ()),
    ensures
        ({
            let s = old(env)@;
            let q = s.persistent;
            let tokens = s.token_list();
            let config = s.instance.config;
            let native = config is Some && config->0.xlm_sac_address == *token;
            let plus = |sum: Option<i128>|
                Some(
                    ((match sum {
                        Some(n) => n,
                        None => 0,
                    }) + amount) as i128,
                );
            final(env)@ == (EnvView {
                persistent: PersistentView {
                    token_volumes: q.token_volumes.insert(
                        *token,
                        ((if q.token_volumes.contains_key(*token) {
                            q.token_volumes[*token]
                        } else {
                            0
                        }) + amount) as i128,
                    ),
                    total_volume_usdc: if tokens.len() > 0 && *token == tokens[0] {
                        plus(q.total_volume_usdc)
                    } else {
                        q.total_volume_usdc
                    },
                    total_volume_eurc: if tokens.len() > 1 && *token == tokens[1] && !native {
                        plus(q.total_volume_eurc)
                    } else {
                        q.total_volume_eurc
                    },
                    total_volume_xlm: if (tokens.len() > 1 && *token == tokens[1] && native) || (
                    tokens.len() > 2 && *token == tokens[2]) {
                        plus(q.total_volume_xlm)
                    } else {
                        q.total_volume_xlm
                    },
                    ..q
                },
                ..s
            })
        }),
{
}

/// Volume can be counted as long as every total can hold it.
pub proof fn law_volume_can_be_counted(s: EnvView, token: Address, amount: int)
    requires
        i128::MIN <= s.token_volume(token) + amount <= i128::MAX,
        s.persistent.total_volume_usdc is None || i128::MIN <= s.persistent.total_volume_usdc->0
            + amount <= i128::MAX,
        s.persistent.total_volume_eurc is None || i128::MIN <= s.persistent.total_volume_eurc->0
            + amount <= i128::MAX,
        s.persistent.total_volume_xlm is None || i128::MIN <= s.persistent.total_volume_xlm->0
            + amount <= i128::MAX,
        i128::MIN <= amount <= i128::MAX,
    ensures
        volume_fits(s, token, amount),
{
}

/// Volume by three given tokens counts under the first of them that it is of, and
/// nowhere if it is of none.
pub proof fn law_volume_is_counted_by_token(
    env: &mut Env,
    token: &Address,
    amount: i128,
    usdc: &Address,
    eurc: &Address,
    xlm: &Address,
)
    requires
        call_ensures(storage::add_volume, (env, token, amount, usdc, eurc, xlm), ()),
    ensures
        ({
            let s = old(env)@;
            let q = s.persistent;
            let plus = |sum: Option<i128>|
                Some(
                    ((match sum {
                        Some(n) => n,
                        None => 0,
                    }) + amount) as i128,
                );
            final(env)@ == (EnvView {
                persistent: PersistentView {
                    total_volume_usdc: if *token == *usdc {
                        plus(q.total_volume_usdc)
                    } else {
                        q.total_volume_usdc
                    },
                    total_volume_eurc: if *token != *usdc && *token == *eurc {
                        plus(q.total_volume_eurc)
                    } else {
                        q.total_volume_eurc
                    },
                    total_volume_xlm: if *token != *usdc && *token != *eurc && *token == *xlm {
                        plus(q.total_volume_xlm)
                    } else {
                        q.total_volume_xlm
                    },
                    ..q
                },
                ..s
            })
        }),
{
}

/// Invoice numbers count up from one; the number that was given out is the highest so
/// far.
pub proof fn law_numbers_count_up(env: &mut Env, r: u64)
    requires
        call_ensures(invoice::next_invoice_id, (env,), r),
    ensures
        r == (match old(env)@.persistent.invoice_count {
            Some(n) => n,
            None => 0,
        }) + 1,
        final(env)@ == (EnvView {
            persistent: PersistentView { invoice_count: Some(r), ..old(env)@.persistent },
            calls: old(env)@.calls.push(
                HostCall::ExtendTtl {
                    key: DataKey::InvoiceCount,
                    threshold: 1_000_000,
                    extend_to: 2_000_000,
                },
            ),
            ..old(env)@
        }),
{
}

/// The numbers of the instance count up from one as well, each given out once, until
/// there is no next one.
pub proof fn law_instance_numbers_count_up(env: &mut Env, r: Result<u64, ContractError>)
    requires
        call_ensures(storage::next_invoice_id, (env,), r),
    ensures
        ({
            let s = old(env)@;
            let n = match s.instance.next_invoice_id {
                Some(n) => n,
                None => 1,
            };
            if n == u64::MAX {
                r == Err::<u64, ContractError>(ContractError::ArithmeticOverflow) && final(env)@
                    == s
            } else {
                &&& r == Ok::<u64, ContractError>(n)
                &&& final(env)@ == (EnvView {
                    instance: Instance { next_invoice_id: Some((n + 1) as u64), ..s.instance },
                    ..s
                })
            }
        }),
{
}

/// An invoice goes on the list of a freelancer last, comes off it without a trace, and is
/// on the list of a provider once.
pub proof fn law_lists_are_kept(
    a: &mut Env,
    b: &mut Env,
    c: &mut Env,
    who: &Address,
    id: u64,
)
    requires
        call_ensures(invoice::add_invoice_to_submitter, (a, who, id), ()),
        call_ensures(invoice::remove_invoice_from_submitter, (b, who, id), ()),
        call_ensures(invoice::add_invoice_to_lp, (c, who, id), ()),
    ensures
        final(a)@.persistent == (PersistentView {
            submitter_invoices: old(a)@.persistent.submitter_invoices.insert(
                *who,
                old(a)@.submitter_ids(*who).push(id),
            ),
            ..old(a)@.persistent
        }),
        final(b)@.persistent == (PersistentView {
            submitter_invoices: old(b)@.persistent.submitter_invoices.insert(
                *who,
                old(b)@.submitter_ids(*who).filter(other_than(id)),
            ),
            ..old(b)@.persistent
        }),
        final(c)@.persistent == (if old(c)@.lp_ids(*who).contains(id) {
            old(c)@.persistent
        } else {
            PersistentView {
                lp_invoices: old(c)@.persistent.lp_invoices.insert(
                    *who,
                    old(c)@.lp_ids(*who).push(id),
                ),
                ..old(c)@.persistent
            }
        }),
{
    law_without_keeps_the_order(old(b)@.submitter_ids(*who), id);
}

// ----------------------------------------------------------------
// Entries
// ----------------------------------------------------------------

/// An invoice is written under its number and read back from there; every other invoice
/// stays as it was.
pub proof fn law_invoices_are_read_back(
    w: &mut Env,
    invoice: &Invoice,
    env: &Env,
    id: u64,
    read: Option<Invoice>,
    there: bool,
)
    requires
        call_ensures(storage::save_invoice, (w, invoice), ()),
        env@ == final(w)@,
        call_ensures(invoice::try_load_invoice, (env, id), read),
        call_ensures(storage::invoice_exists, (env, id), there),
    ensures
        id == invoice.id ==> read == Some(*invoice),
        id != invoice.id ==> read == (if old(w)@.persistent.invoices.contains_key(id) {
            Some(old(w)@.persistent.invoices[id])
        } else {
            None
        }),
        there <==> read is Some,
        final(w)@.instance == old(w)@.instance,
        final(w)@.persistent == (PersistentView {
            invoices: final(w)@.persistent.invoices,
            ..old(w)@.persistent
        }),
        final(w)@.calls == old(w)@.calls.push(
            HostCall::ExtendTtl {
                key: DataKey::Invoice(invoice.id),
                threshold: 1_000_000,
                extend_to: 2_000_000,
            },
        ),
{
}

/// The list of funders of an invoice is read back as it was written; every other list
/// stays as it was, and one that was never written is empty.
pub proof fn law_funders_are_read_back(
    w: &mut Env,
    id: u64,
    funders: &Vec<(Address, i128)>,
    env: &Env,
    other: u64,
    read: Vec<(Address, i128)>,
)
    requires
        call_ensures(storage::save_invoice_funders, (w, id, funders), ()),
        env@ == final(w)@,
        call_ensures(storage::get_invoice_funders, (env, other), read),
    ensures
        other == id ==> read@ == funders@,
        other != id ==> read@ == (if old(w)@.persistent.invoice_funders.contains_key(other) {
            old(w)@.persistent.invoice_funders[other]
        } else {
            Seq::empty()
        }),
        final(w)@ == (EnvView {
            persistent: PersistentView {
                invoice_funders: final(w)@.persistent.invoice_funders,
                ..old(w)@.persistent
            },
            ..old(w)@
        }),
{
}

/// The queue of an invoice, and who has won it, are read back as they were written.
pub proof fn law_queues_are_read_back(
    w: &mut Env,
    x: &mut Env,
    id: u64,
    queue: &Vec<LpFundRequest>,
    winner: &Address,
    env: &Env,
    won: &Env,
    read: Vec<LpFundRequest>,
    by: Option<Address>,
)
    requires
        call_ensures(storage::save_fund_queue, (w, id, queue), ()),
        call_ensures(storage::save_queue_resolution, (x, id, winner), ()),
        env@ == final(w)@,
        won@ == final(x)@,
        call_ensures(storage::get_fund_queue, (env, id), read),
        call_ensures(storage::get_queue_resolution, (won, id), by),
    ensures
        read@ == queue@,
        by == Some(*winner),
        final(w)@ == (EnvView {
            persistent: PersistentView {
                fund_queues: old(w)@.persistent.fund_queues.insert(id, queue@),
                ..old(w)@.persistent
            },
            ..old(w)@
        }),
        final(x)@ == (EnvView {
            persistent: PersistentView {
                queue_resolutions: old(x)@.persistent.queue_resolutions.insert(id, *winner),
                ..old(x)@.persistent
            },
            ..old(x)@
        }),
{
}

/// The appeal and the dispute of an invoice, and the score from before a default, are read
/// back as they were written.
pub proof fn law_claims_are_read_back(
    w: &mut Env,
    x: &mut Env,
    y: &mut Env,
    id: u64,
    appeal: &AppealRecord,
    dispute: &DisputeRecord,
    score: u32,
    a: &Env,
    b: &Env,
    c: &Env,
    appeal_read: Option<AppealRecord>,
    dispute_read: Option<DisputeRecord>,
    score_read: Option<u32>,
)
    requires
        call_ensures(storage::save_appeal, (w, id, appeal), ()),
        call_ensures(invoice::save_dispute, (x, id, dispute), ()),
        call_ensures(storage::save_pre_default_payer_score, (y, id, score), ()),
        a@ == final(w)@,
        b@ == final(x)@,
        c@ == final(y)@,
        call_ensures(storage::get_appeal, (a, id), appeal_read),
        call_ensures(invoice::get_dispute, (b, id), dispute_read),
        call_ensures(storage::get_pre_default_payer_score, (c, id), score_read),
    ensures
        appeal_read == Some(*appeal),
        dispute_read == Some(*dispute),
        score_read == Some(score),
        final(w)@ == (EnvView {
            persistent: PersistentView {
                appeals: old(w)@.persistent.appeals.insert(id, *appeal),
                ..old(w)@.persistent
            },
            ..old(w)@
        }),
        final(x)@ == (EnvView {
            persistent: PersistentView {
                disputes: old(x)@.persistent.disputes.insert(id, *dispute),
                ..old(x)@.persistent
            },
            ..old(x)@
        }),
        final(y)@ == (EnvView {
            persistent: PersistentView {
                pre_default_payer_scores: old(y)@.persistent.pre_default_payer_scores.insert(
                    id,
                    score,
                ),
                ..old(y)@.persistent
            },
            ..old(y)@
        }),
{
}

/// Each of the three counters counts by one, and changes nothing else.
pub proof fn law_counters_count_by_one(a: &mut Env, b: &mut Env, c: &mut Env)
    requires
        call_ensures(storage::increment_total_invoices, (a,), ()),
        call_ensures(storage::increment_total_funded, (b,), ()),
        call_ensures(storage::increment_total_paid, (c,), ()),
    ensures
        final(a)@ == (EnvView {
            persistent: PersistentView {
                total_invoices: Some((old(a)@.total_invoices() + 1) as u64),
                ..old(a)@.persistent
            },
            ..old(a)@
        }),
        final(b)@ == (EnvView {
            persistent: PersistentView {
                total_funded: Some((old(b)@.total_funded() + 1) as u64),
                ..old(b)@.persistent
            },
            ..old(b)@
        }),
        final(c)@ == (EnvView {
            persistent: PersistentView {
                total_paid: Some((old(c)@.total_paid() + 1) as u64),
                ..old(c)@.persistent
            },
            ..old(c)@
        }),
{
}

/// The terms of an invoice are checked as a submission checks them.
pub proof fn law_validate_invoice_terms(
    env: &Env,
    amount: i128,
    due_date: u64,
    discount_rate: u32,
    r: Result<(), ContractError>,
)
    requires
        call_ensures(validate_invoice_terms, (env, amount, due_date, discount_rate), r),
    ensures
        ({
            let now = env@.ledger.timestamp;
            let cap = match env@.instance.max_discount_rate {
                Some(cap) => cap,
                None => 5000,
            };
            r == (if amount < 1_000_000 {
                Err::<(), ContractError>(ContractError::InvalidAmount)
            } else if discount_rate == 0 || discount_rate > cap {
                Err(ContractError::InvalidDiscountRate)
            } else if due_date > u32::MAX || due_date <= now {
                Err(ContractError::InvalidDueDate)
            } else if due_date < now + 24 * 60 * 60 {
                Err(ContractError::DueDateTooSoon)
            } else if due_date > now + 365 * 24 * 60 * 60 {
                Err(ContractError::DueDateTooFar)
            } else {
                Ok(())
            })
        }),
{
}

/// A status answers a request as [`law_statuses_are_answered`] says.
///
/// [`law_statuses_are_answered`]: super::operations::law_statuses_are_answered
pub proof fn law_statuses_answer(
    status: InvoiceStatus,
    closed: Option<ContractError>,
    pending: Option<ContractError>,
    fundable: Option<ContractError>,
    funded: Option<ContractError>,
)
    requires
        call_ensures(InvoiceStatus::closed_error, (status,), closed),
        call_ensures(InvoiceStatus::pending_error, (status,), pending),
        call_ensures(InvoiceStatus::fundable_error, (status,), fundable),
        call_ensures(InvoiceStatus::funded_error, (status,), funded),
    ensures
        closed is None <==> status == InvoiceStatus::Pending || status
            == InvoiceStatus::PartiallyFunded || status == InvoiceStatus::Funded,
        pending is None <==> status == InvoiceStatus::Pending,
        fundable is None <==> status == InvoiceStatus::Pending || status
            == InvoiceStatus::PartiallyFunded,
        funded is None <==> status == InvoiceStatus::Funded,
        closed is Some ==> pending == closed && fundable == closed && funded == closed,
        closed is None && pending is Some ==> pending == Some(ContractError::AlreadyFunded),
        closed is None && fundable is Some ==> fundable == Some(ContractError::AlreadyFunded),
        closed is None && funded is Some ==> funded == Some(ContractError::NotFunded),
{
}

/// Amounts are kept in the precision of their token, and rates as they are.
pub proof fn law_amounts_keep_their_precision(
    amount: i128,
    rate: u32,
    xlm: i128,
    usdc: i128,
    factor: i128,
)
    requires
        call_ensures(normalize_xlm_amount, (amount,), xlm),
        call_ensures(normalize_usdc_amount, (amount,), usdc),
        call_ensures(discount_rate_as_i128, (rate,), factor),
    ensures
        xlm == amount,
        usdc == amount,
        factor == rate,
{
}

/// Changes of parameters are published under these identifiers.
pub proof fn law_parameter_symbols(name: ParamName, r: &'static str)
    requires
        call_ensures(ParamName::symbol, (name,), r),
    ensures
        r@ == (match name {
            ParamName::ProtocolFeeRateBps => "protocol_fee_rate_bps"@,
            ParamName::MaxDiscountRateBps => "max_discount_rate_bps"@,
            ParamName::MinPayerReputation => "min_payer_reputation"@,
            ParamName::HighRepThreshold => "high_rep_threshold"@,
            ParamName::BonusBps => "bonus_bps"@,
            ParamName::MinDiscountRateBps => "min_discount_rate_bps"@,
            ParamName::DecayRateBps => "decay_rate_bps"@,
            ParamName::DecayPeriodLedgers => "decay_period_ledgers"@,
            ParamName::DisputeTimeoutLedgers => "dispute_timeout_ledgers"@,
        }),
{
}

// ----------------------------------------------------------------
// Entries of the instance
// ----------------------------------------------------------------

/// A freshly deployed contract has no entry at all and has asked nothing of its host.
pub proof fn law_new_contracts_are_empty(contract: Address, ledger: LedgerInfo, env: Env)
    requires
        call_ensures(Env::new, (contract, ledger), env),
    ensures
        env@.contract == contract,
        env@.ledger == ledger,
        env@.calls.len() == 0,
        forall|token: Address| !#[trigger] env@.oracle_prices.contains_key(token),
        env@.instance == (Instance {
            admin: None,
            config: None,
            fee_rate: None,
            max_discount_rate: None,
            distribution_contract: None,
            paused: None,
            min_payer_reputation: None,
            invoice_count: None,
            next_invoice_id: None,
        }),
        env@.persistent == (PersistentView {
            invoices: Map::empty(),
            invoice_count: None,
            payer_scores: Map::empty(),
            invoice_funders: Map::empty(),
            approved_tokens: Map::empty(),
            token_list: None,
            reputations: Map::empty(),
            appeals: Map::empty(),
            pre_default_payer_scores: Map::empty(),
            lp_scores: Map::empty(),
            fund_queues: Map::empty(),
            queue_resolutions: Map::empty(),
            total_invoices: None,
            total_funded: None,
            total_paid: None,
            total_volume_usdc: None,
            total_volume_eurc: None,
            total_volume_xlm: None,
            token_volumes: Map::empty(),
            disputes: Map::empty(),
            submitter_invoices: Map::empty(),
            lp_invoices: Map::empty(),
        }),
{
}

/// The admin and the parameters are read back as they were written, and nothing else
/// changes.
pub proof fn law_set_up_is_read_back(
    w: &mut Env,
    x: &mut Env,
    admin: &Address,
    config: &Config,
    a: &Env,
    b: &Env,
    admin_read: Option<Address>,
    config_read: Option<Config>,
)
    requires
        call_ensures(storage::set_admin, (w, admin), ()),
        call_ensures(storage::set_config, (x, config), ()),
        a@ == final(w)@,
        b@ == final(x)@,
        call_ensures(storage::get_admin, (a,), admin_read),
        call_ensures(storage::get_config, (b,), config_read),
    ensures
        admin_read == Some(*admin),
        config_read == Some(*config),
        final(w)@ == (EnvView {
            instance: Instance { admin: Some(*admin), ..old(w)@.instance },
            ..old(w)@
        }),
        final(x)@ == (EnvView {
            instance: Instance { config: Some(*config), ..old(x)@.instance },
            ..old(x)@
        }),
{
}

/// The pause, the lowest payer score and the next number are read back as they were
/// written, and nothing else changes.
pub proof fn law_switches_are_read_back(
    w: &mut Env,
    x: &mut Env,
    y: &mut Env,
    paused: bool,
    floor: u32,
    next: u64,
    a: &Env,
    b: &Env,
    c: &Env,
    paused_read: bool,
    floor_read: u32,
    next_read: u64,
)
    requires
        call_ensures(storage::set_paused, (w, paused), ()),
        call_ensures(invoice::set_min_payer_reputation, (x, floor), ()),
        call_ensures(storage::write_next_invoice_id, (y, next), ()),
        a@ == final(w)@,
        b@ == final(x)@,
        c@ == final(y)@,
        call_ensures(storage::is_paused, (a,), paused_read),
        call_ensures(invoice::get_min_payer_reputation, (b,), floor_read),
        call_ensures(storage::read_next_invoice_id, (c,), next_read),
    ensures
        paused_read == paused,
        floor_read == floor,
        next_read == next,
        final(w)@ == (EnvView {
            instance: Instance { paused: Some(paused), ..old(w)@.instance },
            ..old(w)@
        }),
        final(x)@ == (EnvView {
            instance: Instance { min_payer_reputation: Some(floor), ..old(x)@.instance },
            ..old(x)@
        }),
        final(y)@ == (EnvView {
            instance: Instance { next_invoice_id: Some(next), ..old(y)@.instance },
            ..old(y)@
        }),
{
}

/// The lists of a freelancer and of a provider, the score of a provider and the state of
/// a token are read as they are stored.
pub proof fn law_small_entries_are_read(
    env: &Env,
    who: &Address,
    submitted: Vec<u64>,
    funded: Vec<u64>,
    score: u32,
    native: bool,
    approved: bool,
)
    requires
        call_ensures(invoice::get_submitter_invoices, (env, who), submitted),
        call_ensures(invoice::get_lp_invoices, (env, who), funded),
        call_ensures(storage::get_lp_score, (env, who), score),
        call_ensures(is_xlm_token, (env, who), native),
        call_ensures(is_approved_token, (env, who), approved),
    ensures
        submitted@ == (if env@.persistent.submitter_invoices.contains_key(*who) {
            env@.persistent.submitter_invoices[*who]
        } else {
            Seq::empty()
        }),
        funded@ == (if env@.persistent.lp_invoices.contains_key(*who) {
            env@.persistent.lp_invoices[*who]
        } else {
            Seq::empty()
        }),
        score == (if env@.persistent.lp_scores.contains_key(*who) {
            env@.persistent.lp_scores[*who]
        } else {
            50
        }),
        native <==> env@.instance.config is Some && env@.instance.config->0.xlm_sac_address == *who,
        approved <==> env@.persistent.approved_tokens.contains_key(*who)
            && env@.persistent.approved_tokens[*who],
{
}

/// The distribution contract, where there is one, is told who funded how much, and whose
/// invoice was settled and whether in time; where there is none, nobody is told.
pub proof fn law_the_distribution_contract_is_told(
    f: &mut Env,
    s: &mut Env,
    lp: &Address,
    amount: i128,
    freelancer: &Address,
    payer: &Address,
    on_time: bool,
)
    requires
        call_ensures(notify_distribution_funding, (f, lp, amount), ()),
        call_ensures(notify_distribution_settlement, (s, freelancer, payer, on_time), ()),
    ensures
        final(f)@ == (match old(f)@.instance.distribution_contract {
            Some(contract) => EnvView {
                calls: old(f)@.calls.push(HostCall::AccrueLp { contract, lp: *lp, amount }),
                ..old(f)@
            },
            None => old(f)@,
        }),
        final(s)@ == (match old(s)@.instance.distribution_contract {
            Some(contract) => EnvView {
                calls: old(s)@.calls.push(
                    HostCall::AccrueSettlement {
                        contract,
                        freelancer: *freelancer,
                        payer: *payer,
                        on_time,
                    },
                ),
                ..old(s)@
            },
            None => old(s)@,
        }),
{
}

/// What is asked of the host is asked last, and changes nothing else.
pub proof fn law_host_calls_are_kept_in_order(
    a: &mut Env,
    p: &mut Env,
    m: &mut Env,
    k: &mut Env,
    who: Address,
    event: Event,
    token: Address,
    from: Address,
    to: Address,
    amount: i128,
    key: DataKey,
    threshold: u32,
    extend_to: u32,
)
    requires
        call_ensures(Env::require_auth, (a, who), ()),
        call_ensures(Env::publish_event, (p, event), ()),
        call_ensures(Env::transfer, (m, token, from, to, amount), ()),
        call_ensures(Env::extend_ttl, (k, key, threshold, extend_to), ()),
    ensures
        final(a)@ == (EnvView {
            calls: old(a)@.calls.push(HostCall::RequireAuth(who)),
            ..old(a)@
        }),
        final(p)@ == (EnvView { calls: old(p)@.calls.push(HostCall::Publish(event)), ..old(p)@ }),
        final(m)@ == (EnvView {
            calls: old(m)@.calls.push(HostCall::Transfer { token, from, to, amount }),
            ..old(m)@
        }),
        final(k)@ == (EnvView {
            calls: old(k)@.calls.push(HostCall::ExtendTtl { key, threshold, extend_to }),
            ..old(k)@
        }),
{
}

} // verus!
