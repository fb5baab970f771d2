//! What each operation does, said of the operation itself: what it answers to which
//! request, and what it leaves behind.
//!
//! Every law here speaks of calls that were made, by their arguments, their results
//! and the invocation before and after.

use crate::host::Address;
use crate::reputation_bonus::config;
use crate::reputation_bonus::config::{Config, ConfigError};
use crate::reputation_bonus::contract::ReputationBonusContract;
use crate::reputation_bonus::env::{Env, EnvView, HostCall};
use crate::reputation_bonus::errors::ContractError;
use crate::reputation_bonus::events::{Event, ParamName, ParameterUpdated, ReputationUpdated};
use crate::reputation_bonus::invoice;
use crate::reputation_bonus::invoice::{Invoice, InvoiceKey, InvoiceStatus};
use crate::reputation_bonus::rate_logic::{calculate_effective_rate, RateError};
use crate::reputation_bonus::reputation::{write_reputation, ReputationKey, ReputationScore};
use vstd::prelude::*;

verus! {

// ----------------------------------------------------------------
// Records
// ----------------------------------------------------------------

/// The record of an address; zeros where there is none.
pub open spec fn record_of(
    records: Map<ReputationKey, ReputationScore>,
    who: Address,
) -> ReputationScore {
    if records.contains_key(ReputationKey::Reputation(who)) {
        records[ReputationKey::Reputation(who)]
    } else {
        ReputationScore {
            invoices_submitted: 0,
            invoices_paid: 0,
            invoices_defaulted: 0,
            score: 0,
        }
    }
}

/// A counter after one more, as far as it goes.
pub open spec fn counted_up(n: u32) -> u32 {
    if n < u32::MAX {
        (n + 1) as u32
    } else {
        u32::MAX
    }
}

/// The score that a record earns: how many of a hundred submitted invoices were paid, in
/// 32 bits, and at most a hundred.
pub open spec fn earned(submitted: u32, paid: u32) -> u32 {
    let share = (paid * 100 / (if submitted > 0 {
        submitted as int
    } else {
        1
    })) as u32;
    if share < 100 {
        share
    } else {
        100
    }
}

/// The records after that of `who` became `record`, with the score that it earns.
pub open spec fn rescored(
    records: Map<ReputationKey, ReputationScore>,
    who: Address,
    record: ReputationScore,
) -> Map<ReputationKey, ReputationScore> {
    records.insert(
        ReputationKey::Reputation(who),
        ReputationScore {
            score: earned(record.invoices_submitted, record.invoices_paid),
            ..record
        },
    )
}

/// The announcement of the record of an address.
pub open spec fn announced(
    records: Map<ReputationKey, ReputationScore>,
    who: Address,
) -> HostCall {
    let record = record_of(records, who);
    HostCall::Publish(
        Event::ReputationUpdated(
            ReputationUpdated {
                address: who,
                invoices_submitted: record.invoices_submitted,
                invoices_paid: record.invoices_paid,
                invoices_defaulted: record.invoices_defaulted,
                score: record.score,
            },
        ),
    )
}

/// The score is the percentage, rounded down, while no more was paid than submitted: it
/// makes up the paid share to within a point, and is full exactly if all was paid.
pub proof fn law_scores_are_percentages(submitted: u32, paid: u32)
    requires
        paid <= submitted,
        submitted > 0,
    ensures
        earned(submitted, paid) * submitted <= paid * 100,
        paid * 100 < earned(submitted, paid) * submitted + submitted,
        earned(submitted, paid) == 100 <==> paid == submitted,
{
    let (s, p) = (submitted as int, paid as int);
    let q = p * 100 / s;
    assert(q * s <= p * 100 && p * 100 < q * s + s && 0 <= q <= 100 && (q == 100 <==> p == s))
        by (nonlinear_arith)
        requires
            0 <= p <= s,
            s > 0,
            q == p * 100 / s,
    ;
}

/// A record is written with the score that its counters earn, whatever score it came
/// with, and announced; nothing else changes.
pub proof fn law_write_reputation(
    env: &mut Env,
    who: &Address,
    record: ReputationScore,
    alone: &mut ReputationScore,
)
    requires
        call_ensures(write_reputation, (env, who, record), ()),
        call_ensures(ReputationScore::recalculate_score, (alone,), ()),
    ensures
        final(env)@ == (EnvView {
            reputations: rescored(old(env)@.reputations, *who, record),
            calls: old(env)@.calls.push(
                announced(rescored(old(env)@.reputations, *who, record), *who),
            ),
            ..old(env)@
        }),
        *final(alone) == (ReputationScore {
            score: earned(old(alone).invoices_submitted, old(alone).invoices_paid),
            ..*old(alone)
        }),
{
}

/// A record is read as it is stored.
pub proof fn law_get_reputation(env: &Env, who: Address, r: ReputationScore)
    requires
        call_ensures(ReputationBonusContract::get_reputation, (env, who), r),
    ensures
        r == record_of(env@.reputations, who),
{
}

// ----------------------------------------------------------------
// Rates
// ----------------------------------------------------------------

/// A score below the threshold leaves the base rate as it is. From the threshold on the
/// bonus comes off it, down to the floor.
pub proof fn law_calculate_effective_rate(
    base: u32,
    score: u32,
    threshold: u32,
    bonus: u32,
    floor: u32,
    r: Result<u32, RateError>,
)
    requires
        call_ensures(calculate_effective_rate, (base, score, threshold, bonus, floor), r),
    ensures
        r is Ok,
        score < threshold ==> r->Ok_0 == base,
        score >= threshold && base - bonus >= floor ==> r->Ok_0 == base - bonus,
        score >= threshold && base - bonus < floor ==> r->Ok_0 == floor,
{
}

// ----------------------------------------------------------------
// Invoices
// ----------------------------------------------------------------

/// What a submission does. The freelancer is asked. A contract without parameters takes
/// none, and one whose numbers have run out neither. Otherwise the invoice gets the next
/// number and is stored with what was asked for, at the rate that the score of the
/// freelancer earns, and both parties have one submission more.
pub open spec fn submits(
    s: EnvView,
    t: EnvView,
    freelancer: Address,
    payer: Address,
    amount: i128,
    due_date: u64,
    base: u32,
    r: Result<Invoice, ContractError>,
) -> bool {
    let count = match s.invoice_count {
        Some(n) => n,
        None => 0,
    };
    let config = s.config->0;
    let score = record_of(s.reputations, freelancer).score;
    let invoice = Invoice {
        id: (count + 1) as u64,
        freelancer,
        payer,
        amount,
        due_date,
        base_discount_rate_bps: base,
        effective_discount_rate_bps: (if score < config.high_rep_threshold {
            base as int
        } else if base - config.bonus_bps >= config.min_discount_rate_bps {
            base - config.bonus_bps
        } else {
            config.min_discount_rate_bps as int
        }) as u32,
        status: InvoiceStatus::Pending,
    };
    let one = |records: Map<ReputationKey, ReputationScore>, who: Address|
        rescored(
            records,
            who,
            ReputationScore {
                invoices_submitted: counted_up(record_of(records, who).invoices_submitted),
                ..record_of(records, who)
            },
        );
    let first = one(s.reputations, freelancer);
    let second = one(first, payer);
    if s.config is None || count == u64::MAX {
        &&& r == Err::<Invoice, ContractError>(
            if s.config is None {
                ContractError::ConfigErrorUnauthorized
            } else {
                ContractError::ArithmeticError
            },
        )
        &&& t =~= (EnvView { calls: s.calls.push(HostCall::RequireAuth(freelancer)), ..s })
    } else {
        &&& r == Ok::<Invoice, ContractError>(invoice)
        &&& t =~= (EnvView {
            invoice_count: Some(invoice.id),
            invoices: s.invoices.insert(InvoiceKey::Invoice(invoice.id), invoice),
            reputations: second,
            calls: s.calls + seq![
                HostCall::RequireAuth(freelancer),
                announced(first, freelancer),
                announced(second, payer),
            ],
            ..s
        })
    }
}

/// Submitting does what [`submits`] says.
pub proof fn law_submit_invoice(
    env: &mut Env,
    freelancer: Address,
    payer: Address,
    amount: i128,
    due_date: u64,
    base: u32,
    r: Result<Invoice, ContractError>,
)
    requires
        call_ensures(
            ReputationBonusContract::submit_invoice,
            (env, freelancer, payer, amount, due_date, base),
            r,
        ),
    ensures
        submits(old(env)@, final(env)@, freelancer, payer, amount, due_date, base, r),
{
}

/// So does the operation below the entry point.
pub proof fn law_submissions_are_recorded(
    env: &mut Env,
    freelancer: &Address,
    payer: &Address,
    amount: i128,
    due_date: u64,
    base: u32,
    r: Result<Invoice, ContractError>,
)
    requires
        call_ensures(
            invoice::submit_invoice,
            (env, freelancer, payer, amount, due_date, base),
            r,
        ),
    ensures
        submits(old(env)@, final(env)@, *freelancer, *payer, amount, due_date, base, r),
{
}

/// What ending an invoice does. Only one that is there and has not ended can end; the
/// payer is asked where it is paid. Its status changes and nothing else of it, and both
/// parties, the payer first, have one more that ended so.
pub open spec fn closes(
    s: EnvView,
    t: EnvView,
    id: u64,
    paid: bool,
    r: Result<(), ContractError>,
) -> bool {
    let key = InvoiceKey::Invoice(id);
    let v = s.invoices[key];
    let one = |records: Map<ReputationKey, ReputationScore>, who: Address|
        rescored(
            records,
            who,
            if paid {
                ReputationScore {
                    invoices_paid: counted_up(record_of(records, who).invoices_paid),
                    ..record_of(records, who)
                }
            } else {
                ReputationScore {
                    invoices_defaulted: counted_up(record_of(records, who).invoices_defaulted),
                    ..record_of(records, who)
                }
            },
        );
    let first = one(s.reputations, v.payer);
    let second = one(first, v.freelancer);
    if !s.invoices.contains_key(key) {
        r == Err::<(), ContractError>(ContractError::InvoiceNotFound) && t == s
    } else if v.status == InvoiceStatus::Paid || v.status == InvoiceStatus::Defaulted {
        r == Err::<(), ContractError>(ContractError::IllegalState) && t == s
    } else {
        &&& r == Ok::<(), ContractError>(())
        &&& t =~= (EnvView {
            invoices: s.invoices.insert(
                key,
                Invoice {
                    status: if paid {
                        InvoiceStatus::Paid
                    } else {
                        InvoiceStatus::Defaulted
                    },
                    ..v
                },
            ),
            reputations: second,
            calls: s.calls + (if paid {
                seq![HostCall::RequireAuth(v.payer)]
            } else {
                Seq::empty()
            }) + seq![announced(first, v.payer), announced(second, v.freelancer)],
            ..s
        })
    }
}

/// Paying an invoice ends it as paid, and nothing but an open invoice can be paid.
pub proof fn law_mark_paid(
    env: &mut Env,
    below: &mut Env,
    invoice_id: u64,
    r: Result<(), ContractError>,
    q: Result<(), ContractError>,
)
    requires
        call_ensures(ReputationBonusContract::mark_paid, (env, invoice_id), r),
        call_ensures(invoice::mark_paid, (below, invoice_id), q),
    ensures
        closes(old(env)@, final(env)@, invoice_id, true, r),
        closes(old(below)@, final(below)@, invoice_id, true, q),
{
}

/// A default ends an invoice as defaulted, and nothing but an open invoice can default.
pub proof fn law_handle_default(
    env: &mut Env,
    below: &mut Env,
    invoice_id: u64,
    r: Result<(), ContractError>,
    q: Result<(), ContractError>,
)
    requires
        call_ensures(ReputationBonusContract::handle_default, (env, invoice_id), r),
        call_ensures(invoice::handle_default, (below, invoice_id), q),
    ensures
        closes(old(env)@, final(env)@, invoice_id, false, r),
        closes(old(below)@, final(below)@, invoice_id, false, q),
{
}

/// A submission and a payment by the same two parties: both have one submission and one
/// payment more than before, as far as the counters go, and no default more.
pub proof fn law_paid_submissions_count_for_both(
    first: &mut Env,
    second: &mut Env,
    freelancer: Address,
    payer: Address,
    amount: i128,
    due_date: u64,
    base: u32,
    r: Result<Invoice, ContractError>,
    q: Result<(), ContractError>,
)
    requires
        call_ensures(
            ReputationBonusContract::submit_invoice,
            (first, freelancer, payer, amount, due_date, base),
            r,
        ),
        r is Ok,
        call_ensures(ReputationBonusContract::mark_paid, (second, r->Ok_0.id), q),
        old(second)@ == final(first)@,
        freelancer != payer,
    ensures
        q is Ok,
        forall|who: Address| #[trigger]
            record_of(final(second)@.reputations, who).invoices_submitted == (if who == freelancer
                || who == payer {
                counted_up(record_of(old(first)@.reputations, who).invoices_submitted)
            } else {
                record_of(old(first)@.reputations, who).invoices_submitted
            }),
        forall|who: Address| #[trigger]
            record_of(final(second)@.reputations, who).invoices_paid == (if who == freelancer || who
                == payer {
                counted_up(record_of(old(first)@.reputations, who).invoices_paid)
            } else {
                record_of(old(first)@.reputations, who).invoices_paid
            }),
        forall|who: Address| #[trigger]
            record_of(final(second)@.reputations, who).invoices_defaulted == record_of(
                old(first)@.reputations,
                who,
            ).invoices_defaulted,
{
    law_submit_invoice(first, freelancer, payer, amount, due_date, base, r);
}

// ----------------------------------------------------------------
// Parameters
// ----------------------------------------------------------------

/// The admin is set; the parameters are set all at once, on the authority of the admin,
/// and read as they were set.
pub proof fn law_set_config(
    a: &mut Env,
    admin: Address,
    env: &mut Env,
    parameters: Config,
    r: Result<(), ContractError>,
    after: &Env,
    read: Result<Config, ContractError>,
)
    requires
        call_ensures(ReputationBonusContract::init, (a, admin), ()),
        call_ensures(ReputationBonusContract::set_config, (env, parameters), r),
        call_ensures(ReputationBonusContract::get_config, (after,), read),
    ensures
        final(a)@ == (EnvView { admin: Some(admin), ..old(a)@ }),
        r == (if old(env)@.admin is Some {
            Ok::<(), ContractError>(())
        } else {
            Err(ContractError::ConfigErrorUnauthorized)
        }),
        final(env)@ == (match old(env)@.admin {
            Some(who) => EnvView {
                config: Some(parameters),
                calls: old(env)@.calls.push(HostCall::RequireAuth(who)),
                ..old(env)@
            },
            None => old(env)@,
        }),
        read == (match after@.config {
            Some(config) => Ok::<Config, ContractError>(config),
            None => Err(ContractError::ConfigErrorUnauthorized),
        }),
{
}

/// What changing the parameters leaves behind: the new ones, and an announcement of each,
/// old and new, in this order.
pub open spec fn parameters_replaced(s: EnvView, caller: Address, new: Config) -> EnvView {
    let before = s.config->0;
    let told = |param_name: ParamName, old_value: u32, new_value: u32|
        HostCall::Publish(
            Event::ParameterUpdated(
                ParameterUpdated {
                    param_name,
                    old_value: old_value as i128,
                    new_value: new_value as i128,
                    updated_by: caller,
                },
            ),
        );
    EnvView {
        config: Some(new),
        calls: s.calls + seq![
            HostCall::RequireAuth(caller),
            told(
                ParamName::HighRepThreshold,
                before.high_rep_threshold,
                new.high_rep_threshold,
            ),
            told(ParamName::BonusBps, before.bonus_bps, new.bonus_bps),
            told(
                ParamName::MinDiscountRateBps,
                before.min_discount_rate_bps,
                new.min_discount_rate_bps,
            ),
        ],
        ..s
    }
}

/// The admin changes the parameters: a bonus of at most five percent, and a floor that is
/// not zero. At the entry point every refusal is a want of authority; below it each has a
/// name of its own.
pub proof fn law_update_config(
    env: &mut Env,
    below: &mut Env,
    caller: Address,
    high_rep_threshold: u32,
    bonus_bps: u32,
    min_discount_rate_bps: u32,
    r: Result<(), ContractError>,
    q: Result<(), ConfigError>,
)
    requires
        call_ensures(
            ReputationBonusContract::update_config,
            (env, caller, high_rep_threshold, bonus_bps, min_discount_rate_bps),
            r,
        ),
        call_ensures(
            config::update_config,
            (below, &caller, high_rep_threshold, bonus_bps, min_discount_rate_bps),
            q,
        ),
        old(below)@ == old(env)@,
    ensures
        q == (if old(env)@.admin != Some(caller) || old(env)@.config is None {
            Err::<(), ConfigError>(ConfigError::Unauthorized)
        } else if bonus_bps > 500 {
            Err(ConfigError::InvalidBonusBps)
        } else if min_discount_rate_bps == 0 {
            Err(ConfigError::InvalidMinDiscountRate)
        } else {
            Ok(())
        }),
        r == (if q is Ok {
            Ok::<(), ContractError>(())
        } else {
            Err(ContractError::ConfigErrorUnauthorized)
        }),
        final(env)@ == (if r is Ok {
            parameters_replaced(
                old(env)@,
                caller,
                Config { high_rep_threshold, bonus_bps, min_discount_rate_bps },
            )
        } else if old(env)@.admin is None || old(env)@.config is None {
            old(env)@
        } else {
            EnvView {
                calls: old(env)@.calls.push(HostCall::RequireAuth(caller)),
                ..old(env)@
            }
        }),
        final(below)@ == final(env)@,
{
}

/// Changes of parameters are published under these identifiers.
pub proof fn law_parameter_symbols(name: ParamName, r: &'static str)
    requires
        call_ensures(ParamName::symbol, (name,), r),
    ensures
        r@ == (match name {
            ParamName::HighRepThreshold => "high_rep_threshold"@,
            ParamName::BonusBps => "bonus_bps"@,
            ParamName::MinDiscountRateBps => "min_discount_rate_bps"@,
        }),
{
}

/// A freshly deployed contract has no admin, no parameters, no invoice and no record, and
/// has asked nothing of its host.
pub proof fn law_new_contracts_are_empty(env: Env, blank: ReputationScore)
    requires
        call_ensures(Env::new, (), env),
        call_ensures(ReputationScore::new, (), blank),
    ensures
        env@ == (EnvView {
            admin: None,
            config: None,
            invoice_count: None,
            invoices: Map::empty(),
            reputations: Map::empty(),
            calls: Seq::empty(),
        }),
        blank.invoices_submitted == 0,
        blank.invoices_paid == 0,
        blank.invoices_defaulted == 0,
        blank.score == 0,
{
}

} // verus!
