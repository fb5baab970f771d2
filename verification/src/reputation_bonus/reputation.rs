//! The record of an address and the score it gives.

use crate::host::Address;
use crate::reputation_bonus::env::{Env, EnvView};
use crate::reputation_bonus::events::{Event, ReputationUpdated};
use crate::table::Key;
use vstd::prelude::*;

verus! {

/// How often the address was party to an invoice, and how those ended.
#[derive(Clone, Copy, Debug, PartialEq, Eq, Structural)]
pub struct ReputationScore {
    pub invoices_submitted: u32,
    pub invoices_paid: u32,
    pub invoices_defaulted: u32,
    pub score: u32,
}

/// Names of the storage entries for records.
#[derive(Clone, Copy, Debug, PartialEq, Eq, Structural)]
pub enum ReputationKey {
    Reputation(Address),
}

impl Key for ReputationKey {
    fn same(&self, other: &Self) -> (r: bool) {
        *self == *other
    }
}

impl View for ReputationScore {
    type V = ReputationScore;

    open spec fn view(&self) -> ReputationScore {
        *self
    }
}

/// Percentage of the submitted invoices that were paid, at most 100. The
/// percentage passes through 32 bits before it is capped.
pub open spec fn paid_percentage(submitted: u32, paid: u32) -> u32 {
    let whole = if submitted == 0 {
        1u32
    } else {
        submitted
    };
    let percentage = #[verifier::truncate] ((paid * 100 / whole as int) as u32);
    if percentage > 100 {
        100
    } else {
        percentage
    }
}

impl ReputationScore {
    /// The record of an address that was party to nothing.
    pub open spec fn blank() -> ReputationScore {
        ReputationScore {
            invoices_submitted: 0,
            invoices_paid: 0,
            invoices_defaulted: 0,
            score: 0,
        }
    }

    /// The record with the score that its counters give.
    pub open spec fn scored(self) -> ReputationScore {
        ReputationScore {
            score: paid_percentage(self.invoices_submitted, self.invoices_paid),
            ..self
        }
    }

    pub fn new() -> (r: Self)
        ensures
            r == ReputationScore::blank(),
    {
        ReputationScore {
            invoices_submitted: 0,
            invoices_paid: 0,
            invoices_defaulted: 0,
            score: 0,
        }
    }

    /// Brings the score in line with the counters.
    pub fn recalculate_score(&mut self)
        ensures
            *final(self) == old(self).scored(),
    {
        let divisor: u32 = self.invoices_submitted.max(1);
        let percentage: u64 = (self.invoices_paid as u64 * 100) / divisor as u64;
        self.score = (percentage as u32).min(100);
    }
}

impl EnvView {
    /// The record of an address; a blank one where there is none.
    pub open spec fn reputation(self, who: Address) -> ReputationScore {
        if self.reputations.contains_key(ReputationKey::Reputation(who)) {
            self.reputations[ReputationKey::Reputation(who)]
        } else {
            ReputationScore::blank()
        }
    }

    /// The invocation after the record of `who` was replaced, with its score
    /// recomputed, and announced.
    pub open spec fn reputation_written(self, who: Address, record: ReputationScore) -> EnvView {
        EnvView {
            reputations: self.reputations.insert(ReputationKey::Reputation(who), record.scored()),
            ..self
        }.published(
            Event::ReputationUpdated(
                ReputationUpdated {
                    address: who,
                    invoices_submitted: record.invoices_submitted,
                    invoices_paid: record.invoices_paid,
                    invoices_defaulted: record.invoices_defaulted,
                    score: record.scored().score,
                },
            ),
        )
    }
}

pub fn read_reputation(env: &Env, address: &Address) -> (r: ReputationScore)
    ensures
        r == env@.reputation(*address),
{
    match env.reputations.get(&ReputationKey::Reputation(*address)) {
        Some(record) => *record,
        None => ReputationScore::new(),
    }
}

pub fn write_reputation(env: &mut Env, address: &Address, reputation: ReputationScore)
    ensures
        final(env)@ == old(env)@.reputation_written(*address, reputation),
{
    let mut record: ReputationScore = reputation;
    record.recalculate_score();
    env.reputations.set(ReputationKey::Reputation(*address), record);
    env.publish_event(
        Event::ReputationUpdated(
            ReputationUpdated {
                address: *address,
                invoices_submitted: record.invoices_submitted,
                invoices_paid: record.invoices_paid,
                invoices_defaulted: record.invoices_defaulted,
                score: record.score,
            },
        ),
    );
}

/// A score never exceeds 100.
pub proof fn law_score_is_at_most_100(record: ReputationScore)
    ensures
        record.scored().score <= 100,
{
}

/// While no more invoices were paid than submitted, the score is the exact
/// percentage, rounded down: all paid is 100, none paid is 0.
pub proof fn law_score_is_the_paid_share(record: ReputationScore)
    requires
        record.invoices_paid <= record.invoices_submitted,
        record.invoices_submitted > 0,
    ensures
        record.scored().score == record.invoices_paid * 100 / record.invoices_submitted as int,
        record.invoices_paid == record.invoices_submitted ==> record.scored().score == 100,
        record.invoices_paid == 0 ==> record.scored().score == 0,
{
    let p = record.invoices_paid as int;
    let s = record.invoices_submitted as int;
    assert(0 <= p * 100 / s <= 100) by (nonlinear_arith)
        requires
            0 <= p <= s,
            s > 0,
    ;
    if p == s {
        assert(p * 100 / s == 100) by (nonlinear_arith)
            requires
                p == s,
                s > 0,
        ;
    }
}

} // verus!
