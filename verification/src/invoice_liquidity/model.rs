//! What the entries of storage mean, and how single entries change.

use crate::host::Address;
use crate::invoice_liquidity::arith::{in_i128, scaled};
use crate::invoice_liquidity::config::Config;
use crate::invoice_liquidity::env::{EnvView, HostCall, Instance, PersistentView};
use crate::invoice_liquidity::invoice::{
    AppealRecord, DisputeRecord, Invoice, LpFundRequest, ReputationProfile, ReputationScore,
};
use crate::invoice_liquidity::storage::DataKey;
use vstd::prelude::*;

verus! {

/// The value at `k`, if there is one.
pub open spec fn entry<K, V>(m: Map<K, V>, k: K) -> Option<V> {
    if m.contains_key(k) {
        Some(m[k])
    } else {
        None
    }
}

/// The value of an entry, or `default` where the entry is absent.
pub open spec fn or_default<V>(e: Option<V>, default: V) -> V {
    match e {
        Some(v) => v,
        None => default,
    }
}

/// A score as it is stored: at most 100.
pub open spec fn capped(score: int) -> int {
    if score > 100 {
        100
    } else {
        score
    }
}

/// A score after one period of decay: it loses `rate` basis points, and at
/// least one point while it has any.
pub open spec fn decay_step(score: int, rate: int) -> int {
    let share = score * rate / 10_000;
    let loss = if share == 0 && score > 0 {
        1
    } else {
        share
    };
    if loss >= score {
        0
    } else {
        score - loss
    }
}

/// A score after `periods` periods of decay.
pub open spec fn decayed(score: int, rate: int, periods: nat) -> int
    decreases periods,
{
    if periods == 0 {
        score
    } else {
        decay_step(decayed(score, rate, (periods - 1) as nat), rate)
    }
}

/// A score after one period of decay by share alone, rounded down.
pub open spec fn share_decay_step(score: int, rate: int) -> int {
    let loss = score * rate / 10_000;
    if loss >= score {
        0
    } else {
        score - loss
    }
}

/// A score after `periods` periods of decay by share alone.
pub open spec fn share_decayed(score: int, rate: int, periods: nat) -> int
    decreases periods,
{
    if periods == 0 {
        score
    } else {
        share_decay_step(share_decayed(score, rate, (periods - 1) as nat), rate)
    }
}

/// Ledgers since `last`, zero where `last` lies ahead.
pub open spec fn ledgers_since(now: u32, last: u32) -> int {
    if now > last {
        now - last
    } else {
        0
    }
}

/// Whole decay periods that have passed since `last`; zero while decay is off.
pub open spec fn decay_periods(config: Option<Config>, now: u32, last: u32) -> nat {
    match config {
        Some(c) => if c.decay_period_ledgers > 0 && c.decay_rate_bps > 0 {
            (ledgers_since(now, last) / c.decay_period_ledgers as int) as nat
        } else {
            0
        },
        None => 0,
    }
}

impl EnvView {
    pub open spec fn is_paused(self) -> bool {
        self.instance.paused == Some(true)
    }

    pub open spec fn has_invoice(self, id: u64) -> bool {
        self.persistent.invoices.contains_key(id)
    }

    pub open spec fn invoice(self, id: u64) -> Invoice {
        self.persistent.invoices[id]
    }

    /// Contributions to an invoice, in the order in which the funders came.
    pub open spec fn funders(self, id: u64) -> Seq<(Address, i128)> {
        or_default(entry(self.persistent.invoice_funders, id), Seq::empty())
    }

    /// Invoices of a freelancer, oldest first.
    pub open spec fn submitter_ids(self, who: Address) -> Seq<u64> {
        or_default(entry(self.persistent.submitter_invoices, who), Seq::empty())
    }

    /// Invoices that a liquidity provider has funded, oldest first.
    pub open spec fn lp_ids(self, who: Address) -> Seq<u64> {
        or_default(entry(self.persistent.lp_invoices, who), Seq::empty())
    }

    pub open spec fn token_list(self) -> Seq<Address> {
        or_default(self.persistent.token_list, Seq::empty())
    }

    /// Whether `token` is on the allowlist.
    pub open spec fn approved(self, token: Address) -> bool {
        or_default(entry(self.persistent.approved_tokens, token), false)
    }

    /// Whether `token` is the wrapped native asset.
    pub open spec fn is_xlm(self, token: Address) -> bool {
        match self.instance.config {
            Some(c) => token == c.xlm_sac_address,
            None => false,
        }
    }

    pub open spec fn lp_score(self, lp: Address) -> u32 {
        or_default(entry(self.persistent.lp_scores, lp), 50)
    }

    /// Score of a payer as of now: 50 for a stranger, else the stored score
    /// less the decay of every whole period of idleness.
    pub open spec fn payer_score(self, payer: Address) -> u32 {
        match entry(self.persistent.payer_scores, payer) {
            Some(rep) => {
                let periods = decay_periods(
                    self.instance.config,
                    self.ledger.sequence,
                    rep.last_activity_ledger,
                );
                if periods > 0 {
                    capped(
                        decayed(
                            rep.score as int,
                            self.instance.config->0.decay_rate_bps as int,
                            periods,
                        ),
                    ) as u32
                } else {
                    rep.score
                }
            },
            None => 50,
        }
    }

    /// As [`EnvView::payer_score`], with decay by share alone.
    pub open spec fn share_payer_score(self, payer: Address) -> u32 {
        match entry(self.persistent.payer_scores, payer) {
            Some(rep) => {
                let periods = decay_periods(
                    self.instance.config,
                    self.ledger.sequence,
                    rep.last_activity_ledger,
                );
                if periods > 0 {
                    capped(
                        share_decayed(
                            rep.score as int,
                            self.instance.config->0.decay_rate_bps as int,
                            periods,
                        ),
                    ) as u32
                } else {
                    rep.score
                }
            },
            None => 50,
        }
    }

    pub open spec fn min_payer_reputation(self) -> u32 {
        or_default(self.instance.min_payer_reputation, 0)
    }

    pub open spec fn reputation(self, who: Address) -> ReputationProfile {
        or_default(
            entry(self.persistent.reputations, who),
            ReputationProfile {
                address: who,
                invoices_submitted: 0,
                invoices_paid: 0,
                invoices_defaulted: 0,
                score: 0,
            },
        )
    }

    pub open spec fn fund_queue(self, id: u64) -> Seq<LpFundRequest> {
        or_default(entry(self.persistent.fund_queues, id), Seq::empty())
    }

    pub open spec fn queue_resolution(self, id: u64) -> Option<Address> {
        entry(self.persistent.queue_resolutions, id)
    }

    pub open spec fn appeal(self, id: u64) -> Option<AppealRecord> {
        entry(self.persistent.appeals, id)
    }

    pub open spec fn dispute(self, id: u64) -> Option<DisputeRecord> {
        entry(self.persistent.disputes, id)
    }

    pub open spec fn token_volume(self, token: Address) -> i128 {
        or_default(entry(self.persistent.token_volumes, token), 0)
    }

    /// Highest invoice number given out so far.
    pub open spec fn invoice_count(self) -> u64 {
        or_default(self.persistent.invoice_count, 0)
    }

    pub open spec fn total_invoices(self) -> u64 {
        or_default(self.persistent.total_invoices, 0)
    }

    pub open spec fn total_funded(self) -> u64 {
        or_default(self.persistent.total_funded, 0)
    }

    pub open spec fn total_paid(self) -> u64 {
        or_default(self.persistent.total_paid, 0)
    }

    pub open spec fn with_instance(self, instance: Instance) -> EnvView {
        EnvView { instance, ..self }
    }

    pub open spec fn with_persistent(self, persistent: PersistentView) -> EnvView {
        EnvView { persistent, ..self }
    }

    /// Storage entries of the contract are kept alive for this long.
    pub open spec fn kept_alive(self, key: DataKey) -> EnvView {
        self.called(HostCall::ExtendTtl { key, threshold: 1_000_000, extend_to: 2_000_000 })
    }

    /// The invocation after the next invoice number was given out.
    pub open spec fn numbered(self) -> EnvView {
        self.with_persistent(
            PersistentView {
                invoice_count: Some((self.invoice_count() + 1) as u64),
                ..self.persistent
            },
        ).kept_alive(DataKey::InvoiceCount)
    }

    /// The invocation after `invoice` was written under its number.
    pub open spec fn invoice_saved(self, invoice: Invoice) -> EnvView {
        self.with_persistent(
            PersistentView {
                invoices: self.persistent.invoices.insert(invoice.id, invoice),
                ..self.persistent
            },
        ).kept_alive(DataKey::Invoice(invoice.id))
    }

    pub open spec fn funders_saved(self, id: u64, funders: Seq<(Address, i128)>) -> EnvView {
        self.with_persistent(
            PersistentView {
                invoice_funders: self.persistent.invoice_funders.insert(id, funders),
                ..self.persistent
            },
        )
    }

    /// The invocation after `payer` was given `score`: the clock of the decay
    /// starts anew.
    pub open spec fn payer_scored(self, payer: Address, score: int) -> EnvView {
        self.with_persistent(
            PersistentView {
                payer_scores: self.persistent.payer_scores.insert(
                    payer,
                    ReputationScore {
                        score: capped(score) as u32,
                        last_activity_ledger: self.ledger.sequence,
                    },
                ),
                ..self.persistent
            },
        )
    }

    pub open spec fn lp_scored(self, lp: Address, score: int) -> EnvView {
        self.with_persistent(
            PersistentView {
                lp_scores: self.persistent.lp_scores.insert(lp, capped(score) as u32),
                ..self.persistent
            },
        )
    }

    pub open spec fn submitter_ids_saved(self, who: Address, ids: Seq<u64>) -> EnvView {
        self.with_persistent(
            PersistentView {
                submitter_invoices: self.persistent.submitter_invoices.insert(who, ids),
                ..self.persistent
            },
        ).kept_alive(DataKey::SubmitterInvoices(who))
    }

    /// The invocation after invoice `id` was put on the list of `lp`, where it
    /// appears at most once.
    pub open spec fn lp_id_added(self, lp: Address, id: u64) -> EnvView {
        if self.lp_ids(lp).contains(id) {
            self
        } else {
            self.with_persistent(
                PersistentView {
                    lp_invoices: self.persistent.lp_invoices.insert(lp, self.lp_ids(lp).push(id)),
                    ..self.persistent
                },
            ).kept_alive(DataKey::LpInvoices(lp))
        }
    }
}

/// Whether the oracle, where there is one, has a price for every listed token.
pub open spec fn oracle_answers(s: EnvView) -> bool {
    match s.instance.config {
        Some(c) => c.price_oracle is Some ==> forall|t: Address|
            #[trigger] s.token_list().contains(t) ==> s.oracle_prices.contains_key(t),
        None => true,
    }
}

/// Price of a token in basis points of a dollar; none where no oracle is set.
pub open spec fn price_of(s: EnvView, token: Address) -> Option<i128> {
    match s.instance.config {
        Some(c) => if c.price_oracle is Some {
            Some(s.oracle_prices[token])
        } else {
            None
        },
        None => None,
    }
}

/// Sum of the volumes of the tokens in dollars. A volume that would overflow the
/// sum is left out of it.
pub open spec fn normalized_volume(s: EnvView, tokens: Seq<Address>) -> int
    decreases tokens.len(),
{
    if tokens.len() == 0 {
        0
    } else {
        let before = normalized_volume(s, tokens.drop_last());
        match price_of(s, tokens.last()) {
            Some(price) => {
                let value = scaled(s.token_volume(tokens.last()) as int, price as int);
                if in_i128(before + value) {
                    before + value
                } else {
                    before
                }
            },
            None => before,
        }
    }
}

/// Whether the token counts as USDC: it is the first on the list.
pub open spec fn counts_as_usdc(s: EnvView, token: Address) -> bool {
    s.token_list().len() > 0 && token == s.token_list()[0]
}

/// Whether the token counts as EURC: it is the second on the list, and not the
/// wrapped native asset.
pub open spec fn counts_as_eurc(s: EnvView, token: Address) -> bool {
    s.token_list().len() > 1 && token == s.token_list()[1] && !s.is_xlm(token)
}

/// Whether the token counts as XLM: it is the third on the list, or it is the second
/// and the wrapped native asset.
pub open spec fn counts_as_xlm(s: EnvView, token: Address) -> bool {
    ||| s.token_list().len() > 1 && token == s.token_list()[1] && s.is_xlm(token)
    ||| s.token_list().len() > 2 && token == s.token_list()[2]
}

/// A total after `amount` was counted in it, if it is counted there.
pub open spec fn counted(total: Option<i128>, counts: bool, amount: int) -> Option<i128> {
    if counts {
        Some((or_default(total, 0) + amount) as i128)
    } else {
        total
    }
}

/// The invocation after `amount` was counted as volume of `token`.
pub open spec fn volume_added(s: EnvView, token: Address, amount: int) -> EnvView {
    let p = s.persistent;
    s.with_persistent(
        PersistentView {
            token_volumes: p.token_volumes.insert(token, (s.token_volume(token) + amount) as i128),
            total_volume_usdc: counted(p.total_volume_usdc, counts_as_usdc(s, token), amount),
            total_volume_eurc: counted(p.total_volume_eurc, counts_as_eurc(s, token), amount),
            total_volume_xlm: counted(p.total_volume_xlm, counts_as_xlm(s, token), amount),
            ..p
        },
    )
}

/// Whether every total can hold `amount` more of `token`.
pub open spec fn volume_fits(s: EnvView, token: Address, amount: int) -> bool {
    let p = s.persistent;
    &&& in_i128(s.token_volume(token) + amount)
    &&& counts_as_usdc(s, token) ==> in_i128(or_default(p.total_volume_usdc, 0) + amount)
    &&& counts_as_eurc(s, token) ==> in_i128(or_default(p.total_volume_eurc, 0) + amount)
    &&& counts_as_xlm(s, token) ==> in_i128(or_default(p.total_volume_xlm, 0) + amount)
}

} // verus!
