//! What the contract sees of its host, and what it asks of it.

use crate::host::{Address, LedgerInfo};
use crate::invoice_liquidity::config::Config;
use crate::invoice_liquidity::events::Event;
use crate::invoice_liquidity::invoice::{
    AppealRecord, DisputeRecord, Invoice, LpFundRequest, ReputationProfile, ReputationScore,
};
use crate::invoice_liquidity::storage::DataKey;
use crate::table::Table;
use vstd::prelude::*;

verus! {

/// A call that the contract makes on its host. The host performs the calls of
/// one invocation in order; where one fails, the whole invocation is undone.
#[derive(Clone, Copy, Debug, PartialEq)]
pub enum HostCall {
    /// The invocation stands only if this address has authorised it.
    RequireAuth(Address),
    /// Move `amount` of `token`.
    Transfer { token: Address, from: Address, to: Address, amount: i128 },
    /// Tell the distribution contract that `lp` funded `amount`.
    AccrueLp { contract: Address, lp: Address, amount: i128 },
    /// Tell the distribution contract that an invoice was settled.
    AccrueSettlement { contract: Address, freelancer: Address, payer: Address, on_time: bool },
    /// Keep a storage entry alive for longer.
    ExtendTtl { key: DataKey, threshold: u32, extend_to: u32 },
    /// Publish an event.
    Publish(Event),
}

/// Entries that live with the contract instance. `None` is an absent entry.
#[derive(Clone, Copy, Debug, PartialEq)]
pub struct Instance {
    pub admin: Option<Address>,
    pub config: Option<Config>,
    pub fee_rate: Option<u32>,
    pub max_discount_rate: Option<u32>,
    pub distribution_contract: Option<Address>,
    pub paused: Option<bool>,
    pub min_payer_reputation: Option<u32>,
    pub invoice_count: Option<u64>,
    pub next_invoice_id: Option<u64>,
}

/// Entries of persistent storage. `None` is an absent entry.
#[derive(Clone, Debug)]
pub struct Persistent {
    pub invoices: Table<u64, Invoice>,
    pub invoice_count: Option<u64>,
    pub payer_scores: Table<Address, ReputationScore>,
    pub invoice_funders: Table<u64, Vec<(Address, i128)>>,
    pub approved_tokens: Table<Address, bool>,
    pub token_list: Option<Vec<Address>>,
    pub reputations: Table<Address, ReputationProfile>,
    pub appeals: Table<u64, AppealRecord>,
    pub pre_default_payer_scores: Table<u64, u32>,
    pub lp_scores: Table<Address, u32>,
    pub fund_queues: Table<u64, Vec<LpFundRequest>>,
    pub queue_resolutions: Table<u64, Address>,
    pub total_invoices: Option<u64>,
    pub total_funded: Option<u64>,
    pub total_paid: Option<u64>,
    pub total_volume_usdc: Option<i128>,
    pub total_volume_eurc: Option<i128>,
    pub total_volume_xlm: Option<i128>,
    pub token_volumes: Table<Address, i128>,
    pub disputes: Table<u64, DisputeRecord>,
    pub submitter_invoices: Table<Address, Vec<u64>>,
    pub lp_invoices: Table<Address, Vec<u64>>,
}

/// Persistent storage as mathematical maps and sequences.
#[verifier::ext_equal]
pub struct PersistentView {
    pub invoices: Map<u64, Invoice>,
    pub invoice_count: Option<u64>,
    pub payer_scores: Map<Address, ReputationScore>,
    pub invoice_funders: Map<u64, Seq<(Address, i128)>>,
    pub approved_tokens: Map<Address, bool>,
    pub token_list: Option<Seq<Address>>,
    pub reputations: Map<Address, ReputationProfile>,
    pub appeals: Map<u64, AppealRecord>,
    pub pre_default_payer_scores: Map<u64, u32>,
    pub lp_scores: Map<Address, u32>,
    pub fund_queues: Map<u64, Seq<LpFundRequest>>,
    pub queue_resolutions: Map<u64, Address>,
    pub total_invoices: Option<u64>,
    pub total_funded: Option<u64>,
    pub total_paid: Option<u64>,
    pub total_volume_usdc: Option<i128>,
    pub total_volume_eurc: Option<i128>,
    pub total_volume_xlm: Option<i128>,
    pub token_volumes: Map<Address, i128>,
    pub disputes: Map<u64, DisputeRecord>,
    pub submitter_invoices: Map<Address, Seq<u64>>,
    pub lp_invoices: Map<Address, Seq<u64>>,
}

impl View for Persistent {
    type V = PersistentView;

    open spec fn view(&self) -> PersistentView {
        PersistentView {
            invoices: self.invoices@,
            invoice_count: self.invoice_count,
            payer_scores: self.payer_scores@,
            invoice_funders: self.invoice_funders@,
            approved_tokens: self.approved_tokens@,
            token_list: match self.token_list {
                Some(list) => Some(list@),
                None => None,
            },
            reputations: self.reputations@,
            appeals: self.appeals@,
            pre_default_payer_scores: self.pre_default_payer_scores@,
            lp_scores: self.lp_scores@,
            fund_queues: self.fund_queues@,
            queue_resolutions: self.queue_resolutions@,
            total_invoices: self.total_invoices,
            total_funded: self.total_funded,
            total_paid: self.total_paid,
            total_volume_usdc: self.total_volume_usdc,
            total_volume_eurc: self.total_volume_eurc,
            total_volume_xlm: self.total_volume_xlm,
            token_volumes: self.token_volumes@,
            disputes: self.disputes@,
            submitter_invoices: self.submitter_invoices@,
            lp_invoices: self.lp_invoices@,
        }
    }
}

/// One invocation: the ledger it runs in, the contract it runs, the answers that
/// the price oracle gives, storage, and the host calls made so far.
#[derive(Clone, Debug)]
pub struct Env {
    pub ledger: LedgerInfo,
    /// Address of the contract itself.
    pub contract: Address,
    /// Price of each token in basis points of a dollar, as the configured oracle
    /// reports it.
    pub oracle_prices: Table<Address, i128>,
    pub instance: Instance,
    pub persistent: Persistent,
    pub calls: Vec<HostCall>,
}

/// An invocation as mathematical values.
#[verifier::ext_equal]
pub struct EnvView {
    pub ledger: LedgerInfo,
    pub contract: Address,
    pub oracle_prices: Map<Address, i128>,
    pub instance: Instance,
    pub persistent: PersistentView,
    pub calls: Seq<HostCall>,
}

impl View for Env {
    type V = EnvView;

    open spec fn view(&self) -> EnvView {
        EnvView {
            ledger: self.ledger,
            contract: self.contract,
            oracle_prices: self.oracle_prices@,
            instance: self.instance,
            persistent: self.persistent@,
            calls: self.calls@,
        }
    }
}

impl EnvView {
    /// The invocation after one more host call.
    pub open spec fn called(self, call: HostCall) -> EnvView {
        EnvView { calls: self.calls.push(call), ..self }
    }

    /// The invocation after a row of host calls.
    pub open spec fn called_all(self, calls: Seq<HostCall>) -> EnvView {
        EnvView { calls: self.calls + calls, ..self }
    }

    /// The invocation after the authorisation of `who` was required.
    pub open spec fn authorized(self, who: Address) -> EnvView {
        self.called(HostCall::RequireAuth(who))
    }

    /// The invocation after `event` was published.
    pub open spec fn published(self, event: Event) -> EnvView {
        self.called(HostCall::Publish(event))
    }
}

/// No entry at all.
pub open spec fn empty_instance() -> Instance {
    Instance {
        admin: None,
        config: None,
        fee_rate: None,
        max_discount_rate: None,
        distribution_contract: None,
        paused: None,
        min_payer_reputation: None,
        invoice_count: None,
        next_invoice_id: None,
    }
}

/// No entry at all.
pub open spec fn empty_persistent() -> PersistentView {
    PersistentView {
        invoices: Map::empty(),
        invoice_count: None,
        payer_scores: Map::empty(),
        invoice_funders: Map::empty(),
        approved_tokens: Map::empty(),
        token_list: None,
        reputations: Map::empty(),
        appeals: Map::empty(),
        pre_default_payer_scores: Map::empty(),
        lp_scores: Map::empty(),
        fund_queues: Map::empty(),
        queue_resolutions: Map::empty(),
        total_invoices: None,
        total_funded: None,
        total_paid: None,
        total_volume_usdc: None,
        total_volume_eurc: None,
        total_volume_xlm: None,
        token_volumes: Map::empty(),
        disputes: Map::empty(),
        submitter_invoices: Map::empty(),
        lp_invoices: Map::empty(),
    }
}

impl Env {
    /// A freshly deployed contract: empty storage, no host call yet.
    pub fn new(contract: Address, ledger: LedgerInfo) -> (r: Env)
        ensures
            r@ == (EnvView {
                ledger,
                contract,
                oracle_prices: Map::empty(),
                instance: empty_instance(),
                persistent: empty_persistent(),
                calls: Seq::empty(),
            }),
    {
        Env {
            ledger,
            contract,
            oracle_prices: Table::new(),
            instance: Instance {
                admin: None,
                config: None,
                fee_rate: None,
                max_discount_rate: None,
                distribution_contract: None,
                paused: None,
                min_payer_reputation: None,
                invoice_count: None,
                next_invoice_id: None,
            },
            persistent: Persistent {
                invoices: Table::new(),
                invoice_count: None,
                payer_scores: Table::new(),
                invoice_funders: Table::new(),
                approved_tokens: Table::new(),
                token_list: None,
                reputations: Table::new(),
                appeals: Table::new(),
                pre_default_payer_scores: Table::new(),
                lp_scores: Table::new(),
                fund_queues: Table::new(),
                queue_resolutions: Table::new(),
                total_invoices: None,
                total_funded: None,
                total_paid: None,
                total_volume_usdc: None,
                total_volume_eurc: None,
                total_volume_xlm: None,
                token_volumes: Table::new(),
                disputes: Table::new(),
                submitter_invoices: Table::new(),
                lp_invoices: Table::new(),
            },
            calls: Vec::new(),
        }
    }

    /// Requires that `who` has authorised the invocation.
    pub fn require_auth(&mut self, who: Address)
        ensures
            final(self)@ == old(self)@.authorized(who),
    {
        self.calls.push(HostCall::RequireAuth(who));
    }

    /// Publishes an event.
    pub fn publish_event(&mut self, event: Event)
        ensures
            final(self)@ == old(self)@.published(event),
    {
        self.calls.push(HostCall::Publish(event));
    }

    /// Moves `amount` of `token` between two holders.
    pub fn transfer(&mut self, token: Address, from: Address, to: Address, amount: i128)
        ensures
            final(self)@ == old(self)@.called(HostCall::Transfer { token, from, to, amount }),
    {
        self.calls.push(HostCall::Transfer { token, from, to, amount });
    }

    /// Keeps the storage entry at `key` alive for longer.
    pub fn extend_ttl(&mut self, key: DataKey, threshold: u32, extend_to: u32)
        ensures
            final(self)@ == old(self)@.called(HostCall::ExtendTtl { key, threshold, extend_to }),
    {
        self.calls.push(HostCall::ExtendTtl { key, threshold, extend_to });
    }
}

} // verus!
