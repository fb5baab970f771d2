//! What the contract sees of its host, and what it asks of it.

use crate::host::Address;
use crate::reputation_bonus::config::Config;
use crate::reputation_bonus::events::Event;
use crate::reputation_bonus::invoice::{Invoice, InvoiceKey};
use crate::reputation_bonus::reputation::{ReputationKey, ReputationScore};
use crate::table::Table;
use vstd::prelude::*;

verus! {

/// A call that the contract makes on its host. The host performs the calls of
/// one invocation in order; where one fails, the whole invocation is undone.
#[derive(Clone, Copy, Debug, PartialEq)]
pub enum HostCall {
    /// The invocation stands only if this address has authorised it.
    RequireAuth(Address),
    /// Publish an event.
    Publish(Event),
}

/// One invocation: storage and the host calls made so far. `None` is an absent
/// entry.
#[derive(Clone, Debug)]
pub struct Env {
    pub admin: Option<Address>,
    pub config: Option<Config>,
    pub invoice_count: Option<u64>,
    pub invoices: Table<InvoiceKey, Invoice>,
    pub reputations: Table<ReputationKey, ReputationScore>,
    pub calls: Vec<HostCall>,
}

/// An invocation as mathematical values.
#[verifier::ext_equal]
pub struct EnvView {
    pub admin: Option<Address>,
    pub config: Option<Config>,
    pub invoice_count: Option<u64>,
    pub invoices: Map<InvoiceKey, Invoice>,
    pub reputations: Map<ReputationKey, ReputationScore>,
    pub calls: Seq<HostCall>,
}

impl View for Env {
    type V = EnvView;

    open spec fn view(&self) -> EnvView {
        EnvView {
            admin: self.admin,
            config: self.config,
            invoice_count: self.invoice_count,
            invoices: self.invoices@,
            reputations: self.reputations@,
            calls: self.calls@,
        }
    }
}

impl EnvView {
    /// The invocation after the authorisation of `who` was required.
    pub open spec fn authorized(self, who: Address) -> EnvView {
        EnvView { calls: self.calls.push(HostCall::RequireAuth(who)), ..self }
    }

    /// The invocation after `event` was published.
    pub open spec fn published(self, event: Event) -> EnvView {
        EnvView { calls: self.calls.push(HostCall::Publish(event)), ..self }
    }

    pub open spec fn has_invoice(self, id: u64) -> bool {
        self.invoices.contains_key(InvoiceKey::Invoice(id))
    }

    pub open spec fn invoice(self, id: u64) -> Invoice {
        self.invoices[InvoiceKey::Invoice(id)]
    }

    /// The invocation after `invoice` was written under number `id`.
    pub open spec fn invoice_saved(self, id: u64, invoice: Invoice) -> EnvView {
        EnvView { invoices: self.invoices.insert(InvoiceKey::Invoice(id), invoice), ..self }
    }
}

impl Env {
    /// A freshly deployed contract: empty storage, no host call yet.
    pub fn new() -> (r: Env)
        ensures
            r@ == (EnvView {
                admin: None,
                config: None,
                invoice_count: None,
                invoices: Map::empty(),
                reputations: Map::empty(),
                calls: Seq::empty(),
            }),
    {
        Env {
            admin: None,
            config: None,
            invoice_count: None,
            invoices: Table::new(),
            reputations: Table::new(),
            calls: Vec::new(),
        }
    }

    /// Requires that `who` has authorised the invocation.
    pub fn require_auth(&mut self, who: Address)
        ensures
            final(self)@ == old(self)@.authorized(who),
    {
        self.calls.push(HostCall::RequireAuth(who));
    }

    /// Publishes an event.
    pub fn publish_event(&mut self, event: Event)
        ensures
            final(self)@ == old(self)@.published(event),
    {
        self.calls.push(HostCall::Publish(event));
    }
}

} // verus!
