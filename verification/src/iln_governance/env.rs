//! What the contract sees of its host, and what it asks of it.

use crate::host::{Address, LedgerInfo};
use crate::iln_governance::links::{kept, look_up, Links, LinksView};
use crate::iln_governance::proposal::{Event, GovernanceProposal, ProposalAction};
use crate::table::{Key, Table};
use vstd::prelude::*;

verus! {

/// Names of the storage entries.
#[derive(Clone, Copy, Debug, PartialEq, Eq, Structural)]
pub enum StorageKey {
    IlnContract,
    GovToken,
    Proposal(u64),
    ProposalCount,
    VoteWeightSnapshot(u64, Address),
    HasVoted(u64, Address),
    /// Whom an address delegates to.
    Delegation(Address),
    /// Running tally of the weight that points, transitively, at an address that
    /// delegates to nobody.
    DelegatedToMe(Address),
    /// Running tally of the weight that points, transitively, at an address that
    /// delegates, and that goes on with it.
    PassedOn(Address),
}

impl Key for StorageKey {
    fn same(&self, other: &Self) -> (r: bool) {
        *self == *other
    }
}

/// A call that the contract makes on its host. The host performs the calls of
/// one invocation in order; where one fails, the whole invocation is undone.
#[derive(Clone, Copy, Debug, PartialEq)]
pub enum HostCall {
    /// The invocation stands only if this address has authorised it.
    RequireAuth(Address),
    /// Have the invoice contract carry out an action.
    Invoke { contract: Address, action: ProposalAction },
    /// Keep an entry of temporary storage alive for longer.
    ExtendTtl { key: StorageKey, threshold: u32, extend_to: u32 },
    /// Publish an event.
    Publish(Event),
}

/// One invocation: the ledger it runs in, the balances of the governance token,
/// storage, and the host calls made so far. `None` is an absent entry.
#[derive(Clone, Debug)]
pub struct Env {
    pub ledger: LedgerInfo,
    /// Balances of the governance token; an address that is not listed has none.
    pub balances: Table<Address, i128>,
    // Instance storage
    pub iln_contract: Option<Address>,
    pub gov_token: Option<Address>,
    pub proposal_count: Option<u64>,
    // Persistent storage
    pub proposals: Table<StorageKey, GovernanceProposal>,
    pub snapshots: Table<StorageKey, i128>,
    pub links: Links,
    // Temporary storage
    pub receipts: Table<StorageKey, bool>,
    pub calls: Vec<HostCall>,
}

/// An invocation as mathematical values.
#[verifier::ext_equal]
pub struct EnvView {
    pub ledger: LedgerInfo,
    pub balances: Map<Address, i128>,
    pub iln_contract: Option<Address>,
    pub gov_token: Option<Address>,
    pub proposal_count: Option<u64>,
    pub proposals: Map<StorageKey, GovernanceProposal>,
    pub snapshots: Map<StorageKey, i128>,
    pub links: LinksView,
    pub receipts: Map<StorageKey, bool>,
    pub calls: Seq<HostCall>,
}

impl View for Env {
    type V = EnvView;

    open spec fn view(&self) -> EnvView {
        EnvView {
            ledger: self.ledger,
            balances: self.balances@,
            iln_contract: self.iln_contract,
            gov_token: self.gov_token,
            proposal_count: self.proposal_count,
            proposals: self.proposals@,
            snapshots: self.snapshots@,
            links: self.links@,
            receipts: self.receipts@,
            calls: self.calls@,
        }
    }
}

impl EnvView {
    /// The invocation after one more host call.
    pub open spec fn called(self, call: HostCall) -> EnvView {
        EnvView { calls: self.calls.push(call), ..self }
    }

    /// The invocation after the authorisation of `who` was required.
    pub open spec fn authorized(self, who: Address) -> EnvView {
        self.called(HostCall::RequireAuth(who))
    }

    /// The invocation after `event` was published.
    pub open spec fn published(self, event: Event) -> EnvView {
        self.called(HostCall::Publish(event))
    }

    /// What an address holds of the governance token.
    pub open spec fn balance(self, who: Address) -> i128 {
        kept(self.balances, who)
    }

    /// Highest proposal number given out so far.
    pub open spec fn proposal_count(self) -> u64 {
        match self.proposal_count {
            Some(n) => n,
            None => 0,
        }
    }

    pub open spec fn has_proposal(self, id: u64) -> bool {
        self.proposals.contains_key(StorageKey::Proposal(id))
    }

    pub open spec fn proposal(self, id: u64) -> GovernanceProposal {
        self.proposals[StorageKey::Proposal(id)]
    }

    /// The invocation after a proposal was written under number `id`.
    pub open spec fn proposal_saved(self, id: u64, proposal: GovernanceProposal) -> EnvView {
        EnvView { proposals: self.proposals.insert(StorageKey::Proposal(id), proposal), ..self }
    }

    /// Whether `who` has voted on a proposal.
    pub open spec fn voted(self, id: u64, who: Address) -> bool {
        self.receipts.contains_key(StorageKey::HasVoted(id, who))
    }

    /// The weight that `who` has of their own on a proposal: what was put on
    /// record first, or the present balance where nothing was.
    pub open spec fn own_weight(self, id: u64, who: Address) -> i128 {
        if self.snapshots.contains_key(StorageKey::VoteWeightSnapshot(id, who)) {
            self.snapshots[StorageKey::VoteWeightSnapshot(id, who)]
        } else {
            self.balance(who)
        }
    }

    /// The invocation after the own weight of `who` on a proposal was put on
    /// record.
    pub open spec fn weight_recorded(self, id: u64, who: Address, weight: i128) -> EnvView {
        EnvView {
            snapshots: self.snapshots.insert(StorageKey::VoteWeightSnapshot(id, who), weight),
            ..self
        }
    }

    /// Whom an address delegates to.
    pub open spec fn delegate_of(self, who: Address) -> Option<Address> {
        self.links.delegate_of(who)
    }

    /// The weight that others have delegated to an address, and that it votes with.
    pub open spec fn delegated_to(self, who: Address) -> i128 {
        kept(self.links.delegated, who)
    }
}

impl Env {
    /// A freshly deployed contract: empty storage, no host call yet.
    pub fn new(ledger: LedgerInfo) -> (r: Env)
        ensures
            r@ == (EnvView {
                ledger,
                balances: Map::empty(),
                iln_contract: None,
                gov_token: None,
                proposal_count: None,
                proposals: Map::empty(),
                snapshots: Map::empty(),
                links: LinksView {
                    delegates: Map::empty(),
                    delegated: Map::empty(),
                    passed_on: Map::empty(),
                },
                receipts: Map::empty(),
                calls: Seq::empty(),
            }),
    {
        Env {
            ledger,
            balances: Table::new(),
            iln_contract: None,
            gov_token: None,
            proposal_count: None,
            proposals: Table::new(),
            snapshots: Table::new(),
            links: Links::new(),
            receipts: Table::new(),
            calls: Vec::new(),
        }
    }

    /// Requires that `who` has authorised the invocation.
    pub fn require_auth(&mut self, who: Address)
        ensures
            final(self)@ == old(self)@.authorized(who),
    {
        self.calls.push(HostCall::RequireAuth(who));
    }

    /// Publishes an event.
    pub fn publish_event(&mut self, event: Event)
        ensures
            final(self)@ == old(self)@.published(event),
    {
        self.calls.push(HostCall::Publish(event));
    }

    /// What an address holds of the governance token.
    pub fn balance(&self, who: &Address) -> (r: i128)
        ensures
            r == self@.balance(*who),
    {
        look_up(&self.balances, who)
    }
}

} // verus!
