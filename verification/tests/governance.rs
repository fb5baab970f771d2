use iln::host::{Address, Hash32, LedgerInfo};
use iln::iln_governance::contract::{
    VOTE_RECEIPT_TTL_LEDGERS, VOTE_RECEIPT_TTL_THRESHOLD_LEDGERS,
};
use iln::iln_governance::env::HostCall;
use iln::iln_governance::limits;
use iln::iln_governance::proposal::Event;
use iln::iln_governance::{
    Env, GovContract, GovernanceError, ProposalAction, ProposalStatus, StorageKey, VoteCast,
    VotesDelegated, VotesUndelegated,
};

struct GovTestEnv {
    env: Env,
    iln_contract: Address,
    voter_a: Address,
    voter_b: Address,
    proposer: Address,
}

fn address(n: u128) -> Address {
    Address { contract: false, hi: 0, lo: n }
}

fn mint(t: &mut GovTestEnv, who: Address, amount: i128) {
    let held = t.env.balance(&who);
    t.env.balances.set(who, held + amount);
}

fn setup() -> GovTestEnv {
    let token = Address { contract: true, hi: 0, lo: 1 };
    let iln_contract = Address { contract: true, hi: 0, lo: 2 };
    let mut t = GovTestEnv {
        env: Env::new(LedgerInfo { timestamp: 0, sequence: 0 }),
        iln_contract,
        voter_a: address(1),
        voter_b: address(2),
        proposer: address(3),
    };
    let (a, b, p) = (t.voter_a, t.voter_b, t.proposer);
    mint(&mut t, a, 1_000);
    mint(&mut t, b, 2_000);
    mint(&mut t, p, 500);
    GovContract::initialize(&mut t.env, iln_contract, token).unwrap();
    t.env.ledger.timestamp = 1_700_000_000;
    t
}

fn dummy_hash() -> Hash32 {
    let word = u128::from_be_bytes([1; 16]);
    Hash32 { hi: word, lo: word }
}

fn create(t: &mut GovTestEnv, action: ProposalAction, value: i128) -> u64 {
    GovContract::create_proposal(&mut t.env, t.proposer, action, dummy_hash(), value).unwrap()
}

fn create_fee_proposal(t: &mut GovTestEnv) -> u64 {
    create(t, ProposalAction::UpdateFeeRate(200), 200)
}

fn vote(t: &mut GovTestEnv, voter: Address, id: u64, support: bool) {
    GovContract::cast_vote(&mut t.env, voter, id, support).unwrap();
}

fn delegate(t: &mut GovTestEnv, from: Address, to: Address) {
    GovContract::delegate_votes(&mut t.env, from, to).unwrap();
}

fn undelegate(t: &mut GovTestEnv, from: Address) {
    GovContract::undelegate_votes(&mut t.env, from).unwrap();
}

fn votes(t: &GovTestEnv, id: u64) -> (i128, i128) {
    let p = GovContract::get_proposal(&t.env, id).unwrap();
    (p.votes_for, p.votes_against)
}

fn events(env: &Env) -> Vec<Event> {
    env.calls
        .iter()
        .filter_map(|call| match call {
            HostCall::Publish(event) => Some(*event),
            _ => None,
        })
        .collect()
}

// ── Proposals ─────────────────────────────────────────────────────

#[test]
fn test_create_proposal_stores_correct_fields() {
    let mut t = setup();
    let now = t.env.ledger.timestamp;
    let id = create(&mut t, ProposalAction::UpdateFeeRate(300), 300);
    let p = GovContract::get_proposal(&t.env, id).unwrap();
    assert_eq!(p.id, id);
    assert_eq!(p.proposer, t.proposer);
    assert_eq!(p.description_hash, dummy_hash());
    assert_eq!(p.action_type, ProposalAction::UpdateFeeRate(300));
    assert_eq!(p.proposed_value, 300);
    assert_eq!(p.status, ProposalStatus::Active);
    assert_eq!(p.votes_for, 0);
    assert_eq!(p.votes_against, 0);
    assert_eq!(p.created_at, now);
    assert_eq!(p.voting_end, now + 259_200);
}

#[test]
fn test_proposal_ids_increment() {
    let mut t = setup();
    let id1 = create_fee_proposal(&mut t);
    let id2 = create_fee_proposal(&mut t);
    assert_eq!(id2, id1 + 1);
}

#[test]
#[should_panic]
fn test_get_proposal_not_found_returns_error() {
    let t = setup();
    GovContract::get_proposal(&t.env, 9999).unwrap();
}

#[test]
fn test_proposal_action_add_token_stored_correctly() {
    let mut t = setup();
    let token_addr = address(50);
    let id = create(&mut t, ProposalAction::AddToken(token_addr), 0);
    let p = GovContract::get_proposal(&t.env, id).unwrap();
    assert_eq!(p.action_type, ProposalAction::AddToken(token_addr));
    assert_eq!(p.proposed_value, 0);
}

#[test]
fn test_proposal_action_remove_token_stored_correctly() {
    let mut t = setup();
    let token_addr = address(50);
    let id = create(&mut t, ProposalAction::RemoveToken(token_addr), 0);
    let p = GovContract::get_proposal(&t.env, id).unwrap();
    assert_eq!(p.action_type, ProposalAction::RemoveToken(token_addr));
}

#[test]
#[should_panic]
fn test_double_initialize_rejected() {
    let mut t = setup();
    GovContract::initialize(&mut t.env, address(60), address(61)).unwrap();
}

// ── Votes ─────────────────────────────────────────────────────────

#[test]
fn test_cast_vote_for_updates_votes_for() {
    let mut t = setup();
    let id = create_fee_proposal(&mut t);
    let a = t.voter_a;
    vote(&mut t, a, id, true);
    let p = GovContract::get_proposal(&t.env, id).unwrap();
    assert_eq!(p.votes_for, 1_000);
    assert_eq!(p.votes_against, 0);
}

#[test]
fn test_cast_vote_against_updates_votes_against() {
    let mut t = setup();
    let id = create_fee_proposal(&mut t);
    let a = t.voter_a;
    vote(&mut t, a, id, false);
    let p = GovContract::get_proposal(&t.env, id).unwrap();
    assert_eq!(p.votes_against, 1_000);
    assert_eq!(p.votes_for, 0);
}

#[test]
fn test_proposal_creation_snapshots_proposer_balance() {
    let mut t = setup();
    let id = create_fee_proposal(&mut t);
    let snapshot_key = StorageKey::VoteWeightSnapshot(id, t.proposer);
    let snapshot: i128 = *t.env.snapshots.get(&snapshot_key).unwrap();
    assert_eq!(snapshot, t.env.balance(&t.proposer));
}

#[test]
fn test_cast_vote_uses_snapshotted_balance_after_balance_increase() {
    let mut t = setup();
    let id = create(&mut t, ProposalAction::UpdateFeeRate(200), 200);
    let proposer = t.proposer;
    let proposer_balance_before = t.env.balance(&proposer);
    mint(&mut t, proposer, 2_000);
    vote(&mut t, proposer, id, true);
    let p = GovContract::get_proposal(&t.env, id).unwrap();
    assert_eq!(p.votes_for, proposer_balance_before);
    assert_eq!(p.votes_against, 0);
}

#[test]
fn test_cast_vote_weight_equals_token_balance() {
    let mut t = setup();
    let id = create_fee_proposal(&mut t);
    let b = t.voter_b;
    vote(&mut t, b, id, true);
    assert_eq!(votes(&t, id).0, 2_000);
}

#[test]
fn test_multiple_voters_accumulate_correctly() {
    let mut t = setup();
    let id = create_fee_proposal(&mut t);
    let (a, b) = (t.voter_a, t.voter_b);
    vote(&mut t, a, id, true);
    vote(&mut t, b, id, true);
    assert_eq!(votes(&t, id).0, 3_000);
}

#[test]
fn test_has_voted_returns_true_after_vote() {
    let mut t = setup();
    let id = create_fee_proposal(&mut t);
    let a = t.voter_a;
    assert!(!GovContract::has_voted(&t.env, a, id));
    vote(&mut t, a, id, true);
    assert!(GovContract::has_voted(&t.env, a, id));
}

#[test]
fn test_vote_receipt_uses_temporary_storage_with_ttl() {
    let mut t = setup();
    let id = create_fee_proposal(&mut t);
    let a = t.voter_a;
    let key = StorageKey::HasVoted(id, a);
    vote(&mut t, a, id, true);

    let temporary_has_receipt = t.env.receipts.has(&key);
    let persistent_has_receipt = t.env.proposals.has(&key) || t.env.snapshots.has(&key);
    let ttl = t
        .env
        .calls
        .iter()
        .find_map(|call| match call {
            HostCall::ExtendTtl { key: k, extend_to, .. } if *k == key => Some(*extend_to),
            _ => None,
        })
        .unwrap();
    assert!(temporary_has_receipt);
    assert!(!persistent_has_receipt);
    assert!(ttl >= VOTE_RECEIPT_TTL_THRESHOLD_LEDGERS);
    assert_eq!(ttl, VOTE_RECEIPT_TTL_LEDGERS);
}

#[test]
fn test_vote_receipt_available_within_ttl() {
    let mut t = setup();
    let id = create_fee_proposal(&mut t);
    let a = t.voter_a;
    vote(&mut t, a, id, true);
    t.env.ledger.sequence += VOTE_RECEIPT_TTL_THRESHOLD_LEDGERS - 1;
    t.env.ledger.timestamp += 1;
    assert!(GovContract::has_voted(&t.env, a, id));
}

#[test]
#[should_panic]
fn test_double_vote_rejected_with_already_voted_error() {
    let mut t = setup();
    let id = create_fee_proposal(&mut t);
    let a = t.voter_a;
    vote(&mut t, a, id, true);
    vote(&mut t, a, id, false);
}

#[test]
fn test_double_vote_does_not_change_vote_counts() {
    let mut t = setup();
    let id = create_fee_proposal(&mut t);
    let a = t.voter_a;
    vote(&mut t, a, id, true);
    assert_eq!(
        GovContract::cast_vote(&mut t.env, a, id, false),
        Err(GovernanceError::AlreadyVoted)
    );
    let p = GovContract::get_proposal(&t.env, id).unwrap();
    assert_eq!(p.votes_against, 0);
    assert_eq!(p.votes_for, 1_000);
}

#[test]
#[should_panic]
fn test_vote_on_nonexistent_proposal_rejected() {
    let mut t = setup();
    let a = t.voter_a;
    vote(&mut t, a, 9999, true);
}

#[test]
#[should_panic]
fn test_vote_after_voting_window_rejected() {
    let mut t = setup();
    let id = create_fee_proposal(&mut t);
    t.env.ledger.timestamp += 259_201;
    let a = t.voter_a;
    vote(&mut t, a, id, true);
}

#[test]
#[should_panic]
fn test_voter_with_zero_balance_rejected() {
    let mut t = setup();
    let id = create_fee_proposal(&mut t);
    vote(&mut t, address(70), id, true);
}

#[test]
fn test_cast_vote_emits_vote_cast_event() {
    let mut t = setup();
    let id = create_fee_proposal(&mut t);
    let a = t.voter_a;
    vote(&mut t, a, id, true);
    let published = events(&t.env);
    assert!(!published.is_empty(), "VoteCast event should be emitted");
    assert_eq!(
        published[0],
        Event::VoteCast(VoteCast { proposal_id: id, voter: a, support: true, weight: 1_000 })
    );
}

// ── Execution ─────────────────────────────────────────────────────

#[test]
#[should_panic]
fn test_execute_before_voting_ends_fails() {
    let mut t = setup();
    let id = create_fee_proposal(&mut t);
    let a = t.voter_a;
    vote(&mut t, a, id, true);
    GovContract::execute_proposal(&mut t.env, id, 10_000).unwrap();
}

#[test]
#[should_panic]
fn test_execute_quorum_not_reached_rejected() {
    let mut t = setup();
    let id = create_fee_proposal(&mut t);
    let a = t.voter_a;
    vote(&mut t, a, id, true);
    t.env.ledger.timestamp += 259_201;
    GovContract::execute_proposal(&mut t.env, id, 100_000).unwrap();
}

#[test]
#[should_panic]
fn test_proposal_rejected_when_against_wins() {
    let mut t = setup();
    let id = create_fee_proposal(&mut t);
    let (a, b) = (t.voter_a, t.voter_b);
    vote(&mut t, a, id, true);
    vote(&mut t, b, id, false);
    t.env.ledger.timestamp += 259_201;
    GovContract::execute_proposal(&mut t.env, id, 3_000).unwrap();
}

#[test]
#[should_panic]
fn test_already_resolved_proposal_cannot_be_executed_again() {
    let mut t = setup();
    let id = create_fee_proposal(&mut t);
    let a = t.voter_a;
    vote(&mut t, a, id, true);
    t.env.ledger.timestamp += 259_201;
    GovContract::execute_proposal(&mut t.env, id, 100_000).unwrap();
    GovContract::execute_proposal(&mut t.env, id, 100_000).unwrap();
}

// ── Delegation ────────────────────────────────────────────────────

#[test]
fn test_delegation_increases_delegate_vote_weight() {
    let mut t = setup();
    let (a, b) = (t.voter_a, t.voter_b);
    delegate(&mut t, a, b);
    let id = create_fee_proposal(&mut t);
    vote(&mut t, b, id, true);
    // Own 2_000 and 1_000 delegated.
    assert_eq!(votes(&t, id).0, 3_000);
}

#[test]
fn test_undelegation_removes_delegated_weight() {
    let mut t = setup();
    let (a, b) = (t.voter_a, t.voter_b);
    delegate(&mut t, a, b);
    undelegate(&mut t, a);
    let id = create_fee_proposal(&mut t);
    vote(&mut t, b, id, true);
    assert_eq!(votes(&t, id).0, 2_000);
}

#[test]
fn test_get_delegate_returns_correct_address() {
    let mut t = setup();
    let (a, b) = (t.voter_a, t.voter_b);
    delegate(&mut t, a, b);
    assert_eq!(GovContract::get_delegate(&t.env, a), Some(b));
}

#[test]
fn test_get_delegate_returns_none_after_undelegation() {
    let mut t = setup();
    let (a, b) = (t.voter_a, t.voter_b);
    delegate(&mut t, a, b);
    undelegate(&mut t, a);
    assert_eq!(GovContract::get_delegate(&t.env, a), None);
}

#[test]
fn test_transitive_delegation_a_to_b_to_c() {
    let mut t = setup();
    let (a, b) = (t.voter_a, t.voter_b);
    let voter_c = address(71);
    mint(&mut t, voter_c, 3_000);
    delegate(&mut t, b, voter_c);
    delegate(&mut t, a, b);
    let id = create_fee_proposal(&mut t);
    vote(&mut t, voter_c, id, true);
    // Own 3_000, 2_000 and 1_000 delegated.
    assert_eq!(votes(&t, id).0, 6_000);
}

#[test]
#[should_panic]
fn test_cycle_prevention_direct_a_b_b_a() {
    let mut t = setup();
    let (a, b) = (t.voter_a, t.voter_b);
    delegate(&mut t, a, b);
    delegate(&mut t, b, a);
}

#[test]
#[should_panic]
fn test_delegate_to_self_rejected() {
    let mut t = setup();
    let a = t.voter_a;
    delegate(&mut t, a, a);
}

#[test]
#[should_panic]
fn test_cycle_prevention_indirect_a_b_c_a() {
    let mut t = setup();
    let (a, b) = (t.voter_a, t.voter_b);
    let voter_c = address(71);
    mint(&mut t, voter_c, 500);
    delegate(&mut t, a, b);
    delegate(&mut t, b, voter_c);
    delegate(&mut t, voter_c, a);
}

#[test]
fn test_redelegation_moves_weight_to_new_delegate() {
    let mut t = setup();
    let (a, b) = (t.voter_a, t.voter_b);
    let voter_c = address(71);
    mint(&mut t, voter_c, 500);
    delegate(&mut t, a, b);
    delegate(&mut t, a, voter_c);
    let id = create_fee_proposal(&mut t);
    vote(&mut t, b, id, false);
    assert_eq!(votes(&t, id).1, 2_000);
    vote(&mut t, voter_c, id, true);
    assert_eq!(votes(&t, id).0, 1_500);
}

#[test]
fn test_delegate_votes_emits_votes_delegated_event() {
    let mut t = setup();
    let (a, b) = (t.voter_a, t.voter_b);
    delegate(&mut t, a, b);
    let published = events(&t.env);
    assert!(!published.is_empty(), "VotesDelegated event should be emitted");
    assert_eq!(
        published[0],
        Event::VotesDelegated(VotesDelegated { delegator: a, delegate: b })
    );
}

#[test]
fn test_undelegate_votes_emits_votes_undelegated_event() {
    let mut t = setup();
    let (a, b) = (t.voter_a, t.voter_b);
    delegate(&mut t, a, b);
    undelegate(&mut t, a);
    let published = events(&t.env);
    assert!(published.len() >= 2, "VotesUndelegated event should be emitted");
    assert_eq!(published[1], Event::VotesUndelegated(VotesUndelegated { delegator: a }));
}

#[test]
fn test_zero_balance_voter_with_delegation_can_vote() {
    let mut t = setup();
    let a = t.voter_a;
    let receiver = address(72);
    delegate(&mut t, a, receiver);
    let id = create_fee_proposal(&mut t);
    vote(&mut t, receiver, id, true);
    assert_eq!(votes(&t, id).0, 1_000);
}

// ── Refusals, one by one ──────────────────────────────────────────

#[test]
fn governance_refusals_name_their_reason() {
    let mut t = setup();
    let (a, b) = (t.voter_a, t.voter_b);
    let iln = t.iln_contract;
    assert_eq!(
        GovContract::initialize(&mut t.env, iln, iln),
        Err(GovernanceError::AlreadyInitialized)
    );
    assert_eq!(GovContract::get_proposal(&t.env, 1), Err(GovernanceError::ProposalNotFound));
    assert_eq!(
        GovContract::cast_vote(&mut t.env, a, 1, true),
        Err(GovernanceError::ProposalNotFound)
    );
    assert_eq!(
        GovContract::execute_proposal(&mut t.env, 1, 1),
        Err(GovernanceError::ProposalNotFound)
    );
    let id = create_fee_proposal(&mut t);
    assert_eq!(
        GovContract::cast_vote(&mut t.env, address(80), id, true),
        Err(GovernanceError::NoVotingPower)
    );
    vote(&mut t, a, id, true);
    assert_eq!(
        GovContract::execute_proposal(&mut t.env, id, 10_000),
        Err(GovernanceError::VotingOngoing)
    );
    assert_eq!(
        GovContract::delegate_votes(&mut t.env, a, a),
        Err(GovernanceError::CannotDelegateToSelf)
    );
    delegate(&mut t, a, b);
    assert_eq!(
        GovContract::delegate_votes(&mut t.env, b, a),
        Err(GovernanceError::DelegationCyclePrevented)
    );
    t.env.ledger.timestamp += 259_200;
    assert_eq!(
        GovContract::cast_vote(&mut t.env, b, id, true),
        Err(GovernanceError::VotingEnded)
    );
    assert_eq!(
        GovContract::execute_proposal(&mut t.env, id, 10_010),
        Err(GovernanceError::QuorumNotReached)
    );
    assert_eq!(
        GovContract::get_proposal(&t.env, id).unwrap().status,
        ProposalStatus::Rejected
    );
    assert_eq!(
        GovContract::execute_proposal(&mut t.env, id, 10_000),
        Err(GovernanceError::AlreadyResolved)
    );
    t.env.ledger.timestamp -= 1;
    assert_eq!(
        GovContract::cast_vote(&mut t.env, b, id, true),
        Err(GovernanceError::ProposalNotActive)
    );
}

#[test]
fn governance_carries_out_what_was_voted_for() {
    let mut t = setup();
    let (a, b) = (t.voter_a, t.voter_b);
    let id = create(&mut t, ProposalAction::UpdateMaxDiscountRate(4000), 4000);
    vote(&mut t, b, id, true);
    vote(&mut t, a, id, false);
    t.env.ledger.timestamp += 259_200;
    t.env.calls.clear();
    // A tenth of 30_009 is 3_000, which is just reached.
    GovContract::execute_proposal(&mut t.env, id, 30_009).unwrap();
    assert_eq!(
        t.env.calls,
        vec![HostCall::Invoke {
            contract: t.iln_contract,
            action: ProposalAction::UpdateMaxDiscountRate(4000),
        }]
    );
    assert_eq!(
        GovContract::get_proposal(&t.env, id).unwrap().status,
        ProposalStatus::Executed
    );
    assert_eq!(ProposalAction::UpdateMaxDiscountRate(1).entry_point(), "update_max_discount");
    assert_eq!(ProposalAction::UpdateFeeRate(1).entry_point(), "update_fee_rate");
    assert_eq!(ProposalAction::AddToken(a).entry_point(), "add_token");
    assert_eq!(ProposalAction::RemoveToken(a).entry_point(), "remove_token");

    // A tie does not carry.
    let (c, d) = (address(91), address(92));
    mint(&mut t, c, 7);
    mint(&mut t, d, 7);
    let tie = create_fee_proposal(&mut t);
    vote(&mut t, c, tie, true);
    vote(&mut t, d, tie, false);
    t.env.ledger.timestamp += 259_200;
    assert_eq!(
        GovContract::execute_proposal(&mut t.env, tie, 10),
        Err(GovernanceError::ProposalRejected)
    );
}

#[test]
fn delegating_and_taking_it_back_changes_nothing() {
    let mut t = setup();
    let (a, b) = (t.voter_a, t.voter_b);
    let c = address(93);
    delegate(&mut t, c, b);
    delegate(&mut t, a, b);
    assert_eq!(t.env.links.delegated.get(&b), Some(&1_000));
    undelegate(&mut t, a);
    assert!(!t.env.links.delegated.has(&b));
    assert_eq!(GovContract::get_delegate(&t.env, c), Some(b));
    // Taking back what was not delegated is no error.
    undelegate(&mut t, a);
}

fn tally(t: &GovTestEnv, who: Address) -> i128 {
    t.env.links.delegated.get(&who).copied().unwrap_or(0)
}

#[test]
fn weight_flows_on_whatever_the_order_of_the_links() {
    let c = address(93);
    let mut t = setup();
    let (a, b) = (t.voter_a, t.voter_b);
    delegate(&mut t, a, b);
    assert_eq!(tally(&t, b), 1_000);
    delegate(&mut t, b, c);
    assert_eq!((tally(&t, b), tally(&t, c)), (0, 3_000));

    let mut u = setup();
    delegate(&mut u, b, c);
    delegate(&mut u, a, b);
    assert_eq!((tally(&u, b), tally(&u, c)), (0, 3_000));

    let id = create_fee_proposal(&mut t);
    vote(&mut t, c, id, true);
    assert_eq!(votes(&t, id).0, 3_000);
}

#[test]
fn what_comes_to_a_delegator_moves_with_them() {
    let mut t = setup();
    let (a, b, p) = (t.voter_a, t.voter_b, t.proposer);
    let (c, d) = (address(93), address(94));
    delegate(&mut t, a, b);
    delegate(&mut t, p, a);
    delegate(&mut t, b, c);
    assert_eq!(tally(&t, c), 3_500);
    // A link in the middle is laid to another end.
    delegate(&mut t, a, d);
    assert_eq!((tally(&t, c), tally(&t, d)), (2_000, 1_500));
    // And taken away: what was passed on stays with whoever passed it on.
    undelegate(&mut t, a);
    assert_eq!((tally(&t, a), tally(&t, c), tally(&t, d)), (500, 2_000, 0));
    undelegate(&mut t, p);
    undelegate(&mut t, b);
    assert_eq!((tally(&t, a), tally(&t, b), tally(&t, c)), (0, 0, 0));
    assert_eq!(t.env.links.passed_on.len(), 0);
    assert_eq!(t.env.links.delegates.len(), 0);
}

#[test]
fn delegations_are_followed_to_the_end() {
    let mut t = setup();
    let chain: Vec<Address> = (100..130).map(address).collect();
    let last = chain.len() - 1;
    for who in chain.iter() {
        mint(&mut t, *who, 1);
    }
    for i in 0..last {
        delegate(&mut t, chain[i], chain[i + 1]);
    }
    assert_eq!(tally(&t, chain[last]), last as i128);
    assert_eq!(tally(&t, chain[11]), 0);
    for start in 0..last {
        assert_eq!(
            GovContract::delegate_votes(&mut t.env, chain[last], chain[start]),
            Err(GovernanceError::DelegationCyclePrevented)
        );
    }
    // Cut in the middle, both halves have an end of their own.
    undelegate(&mut t, chain[9]);
    assert_eq!((tally(&t, chain[9]), tally(&t, chain[last])), (9, last as i128 - 10));
    delegate(&mut t, chain[last], chain[0]);
    assert_eq!(tally(&t, chain[9]), last as i128);
}

#[test]
fn calls_need_a_contract_that_is_set_up() {
    let bare = Env::new(LedgerInfo { timestamp: 0, sequence: 0 });
    assert!(!limits::can_propose(&bare));
    assert!(!limits::can_delegate(&bare, &address(1), &address(2)));
    // A refused call needs nothing.
    assert!(limits::can_delegate(&bare, &address(1), &address(1)));
    assert!(limits::can_undelegate(&bare, &address(1)));
    assert!(limits::can_vote(&bare, &address(1), 1, true));
    assert!(limits::can_execute(&bare, 1, 1_000));
}

#[test]
fn weights_must_add_up() {
    let mut t = setup();
    let (a, b) = (t.voter_a, t.voter_b);
    assert!(limits::can_propose(&t.env));
    let id = create_fee_proposal(&mut t);
    assert!(limits::can_vote(&t.env, &a, id, true));
    assert!(limits::can_delegate(&t.env, &a, &b));
    t.env.balances.set(a, i128::MAX);
    vote(&mut t, b, id, true);
    assert!(!limits::can_vote(&t.env, &a, id, true));
    assert!(limits::can_vote(&t.env, &a, id, false));
    t.env.balances.set(a, 1_000);
    delegate(&mut t, a, b);
    assert!(limits::can_undelegate(&t.env, &a));
    t.env.balances.set(a, i128::MIN);
    assert!(!limits::can_undelegate(&t.env, &a));
    t.env.ledger.timestamp += 60 * 60 * 24 * 365;
    assert!(limits::can_execute(&t.env, id, 1_000));
    t.env.iln_contract = None;
    assert!(!limits::can_execute(&t.env, id, 1_000));
    t.env.ledger.timestamp = u64::MAX;
    assert!(!limits::can_propose(&t.env));
}
