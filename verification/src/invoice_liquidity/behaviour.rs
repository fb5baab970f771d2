//! What callers can rely on across calls: pauses, refusals, the queue, appeals,
//! disputes, scores and the allowlist.

use crate::host::{Address, Hash32, LedgerInfo};
use crate::invoice_liquidity::contract::{initialized, token_approved, token_disapproved};
use crate::invoice_liquidity::defaults::{
    appeal_refusal, appeal_resolution_refusal, appeal_resolved, appealed, default_refusal,
    defaulted, penalized,
};
use crate::invoice_liquidity::disputes::{
    dispute_refusal, dispute_rejected, disputed, timeout_refusal,
};
use crate::invoice_liquidity::env::{empty_persistent, EnvView, HostCall, Instance};
use crate::invoice_liquidity::errors::ContractError;
use crate::invoice_liquidity::funding::{
    best_request, fund_refusal, fund_refused, funded, in_queue, join_refusal, joined,
    queue_resolved,
};
use crate::invoice_liquidity::invoice::{InvoiceParams, InvoiceStatus, LpFundRequest};
use crate::invoice_liquidity::laws::books_sound;
use crate::invoice_liquidity::model::{
    capped, decay_periods, decay_step, decayed, ledgers_since, share_decay_step, share_decayed,
};
use crate::invoice_liquidity::money::{any_transfer, lemma_filter_push};
use crate::invoice_liquidity::settlement::{pay_refusal, pay_refused, settled};
use crate::invoice_liquidity::storage::{lemma_whole_periods, DataKey};
use crate::invoice_liquidity::submission::{
    batch_refusal, batch_refused, cancel_refusal, first_refused, lapsed, owner_refused,
    submit_refusal, transfer_refusal, update_refusal, update_refused,
};
use crate::list::law_without_takes_out_exactly;
use vstd::prelude::*;

verus! {

// ----------------------------------------------------------------
// Pauses and refusals
// ----------------------------------------------------------------

/// While the contract is paused, submissions, corrections, transfers,
/// cancellations, funding, payments, claims of default and disputes are all
/// answered that it is paused.
pub proof fn law_pause_blocks(
    s: EnvView,
    p: InvoiceParams,
    items: Seq<InvoiceParams>,
    who: Address,
    id: u64,
    amount: i128,
    due_date: u64,
    rate: u32,
)
    requires
        s.is_paused(),
    ensures
        submit_refusal(s, p) == Some(ContractError::ContractPaused),
        batch_refusal(s, items) == Some(ContractError::ContractPaused),
        update_refusal(s, who, id, amount, due_date, rate) == Some(ContractError::ContractPaused),
        transfer_refusal(s, id) == Some(ContractError::ContractPaused),
        cancel_refusal(s, id) == Some(ContractError::ContractPaused),
        fund_refusal(s, who, id, amount as int) == Some(ContractError::ContractPaused),
        pay_refusal(s, id, amount as int) == Some(ContractError::ContractPaused),
        default_refusal(s, who, id) == Some(ContractError::ContractPaused),
        dispute_refusal(s, id) == Some(ContractError::ContractPaused),
{
}

/// The contract after a pause that has ended.
pub open spec fn resumed(s: EnvView) -> EnvView {
    s.with_instance(Instance { paused: Some(false), ..s.instance })
}

/// After a pause everything is answered as it was before.
pub proof fn law_unpause_restores(
    s: EnvView,
    p: InvoiceParams,
    items: Seq<InvoiceParams>,
    who: Address,
    id: u64,
    amount: i128,
    due_date: u64,
    rate: u32,
)
    requires
        !s.is_paused(),
    ensures
        submit_refusal(resumed(s), p) == submit_refusal(s, p),
        batch_refusal(resumed(s), items) == batch_refusal(s, items),
        update_refusal(resumed(s), who, id, amount, due_date, rate) == update_refusal(
            s,
            who,
            id,
            amount,
            due_date,
            rate,
        ),
        transfer_refusal(resumed(s), id) == transfer_refusal(s, id),
        cancel_refusal(resumed(s), id) == cancel_refusal(s, id),
        fund_refusal(resumed(s), who, id, amount as int) == fund_refusal(
            s,
            who,
            id,
            amount as int,
        ),
        pay_refusal(resumed(s), id, amount as int) == pay_refusal(s, id, amount as int),
        default_refusal(resumed(s), who, id) == default_refusal(s, who, id),
        dispute_refusal(resumed(s), id) == dispute_refusal(s, id),
{
    lemma_first_refused_same(s, resumed(s), items);
}

proof fn lemma_first_refused_same(s: EnvView, t: EnvView, items: Seq<InvoiceParams>)
    requires
        t.ledger == s.ledger,
        t.persistent == s.persistent,
        t.instance.max_discount_rate == s.instance.max_discount_rate,
    ensures
        first_refused(t, items) == first_refused(s, items),
    decreases items.len(),
{
    if items.len() > 0 {
        lemma_first_refused_same(s, t, items.drop_last());
    }
}

/// A batch that is refused leaves storage as it was: it is all or nothing.
pub proof fn law_refused_batch_changes_nothing(s: EnvView, items: Seq<InvoiceParams>)
    ensures
        batch_refused(s, items).persistent == s.persistent,
        batch_refused(s, items).instance == s.instance,
{
}

/// A request that is refused leaves storage as it was, except that an invoice
/// found past its due date without funding is marked expired.
pub proof fn law_refused_requests_change_nothing(
    s: EnvView,
    who: Address,
    id: u64,
    amount: int,
)
    ensures
        !lapsed(s, id) ==> update_refused(s, who, id).persistent == s.persistent,
        !lapsed(s, id) ==> fund_refused(s, who, id).persistent == s.persistent,
        update_refused(s, who, id).instance == s.instance,
        fund_refused(s, who, id).instance == s.instance,
        owner_refused(s, id).persistent == s.persistent,
        owner_refused(s, id).instance == s.instance,
        pay_refused(s, id, amount).persistent == s.persistent,
        pay_refused(s, id, amount).instance == s.instance,
{
}

// ----------------------------------------------------------------
// The queue
// ----------------------------------------------------------------

/// Nobody is in the queue twice.
pub open spec fn queue_distinct(queue: Seq<LpFundRequest>) -> bool {
    forall|i: int, j: int|
        0 <= i < j < queue.len() ==> (#[trigger] queue[i]).lp != (#[trigger] queue[j]).lp
}

/// Joining keeps everyone in the queue once, the newcomer last, with the score
/// they have at that moment.
pub proof fn law_join_once(s: EnvView, lp: Address, id: u64)
    requires
        join_refusal(s, lp, id) is None,
        queue_distinct(s.fund_queue(id)),
    ensures
        queue_distinct(joined(s, lp, id).fund_queue(id)),
        joined(s, lp, id).fund_queue(id).last() == (LpFundRequest { lp, score: s.lp_score(lp) }),
        join_refusal(joined(s, lp, id), lp, id) == Some(ContractError::AlreadyInQueue),
{
    let before = s.fund_queue(id);
    let after = joined(s, lp, id).fund_queue(id);
    assert(after == before.push(LpFundRequest { lp, score: s.lp_score(lp) }));
    assert forall|i: int, j: int| 0 <= i < j < after.len() implies (#[trigger] after[i]).lp != (
    #[trigger] after[j]).lp by {
        if j == before.len() {
            assert(before[i].lp != lp);
        } else {
            assert(before[i].lp != before[j].lp);
        }
    }
    assert(after[before.len() as int].lp == lp);
    assert(in_queue(after, lp));
}

/// Once the queue is resolved, only the winner can fund, and nobody can join.
pub proof fn law_only_the_winner_funds(s: EnvView, other: Address, id: u64, amount: int)
    requires
        s.has_invoice(id),
        s.fund_queue(id).len() > 0,
        !s.is_paused(),
        other != s.fund_queue(id)[best_request(s.fund_queue(id))].lp,
    ensures
        queue_resolved(s, id).queue_resolution(id) == Some(
            s.fund_queue(id)[best_request(s.fund_queue(id))].lp,
        ),
        fund_refusal(queue_resolved(s, id), other, id, amount) == Some(
            ContractError::NotApprovedFunder,
        ),
        join_refusal(queue_resolved(s, id), other, id) == Some(ContractError::NotApprovedFunder),
{
}

/// A funder is told that they are not approved exactly if the queue was resolved in
/// favour of somebody else; then nothing that is stored changes and no money moves.
pub proof fn law_the_queue_decides_who_funds(s: EnvView, funder: Address, id: u64, amount: int)
    requires
        !s.is_paused(),
        s.has_invoice(id),
    ensures
        fund_refusal(s, funder, id, amount) == Some(ContractError::NotApprovedFunder)
            <==> s.queue_resolution(id) is Some && s.queue_resolution(id) != Some(funder),
        s.queue_resolution(id) is Some && s.queue_resolution(id) != Some(funder) ==> {
            let t = fund_refused(s, funder, id);
            &&& t.persistent == s.persistent
            &&& t.instance == s.instance
            &&& t.calls.filter(any_transfer()) == s.calls.filter(any_transfer())
        },
{
    lemma_filter_push(s.calls, HostCall::RequireAuth(funder), any_transfer());
}

/// An invoice without a resolved queue is open to all comers.
pub proof fn law_without_a_queue_anyone_funds(
    s: EnvView,
    a: Address,
    b: Address,
    id: u64,
    amount: int,
)
    requires
        s.queue_resolution(id) is None,
    ensures
        fund_refusal(s, a, id, amount) == fund_refusal(s, b, id, amount),
{
}

// ----------------------------------------------------------------
// Appeals and disputes
// ----------------------------------------------------------------

/// The same storage at another time.
pub open spec fn at(s: EnvView, ledger: LedgerInfo) -> EnvView {
    EnvView { ledger, ..s }
}

/// An appeal that is upheld gives the payer exactly the score that they had before
/// the default, however much time passes in between.
pub proof fn law_upheld_appeal_restores_the_score(
    s: EnvView,
    funder: Address,
    id: u64,
    hash: Hash32,
    filed: LedgerInfo,
    resolved: LedgerInfo,
)
    requires
        books_sound(s),
        default_refusal(s, funder, id) is None,
        s.payer_score(s.invoice(id).payer) <= 100,
    ensures
        ({
            let payer = s.invoice(id).payer;
            let t = at(defaulted(s, funder, id), filed);
            let u = at(appealed(t, id, hash), resolved);
            &&& s.instance.admin is Some ==> appeal_resolution_refusal(u, id) is None
            &&& appeal_resolved(u, id, true).payer_score(payer) == s.payer_score(payer)
        }),
{
    let payer = s.invoice(id).payer;
    assert(s.has_invoice(id));
    let t = at(defaulted(s, funder, id), filed);
    let u = at(appealed(t, id, hash), resolved);
    let v = appeal_resolved(u, id, true);
    assert(t.invoice(id).payer == payer);
    assert(u.appeal(id)->0.pre_default_score == s.payer_score(payer));
    lemma_fresh_score(v, payer);
}

/// An appeal that is turned down leaves the payer five points below the score that
/// they had before the default, as far as there were any, while less than a period
/// of decay passes.
pub proof fn law_rejected_appeal_leaves_the_penalty(
    s: EnvView,
    funder: Address,
    id: u64,
    hash: Hash32,
    filed: LedgerInfo,
    resolved: LedgerInfo,
)
    requires
        books_sound(s),
        default_refusal(s, funder, id) is None,
        s.payer_score(s.invoice(id).payer) <= 100,
        decay_periods(s.instance.config, resolved.sequence, s.ledger.sequence) == 0,
    ensures
        ({
            let payer = s.invoice(id).payer;
            let t = at(defaulted(s, funder, id), filed);
            let u = at(appealed(t, id, hash), resolved);
            &&& s.instance.admin is Some ==> appeal_resolution_refusal(u, id) is None
            &&& appeal_resolved(u, id, false).payer_score(payer) == penalized(
                s.payer_score(payer) as int,
            )
        }),
{
    let payer = s.invoice(id).payer;
    assert(s.has_invoice(id));
    let d = defaulted(s, funder, id);
    let u = at(appealed(at(d, filed), id, hash), resolved);
    let v = appeal_resolved(u, id, false);
    lemma_fresh_score(d, payer);
    assert(v.persistent.payer_scores == d.persistent.payer_scores);
}

/// Whichever way an appeal is decided, the invoice is defaulted again, no money moves,
/// nobody else's score changes, and the appeal cannot be decided a second time.
pub proof fn law_appeals_are_decided_once(s: EnvView, id: u64, upheld: bool, other: Address)
    requires
        books_sound(s),
        appeal_resolution_refusal(s, id) is None,
        other != s.invoice(id).payer,
    ensures
        ({
            let t = appeal_resolved(s, id, upheld);
            &&& t.invoice(id).status == InvoiceStatus::Defaulted
            &&& t.calls.filter(any_transfer()) == s.calls.filter(any_transfer())
            &&& t.payer_score(other) == s.payer_score(other)
            &&& appeal_resolution_refusal(t, id) == Some(ContractError::NotDefaulted)
        }),
{
    assert(s.has_invoice(id));
    let t = appeal_resolved(s, id, upheld);
    let asked = s.calls.push(HostCall::RequireAuth(s.instance.admin->0));
    let kept = asked.push(
        HostCall::ExtendTtl {
            key: DataKey::Invoice(id),
            threshold: 1_000_000,
            extend_to: 2_000_000,
        },
    );
    lemma_filter_push(s.calls, asked.last(), any_transfer());
    lemma_filter_push(asked, kept.last(), any_transfer());
    lemma_filter_push(kept, t.calls.last(), any_transfer());
    assert(t.calls =~= kept.push(t.calls.last()));
}

/// A score that was just stored has not decayed.
proof fn lemma_fresh_score(s: EnvView, payer: Address)
    requires
        s.persistent.payer_scores.contains_key(payer),
        s.persistent.payer_scores[payer].last_activity_ledger == s.ledger.sequence,
    ensures
        s.payer_score(payer) == s.persistent.payer_scores[payer].score,
{
    if s.instance.config is Some && s.instance.config->0.decay_period_ledgers > 0 {
        lemma_whole_periods(0, s.instance.config->0.decay_period_ledgers as int);
    }
}

/// A default costs the payer five points, as far as there are any; settling
/// earns one, up to a hundred.
pub proof fn law_scores_follow_conduct(s: EnvView, funder: Address, id: u64, amount: i128)
    requires
        s.payer_score(s.invoice(id).payer) <= 100,
    ensures
        defaulted(s, funder, id).payer_score(s.invoice(id).payer) == penalized(
            s.payer_score(s.invoice(id).payer) as int,
        ),
        settled(s, id, amount).payer_score(s.invoice(id).payer) == capped(
            s.payer_score(s.invoice(id).payer) + 1,
        ),
{
    lemma_fresh_score(defaulted(s, funder, id), s.invoice(id).payer);
    lemma_fresh_score(settled(s, id, amount), s.invoice(id).payer);
}

/// A default can be appealed once.
pub proof fn law_one_appeal_per_invoice(s: EnvView, id: u64, hash: Hash32)
    requires
        books_sound(s),
        appeal_refusal(s, id) is None,
    ensures
        appeal_refusal(appealed(s, id, hash), id) == Some(ContractError::AlreadyAppealed),
{
    assert(s.has_invoice(id));
}

/// An invoice can be disputed once, even after the dispute was rejected.
pub proof fn law_one_dispute_per_invoice(s: EnvView, id: u64, hash: Hash32, other: Hash32)
    requires
        books_sound(s),
        dispute_refusal(s, id) is None,
    ensures
        dispute_refusal(disputed(s, id, hash), id) == Some(ContractError::AlreadyDisputed),
        dispute_refusal(dispute_rejected(disputed(s, id, hash), id, other), id) == Some(
            ContractError::AlreadyDisputed,
        ),
{
    assert(s.has_invoice(id));
}

/// A disputed invoice can be neither funded nor paid nor defaulted.
pub proof fn law_dispute_freezes_the_invoice(
    s: EnvView,
    id: u64,
    hash: Hash32,
    who: Address,
    amount: int,
)
    requires
        books_sound(s),
        dispute_refusal(s, id) is None,
    ensures
        fund_refusal(disputed(s, id, hash), who, id, amount) is Some,
        pay_refusal(disputed(s, id, hash), id, amount) is Some,
        default_refusal(disputed(s, id, hash), who, id) is Some,
{
    assert(s.has_invoice(id));
}

/// A dispute that is rejected leaves the invoice exactly as it was before. (An
/// invoice that was funded with contributions of zero alone counts as pending
/// afterwards.)
pub proof fn law_rejected_dispute_restores_the_invoice(
    s: EnvView,
    id: u64,
    hash: Hash32,
    other: Hash32,
)
    requires
        books_sound(s),
        dispute_refusal(s, id) is None,
        s.invoice(id).status == InvoiceStatus::PartiallyFunded ==> s.invoice(id).amount_funded > 0,
    ensures
        dispute_rejected(disputed(s, id, hash), id, other).invoice(id) == s.invoice(id),
        dispute_rejected(disputed(s, id, hash), id, other).funders(id) == s.funders(id),
{
    assert(s.has_invoice(id));
}

/// A dispute cannot last for ever: once the time is over, anyone can end it.
pub proof fn law_disputes_time_out(s: EnvView, id: u64, hash: Hash32, later: LedgerInfo)
    requires
        books_sound(s),
        dispute_refusal(s, id) is None,
        s.instance.config is Some,
        later.sequence >= s.ledger.sequence + s.instance.config->0.dispute_timeout_ledgers,
    ensures
        timeout_refusal(at(disputed(s, id, hash), later), id) is None,
{
    assert(s.has_invoice(id));
}

// ----------------------------------------------------------------
// Scores
// ----------------------------------------------------------------

/// Idleness never raises a score and never takes it below zero. Where decay is on,
/// every period costs at least a point while there is one.
pub proof fn law_decay_is_steady(score: int, rate: int, periods: nat)
    requires
        0 <= score,
        0 <= rate,
    ensures
        0 <= decayed(score, rate, periods) <= score,
        decayed(score, rate, periods + 1) <= decayed(score, rate, periods),
        decayed(score, rate, periods) > 0 ==> decayed(score, rate, periods) <= score - periods,
    decreases periods,
{
    if periods > 0 {
        law_decay_is_steady(score, rate, (periods - 1) as nat);
        lemma_decay_step(decayed(score, rate, (periods - 1) as nat), rate);
    }
    lemma_decay_step(decayed(score, rate, periods), rate);
}

proof fn lemma_decay_step(score: int, rate: int)
    requires
        0 <= score,
        0 <= rate,
    ensures
        0 <= decay_step(score, rate) <= score,
        score > 0 ==> decay_step(score, rate) < score,
        0 <= share_decay_step(score, rate) <= score,
{
    assert(0 <= score * rate) by (nonlinear_arith)
        requires
            0 <= score,
            0 <= rate,
    ;
}

/// As long as no new score is stored and the parameters stay the same, a payer's
/// score never rises with time.
pub proof fn law_idle_scores_never_rise(
    s: EnvView,
    payer: Address,
    earlier: LedgerInfo,
    later: LedgerInfo,
)
    requires
        earlier.sequence <= later.sequence,
    ensures
        at(s, later).payer_score(payer) <= at(s, earlier).payer_score(payer),
        at(s, later).share_payer_score(payer) <= at(s, earlier).share_payer_score(payer),
{
    if s.persistent.payer_scores.contains_key(payer) && s.instance.config is Some {
        let rep = s.persistent.payer_scores[payer];
        let config = s.instance.config->0;
        let rate = config.decay_rate_bps as int;
        let a = decay_periods(s.instance.config, earlier.sequence, rep.last_activity_ledger);
        let b = decay_periods(s.instance.config, later.sequence, rep.last_activity_ledger);
        if config.decay_period_ledgers > 0 && rate > 0 {
            let period = config.decay_period_ledgers as int;
            let i = ledgers_since(earlier.sequence, rep.last_activity_ledger);
            let j = ledgers_since(later.sequence, rep.last_activity_ledger);
            assert(0 <= i / period <= j / period) by (nonlinear_arith)
                requires
                    0 <= i <= j,
                    0 < period,
            ;
        }
        assert(a <= b);
        lemma_longer_decay(rep.score as int, rate, 0, a);
        lemma_longer_decay(rep.score as int, rate, a, b);
    }
}

pub(crate) proof fn lemma_longer_decay(score: int, rate: int, a: nat, b: nat)
    requires
        0 <= score,
        0 <= rate,
        a <= b,
    ensures
        0 <= decayed(score, rate, b) <= decayed(score, rate, a),
        0 <= share_decayed(score, rate, b) <= share_decayed(score, rate, a),
    decreases b,
{
    if b > 0 {
        let last = (b - 1) as nat;
        lemma_longer_decay(score, rate, if a < b { a } else { last }, last);
        lemma_decay_step(decayed(score, rate, last), rate);
        lemma_decay_step(share_decayed(score, rate, last), rate);
    }
}

/// Every stored score is at most a hundred.
pub open spec fn scores_sound(s: EnvView) -> bool {
    &&& forall|who: Address| #[trigger]
        s.persistent.payer_scores.contains_key(who) ==> s.persistent.payer_scores[who].score <= 100
    &&& forall|who: Address| #[trigger]
        s.persistent.lp_scores.contains_key(who) ==> s.persistent.lp_scores[who] <= 100
}

/// With sound scores, everyone's score is at most a hundred at any time.
pub proof fn law_scores_never_exceed_100(s: EnvView, who: Address)
    requires
        scores_sound(s),
    ensures
        s.payer_score(who) <= 100,
        s.lp_score(who) <= 100,
{
    if s.persistent.payer_scores.contains_key(who) {
        let rep = s.persistent.payer_scores[who];
        let periods = decay_periods(
            s.instance.config,
            s.ledger.sequence,
            rep.last_activity_ledger,
        );
        if periods > 0 {
            law_decay_is_steady(
                rep.score as int,
                s.instance.config->0.decay_rate_bps as int,
                periods,
            );
        }
    }
}

/// Funding, settlement, default and the resolution of an appeal keep the scores
/// sound; nothing else changes one.
pub proof fn law_steps_keep_scores_sound(
    s: EnvView,
    who: Address,
    id: u64,
    amount: i128,
    upheld: bool,
)
    requires
        scores_sound(s),
    ensures
        scores_sound(funded(s, who, id, amount)),
        scores_sound(settled(s, id, amount)),
        scores_sound(defaulted(s, who, id)),
        scores_sound(appeal_resolved(s, id, upheld)),
{
}

// ----------------------------------------------------------------
// The allowlist
// ----------------------------------------------------------------

/// A token is on the list exactly if it is approved.
pub open spec fn allowlist_sound(s: EnvView) -> bool {
    forall|t: Address| #[trigger] s.approved(t) <==> s.token_list().contains(t)
}

/// Setting up, adding and removing a token keep list and approvals in step. (Only
/// the first set-up does: a second one starts a new list and leaves the approvals.)
pub proof fn law_allowlist_stays_in_step(
    s: EnvView,
    admin: Address,
    token: Address,
    xlm: Address,
)
    ensures
        s.persistent == empty_persistent() ==> allowlist_sound(initialized(s, admin, token, xlm)),
        allowlist_sound(s) ==> allowlist_sound(token_approved(s, token)),
        allowlist_sound(s) ==> allowlist_sound(token_disapproved(s, token)),
        token_approved(s, token).approved(token),
        !token_disapproved(s, token).approved(token),
{
    let first = initialized(s, admin, token, xlm);
    if s.persistent == empty_persistent() {
        assert forall|t: Address| #[trigger] first.approved(t) <==> first.token_list().contains(
            t,
        ) by {
            assert(first.token_list()[0] == token && first.token_list()[1] == xlm);
            if first.token_list().contains(t) {
                let i = first.token_list().index_of(t);
            }
        }
    }
    if allowlist_sound(s) {
        let added = token_approved(s, token);
        assert forall|t: Address| #[trigger] added.approved(t) <==> added.token_list().contains(
            t,
        ) by {
            assert(s.approved(t) <==> s.token_list().contains(t));
            let list = s.token_list();
            if !list.contains(token) {
                if list.contains(t) {
                    assert(added.token_list()[list.index_of(t)] == t);
                }
                if added.token_list().contains(t) && t != token {
                    assert(list[added.token_list().index_of(t)] == t);
                }
                assert(added.token_list()[list.len() as int] == token);
            }
        }
        let gone = token_disapproved(s, token);
        assert forall|t: Address| #[trigger] gone.approved(t) <==> gone.token_list().contains(
            t,
        ) by {
            assert(s.approved(t) <==> s.token_list().contains(t));
            law_without_takes_out_exactly(s.token_list(), token, t);
        }
    }
}

} // verus!
