//! What holds of the superblock protocol across operations.

use vstd::prelude::*;

#[allow(unused_imports)]
use crate::sbcp::{
    lists_values, lists_values_by, publisher_error_text, PublisherError, PublisherView, Refusal,
};
#[allow(unused_imports)]
use crate::services::{outcome_view, ServiceCall};
#[allow(unused_imports)]
use crate::text::decimal;
#[allow(unused_imports)]
use crate::types::{PeriodId, SuperblockHash, SuperblockNumber};

verus! {

/// Something that happens to a publisher.
pub enum PublisherEvent {
    /// A new period is asked for.
    StartPeriod,
    /// An instance is started.
    StartInstance,
    /// A chain hands in a proof.
    ReceiveProof {
        /// The period that the proof names.
        period_id: u64,
        /// The superblock that the proof names.
        superblock_number: u64,
        /// The chain that hands it in.
        chain_id: u64,
        /// The proof itself.
        data: Seq<u8>,
    },
    /// The proof of a superblock is generated.
    ProofGenerated {
        /// The superblock.
        superblock_number: u64,
    },
    /// A superblock is settled.
    Settle {
        /// The superblock.
        superblock_number: u64,
        /// Its hash.
        hash: SuperblockHash,
    },
    /// The protocol returns to the last finalized superblock.
    Rollback,
}

/// The state after one event; a refused event changes nothing.
pub open spec fn apply(v: PublisherView, e: PublisherEvent) -> PublisherView {
    match e {
        PublisherEvent::StartPeriod => if v.window_open() {
            v.next_period()
        } else {
            v
        },
        PublisherEvent::StartInstance => v.next_instance(),
        PublisherEvent::ReceiveProof { period_id, superblock_number, chain_id, data } => if v.refusal(
            period_id,
            superblock_number,
            chain_id,
        ) is None {
            v.with_proof(superblock_number, chain_id, data)
        } else {
            v
        },
        PublisherEvent::ProofGenerated { superblock_number } => v.without_proofs(superblock_number),
        PublisherEvent::Settle { superblock_number, hash } => if superblock_number
            > v.last_finalized {
            v.settled(superblock_number, hash)
        } else {
            v
        },
        PublisherEvent::Rollback => v.rolled_back(),
    }
}

/// The state after the first `n` of `events`.
pub open spec fn run(v: PublisherView, events: Seq<PublisherEvent>, n: nat) -> PublisherView
    decreases n,
{
    if n == 0 {
        v
    } else {
        apply(run(v, events, (n - 1) as nat), events[n - 1])
    }
}

/// No counter of `v` is at its largest value.
pub open spec fn has_headroom(v: PublisherView) -> bool {
    &&& v.period_id < u64::MAX
    &&& v.target < u64::MAX
    &&& v.last_finalized < u64::MAX
    &&& v.sequence_number < u64::MAX
}

/// The target is at most one superblock beyond the proof window.
pub open spec fn within_window(v: PublisherView) -> bool {
    v.proof_window != 0 ==> v.target <= v.last_finalized + 1 + v.proof_window
}

/// Every superblock not yet settled was built by a period that exists.
pub open spec fn periods_cover(v: PublisherView) -> bool {
    v.target - v.last_finalized - 1 <= v.period_id
}

/// Proofs are held for no superblock beyond the one to settle next.
pub open spec fn proofs_not_ahead(v: PublisherView) -> bool {
    forall|sb: u64| #[trigger] v.proofs.contains_key(sb) ==> sb <= v.last_finalized + 1
}

/// A publisher within its proof window stays within it, whatever happens.
pub proof fn window_is_kept(v: PublisherView, e: PublisherEvent)
    requires
        has_headroom(v),
        within_window(v),
    ensures
        within_window(apply(v, e)),
{
}

/// With a proof window a new period is refused exactly when the superblock after
/// the target is more than the window ahead of the one to settle next.
pub proof fn window_decides_new_periods(v: PublisherView)
    requires
        v.proof_window != 0,
    ensures
        v.window_open() <==> (v.target + 1) - (v.last_finalized + 1) <= v.proof_window,
{
}

/// Without a proof window a new period is never refused.
pub proof fn no_window_no_refusal(v: PublisherView)
    requires
        v.proof_window == 0,
    ensures
        v.window_open(),
{
}

/// Where the periods reach back to the superblock to settle next, they always do.
pub proof fn period_cover_is_kept(v: PublisherView, e: PublisherEvent)
    requires
        has_headroom(v),
        periods_cover(v),
    ensures
        periods_cover(apply(v, e)),
{
}

/// Where the periods reach back far enough, the period of the superblock to
/// settle next is never negative.
pub proof fn period_cover_suffices(v: PublisherView, sb: u64)
    requires
        periods_cover(v),
        v.awaits_proofs_of(sb),
    ensures
        v.period_of(sb) >= 0,
{
}

/// Proofs are never held for a superblock beyond the one to settle next.
pub proof fn proofs_stay_behind(v: PublisherView, e: PublisherEvent)
    requires
        has_headroom(v),
        proofs_not_ahead(v),
    ensures
        proofs_not_ahead(apply(v, e)),
{
}

/// The settled superblock and the period never go back.
pub proof fn progress_is_monotonic(v: PublisherView, e: PublisherEvent)
    requires
        has_headroom(v),
    ensures
        apply(v, e).last_finalized >= v.last_finalized,
        apply(v, e).period_id >= v.period_id,
        apply(v, e).chains == v.chains,
        apply(v, e).proof_window == v.proof_window,
{
}

/// A settled superblock that is not newer is refused: settling the same one twice
/// is the same as settling it once.
pub proof fn settling_twice_is_settling_once(
    v: PublisherView,
    superblock_number: u64,
    hash: SuperblockHash,
    other: SuperblockHash,
)
    ensures
        ({
            let once = apply(v, PublisherEvent::Settle { superblock_number, hash });
            apply(once, PublisherEvent::Settle { superblock_number, hash: other }) == once
        }),
{
}

/// The period and position of the instance started last.
pub open spec fn position(v: PublisherView) -> (u64, u64) {
    (v.period_id, v.sequence_number)
}

/// Position `a` comes before position `b`.
pub open spec fn precedes(a: (u64, u64), b: (u64, u64)) -> bool {
    a.0 < b.0 || (a.0 == b.0 && a.1 < b.1)
}

/// Without a rollback among them, `n` events move the position on by at most `n`
/// in each part, and never back.
proof fn positions_never_go_back(v: PublisherView, events: Seq<PublisherEvent>, m: nat, n: nat)
    requires
        m <= n <= events.len(),
        forall|i: int| 0 <= i < n ==> !(#[trigger] events[i] is Rollback),
        v.period_id + n <= u64::MAX,
        v.sequence_number + n <= u64::MAX,
    ensures
        run(v, events, n).period_id <= v.period_id + n,
        run(v, events, n).sequence_number <= v.sequence_number + n,
        position(run(v, events, m)) == position(run(v, events, n)) || precedes(
            position(run(v, events, m)),
            position(run(v, events, n)),
        ),
    decreases n,
{
    if n > 0 {
        positions_never_go_back(v, events, if m < n { m } else { (n - 1) as nat }, (n - 1) as nat);
        assert(!(events[n - 1] is Rollback));
    }
}

/// Of two instances with no rollback in between, the later one has the later
/// position; so no two of them share period and sequence number.
pub proof fn instances_have_distinct_positions(
    v: PublisherView,
    events: Seq<PublisherEvent>,
    i: nat,
    j: nat,
)
    requires
        i < j < events.len(),
        events[i as int] is StartInstance,
        events[j as int] is StartInstance,
        forall|k: int| 0 <= k <= j ==> !(#[trigger] events[k] is Rollback),
        v.period_id + j < u64::MAX,
        v.sequence_number + j < u64::MAX,
    ensures
        precedes(position(run(v, events, i + 1)), position(run(v, events, j + 1))),
{
    positions_never_go_back(v, events, i + 1, j);
    positions_never_go_back(v, events, 0, j);
    assert(run(v, events, j + 1) == run(v, events, j).next_instance());
}

/// Instances of one period are numbered one after the other.
pub proof fn instances_are_numbered_in_order(v: PublisherView)
    requires
        v.sequence_number < u64::MAX,
    ensures
        v.next_instance().sequence_number == v.sequence_number + 1,
        v.next_instance().period_id == v.period_id,
{
}

/// The first instance of a new period has number one.
pub proof fn new_period_restarts_numbering(v: PublisherView)
    requires
        v.period_id < u64::MAX,
    ensures
        v.next_period().next_instance().sequence_number == 1,
        v.next_period().period_id == v.period_id + 1,
{
}

/// A rollback leaves the settled superblock and the period alone, aims at the
/// superblock that follows, and drops every proof; a second one changes nothing.
pub proof fn rollback_is_idempotent(v: PublisherView)
    requires
        v.last_finalized < u64::MAX,
    ensures
        v.rolled_back().rolled_back() == v.rolled_back(),
        v.rolled_back().last_finalized == v.last_finalized,
        v.rolled_back().last_finalized_hash == v.last_finalized_hash,
        v.rolled_back().period_id == v.period_id,
        v.rolled_back().target == v.last_finalized + 1,
        v.rolled_back().proofs.dom() == Set::<u64>::empty(),
{
    assert(v.rolled_back().proofs.dom() =~= Set::<u64>::empty());
}

/// Right after a rollback every proof is refused, until a new period closes the
/// superblock that is then being built.
pub proof fn rollback_refuses_proofs(v: PublisherView, period_id: u64, sb: u64, chain: u64)
    requires
        v.last_finalized < u64::MAX,
    ensures
        v.rolled_back().refusal(period_id, sb, chain) is Some,
{
}

/// A chain's second proof for the same superblock is refused as a duplicate.
pub proof fn second_proof_is_refused(
    v: PublisherView,
    period_id: u64,
    sb: u64,
    chain: u64,
    data: Seq<u8>,
)
    requires
        v.refusal(period_id, sb, chain) is None,
    ensures
        v.with_proof(sb, chain, data).refusal(period_id, sb, chain) == Some(Refusal::Duplicate),
{
}

/// Taking one chain's proof does not stop another chain from handing in its own.
pub proof fn other_chains_stay_welcome(
    v: PublisherView,
    period_id: u64,
    sb: u64,
    chain: u64,
    other: u64,
    data: Seq<u8>,
)
    requires
        chain != other,
        v.refusal(period_id, sb, other) is None,
    ensures
        v.with_proof(sb, chain, data).refusal(period_id, sb, other) is None,
{
}

/// It does not matter in which order two chains hand in their proofs.
pub proof fn proof_order_is_irrelevant(
    v: PublisherView,
    sb: u64,
    a: u64,
    b: u64,
    data_a: Seq<u8>,
    data_b: Seq<u8>,
)
    requires
        a != b,
    ensures
        v.with_proof(sb, a, data_a).with_proof(sb, b, data_b) == v.with_proof(
            sb,
            b,
            data_b,
        ).with_proof(sb, a, data_a),
{
    let left = v.with_proof(sb, a, data_a).with_proof(sb, b, data_b);
    let right = v.with_proof(sb, b, data_b).with_proof(sb, a, data_a);
    assert(left.proofs[sb] =~= right.proofs[sb]);
    assert(left.proofs =~= right.proofs);
}

/// Every proof that is taken adds one to the number collected.
pub proof fn each_proof_counts_once(
    v: PublisherView,
    period_id: u64,
    sb: u64,
    chain: u64,
    data: Seq<u8>,
)
    requires
        v.refusal(period_id, sb, chain) is None,
        v.collected(sb).dom().finite(),
    ensures
        v.with_proof(sb, chain, data).collected(sb).len() == v.collected(sb).len() + 1,
{
}

/// A proof completes the set exactly if every chain but its own has handed one in
/// before.
pub proof fn last_missing_proof_completes(v: PublisherView, sb: u64, chain: u64, data: Seq<u8>)
    ensures
        v.with_proof(sb, chain, data).complete(sb) <==> forall|c: u64|
            v.chains.contains(c) && c != chain ==> v.collected(sb).contains_key(c),
{
    let taken = v.with_proof(sb, chain, data);
    assert(taken.collected(sb) =~= v.collected(sb).insert(chain, data));
    if taken.complete(sb) {
        assert forall|c: u64| v.chains.contains(c) && c != chain implies v.collected(
            sb,
        ).contains_key(c) by {
            assert(taken.collected(sb).dom().contains(c));
        }
    }
}

/// A proof under a chain that is not one of the publisher's completes no set.
pub proof fn strangers_complete_nothing(v: PublisherView, sb: u64, chain: u64, data: Seq<u8>)
    requires
        !v.chains.contains(chain),
    ensures
        v.with_proof(sb, chain, data).complete(sb) == v.complete(sb),
{
    last_missing_proof_completes(v, sb, chain, data);
}

/// The settings of a publisher, which nothing changes, are the same.
pub open spec fn same_rules(v: PublisherView, w: PublisherView) -> bool {
    v.chains == w.chains && v.proof_window == w.proof_window
}

/// The newest settled superblock is the same.
pub open spec fn same_settlement(v: PublisherView, w: PublisherView) -> bool {
    v.last_finalized == w.last_finalized && v.last_finalized_hash == w.last_finalized_hash
}

/// A new period has the next number, builds the next superblock and restarts the
/// numbering of instances. Nothing else changes.
pub proof fn new_period_moves_on(v: PublisherView)
    requires
        has_headroom(v),
    ensures
        v.next_period().period_id == v.period_id + 1,
        v.next_period().target == v.target + 1,
        v.next_period().sequence_number == 0,
        v.next_period().proofs == v.proofs,
        same_settlement(v, v.next_period()),
        same_rules(v, v.next_period()),
{
}

/// A new period may begin exactly if there is no proof window, or the superblock that
/// it would build is at most the window beyond the next one to settle.
pub proof fn window_limits_the_lead(v: PublisherView)
    ensures
        v.window_open() <==> v.proof_window == 0 || v.target - v.last_finalized <= v.proof_window,
{
}

/// A proof is taken exactly if it is for the superblock after the newest settled one,
/// that superblock is closed, the proof names the period that built it, and its chain
/// has handed in none before. What is amiss first is what is reported.
pub proof fn proofs_are_taken_in_turn(v: PublisherView, period_id: u64, sb: u64, chain: u64)
    ensures
        v.refusal(period_id, sb, chain) is None <==> {
            &&& sb == v.last_finalized + 1
            &&& sb < v.target
            &&& period_id + (v.target - sb) == v.period_id
            &&& !(v.proofs.contains_key(sb) && v.proofs[sb].contains_key(chain))
        },
        match v.refusal(period_id, sb, chain) {
            None => true,
            Some(Refusal::OldSuperblock) => sb <= v.last_finalized,
            Some(Refusal::NotTerminated) => sb > v.last_finalized && sb >= v.target,
            Some(Refusal::NotNext) => sb > v.last_finalized + 1 && sb < v.target,
            Some(Refusal::WrongPeriod) => sb == v.last_finalized + 1 && sb < v.target && period_id
                + (v.target - sb) != v.period_id,
            Some(Refusal::Duplicate) => sb == v.last_finalized + 1 && sb < v.target && period_id + (
            v.target - sb) == v.period_id && v.proofs.contains_key(sb) && v.proofs[sb].contains_key(
                chain,
            ),
        },
{
}

/// A superblock awaits proofs exactly if it is closed and follows the newest settled
/// one; the period that built it lies as far back as it lies behind the target.
pub proof fn closed_superblocks_await_proofs(v: PublisherView, sb: u64)
    ensures
        v.awaits_proofs_of(sb) <==> v.last_finalized + 1 == sb && sb < v.target,
        v.period_of(sb) + (v.target - sb) == v.period_id,
{
}

/// A proof that is taken is kept for its superblock and chain, and nothing else
/// changes.
pub proof fn proofs_are_kept(
    v: PublisherView,
    sb: u64,
    chain: u64,
    data: Seq<u8>,
    other_sb: u64,
    other_chain: u64,
)
    ensures
        ({
            let w = v.with_proof(sb, chain, data);
            &&& w.period_id == v.period_id
            &&& w.target == v.target
            &&& w.sequence_number == v.sequence_number
            &&& same_settlement(v, w)
            &&& same_rules(v, w)
            &&& w.proofs.contains_key(sb)
            &&& w.proofs[sb].contains_key(chain)
            &&& w.proofs[sb][chain] == data
            &&& w.collected(sb) == w.proofs[sb]
            &&& other_sb != sb ==> {
                &&& w.proofs.contains_key(other_sb) == v.proofs.contains_key(other_sb)
                &&& v.proofs.contains_key(other_sb) ==> w.proofs[other_sb] == v.proofs[other_sb]
            }
            &&& other_chain != chain ==> {
                &&& w.proofs[sb].contains_key(other_chain) == (v.proofs.contains_key(sb)
                    && v.proofs[sb].contains_key(other_chain))
                &&& v.proofs.contains_key(sb) && v.proofs[sb].contains_key(other_chain)
                    ==> w.proofs[sb][other_chain] == v.proofs[sb][other_chain]
            }
        }),
{
}

/// The proofs of a superblock are complete exactly if each of the publisher's chains has
/// handed one in.
pub proof fn every_chain_completes_the_set(v: PublisherView, sb: u64)
    ensures
        v.complete(sb) <==> forall|c: u64| #[trigger]
            v.chains.contains(c) ==> v.proofs.contains_key(sb) && v.proofs[sb].contains_key(c),
{
    if v.complete(sb) {
        assert forall|c: u64| #[trigger] v.chains.contains(c) implies v.proofs.contains_key(sb)
            && v.proofs[sb].contains_key(c) by {
            assert(v.collected(sb).dom().contains(c));
        }
    }
}

/// Dropping the proofs of a superblock drops those and changes nothing else.
pub proof fn only_its_proofs_are_dropped(v: PublisherView, sb: u64, other: u64)
    ensures
        ({
            let w = v.without_proofs(sb);
            &&& w.period_id == v.period_id
            &&& w.target == v.target
            &&& w.sequence_number == v.sequence_number
            &&& same_settlement(v, w)
            &&& same_rules(v, w)
            &&& !w.proofs.contains_key(sb)
            &&& other != sb ==> {
                &&& w.proofs.contains_key(other) == v.proofs.contains_key(other)
                &&& v.proofs.contains_key(other) ==> w.proofs[other] == v.proofs[other]
            }
        }),
{
}

/// A rollback aims at the superblock after the newest settled one, forgets every proof
/// and restarts the numbering of instances; it changes nothing else, and its
/// announcement names the period and the newest settled superblock with its hash.
pub proof fn rollback_returns_to_settlement(v: PublisherView, sb: u64)
    requires
        v.last_finalized < u64::MAX,
    ensures
        ({
            let w = v.rolled_back();
            &&& w.target == v.last_finalized + 1
            &&& w.sequence_number == 0
            &&& w.period_id == v.period_id
            &&& !w.proofs.contains_key(sb)
            &&& same_settlement(v, w)
            &&& same_rules(v, w)
        }),
        v.rollback_call() == (ServiceCall::Rollback {
            period_id: PeriodId(v.period_id),
            superblock_number: SuperblockNumber(v.last_finalized),
            superblock_hash: v.last_finalized_hash,
        }),
{
}

/// An instance takes the next number and changes nothing else.
pub proof fn instance_takes_the_next_number(v: PublisherView)
    requires
        has_headroom(v),
    ensures
        v.next_instance().sequence_number == v.sequence_number + 1,
        v.next_instance().period_id == v.period_id,
        v.next_instance().target == v.target,
        v.next_instance().proofs == v.proofs,
        same_settlement(v, v.next_instance()),
        same_rules(v, v.next_instance()),
{
}

/// A settled superblock is recorded with its hash, and nothing else changes.
pub proof fn settlement_is_recorded(v: PublisherView, sb: u64, hash: SuperblockHash)
    ensures
        v.settled(sb, hash).last_finalized == sb,
        v.settled(sb, hash).last_finalized_hash == hash,
        v.settled(sb, hash).period_id == v.period_id,
        v.settled(sb, hash).target == v.target,
        v.settled(sb, hash).sequence_number == v.sequence_number,
        v.settled(sb, hash).proofs == v.proofs,
        same_rules(v, v.settled(sb, hash)),
{
}

/// A list of a superblock's proofs has one entry for each chain that handed one in: in
/// some order of these chains, each of them once, it holds the proof of each.
pub proof fn listed_proofs_are_those_of_the_chains(list: Seq<Vec<u8>>, m: Map<u64, Seq<u8>>)
    requires
        lists_values(list, m),
    ensures
        list.len() == m.len(),
        exists|order: Seq<u64>| {
            &&& #[trigger] order.no_duplicates()
            &&& order.len() == list.len()
            &&& forall|c: u64| m.contains_key(c) <==> #[trigger] order.contains(c)
            &&& forall|i: int| 0 <= i < list.len() ==> list[i]@ == m[#[trigger] order[i]]
        },
{
    let keys = choose|keys: Seq<u64>| #[trigger] lists_values_by(list, m, keys);
    keys.unique_seq_to_set();
    assert(keys.no_duplicates());
    assert forall|c: u64| m.contains_key(c) <==> #[trigger] keys.contains(c) by {
        assert(keys.to_set().contains(c) == m.dom().contains(c));
    }
    assert forall|i: int| 0 <= i < list.len() implies list[i]@ == m[#[trigger] keys[i]] by {
        assert(list[i]@ == m[keys[i]]);
    }
}

/// What is recorded of a prover's answer is the proof or the error that it gave.
pub proof fn answers_are_recorded(outcome: Result<Vec<u8>, String>)
    ensures
        match outcome {
            Ok(network_proof) => outcome_view(outcome) == Ok::<_, Seq<char>>(network_proof@),
            Err(e) => outcome_view(outcome) == Err::<Seq<u8>, _>(e@),
        },
{
}

/// The message for a period that may not begin names the superblock that is being built
/// and the one that is to be settled first; the other messages are fixed.
pub proof fn publisher_errors_are_told_apart(target: u64, expected: u64)
    ensures
        publisher_error_text(PublisherError::CannotStartPeriod { target, expected })
            == "can not start period: target superblock is "@ + decimal(target as nat)
            + ", expected "@ + decimal(expected as nat),
        publisher_error_text(PublisherError::OldSettledState)
            == "can not advance to older settled state"@,
        publisher_error_text(PublisherError::InvalidRequest) == "invalid request"@,
        publisher_error_text(PublisherError::InvalidInitialState)
            == "target superblock is less than the last finalized one"@,
{
}

} // verus!
