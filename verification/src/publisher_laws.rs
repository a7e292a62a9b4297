//! Laws of the publisher's operations: what holds of every call, in terms of what the
//! publisher held before, what it was given, and what it holds and has called after.

use std::collections::{HashMap, HashSet};

use vstd::prelude::*;

#[allow(unused_imports)]
use crate::sbcp::{
    chain_proofs, lists_values, L1Publisher, Publisher, PublisherError, PublisherMessenger,
    PublisherProver, PublisherView,
};
#[allow(unused_imports)]
use crate::sbcp_laws::{
    every_chain_completes_the_set, listed_proofs_are_those_of_the_chains, proofs_are_taken_in_turn,
    same_rules, same_settlement, window_limits_the_lead,
};
#[allow(unused_imports)]
use crate::services::ServiceCall;
#[allow(unused_imports)]
use crate::types::{
    ChainId, Instance, InstanceId, PeriodId, SequenceNumber, SuperblockHash, SuperblockNumber,
    XtRequest,
};

verus! {

/// Period, target and numbering of instances are the same.
pub open spec fn same_position(v: PublisherView, w: PublisherView) -> bool {
    &&& v.period_id == w.period_id
    &&& v.target == w.target
    &&& v.sequence_number == w.sequence_number
}

/// Whether `chain` has handed in a proof for superblock `sb`.
pub open spec fn has_proof(v: PublisherView, sb: u64, chain: u64) -> bool {
    v.proofs.contains_key(sb) && v.proofs[sb].contains_key(chain)
}

/// Whether a proof is taken: it is for the superblock after the newest settled one, which
/// is closed, names the period that built it, and is the first of its chain.
pub open spec fn in_turn(v: PublisherView, period_id: u64, sb: u64, chain: u64) -> bool {
    &&& sb == v.last_finalized + 1
    &&& sb < v.target
    &&& period_id + (v.target - sb) == v.period_id
    &&& !has_proof(v, sb, chain)
}

/// Whether each of the publisher's chains but `chain` has handed in a proof for `sb`.
pub open spec fn others_handed_in(v: PublisherView, sb: u64, chain: u64) -> bool {
    forall|c: u64| #[trigger] v.chains.contains(c) && c != chain ==> has_proof(v, sb, c)
}

/// `proofs` are those of superblock `sb`, with `data` as that of `chain`.
pub open spec fn proofs_with(
    v: PublisherView,
    sb: u64,
    chain: u64,
    data: Seq<u8>,
    proofs: Map<u64, Seq<u8>>,
) -> bool {
    forall|c: u64| {
        &&& #[trigger] proofs.contains_key(c) <==> c == chain || has_proof(v, sb, c)
        &&& c == chain ==> proofs[c] == data
        &&& c != chain && has_proof(v, sb, c) ==> proofs[c] == v.proofs[sb][c]
    }
}

/// `list` holds each of `proofs` once, in some order of their chains.
pub open spec fn lists_each_once(list: Seq<Vec<u8>>, proofs: Map<u64, Seq<u8>>) -> bool {
    exists|order: Seq<u64>| {
        &&& #[trigger] order.no_duplicates()
        &&& order.len() == list.len()
        &&& forall|c: u64| proofs.contains_key(c) <==> #[trigger] order.contains(c)
        &&& forall|i: int| 0 <= i < list.len() ==> list[i]@ == proofs[#[trigger] order[i]]
    }
}

/// The proofs of all superblocks but `sb` are the same.
pub open spec fn same_other_proofs(v: PublisherView, w: PublisherView, sb: u64) -> bool {
    forall|other: u64|
        other != sb ==> {
            &&& #[trigger] w.proofs.contains_key(other) == v.proofs.contains_key(other)
            &&& v.proofs.contains_key(other) ==> w.proofs[other] == v.proofs[other]
        }
}

/// The announcement of a return to the newest settled superblock of `v`.
pub open spec fn rollback_of(v: PublisherView) -> ServiceCall {
    ServiceCall::Rollback {
        period_id: PeriodId(v.period_id),
        superblock_number: SuperblockNumber(v.last_finalized),
        superblock_hash: v.last_finalized_hash,
    }
}

/// From `v` to `w`: a return to the newest settled superblock.
pub open spec fn goes_back(v: PublisherView, w: PublisherView) -> bool {
    &&& w.target == v.last_finalized + 1
    &&& w.sequence_number == 0
    &&& w.period_id == v.period_id
    &&& forall|sb: u64| !#[trigger] w.proofs.contains_key(sb)
    &&& same_settlement(v, w)
    &&& same_rules(v, w)
}

/// A proof that is not taken changes nothing and calls nobody. One that is taken is kept,
/// and calls nobody either, while a proof of one of the publisher's chains is missing.
/// Once none is, the prover is asked, once, with the proofs of all chains; its proof is
/// published, once, and the chains' proofs are dropped; where it fails, a rollback is
/// announced, once.
pub proof fn receiving_a_chain_proof<
    P: PublisherProver,
    M: PublisherMessenger,
    L: L1Publisher,
    G: Fn(PeriodId, SequenceNumber, &XtRequest) -> InstanceId,
>(
    p: &mut Publisher<P, M, L, G>,
    period_id: PeriodId,
    sb: SuperblockNumber,
    data: Vec<u8>,
    chain: ChainId,
)
    requires
        call_ensures(Publisher::<P, M, L, G>::receive_proof, (p, period_id, sb, data, chain), ()),
    ensures
        ({
            let v = old(p)@;
            let w = final(p)@;
            let before = old(p).calls();
            let after = final(p).calls();
            if !in_turn(v, period_id.0, sb.0, chain.0) {
                w == v && after == before
            } else if !others_handed_in(v, sb.0, chain.0) {
                &&& after == before
                &&& same_position(v, w)
                &&& same_settlement(v, w)
                &&& same_rules(v, w)
                &&& same_other_proofs(v, w, sb.0)
                &&& w.proofs.contains_key(sb.0)
                &&& proofs_with(v, sb.0, chain.0, data@, w.proofs[sb.0])
            } else {
                exists|asked: ServiceCall|
                    {
                        &&& #[trigger] is_request_for(asked, v, sb, chain.0, data@)
                        &&& match asked->outcome {
                            Ok(network_proof) => {
                                &&& after == before.push(asked).push(
                                    ServiceCall::Publish { superblock_number: sb, network_proof },
                                )
                                &&& same_position(v, w)
                                &&& same_settlement(v, w)
                                &&& same_rules(v, w)
                                &&& same_other_proofs(v, w, sb.0)
                                &&& !w.proofs.contains_key(sb.0)
                            },
                            Err(_) => {
                                &&& after == before.push(asked).push(rollback_of(v))
                                &&& goes_back(v, w)
                            },
                        }
                    }
            }
        }),
{
    let v = old(p)@;
    let w = final(p)@;
    let taken = v.with_proof(sb.0, chain.0, data@);
    proofs_are_taken_in_turn(v, period_id.0, sb.0, chain.0);
    every_chain_completes_the_set(taken, sb.0);
    if in_turn(v, period_id.0, sb.0, chain.0) {
        assert(proofs_with(v, sb.0, chain.0, data@, taken.proofs[sb.0]));
        assert(taken.complete(sb.0) == others_handed_in(v, sb.0, chain.0)) by {
            if others_handed_in(v, sb.0, chain.0) {
                assert forall|c: u64| #[trigger]
                    taken.chains.contains(c) implies taken.proofs.contains_key(sb.0)
                    && taken.proofs[sb.0].contains_key(c) by {
                    assert(v.chains.contains(c));
                }
            }
            if taken.complete(sb.0) {
                assert forall|c: u64| #[trigger]
                    v.chains.contains(c) && c != chain.0 implies has_proof(v, sb.0, c) by {
                    assert(taken.chains.contains(c));
                }
            }
        }
        if taken.complete(sb.0) {
            let (proofs, outcome) = choose|
                proofs: Vec<Vec<u8>>,
                outcome: Result<Vec<u8>, String>,
            |
                {
                    &&& lists_values(proofs@, taken.collected(sb.0))
                    &&& #[trigger] call_ensures(
                        P::request_superblock_proof,
                        (&old(p).prover(), sb, v.last_finalized_hash, proofs),
                        outcome,
                    )
                    &&& ({
                        let asked = old(p).calls().push(
                            ServiceCall::RequestProof {
                                superblock_number: sb,
                                last_superblock_hash: v.last_finalized_hash,
                                proofs: proofs@,
                                outcome: crate::services::outcome_view(outcome),
                            },
                        );
                        match outcome {
                            Ok(network_proof) => {
                                &&& w == taken.without_proofs(sb.0)
                                &&& final(p).calls() == asked.push(
                                    ServiceCall::Publish {
                                        superblock_number: sb,
                                        network_proof: network_proof@,
                                    },
                                )
                            },
                            Err(_) => {
                                &&& w == taken.rolled_back()
                                &&& final(p).calls() == asked.push(v.rollback_call())
                            },
                        }
                    })
                };
            let asked = ServiceCall::RequestProof {
                superblock_number: sb,
                last_superblock_hash: v.last_finalized_hash,
                proofs: proofs@,
                outcome: crate::services::outcome_view(outcome),
            };
            listed_proofs_are_those_of_the_chains(proofs@, taken.collected(sb.0));
            let m = taken.proofs[sb.0];
            assert(asked->RequestProof_proofs == proofs@);
            assert(proofs_with(v, sb.0, chain.0, data@, m) && lists_each_once(proofs@, m));
            assert(is_request_for(asked, v, sb, chain.0, data@));
        }
    }
}

/// `call` asks the prover for superblock `sb`, which follows the newest settled one, with
/// the proofs that `v` holds for it and `data` as that of `chain`.
pub open spec fn is_request_for(
    call: ServiceCall,
    v: PublisherView,
    sb: SuperblockNumber,
    chain: u64,
    data: Seq<u8>,
) -> bool {
    match call {
        ServiceCall::RequestProof { superblock_number, last_superblock_hash, proofs, outcome } => {
            &&& superblock_number == sb
            &&& last_superblock_hash == v.last_finalized_hash
            &&& exists|m: Map<u64, Seq<u8>>|
                proofs_with(v, sb.0, chain, data, m) && #[trigger] lists_each_once(proofs, m)
        },
        _ => false,
    }
}

/// A period begins exactly if its superblock is not too far ahead of settlement. Then
/// it is
/// announced, once, with its number and its superblock; else nothing changes, nobody is
/// called, and the error names the superblock that is being built and the one to settle
/// first.
pub proof fn starting_a_period<
    P: PublisherProver,
    M: PublisherMessenger,
    L: L1Publisher,
    G: Fn(PeriodId, SequenceNumber, &XtRequest) -> InstanceId,
>(p: &mut Publisher<P, M, L, G>, r: Result<(), PublisherError>)
    requires
        old(p)@.period_id < u64::MAX,
        old(p)@.target < u64::MAX,
        old(p)@.last_finalized < u64::MAX,
        call_ensures(Publisher::<P, M, L, G>::start_period, (p,), r),
    ensures
        ({
            let v = old(p)@;
            let w = final(p)@;
            if v.proof_window == 0 || v.target - v.last_finalized <= v.proof_window {
                &&& r is Ok
                &&& w.period_id == v.period_id + 1
                &&& w.target == v.target + 1
                &&& w.sequence_number == 0
                &&& w.proofs == v.proofs
                &&& same_settlement(v, w)
                &&& same_rules(v, w)
                &&& final(p).calls() == old(p).calls().push(
                    ServiceCall::StartPeriod {
                        period_id: PeriodId((v.period_id + 1) as u64),
                        target_superblock_number: SuperblockNumber((v.target + 1) as u64),
                    },
                )
            } else {
                &&& w == v
                &&& final(p).calls() == old(p).calls()
                &&& match r {
                    Err(PublisherError::CannotStartPeriod { target, expected }) => target
                        == v.target && expected == v.last_finalized + 1,
                    _ => false,
                }
            }
        }),
{
    window_limits_the_lead(old(p)@);
}

/// An instance is started exactly if its request has two entries. It has the period, the
/// next number, the request as it is, and the identifier that the generator gives for
/// these; nobody is called.
pub proof fn starting_an_instance<
    P: PublisherProver,
    M: PublisherMessenger,
    L: L1Publisher,
    G: Fn(PeriodId, SequenceNumber, &XtRequest) -> InstanceId,
>(p: &mut Publisher<P, M, L, G>, request: XtRequest, r: Result<Instance, PublisherError>)
    requires
        request@.len() >= 2 ==> old(p)@.sequence_number < u64::MAX,
        call_ensures(Publisher::<P, M, L, G>::start_instance, (p, request), r),
    ensures
        ({
            let v = old(p)@;
            let w = final(p)@;
            &&& final(p).calls() == old(p).calls()
            &&& if request.transactions.len() >= 2 {
                &&& r matches Ok(instance) && {
                    &&& instance.period_id.0 == v.period_id
                    &&& instance.sequence_number.0 == v.sequence_number + 1
                    &&& instance.xt_request == request
                    &&& old(p).generator().ensures(
                        (instance.period_id, instance.sequence_number, &request),
                        instance.id,
                    )
                }
                &&& w.sequence_number == v.sequence_number + 1
                &&& w.period_id == v.period_id
                &&& w.target == v.target
                &&& w.proofs == v.proofs
                &&& same_settlement(v, w)
                &&& same_rules(v, w)
            } else {
                r == Err::<Instance, _>(PublisherError::InvalidRequest) && w == v
            }
        }),
{
    assert(request@.len() == request.transactions.len());
}

/// A settled superblock is recorded exactly if it is newer than the one recorded;
/// nobody is
/// called.
pub proof fn advancing_settlement<
    P: PublisherProver,
    M: PublisherMessenger,
    L: L1Publisher,
    G: Fn(PeriodId, SequenceNumber, &XtRequest) -> InstanceId,
>(
    p: &mut Publisher<P, M, L, G>,
    sb: SuperblockNumber,
    hash: SuperblockHash,
    r: Result<(), PublisherError>,
)
    requires
        call_ensures(Publisher::<P, M, L, G>::advance_settled_state, (p, sb, hash), r),
    ensures
        ({
            let v = old(p)@;
            let w = final(p)@;
            &&& final(p).calls() == old(p).calls()
            &&& if sb.0 > v.last_finalized {
                &&& r is Ok
                &&& w.last_finalized == sb.0
                &&& w.last_finalized_hash == hash
                &&& same_position(v, w)
                &&& w.proofs == v.proofs
                &&& same_rules(v, w)
            } else {
                r == Err::<(), _>(PublisherError::OldSettledState) && w == v
            }
        }),
{
}

/// Where a proof is overdue, the publisher returns to the newest settled superblock and
/// announces that, once.
pub proof fn timing_out<
    P: PublisherProver,
    M: PublisherMessenger,
    L: L1Publisher,
    G: Fn(PeriodId, SequenceNumber, &XtRequest) -> InstanceId,
>(p: &mut Publisher<P, M, L, G>)
    requires
        old(p)@.last_finalized < u64::MAX,
        call_ensures(Publisher::<P, M, L, G>::proof_timeout, (p,), ()),
    ensures
        goes_back(old(p)@, final(p)@),
        final(p).calls() == old(p).calls().push(rollback_of(old(p)@)),
{
}

/// A publisher is created exactly if its target is not behind settlement; it stands where
/// it was told to, without proofs, and has called nobody.
pub proof fn creating_a_publisher<
    P: PublisherProver,
    M: PublisherMessenger,
    L: L1Publisher,
    G: Fn(PeriodId, SequenceNumber, &XtRequest) -> InstanceId,
>(
    prover: P,
    messenger: M,
    l1: L,
    generate: G,
    period: PeriodId,
    target: SuperblockNumber,
    finalized: SuperblockNumber,
    hash: SuperblockHash,
    window: u64,
    chains: HashSet<u64>,
    r: Result<Publisher<P, M, L, G>, PublisherError>,
)
    requires
        call_ensures(
            Publisher::<P, M, L, G>::new,
            (prover, messenger, l1, generate, period, target, finalized, hash, window, chains),
            r,
        ),
    ensures
        r is Ok <==> target.0 >= finalized.0,
        match r {
            Ok(p) => {
                &&& p.prover() == prover
                &&& p.messenger() == messenger
                &&& p.l1() == l1
                &&& p.generator() == generate
                &&& p.calls().len() == 0
                &&& p@.period_id == period.0
                &&& p@.target == target.0
                &&& p@.last_finalized == finalized.0
                &&& p@.last_finalized_hash == hash
                &&& p@.proof_window == window
                &&& p@.sequence_number == 0
                &&& p@.chains == chains@
                &&& forall|sb: u64| !#[trigger] p@.proofs.contains_key(sb)
            },
            Err(e) => e == PublisherError::InvalidInitialState,
        },
{
}

/// What the publisher tells about its target and its proofs is what it holds.
pub proof fn asking_a_publisher<
    P: PublisherProver,
    M: PublisherMessenger,
    L: L1Publisher,
    G: Fn(PeriodId, SequenceNumber, &XtRequest) -> InstanceId,
>(
    p: &Publisher<P, M, L, G>,
    target: SuperblockNumber,
    sb: SuperblockNumber,
    found: Option<HashMap<u64, Vec<u8>>>,
)
    requires
        call_ensures(Publisher::<P, M, L, G>::target_superblock_number, (p,), target),
        call_ensures(Publisher::<P, M, L, G>::proofs_for, (p, sb), found),
    ensures
        target.0 == p@.target,
        match found {
            Some(m) => p@.proofs.contains_key(sb.0) && (forall|c: u64|
                {
                    &&& #[trigger] m@.contains_key(c) <==> p@.proofs[sb.0].contains_key(c)
                    &&& m@.contains_key(c) ==> m@[c]@ == p@.proofs[sb.0][c]
                }),
            None => !p@.proofs.contains_key(sb.0),
        },
{
    if let Some(m) = found {
        assert forall|c: u64| {
            &&& #[trigger] m@.contains_key(c) <==> p@.proofs[sb.0].contains_key(c)
            &&& m@.contains_key(c) ==> m@[c]@ == p@.proofs[sb.0][c]
        } by {
            assert(chain_proofs(m).contains_key(c) == m@.contains_key(c));
        }
    }
}

} // verus!
