//! The services that a publisher drives, and a record of every call to them.

use vstd::prelude::*;

use crate::sbcp::{L1Publisher, PublisherMessenger, PublisherProver};
use crate::types::{PeriodId, SuperblockHash, SuperblockNumber};

verus! {

/// A call to one of a publisher's services.
#[verifier::ext_equal]
pub enum ServiceCall {
    /// The prover was asked for the proof of a superblock.
    RequestProof {
        /// The superblock.
        superblock_number: SuperblockNumber,
        /// The hash of the superblock that it follows.
        last_superblock_hash: SuperblockHash,
        /// The proofs of its chains.
        proofs: Seq<Vec<u8>>,
        /// What the prover answered: the proof, or the error.
        outcome: Result<Seq<u8>, Seq<char>>,
    },
    /// A new period was announced.
    StartPeriod {
        /// The period.
        period_id: PeriodId,
        /// The superblock that it builds.
        target_superblock_number: SuperblockNumber,
    },
    /// A return to a finalized superblock was announced.
    Rollback {
        /// The period.
        period_id: PeriodId,
        /// The superblock.
        superblock_number: SuperblockNumber,
        /// Its hash.
        superblock_hash: SuperblockHash,
    },
    /// The proof of a superblock was published.
    Publish {
        /// The superblock.
        superblock_number: SuperblockNumber,
        /// Its proof.
        network_proof: Seq<u8>,
    },
}

/// A prover's answer as a plain value.
pub open spec fn outcome_view(outcome: Result<Vec<u8>, String>) -> Result<Seq<u8>, Seq<char>> {
    match outcome {
        Ok(network_proof) => Ok(network_proof@),
        Err(e) => Err(e@),
    }
}

/// A prover, a messenger and the settlement layer. Nothing but the methods here can
/// call them, and each of these makes one call and records it.
pub struct Services<P: PublisherProver, M: PublisherMessenger, L: L1Publisher> {
    prover: P,
    messenger: M,
    l1: L,
    calls: Ghost<Seq<ServiceCall>>,
}

impl<P: PublisherProver, M: PublisherMessenger, L: L1Publisher> Services<P, M, L> {
    /// The prover.
    pub closed spec fn prover(self) -> P {
        self.prover
    }

    /// The messenger.
    pub closed spec fn messenger(self) -> M {
        self.messenger
    }

    /// The settlement layer.
    pub closed spec fn l1(self) -> L {
        self.l1
    }

    /// The calls that were made, in order.
    pub closed spec fn calls(self) -> Seq<ServiceCall> {
        self.calls@
    }

    /// `self` is `before` with one more call made.
    pub open spec fn called(self, before: Self, call: ServiceCall) -> bool {
        &&& self.prover() == before.prover()
        &&& self.messenger() == before.messenger()
        &&& self.l1() == before.l1()
        &&& self.calls() == before.calls().push(call)
    }

    /// The three services, before the first call.
    pub fn new(prover: P, messenger: M, l1: L) -> (s: Self)
        ensures
            s.prover() == prover,
            s.messenger() == messenger,
            s.l1() == l1,
            s.calls() == Seq::<ServiceCall>::empty(),
    {
        Services { prover, messenger, l1, calls: Ghost(Seq::empty()) }
    }

    /// Asks the prover for the proof of a superblock.
    pub fn request_superblock_proof(
        &mut self,
        superblock_number: SuperblockNumber,
        last_superblock_hash: SuperblockHash,
        proofs: Vec<Vec<u8>>,
    ) -> (outcome: Result<Vec<u8>, String>)
        ensures
            final(self).called(
                *old(self),
                ServiceCall::RequestProof {
                    superblock_number,
                    last_superblock_hash,
                    proofs: proofs@,
                    outcome: outcome_view(outcome),
                },
            ),
            call_ensures(
                P::request_superblock_proof,
                (&old(self).prover(), superblock_number, last_superblock_hash, proofs),
                outcome,
            ),
    {
        let ghost listed = proofs@;
        let outcome = self.prover.request_superblock_proof(
            superblock_number,
            last_superblock_hash,
            proofs,
        );
        self.calls = Ghost(
            self.calls@.push(
                ServiceCall::RequestProof {
                    superblock_number,
                    last_superblock_hash,
                    proofs: listed,
                    outcome: outcome_view(outcome),
                },
            ),
        );
        outcome
    }

    /// Announces a new period.
    pub fn broadcast_start_period(
        &mut self,
        period_id: PeriodId,
        target_superblock_number: SuperblockNumber,
    )
        ensures
            final(self).called(
                *old(self),
                ServiceCall::StartPeriod { period_id, target_superblock_number },
            ),
            call_ensures(
                M::broadcast_start_period,
                (&old(self).messenger(), period_id, target_superblock_number),
                (),
            ),
    {
        self.messenger.broadcast_start_period(period_id, target_superblock_number);
        self.calls = Ghost(
            self.calls@.push(ServiceCall::StartPeriod { period_id, target_superblock_number }),
        );
    }

    /// Announces a return to a finalized superblock.
    pub fn broadcast_rollback(
        &mut self,
        period_id: PeriodId,
        superblock_number: SuperblockNumber,
        superblock_hash: SuperblockHash,
    )
        ensures
            final(self).called(
                *old(self),
                ServiceCall::Rollback { period_id, superblock_number, superblock_hash },
            ),
            call_ensures(
                M::broadcast_rollback,
                (&old(self).messenger(), period_id, superblock_number, superblock_hash),
                (),
            ),
    {
        self.messenger.broadcast_rollback(period_id, superblock_number, superblock_hash);
        self.calls = Ghost(
            self.calls@.push(
                ServiceCall::Rollback { period_id, superblock_number, superblock_hash },
            ),
        );
    }

    /// Publishes the proof of a superblock.
    pub fn publish_proof(&mut self, superblock_number: SuperblockNumber, network_proof: Vec<u8>)
        ensures
            final(self).called(
                *old(self),
                ServiceCall::Publish { superblock_number, network_proof: network_proof@ },
            ),
            call_ensures(
                L::publish_proof,
                (&old(self).l1(), superblock_number, network_proof),
                (),
            ),
    {
        let ghost published = network_proof@;
        self.l1.publish_proof(superblock_number, network_proof);
        self.calls = Ghost(
            self.calls@.push(
                ServiceCall::Publish { superblock_number, network_proof: published },
            ),
        );
    }
}

} // verus!
