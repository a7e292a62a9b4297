//! Superblock construction: periods, instances and the collection of chain
//! proofs for the next superblock.
//!
//! [`PublisherState`] holds the rules. [`Publisher`] ties them to a prover, a
//! messenger and the settlement layer.

use std::collections::{HashMap, HashSet};

use vstd::prelude::*;
use vstd::string::*;

#[allow(unused_imports)]
use crate::text::decimal;
use crate::services::Services;
#[allow(unused_imports)]
use crate::services::{outcome_view, ServiceCall};
use crate::text::u64_to_decimal;
#[allow(unused_imports)]
use crate::types::participants;
use crate::types::{
    ChainId, Instance, InstanceId, PeriodId, SequenceNumber, SuperblockHash, SuperblockNumber,
    XtRequest,
};

verus! {

broadcast use vstd::std_specs::hash::group_hash_axioms;

/// Why a [`Publisher`] operation failed.
#[derive(Clone, Copy, Debug, PartialEq, Eq, Structural)]
pub enum PublisherError {
    /// The next superblock would lie beyond the proof window.
    CannotStartPeriod {
        /// The superblock that is being built.
        target: u64,
        /// The superblock that has to be settled first.
        expected: u64,
    },
    /// The settled superblock is not newer than the one already recorded.
    OldSettledState,
    /// The request names fewer than two transaction lists.
    InvalidRequest,
    /// The target superblock is older than the last finalized one.
    InvalidInitialState,
}

/// What [`PublisherError::message`] says.
pub open spec fn publisher_error_text(e: PublisherError) -> Seq<char> {
    match e {
        PublisherError::CannotStartPeriod { target, expected } => {
            "can not start period: target superblock is "@ + decimal(target as nat)
                + ", expected "@ + decimal(expected as nat)
        },
        PublisherError::OldSettledState => "can not advance to older settled state"@,
        PublisherError::InvalidRequest => "invalid request"@,
        PublisherError::InvalidInitialState =>
            "target superblock is less than the last finalized one"@,
    }
}

impl PublisherError {
    /// The error in words.
    pub fn message(&self) -> (text: String)
        ensures
            text@ == publisher_error_text(*self),
    {
        match self {
            PublisherError::CannotStartPeriod { target, expected } => {
                let mut text = "can not start period: target superblock is ".to_string();
                text.append(u64_to_decimal(*target).as_str());
                text.append(", expected ");
                text.append(u64_to_decimal(*expected).as_str());
                text
            },
            PublisherError::OldSettledState =>
                "can not advance to older settled state".to_string(),
            PublisherError::InvalidRequest => "invalid request".to_string(),
            PublisherError::InvalidInitialState =>
                "target superblock is less than the last finalized one".to_string(),
        }
    }
}

/// Generates the proof of a superblock from the proofs of its chains.
pub trait PublisherProver: Send + Sync {
    /// Aggregates `proofs` into the proof of superblock `superblock_number`,
    /// which follows the superblock with hash `last_superblock_hash`.
    fn request_superblock_proof(
        &self,
        superblock_number: SuperblockNumber,
        last_superblock_hash: SuperblockHash,
        proofs: Vec<Vec<u8>>,
    ) -> Result<Vec<u8>, String>;
}

/// Broadcasts protocol messages to connected sequencers.
pub trait PublisherMessenger: Send + Sync {
    /// Announces a new period and the superblock that it builds.
    fn broadcast_start_period(
        &self,
        period_id: PeriodId,
        target_superblock_number: SuperblockNumber,
    );

    /// Announces a return to the given finalized superblock.
    fn broadcast_rollback(
        &self,
        period_id: PeriodId,
        superblock_number: SuperblockNumber,
        superblock_hash: SuperblockHash,
    );
}

/// Publishes superblock proofs to the settlement layer.
pub trait L1Publisher: Send + Sync {
    /// Publishes the proof of superblock `superblock_number`.
    fn publish_proof(&self, superblock_number: SuperblockNumber, network_proof: Vec<u8>);
}

/// Why a proof was not taken.
#[derive(Clone, Copy, Debug, PartialEq, Eq, Structural)]
pub enum Refusal {
    /// Its superblock is finalized already.
    OldSuperblock,
    /// Its superblock is still being built.
    NotTerminated,
    /// Its superblock does not follow the last finalized one.
    NotNext,
    /// It names another period than the one that built its superblock.
    WrongPeriod,
    /// Its chain has handed in a proof for this superblock before.
    Duplicate,
}

/// What came of handing in a proof.
#[derive(Debug)]
pub enum ProofReceipt {
    /// The proof was not taken.
    Ignored(Refusal),
    /// The proof was taken; that of some chain is missing.
    Waiting {
        /// How many proofs the superblock has so far.
        received: usize,
        /// How many chains have to hand one in.
        total: usize,
    },
    /// The proof was taken, and now every chain has handed one in.
    Complete {
        /// The hash of the superblock that the new one follows.
        last_superblock_hash: SuperblockHash,
        /// The superblock's proofs, one for each chain that handed one in.
        proofs: Vec<Vec<u8>>,
    },
}

/// What is to be done about the prover's answer.
#[derive(Debug)]
pub enum Conclusion {
    /// Publish the superblock's proof.
    Publish {
        /// The superblock.
        superblock_number: SuperblockNumber,
        /// Its proof.
        network_proof: Vec<u8>,
    },
    /// Announce a return to the given finalized superblock.
    AnnounceRollback {
        /// The current period.
        period_id: PeriodId,
        /// The newest settled superblock.
        superblock_number: SuperblockNumber,
        /// Its hash.
        superblock_hash: SuperblockHash,
    },
}

/// Where the superblock protocol stands.
#[derive(Debug)]
pub struct PublisherState {
    period_id: PeriodId,
    target_superblock_number: SuperblockNumber,
    last_finalized_superblock_number: SuperblockNumber,
    last_finalized_superblock_hash: SuperblockHash,
    proofs: HashMap<u64, HashMap<u64, Vec<u8>>>,
    chains: HashSet<u64>,
    sequence_number: SequenceNumber,
    proof_window: u64,
}

/// The mathematical content of a [`PublisherState`].
#[verifier::ext_equal]
pub struct PublisherView {
    /// The current period.
    pub period_id: u64,
    /// The superblock that the current period builds.
    pub target: u64,
    /// The newest settled superblock.
    pub last_finalized: u64,
    /// The hash of the newest settled superblock.
    pub last_finalized_hash: SuperblockHash,
    /// The proofs collected so far, by superblock and chain.
    pub proofs: Map<u64, Map<u64, Seq<u8>>>,
    /// The chains that hand in proofs.
    pub chains: Set<u64>,
    /// The number of the instance started last in this period; 0 before the first.
    pub sequence_number: u64,
    /// How far ahead of settlement superblocks may be built; 0 for any distance.
    pub proof_window: u64,
}

/// The proofs of one superblock by chain.
pub open spec fn chain_proofs(m: HashMap<u64, Vec<u8>>) -> Map<u64, Seq<u8>> {
    m@.map_values(|b: Vec<u8>| b@)
}

impl View for PublisherState {
    type V = PublisherView;

    closed spec fn view(&self) -> PublisherView {
        PublisherView {
            period_id: self.period_id.0,
            target: self.target_superblock_number.0,
            last_finalized: self.last_finalized_superblock_number.0,
            last_finalized_hash: self.last_finalized_superblock_hash,
            proofs: self.proofs@.map_values(|m: HashMap<u64, Vec<u8>>| chain_proofs(m)),
            chains: self.chains@,
            sequence_number: self.sequence_number.0,
            proof_window: self.proof_window,
        }
    }
}

impl PublisherView {
    /// Whether the superblock after the target still lies within the proof window.
    pub open spec fn window_open(self) -> bool {
        self.proof_window != 0 ==> self.target + 1 <= self.last_finalized + 1 + self.proof_window
    }

    /// The state after a new period has begun.
    pub open spec fn next_period(self) -> PublisherView {
        PublisherView {
            period_id: (self.period_id + 1) as u64,
            target: (self.target + 1) as u64,
            sequence_number: 0,
            ..self
        }
    }

    /// The period that built superblock `sb`, counted back from the current one.
    pub open spec fn period_of(self, sb: u64) -> int {
        self.period_id - (self.target - sb)
    }

    /// Whether `sb` is closed and directly follows the last finalized superblock.
    pub open spec fn awaits_proofs_of(self, sb: u64) -> bool {
        sb < self.target && sb == self.last_finalized + 1
    }

    /// The proofs collected for superblock `sb`.
    pub open spec fn collected(self, sb: u64) -> Map<u64, Seq<u8>> {
        if self.proofs.contains_key(sb) {
            self.proofs[sb]
        } else {
            Map::empty()
        }
    }

    /// Whether every chain has handed in its proof for superblock `sb`.
    pub open spec fn complete(self, sb: u64) -> bool {
        self.chains.subset_of(self.collected(sb).dom())
    }

    /// Why a proof is refused, where it is.
    pub open spec fn refusal(self, period_id: u64, sb: u64, chain: u64) -> Option<Refusal> {
        if sb <= self.last_finalized {
            Some(Refusal::OldSuperblock)
        } else if sb >= self.target {
            Some(Refusal::NotTerminated)
        } else if sb != self.last_finalized + 1 {
            Some(Refusal::NotNext)
        } else if period_id != self.period_of(sb) {
            Some(Refusal::WrongPeriod)
        } else if self.collected(sb).contains_key(chain) {
            Some(Refusal::Duplicate)
        } else {
            None
        }
    }

    /// The state after the proof `data` of `chain` for superblock `sb` was taken.
    pub open spec fn with_proof(self, sb: u64, chain: u64, data: Seq<u8>) -> PublisherView {
        PublisherView {
            proofs: self.proofs.insert(sb, self.collected(sb).insert(chain, data)),
            ..self
        }
    }

    /// The state after the proofs of superblock `sb` were dropped.
    pub open spec fn without_proofs(self, sb: u64) -> PublisherView {
        PublisherView { proofs: self.proofs.remove(sb), ..self }
    }

    /// The state after a return to the last finalized superblock.
    pub open spec fn rolled_back(self) -> PublisherView {
        PublisherView {
            sequence_number: 0,
            target: (self.last_finalized + 1) as u64,
            proofs: Map::empty(),
            ..self
        }
    }

    /// The announcement of a return to the last finalized superblock.
    pub open spec fn rollback_call(self) -> ServiceCall {
        ServiceCall::Rollback {
            period_id: PeriodId(self.period_id),
            superblock_number: SuperblockNumber(self.last_finalized),
            superblock_hash: self.last_finalized_hash,
        }
    }

    /// The state after one more instance was started.
    pub open spec fn next_instance(self) -> PublisherView {
        PublisherView { sequence_number: (self.sequence_number + 1) as u64, ..self }
    }

    /// The state after superblock `sb` with hash `hash` was settled.
    pub open spec fn settled(self, sb: u64, hash: SuperblockHash) -> PublisherView {
        PublisherView { last_finalized: sb, last_finalized_hash: hash, ..self }
    }
}

/// `list` holds the values of `m`, one for each key, in some order.
pub open spec fn lists_values(list: Seq<Vec<u8>>, m: Map<u64, Seq<u8>>) -> bool {
    exists|keys: Seq<u64>| #[trigger] lists_values_by(list, m, keys)
}

/// `list` holds the values of `m` in the order of `keys`, which are all its keys.
pub open spec fn lists_values_by(list: Seq<Vec<u8>>, m: Map<u64, Seq<u8>>, keys: Seq<u64>) -> bool {
    &&& keys.no_duplicates()
    &&& keys.to_set() == m.dom()
    &&& keys.len() == list.len()
    &&& forall|i: int| 0 <= i < list.len() ==> #[trigger] list[i]@ == m[keys[i]]
}

/// The values of `m`, in the order in which the map is walked.
fn proof_list(m: &HashMap<u64, Vec<u8>>) -> (list: Vec<Vec<u8>>)
    ensures
        lists_values(list@, chain_proofs(*m)),
{
    let mut list: Vec<Vec<u8>> = Vec::new();
    let ghost pairs = vstd::std_specs::iter::IteratorSpec::remaining(
        &vstd::std_specs::hash::spec_hash_map_iter(m),
    );
    let ghost keys = pairs.map_values(|p: (&u64, &Vec<u8>)| *p.0);
    for (k, v) in it: m.iter()
        invariant
            it.seq() == pairs,
            it.seq().no_duplicates(),
            list.len() == it.index(),
            keys == pairs.map_values(|p: (&u64, &Vec<u8>)| *p.0),
            forall|i: int| 0 <= i < list.len() ==> (#[trigger] list@[i])@ == pairs[i].1@,
    {
        list.push(v.clone());
    }
    proof {
        assert(pairs.len() == list.len());
        assert forall|i: int, j: int| 0 <= i < j < keys.len() implies keys[i] != keys[j] by {
            assert(m@.contains_key(*pairs[i].0) && m@.contains_key(*pairs[j].0));
            if keys[i] == keys[j] {
                assert(pairs[i] == pairs[j]);
            }
        }
        assert(keys.to_set() =~= chain_proofs(*m).dom()) by {
            assert forall|k: u64| chain_proofs(*m).dom().contains(k) implies keys.to_set().contains(
                k,
            ) by {
                assert(m@.contains_key(k));
                assert(pairs.contains((&k, &m@[k])));
                let i = choose|i: int| 0 <= i < pairs.len() && pairs[i] == (&k, &m@[k]);
                assert(keys[i] == k);
            }
            assert forall|k: u64| keys.to_set().contains(k) implies chain_proofs(
                *m,
            ).dom().contains(k) by {
                let i = choose|i: int| 0 <= i < keys.len() && keys[i] == k;
                assert(m@.contains_key(*pairs[i].0));
            }
        }
        assert forall|i: int| 0 <= i < list.len() implies (#[trigger] list@[i])@ == chain_proofs(
            *m,
        )[keys[i]] by {
            assert(m@.contains_key(*pairs[i].0));
        }
        assert(lists_values_by(list@, chain_proofs(*m), keys));
    }
    list
}

/// Whether each of `chains` has a proof in `m`.
fn has_all(chains: &HashSet<u64>, m: &HashMap<u64, Vec<u8>>) -> (all: bool)
    ensures
        all == chains@.subset_of(chain_proofs(*m).dom()),
{
    let ghost listed = vstd::std_specs::iter::IteratorSpec::remaining(
        &vstd::std_specs::hash::spec_hash_keys_iter(chains),
    );
    for c in it: chains.iter()
        invariant
            it.seq() == listed,
            forall|i: int| 0 <= i < it.index() ==> m@.contains_key(*#[trigger] listed[i]),
            forall|c: u64| #[trigger] listed.unref().contains(c) ==> chains@.contains(c),
    {
        if !m.contains_key(c) {
            assert(listed.unref()[it.index()] == *c);
            assert(chains@.contains(*c));
            return false;
        }
    }
    assert forall|c: u64| chains@.contains(c) implies chain_proofs(*m).dom().contains(c) by {
        let i = choose|i: int| 0 <= i < listed.unref().len() && listed.unref()[i] == c;
        assert(m@.contains_key(*listed[i]));
    }
    true
}

impl PublisherState {
    /// The state before the first period. `previous_period_id` and
    /// `previous_target_superblock_number` belong to the period before it.
    pub fn new(
        previous_period_id: PeriodId,
        previous_target_superblock_number: SuperblockNumber,
        last_finalized_superblock_number: SuperblockNumber,
        last_finalized_superblock_hash: SuperblockHash,
        proof_window: u64,
        chains: HashSet<u64>,
    ) -> (r: Result<PublisherState, PublisherError>)
        ensures
            match r {
                Ok(state) => {
                    &&& previous_target_superblock_number.0 >= last_finalized_superblock_number.0
                    &&& state@ == (PublisherView {
                        period_id: previous_period_id.0,
                        target: previous_target_superblock_number.0,
                        last_finalized: last_finalized_superblock_number.0,
                        last_finalized_hash: last_finalized_superblock_hash,
                        proofs: Map::empty(),
                        chains: chains@,
                        sequence_number: 0,
                        proof_window,
                    })
                },
                Err(e) => {
                    &&& previous_target_superblock_number.0 < last_finalized_superblock_number.0
                    &&& e == PublisherError::InvalidInitialState
                },
            },
    {
        if previous_target_superblock_number.0 < last_finalized_superblock_number.0 {
            return Err(PublisherError::InvalidInitialState);
        }
        let state = PublisherState {
            period_id: previous_period_id,
            target_superblock_number: previous_target_superblock_number,
            last_finalized_superblock_number,
            last_finalized_superblock_hash,
            proofs: HashMap::new(),
            chains,
            sequence_number: SequenceNumber(0),
            proof_window,
        };
        assert(state@.proofs =~= Map::empty());
        Ok(state)
    }

    /// Begins a new period and returns it with the superblock that it builds.
    pub fn start_period(&mut self) -> (r: Result<(PeriodId, SuperblockNumber), PublisherError>)
        requires
            old(self)@.window_open() ==> old(self)@.period_id < u64::MAX,
            old(self)@.target < u64::MAX,
            old(self)@.proof_window != 0 ==> old(self)@.last_finalized + 1
                + old(self)@.proof_window <= u64::MAX,
        ensures
            if old(self)@.window_open() {
                &&& r == Ok::<_, PublisherError>(
                    (PeriodId(final(self)@.period_id), SuperblockNumber(final(self)@.target)),
                )
                &&& final(self)@ == old(self)@.next_period()
            } else {
                &&& r == Err::<(PeriodId, SuperblockNumber), _>(
                    PublisherError::CannotStartPeriod {
                        target: old(self)@.target,
                        expected: (old(self)@.last_finalized + 1) as u64,
                    },
                )
                &&& final(self)@ == old(self)@
            },
    {
        let next_superblock: u64 = self.target_superblock_number.0 + 1;
        if self.proof_window != 0 {
            let limit: u64 = self.last_finalized_superblock_number.0 + (1 + self.proof_window);
            if next_superblock > limit {
                return Err(
                    PublisherError::CannotStartPeriod {
                        target: self.target_superblock_number.0,
                        expected: self.last_finalized_superblock_number.0 + 1,
                    },
                );
            }
        }
        self.period_id = PeriodId(self.period_id.0 + 1);
        self.target_superblock_number = SuperblockNumber(next_superblock);
        self.sequence_number = SequenceNumber(0);
        Ok((self.period_id, self.target_superblock_number))
    }

    /// Takes the proof of one chain for the next superblock to settle. The set is
    /// complete once every chain has handed in its own; a proof under any other
    /// chain is kept, and completes nothing.
    pub fn receive_proof(
        &mut self,
        period_id: PeriodId,
        superblock_number: SuperblockNumber,
        data: Vec<u8>,
        chain_id: ChainId,
    ) -> (r: ProofReceipt)
        requires
            old(self)@.awaits_proofs_of(superblock_number.0) ==> old(self)@.period_of(
                superblock_number.0,
            ) >= 0,
        ensures
            match old(self)@.refusal(period_id.0, superblock_number.0, chain_id.0) {
                Some(refusal) => {
                    &&& r == ProofReceipt::Ignored(refusal)
                    &&& final(self)@ == old(self)@
                },
                None => {
                    let collected = final(self)@.collected(superblock_number.0);
                    &&& final(self)@ == old(self)@.with_proof(
                        superblock_number.0,
                        chain_id.0,
                        data@,
                    )
                    &&& if old(self)@.chains.subset_of(collected.dom()) {
                        r matches ProofReceipt::Complete { last_superblock_hash, proofs }
                            && last_superblock_hash == old(self)@.last_finalized_hash
                            && lists_values(proofs@, collected)
                    } else {
                        r matches ProofReceipt::Waiting { received, total }
                            && received == collected.len() && total == old(self)@.chains.len()
                    }
                },
            },
    {
        let sb: u64 = superblock_number.0;
        let finalized: u64 = self.last_finalized_superblock_number.0;
        let target: u64 = self.target_superblock_number.0;
        if sb <= finalized {
            return ProofReceipt::Ignored(Refusal::OldSuperblock);
        }
        if sb >= target {
            return ProofReceipt::Ignored(Refusal::NotTerminated);
        }
        if sb != finalized + 1 {
            return ProofReceipt::Ignored(Refusal::NotNext);
        }
        let expected_period: u64 = self.period_id.0 - (target - sb);
        if period_id.0 != expected_period {
            return ProofReceipt::Ignored(Refusal::WrongPeriod);
        }
        let ghost before = self@;
        let ghost stored = self.proofs@;
        let known = match self.proofs.get(&sb) {
            Some(m) => m.contains_key(&chain_id.0),
            None => false,
        };
        if known {
            return ProofReceipt::Ignored(Refusal::Duplicate);
        }
        let mut sb_proofs = match self.proofs.remove(&sb) {
            Some(m) => m,
            None => HashMap::new(),
        };
        assert(chain_proofs(sb_proofs) =~= before.collected(sb));
        let ghost earlier = sb_proofs;
        sb_proofs.insert(chain_id.0, data);
        assert(chain_proofs(sb_proofs) =~= chain_proofs(earlier).insert(chain_id.0, data@));
        assert(chain_proofs(sb_proofs).dom() =~= sb_proofs@.dom());
        let receipt = if has_all(&self.chains, &sb_proofs) {
            ProofReceipt::Complete {
                last_superblock_hash: self.last_finalized_superblock_hash,
                proofs: proof_list(&sb_proofs),
            }
        } else {
            ProofReceipt::Waiting { received: sb_proofs.len(), total: self.chains.len() }
        };
        self.proofs.insert(sb, sb_proofs);
        assert(self@.proofs =~= before.with_proof(sb, chain_id.0, data@).proofs);
        receipt
    }

    /// Acts on the prover's answer for a superblock: a proof is to be published, and
    /// the proofs of the chains are dropped; a failure leads back to the last
    /// finalized superblock.
    pub fn conclude(
        &mut self,
        superblock_number: SuperblockNumber,
        outcome: Result<Vec<u8>, String>,
    ) -> (r: Conclusion)
        requires
            outcome is Err ==> old(self)@.last_finalized < u64::MAX,
        ensures
            match outcome {
                Ok(proof_bytes) => {
                    &&& final(self)@ == old(self)@.without_proofs(superblock_number.0)
                    &&& r == Conclusion::Publish { superblock_number, network_proof: proof_bytes }
                },
                Err(_) => {
                    &&& final(self)@ == old(self)@.rolled_back()
                    &&& r == (Conclusion::AnnounceRollback {
                        period_id: PeriodId(old(self)@.period_id),
                        superblock_number: SuperblockNumber(old(self)@.last_finalized),
                        superblock_hash: old(self)@.last_finalized_hash,
                    })
                },
            },
    {
        match outcome {
            Ok(network_proof) => {
                self.proofs.remove(&superblock_number.0);
                assert(self@.proofs =~= old(self)@.proofs.remove(superblock_number.0));
                Conclusion::Publish { superblock_number, network_proof }
            },
            Err(_) => {
                let (period_id, superblock_number, superblock_hash) = self.rollback();
                Conclusion::AnnounceRollback { period_id, superblock_number, superblock_hash }
            },
        }
    }

    /// Assigns the next sequence number of the period to an instance that runs
    /// `request`, with the identifier that `generate_instance_id` gives it.
    pub fn start_instance<G: Fn(PeriodId, SequenceNumber, &XtRequest) -> InstanceId>(
        &mut self,
        request: XtRequest,
        generate_instance_id: &G,
    ) -> (r: Result<Instance, PublisherError>)
        requires
            request@.len() >= 2 ==> old(self)@.sequence_number < u64::MAX,
            forall|p: PeriodId, n: SequenceNumber, q: XtRequest|
                call_requires(*generate_instance_id, (p, n, &q)),
        ensures
            if request@.len() < 2 {
                &&& r == Err::<Instance, _>(PublisherError::InvalidRequest)
                &&& final(self)@ == old(self)@
            } else {
                &&& r matches Ok(instance)
                &&& final(self)@ == old(self)@.next_instance()
                &&& instance.period_id.0 == final(self)@.period_id
                &&& instance.sequence_number.0 == final(self)@.sequence_number
                &&& instance.xt_request == request
                &&& call_ensures(
                    *generate_instance_id,
                    (instance.period_id, instance.sequence_number, &request),
                    instance.id,
                )
            },
    {
        if request.transactions.len() < 2 {
            return Err(PublisherError::InvalidRequest);
        }
        self.sequence_number = SequenceNumber(self.sequence_number.0 + 1);
        let id = generate_instance_id(self.period_id, self.sequence_number, &request);
        Ok(
            Instance {
                id,
                period_id: self.period_id,
                sequence_number: self.sequence_number,
                xt_request: request,
            },
        )
    }

    /// Records that a newer superblock was settled.
    pub fn advance_settled_state(
        &mut self,
        superblock_number: SuperblockNumber,
        superblock_hash: SuperblockHash,
    ) -> (r: Result<(), PublisherError>)
        ensures
            if superblock_number.0 <= old(self)@.last_finalized {
                &&& r == Err::<(), _>(PublisherError::OldSettledState)
                &&& final(self)@ == old(self)@
            } else {
                &&& r is Ok
                &&& final(self)@ == old(self)@.settled(superblock_number.0, superblock_hash)
            },
    {
        if superblock_number.0 <= self.last_finalized_superblock_number.0 {
            return Err(PublisherError::OldSettledState);
        }
        self.last_finalized_superblock_number = superblock_number;
        self.last_finalized_superblock_hash = superblock_hash;
        Ok(())
    }

    /// Returns to the last finalized superblock and says what to announce.
    pub fn rollback(&mut self) -> (r: (PeriodId, SuperblockNumber, SuperblockHash))
        requires
            old(self)@.last_finalized < u64::MAX,
        ensures
            final(self)@ == old(self)@.rolled_back(),
            r == (
                PeriodId(old(self)@.period_id),
                SuperblockNumber(old(self)@.last_finalized),
                old(self)@.last_finalized_hash,
            ),
    {
        self.sequence_number = SequenceNumber(0);
        self.target_superblock_number = SuperblockNumber(
            self.last_finalized_superblock_number.0 + 1,
        );
        self.proofs.clear();
        assert(self@.proofs =~= Map::empty());
        (self.period_id, self.last_finalized_superblock_number, self.last_finalized_superblock_hash)
    }

    /// The superblock that the current period builds.
    pub fn target_superblock_number(&self) -> (target: SuperblockNumber)
        ensures
            target.0 == self@.target,
    {
        self.target_superblock_number
    }

    /// The proofs collected for superblock `sb`, by chain.
    pub fn proofs_for(&self, sb: SuperblockNumber) -> (r: Option<HashMap<u64, Vec<u8>>>)
        ensures
            match r {
                Some(m) => self@.proofs.contains_key(sb.0) && chain_proofs(m)
                    == self@.proofs[sb.0],
                None => !self@.proofs.contains_key(sb.0),
            },
    {
        match self.proofs.get(&sb.0) {
            Some(m) => Some(m.clone()),
            None => None,
        }
    }
}

/// The superblock protocol together with the services that it drives.
pub struct Publisher<
    P: PublisherProver,
    M: PublisherMessenger,
    L: L1Publisher,
    G: Fn(PeriodId, SequenceNumber, &XtRequest) -> InstanceId,
> {
    state: PublisherState,
    services: Services<P, M, L>,
    generate_instance_id: G,
}

impl<
    P: PublisherProver,
    M: PublisherMessenger,
    L: L1Publisher,
    G: Fn(PeriodId, SequenceNumber, &XtRequest) -> InstanceId,
> View for Publisher<P, M, L, G> {
    type V = PublisherView;

    closed spec fn view(&self) -> PublisherView {
        self.state@
    }
}

impl<
    P: PublisherProver,
    M: PublisherMessenger,
    L: L1Publisher,
    G: Fn(PeriodId, SequenceNumber, &XtRequest) -> InstanceId,
> Publisher<P, M, L, G> {
    /// The prover in use.
    pub closed spec fn prover(self) -> P {
        self.services.prover()
    }

    /// The messenger in use.
    pub closed spec fn messenger(self) -> M {
        self.services.messenger()
    }

    /// The settlement layer in use.
    pub closed spec fn l1(self) -> L {
        self.services.l1()
    }

    /// The calls that were made to the prover, the messenger and the settlement
    /// layer, in order.
    pub closed spec fn calls(self) -> Seq<ServiceCall> {
        self.services.calls()
    }

    /// The function that names instances.
    pub closed spec fn generator(self) -> G {
        self.generate_instance_id
    }

    /// The two values drive the same services.
    pub open spec fn same_services(self, other: Self) -> bool {
        &&& self.prover() == other.prover()
        &&& self.messenger() == other.messenger()
        &&& self.l1() == other.l1()
        &&& self.generator() == other.generator()
    }

    /// Creates a publisher. `previous_period_id` and
    /// `previous_target_superblock_number` belong to the period before the first
    /// one; call [`Publisher::start_period`] to begin that.
    pub fn new(
        prover: P,
        messenger: M,
        l1: L,
        generate_instance_id: G,
        previous_period_id: PeriodId,
        previous_target_superblock_number: SuperblockNumber,
        last_finalized_superblock_number: SuperblockNumber,
        last_finalized_superblock_hash: SuperblockHash,
        proof_window: u64,
        chains: HashSet<u64>,
    ) -> (r: Result<Self, PublisherError>)
        ensures
            match r {
                Ok(publisher) => {
                    &&& previous_target_superblock_number.0 >= last_finalized_superblock_number.0
                    &&& publisher.prover() == prover
                    &&& publisher.messenger() == messenger
                    &&& publisher.l1() == l1
                    &&& publisher.calls() == Seq::<ServiceCall>::empty()
                    &&& publisher.generator() == generate_instance_id
                    &&& publisher@ == (PublisherView {
                        period_id: previous_period_id.0,
                        target: previous_target_superblock_number.0,
                        last_finalized: last_finalized_superblock_number.0,
                        last_finalized_hash: last_finalized_superblock_hash,
                        proofs: Map::empty(),
                        chains: chains@,
                        sequence_number: 0,
                        proof_window,
                    })
                },
                Err(e) => {
                    &&& previous_target_superblock_number.0 < last_finalized_superblock_number.0
                    &&& e == PublisherError::InvalidInitialState
                },
            },
    {
        match PublisherState::new(
            previous_period_id,
            previous_target_superblock_number,
            last_finalized_superblock_number,
            last_finalized_superblock_hash,
            proof_window,
            chains,
        ) {
            Ok(state) => {
                let services = Services::new(prover, messenger, l1);
                Ok(Publisher { state, services, generate_instance_id })
            },
            Err(e) => Err(e),
        }
    }

    /// Begins a new period and announces it.
    pub fn start_period(&mut self) -> (r: Result<(), PublisherError>)
        requires
            old(self)@.window_open() ==> old(self)@.period_id < u64::MAX,
            old(self)@.target < u64::MAX,
            old(self)@.proof_window != 0 ==> old(self)@.last_finalized + 1
                + old(self)@.proof_window <= u64::MAX,
        ensures
            final(self).same_services(*old(self)),
            if old(self)@.window_open() {
                &&& r is Ok
                &&& final(self)@ == old(self)@.next_period()
                &&& call_ensures(
                    M::broadcast_start_period,
                    (
                        &old(self).messenger(),
                        PeriodId(final(self)@.period_id),
                        SuperblockNumber(final(self)@.target),
                    ),
                    (),
                )
                &&& final(self).calls() == old(self).calls().push(
                    ServiceCall::StartPeriod {
                        period_id: PeriodId(final(self)@.period_id),
                        target_superblock_number: SuperblockNumber(final(self)@.target),
                    },
                )
            } else {
                &&& r == Err::<(), _>(
                    PublisherError::CannotStartPeriod {
                        target: old(self)@.target,
                        expected: (old(self)@.last_finalized + 1) as u64,
                    },
                )
                &&& final(self)@ == old(self)@
                &&& final(self).calls() == old(self).calls()
            },
    {
        match self.state.start_period() {
            Ok((period_id, target)) => {
                self.services.broadcast_start_period(period_id, target);
                Ok(())
            },
            Err(e) => Err(e),
        }
    }

    /// Takes the proof of one chain. Once every chain has handed in its own, the
    /// superblock's proof is generated and published; where that fails, the
    /// protocol returns to the last finalized superblock. A proof under a chain
    /// that is not one of the publisher's is kept, and completes nothing.
    pub fn receive_proof(
        &mut self,
        period_id: PeriodId,
        superblock_number: SuperblockNumber,
        data: Vec<u8>,
        chain_id: ChainId,
    )
        requires
            old(self)@.awaits_proofs_of(superblock_number.0) ==> old(self)@.period_of(
                superblock_number.0,
            ) >= 0,
        ensures
            final(self).same_services(*old(self)),
            ({
                let sb = superblock_number.0;
                let taken = old(self)@.with_proof(sb, chain_id.0, data@);
                if old(self)@.refusal(period_id.0, sb, chain_id.0) is Some {
                    &&& final(self)@ == old(self)@
                    &&& final(self).calls() == old(self).calls()
                } else if !taken.complete(sb) {
                    &&& final(self)@ == taken
                    &&& final(self).calls() == old(self).calls()
                } else {
                    exists|proofs: Vec<Vec<u8>>, outcome: Result<Vec<u8>, String>|
                        {
                            &&& lists_values(proofs@, taken.collected(sb))
                            &&& #[trigger] call_ensures(
                                P::request_superblock_proof,
                                (
                                    &old(self).prover(),
                                    superblock_number,
                                    old(self)@.last_finalized_hash,
                                    proofs,
                                ),
                                outcome,
                            )
                            &&& ({
                                let asked = old(self).calls().push(
                                    ServiceCall::RequestProof {
                                        superblock_number,
                                        last_superblock_hash: old(self)@.last_finalized_hash,
                                        proofs: proofs@,
                                        outcome: outcome_view(outcome),
                                    },
                                );
                                match outcome {
                                    Ok(network_proof) => {
                                        &&& final(self)@ == taken.without_proofs(sb)
                                        &&& call_ensures(
                                            L::publish_proof,
                                            (&old(self).l1(), superblock_number, network_proof),
                                            (),
                                        )
                                        &&& final(self).calls() == asked.push(
                                            ServiceCall::Publish {
                                                superblock_number,
                                                network_proof: network_proof@,
                                            },
                                        )
                                    },
                                    Err(_) => {
                                        &&& final(self)@ == taken.rolled_back()
                                        &&& call_ensures(
                                            M::broadcast_rollback,
                                            (
                                                &old(self).messenger(),
                                                PeriodId(old(self)@.period_id),
                                                SuperblockNumber(old(self)@.last_finalized),
                                                old(self)@.last_finalized_hash,
                                            ),
                                            (),
                                        )
                                        &&& final(self).calls() == asked.push(
                                            old(self)@.rollback_call(),
                                        )
                                    },
                                }
                            })
                        }
                }
            }),
    {
        match self.state.receive_proof(period_id, superblock_number, data, chain_id) {
            ProofReceipt::Complete { last_superblock_hash, proofs } => {
                let outcome = self.services.request_superblock_proof(
                    superblock_number,
                    last_superblock_hash,
                    proofs,
                );
                match self.state.conclude(superblock_number, outcome) {
                    Conclusion::Publish { superblock_number: settled, network_proof } => {
                        self.services.publish_proof(settled, network_proof);
                    },
                    Conclusion::AnnounceRollback {
                        period_id: period,
                        superblock_number: finalized,
                        superblock_hash,
                    } => {
                        self.services.broadcast_rollback(period, finalized, superblock_hash);
                    },
                }
            },
            _ => {},
        }
    }

    /// Starts an instance for the given cross-chain request.
    pub fn start_instance(&mut self, request: XtRequest) -> (r: Result<Instance, PublisherError>)
        requires
            request@.len() >= 2 ==> old(self)@.sequence_number < u64::MAX,
            forall|p: PeriodId, n: SequenceNumber, q: XtRequest|
                call_requires(old(self).generator(), (p, n, &q)),
        ensures
            final(self).same_services(*old(self)),
            final(self).calls() == old(self).calls(),
            if request@.len() < 2 {
                &&& r == Err::<Instance, _>(PublisherError::InvalidRequest)
                &&& final(self)@ == old(self)@
            } else {
                &&& r matches Ok(instance)
                &&& final(self)@ == old(self)@.next_instance()
                &&& instance.period_id.0 == final(self)@.period_id
                &&& instance.sequence_number.0 == final(self)@.sequence_number
                &&& instance.xt_request == request
                &&& call_ensures(
                    old(self).generator(),
                    (instance.period_id, instance.sequence_number, &request),
                    instance.id,
                )
            },
    {
        proof {
            assert forall|p: PeriodId, n: SequenceNumber, q: XtRequest| call_requires(
                self.generate_instance_id,
                (p, n, &q),
            ) by {
                assert(call_requires(old(self).generator(), (p, n, &q)));
            }
        }
        self.state.start_instance(request, &self.generate_instance_id)
    }

    /// Records that the settlement layer settled a newer superblock.
    pub fn advance_settled_state(
        &mut self,
        superblock_number: SuperblockNumber,
        superblock_hash: SuperblockHash,
    ) -> (r: Result<(), PublisherError>)
        ensures
            final(self).same_services(*old(self)),
            final(self).calls() == old(self).calls(),
            if superblock_number.0 <= old(self)@.last_finalized {
                &&& r == Err::<(), _>(PublisherError::OldSettledState)
                &&& final(self)@ == old(self)@
            } else {
                &&& r is Ok
                &&& final(self)@ == old(self)@.settled(superblock_number.0, superblock_hash)
            },
    {
        self.state.advance_settled_state(superblock_number, superblock_hash)
    }

    /// Returns to the last finalized superblock because a proof is overdue.
    pub fn proof_timeout(&mut self)
        requires
            old(self)@.last_finalized < u64::MAX,
        ensures
            final(self).same_services(*old(self)),
            final(self)@ == old(self)@.rolled_back(),
            final(self).calls() == old(self).calls().push(old(self)@.rollback_call()),
            call_ensures(
                M::broadcast_rollback,
                (
                    &old(self).messenger(),
                    PeriodId(old(self)@.period_id),
                    SuperblockNumber(old(self)@.last_finalized),
                    old(self)@.last_finalized_hash,
                ),
                (),
            ),
    {
        self.rollback();
    }

    /// Returns to the last finalized superblock and announces it.
    fn rollback(&mut self)
        requires
            old(self)@.last_finalized < u64::MAX,
        ensures
            final(self).same_services(*old(self)),
            final(self)@ == old(self)@.rolled_back(),
            final(self).calls() == old(self).calls().push(old(self)@.rollback_call()),
            call_ensures(
                M::broadcast_rollback,
                (
                    &old(self).messenger(),
                    PeriodId(old(self)@.period_id),
                    SuperblockNumber(old(self)@.last_finalized),
                    old(self)@.last_finalized_hash,
                ),
                (),
            ),
    {
        let (period_id, superblock_number, superblock_hash) = self.state.rollback();
        self.services.broadcast_rollback(period_id, superblock_number, superblock_hash);
    }

    /// The superblock that the current period builds.
    pub fn target_superblock_number(&self) -> (target: SuperblockNumber)
        ensures
            target.0 == self@.target,
    {
        self.state.target_superblock_number()
    }

    /// The proofs collected for superblock `sb`, by chain.
    pub fn proofs_for(&self, sb: SuperblockNumber) -> (r: Option<HashMap<u64, Vec<u8>>>)
        ensures
            match r {
                Some(m) => self@.proofs.contains_key(sb.0) && chain_proofs(m)
                    == self@.proofs[sb.0],
                None => !self@.proofs.contains_key(sb.0),
            },
    {
        self.state.proofs_for(sb)
    }
}

} // verus!
