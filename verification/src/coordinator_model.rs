//! The two-phase commit protocol in mathematical terms: what a coordinator's
//! state holds and how each operation changes it.

use vstd::prelude::*;

#[allow(unused_imports)]
use crate::mailbox::ProofDataView;
#[allow(unused_imports)]
use crate::messages::{from_publisher, DecidedView, MessageView, PayloadView};
#[allow(unused_imports)]
use crate::text::hex_lower;
#[allow(unused_imports)]
use crate::time::elapsed;
#[allow(unused_imports)]
use crate::types::ChainId;

verus! {

/// How many cross-chain transactions may be undecided at a time.
pub const MAX_ACTIVE_XTS: usize = 100;

/// An undecided cross-chain transaction.
#[verifier::ext_equal]
pub struct ActiveXtView {
    /// When the request came in.
    pub received_at: nat,
    /// The participating chains.
    pub chains: Seq<ChainId>,
    /// The votes cast so far, by chain.
    pub votes: Map<u64, bool>,
    /// The instance's identifier.
    pub instance_id: Seq<u8>,
    /// When the instance was started.
    pub start_time: nat,
}

/// A decided cross-chain transaction that chains have yet to include in a block.
#[verifier::ext_equal]
pub struct PendingConfirmationView {
    /// When the request came in.
    pub received_at: nat,
    /// The participating chains.
    pub chains: Seq<ChainId>,
    /// The chains that have reported inclusion.
    pub confirmed: Set<u64>,
    /// The instance's identifier.
    pub instance_id: Seq<u8>,
}

/// A chain's newest proof.
#[verifier::ext_equal]
pub struct ChainProofView {
    /// The superblock number that the chain gave.
    pub superblock_number: u64,
    /// The proof.
    pub data: ProofDataView,
}

/// What a coordinator's state holds.
#[verifier::ext_equal]
pub struct CoordinatorStateView {
    /// The client that speaks for each registered chain.
    pub chain_to_client: Map<u64, Seq<char>>,
    /// The chain that each client has registered for.
    pub client_to_chain: Map<Seq<char>, u64>,
    /// The undecided transactions, by identifier.
    pub active_xts: Map<Seq<char>, ActiveXtView>,
    /// The current period.
    pub current_period_id: u64,
    /// The sequence number of the next instance.
    pub next_sequence_num: u64,
    /// The superblock to submit next.
    pub next_superblock_number: u64,
    /// The newest settled superblock.
    pub last_finalized_superblock_number: u64,
    /// Its hash, as read at start-up.
    pub last_finalized_superblock_hash: Seq<u8>,
    /// How many transactions were committed and belong to no submitted superblock.
    pub committed_xts: u64,
    /// How many transactions belong to a superblock that was submitted and that the
    /// settlement layer has yet to confirm.
    pub submitted_xts: u64,
    /// How many transactions the settlement layer has confirmed in the current
    /// period.
    pub current_period_finalized_xts: u64,
    /// The newest proof of each chain that has handed one in.
    pub pending_proofs: Map<u64, ChainProofView>,
    /// When the first of these proofs came in.
    pub proof_collection_started: Option<nat>,
    /// The decided transactions awaiting inclusion, by identifier.
    pub pending_confirmations: Map<Seq<char>, PendingConfirmationView>,
}

/// Every vote is a yes.
pub open spec fn all_yes(votes: Map<u64, bool>) -> bool {
    forall|c: u64| #[trigger] votes.contains_key(c) ==> votes[c]
}

impl ActiveXtView {
    /// The transaction after `chain` has voted.
    pub open spec fn with_vote(self, chain: u64, vote: bool) -> ActiveXtView {
        ActiveXtView { votes: self.votes.insert(chain, vote), ..self }
    }

    /// The outcome, once there are as many votes as participants.
    pub open spec fn decision(self) -> Option<bool> {
        if self.votes.len() < self.chains.len() {
            None
        } else {
            Some(all_yes(self.votes))
        }
    }

    /// The transaction as it awaits inclusion.
    pub open spec fn awaiting_inclusion(self) -> PendingConfirmationView {
        PendingConfirmationView {
            received_at: self.received_at,
            chains: self.chains,
            confirmed: Set::empty(),
            instance_id: self.instance_id,
        }
    }

    /// Whether the transaction has been undecided for `timeout` or longer.
    pub open spec fn expired(self, now: nat, timeout: nat) -> bool {
        elapsed(self.start_time, now) >= timeout
    }
}

/// The announcement of an instance's outcome.
pub open spec fn decided_message(instance_id: Seq<u8>, decision: bool) -> MessageView {
    from_publisher(PayloadView::Decided(DecidedView { instance_id, decision }))
}

impl CoordinatorStateView {
    /// The state at start-up.
    pub open spec fn initial() -> CoordinatorStateView {
        CoordinatorStateView {
            chain_to_client: Map::empty(),
            client_to_chain: Map::empty(),
            active_xts: Map::empty(),
            current_period_id: 0,
            next_sequence_num: 1,
            next_superblock_number: 1,
            last_finalized_superblock_number: 0,
            last_finalized_superblock_hash: Seq::empty(),
            committed_xts: 0,
            submitted_xts: 0,
            current_period_finalized_xts: 0,
            pending_proofs: Map::empty(),
            proof_collection_started: None,
            pending_confirmations: Map::empty(),
        }
    }

    /// The state after `client` has registered for `chain`. The chain that the
    /// client spoke for before loses its client; the client that spoke for `chain`
    /// before is displaced.
    pub open spec fn registered(self, client: Seq<char>, chain: u64) -> CoordinatorStateView {
        let freed = if self.client_to_chain.contains_key(client) {
            self.chain_to_client.remove(self.client_to_chain[client])
        } else {
            self.chain_to_client
        };
        CoordinatorStateView {
            chain_to_client: freed.insert(chain, client),
            client_to_chain: self.client_to_chain.insert(client, chain),
            ..self
        }
    }

    /// The state after an instance with the given identifier was started.
    pub open spec fn started(
        self,
        instance_id: Seq<u8>,
        chains: Seq<ChainId>,
        received_at: nat,
        start_time: nat,
    ) -> CoordinatorStateView {
        CoordinatorStateView {
            active_xts: self.active_xts.insert(
                hex_lower(instance_id),
                ActiveXtView { received_at, chains, votes: Map::empty(), instance_id, start_time },
            ),
            next_sequence_num: (self.next_sequence_num + 1) as u64,
            ..self
        }
    }

    /// Whether a vote of `chain` on `xt` counts: the transaction is undecided, and
    /// the chain takes part in it and has not voted yet.
    pub open spec fn vote_counts(self, xt: Seq<char>, chain: u64) -> bool {
        &&& self.active_xts.contains_key(xt)
        &&& self.active_xts[xt].chains.contains(ChainId(chain))
        &&& !self.active_xts[xt].votes.contains_key(chain)
    }

    /// The outcome that a vote brings about: a no decides at once, a yes decides
    /// where it is the last.
    pub open spec fn vote_decides(self, xt: Seq<char>, chain: u64, vote: bool) -> Option<bool> {
        if !self.vote_counts(xt, chain) {
            None
        } else if !vote {
            Some(false)
        } else {
            self.active_xts[xt].with_vote(chain, vote).decision()
        }
    }

    /// The state after `chain` has voted on `xt`.
    pub open spec fn voted(self, xt: Seq<char>, chain: u64, vote: bool) -> CoordinatorStateView {
        if !self.vote_counts(xt, chain) {
            self
        } else {
            match self.vote_decides(xt, chain, vote) {
                None => CoordinatorStateView {
                    active_xts: self.active_xts.insert(
                        xt,
                        self.active_xts[xt].with_vote(chain, vote),
                    ),
                    ..self
                },
                Some(decision) => CoordinatorStateView {
                    active_xts: self.active_xts.remove(xt),
                    committed_xts: if decision {
                        (self.committed_xts + 1) as u64
                    } else {
                        self.committed_xts
                    },
                    pending_confirmations: self.pending_confirmations.insert(
                        xt,
                        self.active_xts[xt].awaiting_inclusion(),
                    ),
                    ..self
                },
            }
        }
    }

    /// Whether a confirmation of `xt` by `chain` counts: inclusion is awaited, and
    /// the chain takes part and has not confirmed yet.
    pub open spec fn confirmation_counts(self, xt: Seq<char>, chain: u64) -> bool {
        &&& self.pending_confirmations.contains_key(xt)
        &&& self.pending_confirmations[xt].chains.contains(ChainId(chain))
        &&& !self.pending_confirmations[xt].confirmed.contains(chain)
    }

    /// Whether a confirmation of `xt` by `chain` is the last one missing.
    pub open spec fn confirmation_completes(self, xt: Seq<char>, chain: u64) -> bool {
        let pc = self.pending_confirmations[xt];
        self.confirmation_counts(xt, chain) && pc.confirmed.insert(chain).len() == pc.chains.len()
    }

    /// The state after `chain` has confirmed `xt`.
    pub open spec fn confirmed(self, xt: Seq<char>, chain: u64) -> CoordinatorStateView {
        let pc = self.pending_confirmations[xt];
        if !self.confirmation_counts(xt, chain) {
            self
        } else if self.confirmation_completes(xt, chain) {
            CoordinatorStateView {
                pending_confirmations: self.pending_confirmations.remove(xt),
                ..self
            }
        } else {
            CoordinatorStateView {
                pending_confirmations: self.pending_confirmations.insert(
                    xt,
                    PendingConfirmationView { confirmed: pc.confirmed.insert(chain), ..pc },
                ),
                ..self
            }
        }
    }

    /// Whether `xt` has been undecided for `timeout` or longer.
    pub open spec fn timed_out(self, xt: Seq<char>, now: nat, timeout: nat) -> bool {
        self.active_xts.contains_key(xt) && self.active_xts[xt].expired(now, timeout)
    }

    /// The state without the transactions that have timed out.
    pub open spec fn reaped(self, now: nat, timeout: nat) -> CoordinatorStateView {
        CoordinatorStateView {
            active_xts: Map::new(
                |xt: Seq<char>|
                    self.active_xts.contains_key(xt) && !self.timed_out(xt, now, timeout),
                |xt: Seq<char>| self.active_xts[xt],
            ),
            ..self
        }
    }

    /// `list` announces an abort for each transaction that has timed out.
    pub open spec fn announces_timeouts(
        self,
        list: Seq<(Seq<char>, MessageView)>,
        now: nat,
        timeout: nat,
    ) -> bool {
        &&& forall|i: int, j: int|
            0 <= i < j < list.len() ==> (#[trigger] list[i]).0 != (#[trigger] list[j]).0
        &&& forall|i: int|
            0 <= i < list.len() ==> {
                &&& self.timed_out((#[trigger] list[i]).0, now, timeout)
                &&& list[i].1 == decided_message(self.active_xts[list[i].0].instance_id, false)
            }
        &&& forall|xt: Seq<char>| #[trigger]
            self.timed_out(xt, now, timeout) ==> exists|i: int|
                0 <= i < list.len() && (#[trigger] list[i]).0 == xt
    }

    /// Whether the collection of proofs has lasted for `window` or longer.
    pub open spec fn collection_expired(self, now: nat, window: nat) -> bool {
        match self.proof_collection_started {
            Some(started) => elapsed(started, now) >= window,
            None => false,
        }
    }

    /// The state after the collected proofs were dropped, and with them the
    /// transactions that belong to no submitted superblock.
    pub open spec fn collection_dropped(self) -> CoordinatorStateView {
        CoordinatorStateView {
            pending_proofs: Map::empty(),
            committed_xts: 0,
            proof_collection_started: None,
            ..self
        }
    }

    /// The state after a return to the newest settled superblock.
    pub open spec fn rolled_back(self) -> CoordinatorStateView {
        CoordinatorStateView {
            next_superblock_number: (self.last_finalized_superblock_number + 1) as u64,
            ..self
        }
    }

    /// The state after a new period has begun.
    pub open spec fn next_period(self) -> CoordinatorStateView {
        CoordinatorStateView {
            current_period_id: (self.current_period_id + 1) as u64,
            next_sequence_num: 1,
            current_period_finalized_xts: 0,
            ..self
        }
    }

    /// The proofs once `chain` has handed in `p`.
    pub open spec fn proofs_with(self, chain: u64, p: ChainProofView) -> Map<u64, ChainProofView> {
        self.pending_proofs.insert(chain, p)
    }

    /// Whether the proof `p` of `chain` completes the set: there are registered
    /// chains, and each of them then has a proof.
    pub open spec fn proof_completes(self, chain: u64, p: ChainProofView) -> bool {
        &&& self.chain_to_client.len() > 0
        &&& forall|c: u64| #[trigger]
            self.chain_to_client.contains_key(c) ==> self.proofs_with(chain, p).contains_key(c)
    }

    /// The state after `chain` has handed in `p`.
    pub open spec fn proved(self, chain: u64, p: ChainProofView, now: nat) -> CoordinatorStateView {
        if self.proof_completes(chain, p) {
            CoordinatorStateView {
                pending_proofs: Map::empty(),
                proof_collection_started: None,
                ..self
            }
        } else {
            CoordinatorStateView {
                pending_proofs: self.proofs_with(chain, p),
                proof_collection_started: match self.proof_collection_started {
                    Some(started) => Some(started),
                    None => Some(now),
                },
                ..self
            }
        }
    }

    /// The state after the superblock to submit next was handed to the settlement
    /// layer, and with it every transaction committed so far.
    pub open spec fn handed_over(self) -> CoordinatorStateView {
        CoordinatorStateView {
            committed_xts: 0,
            submitted_xts: (self.submitted_xts + self.committed_xts) as u64,
            ..self
        }
    }

    /// The state after superblock `sb` was settled. Where it is the one that was
    /// submitted, or a later one, the submitted transactions are final.
    pub open spec fn settled(self, sb: u64) -> CoordinatorStateView {
        let confirmed = if sb >= self.next_superblock_number {
            self.submitted_xts
        } else {
            0
        };
        CoordinatorStateView {
            last_finalized_superblock_number: sb,
            next_superblock_number: (sb + 1) as u64,
            submitted_xts: (self.submitted_xts - confirmed) as u64,
            current_period_finalized_xts: (self.current_period_finalized_xts + confirmed) as u64,
            ..self
        }
    }

    /// The state after the submission of superblock `sb` has failed. Where it has not
    /// been settled since, its transactions await the next submission.
    pub open spec fn submission_failed(self, sb: u64) -> CoordinatorStateView {
        if sb >= self.next_superblock_number {
            CoordinatorStateView {
                committed_xts: (self.committed_xts + self.submitted_xts) as u64,
                submitted_xts: 0,
                ..self
            }
        } else {
            self
        }
    }

    /// How many committed transactions the three counts hold together.
    pub open spec fn counted(self) -> int {
        self.committed_xts + self.submitted_xts + self.current_period_finalized_xts
    }

    /// The state after the settlement layer reported `sb` with hash `hash` as the
    /// newest superblock at start-up.
    pub open spec fn initialized(self, sb: u64, hash: Seq<u8>) -> CoordinatorStateView {
        CoordinatorStateView { last_finalized_superblock_hash: hash, ..self.settled(sb) }
    }
}

/// Whether an undecided transaction is in order under `xt`: it spans at least two
/// distinct chains, only participants have voted, all of them yes, and a vote is
/// still missing.
pub open spec fn active_in_order(xt: Seq<char>, a: ActiveXtView) -> bool {
    &&& xt == hex_lower(a.instance_id)
    &&& a.chains.len() >= 2
    &&& a.chains.no_duplicates()
    &&& a.votes.dom().finite()
    &&& a.votes.len() < a.chains.len()
    &&& all_yes(a.votes)
    &&& forall|c: u64| #[trigger] a.votes.contains_key(c) ==> a.chains.contains(ChainId(c))
}

/// Whether a decided transaction is in order under `xt`: it spans at least two
/// distinct chains, only participants have confirmed, and a confirmation is still
/// missing.
pub open spec fn confirmation_in_order(xt: Seq<char>, p: PendingConfirmationView) -> bool {
    &&& xt == hex_lower(p.instance_id)
    &&& p.chains.len() >= 2
    &&& p.chains.no_duplicates()
    &&& p.confirmed.finite()
    &&& p.confirmed.len() < p.chains.len()
    &&& forall|c: u64| #[trigger] p.confirmed.contains(c) ==> p.chains.contains(ChainId(c))
}

impl CoordinatorStateView {
    /// The client of each registered chain is registered for that very chain.
    pub open spec fn registry_agrees(self) -> bool {
        &&& self.chain_to_client.dom().finite()
        &&& forall|c: u64| #[trigger]
            self.chain_to_client.contains_key(c) ==> {
                &&& self.client_to_chain.contains_key(self.chain_to_client[c])
                &&& self.client_to_chain[self.chain_to_client[c]] == c
            }
    }

    /// Every undecided transaction is in order, and there are not too many.
    pub open spec fn active_agree(self) -> bool {
        &&& self.active_xts.dom().finite()
        &&& self.active_xts.len() <= MAX_ACTIVE_XTS
        &&& forall|xt: Seq<char>| #[trigger]
            self.active_xts.contains_key(xt) ==> active_in_order(xt, self.active_xts[xt])
    }

    /// Every decided transaction is in order.
    pub open spec fn confirmations_agree(self) -> bool {
        forall|xt: Seq<char>| #[trigger]
            self.pending_confirmations.contains_key(xt) ==> confirmation_in_order(
                xt,
                self.pending_confirmations[xt],
            )
    }

    /// The collection is timed exactly while there are proofs.
    pub open spec fn collection_agrees(self) -> bool {
        &&& self.pending_proofs.dom().finite()
        &&& self.proof_collection_started is Some <==> self.pending_proofs.len() > 0
    }

    /// No count of transactions overflows, whichever way they move on.
    pub open spec fn counts_fit(self) -> bool {
        self.counted() <= u64::MAX
    }

    /// The superblock to submit next follows the newest settled one.
    pub open spec fn numbering_agrees(self) -> bool {
        self.next_superblock_number == self.last_finalized_superblock_number + 1
    }

    /// What holds of a coordinator's state whatever superblock is to be submitted next.
    pub open spec fn tables_agree(self) -> bool {
        &&& self.registry_agrees()
        &&& self.active_agree()
        &&& self.confirmations_agree()
        &&& self.collection_agrees()
        &&& self.counts_fit()
    }

    /// What holds of a coordinator's state at any time.
    pub open spec fn valid(self) -> bool {
        &&& self.tables_agree()
        &&& self.numbering_agrees()
    }
}

/// The proofs themselves, by chain.
pub open spec fn proof_data(proofs: Map<u64, ChainProofView>) -> Map<u64, ProofDataView> {
    proofs.map_values(|p: ChainProofView| p.data)
}

} // verus!
