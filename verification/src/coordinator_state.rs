//! The coordinator's state: who is registered, which transactions are undecided or
//! await inclusion, and how far settlement has come.

use std::collections::{HashMap, HashSet};

use vstd::hash_map::StringHashMap;
use vstd::prelude::*;
use vstd::slice::slice_to_vec;

#[allow(unused_imports)]
use crate::coordinator_laws::{
    confirming_keeps_valid, initial_is_valid, progress_keeps_valid, proving_keeps_valid,
    reaping_keeps_valid, registering_keeps_valid, rolling_back_restores_numbering,
    starting_keeps_valid, voting_keeps_valid,
};
#[allow(unused_imports)]
use crate::coordinator_model::{
    active_in_order, all_yes, decided_message, proof_data, ActiveXtView, ChainProofView, CoordinatorStateView,
    PendingConfirmationView, MAX_ACTIVE_XTS,
};
use crate::mailbox::ProofData;
#[allow(unused_imports)]
use crate::mailbox::{proof_views, ProofDataView};
#[allow(unused_imports)]
use crate::messages::{from_publisher, DecidedView, MessageView, PayloadView};
use crate::messages::{Decided, Message, Payload};
use crate::table::IdTable;
#[allow(unused_imports)]
use crate::time::elapsed;
use crate::time::{Duration, Instant};
#[allow(unused_imports)]
use crate::text::hex_lower;
use crate::types::{contains_chain, ChainId, InstanceId, PeriodId, SequenceNumber, SuperblockNumber};

verus! {

broadcast use vstd::std_specs::hash::group_hash_axioms;

/// An undecided cross-chain transaction.
#[derive(Debug)]
pub struct ActiveXt {
    received_at: Instant,
    chains: Vec<ChainId>,
    votes: HashMap<u64, bool>,
    instance_id_bytes: Vec<u8>,
    start_time: Instant,
}

impl View for ActiveXt {
    type V = ActiveXtView;

    closed spec fn view(&self) -> ActiveXtView {
        ActiveXtView {
            received_at: self.received_at@,
            chains: self.chains@,
            votes: self.votes@,
            instance_id: self.instance_id_bytes@,
            start_time: self.start_time@,
        }
    }
}

impl ActiveXt {
    /// The outcome, once there are as many votes as participants.
    fn decision(&self) -> (r: Option<bool>)
        ensures
            r == self@.decision(),
    {
        if self.votes.len() < self.chains.len() {
            return None;
        }
        let mut unanimous = true;
        let ghost pairs = vstd::std_specs::iter::IteratorSpec::remaining(
            &vstd::std_specs::hash::spec_hash_map_iter(&self.votes),
        );
        for (_c, v) in it: self.votes.iter()
            invariant
                it.seq() == pairs,
                unanimous <==> forall|i: int| 0 <= i < it.index() ==> *(#[trigger] pairs[i]).1,
        {
            unanimous = unanimous && *v;
        }
        proof {
            if unanimous {
                assert forall|c: u64| #[trigger] self.votes@.contains_key(c) implies self.votes@[c] by {
                    assert(pairs.contains((&c, &self.votes@[c])));
                }
            } else {
                let i = choose|i: int| 0 <= i < pairs.len() && !*(#[trigger] pairs[i]).1;
                assert(self.votes@.contains_key(*pairs[i].0));
            }
        }
        Some(unanimous)
    }
}

/// A decided cross-chain transaction that chains have yet to include in a block.
#[derive(Debug)]
pub struct PendingConfirmation {
    received_at: Instant,
    chains: Vec<ChainId>,
    confirmed_chains: HashSet<u64>,
    instance_id_bytes: Vec<u8>,
}

impl View for PendingConfirmation {
    type V = PendingConfirmationView;

    closed spec fn view(&self) -> PendingConfirmationView {
        PendingConfirmationView {
            received_at: self.received_at@,
            chains: self.chains@,
            confirmed: self.confirmed_chains@,
            instance_id: self.instance_id_bytes@,
        }
    }
}

/// A chain's newest proof.
#[derive(Debug)]
struct ChainProof {
    superblock_number: u64,
    data: ProofData,
}

impl View for ChainProof {
    type V = ChainProofView;

    closed spec fn view(&self) -> ChainProofView {
        ChainProofView { superblock_number: self.superblock_number, data: self.data@ }
    }
}

/// The undecided transactions in `m`.
pub closed spec fn active_views(m: Map<Seq<char>, ActiveXt>) -> Map<Seq<char>, ActiveXtView> {
    m.map_values(|x: ActiveXt| x@)
}

/// The decided transactions in `m`.
pub closed spec fn confirmation_views(m: Map<Seq<char>, PendingConfirmation>) -> Map<
    Seq<char>,
    PendingConfirmationView,
> {
    m.map_values(|x: PendingConfirmation| x@)
}

/// The proofs in `m`.
spec fn chain_proof_views(m: Map<u64, ChainProof>) -> Map<u64, ChainProofView> {
    m.map_values(|p: ChainProof| p@)
}

/// The clients in `m`.
spec fn client_views(m: Map<u64, String>) -> Map<u64, Seq<char>> {
    m.map_values(|c: String| c@)
}

/// What the announcements in `list` say, by transaction.
pub open spec fn announcement_views(list: Seq<(String, Message)>) -> Seq<(Seq<char>, MessageView)> {
    list.map_values(|a: (String, Message)| (a.0@, a.1@))
}

/// The coordinator's state.
pub struct CoordinatorState {
    chain_to_client: HashMap<u64, String>,
    client_to_chain: StringHashMap<u64>,
    active_xts: IdTable<ActiveXt>,
    current_period_id: PeriodId,
    next_sequence_num: SequenceNumber,
    next_superblock_number: SuperblockNumber,
    last_finalized_superblock_number: u64,
    last_finalized_superblock_hash: Vec<u8>,
    committed_xts: u64,
    submitted_xts: u64,
    current_period_finalized_xts: u64,
    pending_proofs: HashMap<u64, ChainProof>,
    proof_collection_started: Option<Instant>,
    pending_confirmations: IdTable<PendingConfirmation>,
}

impl View for CoordinatorState {
    type V = CoordinatorStateView;

    closed spec fn view(&self) -> CoordinatorStateView {
        CoordinatorStateView {
            chain_to_client: client_views(self.chain_to_client@),
            client_to_chain: self.client_to_chain@,
            active_xts: active_views(self.active_xts@),
            current_period_id: self.current_period_id.0,
            next_sequence_num: self.next_sequence_num.0,
            next_superblock_number: self.next_superblock_number.0,
            last_finalized_superblock_number: self.last_finalized_superblock_number,
            last_finalized_superblock_hash: self.last_finalized_superblock_hash@,
            committed_xts: self.committed_xts,
            submitted_xts: self.submitted_xts,
            current_period_finalized_xts: self.current_period_finalized_xts,
            pending_proofs: chain_proof_views(self.pending_proofs@),
            proof_collection_started: match self.proof_collection_started {
                Some(t) => Some(t@),
                None => None,
            },
            pending_confirmations: confirmation_views(self.pending_confirmations@),
        }
    }
}

impl CoordinatorState {
    /// No table holds two entries under one identifier.
    pub closed spec fn tables_wf(&self) -> bool {
        &&& self.active_xts.wf()
        &&& self.pending_confirmations.wf()
    }

    /// The tables are in order and what they hold is valid.
    pub open spec fn wf(&self) -> bool {
        &&& self.tables_wf()
        &&& self@.valid()
    }

    /// A well-formed state holds what is valid.
    pub broadcast proof fn wf_is_valid(&self)
        ensures
            #[trigger] self.wf() ==> self@.valid(),
    {
    }

    /// The state at start-up.
    pub fn new() -> (s: CoordinatorState)
        ensures
            s.wf(),
            s@ == CoordinatorStateView::initial(),
    {
        let s = CoordinatorState {
            chain_to_client: HashMap::new(),
            client_to_chain: StringHashMap::new(),
            active_xts: IdTable::new(),
            current_period_id: PeriodId(0),
            next_sequence_num: SequenceNumber(1),
            next_superblock_number: SuperblockNumber(1),
            last_finalized_superblock_number: 0,
            last_finalized_superblock_hash: Vec::new(),
            committed_xts: 0,
            submitted_xts: 0,
            current_period_finalized_xts: 0,
            pending_proofs: HashMap::new(),
            proof_collection_started: None,
            pending_confirmations: IdTable::new(),
        };
        assert(s@ =~= CoordinatorStateView::initial());
        proof {
            initial_is_valid();
        }
        s
    }

    /// Records that the client `client_id` speaks for `chain_id`.
    pub fn register_chain(&mut self, client_id: &str, chain_id: ChainId)
        requires
            old(self).wf(),
        ensures
            final(self).wf(),
            final(self)@ == old(self)@.registered(client_id@, chain_id.0),
    {
        match self.client_to_chain.get(client_id) {
            Some(old_chain) => {
                self.chain_to_client.remove(old_chain);
            },
            None => {},
        }
        self.chain_to_client.insert(chain_id.0, client_id.to_string());
        self.client_to_chain.insert(client_id.to_string(), chain_id.0);
        assert(self@ =~= old(self)@.registered(client_id@, chain_id.0));
        proof {
            registering_keeps_valid(old(self)@, client_id@, chain_id.0);
        }
    }

    /// The outcome of the transaction `xt_id`, once every participant has voted. A
    /// transaction with all its votes is still in the state here: it leaves once its
    /// outcome is known.
    pub fn check_decision(&self, xt_id: &str) -> (r: Option<bool>)
        requires
            self.tables_wf(),
        ensures
            r == (if self@.active_xts.contains_key(xt_id@) {
                self@.active_xts[xt_id@].decision()
            } else {
                None
            }),
    {
        match self.active_xts.get(xt_id) {
            Some(xt) => xt.decision(),
            None => None,
        }
    }

    /// Whether the vote of `chain_id` would commit the transaction `xt_id`.
    pub fn vote_commits(&self, xt_id: &str, chain_id: ChainId, vote: bool) -> (r: bool)
        requires
            self.wf(),
        ensures
            r == (self@.vote_decides(xt_id@, chain_id.0, vote) == Some(true)),
    {
        match self.active_xts.get(xt_id) {
            Some(xt) => {
                proof {
                    assert(self@.active_xts.contains_key(xt_id@));
                    assert(active_in_order(xt_id@, xt@));
                    let next = xt@.with_vote(chain_id.0, vote);
                    if self@.vote_counts(xt_id@, chain_id.0) {
                        assert(next.votes.dom() =~= xt@.votes.dom().insert(chain_id.0));
                        assert(vote ==> all_yes(next.votes));
                    }
                }
                vote && contains_chain(&xt.chains, chain_id) && !xt.votes.contains_key(&chain_id.0)
                    && xt.votes.len() >= xt.chains.len() - 1
            },
            None => false,
        }
    }

    /// Records the vote of `chain_id` on the transaction `xt_id`. Where the vote
    /// brings about an outcome, gives that outcome, how long the transaction was
    /// undecided, and the announcement, which carries `instance_id_bytes`.
    pub fn record_vote(
        &mut self,
        xt_id: &str,
        instance_id_bytes: &[u8],
        chain_id: ChainId,
        vote: bool,
        now: Instant,
    ) -> (r: Option<(bool, Duration, Message)>)
        requires
            old(self).wf(),
            old(self)@.vote_decides(xt_id@, chain_id.0, vote) == Some(true) ==> old(self)@.counted()
                < u64::MAX,
        ensures
            final(self).wf(),
            final(self)@ == old(self)@.voted(xt_id@, chain_id.0, vote),
            match old(self)@.vote_decides(xt_id@, chain_id.0, vote) {
                Some(decision) => {
                    &&& r matches Some((d, latency, message))
                    &&& d == decision
                    &&& latency@ == elapsed(old(self)@.active_xts[xt_id@].start_time, now@)
                    &&& message@ == decided_message(instance_id_bytes@, decision)
                },
                None => r is None,
            },
    {
        match self.active_xts.get(xt_id) {
            Some(xt) => {
                if !contains_chain(&xt.chains, chain_id) {
                    return None;
                }
                if xt.votes.contains_key(&chain_id.0) {
                    return None;
                }
            },
            None => {
                return None;
            },
        }
        assert(old(self)@.vote_counts(xt_id@, chain_id.0));
        proof {
            voting_keeps_valid(old(self)@, xt_id@, chain_id.0, vote);
        }
        match self.active_xts.remove(xt_id) {
            Some(taken) => {
                let mut xt = taken;
                xt.votes.insert(chain_id.0, vote);
                assert(xt@ =~= old(self)@.active_xts[xt_id@].with_vote(chain_id.0, vote));
                self.active_xts.insert(xt_id.to_string(), xt);
            },
            None => {
                return None;
            },
        }
        let decision = if !vote {
            Some(false)
        } else {
            self.check_decision(xt_id)
        };
        match decision {
            None => {
                assert(self@ =~= old(self)@.voted(xt_id@, chain_id.0, vote));
                None
            },
            Some(decided) => match self.active_xts.remove(xt_id) {
                Some(xt) => {
                    if decided {
                        self.committed_xts = self.committed_xts + 1;
                    }
                    let latency = now.duration_since(&xt.start_time);
                    let pc = PendingConfirmation {
                        received_at: xt.received_at,
                        chains: xt.chains,
                        confirmed_chains: HashSet::new(),
                        instance_id_bytes: xt.instance_id_bytes,
                    };
                    assert(pc@ =~= old(self)@.active_xts[xt_id@].awaiting_inclusion());
                    self.pending_confirmations.insert(xt_id.to_string(), pc);
                    assert(self@ =~= old(self)@.voted(xt_id@, chain_id.0, vote));
                    let message = Message::from_publisher(
                        Payload::Decided(
                            Decided {
                                instance_id: slice_to_vec(instance_id_bytes),
                                decision: decided,
                            },
                        ),
                    );
                    Some((decided, latency, message))
                },
                None => None,
            },
        }
    }

    /// Adds an undecided transaction for the instance `instance_id` and moves on to
    /// the next sequence number. Gives the transaction's identifier.
    pub fn activate(
        &mut self,
        instance_id: &InstanceId,
        chains: Vec<ChainId>,
        received_at: Instant,
        now: Instant,
    ) -> (xt_id: String)
        requires
            old(self).wf(),
            old(self)@.active_xts.len() < MAX_ACTIVE_XTS,
            old(self)@.next_sequence_num < u64::MAX,
            chains@.len() >= 2,
            chains@.no_duplicates(),
        ensures
            final(self).wf(),
            xt_id@ == hex_lower(instance_id.0@),
            final(self)@ == old(self)@.started(instance_id.0@, chains@, received_at@, now@),
    {
        proof {
            starting_keeps_valid(old(self)@, instance_id.0@, chains@, received_at@, now@);
        }
        let xt_id = instance_id.to_string();
        self.next_sequence_num = SequenceNumber(self.next_sequence_num.0 + 1);
        let xt = ActiveXt {
            received_at,
            chains,
            votes: HashMap::new(),
            instance_id_bytes: slice_to_vec(instance_id.as_bytes()),
            start_time: now,
        };
        self.active_xts.insert(instance_id.to_string(), xt);
        assert(self@ =~= old(self)@.started(instance_id.0@, chains@, received_at@, now@));
        xt_id
    }

    /// Records that `chain_id` has included the transaction `xt_id` in a block.
    /// Where it is the last participant to do so, gives how long that took since
    /// the request came in.
    pub fn handle_confirmed(&mut self, xt_id: &str, chain_id: ChainId, now: Instant) -> (r: Option<
        Duration,
    >)
        requires
            old(self).wf(),
        ensures
            final(self).wf(),
            final(self)@ == old(self)@.confirmed(xt_id@, chain_id.0),
            if old(self)@.confirmation_completes(xt_id@, chain_id.0) {
                &&& r matches Some(latency)
                &&& latency@ == elapsed(old(self)@.pending_confirmations[xt_id@].received_at, now@)
            } else {
                r is None
            },
    {
        match self.pending_confirmations.get(xt_id) {
            Some(pc) => {
                if !contains_chain(&pc.chains, chain_id) {
                    return None;
                }
                if pc.confirmed_chains.contains(&chain_id.0) {
                    return None;
                }
            },
            None => {
                return None;
            },
        }
        assert(old(self)@.confirmation_counts(xt_id@, chain_id.0));
        proof {
            confirming_keeps_valid(old(self)@, xt_id@, chain_id.0);
        }
        match self.pending_confirmations.remove(xt_id) {
            Some(taken) => {
                let mut pc = taken;
                pc.confirmed_chains.insert(chain_id.0);
                if pc.confirmed_chains.len() == pc.chains.len() {
                    assert(self@ =~= old(self)@.confirmed(xt_id@, chain_id.0));
                    Some(now.duration_since(&pc.received_at))
                } else {
                    self.pending_confirmations.insert(xt_id.to_string(), pc);
                    assert(self@ =~= old(self)@.confirmed(xt_id@, chain_id.0));
                    None
                }
            },
            None => None,
        }
    }

    /// Takes away the transactions that have been undecided for `timeout` or longer
    /// and gives, with each one's identifier, the announcement that it is aborted.
    pub fn reap_timed_out(&mut self, timeout: Duration, now: Instant) -> (r: Vec<(String, Message)>)
        requires
            old(self).wf(),
        ensures
            final(self).wf(),
            final(self)@ == old(self)@.reaped(now@, timeout@),
            old(self)@.announces_timeouts(announcement_views(r@), now@, timeout@),
    {
        proof {
            reaping_keeps_valid(old(self)@, now@, timeout@);
        }
        let ghost before = self@;
        let mut results: Vec<(String, Message)> = Vec::new();
        let mut i: usize = 0;
        while i < self.active_xts.len()
            invariant
                before == old(self)@,
                self.active_xts.wf(),
                self.pending_confirmations.wf(),
                self@ == (CoordinatorStateView { active_xts: self@.active_xts, ..before }),
                i <= self.active_xts.spec_rows().len(),
                forall|j: int|
                    0 <= j < i ==> !(#[trigger] self.active_xts.spec_rows()[j]).1@.expired(
                        now@,
                        timeout@,
                    ),
                forall|xt: Seq<char>| #[trigger]
                    self@.active_xts.contains_key(xt) ==> before.active_xts.contains_key(xt)
                        && self@.active_xts[xt] == before.active_xts[xt],
                forall|xt: Seq<char>| #[trigger]
                    before.active_xts.contains_key(xt) ==> self@.active_xts.contains_key(xt)
                        || exists|j: int| 0 <= j < results.len() && (#[trigger] results@[j]).0@ == xt,
                forall|j: int|
                    0 <= j < results.len() ==> {
                        &&& before.timed_out((#[trigger] results@[j]).0@, now@, timeout@)
                        &&& results@[j].1@ == decided_message(
                            before.active_xts[results@[j].0@].instance_id,
                            false,
                        )
                        &&& !self@.active_xts.contains_key(results@[j].0@)
                    },
                forall|j: int, k: int|
                    0 <= j < k < results.len() ==> (#[trigger] results@[j]).0@ != (
                    #[trigger] results@[k]).0@,
            decreases self.active_xts.spec_rows().len() - i,
        {
            let start_time = self.active_xts.value_at(i).start_time;
            if now.duration_since(&start_time).at_least(&timeout) {
                let ghost earlier = *self;
                let ghost sent = results@;
                let (xt_id, xt) = self.active_xts.remove_at(i);
                let ghost id = xt_id@;
                assert(self@.active_xts =~= earlier@.active_xts.remove(id));
                assert(earlier@.active_xts.contains_key(id) && earlier@.active_xts[id] == xt@);
                let message = Message::from_publisher(
                    Payload::Decided(
                        Decided { instance_id: xt.instance_id_bytes, decision: false },
                    ),
                );
                results.push((xt_id, message));
                proof {
                    assert(results@[sent.len() as int].0@ == id);
                    assert forall|k: Seq<char>| #[trigger]
                        before.active_xts.contains_key(k) implies self@.active_xts.contains_key(k)
                        || exists|j: int| 0 <= j < results.len() && (#[trigger] results@[j]).0@ == k by {
                        if k != id && !earlier@.active_xts.contains_key(k) {
                            let j = choose|j: int| 0 <= j < sent.len() && (#[trigger] sent[j]).0@ == k;
                            assert(results@[j] == sent[j]);
                        }
                    }
                    assert forall|j: int|
                        0 <= j < i implies !(#[trigger] self.active_xts.spec_rows()[j]).1@.expired(
                        now@,
                        timeout@,
                    ) by {
                        assert(self.active_xts.spec_rows()[j] == earlier.active_xts.spec_rows()[j]);
                    }
                }
            } else {
                i = i + 1;
            }
        }
        proof {
            assert(self@.active_xts =~= before.reaped(now@, timeout@).active_xts) by {
                assert forall|xt: Seq<char>|
                    self@.active_xts.contains_key(xt) <==> before.reaped(
                        now@,
                        timeout@,
                    ).active_xts.contains_key(xt) by {
                    if self@.active_xts.contains_key(xt) {
                        let j = self.active_xts.entry_has_row(xt);
                        assert(!self.active_xts.spec_rows()[j].1@.expired(now@, timeout@));
                    }
                }
            }
            let list = announcement_views(results@);
            assert forall|xt: Seq<char>| #[trigger]
                before.timed_out(xt, now@, timeout@) implies exists|j: int|
                0 <= j < list.len() && (#[trigger] list[j]).0 == xt by {
                assert(before.active_xts.contains_key(xt));
                assert(!before.reaped(now@, timeout@).active_xts.contains_key(xt));
                let j = choose|j: int| 0 <= j < results.len() && (#[trigger] results@[j]).0@ == xt;
                assert(list[j].0 == xt);
            }
        }
        results
    }

    /// Drops the collected proofs where their collection has lasted for
    /// `proof_window` or longer. Gives whether it has.
    pub fn reap_expired_proofs(&mut self, proof_window: Duration, now: Instant) -> (expired: bool)
        requires
            old(self).wf(),
        ensures
            final(self).wf(),
            expired == old(self)@.collection_expired(now@, proof_window@),
            final(self)@ == (if expired {
                old(self)@.collection_dropped()
            } else {
                old(self)@
            }),
    {
        match self.proof_collection_started {
            Some(started) => {
                if now.duration_since(&started).at_least(&proof_window) {
                    proof {
                        progress_keeps_valid(old(self)@, 0, Seq::empty());
                    }
                    self.pending_proofs = HashMap::new();
                    self.committed_xts = 0;
                    self.proof_collection_started = None;
                    assert(self@ =~= old(self)@.collection_dropped());
                    return true;
                }
            },
            None => {},
        }
        false
    }

    /// The current period.
    pub fn current_period_id(&self) -> (p: PeriodId)
        ensures
            p.0 == self@.current_period_id,
    {
        self.current_period_id
    }

    /// The sequence number of the next instance.
    pub fn next_sequence_num(&self) -> (n: SequenceNumber)
        ensures
            n.0 == self@.next_sequence_num,
    {
        self.next_sequence_num
    }

    /// The superblock to submit next.
    pub fn next_superblock_number(&self) -> (n: SuperblockNumber)
        ensures
            n.0 == self@.next_superblock_number,
    {
        self.next_superblock_number
    }

    /// The newest settled superblock.
    pub fn last_finalized_superblock_number(&self) -> (n: u64)
        ensures
            n == self@.last_finalized_superblock_number,
    {
        self.last_finalized_superblock_number
    }

    /// The hash of the newest settled superblock, as read at start-up.
    pub fn last_finalized_superblock_hash(&self) -> (hash: &[u8])
        ensures
            hash@ == self@.last_finalized_superblock_hash,
    {
        self.last_finalized_superblock_hash.as_slice()
    }

    /// How many transactions the settlement layer has confirmed in the current
    /// period.
    pub fn current_period_finalized_xts(&self) -> (n: u64)
        ensures
            n == self@.current_period_finalized_xts,
    {
        self.current_period_finalized_xts
    }

    /// Whether one more committed transaction can be counted.
    pub fn can_count_commit(&self) -> (r: bool)
        requires
            self.wf(),
        ensures
            r == (self@.counted() < u64::MAX),
    {
        self.committed_xts + self.submitted_xts + self.current_period_finalized_xts < u64::MAX
    }

    /// How many transactions are undecided.
    pub fn active_count(&self) -> (n: usize)
        requires
            self.wf(),
        ensures
            n == self@.active_xts.len(),
    {
        assert(self@.active_xts.dom() =~= self.active_xts@.dom());
        self.active_xts.len()
    }

    /// How many chains are registered.
    pub fn registered_count(&self) -> (n: usize)
        requires
            self.wf(),
        ensures
            n == self@.chain_to_client.len(),
    {
        assert(self@.chain_to_client.dom() =~= self.chain_to_client@.dom());
        self.chain_to_client.len()
    }

    /// How many chains have handed in a proof.
    pub fn proof_count(&self) -> (n: usize)
        ensures
            n == self@.pending_proofs.len(),
    {
        assert(self@.pending_proofs.dom() =~= self.pending_proofs@.dom());
        self.pending_proofs.len()
    }

    /// Whether some client speaks for `chain_id`.
    pub fn is_chain_registered(&self, chain_id: ChainId) -> (r: bool)
        requires
            self.wf(),
        ensures
            r == self@.chain_to_client.contains_key(chain_id.0),
    {
        self.chain_to_client.contains_key(&chain_id.0)
    }

    /// The client that speaks for `chain_id`.
    pub fn client_for_chain(&self, chain_id: ChainId) -> (r: Option<String>)
        requires
            self.wf(),
        ensures
            match r {
                Some(client) => self@.chain_to_client.contains_key(chain_id.0) && client@
                    == self@.chain_to_client[chain_id.0],
                None => !self@.chain_to_client.contains_key(chain_id.0),
            },
    {
        match self.chain_to_client.get(&chain_id.0) {
            Some(client) => Some(client.as_str().to_string()),
            None => None,
        }
    }

    /// The chain that `client_id` has registered for.
    pub fn chain_for_client(&self, client_id: &str) -> (r: Option<ChainId>)
        requires
            self.wf(),
        ensures
            r == (if self@.client_to_chain.contains_key(client_id@) {
                Some(ChainId(self@.client_to_chain[client_id@]))
            } else {
                None
            }),
    {
        match self.client_to_chain.get(client_id) {
            Some(chain) => Some(ChainId(*chain)),
            None => None,
        }
    }

    /// Begins a new period.
    pub fn advance_period(&mut self)
        requires
            old(self).wf(),
            old(self)@.current_period_id < u64::MAX,
        ensures
            final(self).wf(),
            final(self)@ == old(self)@.next_period(),
    {
        proof {
            progress_keeps_valid(old(self)@, 0, Seq::empty());
        }
        self.current_period_id = PeriodId(self.current_period_id.0 + 1);
        self.next_sequence_num = SequenceNumber(1);
        self.current_period_finalized_xts = 0;
        assert(self@ =~= old(self)@.next_period());
    }

    /// Returns to the newest settled superblock, whatever superblock was to be
    /// submitted next.
    pub fn roll_back(&mut self)
        requires
            old(self).tables_wf(),
            old(self)@.tables_agree(),
            old(self)@.last_finalized_superblock_number < u64::MAX,
        ensures
            final(self).wf(),
            final(self)@ == old(self)@.rolled_back(),
            final(self)@.next_superblock_number == old(self)@.last_finalized_superblock_number + 1,
    {
        proof {
            rolling_back_restores_numbering(old(self)@);
        }
        self.next_superblock_number = SuperblockNumber(self.last_finalized_superblock_number + 1);
        assert(self@ =~= old(self)@.rolled_back());
    }

    /// Records that the superblock to submit next was handed to the settlement
    /// layer, with every transaction committed so far.
    pub fn hand_over(&mut self)
        requires
            old(self).wf(),
        ensures
            final(self).wf(),
            final(self)@ == old(self)@.handed_over(),
    {
        proof {
            progress_keeps_valid(old(self)@, 0, Seq::empty());
        }
        self.submitted_xts = self.submitted_xts + self.committed_xts;
        self.committed_xts = 0;
        assert(self@ =~= old(self)@.handed_over());
    }

    /// Records that the submission of superblock `sb` has failed. Where it has not
    /// been settled since, its transactions await the next submission.
    pub fn fail_submission(&mut self, sb: u64)
        requires
            old(self).wf(),
        ensures
            final(self).wf(),
            final(self)@ == old(self)@.submission_failed(sb),
    {
        proof {
            progress_keeps_valid(old(self)@, sb, Seq::empty());
        }
        if sb >= self.next_superblock_number.0 {
            self.committed_xts = self.committed_xts + self.submitted_xts;
            self.submitted_xts = 0;
        }
        assert(self@ =~= old(self)@.submission_failed(sb));
    }

    /// Moves the submitted transactions to the final ones, where `sb` is the
    /// superblock that was submitted or a later one.
    fn finalize_submitted(&mut self, sb: u64)
        requires
            old(self)@.counts_fit(),
        ensures
            final(self).tables_wf() == old(self).tables_wf(),
            final(self)@ == (CoordinatorStateView {
                submitted_xts: final(self)@.submitted_xts,
                current_period_finalized_xts: final(self)@.current_period_finalized_xts,
                ..old(self)@
            }),
            final(self)@.submitted_xts == old(self)@.settled(sb).submitted_xts,
            final(self)@.current_period_finalized_xts == old(self)@.settled(
                sb,
            ).current_period_finalized_xts,
    {
        if sb >= self.next_superblock_number.0 {
            self.current_period_finalized_xts = self.current_period_finalized_xts
                + self.submitted_xts;
            self.submitted_xts = 0;
        }
    }

    /// Records that superblock `sb` was settled.
    pub fn settle(&mut self, sb: u64)
        requires
            old(self).wf(),
            sb < u64::MAX,
        ensures
            final(self).wf(),
            final(self)@ == old(self)@.settled(sb),
    {
        proof {
            progress_keeps_valid(old(self)@, sb, Seq::empty());
        }
        self.finalize_submitted(sb);
        self.last_finalized_superblock_number = sb;
        self.next_superblock_number = SuperblockNumber(sb + 1);
        assert(self@ =~= old(self)@.settled(sb));
    }

    /// Takes over the newest superblock that the settlement layer reports at
    /// start-up.
    pub fn initialize(&mut self, sb: u64, hash: &[u8; 32])
        requires
            old(self).wf(),
            sb < u64::MAX,
        ensures
            final(self).wf(),
            final(self)@ == old(self)@.initialized(sb, hash@),
    {
        proof {
            progress_keeps_valid(old(self)@, sb, hash@);
        }
        self.finalize_submitted(sb);
        self.last_finalized_superblock_number = sb;
        self.last_finalized_superblock_hash = slice_to_vec(hash.as_slice());
        self.next_superblock_number = SuperblockNumber(sb + 1);
        assert(self@ =~= old(self)@.initialized(sb, hash@));
    }

    /// Records the proof of `chain_id`. Where there is then one for every
    /// registered chain, gives the collected proofs and starts over.
    pub fn collect_proof(
        &mut self,
        superblock_number: u64,
        chain_id: u64,
        data: ProofData,
        now: Instant,
    ) -> (r: Option<HashMap<u64, ProofData>>)
        requires
            old(self).wf(),
        ensures
            final(self).wf(),
            ({
                let p = ChainProofView { superblock_number, data: data@ };
                &&& final(self)@ == old(self)@.proved(chain_id, p, now@)
                &&& if old(self)@.proof_completes(chain_id, p) {
                    &&& r matches Some(proofs)
                    &&& proof_views(proofs@) == proof_data(old(self)@.proofs_with(chain_id, p))
                } else {
                    r is None
                }
            }),
    {
        let ghost p = ChainProofView { superblock_number, data: data@ };
        proof {
            proving_keeps_valid(old(self)@, chain_id, p, now@);
        }
        if self.proof_collection_started.is_none() {
            self.proof_collection_started = Some(now);
        }
        self.pending_proofs.insert(chain_id, ChainProof { superblock_number, data });
        assert(chain_proof_views(self.pending_proofs@) =~= old(self)@.proofs_with(chain_id, p));
        if self.registered_count() > 0 && self.every_chain_has_proof() {
            let mut taken: HashMap<u64, ChainProof> = HashMap::new();
            std::mem::swap(&mut taken, &mut self.pending_proofs);
            self.proof_collection_started = None;
            assert(self@ =~= old(self)@.proved(chain_id, p, now@));
            Some(take_data(taken))
        } else {
            assert(self@ =~= old(self)@.proved(chain_id, p, now@));
            None
        }
    }

    /// Whether every registered chain has handed in a proof.
    fn every_chain_has_proof(&self) -> (all: bool)
        ensures
            all <==> forall|c: u64| #[trigger]
                self@.chain_to_client.contains_key(c) ==> self@.pending_proofs.contains_key(c),
    {
        let ghost pairs = vstd::std_specs::iter::IteratorSpec::remaining(
            &vstd::std_specs::hash::spec_hash_map_iter(&self.chain_to_client),
        );
        for (c, _client) in it: self.chain_to_client.iter()
            invariant
                it.seq() == pairs,
                pairs == vstd::std_specs::iter::IteratorSpec::remaining(
                    &vstd::std_specs::hash::spec_hash_map_iter(&self.chain_to_client),
                ),
                forall|i: int|
                    0 <= i < it.index() ==> self.pending_proofs@.contains_key(
                        *(#[trigger] pairs[i]).0,
                    ),
        {
            if !self.pending_proofs.contains_key(c) {
                assert(self.chain_to_client@.contains_key(*pairs[it.index()].0));
                assert(self@.chain_to_client.contains_key(*c));
                return false;
            }
        }
        assert forall|c: u64| #[trigger] self@.chain_to_client.contains_key(c) implies
            self@.pending_proofs.contains_key(c) by {
            assert(self.chain_to_client@.contains_key(c));
            assert(pairs.contains((&c, &self.chain_to_client@[c])));
            let i = choose|i: int|
                0 <= i < pairs.len() && pairs[i] == (&c, &self.chain_to_client@[c]);
            assert(self.pending_proofs@.contains_key(*pairs[i].0));
        }
        true
    }
}

/// The chains in `m`.
fn chains_of(m: &HashMap<u64, ChainProof>) -> (chains: Vec<u64>)
    ensures
        chains@.no_duplicates(),
        forall|c: u64| #[trigger] chains@.contains(c) <==> m@.contains_key(c),
{
    let mut chains: Vec<u64> = Vec::new();
    let ghost pairs = vstd::std_specs::iter::IteratorSpec::remaining(
        &vstd::std_specs::hash::spec_hash_map_iter(m),
    );
    for (c, _p) in it: m.iter()
        invariant
            it.seq() == pairs,
            it.seq().no_duplicates(),
            chains.len() == it.index(),
            forall|i: int| 0 <= i < chains.len() ==> #[trigger] chains@[i] == *pairs[i].0,
    {
        chains.push(*c);
    }
    proof {
        assert forall|i: int, j: int| 0 <= i < j < chains.len() implies chains@[i] != chains@[j] by {
            assert(m@.contains_key(*pairs[i].0) && m@.contains_key(*pairs[j].0));
            if chains@[i] == chains@[j] {
                assert(pairs[i] == pairs[j]);
            }
        }
        assert forall|c: u64| #[trigger] chains@.contains(c) <==> m@.contains_key(c) by {
            if m@.contains_key(c) {
                assert(pairs.contains((&c, &m@[c])));
                let i = choose|i: int| 0 <= i < pairs.len() && pairs[i] == (&c, &m@[c]);
                assert(chains@[i] == c);
            }
            if chains@.contains(c) {
                let i = choose|i: int| 0 <= i < chains.len() && chains@[i] == c;
                assert(m@.contains_key(*pairs[i].0));
            }
        }
    }
    chains
}

/// The data of each proof, by chain.
fn take_data(taken: HashMap<u64, ChainProof>) -> (proofs: HashMap<u64, ProofData>)
    ensures
        proof_views(proofs@) == proof_data(chain_proof_views(taken@)),
{
    let ghost all = taken@;
    let mut rest = taken;
    let chains = chains_of(&rest);
    let mut proofs: HashMap<u64, ProofData> = HashMap::new();
    assert forall|j: int| 0 <= j < chains.len() implies rest@.contains_key(#[trigger] chains@[j]) by {
        assert(chains@.contains(chains@[j]));
    }
    for i in 0..chains.len()
        invariant
            chains@.no_duplicates(),
            forall|c: u64| #[trigger] chains@.contains(c) <==> all.contains_key(c),
            forall|j: int| i <= j < chains.len() ==> rest@.contains_key(#[trigger] chains@[j])
                && rest@[chains@[j]] == all[chains@[j]],
            forall|c: u64| #[trigger]
                proofs@.contains_key(c) <==> exists|j: int| 0 <= j < i && chains@[j] == c,
            forall|c: u64| #[trigger]
                proofs@.contains_key(c) ==> proofs@[c] == all[c].data,
    {
        let ghost done = proofs@;
        assert(rest@.contains_key(chains@[i as int]));
        if let Some(p) = rest.remove(&chains[i]) {
            proofs.insert(chains[i], p.data);
        }
        assert forall|c: u64| #[trigger] proofs@.contains_key(c) <==> exists|j: int|
            0 <= j < i + 1 && chains@[j] == c by {
            if done.contains_key(c) {
                let j = choose|j: int| 0 <= j < i && chains@[j] == c;
                assert(chains@[j] == c);
            }
        }
    }
    assert(proof_views(proofs@) =~= proof_data(chain_proof_views(all))) by {
        assert forall|c: u64| proofs@.contains_key(c) <==> all.contains_key(c) by {
            if all.contains_key(c) {
                assert(chains@.contains(c));
            }
            if proofs@.contains_key(c) {
                let j = choose|j: int| 0 <= j < chains.len() && chains@[j] == c;
                assert(chains@.contains(c));
            }
        }
    }
    proofs
}

} // verus!
