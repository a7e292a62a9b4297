//! The coordinator: it turns what happens around it into changes of its state and
//! into effects to be carried out.

use vstd::prelude::*;
use vstd::slice::slice_to_vec;

#[allow(unused_imports)]
use crate::coordinator_laws::complete_collection_covers_all;
#[allow(unused_imports)]
use crate::coordinator_model::{
    decided_message, proof_data, ChainProofView, CoordinatorStateView, MAX_ACTIVE_XTS,
};
use crate::coordinator_state::CoordinatorState;
#[allow(unused_imports)]
use crate::coordinator_state::announcement_views;
#[allow(unused_imports)]
use crate::effects::{effect_views, EffectView};
use crate::effects::{Effect, MetricUpdate};
use crate::mailbox::{validate_mailbox_consistency, ProofData};
#[allow(unused_imports)]
use crate::mailbox::{mailboxes_agree, ProofDataView};
#[allow(unused_imports)]
use crate::messages::{
    from_publisher, MailboxMessageView, MessageView, PayloadView, PongView, RollbackView,
    StartInstanceView, StartPeriodView, TransactionRequestView, XtRequestView,
};
use crate::messages::{
    MailboxMessage, Message, Payload, Pong, Rollback, StartInstance, StartPeriod,
};
use crate::text::hex_encode;
#[allow(unused_imports)]
use crate::text::hex_lower;
#[allow(unused_imports)]
use crate::time::{duration_view_injective, elapsed};
use crate::time::{Duration, Instant};
use crate::types::{contains_chain, copy_byte_strings, ChainId, InstanceId, PeriodId, SequenceNumber};
#[allow(unused_imports)]
use crate::types::{byte_strings, dedup, dedup_properties, participants};

verus! {

/// A request as the protocol layer sees it.
pub open spec fn spec_request(request: XtRequestView) -> Seq<(ChainId, Seq<Seq<u8>>)> {
    request.transaction_requests.map_values(
        |t: TransactionRequestView| (ChainId(t.chain_id), t.transaction),
    )
}

/// The chains that `req` names, each once, in order of first mention.
pub fn extract_chains(req: &crate::messages::XtRequest) -> (chains: Vec<ChainId>)
    ensures
        chains@ == participants(spec_request(req@)),
{
    let ghost named = spec_request(req@).map_values(|t: (ChainId, Seq<Seq<u8>>)| t.0);
    let mut chains: Vec<ChainId> = Vec::new();
    for i in 0..req.transaction_requests.len()
        invariant
            named == spec_request(req@).map_values(|t: (ChainId, Seq<Seq<u8>>)| t.0),
            named.len() == req.transaction_requests.len(),
            chains@ == dedup(named.take(i as int)),
    {
        let chain = ChainId::new(req.transaction_requests[i].chain_id);
        assert(named.take(i + 1).drop_last() =~= named.take(i as int));
        assert(named.take(i + 1).last() == chain);
        if !contains_chain(&chains, chain) {
            chains.push(chain);
        }
    }
    assert(named.take(named.len() as int) =~= named);
    chains
}

/// The request as the protocol layer sees it.
pub fn proto_to_spec_xt(req: &crate::messages::XtRequest) -> (r: crate::types::XtRequest)
    ensures
        r@ == spec_request(req@),
{
    let mut transactions: Vec<crate::types::TransactionRequest> = Vec::new();
    for i in 0..req.transaction_requests.len()
        invariant
            transactions.len() == i,
            forall|j: int|
                0 <= j < i ==> (#[trigger] transactions@[j])@ == (
                    ChainId(req.transaction_requests@[j].chain_id),
                    byte_strings(req.transaction_requests@[j].transaction@),
                ),
    {
        transactions.push(
            crate::types::TransactionRequest {
                chain_id: ChainId::new(req.transaction_requests[i].chain_id),
                transactions: copy_byte_strings(&req.transaction_requests[i].transaction),
            },
        );
    }
    let r = crate::types::XtRequest { transactions };
    assert(r@ =~= spec_request(req@));
    r
}

/// `id` is an identifier that `generate` gives the instance at the given place for
/// the given request.
pub open spec fn generated<G: Fn(PeriodId, SequenceNumber, &crate::types::XtRequest) -> InstanceId>(
    generate: G,
    period_id: u64,
    sequence_number: u64,
    request: Seq<(ChainId, Seq<Seq<u8>>)>,
    id: InstanceId,
) -> bool {
    exists|q: crate::types::XtRequest|
        q@ == request && #[trigger] call_ensures(
            generate,
            (PeriodId(period_id), SequenceNumber(sequence_number), &q),
            id,
        )
}

/// `generate` takes every argument.
pub open spec fn generates_always<
    G: Fn(PeriodId, SequenceNumber, &crate::types::XtRequest) -> InstanceId,
>(generate: G) -> bool {
    forall|p: PeriodId, n: SequenceNumber, q: crate::types::XtRequest| #[trigger]
        call_requires(generate, (p, n, &q))
}

/// The announcement of an instance.
pub open spec fn start_instance_message(
    instance_id: Seq<u8>,
    period_id: u64,
    sequence_number: u64,
    request: XtRequestView,
) -> MessageView {
    from_publisher(
        PayloadView::StartInstance(
            StartInstanceView {
                instance_id,
                period_id,
                sequence_number,
                xt_request: Some(request),
            },
        ),
    )
}

impl CoordinatorState {
    /// Starts an instance for `xt_req`, whose participants are `chains`, with the
    /// identifier that `generate_instance_id` gives it. Gives that identifier and
    /// the announcement.
    pub fn prepare_xt<G: Fn(PeriodId, SequenceNumber, &crate::types::XtRequest) -> InstanceId>(
        &mut self,
        xt_req: crate::messages::XtRequest,
        chains: Vec<ChainId>,
        received_at: Instant,
        now: Instant,
        generate_instance_id: &G,
    ) -> (r: (String, Message))
        requires
            old(self).wf(),
            old(self)@.active_xts.len() < MAX_ACTIVE_XTS,
            old(self)@.next_sequence_num < u64::MAX,
            chains@.len() >= 2,
            chains@.no_duplicates(),
            generates_always(*generate_instance_id),
        ensures
            final(self).wf(),
            exists|id: InstanceId| {
                &&& #[trigger] generated(
                    *generate_instance_id,
                    old(self)@.current_period_id,
                    old(self)@.next_sequence_num,
                    spec_request(xt_req@),
                    id,
                )
                &&& r.0@ == hex_lower(id.0@)
                &&& r.1@ == start_instance_message(
                    id.0@,
                    old(self)@.current_period_id,
                    old(self)@.next_sequence_num,
                    xt_req@,
                )
                &&& final(self)@ == old(self)@.started(id.0@, chains@, received_at@, now@)
            },
    {
        let compose_req = proto_to_spec_xt(&xt_req);
        let seq_num = self.next_sequence_num();
        let period_id = self.current_period_id();
        let instance_id = generate_instance_id(period_id, seq_num, &compose_req);
        assert(generated(
            *generate_instance_id,
            old(self)@.current_period_id,
            old(self)@.next_sequence_num,
            spec_request(xt_req@),
            instance_id,
        ));
        let message = Message::from_publisher(
            Payload::StartInstance(
                StartInstance {
                    instance_id: slice_to_vec(instance_id.as_bytes()),
                    period_id: period_id.get(),
                    sequence_number: seq_num.get(),
                    xt_request: Some(xt_req),
                },
            ),
        );
        let xt_id = self.activate(&instance_id, chains, received_at, now);
        (xt_id, message)
    }
}

/// What a coordinator holds.
#[verifier::ext_equal]
pub struct CoordinatorView {
    /// Its protocol state.
    pub state: CoordinatorStateView,
    /// How long a transaction may stay undecided.
    pub scp_timeout: nat,
    /// How long the collection of proofs may last.
    pub proof_window: nat,
    /// Whether superblocks are submitted to the settlement layer.
    pub settles_on_l1: bool,
    /// How many messages have come in, modulo 2^64.
    pub messages_processed: u64,
    /// How many messages were sent out, modulo 2^64.
    pub broadcasts_sent: u64,
}

/// The counter `n` after one more event.
pub open spec fn bumped(n: u64) -> u64 {
    if n == u64::MAX {
        0
    } else {
        (n + 1) as u64
    }
}

/// The counter `n` after `times` more events.
pub open spec fn bumped_by(n: u64, times: nat) -> u64
    decreases times,
{
    if times == 0 {
        n
    } else {
        bumped(bumped_by(n, (times - 1) as nat))
    }
}

/// The effects of announcing the aborts in `list`, in order.
pub open spec fn abort_effects(list: Seq<(Seq<char>, MessageView)>) -> Seq<EffectView>
    decreases list.len(),
{
    if list.len() == 0 {
        Seq::empty()
    } else {
        abort_effects(list.drop_last()).push(EffectView::Record(MetricUpdate::XtAborted)).push(
            EffectView::Record(MetricUpdate::BroadcastSent),
        ).push(EffectView::Broadcast(list.last().1))
    }
}

/// The span of `nanos` nanoseconds.
pub open spec fn span(nanos: nat) -> Duration {
    choose|d: Duration| d@ == nanos
}

impl CoordinatorView {
    /// The coordinator at start-up.
    pub open spec fn initial(scp_timeout: nat, proof_window: nat) -> CoordinatorView {
        CoordinatorView {
            state: CoordinatorStateView::initial(),
            scp_timeout,
            proof_window,
            settles_on_l1: false,
            messages_processed: 0,
            broadcasts_sent: 0,
        }
    }

    /// The coordinator with another protocol state.
    pub open spec fn with_state(self, state: CoordinatorStateView) -> CoordinatorView {
        CoordinatorView { state, ..self }
    }

    /// The coordinator after a message came in.
    pub open spec fn message_counted(self) -> CoordinatorView {
        CoordinatorView { messages_processed: bumped(self.messages_processed), ..self }
    }

    /// The coordinator after a message was sent out.
    pub open spec fn broadcast_counted(self) -> CoordinatorView {
        CoordinatorView { broadcasts_sent: bumped(self.broadcasts_sent), ..self }
    }

    /// What follows when a new period begins.
    pub open spec fn on_period(self) -> (CoordinatorView, Seq<EffectView>) {
        (
            self.with_state(self.state.next_period()).broadcast_counted(),
            seq![
                EffectView::Record(
                    MetricUpdate::XtFinalisedPerPeriod(self.state.current_period_finalized_xts),
                ),
                EffectView::Record(MetricUpdate::BroadcastSent),
                EffectView::Record(MetricUpdate::PeriodBroadcast),
                EffectView::Broadcast(
                    from_publisher(
                        PayloadView::StartPeriod(
                            StartPeriodView {
                                period_id: (self.state.current_period_id + 1) as u64,
                                superblock_number: self.state.next_superblock_number,
                            },
                        ),
                    ),
                ),
            ],
        )
    }

    /// Whether a request is taken on: it spans at least two chains, and there are
    /// not too many undecided transactions.
    pub open spec fn accepts(self, request: XtRequestView) -> bool {
        &&& participants(spec_request(request)).len() >= 2
        &&& self.state.active_xts.len() < MAX_ACTIVE_XTS
    }

    /// Whether a request can be numbered, where it is taken on.
    pub open spec fn request_fits(self, request: XtRequestView) -> bool {
        self.accepts(request) ==> self.state.next_sequence_num < u64::MAX
    }

    /// Whether a transaction can be counted, where a vote commits it.
    pub open spec fn vote_fits(self, id: Seq<u8>, chain: u64, vote: bool) -> bool {
        self.state.vote_decides(hex_lower(id), chain, vote) == Some(true) ==> self.state.counted()
            < u64::MAX
    }

    /// What follows from a request that is taken on under the identifier `id`.
    pub open spec fn on_request(
        self,
        id: Seq<u8>,
        request: XtRequestView,
        received_at: nat,
        now: nat,
    ) -> (CoordinatorView, Seq<EffectView>) {
        (
            self.with_state(
                self.state.started(id, participants(spec_request(request)), received_at, now),
            ).broadcast_counted(),
            seq![
                EffectView::Record(MetricUpdate::BroadcastSent),
                EffectView::Record(MetricUpdate::XtStarted),
                EffectView::Broadcast(
                    start_instance_message(
                        id,
                        self.state.current_period_id,
                        self.state.next_sequence_num,
                        request,
                    ),
                ),
            ],
        )
    }

    /// What follows from the vote of `chain` on the instance `id`.
    pub open spec fn on_vote(self, id: Seq<u8>, chain: u64, vote: bool, now: nat) -> (
        CoordinatorView,
        Seq<EffectView>,
    ) {
        let xt = hex_lower(id);
        let after = self.with_state(self.state.voted(xt, chain, vote));
        match self.state.vote_decides(xt, chain, vote) {
            None => (after, Seq::empty()),
            Some(decision) => (
                after.broadcast_counted(),
                seq![
                    EffectView::Record(
                        if decision {
                            MetricUpdate::XtCommitted
                        } else {
                            MetricUpdate::XtAborted
                        },
                    ),
                    EffectView::Record(
                        MetricUpdate::DecisionLatency(
                            span(elapsed(self.state.active_xts[xt].start_time, now)),
                        ),
                    ),
                    EffectView::Record(MetricUpdate::BroadcastSent),
                    EffectView::Broadcast(decided_message(id, decision)),
                ],
            ),
        }
    }

    /// What follows from a mailbox message on its way to another chain.
    pub open spec fn on_mailbox(self, mailbox: MailboxMessageView) -> (
        CoordinatorView,
        Seq<EffectView>,
    ) {
        if self.state.chain_to_client.contains_key(mailbox.destination_chain) {
            (
                self.broadcast_counted(),
                seq![
                    EffectView::Record(MetricUpdate::BroadcastSent),
                    EffectView::Send {
                        client_id: self.state.chain_to_client[mailbox.destination_chain],
                        message: from_publisher(PayloadView::MailboxMessage(mailbox)),
                    },
                ],
            )
        } else {
            (self, Seq::empty())
        }
    }

    /// What follows from the confirmation of the instance `id` by `chain`.
    pub open spec fn on_confirmed(self, id: Seq<u8>, chain: u64, now: nat) -> (
        CoordinatorView,
        Seq<EffectView>,
    ) {
        let xt = hex_lower(id);
        (
            self.with_state(self.state.confirmed(xt, chain)),
            if self.state.confirmation_completes(xt, chain) {
                seq![
                    EffectView::Record(
                        MetricUpdate::BlockInclusionLatency(
                            span(elapsed(self.state.pending_confirmations[xt].received_at, now)),
                        ),
                    ),
                ]
            } else {
                Seq::empty()
            },
        )
    }

    /// What follows from a proof of `chain`.
    pub open spec fn on_proof(
        self,
        superblock_number: u64,
        chain: u64,
        data: ProofDataView,
        now: nat,
    ) -> (CoordinatorView, Seq<EffectView>) {
        let p = ChainProofView { superblock_number, data };
        let proofs = proof_data(self.state.proofs_with(chain, p));
        let next = self.state.proved(chain, p, now);
        if self.state.proof_completes(chain, p) && mailboxes_agree(proofs) && self.settles_on_l1 {
            (
                self.with_state(next.handed_over()),
                seq![
                    EffectView::Submit {
                        superblock_number: self.state.next_superblock_number,
                        proofs,
                    },
                ],
            )
        } else {
            (self.with_state(next), Seq::empty())
        }
    }

    /// What follows from a look at the clock that watches over the collection of
    /// proofs.
    pub open spec fn on_proof_window(self, now: nat) -> (CoordinatorView, Seq<EffectView>) {
        if self.state.collection_expired(now, self.proof_window) {
            (
                self.with_state(
                    self.state.collection_dropped().rolled_back(),
                ).broadcast_counted(),
                seq![
                    EffectView::Record(MetricUpdate::BroadcastSent),
                    EffectView::Broadcast(
                        from_publisher(
                            PayloadView::Rollback(
                                RollbackView {
                                    period_id: self.state.current_period_id,
                                    last_finalized_superblock_number:
                                        self.state.last_finalized_superblock_number,
                                    last_finalized_superblock_hash:
                                        self.state.last_finalized_superblock_hash,
                                },
                            ),
                        ),
                    ),
                ],
            )
        } else {
            (self, Seq::empty())
        }
    }

    /// What follows from a look at the clock that watches over undecided
    /// transactions, where the aborts are announced in the order of `list`.
    pub open spec fn on_timeouts(self, list: Seq<(Seq<char>, MessageView)>, now: nat) -> (
        CoordinatorView,
        Seq<EffectView>,
    ) {
        (
            CoordinatorView {
                state: self.state.reaped(now, self.scp_timeout),
                broadcasts_sent: bumped_by(self.broadcasts_sent, list.len()),
                ..self
            },
            abort_effects(list),
        )
    }
}

/// What a proof has submitted holds a proof of every registered chain, and their
/// mailboxes agree; while one of these chains has handed in no proof, nothing is
/// submitted.
pub proof fn submission_is_complete_and_consistent(
    c: CoordinatorView,
    superblock_number: u64,
    chain: u64,
    data: ProofDataView,
    now: nat,
    registered: u64,
)
    requires
        c.state.chain_to_client.contains_key(registered),
    ensures
        forall|i: int|
            0 <= i < c.on_proof(superblock_number, chain, data, now).1.len() ==> match #[trigger] c.on_proof(
                superblock_number,
                chain,
                data,
                now,
            ).1[i] {
                EffectView::Submit { superblock_number: submitted, proofs } => {
                    &&& submitted == c.state.next_superblock_number
                    &&& proofs.contains_key(registered)
                    &&& mailboxes_agree(proofs)
                },
                _ => false,
            },
        registered != chain && !c.state.pending_proofs.contains_key(registered) ==> c.on_proof(
            superblock_number,
            chain,
            data,
            now,
        ).1.len() == 0,
{
    let p = ChainProofView { superblock_number, data };
    if c.state.proof_completes(chain, p) {
        complete_collection_covers_all(c.state, chain, p, registered);
        assert(proof_data(c.state.proofs_with(chain, p)).contains_key(registered));
    }
}

/// Figures about a running coordinator.
#[derive(Clone, Copy, Debug, PartialEq, Eq)]
pub struct CoordinatorStats {
    /// How many chains are registered.
    pub registered_chains: usize,
    /// How many transactions are undecided.
    pub active_2pc_transactions: usize,
    /// How many chains have handed in a proof.
    pub pending_proof_superblocks: usize,
    /// The current period.
    pub current_period_id: u64,
    /// The superblock to submit next.
    pub next_superblock_number: u64,
    /// The newest settled superblock.
    pub last_finalized_superblock: u64,
    /// How many messages have come in.
    pub messages_processed: u64,
    /// How many messages were sent out.
    pub broadcasts_sent: u64,
}

/// Coordinates cross-chain transactions and the settlement of superblocks.
pub struct Coordinator<G> {
    state: CoordinatorState,
    generate_instance_id: G,
    scp_timeout: Duration,
    proof_window: Duration,
    settles_on_l1: bool,
    messages_processed: u64,
    broadcasts_sent: u64,
}

impl<G> View for Coordinator<G> {
    type V = CoordinatorView;

    closed spec fn view(&self) -> CoordinatorView {
        CoordinatorView {
            state: self.state@,
            scp_timeout: self.scp_timeout@,
            proof_window: self.proof_window@,
            settles_on_l1: self.settles_on_l1,
            messages_processed: self.messages_processed,
            broadcasts_sent: self.broadcasts_sent,
        }
    }
}

/// A span is the one of its length.
proof fn span_of_view(d: Duration)
    ensures
        span(d@) == d,
{
    broadcast use duration_view_injective;

    assert(span(d@)@ == d@);
}

impl<G> Coordinator<G> {
    /// The protocol state is well-formed.
    pub closed spec fn wf(&self) -> bool {
        self.state.wf()
    }

    /// What gives instances their identifiers.
    pub closed spec fn generator(&self) -> G {
        self.generate_instance_id
    }

    /// A well-formed coordinator holds a valid protocol state.
    pub broadcast proof fn wf_is_valid(&self)
        ensures
            #[trigger] self.wf() ==> self@.state.valid(),
    {
        broadcast use CoordinatorState::wf_is_valid;

    }

    /// A coordinator at start-up, without settlement.
    pub fn new(generate_instance_id: G, scp_timeout: Duration, proof_window: Duration) -> (c: Self)
        ensures
            c.wf(),
            c.generator() == generate_instance_id,
            c@ == CoordinatorView::initial(scp_timeout@, proof_window@),
    {
        Coordinator {
            state: CoordinatorState::new(),
            generate_instance_id,
            scp_timeout,
            proof_window,
            settles_on_l1: false,
            messages_processed: 0,
            broadcasts_sent: 0,
        }
    }

    /// The coordinator, with superblocks submitted to the settlement layer.
    pub fn with_l1_submitter(self) -> (c: Self)
        ensures
            c.wf() == self.wf(),
            c.generator() == self.generator(),
            c@ == (CoordinatorView { settles_on_l1: true, ..self@ }),
    {
        Coordinator {
            state: self.state,
            generate_instance_id: self.generate_instance_id,
            scp_timeout: self.scp_timeout,
            proof_window: self.proof_window,
            settles_on_l1: true,
            messages_processed: self.messages_processed,
            broadcasts_sent: self.broadcasts_sent,
        }
    }

    /// Whether another period can be counted.
    pub fn has_period_headroom(&self) -> (r: bool)
        ensures
            r == (self@.state.current_period_id < u64::MAX),
    {
        self.state.current_period_id().get() < u64::MAX
    }

    /// Whether any request can be numbered and any committed transaction counted.
    pub fn has_headroom(&self) -> (r: bool)
        requires
            self.wf(),
        ensures
            r == (self@.state.next_sequence_num < u64::MAX && self@.state.counted() < u64::MAX),
    {
        self.state.next_sequence_num().get() < u64::MAX && self.state.can_count_commit()
    }

    /// Whether a request can be numbered, where it is taken on.
    pub fn check_request_fits(&self, xt_req: &crate::messages::XtRequest) -> (r: bool)
        requires
            self.wf(),
        ensures
            r == self@.request_fits(xt_req@),
    {
        self.state.next_sequence_num().get() < u64::MAX || self.state.active_count()
            >= MAX_ACTIVE_XTS || extract_chains(xt_req).len() < 2
    }

    /// Whether a transaction can be counted, where a vote commits it.
    pub fn check_vote_fits(
        &self,
        instance_id_bytes: &[u8],
        chain_id: ChainId,
        vote: bool,
    ) -> (r: bool)
        requires
            self.wf(),
            2 * instance_id_bytes@.len() <= isize::MAX,
        ensures
            r == self@.vote_fits(instance_id_bytes@, chain_id.0, vote),
    {
        self.state.can_count_commit() || !self.state.vote_commits(
            hex_encode(instance_id_bytes).as_str(),
            chain_id,
            vote,
        )
    }

    /// Counts a message that came in.
    pub fn inc_messages(&mut self) -> (effects: Vec<Effect>)
        requires
            old(self).wf(),
        ensures
            final(self).wf(),
            final(self).generator() == old(self).generator(),
            final(self)@ == old(self)@.message_counted(),
            effect_views(effects@) == seq![EffectView::Record(MetricUpdate::MessageReceived)],
    {
        self.messages_processed = self.messages_processed.wrapping_add(1);
        let effects = vec![Effect::Record(MetricUpdate::MessageReceived)];
        assert(effect_views(effects@) =~= seq![EffectView::Record(MetricUpdate::MessageReceived)]);
        effects
    }

    /// Counts a message that is being sent out.
    fn inc_broadcasts(&mut self, effects: &mut Vec<Effect>)
        requires
            old(self).wf(),
        ensures
            final(self).wf(),
            final(self).generator() == old(self).generator(),
            final(self)@ == old(self)@.broadcast_counted(),
            final(effects)@ == old(effects)@.push(Effect::Record(MetricUpdate::BroadcastSent)),
    {
        self.broadcasts_sent = self.broadcasts_sent.wrapping_add(1);
        effects.push(Effect::Record(MetricUpdate::BroadcastSent));
    }

    /// Records that the client `client_id` speaks for `chain_id`.
    pub fn register_chain(&mut self, client_id: &str, chain_id: ChainId)
        requires
            old(self).wf(),
        ensures
            final(self).wf(),
            final(self).generator() == old(self).generator(),
            final(self)@ == old(self)@.with_state(
                old(self)@.state.registered(client_id@, chain_id.0),
            ),
    {
        self.state.register_chain(client_id, chain_id);
    }

    /// Takes over what the settlement layer reports at start-up: its newest
    /// superblock with the hash, or nothing where there is none or it could not be
    /// read. Must come before the first period, so that numbering goes on where it
    /// was left.
    pub fn init_from_l1(&mut self, latest: Option<(u64, [u8; 32])>)
        requires
            old(self).wf(),
            latest matches Some(l) ==> l.0 < u64::MAX,
        ensures
            final(self).wf(),
            final(self).generator() == old(self).generator(),
            final(self)@ == (match latest {
                Some(l) => old(self)@.with_state(old(self)@.state.initialized(l.0, l.1@)),
                None => old(self)@,
            }),
    {
        if let Some((sb_num, sb_hash)) = latest {
            self.state.initialize(sb_num, &sb_hash);
        }
    }

    /// Begins a new period and announces it. How many transactions the settlement
    /// layer confirmed in the period that ends goes into the metrics.
    pub fn advance_period(&mut self) -> (effects: Vec<Effect>)
        requires
            old(self).wf(),
            old(self)@.state.current_period_id < u64::MAX,
        ensures
            final(self).wf(),
            final(self).generator() == old(self).generator(),
            (final(self)@, effect_views(effects@)) == old(self)@.on_period(),
    {
        let finalized: u64 = self.state.current_period_finalized_xts();
        self.state.advance_period();
        let mut effects: Vec<Effect> = Vec::new();
        effects.push(Effect::Record(MetricUpdate::XtFinalisedPerPeriod(finalized)));
        self.inc_broadcasts(&mut effects);
        effects.push(Effect::Record(MetricUpdate::PeriodBroadcast));
        effects.push(
            Effect::Broadcast(
                Message::from_publisher(
                    Payload::StartPeriod(
                        StartPeriod {
                            period_id: self.state.current_period_id().get(),
                            superblock_number: self.state.next_superblock_number().get(),
                        },
                    ),
                ),
            ),
        );
        assert(effect_views(effects@) =~= old(self)@.on_period().1);
        effects
    }

    /// Acts on the vote of `chain_id` on the instance `instance_id_bytes`.
    pub fn handle_vote(
        &mut self,
        instance_id_bytes: &[u8],
        chain_id: ChainId,
        vote: bool,
        now: Instant,
    ) -> (effects: Vec<Effect>)
        requires
            old(self).wf(),
            old(self)@.vote_fits(instance_id_bytes@, chain_id.0, vote),
            2 * instance_id_bytes@.len() <= isize::MAX,
        ensures
            final(self).wf(),
            final(self).generator() == old(self).generator(),
            (final(self)@, effect_views(effects@)) == old(self)@.on_vote(
                instance_id_bytes@,
                chain_id.0,
                vote,
                now@,
            ),
    {
        let xt_id = hex_encode(instance_id_bytes);
        let mut effects: Vec<Effect> = Vec::new();
        match self.state.record_vote(xt_id.as_str(), instance_id_bytes, chain_id, vote, now) {
            Some((decision, latency, message)) => {
                proof {
                    span_of_view(latency);
                }
                if decision {
                    effects.push(Effect::Record(MetricUpdate::XtCommitted));
                } else {
                    effects.push(Effect::Record(MetricUpdate::XtAborted));
                }
                effects.push(Effect::Record(MetricUpdate::DecisionLatency(latency)));
                self.inc_broadcasts(&mut effects);
                effects.push(Effect::Broadcast(message));
            },
            None => {},
        }
        assert(effect_views(effects@) =~= old(self)@.on_vote(
            instance_id_bytes@,
            chain_id.0,
            vote,
            now@,
        ).1);
        effects
    }

    /// Passes a mailbox message on to the client of its destination chain.
    pub fn handle_mailbox_relay(&mut self, mailbox: MailboxMessage) -> (effects: Vec<Effect>)
        requires
            old(self).wf(),
        ensures
            final(self).wf(),
            final(self).generator() == old(self).generator(),
            (final(self)@, effect_views(effects@)) == old(self)@.on_mailbox(mailbox@),
    {
        let mut effects: Vec<Effect> = Vec::new();
        match self.state.client_for_chain(ChainId::new(mailbox.destination_chain)) {
            Some(client_id) => {
                self.inc_broadcasts(&mut effects);
                effects.push(
                    Effect::Send {
                        client_id,
                        message: Message::from_publisher(Payload::MailboxMessage(mailbox)),
                    },
                );
            },
            None => {},
        }
        assert(effect_views(effects@) =~= old(self)@.on_mailbox(mailbox@).1);
        effects
    }

    /// Answers a ping of the client `client_id`.
    pub fn handle_ping(&self, client_id: &str, timestamp: i64) -> (effects: Vec<Effect>)
        ensures
            effect_views(effects@) == seq![
                EffectView::Send {
                    client_id: client_id@,
                    message: from_publisher(PayloadView::Pong(PongView { timestamp })),
                },
            ],
    {
        let mut effects: Vec<Effect> = Vec::new();
        effects.push(
            Effect::Send {
                client_id: client_id.to_string(),
                message: Message::from_publisher(Payload::Pong(Pong { timestamp })),
            },
        );
        assert(effect_views(effects@) =~= seq![
            EffectView::Send {
                client_id: client_id@,
                message: from_publisher(PayloadView::Pong(PongView { timestamp })),
            },
        ]);
        effects
    }

    /// Aborts the transactions that have been undecided for too long.
    pub fn reap_timed_out_xts(&mut self, now: Instant) -> (effects: Vec<Effect>)
        requires
            old(self).wf(),
        ensures
            final(self).wf(),
            final(self).generator() == old(self).generator(),
            exists|list: Seq<(Seq<char>, MessageView)>| {
                &&& #[trigger] old(self)@.state.announces_timeouts(
                    list,
                    now@,
                    old(self)@.scp_timeout,
                )
                &&& (final(self)@, effect_views(effects@)) == old(self)@.on_timeouts(list, now@)
            },
    {
        let timed_out = self.state.reap_timed_out(self.scp_timeout, now);
        let ghost reaped = self@;
        let ghost list = announcement_views(timed_out@);
        let ghost all = timed_out@;
        let mut effects: Vec<Effect> = Vec::new();
        assert(list.take(0) =~= Seq::empty());
        assert(effect_views(effects@) =~= Seq::empty());
        for t in it: timed_out
            invariant
                it.seq() == all,
                list == announcement_views(all),
                self.wf(),
                self.generator() == old(self).generator(),
                self@ == (CoordinatorView {
                    broadcasts_sent: bumped_by(reaped.broadcasts_sent, it.index() as nat),
                    ..reaped
                }),
                effect_views(effects@) == abort_effects(list.take(it.index())),
        {
            let ghost n = it.index();
            let ghost sent = effect_views(effects@);
            effects.push(Effect::Record(MetricUpdate::XtAborted));
            self.inc_broadcasts(&mut effects);
            effects.push(Effect::Broadcast(t.1));
            assert(list.take(n + 1).drop_last() =~= list.take(n));
            assert(list.take(n + 1).last() == list[n]);
            assert(effect_views(effects@) =~= sent.push(
                EffectView::Record(MetricUpdate::XtAborted),
            ).push(EffectView::Record(MetricUpdate::BroadcastSent)).push(
                EffectView::Broadcast(list[n].1),
            ));
        }
        assert(list.take(list.len() as int) =~= list);
        assert(old(self)@.state.announces_timeouts(list, now@, old(self)@.scp_timeout));
        effects
    }

    /// Drops the collected proofs and announces a rollback where their collection
    /// has lasted too long.
    pub fn reap_expired_proofs(&mut self, now: Instant) -> (effects: Vec<Effect>)
        requires
            old(self).wf(),
        ensures
            final(self).wf(),
            final(self).generator() == old(self).generator(),
            (final(self)@, effect_views(effects@)) == old(self)@.on_proof_window(now@),
    {
        let mut effects: Vec<Effect> = Vec::new();
        if self.state.reap_expired_proofs(self.proof_window, now) {
            self.state.roll_back();
            self.inc_broadcasts(&mut effects);
            effects.push(
                Effect::Broadcast(
                    Message::from_publisher(
                        Payload::Rollback(
                            Rollback {
                                period_id: self.state.current_period_id().get(),
                                last_finalized_superblock_number:
                                    self.state.last_finalized_superblock_number(),
                                last_finalized_superblock_hash: slice_to_vec(
                                    self.state.last_finalized_superblock_hash(),
                                ),
                            },
                        ),
                    ),
                ),
            );
        }
        assert(effect_views(effects@) =~= old(self)@.on_proof_window(now@).1);
        effects
    }

    /// Acts on the confirmation of the instance `instance_id` by `chain_id`.
    pub fn handle_confirmed(&mut self, instance_id: &[u8], chain_id: ChainId, now: Instant) -> (
        effects: Vec<Effect>)
        requires
            old(self).wf(),
            2 * instance_id@.len() <= isize::MAX,
        ensures
            final(self).wf(),
            final(self).generator() == old(self).generator(),
            (final(self)@, effect_views(effects@)) == old(self)@.on_confirmed(
                instance_id@,
                chain_id.0,
                now@,
            ),
    {
        let xt_id = hex_encode(instance_id);
        let mut effects: Vec<Effect> = Vec::new();
        match self.state.handle_confirmed(xt_id.as_str(), chain_id, now) {
            Some(latency) => {
                proof {
                    span_of_view(latency);
                }
                effects.push(Effect::Record(MetricUpdate::BlockInclusionLatency(latency)));
            },
            None => {},
        }
        assert(effect_views(effects@) =~= old(self)@.on_confirmed(
            instance_id@,
            chain_id.0,
            now@,
        ).1);
        effects
    }

    /// Whether some client speaks for `chain_id`.
    pub fn is_chain_registered(&self, chain_id: ChainId) -> (r: bool)
        requires
            self.wf(),
        ensures
            r == self@.state.chain_to_client.contains_key(chain_id.0),
    {
        self.state.is_chain_registered(chain_id)
    }

    /// The chain that `client_id` has registered for.
    pub fn chain_for_client(&self, client_id: &str) -> (r: Option<ChainId>)
        requires
            self.wf(),
        ensures
            r == (if self@.state.client_to_chain.contains_key(client_id@) {
                Some(ChainId(self@.state.client_to_chain[client_id@]))
            } else {
                None
            }),
    {
        self.state.chain_for_client(client_id)
    }

    /// The superblock to submit next.
    pub fn current_superblock_number(&self) -> (n: u64)
        ensures
            n == self@.state.next_superblock_number,
    {
        self.state.next_superblock_number().get()
    }

    /// Records the proof of `chain_id`. The newest proof of each chain counts, and
    /// once every registered chain has one they are checked against each other and
    /// submitted under the next superblock number.
    pub fn receive_proof(
        &mut self,
        superblock_number: u64,
        chain_id: u64,
        data: ProofData,
        now: Instant,
    ) -> (effects: Vec<Effect>)
        requires
            old(self).wf(),
        ensures
            final(self).wf(),
            final(self).generator() == old(self).generator(),
            (final(self)@, effect_views(effects@)) == old(self)@.on_proof(
                superblock_number,
                chain_id,
                data@,
                now@,
            ),
    {
        let ghost expected = old(self)@.on_proof(superblock_number, chain_id, data@, now@);
        let submit_sb_number: u64 = self.state.next_superblock_number().get();
        let mut effects: Vec<Effect> = Vec::new();
        match self.state.collect_proof(superblock_number, chain_id, data, now) {
            Some(proofs) => match validate_mailbox_consistency(&proofs) {
                Ok(()) => {
                    if self.settles_on_l1 {
                        self.state.hand_over();
                        effects.push(
                            Effect::Submit { superblock_number: submit_sb_number, proofs },
                        );
                    }
                },
                Err(_) => {},
            },
            None => {},
        }
        assert(effect_views(effects@) =~= expected.1);
        effects
    }

    /// Records that the settlement layer has confirmed the superblock `submitted`: the
    /// transactions submitted with it are final.
    pub fn settlement_succeeded(&mut self, submitted: u64)
        requires
            old(self).wf(),
            submitted < u64::MAX,
        ensures
            final(self).wf(),
            final(self).generator() == old(self).generator(),
            final(self)@ == old(self)@.with_state(old(self)@.state.settled(submitted)),
    {
        self.state.settle(submitted);
    }

    /// Records that the submission of superblock `submitted` has failed.
    pub fn settlement_failed(&mut self, submitted: u64)
        requires
            old(self).wf(),
        ensures
            final(self).wf(),
            final(self).generator() == old(self).generator(),
            final(self)@ == old(self)@.with_state(old(self)@.state.submission_failed(submitted)),
    {
        self.state.fail_submission(submitted);
    }

    /// Figures about the coordinator.
    pub fn stats(&self) -> (s: CoordinatorStats)
        requires
            self.wf(),
        ensures
            s.registered_chains == self@.state.chain_to_client.len(),
            s.active_2pc_transactions == self@.state.active_xts.len(),
            s.pending_proof_superblocks == self@.state.pending_proofs.len(),
            s.current_period_id == self@.state.current_period_id,
            s.next_superblock_number == self@.state.next_superblock_number,
            s.last_finalized_superblock == self@.state.last_finalized_superblock_number,
            s.messages_processed == self@.messages_processed,
            s.broadcasts_sent == self@.broadcasts_sent,
    {
        CoordinatorStats {
            registered_chains: self.state.registered_count(),
            active_2pc_transactions: self.state.active_count(),
            pending_proof_superblocks: self.state.proof_count(),
            current_period_id: self.state.current_period_id().get(),
            next_superblock_number: self.state.next_superblock_number().get(),
            last_finalized_superblock: self.state.last_finalized_superblock_number(),
            messages_processed: self.messages_processed,
            broadcasts_sent: self.broadcasts_sent,
        }
    }
}

impl<G: Fn(PeriodId, SequenceNumber, &crate::types::XtRequest) -> InstanceId> Coordinator<G> {
    /// Starts an instance for a request that spans at least two chains, unless there
    /// are too many undecided transactions.
    pub fn handle_xt_request(
        &mut self,
        xt_req: crate::messages::XtRequest,
        received_at: Instant,
        now: Instant,
    ) -> (effects: Vec<Effect>)
        requires
            old(self).wf(),
            old(self)@.request_fits(xt_req@),
            generates_always(old(self).generator()),
        ensures
            final(self).wf(),
            final(self).generator() == old(self).generator(),
            if old(self)@.accepts(xt_req@) {
                exists|id: InstanceId| {
                    &&& #[trigger] generated(
                        old(self).generator(),
                        old(self)@.state.current_period_id,
                        old(self)@.state.next_sequence_num,
                        spec_request(xt_req@),
                        id,
                    )
                    &&& (final(self)@, effect_views(effects@)) == old(self)@.on_request(
                        id.0@,
                        xt_req@,
                        received_at@,
                        now@,
                    )
                }
            } else {
                &&& final(self)@ == old(self)@
                &&& effects@.len() == 0
            },
    {
        let mut effects: Vec<Effect> = Vec::new();
        let chains = extract_chains(&xt_req);
        if chains.len() < 2 {
            return effects;
        }
        if self.state.active_count() >= MAX_ACTIVE_XTS {
            return effects;
        }
        proof {
            dedup_properties(
                spec_request(xt_req@).map_values(|t: (ChainId, Seq<Seq<u8>>)| t.0),
            );
        }
        let ghost request = xt_req@;
        let (_xt_id, message) = self.state.prepare_xt(
            xt_req,
            chains,
            received_at,
            now,
            &self.generate_instance_id,
        );
        self.inc_broadcasts(&mut effects);
        effects.push(Effect::Record(MetricUpdate::XtStarted));
        effects.push(Effect::Broadcast(message));
        proof {
            let id = choose|id: InstanceId| {
                &&& #[trigger] generated(
                    old(self).generator(),
                    old(self)@.state.current_period_id,
                    old(self)@.state.next_sequence_num,
                    spec_request(request),
                    id,
                )
                &&& message@ == start_instance_message(
                    id.0@,
                    old(self)@.state.current_period_id,
                    old(self)@.state.next_sequence_num,
                    request,
                )
                &&& self@.state == old(self)@.state.started(
                    id.0@,
                    participants(spec_request(request)),
                    received_at@,
                    now@,
                )
            };
            assert(effect_views(effects@) =~= old(self)@.on_request(
                id.0@,
                request,
                received_at@,
                now@,
            ).1);
        }
        effects
    }
}

} // verus!
