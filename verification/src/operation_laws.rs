//! Laws of the coordinator's operations: what holds of every call, in terms of what the
//! coordinator held before, what it was given, and what it holds and asks for after.

use vstd::prelude::*;
#[allow(unused_imports)]
use vstd::string::*;

#[allow(unused_imports)]
use crate::coordinator::{
    extract_chains, generates_always, proto_to_spec_xt, spec_request, Coordinator,
    CoordinatorStats, CoordinatorView,
};
#[allow(unused_imports)]
use crate::coordinator_model::CoordinatorStateView;
#[allow(unused_imports)]
use crate::effect_laws::{
    announces_overdue, announces_period, announces_request, answers_vote, broadcasts,
    collected_with, collects_proof, complete_proofs_are_submitted, confirmations_lead_to_inclusion,
    coordinators_start_empty, counts_on, drops_overdue, each_overdue_transaction_is_announced_once,
    failed_submission_gives_back, identifiers_are_generated,
    mailbox_messages_reach_their_destination, messages_are_counted,
    numbering_goes_on_after_start_up, overdue_collections_are_rolled_back,
    overdue_transactions_leave, periods_are_announced_in_order, proofs_are_collected,
    publisher_says, records, records_vote, registration_concerns_one_client, relays_mailbox,
    request_is_announced_in_full, request_starts_its_instance_only,
    requests_of_two_chains_are_taken_on, rolls_back_overdue, same_collection, same_counts,
    same_numbers, same_registry, same_settings, same_transactions, sends, settlement_moves_on,
    starts_instance, submissions, submits_proofs, takes_confirmation,
    vote_is_answered_by_its_outcome, vote_moves_its_transaction_only,
};
#[allow(unused_imports)]
use crate::effects::{effect_views, Effect, EffectView, MetricUpdate};
#[allow(unused_imports)]
use crate::handler_laws::{
    clients_are_registered_by_name, handshakes_are_accepted, messages_are_acted_on,
    proofs_count_for_the_senders_chain,
};
#[allow(unused_imports)]
use crate::handlers::{
    dispatch, handle_connect, handle_disconnect, handle_handshake, handle_proof, named_chain,
    on_payload, parse_chain_id, payload_of, ParseChainIdError,
};
#[allow(unused_imports)]
use crate::mailbox::{bare_proof, ProofData, ProofDataView};
#[allow(unused_imports)]
use crate::message_codec::decoded;
#[allow(unused_imports)]
use crate::messages::{
    HandshakeRequest, HandshakeResponseView, MailboxMessage, MessageView, PayloadView, PongView,
    Proof, XtRequestView,
};
#[allow(unused_imports)]
use crate::text::hex_lower;
#[allow(unused_imports)]
use crate::time::{instants_are_bounded, Duration, Instant};
#[allow(unused_imports)]
use crate::types::{ChainId, InstanceId, PeriodId, SequenceNumber, XtRequest};

verus! {

broadcast use Coordinator::wf_is_valid;

/// Whether a request names two different chains.
pub open spec fn spans_two_chains(request: XtRequestView) -> bool {
    exists|i: int, j: int|
        0 <= i < request.transaction_requests.len() && 0 <= j < request.transaction_requests.len()
            && (#[trigger] request.transaction_requests[i]).chain_id != (
        #[trigger] request.transaction_requests[j]).chain_id
}

/// `id` is what `generate` gives an instance with the given place and request.
pub open spec fn named_by<G: Fn(PeriodId, SequenceNumber, &XtRequest) -> InstanceId>(
    generate: G,
    s: CoordinatorStateView,
    request: XtRequestView,
    id: InstanceId,
) -> bool {
    exists|q: XtRequest| {
        &&& #[trigger] generate.ensures(
            (PeriodId(s.current_period_id), SequenceNumber(s.next_sequence_num), &q),
            id,
        )
        &&& q@.len() == request.transaction_requests.len()
        &&& forall|i: int|
            0 <= i < q@.len() ==> (#[trigger] q@[i]).0.0 == request.transaction_requests[i].chain_id
                && q@[i].1 == request.transaction_requests[i].transaction
    }
}

/// Whether a request is taken on and announced with its identifier, or passed over.
pub open spec fn takes_request<G: Fn(PeriodId, SequenceNumber, &XtRequest) -> InstanceId>(
    generate: G,
    c: CoordinatorView,
    after: CoordinatorView,
    effects: Seq<EffectView>,
    request: XtRequestView,
    received_at: nat,
    now: nat,
) -> bool {
    if spans_two_chains(request) && c.state.active_xts.len() < 100 {
        exists|id: InstanceId| {
            &&& #[trigger] named_by(generate, c.state, request, id)
            &&& announces_request(c, after, effects, id.0@, request)
            &&& starts_instance(c, after, id.0@, request, received_at, now)
        }
    } else {
        after == c && effects.len() == 0
    }
}

/// What follows from a request that was taken on or not.
proof fn request_is_taken<G: Fn(PeriodId, SequenceNumber, &XtRequest) -> InstanceId>(
    generate: G,
    c: CoordinatorView,
    after: CoordinatorView,
    effects: Seq<EffectView>,
    request: XtRequestView,
    received_at: nat,
    now: nat,
)
    requires
        c.request_fits(request),
        if c.accepts(request) {
            exists|id: InstanceId| {
                &&& #[trigger] crate::coordinator::generated(
                    generate,
                    c.state.current_period_id,
                    c.state.next_sequence_num,
                    spec_request(request),
                    id,
                )
                &&& (after, effects) == c.on_request(id.0@, request, received_at, now)
            }
        } else {
            after == c && effects.len() == 0
        },
    ensures
        takes_request(generate, c, after, effects, request, received_at, now),
{
    requests_of_two_chains_are_taken_on(c, request);
    if c.accepts(request) {
        let id = choose|id: InstanceId| {
            &&& #[trigger] crate::coordinator::generated(
                generate,
                c.state.current_period_id,
                c.state.next_sequence_num,
                spec_request(request),
                id,
            )
            &&& (after, effects) == c.on_request(id.0@, request, received_at, now)
        };
        let period = c.state.current_period_id;
        let place = c.state.next_sequence_num;
        identifiers_are_generated(generate, period, place, spec_request(request), id);
        let q = choose|q: XtRequest|
            q@ == spec_request(request) && #[trigger] generate.ensures(
                (PeriodId(period), SequenceNumber(place), &q),
                id,
            );
        assert(generate.ensures((PeriodId(period), SequenceNumber(place), &q), id));
        assert(q@.len() == request.transaction_requests.len());
        assert(named_by(generate, c.state, request, id));
        request_is_announced_in_full(c, id.0@, request, received_at, now);
        request_starts_its_instance_only(c, id.0@, request, received_at, now);
    }
}

/// A request is taken on exactly if it names two different chains and fewer than a
/// hundred transactions are undecided. Then the instance that the generator names is
/// announced to all with the request as it came in, and awaits the votes of the chains
/// that the request names.
pub proof fn handling_a_request<G: Fn(PeriodId, SequenceNumber, &XtRequest) -> InstanceId>(
    c: &mut Coordinator<G>,
    xt_req: crate::messages::XtRequest,
    received_at: Instant,
    now: Instant,
    effects: Vec<Effect>,
)
    requires
        old(c)@.request_fits(xt_req@),
        call_ensures(Coordinator::<G>::handle_xt_request, (c, xt_req, received_at, now), effects),
    ensures
        takes_request(
            old(c).generator(),
            old(c)@,
            final(c)@,
            effect_views(effects@),
            xt_req@,
            received_at@,
            now@,
        ),
        final(c).generator() == old(c).generator(),
{
    request_is_taken(
        old(c).generator(),
        old(c)@,
        final(c)@,
        effect_views(effects@),
        xt_req@,
        received_at@,
        now@,
    );
}

/// A vote has the outcome of its instance announced to all, once that is known: an abort
/// with the first no, a commit with the last yes. It moves its transaction on, and no
/// other.
pub proof fn handling_a_vote<G>(
    c: &mut Coordinator<G>,
    id: &[u8],
    chain: ChainId,
    vote: bool,
    now: Instant,
    effects: Vec<Effect>,
)
    requires
        old(c).wf(),
        old(c)@.vote_fits(id@, chain.0, vote),
        call_ensures(Coordinator::<G>::handle_vote, (c, id, chain, vote, now), effects),
    ensures
        answers_vote(old(c)@, final(c)@, effect_views(effects@), id@, chain.0, vote, now@),
        records_vote(old(c)@, final(c)@, id@, chain.0, vote),
{
    instants_are_bounded(now);
    vote_is_answered_by_its_outcome(old(c)@, id@, chain.0, vote, now@);
    vote_moves_its_transaction_only(old(c)@, id@, chain.0, vote, now@);
}

/// Every transaction that has been undecided for too long is announced as aborted, each
/// once, and leaves.
pub proof fn reaping_transactions<G>(c: &mut Coordinator<G>, now: Instant, effects: Vec<Effect>)
    requires
        old(c).wf(),
        call_ensures(Coordinator::<G>::reap_timed_out_xts, (c, now), effects),
    ensures
        announces_overdue(old(c)@, effect_views(effects@), now@),
        drops_overdue(old(c)@, final(c)@, effect_views(effects@), now@),
{
    let list = choose|list: Seq<(Seq<char>, MessageView)>| {
        &&& #[trigger] old(c)@.state.announces_timeouts(list, now@, old(c)@.scp_timeout)
        &&& (final(c)@, effect_views(effects@)) == old(c)@.on_timeouts(list, now@)
    };
    each_overdue_transaction_is_announced_once(old(c)@, list, now@);
    overdue_transactions_leave(old(c)@, list, now@);
}

/// A confirmation is recorded, and the last one has the time until inclusion recorded.
pub proof fn handling_a_confirmation<G>(
    c: &mut Coordinator<G>,
    id: &[u8],
    chain: ChainId,
    now: Instant,
    effects: Vec<Effect>,
)
    requires
        old(c).wf(),
        call_ensures(Coordinator::<G>::handle_confirmed, (c, id, chain, now), effects),
    ensures
        takes_confirmation(old(c)@, final(c)@, effect_views(effects@), id@, chain.0, now@),
{
    instants_are_bounded(now);
    confirmations_lead_to_inclusion(old(c)@, id@, chain.0, now@);
}

/// A mailbox message is passed on to the client of its destination chain.
pub proof fn relaying_a_mailbox_message<G>(
    c: &mut Coordinator<G>,
    mailbox: MailboxMessage,
    effects: Vec<Effect>,
)
    requires
        call_ensures(Coordinator::<G>::handle_mailbox_relay, (c, mailbox), effects),
    ensures
        relays_mailbox(old(c)@, final(c)@, effect_views(effects@), mailbox@),
{
    mailbox_messages_reach_their_destination(old(c)@, mailbox@);
}

/// A ping is answered with its own time.
pub proof fn answering_a_ping<G>(
    c: &Coordinator<G>,
    client_id: &str,
    timestamp: i64,
    effects: Vec<Effect>,
)
    requires
        call_ensures(Coordinator::<G>::handle_ping, (c, client_id, timestamp), effects),
    ensures
        effects@.len() == 1,
        effect_views(effects@)[0] matches EffectView::Send { client_id: to, message } && to
            == client_id@ && publisher_says(message, PayloadView::Pong(PongView { timestamp })),
{
    assert(effect_views(effects@).len() == effects@.len());
}

/// A period is announced under the next number, with the superblock to build.
pub proof fn advancing_the_period<G>(c: &mut Coordinator<G>, effects: Vec<Effect>)
    requires
        old(c).wf(),
        old(c)@.state.current_period_id < u64::MAX,
        call_ensures(Coordinator::<G>::advance_period, (c,), effects),
    ensures
        announces_period(old(c)@, final(c)@, effect_views(effects@)),
{
    periods_are_announced_in_order(old(c)@);
}

/// A proof is collected; once every registered chain has one and their mailboxes agree,
/// they are submitted.
pub proof fn receiving_a_proof<G>(
    c: &mut Coordinator<G>,
    superblock_number: u64,
    chain: u64,
    data: ProofData,
    now: Instant,
    effects: Vec<Effect>,
    proofs: Map<u64, ProofDataView>,
)
    requires
        old(c).wf(),
        collected_with(old(c)@.state, chain, data@, proofs),
        call_ensures(
            Coordinator::<G>::receive_proof,
            (c, superblock_number, chain, data, now),
            effects,
        ),
    ensures
        submits_proofs(old(c)@, final(c)@, effect_views(effects@), chain, data@, proofs),
        collects_proof(
            old(c)@,
            final(c)@,
            effect_views(effects@),
            superblock_number,
            chain,
            data@,
            now@,
        ),
{
    complete_proofs_are_submitted(old(c)@, superblock_number, chain, data@, now@, proofs);
    proofs_are_collected(old(c)@, superblock_number, chain, data@, now@);
}

/// A collection that has lasted for the whole window ends in a rollback.
pub proof fn reaping_proofs<G>(c: &mut Coordinator<G>, now: Instant, effects: Vec<Effect>)
    requires
        old(c).wf(),
        call_ensures(Coordinator::<G>::reap_expired_proofs, (c, now), effects),
    ensures
        rolls_back_overdue(old(c)@, final(c)@, effect_views(effects@), now@),
{
    overdue_collections_are_rolled_back(old(c)@, now@);
}

/// All of a coordinator but its protocol state is the same.
pub open spec fn same_but_state(c: CoordinatorView, d: CoordinatorView) -> bool {
    &&& same_settings(c, d)
    &&& c.messages_processed == d.messages_processed
    &&& c.broadcasts_sent == d.broadcasts_sent
}

/// A confirmed superblock becomes the newest settled one, and makes the transactions in
/// its submission final.
pub proof fn settling<G>(c: &mut Coordinator<G>, sb: u64)
    requires
        old(c).wf(),
        sb < u64::MAX,
        call_ensures(Coordinator::<G>::settlement_succeeded, (c, sb), ()),
    ensures
        ({
            let s = old(c)@.state;
            let t = final(c)@.state;
            &&& same_but_state(old(c)@, final(c)@)
            &&& same_registry(s, t)
            &&& same_transactions(s, t)
            &&& same_collection(s, t)
            &&& t.current_period_id == s.current_period_id
            &&& t.next_sequence_num == s.next_sequence_num
            &&& t.last_finalized_superblock_hash == s.last_finalized_superblock_hash
            &&& t.last_finalized_superblock_number == sb
            &&& t.next_superblock_number == sb + 1
            &&& t.committed_xts == s.committed_xts
            &&& if sb > s.last_finalized_superblock_number {
                &&& t.submitted_xts == 0
                &&& t.current_period_finalized_xts == s.current_period_finalized_xts
                    + s.submitted_xts
            } else {
                &&& t.submitted_xts == s.submitted_xts
                &&& t.current_period_finalized_xts == s.current_period_finalized_xts
            }
        }),
{
    settlement_moves_on(old(c)@.state, sb);
}

/// A failed submission gives its transactions back to the next one.
pub proof fn failing_to_settle<G>(c: &mut Coordinator<G>, sb: u64)
    requires
        old(c).wf(),
        call_ensures(Coordinator::<G>::settlement_failed, (c, sb), ()),
    ensures
        ({
            let s = old(c)@.state;
            let t = final(c)@.state;
            &&& same_but_state(old(c)@, final(c)@)
            &&& same_registry(s, t)
            &&& same_numbers(s, t)
            &&& same_transactions(s, t)
            &&& same_collection(s, t)
            &&& t.current_period_finalized_xts == s.current_period_finalized_xts
            &&& if sb > s.last_finalized_superblock_number {
                t.submitted_xts == 0 && t.committed_xts == s.committed_xts + s.submitted_xts
            } else {
                same_counts(s, t)
            }
        }),
{
    failed_submission_gives_back(old(c)@.state, sb);
}

/// At start-up numbering goes on after the newest superblock that the settlement layer
/// reports; where it reports none, nothing changes.
pub proof fn initializing<G>(c: &mut Coordinator<G>, latest: Option<(u64, [u8; 32])>)
    requires
        old(c).wf(),
        latest matches Some(l) ==> l.0 < u64::MAX,
        call_ensures(Coordinator::<G>::init_from_l1, (c, latest), ()),
    ensures
        same_but_state(old(c)@, final(c)@),
        match latest {
            Some(l) => {
                &&& final(c)@.state.last_finalized_superblock_number == l.0
                &&& final(c)@.state.next_superblock_number == l.0 + 1
                &&& final(c)@.state.last_finalized_superblock_hash == l.1@
                &&& final(c)@.state.current_period_id == old(c)@.state.current_period_id
                &&& final(c)@.state.next_sequence_num == old(c)@.state.next_sequence_num
                &&& same_registry(old(c)@.state, final(c)@.state)
                &&& same_transactions(old(c)@.state, final(c)@.state)
                &&& same_collection(old(c)@.state, final(c)@.state)
            },
            None => final(c)@ == old(c)@,
        },
{
    if let Some(l) = latest {
        numbering_goes_on_after_start_up(old(c)@.state, l.0, l.1@);
    }
}

/// Whether, from `s` to `t`, `client` has registered for `chain`.
pub open spec fn registers(
    s: CoordinatorStateView,
    t: CoordinatorStateView,
    client: Seq<char>,
    chain: u64,
) -> bool {
    &&& same_numbers(s, t)
    &&& same_transactions(s, t)
    &&& same_counts(s, t)
    &&& same_collection(s, t)
    &&& t.client_to_chain.contains_key(client)
    &&& t.client_to_chain[client] == chain
    &&& forall|other: Seq<char>|
        other != client ==> {
            &&& #[trigger] t.client_to_chain.contains_key(other) == s.client_to_chain.contains_key(
                other,
            )
            &&& s.client_to_chain.contains_key(other) ==> t.client_to_chain[other]
                == s.client_to_chain[other]
        }
    &&& t.chain_to_client.contains_key(chain)
    &&& t.chain_to_client[chain] == client
    &&& forall|k: u64|
        k != chain ==> {
            &&& #[trigger] t.chain_to_client.contains_key(k) == (s.chain_to_client.contains_key(k)
                && !(s.client_to_chain.contains_key(client) && s.client_to_chain[client] == k))
            &&& t.chain_to_client.contains_key(k) ==> t.chain_to_client[k] == s.chain_to_client[k]
        }
}

/// A client that registers speaks for its chain from then on.
pub proof fn registering_a_chain<G>(c: &mut Coordinator<G>, client_id: &str, chain: ChainId)
    requires
        old(c).wf(),
        call_ensures(Coordinator::<G>::register_chain, (c, client_id, chain), ()),
    ensures
        same_but_state(old(c)@, final(c)@),
        registers(old(c)@.state, final(c)@.state, client_id@, chain.0),
{
    registration_concerns_one_client(old(c)@.state, client_id@, chain.0);
}

/// A new coordinator holds nothing, and has the time limits that it was given.
pub proof fn creating<G>(
    generate: G,
    scp_timeout: Duration,
    proof_window: Duration,
    c: Coordinator<G>,
)
    requires
        call_ensures(Coordinator::<G>::new, (generate, scp_timeout, proof_window), c),
    ensures
        c.generator() == generate,
        c@.scp_timeout == scp_timeout@,
        c@.proof_window == proof_window@,
        !c@.settles_on_l1,
        c@.messages_processed == 0,
        c@.broadcasts_sent == 0,
        c@.state.chain_to_client.dom() == Set::<u64>::empty(),
        c@.state.client_to_chain.dom() == Set::<Seq<char>>::empty(),
        c@.state.active_xts.dom() == Set::<Seq<char>>::empty(),
        c@.state.pending_confirmations.dom() == Set::<Seq<char>>::empty(),
        c@.state.pending_proofs.dom() == Set::<u64>::empty(),
        c@.state.proof_collection_started is None,
        c@.state.current_period_id == 0,
        c@.state.next_sequence_num == 1,
        c@.state.next_superblock_number == 1,
        c@.state.last_finalized_superblock_number == 0,
        c@.state.last_finalized_superblock_hash.len() == 0,
        c@.state.counted() == 0,
{
    coordinators_start_empty(scp_timeout@, proof_window@);
}

/// Settlement is switched on, and nothing else changes.
pub proof fn switching_settlement_on<G>(before: Coordinator<G>, c: Coordinator<G>)
    requires
        call_ensures(Coordinator::<G>::with_l1_submitter, (before,), c),
    ensures
        c@.settles_on_l1,
        c@.state == before@.state,
        c@.scp_timeout == before@.scp_timeout,
        c@.proof_window == before@.proof_window,
        c@.messages_processed == before@.messages_processed,
        c@.broadcasts_sent == before@.broadcasts_sent,
        c.generator() == before.generator(),
{
}

/// The figures are those of what the coordinator holds.
pub proof fn figures<G>(c: &Coordinator<G>, s: CoordinatorStats)
    requires
        call_ensures(Coordinator::<G>::stats, (c,), s),
    ensures
        s.registered_chains == c@.state.chain_to_client.dom().len(),
        s.active_2pc_transactions == c@.state.active_xts.dom().len(),
        s.pending_proof_superblocks == c@.state.pending_proofs.dom().len(),
        s.current_period_id == c@.state.current_period_id,
        s.next_superblock_number == c@.state.next_superblock_number,
        s.last_finalized_superblock == c@.state.last_finalized_superblock_number,
        s.messages_processed == c@.messages_processed,
        s.broadcasts_sent == c@.broadcasts_sent,
{
}

/// What the coordinator tells about chains, clients and the next superblock is what it
/// holds.
pub proof fn lookups<G>(
    c: &Coordinator<G>,
    chain: ChainId,
    registered: bool,
    client_id: &str,
    found: Option<ChainId>,
    next: u64,
)
    requires
        call_ensures(Coordinator::<G>::is_chain_registered, (c, chain), registered),
        call_ensures(Coordinator::<G>::chain_for_client, (c, client_id), found),
        call_ensures(Coordinator::<G>::current_superblock_number, (c,), next),
    ensures
        registered == c@.state.chain_to_client.dom().contains(chain.0),
        match found {
            Some(k) => c@.state.client_to_chain.contains_pair(client_id@, k.0),
            None => !c@.state.client_to_chain.contains_key(client_id@),
        },
        next == c@.state.next_superblock_number,
{
}

/// A message that comes in is counted, and recorded as such.
pub proof fn counting_a_message<G>(c: &mut Coordinator<G>, effects: Vec<Effect>)
    requires
        call_ensures(Coordinator::<G>::inc_messages, (c,), effects),
    ensures
        final(c)@.state == old(c)@.state,
        same_settings(old(c)@, final(c)@),
        final(c)@.broadcasts_sent == old(c)@.broadcasts_sent,
        counts_on(old(c)@.messages_processed, final(c)@.messages_processed),
        effects@.len() == 1,
        effect_views(effects@)[0] == EffectView::Record(MetricUpdate::MessageReceived),
{
    messages_are_counted(old(c)@);
    assert(effect_views(effects@).len() == effects@.len());
}

/// Whether `client` is registered for the chain that `name` names, from `c` to `after`.
pub open spec fn registers_by_name(
    c: CoordinatorView,
    after: CoordinatorView,
    client: Seq<char>,
    name: Seq<char>,
) -> bool {
    match named_chain(name) {
        Some(n) => n <= u64::MAX && same_but_state(c, after) && registers(
            c.state,
            after.state,
            client,
            n as u64,
        ),
        None => after == c,
    }
}

/// Registering by name registers for the chain that the name names.
proof fn registered_for_the_named_chain(
    c: CoordinatorView,
    client: Seq<char>,
    name: Seq<char>,
)
    requires
        c.state.valid(),
    ensures
        registers_by_name(
            c,
            crate::handlers::registered_by_name(c, client, name),
            client,
            name,
        ),
{
    clients_are_registered_by_name(c, client, name);
    if let Some(n) = named_chain(name) {
        registration_concerns_one_client(c.state, client, n as u64);
    }
}

/// A connection is counted, and its client speaks for the chain that its identifier
/// names.
pub proof fn connecting<G>(c: &mut Coordinator<G>, client_id: &str, effects: Vec<Effect>)
    requires
        old(c).wf(),
        call_ensures(handle_connect::<G>, (c, client_id), effects),
    ensures
        registers_by_name(old(c)@, final(c)@, client_id@, client_id@),
        effects@.len() == 1,
        effect_views(effects@)[0] == EffectView::Record(MetricUpdate::ConnectionOpened),
{
    registered_for_the_named_chain(old(c)@, client_id@, client_id@);
    assert(effect_views(effects@).len() == effects@.len());
}

/// A connection that ends is no longer counted.
pub proof fn disconnecting(effects: Vec<Effect>)
    requires
        call_ensures(handle_disconnect, (), effects),
    ensures
        effects@.len() == 1,
        effect_views(effects@)[0] == EffectView::Record(MetricUpdate::ConnectionClosed),
{
    assert(effect_views(effects@).len() == effects@.len());
}

/// Whether a handshake is accepted, from `c` to `after`.
pub open spec fn accepts_handshake(
    c: CoordinatorView,
    after: CoordinatorView,
    effects: Seq<EffectView>,
    client: Seq<char>,
    name: Seq<char>,
) -> bool {
    &&& registers_by_name(c, after, client, name)
    &&& effects.len() == 1
    &&& effects[0] matches EffectView::Send { client_id: to, message } && to == client
        && publisher_says(
        message,
        PayloadView::HandshakeResponse(
            HandshakeResponseView { accepted: true, error: Seq::empty(), session_id: client },
        ),
    )
}

/// A handshake is accepted, and its client speaks for the chain that it names.
pub proof fn shaking_hands<G>(
    c: &mut Coordinator<G>,
    client_id: &str,
    req: &HandshakeRequest,
    effects: Vec<Effect>,
)
    requires
        old(c).wf(),
        call_ensures(handle_handshake::<G>, (c, client_id, req), effects),
    ensures
        accepts_handshake(
            old(c)@,
            final(c)@,
            effect_views(effects@),
            client_id@,
            req.client_id@,
        ),
{
    registered_for_the_named_chain(old(c)@, client_id@, req.client_id@);
    handshakes_are_accepted(old(c)@, client_id@, req@);
}

/// Whether a proof that `client` hands in counts for its chain, from `c` to `after`.
pub open spec fn takes_client_proof(
    c: CoordinatorView,
    after: CoordinatorView,
    effects: Seq<EffectView>,
    client: Seq<char>,
    superblock_number: u64,
    compressed: Seq<u8>,
    now: nat,
) -> bool {
    if c.state.client_to_chain.contains_key(client) {
        let chain = c.state.client_to_chain[client];
        let data = bare_proof(compressed);
        &&& collects_proof(c, after, effects, superblock_number, chain, data, now)
        &&& forall|proofs: Map<u64, ProofDataView>| #[trigger]
            collected_with(c.state, chain, data, proofs) ==> submits_proofs(
                c,
                after,
                effects,
                chain,
                data,
                proofs,
            )
    } else {
        after == c && effects.len() == 0
    }
}

/// What follows from a proof that a client hands in.
proof fn client_proof_is_taken(
    c: CoordinatorView,
    client: Seq<char>,
    p: crate::messages::ProofView,
    now: nat,
)
    requires
        c.state.valid(),
    ensures
        takes_client_proof(
            c,
            crate::handlers::on_client_proof(c, client, p, now).0,
            crate::handlers::on_client_proof(c, client, p, now).1,
            client,
            p.superblock_number,
            p.proof_data,
            now,
        ),
{
    let chain = c.state.client_to_chain[client];
    proofs_count_for_the_senders_chain(c, client, p, now, chain);
    if c.state.client_to_chain.contains_key(client) {
        let data = bare_proof(p.proof_data);
        proofs_are_collected(c, p.superblock_number, chain, data, now);
        assert forall|proofs: Map<u64, ProofDataView>| #[trigger]
            collected_with(c.state, chain, data, proofs) implies submits_proofs(
            c,
            c.on_proof(p.superblock_number, chain, data, now).0,
            c.on_proof(p.superblock_number, chain, data, now).1,
            chain,
            data,
            proofs,
        ) by {
            complete_proofs_are_submitted(c, p.superblock_number, chain, data, now, proofs);
        }
    }
}

/// A proof that a client hands in counts for the chain that the client has registered
/// for.
pub proof fn handling_a_proof<G>(
    c: &mut Coordinator<G>,
    client_id: &str,
    proof_msg: Proof,
    now: Instant,
    effects: Vec<Effect>,
)
    requires
        old(c).wf(),
        call_ensures(handle_proof::<G>, (c, client_id, proof_msg, now), effects),
    ensures
        takes_client_proof(
            old(c)@,
            final(c)@,
            effect_views(effects@),
            client_id@,
            proof_msg.superblock_number,
            proof_msg.proof_data@,
            now@,
        ),
{
    client_proof_is_taken(old(c)@, client_id@, proof_msg@, now@);
}

/// An inbound message is counted, and acted on as what its bytes decode to; one that
/// cannot be decoded, carries nothing, or carries what only the publisher sends changes
/// nothing else.
pub proof fn dispatching<G: Fn(PeriodId, SequenceNumber, &XtRequest) -> InstanceId>(
    c: &mut Coordinator<G>,
    client_id: &str,
    data: &[u8],
    received_at: Instant,
    now: Instant,
    effects: Vec<Effect>,
)
    requires
        old(c).wf(),
        crate::handlers::payload_fits(old(c)@, payload_of(data@)),
        call_ensures(dispatch::<G>, (c, client_id, data, received_at, now), effects),
    ensures
        ({
            let before = CoordinatorView {
                messages_processed: ((old(c)@.messages_processed + 1) % 0x1_0000_0000_0000_0000) as u64,
                ..old(c)@
            };
            let after = final(c)@;
            let all = effect_views(effects@);
            let rest = all.drop_first();
            let client = client_id@;
            &&& all.len() > 0
            &&& all[0] == EffectView::Record(MetricUpdate::MessageReceived)
            &&& match decoded(data@) {
                Some(MessageView { sender_id, payload: Some(PayloadView::Vote(v)) }) => {
                    &&& answers_vote(before, after, rest, v.instance_id, v.chain_id, v.vote, now@)
                    &&& records_vote(before, after, v.instance_id, v.chain_id, v.vote)
                },
                Some(MessageView { sender_id, payload: Some(PayloadView::XtRequest(v)) }) =>
                    takes_request(
                    old(c).generator(),
                    before,
                    after,
                    rest,
                    v,
                    received_at@,
                    now@,
                ),
                Some(MessageView { sender_id, payload: Some(PayloadView::Confirmed(v)) }) =>
                    takes_confirmation(before, after, rest, v.instance_id, v.chain_id, now@),
                Some(MessageView { sender_id, payload: Some(PayloadView::MailboxMessage(v)) }) =>
                    relays_mailbox(before, after, rest, v),
                Some(MessageView { sender_id, payload: Some(PayloadView::Proof(v)) }) =>
                    takes_client_proof(
                    before,
                    after,
                    rest,
                    client,
                    v.superblock_number,
                    v.proof_data,
                    now@,
                ),
                Some(MessageView { sender_id, payload: Some(PayloadView::HandshakeRequest(v)) }) =>
                    accepts_handshake(before, after, rest, client, v.client_id),
                Some(MessageView { sender_id, payload: Some(PayloadView::Ping(v)) }) => {
                    &&& after == before
                    &&& rest.len() == 1
                    &&& rest[0] matches EffectView::Send { client_id: to, message } && to == client
                        && publisher_says(
                        message,
                        PayloadView::Pong(PongView { timestamp: v.timestamp }),
                    )
                },
                _ => after == before && rest.len() == 0,
            }
        }),
{
    let before = old(c)@.message_counted();
    messages_are_counted(old(c)@);
    let rest = effect_views(effects@).drop_first();
    let payload = payload_of(data@);
    let client = client_id@;
    instants_are_bounded(now);
    messages_are_acted_on(
        before,
        old(c).generator(),
        client,
        payload,
        received_at@,
        now@,
        final(c)@,
        rest,
    );
    assert(before.state == old(c)@.state);
    match payload {
        Some(PayloadView::Vote(v)) => {
            vote_is_answered_by_its_outcome(before, v.instance_id, v.chain_id, v.vote, now@);
            vote_moves_its_transaction_only(before, v.instance_id, v.chain_id, v.vote, now@);
        },
        Some(PayloadView::XtRequest(v)) => {
            request_is_taken(
                old(c).generator(),
                before,
                final(c)@,
                rest,
                v,
                received_at@,
                now@,
            );
        },
        Some(PayloadView::Confirmed(v)) => {
            confirmations_lead_to_inclusion(before, v.instance_id, v.chain_id, now@);
        },
        Some(PayloadView::MailboxMessage(v)) => {
            mailbox_messages_reach_their_destination(before, v);
        },
        Some(PayloadView::Proof(v)) => {
            client_proof_is_taken(before, client, v, now@);
        },
        Some(PayloadView::HandshakeRequest(v)) => {
            registered_for_the_named_chain(before, client, v.client_id);
            handshakes_are_accepted(before, client, v);
        },
        _ => {},
    }
}

/// An identifier is read as the chain that its leading digits number, and refused with
/// the identifier itself where there is none.
pub proof fn parsing_a_chain(client_id: &str, r: Result<ChainId, ParseChainIdError>)
    requires
        call_ensures(parse_chain_id, (client_id,), r),
    ensures
        match r {
            Ok(chain) => named_chain(client_id@) == Some(chain.0 as nat),
            Err(e) => named_chain(client_id@) is None && e.0@ == client_id@,
        },
{
}

/// The chains of a request are those that it names, each once.
pub proof fn extracting_chains(req: &crate::messages::XtRequest, chains: Vec<ChainId>, k: u64)
    requires
        call_ensures(extract_chains, (req,), chains),
    ensures
        chains@ == crate::types::participants(spec_request(req@)),
        chains@.no_duplicates(),
        chains@.contains(ChainId(k)) <==> exists|i: int|
            0 <= i < req.transaction_requests.len() && (
            #[trigger] req.transaction_requests[i]).chain_id == k,
{
    let request = spec_request(req@);
    crate::types::participants_are_the_named_chains(request, ChainId(k));
    if exists|i: int| 0 <= i < request.len() && (#[trigger] request[i]).0 == ChainId(k) {
        let i = choose|i: int| 0 <= i < request.len() && (#[trigger] request[i]).0 == ChainId(k);
        assert(req.transaction_requests[i].chain_id == k);
    }
    if exists|i: int|
        0 <= i < req.transaction_requests.len() && (#[trigger] req.transaction_requests[i]).chain_id
            == k {
        let i = choose|i: int|
            0 <= i < req.transaction_requests.len() && (
            #[trigger] req.transaction_requests[i]).chain_id == k;
        assert(request[i].0 == ChainId(k));
    }
}

/// The protocol layer's form of a request has the same entries.
pub proof fn converting_a_request(req: &crate::messages::XtRequest, r: XtRequest, i: int, k: int)
    requires
        call_ensures(proto_to_spec_xt, (req,), r),
        0 <= i < req.transaction_requests.len(),
        0 <= k < req.transaction_requests[i].transaction.len(),
    ensures
        r.transactions.len() == req.transaction_requests.len(),
        r.transactions[i].chain_id == ChainId(req.transaction_requests[i].chain_id),
        r.transactions[i].transactions.len() == req.transaction_requests[i].transaction.len(),
        r.transactions[i].transactions[k]@ == req.transaction_requests[i].transaction[k]@,
{
    assert(r@.len() == spec_request(req@).len());
    assert(r@[i] == spec_request(req@)[i]);
    assert(r@[i].1 == req@.transaction_requests[i].transaction);
    assert(r@[i].1[k] == req@.transaction_requests[i].transaction[k]);
    assert(r.transactions[i]@ == r@[i]);
    assert(r@[i].1[k] == r.transactions[i].transactions[k]@);
}

/// Room is asked for only where something is to be counted: for another number where a
/// request is taken on, and for another commit where a vote is the last yes.
pub proof fn room_is_needed_where_counts_go_up(
    c: CoordinatorView,
    request: XtRequestView,
    id: Seq<u8>,
    chain: u64,
    vote: bool,
)
    requires
        c.state.valid(),
    ensures
        c.request_fits(request) <==> !spans_two_chains(request) || c.state.active_xts.len() >= 100
            || c.state.next_sequence_num < u64::MAX,
        c.vote_fits(id, chain, vote) <==> !vote || !crate::effect_laws::may_vote(
            c.state,
            hex_lower(id),
            chain,
        ) || !crate::effect_laws::others_agreed(c.state, hex_lower(id), chain)
            || c.state.committed_xts + c.state.submitted_xts + c.state.current_period_finalized_xts
            < u64::MAX,
{
    requests_of_two_chains_are_taken_on(c, request);
    crate::effect_laws::outcome_of_a_vote(c.state, hex_lower(id), chain, vote);
}

/// The checks for room tell whether there is.
pub proof fn checking_for_room<G>(
    c: &Coordinator<G>,
    period: bool,
    both: bool,
    xt_req: &crate::messages::XtRequest,
    request: bool,
    id: &[u8],
    chain: ChainId,
    vote: bool,
    voted: bool,
    data: &[u8],
    message: bool,
)
    requires
        call_ensures(Coordinator::<G>::has_period_headroom, (c,), period),
        call_ensures(Coordinator::<G>::has_headroom, (c,), both),
        call_ensures(Coordinator::<G>::check_request_fits, (c, xt_req), request),
        call_ensures(Coordinator::<G>::check_vote_fits, (c, id, chain, vote), voted),
        call_ensures(crate::handlers::check_payload_fits::<G>, (c, data), message),
    ensures
        period == (c@.state.current_period_id < u64::MAX),
        both == (c@.state.next_sequence_num < u64::MAX && c@.state.counted() < u64::MAX),
        request == c@.request_fits(xt_req@),
        voted == c@.vote_fits(id@, chain.0, vote),
        message == (match payload_of(data@) {
            Some(PayloadView::Vote(v)) => c@.vote_fits(v.instance_id, v.chain_id, v.vote),
            Some(PayloadView::XtRequest(v)) => c@.request_fits(v),
            _ => true,
        }),
{
}

} // verus!
