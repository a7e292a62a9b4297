//! What becomes of connections and inbound messages.

use vstd::prelude::*;
use vstd::string::*;

use crate::coordinator::Coordinator;
#[allow(unused_imports)]
use crate::coordinator::{generated, generates_always, spec_request, CoordinatorView};
#[allow(unused_imports)]
use crate::effects::{effect_views, EffectView};
use crate::effects::{Effect, MetricUpdate};
use crate::mailbox::ProofData;
#[allow(unused_imports)]
use crate::mailbox::bare_proof;
#[allow(unused_imports)]
use crate::message_codec::{decoded, decoded_identifiers_are_bounded, identifier_bounded};
#[allow(unused_imports)]
use crate::messages::{
    from_publisher, HandshakeRequestView, HandshakeResponseView, PayloadView, PongView, ProofView,
};
use crate::messages::{HandshakeRequest, HandshakeResponse, Message, Payload, Proof};
#[allow(unused_imports)]
use crate::text::number_prefix;
use crate::text::parse_number_prefix;
use crate::time::Instant;
use crate::types::{ChainId, InstanceId, PeriodId, SequenceNumber, XtRequest};

verus! {

/// The text holds no chain number at its start.
#[derive(Debug)]
pub struct ParseChainIdError(pub String);

/// The error's text for `client_id`.
pub open spec fn parse_chain_id_error_text(client_id: Seq<char>) -> Seq<char> {
    "no numeric chain ID prefix in '"@ + client_id + "'"@
}

impl ParseChainIdError {
    /// The error as a sentence.
    pub fn message(&self) -> (text: String)
        ensures
            text@ == parse_chain_id_error_text(self.0@),
    {
        let mut text = "no numeric chain ID prefix in '".to_string();
        text.append(self.0.as_str());
        text.append("'");
        text
    }
}

/// The chain that a client's identifier names: the number made of its leading
/// decimal digits, where there are any and the number has 64 bits at most.
pub open spec fn named_chain(client_id: Seq<char>) -> Option<nat> {
    number_prefix(client_id, u64::MAX as nat)
}

/// The chain that a client's identifier names.
pub fn parse_chain_id(client_id: &str) -> (r: Result<ChainId, ParseChainIdError>)
    ensures
        match named_chain(client_id@) {
            Some(n) => r is Ok && r->Ok_0.0 == n,
            None => r is Err && r->Err_0.0@ == client_id@,
        },
{
    match parse_number_prefix(client_id) {
        Some(n) => Ok(ChainId::new(n)),
        None => Err(ParseChainIdError(client_id.to_string())),
    }
}

/// The coordinator after `client_id` was registered for the chain that `name`
/// names, where it names one.
pub open spec fn registered_by_name(
    before: CoordinatorView,
    client_id: Seq<char>,
    name: Seq<char>,
) -> CoordinatorView {
    match named_chain(name) {
        Some(n) => before.with_state(before.state.registered(client_id, n as u64)),
        None => before,
    }
}

/// What follows from a handshake of `client_id`: it is registered for the chain
/// that it names, and always accepted.
pub open spec fn on_handshake(
    before: CoordinatorView,
    client_id: Seq<char>,
    req: HandshakeRequestView,
) -> (CoordinatorView, Seq<EffectView>) {
    (
        registered_by_name(before, client_id, req.client_id),
        seq![
            EffectView::Send {
                client_id,
                message: from_publisher(
                    PayloadView::HandshakeResponse(
                        HandshakeResponseView {
                            accepted: true,
                            error: Seq::empty(),
                            session_id: client_id,
                        },
                    ),
                ),
            },
        ],
    )
}

/// What follows from a proof that `client_id` hands in: it counts as the proof of
/// the chain that the client has registered for, where there is one.
pub open spec fn on_client_proof(
    before: CoordinatorView,
    client_id: Seq<char>,
    proof: ProofView,
    now: nat,
) -> (CoordinatorView, Seq<EffectView>) {
    if before.state.client_to_chain.contains_key(client_id) {
        before.on_proof(
            proof.superblock_number,
            before.state.client_to_chain[client_id],
            bare_proof(proof.proof_data),
            now,
        )
    } else {
        (before, Seq::empty())
    }
}

/// What follows from an inbound message, the count of which has been taken. A
/// message that could not be decoded, one without a payload and one that only the
/// publisher sends are passed over.
pub open spec fn on_payload<G: Fn(PeriodId, SequenceNumber, &XtRequest) -> InstanceId>(
    before: CoordinatorView,
    generate: G,
    client_id: Seq<char>,
    payload: Option<PayloadView>,
    received_at: nat,
    now: nat,
    step: (CoordinatorView, Seq<EffectView>),
) -> bool {
    match payload {
        Some(PayloadView::Vote(vote)) => step == before.on_vote(
            vote.instance_id,
            vote.chain_id,
            vote.vote,
            now,
        ),
        Some(PayloadView::XtRequest(request)) => if before.accepts(request) {
            exists|id: InstanceId| {
                &&& #[trigger] generated(
                    generate,
                    before.state.current_period_id,
                    before.state.next_sequence_num,
                    spec_request(request),
                    id,
                )
                &&& step == before.on_request(id.0@, request, received_at, now)
            }
        } else {
            step == (before, Seq::<EffectView>::empty())
        },
        Some(PayloadView::Ping(ping)) => step == (
            before,
            seq![
                EffectView::Send {
                    client_id,
                    message: from_publisher(
                        PayloadView::Pong(PongView { timestamp: ping.timestamp }),
                    ),
                },
            ],
        ),
        Some(PayloadView::HandshakeRequest(req)) => step == on_handshake(before, client_id, req),
        Some(PayloadView::MailboxMessage(mailbox)) => step == before.on_mailbox(mailbox),
        Some(PayloadView::Proof(proof)) => step == on_client_proof(before, client_id, proof, now),
        Some(PayloadView::Confirmed(confirmed)) => step == before.on_confirmed(
            confirmed.instance_id,
            confirmed.chain_id,
            now,
        ),
        _ => step == (before, Seq::<EffectView>::empty()),
    }
}

/// The payload of the message that `data` stand for.
pub open spec fn payload_of(data: Seq<u8>) -> Option<PayloadView> {
    match decoded(data) {
        Some(m) => m.payload,
        None => None,
    }
}

/// Whether no counter overflows when a message with `payload` is acted on.
pub open spec fn payload_fits(before: CoordinatorView, payload: Option<PayloadView>) -> bool {
    match payload {
        Some(PayloadView::Vote(vote)) => before.vote_fits(
            vote.instance_id,
            vote.chain_id,
            vote.vote,
        ),
        Some(PayloadView::XtRequest(request)) => before.request_fits(request),
        _ => true,
    }
}

/// Registers `client_id` for the chain that `name` names.
fn register_by_name<G>(coordinator: &mut Coordinator<G>, client_id: &str, name: &str)
    requires
        old(coordinator).wf(),
    ensures
        final(coordinator).wf(),
        final(coordinator).generator() == old(coordinator).generator(),
        final(coordinator)@ == registered_by_name(old(coordinator)@, client_id@, name@),
{
    match parse_chain_id(name) {
        Ok(chain_id) => coordinator.register_chain(client_id, chain_id),
        Err(_) => {},
    }
}

/// Acts on a new connection: it is counted, and its client is registered for the
/// chain that the client's identifier names.
pub fn handle_connect<G>(coordinator: &mut Coordinator<G>, client_id: &str) -> (effects: Vec<
    Effect,
>)
    requires
        old(coordinator).wf(),
    ensures
        final(coordinator).wf(),
        final(coordinator).generator() == old(coordinator).generator(),
        final(coordinator)@ == registered_by_name(old(coordinator)@, client_id@, client_id@),
        effect_views(effects@) == seq![EffectView::Record(MetricUpdate::ConnectionOpened)],
{
    register_by_name(coordinator, client_id, client_id);
    let effects = vec![Effect::Record(MetricUpdate::ConnectionOpened)];
    assert(effect_views(effects@) =~= seq![EffectView::Record(MetricUpdate::ConnectionOpened)]);
    effects
}

/// Acts on the end of a connection: it is no longer counted, and its client stays
/// registered.
pub fn handle_disconnect() -> (effects: Vec<Effect>)
    ensures
        effect_views(effects@) == seq![EffectView::Record(MetricUpdate::ConnectionClosed)],
{
    let effects = vec![Effect::Record(MetricUpdate::ConnectionClosed)];
    assert(effect_views(effects@) =~= seq![EffectView::Record(MetricUpdate::ConnectionClosed)]);
    effects
}

/// Acts on a handshake of the client `client_id`.
pub fn handle_handshake<G>(
    coordinator: &mut Coordinator<G>,
    client_id: &str,
    req: &HandshakeRequest,
) -> (effects: Vec<Effect>)
    requires
        old(coordinator).wf(),
    ensures
        final(coordinator).wf(),
        final(coordinator).generator() == old(coordinator).generator(),
        (final(coordinator)@, effect_views(effects@)) == on_handshake(
            old(coordinator)@,
            client_id@,
            req@,
        ),
{
    if !req.client_id.as_str().is_empty() {
        register_by_name(coordinator, client_id, req.client_id.as_str());
    }
    let response = Message::from_publisher(
        Payload::HandshakeResponse(
            HandshakeResponse {
                accepted: true,
                error: String::new(),
                session_id: client_id.to_string(),
            },
        ),
    );
    let effects = vec![Effect::Send { client_id: client_id.to_string(), message: response }];
    assert(effect_views(effects@) =~= on_handshake(old(coordinator)@, client_id@, req@).1);
    effects
}

/// Acts on a proof that the client `client_id` hands in. The message names no
/// chain, so the proof counts for the one that the client has registered for.
pub fn handle_proof<G>(
    coordinator: &mut Coordinator<G>,
    client_id: &str,
    proof_msg: Proof,
    now: Instant,
) -> (effects: Vec<Effect>)
    requires
        old(coordinator).wf(),
    ensures
        final(coordinator).wf(),
        final(coordinator).generator() == old(coordinator).generator(),
        (final(coordinator)@, effect_views(effects@)) == on_client_proof(
            old(coordinator)@,
            client_id@,
            proof_msg@,
            now@,
        ),
{
    match coordinator.chain_for_client(client_id) {
        Some(chain_id) => coordinator.receive_proof(
            proof_msg.superblock_number,
            chain_id.get(),
            ProofData::bare(proof_msg.proof_data),
            now,
        ),
        None => {
            let effects: Vec<Effect> = Vec::new();
            assert(effect_views(effects@) =~= Seq::empty());
            effects
        },
    }
}

/// Whether no counter overflows when the inbound message that `data` stand for is
/// acted on.
pub fn check_payload_fits<G>(coordinator: &Coordinator<G>, data: &[u8]) -> (r: bool)
    requires
        coordinator.wf(),
        2 * data@.len() <= isize::MAX,
    ensures
        r == payload_fits(coordinator@, payload_of(data@)),
{
    if coordinator.has_headroom() {
        return true;
    }
    proof {
        decoded_identifiers_are_bounded(data@);
    }
    match Message::decode(data) {
        Ok(Message { sender_id: _, payload: Some(payload) }) => match payload {
            Payload::Vote(vote) => coordinator.check_vote_fits(
                vote.instance_id.as_slice(),
                ChainId::new(vote.chain_id),
                vote.vote,
            ),
            Payload::XtRequest(xt_req) => coordinator.check_request_fits(&xt_req),
            _ => true,
        },
        _ => true,
    }
}

/// Acts on the inbound message of the client `client_id` that `data` stand for.
pub fn dispatch<G: Fn(PeriodId, SequenceNumber, &XtRequest) -> InstanceId>(
    coordinator: &mut Coordinator<G>,
    client_id: &str,
    data: &[u8],
    received_at: Instant,
    now: Instant,
) -> (effects: Vec<Effect>)
    requires
        old(coordinator).wf(),
        generates_always(old(coordinator).generator()),
        payload_fits(old(coordinator)@, payload_of(data@)),
        2 * data@.len() <= isize::MAX,
    ensures
        final(coordinator).wf(),
        final(coordinator).generator() == old(coordinator).generator(),
        effects@.len() > 0,
        effect_views(effects@)[0] == EffectView::Record(MetricUpdate::MessageReceived),
        on_payload(
            old(coordinator)@.message_counted(),
            old(coordinator).generator(),
            client_id@,
            payload_of(data@),
            received_at@,
            now@,
            (final(coordinator)@, effect_views(effects@).drop_first()),
        ),
{
    let mut effects = coordinator.inc_messages();
    assert(effect_views(effects@).len() == 1);
    let ghost counted = effects@;
    proof {
        decoded_identifiers_are_bounded(data@);
    }
    let mut more: Vec<Effect> = match Message::decode(data) {
        Ok(Message { sender_id: _, payload: Some(payload) }) => match payload {
            Payload::Vote(vote) => coordinator.handle_vote(
                vote.instance_id.as_slice(),
                ChainId::new(vote.chain_id),
                vote.vote,
                now,
            ),
            Payload::XtRequest(xt_req) => coordinator.handle_xt_request(xt_req, received_at, now),
            Payload::Ping(ping) => coordinator.handle_ping(client_id, ping.timestamp),
            Payload::HandshakeRequest(req) => handle_handshake(coordinator, client_id, &req),
            Payload::MailboxMessage(mailbox) => coordinator.handle_mailbox_relay(mailbox),
            Payload::Proof(proof_msg) => handle_proof(coordinator, client_id, proof_msg, now),
            Payload::Confirmed(confirmed) => coordinator.handle_confirmed(
                confirmed.instance_id.as_slice(),
                ChainId::new(confirmed.chain_id),
                now,
            ),
            _ => Vec::new(),
        },
        _ => Vec::new(),
    };
    let ghost rest = more@;
    assert(rest.len() == 0 ==> effect_views(rest) =~= Seq::empty());
    effects.append(&mut more);
    assert(effects@ =~= counted + rest);
    assert(effect_views(effects@)[0] == effect_views(counted)[0]);
    assert(effect_views(effects@).drop_first() =~= effect_views(rest));
    effects
}

} // verus!
