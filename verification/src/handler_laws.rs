//! Laws of what becomes of connections and inbound messages.

use vstd::prelude::*;
#[allow(unused_imports)]
use vstd::string::*;

#[allow(unused_imports)]
use crate::coordinator::{generated, spec_request, CoordinatorView};
#[allow(unused_imports)]
use crate::effect_laws::{broadcasts, publisher_says, records, same_settings, sends, submissions};
#[allow(unused_imports)]
use crate::effects::EffectView;
#[allow(unused_imports)]
use crate::handlers::{
    named_chain, on_client_proof, on_handshake, on_payload, parse_chain_id_error_text, payload_of,
    registered_by_name,
};
#[allow(unused_imports)]
use crate::message_codec::decoded;
#[allow(unused_imports)]
use crate::messages::{
    from_publisher, HandshakeRequestView, HandshakeResponseView, MessageView, PayloadView, PongView,
    ProofView,
};
#[allow(unused_imports)]
use crate::text::{decimal_value, digit_run_ends, is_digit, is_number};
#[allow(unused_imports)]
use crate::types::{ChainId, InstanceId, PeriodId, SequenceNumber, XtRequest};

verus! {

/// An identifier that begins with digits names the chain with their number, whatever
/// follows them, where the number has 64 bits at most; one that begins with anything
/// else names none.
pub proof fn leading_digits_name_the_chain(digits: Seq<char>, rest: Seq<char>)
    requires
        forall|i: int| 0 <= i < digits.len() ==> is_digit(#[trigger] digits[i]),
        rest.len() > 0 ==> !is_digit(rest[0]),
    ensures
        named_chain(digits + rest) == (if digits.len() > 0 && decimal_value(digits) <= u64::MAX {
            Some(decimal_value(digits))
        } else {
            None
        }),
{
    let text = digits + rest;
    assert forall|i: int| 0 <= i < digits.len() implies is_digit(#[trigger] text[i]) by {
        assert(text[i] == digits[i]);
    }
    digit_run_ends(text, digits.len());
    assert(text.take(digits.len() as int) =~= digits);
}

/// Digits are the characters from `0` to `9`; each one more stands for ten times the
/// number before it and its own distance from `0`.
pub proof fn digits_count_in_tens(digits: Seq<char>, c: char)
    ensures
        is_digit(c) <==> '0' <= c && c <= '9',
        decimal_value(Seq::empty()) == 0,
        '0' <= c ==> decimal_value(digits.push(c)) == 10 * decimal_value(digits) + (c as int
            - '0' as int),
{
    assert(digits.push(c).drop_last() =~= digits);
}

/// A client is registered for the chain that the name names, and for none where it
/// names none.
pub proof fn clients_are_registered_by_name(
    before: CoordinatorView,
    client_id: Seq<char>,
    name: Seq<char>,
)
    ensures
        match named_chain(name) {
            Some(n) => {
                &&& n <= u64::MAX
                &&& registered_by_name(before, client_id, name).state == before.state.registered(
                    client_id,
                    n as u64,
                )
                &&& same_settings(before, registered_by_name(before, client_id, name))
                &&& registered_by_name(before, client_id, name).messages_processed
                    == before.messages_processed
                &&& registered_by_name(before, client_id, name).broadcasts_sent
                    == before.broadcasts_sent
            },
            None => registered_by_name(before, client_id, name) == before,
        },
{
}

/// A handshake is always accepted, with the connection's identifier as the session, and
/// the answer goes to the connection that asked; the connection is registered for the
/// chain that the request names, not the one that the connection names.
pub proof fn handshakes_are_accepted(
    before: CoordinatorView,
    client_id: Seq<char>,
    req: HandshakeRequestView,
)
    ensures
        ({
            let (after, effects) = on_handshake(before, client_id, req);
            &&& after == registered_by_name(before, client_id, req.client_id)
            &&& effects.len() == 1
            &&& effects[0] matches EffectView::Send { client_id: to, message } && {
                &&& to == client_id
                &&& message.sender_id == "publisher"@
                &&& message.payload matches Some(PayloadView::HandshakeResponse(r)) && {
                    &&& r.accepted
                    &&& r.error.len() == 0
                    &&& r.session_id == client_id
                }
            }
        }),
{
}

/// A proof counts as that of the chain that its sender has registered for; that of
/// anyone else is passed over.
pub proof fn proofs_count_for_the_senders_chain(
    before: CoordinatorView,
    client_id: Seq<char>,
    proof_msg: ProofView,
    now: nat,
    chain: u64,
)
    ensures
        before.state.client_to_chain.contains_pair(client_id, chain) ==> on_client_proof(
            before,
            client_id,
            proof_msg,
            now,
        ) == before.on_proof(
            proof_msg.superblock_number,
            chain,
            crate::mailbox::bare_proof(proof_msg.proof_data),
            now,
        ),
        !before.state.client_to_chain.contains_key(client_id) ==> on_client_proof(
            before,
            client_id,
            proof_msg,
            now,
        ) == (before, Seq::<EffectView>::empty()),
{
}

/// The payload of a message is what its bytes decode to.
pub proof fn payloads_are_decoded(data: Seq<u8>)
    ensures
        match decoded(data) {
            Some(m) => payload_of(data) == m.payload,
            None => payload_of(data) is None,
        },
{
}

/// Each sort of message is acted on as what it is, with its own parts: votes and
/// confirmations by instance and chain, mailbox messages by destination, pings by an
/// answer with the same time, proofs and handshakes on behalf of their sender, and
/// requests where they are taken on. All others are passed over.
pub proof fn messages_are_acted_on<
    G: Fn(PeriodId, SequenceNumber, &XtRequest) -> InstanceId,
>(
    before: CoordinatorView,
    generate: G,
    client_id: Seq<char>,
    payload: Option<PayloadView>,
    received_at: nat,
    now: nat,
    after: CoordinatorView,
    effects: Seq<EffectView>,
)
    requires
        on_payload(before, generate, client_id, payload, received_at, now, (after, effects)),
    ensures
        match payload {
            Some(PayloadView::Vote(v)) => (after, effects) == before.on_vote(
                v.instance_id,
                v.chain_id,
                v.vote,
                now,
            ),
            Some(PayloadView::Confirmed(v)) => (after, effects) == before.on_confirmed(
                v.instance_id,
                v.chain_id,
                now,
            ),
            Some(PayloadView::MailboxMessage(v)) => (after, effects) == before.on_mailbox(v),
            Some(PayloadView::Proof(v)) => (after, effects) == on_client_proof(
                before,
                client_id,
                v,
                now,
            ),
            Some(PayloadView::HandshakeRequest(v)) => (after, effects) == on_handshake(
                before,
                client_id,
                v,
            ),
            Some(PayloadView::Ping(v)) => {
                &&& after == before
                &&& effects.len() == 1
                &&& effects[0] matches EffectView::Send { client_id: to, message } && to
                    == client_id && publisher_says(
                    message,
                    PayloadView::Pong(PongView { timestamp: v.timestamp }),
                )
            },
            Some(PayloadView::XtRequest(v)) => if before.accepts(v) {
                exists|id: InstanceId| {
                    &&& #[trigger] generated(
                        generate,
                        before.state.current_period_id,
                        before.state.next_sequence_num,
                        spec_request(v),
                        id,
                    )
                    &&& (after, effects) == before.on_request(id.0@, v, received_at, now)
                }
            } else {
                after == before && effects.len() == 0
            },
            _ => after == before && effects.len() == 0,
        },
{
}

/// What the publisher sends carries its name.
pub proof fn publisher_signs_its_messages(p: PayloadView)
    ensures
        publisher_says(from_publisher(p), p),
{
}

/// The message for an identifier that names no chain quotes it.
pub proof fn parse_errors_quote_the_identifier(client_id: Seq<char>)
    ensures
        parse_chain_id_error_text(client_id) == "no numeric chain ID prefix in '"@ + client_id
            + "'"@,
{
}

} // verus!
