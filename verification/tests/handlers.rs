use publisher::coordinator::Coordinator;
use publisher::effects::{Effect, MetricUpdate};
use publisher::handlers::{
    check_payload_fits, dispatch, handle_connect, handle_disconnect, handle_handshake,
    handle_proof, parse_chain_id,
};
use publisher::messages::{
    Confirmed, HandshakeRequest, HandshakeResponse, MailboxMessage, Message, Payload, Ping, Pong,
    Proof, TransactionRequest, Vote, XtRequest,
};
use publisher::time::{Duration, Instant};
use publisher::types::{ChainId, InstanceId, PeriodId, SequenceNumber};

type Generate = fn(PeriodId, SequenceNumber, &publisher::types::XtRequest) -> InstanceId;

fn generate(
    period: PeriodId,
    sequence: SequenceNumber,
    _request: &publisher::types::XtRequest,
) -> InstanceId {
    let mut id = [0u8; 32];
    id[0] = period.get() as u8;
    id[1] = sequence.get() as u8;
    InstanceId(id)
}

fn coordinator() -> Coordinator<Generate> {
    Coordinator::new(
        generate as Generate,
        Duration::from_secs(60),
        Duration::from_secs(7200),
    )
}

fn at(secs: u64) -> Instant {
    Instant::from_nanos(secs as u128 * 1_000_000_000)
}

fn bytes(payload: Payload) -> Vec<u8> {
    Message {
        sender_id: "sidecar".into(),
        payload: Some(payload),
    }
    .encode_to_vec()
}

fn send(c: &mut Coordinator<Generate>, client: &str, payload: Payload, secs: u64) -> Vec<Effect> {
    let mut effects = dispatch(c, client, &bytes(payload), at(secs), at(secs));
    assert!(matches!(
        effects.remove(0),
        Effect::Record(MetricUpdate::MessageReceived)
    ));
    effects
}

#[test]
fn parse_chain_id_numeric_prefix() {
    assert_eq!(parse_chain_id("77777").unwrap(), ChainId::new(77777));
    assert_eq!(
        parse_chain_id("88888-sidecar").unwrap(),
        ChainId::new(88888)
    );
    assert!(parse_chain_id("abc").is_err());
    assert!(parse_chain_id("").is_err());
}

#[test]
fn parse_chain_id_edges() {
    assert_eq!(
        parse_chain_id("18446744073709551615x").unwrap(),
        ChainId::new(u64::MAX)
    );
    assert!(parse_chain_id("18446744073709551616").is_err());
    assert_eq!(parse_chain_id("007").unwrap(), ChainId::new(7));
    assert!(parse_chain_id("+7").is_err());
    assert!(parse_chain_id(" 7").is_err());
    let err = parse_chain_id("abc").unwrap_err();
    assert_eq!(err.message(), "no numeric chain ID prefix in 'abc'");
}

#[test]
fn connecting_registers_the_named_chain() {
    let mut c = coordinator();
    let effects = handle_connect(&mut c, "901-sidecar");
    assert_eq!(effects.len(), 1);
    assert!(matches!(
        effects[0],
        Effect::Record(MetricUpdate::ConnectionOpened)
    ));
    assert!(c.is_chain_registered(ChainId(901)));
    assert_eq!(c.chain_for_client("901-sidecar"), Some(ChainId(901)));
    handle_connect(&mut c, "nameless");
    assert_eq!(c.stats().registered_chains, 1);
    assert!(matches!(
        handle_disconnect()[0],
        Effect::Record(MetricUpdate::ConnectionClosed)
    ));
    assert!(c.is_chain_registered(ChainId(901)));
}

#[test]
fn handshakes_are_always_accepted() {
    let mut c = coordinator();
    for (named, registered) in [("12-x", true), ("", true), ("x", true)] {
        let effects = handle_handshake(
            &mut c,
            "client",
            &HandshakeRequest {
                timestamp: 1,
                public_key: vec![],
                signature: vec![],
                client_id: named.to_string(),
                nonce: vec![],
            },
        );
        assert_eq!(effects.len(), 1);
        match &effects[0] {
            Effect::Send { client_id, message } => {
                assert_eq!(client_id, "client");
                assert_eq!(message.sender_id, "publisher");
                assert_eq!(
                    message.payload,
                    Some(Payload::HandshakeResponse(HandshakeResponse {
                        accepted: true,
                        error: "".into(),
                        session_id: "client".into(),
                    }))
                );
            }
            other => panic!("{:?}", other),
        }
        assert_eq!(c.is_chain_registered(ChainId(12)), registered);
    }
    assert_eq!(c.chain_for_client("client"), Some(ChainId(12)));
}

#[test]
fn messages_that_mean_nothing_are_only_counted() {
    let mut c = coordinator();
    for data in [
        vec![0xff],
        vec![],
        bytes(Payload::Pong(Pong { timestamp: 1 })),
        bytes(Payload::HandshakeResponse(HandshakeResponse {
            accepted: false,
            error: "".into(),
            session_id: "".into(),
        })),
    ] {
        let effects = dispatch(&mut c, "1", &data, at(0), at(0));
        assert_eq!(effects.len(), 1);
        assert!(matches!(
            effects[0],
            Effect::Record(MetricUpdate::MessageReceived)
        ));
    }
    assert_eq!(c.stats().messages_processed, 4);
    assert_eq!(c.stats().broadcasts_sent, 0);
}

#[test]
fn pings_are_answered() {
    let mut c = coordinator();
    let effects = send(&mut c, "7", Payload::Ping(Ping { timestamp: 42 }), 0);
    match &effects[..] {
        [Effect::Send { client_id, message }] => {
            assert_eq!(client_id, "7");
            assert_eq!(message.payload, Some(Payload::Pong(Pong { timestamp: 42 })));
        }
        other => panic!("{:?}", other),
    }
    assert_eq!(c.stats().broadcasts_sent, 0);
}

#[test]
fn mailbox_messages_reach_the_destination() {
    let mut c = coordinator();
    handle_connect(&mut c, "2-b");
    let mailbox = |chain: u64| MailboxMessage {
        session_id: 1,
        instance_id: vec![1],
        source_chain: 1,
        destination_chain: chain,
        source: vec![],
        receiver: vec![],
        label: "l".into(),
        data: vec![vec![1]],
    };
    let effects = send(&mut c, "1-a", Payload::MailboxMessage(mailbox(2)), 0);
    match &effects[..] {
        [Effect::Record(MetricUpdate::BroadcastSent), Effect::Send { client_id, message }] => {
            assert_eq!(client_id, "2-b");
            assert_eq!(message.payload, Some(Payload::MailboxMessage(mailbox(2))));
        }
        other => panic!("{:?}", other),
    }
    assert!(send(&mut c, "1-a", Payload::MailboxMessage(mailbox(3)), 0).is_empty());
    assert_eq!(c.stats().broadcasts_sent, 1);
}

#[test]
fn a_transaction_runs_from_request_to_inclusion() {
    let mut c = coordinator();
    c.advance_period();
    let request = XtRequest {
        transaction_requests: vec![
            TransactionRequest {
                chain_id: 1,
                transaction: vec![vec![1]],
            },
            TransactionRequest {
                chain_id: 2,
                transaction: vec![vec![2]],
            },
        ],
    };
    let effects = send(&mut c, "1", Payload::XtRequest(request.clone()), 10);
    let id = match &effects[..] {
        [Effect::Record(MetricUpdate::BroadcastSent), Effect::Record(MetricUpdate::XtStarted), Effect::Broadcast(message)] => {
            match &message.payload {
                Some(Payload::StartInstance(start)) => {
                    assert_eq!(start.period_id, 1);
                    assert_eq!(start.sequence_number, 1);
                    assert_eq!(start.xt_request, Some(request));
                    start.instance_id.clone()
                }
                other => panic!("{:?}", other),
            }
        }
        other => panic!("{:?}", other),
    };
    let vote = |chain: u64, vote: bool| {
        Payload::Vote(Vote {
            instance_id: id.clone(),
            chain_id: chain,
            vote,
        })
    };
    assert!(send(&mut c, "1", vote(1, true), 11).is_empty());
    assert!(send(&mut c, "1", vote(1, false), 11).is_empty());
    assert!(send(&mut c, "3", vote(3, false), 11).is_empty());
    let effects = send(&mut c, "2", vote(2, true), 13);
    match &effects[..] {
        [Effect::Record(MetricUpdate::XtCommitted), Effect::Record(MetricUpdate::DecisionLatency(d)), Effect::Record(MetricUpdate::BroadcastSent), Effect::Broadcast(message)] =>
        {
            assert_eq!(*d, Duration::from_secs(3));
            match &message.payload {
                Some(Payload::Decided(decided)) => {
                    assert_eq!(decided.instance_id, id);
                    assert!(decided.decision);
                }
                other => panic!("{:?}", other),
            }
        }
        other => panic!("{:?}", other),
    }
    assert!(send(&mut c, "2", vote(2, true), 13).is_empty());
    let confirm = |chain: u64| {
        Payload::Confirmed(Confirmed {
            instance_id: id.clone(),
            chain_id: chain,
        })
    };
    assert!(send(&mut c, "2", confirm(2), 14).is_empty());
    assert!(send(&mut c, "2", confirm(2), 14).is_empty());
    let effects = send(&mut c, "1", confirm(1), 15);
    match &effects[..] {
        [Effect::Record(MetricUpdate::BlockInclusionLatency(d))] => {
            assert_eq!(*d, Duration::from_secs(5));
        }
        other => panic!("{:?}", other),
    }
    assert!(send(&mut c, "1", confirm(1), 15).is_empty());
}

#[test]
fn proofs_count_for_the_senders_chain() {
    let mut c = coordinator().with_l1_submitter();
    let message = || Proof {
        period_id: 1,
        superblock_number: 9,
        proof_data: vec![5, 6],
    };
    assert!(handle_proof(&mut c, "1-a", message(), at(0)).is_empty());
    handle_connect(&mut c, "1-a");
    handle_connect(&mut c, "2-b");
    assert!(send(&mut c, "1-a", Payload::Proof(message()), 0).is_empty());
    assert_eq!(c.stats().pending_proof_superblocks, 1);
    let effects = send(&mut c, "2-b", Payload::Proof(message()), 0);
    match &effects[..] {
        [Effect::Submit {
            superblock_number,
            proofs,
        }] => {
            assert_eq!(*superblock_number, 1);
            assert_eq!(proofs.len(), 2);
            assert!(proofs.contains_key(&1));
            assert_eq!(proofs[&2].compressed_proof, vec![5, 6]);
        }
        other => panic!("{:?}", other),
    }
    assert_eq!(c.stats().pending_proof_superblocks, 0);
}

#[test]
fn messages_of_every_kind_can_be_counted() {
    let mut c = coordinator();
    for payload in [
        Payload::Vote(Vote {
            instance_id: vec![1, 2],
            chain_id: 1,
            vote: true,
        }),
        Payload::XtRequest(XtRequest {
            transaction_requests: Vec::new(),
        }),
        Payload::Ping(Ping { timestamp: 3 }),
    ] {
        assert!(check_payload_fits(&c, &bytes(payload.clone())));
        send(&mut c, "a", payload, 0);
    }
    assert!(check_payload_fits(&c, &[0xff]));
}
