use publisher::message_codec::DecodeError;
use publisher::messages::{
    Confirmed, Decided, HandshakeRequest, HandshakeResponse, MailboxMessage, Message,
    NativeDecided, Payload, Ping, Pong, Proof, Rollback, StartInstance, StartPeriod,
    TransactionRequest, Vote, WsDecided, XtRequest,
};

#[test]
fn roundtrip_message_encode_decode() {
    let msg = Message {
        sender_id: "test-sender".into(),
        payload: Some(Payload::Ping(Ping { timestamp: 42 })),
    };

    let buf = msg.encode_to_vec();

    let decoded = Message::decode(buf.as_slice()).unwrap();
    assert_eq!(msg, decoded);
}

fn request() -> XtRequest {
    XtRequest {
        transaction_requests: vec![
            TransactionRequest {
                chain_id: 77777,
                transaction: vec![vec![1, 2, 3], vec![], vec![255; 300]],
            },
            TransactionRequest {
                chain_id: 0,
                transaction: vec![],
            },
        ],
    }
}

fn payloads() -> Vec<Payload> {
    vec![
        Payload::HandshakeRequest(HandshakeRequest {
            timestamp: -1,
            public_key: vec![1],
            signature: vec![],
            client_id: "901-sidecar".into(),
            nonce: vec![0, 0],
        }),
        Payload::HandshakeResponse(HandshakeResponse {
            accepted: true,
            error: "".into(),
            session_id: "\u{b5}\u{20ac}\u{1f980}".into(),
        }),
        Payload::Ping(Ping {
            timestamp: i64::MIN,
        }),
        Payload::Pong(Pong {
            timestamp: i64::MAX,
        }),
        Payload::XtRequest(request()),
        Payload::StartInstance(StartInstance {
            instance_id: vec![7; 32],
            period_id: 1,
            sequence_number: 2,
            xt_request: Some(request()),
        }),
        Payload::StartInstance(StartInstance {
            instance_id: vec![],
            period_id: u64::MAX,
            sequence_number: 0,
            xt_request: None,
        }),
        Payload::StartInstance(StartInstance {
            instance_id: vec![],
            period_id: 0,
            sequence_number: 0,
            xt_request: Some(XtRequest {
                transaction_requests: vec![],
            }),
        }),
        Payload::Vote(Vote {
            instance_id: vec![9; 32],
            chain_id: 128,
            vote: false,
        }),
        Payload::Decided(Decided {
            instance_id: vec![9; 32],
            decision: true,
        }),
        Payload::MailboxMessage(MailboxMessage {
            session_id: 1,
            instance_id: vec![2],
            source_chain: 3,
            destination_chain: 4,
            source: vec![5],
            receiver: vec![6],
            label: "label".into(),
            data: vec![vec![], vec![7]],
        }),
        Payload::StartPeriod(StartPeriod {
            period_id: 16383,
            superblock_number: 16384,
        }),
        Payload::Rollback(Rollback {
            period_id: 1,
            last_finalized_superblock_number: 2,
            last_finalized_superblock_hash: vec![3; 32],
        }),
        Payload::Proof(Proof {
            period_id: 0,
            superblock_number: 0,
            proof_data: vec![],
        }),
        Payload::NativeDecided(NativeDecided {
            instance_id: vec![1],
            decision: true,
        }),
        Payload::WsDecided(WsDecided {
            instance_id: vec![1],
            decision: false,
        }),
        Payload::Confirmed(Confirmed {
            instance_id: vec![1; 32],
            chain_id: 5,
        }),
    ]
}

#[test]
fn every_payload_survives_the_wire() {
    for payload in payloads() {
        for sender in ["", "publisher"] {
            let msg = Message {
                sender_id: sender.to_string(),
                payload: Some(payload.clone()),
            };
            assert_eq!(Message::decode(&msg.encode_to_vec()), Ok(msg));
        }
    }
    let bare = Message {
        sender_id: "x".into(),
        payload: None,
    };
    assert_eq!(Message::decode(&bare.encode_to_vec()), Ok(bare));
}

#[test]
fn the_bytes_are_those_of_the_wire_format() {
    let ping = Message {
        sender_id: "ab".into(),
        payload: Some(Payload::Ping(Ping { timestamp: 300 })),
    };
    assert_eq!(
        ping.encode_to_vec(),
        vec![0x0a, 2, b'a', b'b', 0x22, 3, 0x08, 0xac, 0x02]
    );
    // Fields at their default are not written, a payload always is.
    let pong = Message {
        sender_id: "".into(),
        payload: Some(Payload::Pong(Pong { timestamp: 0 })),
    };
    assert_eq!(pong.encode_to_vec(), vec![0x2a, 0]);
    // Tag 16 takes two bytes, and a negative number takes ten.
    let confirmed = Message {
        sender_id: "".into(),
        payload: Some(Payload::Confirmed(Confirmed {
            instance_id: vec![1],
            chain_id: 1,
        })),
    };
    assert_eq!(
        confirmed.encode_to_vec(),
        vec![0x82, 0x01, 5, 0x0a, 1, 1, 0x10, 1]
    );
    let negative = Message {
        sender_id: "".into(),
        payload: Some(Payload::Ping(Ping { timestamp: -1 })),
    };
    let mut expected = vec![0x22, 11, 0x08];
    expected.extend([0xff; 9]);
    expected.push(1);
    assert_eq!(negative.encode_to_vec(), expected);
    // The same bytes come from the field functions of the wire format's crate.
    let mut by_hand = Vec::new();
    prost::encoding::string::encode(1, &"ab".to_string(), &mut by_hand);
    let mut inner = Vec::new();
    prost::encoding::int64::encode(1, &300, &mut inner);
    prost::encoding::bytes::encode(4, &inner, &mut by_hand);
    assert_eq!(ping.encode_to_vec(), by_hand);
}

#[test]
fn no_bytes_are_a_message_without_content() {
    let empty = Message::decode(&[]).unwrap();
    assert_eq!(empty.sender_id, "");
    assert_eq!(empty.payload, None);
    assert!(empty.encode_to_vec().is_empty());
}

#[test]
fn unknown_fields_are_passed_over_and_last_values_count() {
    let mut bytes = vec![0x0a, 1, b'a'];
    // Unknown tags 17 to 20: a number, eight bytes, bytes, four bytes.
    bytes.extend([0x88, 0x01, 0xff, 0x01]);
    bytes.extend([0x91, 0x01, 1, 2, 3, 4, 5, 6, 7, 8]);
    bytes.extend([0x9a, 0x01, 2, 9, 9]);
    bytes.extend([0xa5, 0x01, 1, 2, 3, 4]);
    // A group with tag 21 that holds a number and another group.
    bytes.extend([0xab, 0x01, 0x08, 5, 0x13, 0x14, 0xac, 0x01]);
    bytes.extend([0x0a, 1, b'b']);
    let msg = Message::decode(&bytes).unwrap();
    assert_eq!(msg.sender_id, "b");
    assert_eq!(msg.payload, None);
}

#[test]
fn a_payload_of_the_same_sort_is_read_into_and_another_replaced() {
    let vote = |id: u8| vec![0x42, 3, 0x0a, 1, id];
    let chain = vec![0x42, 2, 0x10, 7];
    let mut bytes = vote(1);
    bytes.extend(&chain);
    let msg = Message::decode(&bytes).unwrap();
    assert_eq!(
        msg.payload,
        Some(Payload::Vote(Vote {
            instance_id: vec![1],
            chain_id: 7,
            vote: false
        }))
    );
    let mut bytes = vote(1);
    bytes.extend([0x22, 2, 0x08, 5]);
    let msg = Message::decode(&bytes).unwrap();
    assert_eq!(msg.payload, Some(Payload::Ping(Ping { timestamp: 5 })));
    bytes.extend(&chain);
    let msg = Message::decode(&bytes).unwrap();
    assert_eq!(
        msg.payload,
        Some(Payload::Vote(Vote {
            instance_id: vec![],
            chain_id: 7,
            vote: false
        }))
    );
}

#[test]
fn bytes_that_are_no_message_are_refused() {
    let wrong: Vec<Vec<u8>> = vec![
        vec![0x0a],                      // a key without a value
        vec![0x0a, 2, b'a'],             // fewer bytes than the length says
        vec![0x08, 1],                   // a number where text is due
        vec![0x0a, 1, 0xff],             // no UTF-8
        vec![0x00, 1],                   // tag zero
        vec![0x0e, 1],                   // no such kind
        vec![0x0c],                      // the end of no group
        vec![0xab, 0x01, 0x08, 5],       // a group without an end
        vec![0xab, 0x01, 0xb4, 0x01],    // a group with another's end
        vec![0x22, 3, 0x08, 1],          // a payload cut short
        vec![0x22, 1, 0x08],             // a payload with a field cut short
        vec![0x20, 1],                   // a number where a payload is due
        vec![0x80, 0x80, 0x80, 0x80, 0x80, 0x80, 0x80, 0x80, 0x80, 0x80, 0x01], // too long a number
        vec![0x88, 0x01, 0xff, 0xff, 0xff, 0xff, 0xff, 0xff, 0xff, 0xff, 0xff, 0x02], // over 64 bits
        vec![0x80, 0x80, 0x80, 0x80, 0x80, 0x01], // a key of over 32 bits
    ];
    for bytes in wrong {
        assert_eq!(Message::decode(&bytes), Err(DecodeError), "{:?}", bytes);
    }
}

#[test]
fn groups_may_be_nested_up_to_a_limit() {
    let nested = |n: usize| {
        let mut bytes = Vec::new();
        for _ in 0..n {
            bytes.extend([0x8b, 0x01]);
        }
        for _ in 0..n {
            bytes.extend([0x8c, 0x01]);
        }
        bytes
    };
    assert!(Message::decode(&nested(100)).is_ok());
    assert!(Message::decode(&nested(101)).is_err());
    // The wire format's crate draws the same line.
    for n in [1, 99, 100, 101] {
        let bytes = nested(n);
        let mut rest = &bytes[2..];
        let skipped = prost::encoding::skip_field(
            prost::encoding::WireType::StartGroup,
            17,
            &mut rest,
            prost::encoding::DecodeContext::default(),
        );
        assert_eq!(skipped.is_ok(), Message::decode(&bytes).is_ok());
    }
}
