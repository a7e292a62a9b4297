//! The messages that the publisher and its sidecars exchange.
//!
//! Each message has a view of plain mathematical values, in which contracts
//! speak of it.

use vstd::prelude::*;

#[allow(unused_imports)]
use crate::types::byte_strings;

verus! {

/// A sidecar's opening message.
#[derive(Clone, Debug, PartialEq, Eq)]
pub struct HandshakeRequest {
    /// When it was sent.
    pub timestamp: i64,
    /// The sender's public key.
    pub public_key: Vec<u8>,
    /// The sender's signature.
    pub signature: Vec<u8>,
    /// The identifier that the sender asks for; a chain number leads it.
    pub client_id: String,
    /// A number used once.
    pub nonce: Vec<u8>,
}

/// The content of a [`HandshakeRequest`].
#[verifier::ext_equal]
pub struct HandshakeRequestView {
    /// When it was sent.
    pub timestamp: i64,
    /// The sender's public key.
    pub public_key: Seq<u8>,
    /// The sender's signature.
    pub signature: Seq<u8>,
    /// The identifier that the sender asks for; a chain number leads it.
    pub client_id: Seq<char>,
    /// A number used once.
    pub nonce: Seq<u8>,
}

impl View for HandshakeRequest {
    type V = HandshakeRequestView;

    open spec fn view(&self) -> HandshakeRequestView {
        HandshakeRequestView {
            timestamp: self.timestamp,
            public_key: self.public_key@,
            signature: self.signature@,
            client_id: self.client_id@,
            nonce: self.nonce@,
        }
    }
}

/// The answer to a [`HandshakeRequest`].
#[derive(Clone, Debug, PartialEq, Eq)]
pub struct HandshakeResponse {
    /// Whether the sidecar may stay.
    pub accepted: bool,
    /// Why not, where it may not.
    pub error: String,
    /// The session's identifier.
    pub session_id: String,
}

/// The content of a [`HandshakeResponse`].
#[verifier::ext_equal]
pub struct HandshakeResponseView {
    /// Whether the sidecar may stay.
    pub accepted: bool,
    /// Why not, where it may not.
    pub error: Seq<char>,
    /// The session's identifier.
    pub session_id: Seq<char>,
}

impl View for HandshakeResponse {
    type V = HandshakeResponseView;

    open spec fn view(&self) -> HandshakeResponseView {
        HandshakeResponseView {
            accepted: self.accepted,
            error: self.error@,
            session_id: self.session_id@,
        }
    }
}

/// Asks for a [`Pong`].
#[derive(Clone, Debug, PartialEq, Eq)]
pub struct Ping {
    /// A value to be sent back.
    pub timestamp: i64,
}

/// The content of a [`Ping`].
#[verifier::ext_equal]
pub struct PingView {
    /// A value to be sent back.
    pub timestamp: i64,
}

impl View for Ping {
    type V = PingView;

    open spec fn view(&self) -> PingView {
        PingView {
            timestamp: self.timestamp,
        }
    }
}

/// The answer to a [`Ping`].
#[derive(Clone, Debug, PartialEq, Eq)]
pub struct Pong {
    /// The value that was sent.
    pub timestamp: i64,
}

/// The content of a [`Pong`].
#[verifier::ext_equal]
pub struct PongView {
    /// The value that was sent.
    pub timestamp: i64,
}

impl View for Pong {
    type V = PongView;

    open spec fn view(&self) -> PongView {
        PongView {
            timestamp: self.timestamp,
        }
    }
}

/// The transactions that a cross-chain request places on one chain.
#[derive(Clone, Debug, PartialEq, Eq)]
pub struct TransactionRequest {
    /// The chain.
    pub chain_id: u64,
    /// The raw transactions, in order.
    pub transaction: Vec<Vec<u8>>,
}

/// The content of a [`TransactionRequest`].
#[verifier::ext_equal]
pub struct TransactionRequestView {
    /// The chain.
    pub chain_id: u64,
    /// The raw transactions, in order.
    pub transaction: Seq<Seq<u8>>,
}

impl View for TransactionRequest {
    type V = TransactionRequestView;

    open spec fn view(&self) -> TransactionRequestView {
        TransactionRequestView {
            chain_id: self.chain_id,
            transaction: byte_strings(self.transaction@),
        }
    }
}

/// A request for one atomic step on several chains.
#[derive(Clone, Debug, PartialEq, Eq)]
pub struct XtRequest {
    /// What each chain is asked to run.
    pub transaction_requests: Vec<TransactionRequest>,
}

/// The content of a [`XtRequest`].
#[verifier::ext_equal]
pub struct XtRequestView {
    /// What each chain is asked to run.
    pub transaction_requests: Seq<TransactionRequestView>,
}

impl View for XtRequest {
    type V = XtRequestView;

    open spec fn view(&self) -> XtRequestView {
        XtRequestView {
            transaction_requests: self.transaction_requests@.map_values(|t: TransactionRequest| t@),
        }
    }
}

/// Announces a protocol instance.
#[derive(Clone, Debug, PartialEq, Eq)]
pub struct StartInstance {
    /// Its identifier.
    pub instance_id: Vec<u8>,
    /// Its period.
    pub period_id: u64,
    /// Its position within the period.
    pub sequence_number: u64,
    /// What it is to run.
    pub xt_request: Option<XtRequest>,
}

/// The content of a [`StartInstance`].
#[verifier::ext_equal]
pub struct StartInstanceView {
    /// Its identifier.
    pub instance_id: Seq<u8>,
    /// Its period.
    pub period_id: u64,
    /// Its position within the period.
    pub sequence_number: u64,
    /// What it is to run.
    pub xt_request: Option<XtRequestView>,
}

impl View for StartInstance {
    type V = StartInstanceView;

    open spec fn view(&self) -> StartInstanceView {
        StartInstanceView {
            instance_id: self.instance_id@,
            period_id: self.period_id,
            sequence_number: self.sequence_number,
            xt_request: match self.xt_request {
                Some(x) => Some(x@),
                None => None,
            },
        }
    }
}

/// A chain's vote on an instance.
#[derive(Clone, Debug, PartialEq, Eq)]
pub struct Vote {
    /// The instance.
    pub instance_id: Vec<u8>,
    /// The voting chain.
    pub chain_id: u64,
    /// Whether the chain can commit.
    pub vote: bool,
}

/// The content of a [`Vote`].
#[verifier::ext_equal]
pub struct VoteView {
    /// The instance.
    pub instance_id: Seq<u8>,
    /// The voting chain.
    pub chain_id: u64,
    /// Whether the chain can commit.
    pub vote: bool,
}

impl View for Vote {
    type V = VoteView;

    open spec fn view(&self) -> VoteView {
        VoteView {
            instance_id: self.instance_id@,
            chain_id: self.chain_id,
            vote: self.vote,
        }
    }
}

/// Announces the outcome of an instance.
#[derive(Clone, Debug, PartialEq, Eq)]
pub struct Decided {
    /// The instance.
    pub instance_id: Vec<u8>,
    /// Whether it commits.
    pub decision: bool,
}

/// The content of a [`Decided`].
#[verifier::ext_equal]
pub struct DecidedView {
    /// The instance.
    pub instance_id: Seq<u8>,
    /// Whether it commits.
    pub decision: bool,
}

impl View for Decided {
    type V = DecidedView;

    open spec fn view(&self) -> DecidedView {
        DecidedView {
            instance_id: self.instance_id@,
            decision: self.decision,
        }
    }
}

/// Reports that a chain has included an instance in a block.
#[derive(Clone, Debug, PartialEq, Eq)]
pub struct Confirmed {
    /// The instance.
    pub instance_id: Vec<u8>,
    /// The chain.
    pub chain_id: u64,
}

/// The content of a [`Confirmed`].
#[verifier::ext_equal]
pub struct ConfirmedView {
    /// The instance.
    pub instance_id: Seq<u8>,
    /// The chain.
    pub chain_id: u64,
}

impl View for Confirmed {
    type V = ConfirmedView;

    open spec fn view(&self) -> ConfirmedView {
        ConfirmedView {
            instance_id: self.instance_id@,
            chain_id: self.chain_id,
        }
    }
}

/// A message from one chain's mailbox to another's.
#[derive(Clone, Debug, PartialEq, Eq)]
pub struct MailboxMessage {
    /// The session.
    pub session_id: u64,
    /// The instance.
    pub instance_id: Vec<u8>,
    /// The sending chain.
    pub source_chain: u64,
    /// The receiving chain.
    pub destination_chain: u64,
    /// The sending account.
    pub source: Vec<u8>,
    /// The receiving account.
    pub receiver: Vec<u8>,
    /// What the message is about.
    pub label: String,
    /// The message itself.
    pub data: Vec<Vec<u8>>,
}

/// The content of a [`MailboxMessage`].
#[verifier::ext_equal]
pub struct MailboxMessageView {
    /// The session.
    pub session_id: u64,
    /// The instance.
    pub instance_id: Seq<u8>,
    /// The sending chain.
    pub source_chain: u64,
    /// The receiving chain.
    pub destination_chain: u64,
    /// The sending account.
    pub source: Seq<u8>,
    /// The receiving account.
    pub receiver: Seq<u8>,
    /// What the message is about.
    pub label: Seq<char>,
    /// The message itself.
    pub data: Seq<Seq<u8>>,
}

impl View for MailboxMessage {
    type V = MailboxMessageView;

    open spec fn view(&self) -> MailboxMessageView {
        MailboxMessageView {
            session_id: self.session_id,
            instance_id: self.instance_id@,
            source_chain: self.source_chain,
            destination_chain: self.destination_chain,
            source: self.source@,
            receiver: self.receiver@,
            label: self.label@,
            data: byte_strings(self.data@),
        }
    }
}

/// Announces a period.
#[derive(Clone, Debug, PartialEq, Eq)]
pub struct StartPeriod {
    /// The period.
    pub period_id: u64,
    /// The superblock that it builds.
    pub superblock_number: u64,
}

/// The content of a [`StartPeriod`].
#[verifier::ext_equal]
pub struct StartPeriodView {
    /// The period.
    pub period_id: u64,
    /// The superblock that it builds.
    pub superblock_number: u64,
}

impl View for StartPeriod {
    type V = StartPeriodView;

    open spec fn view(&self) -> StartPeriodView {
        StartPeriodView {
            period_id: self.period_id,
            superblock_number: self.superblock_number,
        }
    }
}

/// Announces a return to a finalized superblock.
#[derive(Clone, Debug, PartialEq, Eq)]
pub struct Rollback {
    /// The current period.
    pub period_id: u64,
    /// The superblock.
    pub last_finalized_superblock_number: u64,
    /// Its hash.
    pub last_finalized_superblock_hash: Vec<u8>,
}

/// The content of a [`Rollback`].
#[verifier::ext_equal]
pub struct RollbackView {
    /// The current period.
    pub period_id: u64,
    /// The superblock.
    pub last_finalized_superblock_number: u64,
    /// Its hash.
    pub last_finalized_superblock_hash: Seq<u8>,
}

impl View for Rollback {
    type V = RollbackView;

    open spec fn view(&self) -> RollbackView {
        RollbackView {
            period_id: self.period_id,
            last_finalized_superblock_number: self.last_finalized_superblock_number,
            last_finalized_superblock_hash: self.last_finalized_superblock_hash@,
        }
    }
}

/// A chain's proof for a superblock.
#[derive(Clone, Debug, PartialEq, Eq)]
pub struct Proof {
    /// The period that built the superblock.
    pub period_id: u64,
    /// The superblock.
    pub superblock_number: u64,
    /// The proof itself.
    pub proof_data: Vec<u8>,
}

/// The content of a [`Proof`].
#[verifier::ext_equal]
pub struct ProofView {
    /// The period that built the superblock.
    pub period_id: u64,
    /// The superblock.
    pub superblock_number: u64,
    /// The proof itself.
    pub proof_data: Seq<u8>,
}

impl View for Proof {
    type V = ProofView;

    open spec fn view(&self) -> ProofView {
        ProofView {
            period_id: self.period_id,
            superblock_number: self.superblock_number,
            proof_data: self.proof_data@,
        }
    }
}

/// A native decision on an instance.
#[derive(Clone, Debug, PartialEq, Eq)]
pub struct NativeDecided {
    /// The instance.
    pub instance_id: Vec<u8>,
    /// Whether it commits.
    pub decision: bool,
}

/// The content of a [`NativeDecided`].
#[verifier::ext_equal]
pub struct NativeDecidedView {
    /// The instance.
    pub instance_id: Seq<u8>,
    /// Whether it commits.
    pub decision: bool,
}

impl View for NativeDecided {
    type V = NativeDecidedView;

    open spec fn view(&self) -> NativeDecidedView {
        NativeDecidedView {
            instance_id: self.instance_id@,
            decision: self.decision,
        }
    }
}

/// A `Ws` decision on an instance.
#[derive(Clone, Debug, PartialEq, Eq)]
pub struct WsDecided {
    /// The instance.
    pub instance_id: Vec<u8>,
    /// Whether it commits.
    pub decision: bool,
}

/// The content of a [`WsDecided`].
#[verifier::ext_equal]
pub struct WsDecidedView {
    /// The instance.
    pub instance_id: Seq<u8>,
    /// Whether it commits.
    pub decision: bool,
}

impl View for WsDecided {
    type V = WsDecidedView;

    open spec fn view(&self) -> WsDecidedView {
        WsDecidedView {
            instance_id: self.instance_id@,
            decision: self.decision,
        }
    }
}

/// What a [`Message`] carries.
#[derive(Clone, Debug, PartialEq, Eq)]
pub enum Payload {
    /// A sidecar's opening message.
    HandshakeRequest(HandshakeRequest),
    /// The answer to a [`HandshakeRequest`].
    HandshakeResponse(HandshakeResponse),
    /// Asks for a [`Pong`].
    Ping(Ping),
    /// The answer to a [`Ping`].
    Pong(Pong),
    /// A request for one atomic step on several chains.
    XtRequest(XtRequest),
    /// Announces a protocol instance.
    StartInstance(StartInstance),
    /// A chain's vote on an instance.
    Vote(Vote),
    /// Announces the outcome of an instance.
    Decided(Decided),
    /// A message from one chain's mailbox to another's.
    MailboxMessage(MailboxMessage),
    /// Announces a period.
    StartPeriod(StartPeriod),
    /// Announces a return to a finalized superblock.
    Rollback(Rollback),
    /// A chain's proof for a superblock.
    Proof(Proof),
    /// A native decision on an instance.
    NativeDecided(NativeDecided),
    /// A `Ws` decision on an instance.
    WsDecided(WsDecided),
    /// Reports that a chain has included an instance in a block.
    Confirmed(Confirmed),
}

/// The content of a [`Payload`].
#[verifier::ext_equal]
pub enum PayloadView {
    /// A sidecar's opening message.
    HandshakeRequest(HandshakeRequestView),
    /// The answer to a [`HandshakeRequest`].
    HandshakeResponse(HandshakeResponseView),
    /// Asks for a [`Pong`].
    Ping(PingView),
    /// The answer to a [`Ping`].
    Pong(PongView),
    /// A request for one atomic step on several chains.
    XtRequest(XtRequestView),
    /// Announces a protocol instance.
    StartInstance(StartInstanceView),
    /// A chain's vote on an instance.
    Vote(VoteView),
    /// Announces the outcome of an instance.
    Decided(DecidedView),
    /// A message from one chain's mailbox to another's.
    MailboxMessage(MailboxMessageView),
    /// Announces a period.
    StartPeriod(StartPeriodView),
    /// Announces a return to a finalized superblock.
    Rollback(RollbackView),
    /// A chain's proof for a superblock.
    Proof(ProofView),
    /// A native decision on an instance.
    NativeDecided(NativeDecidedView),
    /// A `Ws` decision on an instance.
    WsDecided(WsDecidedView),
    /// Reports that a chain has included an instance in a block.
    Confirmed(ConfirmedView),
}

impl View for Payload {
    type V = PayloadView;

    open spec fn view(&self) -> PayloadView {
        match self {
            Payload::HandshakeRequest(m) => PayloadView::HandshakeRequest(m@),
            Payload::HandshakeResponse(m) => PayloadView::HandshakeResponse(m@),
            Payload::Ping(m) => PayloadView::Ping(m@),
            Payload::Pong(m) => PayloadView::Pong(m@),
            Payload::XtRequest(m) => PayloadView::XtRequest(m@),
            Payload::StartInstance(m) => PayloadView::StartInstance(m@),
            Payload::Vote(m) => PayloadView::Vote(m@),
            Payload::Decided(m) => PayloadView::Decided(m@),
            Payload::MailboxMessage(m) => PayloadView::MailboxMessage(m@),
            Payload::StartPeriod(m) => PayloadView::StartPeriod(m@),
            Payload::Rollback(m) => PayloadView::Rollback(m@),
            Payload::Proof(m) => PayloadView::Proof(m@),
            Payload::NativeDecided(m) => PayloadView::NativeDecided(m@),
            Payload::WsDecided(m) => PayloadView::WsDecided(m@),
            Payload::Confirmed(m) => PayloadView::Confirmed(m@),
        }
    }
}

/// The envelope around every message.
#[derive(Clone, Debug, PartialEq, Eq)]
pub struct Message {
    /// Who sent the message.
    pub sender_id: String,
    /// What it carries.
    pub payload: Option<Payload>,
}

/// The content of a [`Message`].
#[verifier::ext_equal]
pub struct MessageView {
    /// Who sent the message.
    pub sender_id: Seq<char>,
    /// What it carries.
    pub payload: Option<PayloadView>,
}

impl View for Message {
    type V = MessageView;

    open spec fn view(&self) -> MessageView {
        MessageView {
            sender_id: self.sender_id@,
            payload: match self.payload {
                Some(p) => Some(p@),
                None => None,
            },
        }
    }
}

/// The content of a message that the publisher sends.
pub open spec fn from_publisher(payload: PayloadView) -> MessageView {
    MessageView { sender_id: "publisher"@, payload: Some(payload) }
}

impl Message {
    /// A message that the publisher sends.
    pub fn from_publisher(payload: Payload) -> (m: Message)
        ensures
            m@ == from_publisher(payload@),
    {
        Message { sender_id: "publisher".to_string(), payload: Some(payload) }
    }
}

} // verus!
