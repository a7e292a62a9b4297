//! How each message is written and read.

use vstd::prelude::*;
#[allow(unused_imports)]
use vstd::string::*;
#[allow(unused_imports)]
use vstd::utf8::encode_utf8;

#[allow(unused_imports)]
use crate::codec::{
    all_proper, all_proper_concat, bytes_in, message_bytes, message_in, message_reads_back,
    number_in, proper_is_writable, text_in, text_reads_back, with_always_field, with_bytes,
    with_bytes_field, with_fields, with_more_fields, with_number_field,
};
use crate::codec::{
    merge_bytes, take_bytes, take_message, take_number, take_text, to_bytes, ReadsBack, WireMessage,
};
use crate::messages::{
    Confirmed, Decided, HandshakeRequest, HandshakeResponse, MailboxMessage, Message, NativeDecided,
    Payload, Ping, Pong, Proof, Rollback, StartInstance, StartPeriod, TransactionRequest, Vote,
    WsDecided, XtRequest,
};
#[allow(unused_imports)]
use crate::messages::{
    ConfirmedView, DecidedView, HandshakeRequestView, HandshakeResponseView, MailboxMessageView,
    MessageView, NativeDecidedView, PayloadView, PingView, PongView, ProofView, RollbackView,
    StartInstanceView, StartPeriodView, TransactionRequestView, VoteView, WsDecidedView,
    XtRequestView,
};
#[allow(unused_imports)]
use crate::types::byte_strings;
#[allow(unused_imports)]
use crate::wire::{
    always_field, appends, appends_in_steps, bytes_field, field_bytes, field_bytes_bounded,
    fields_bytes, fields_read_back, number_field, read_field, read_field_consumes, read_fields,
    repeated_field, writable, FieldValueView, FieldView,
};
use crate::wire::{put_always, put_bytes, put_number, put_repeated, Field};

verus! {

/// The number that stands for a truth value.
pub open spec fn bool_number(b: bool) -> u64 {
    if b {
        1
    } else {
        0
    }
}

/// A signed number survives being written as an unsigned one.
proof fn signed_reads_back(x: i64)
    ensures
        (x as u64) as i64 == x,
        x as u64 == 0 ==> x == 0,
{
    assert((x as u64) as i64 == x) by (bit_vector);
    assert(x as u64 == 0 ==> x == 0) by (bit_vector);
}

impl WireMessage for HandshakeRequest {
    open spec fn blank() -> HandshakeRequestView {
        HandshakeRequestView {
            timestamp: 0,
            public_key: Seq::empty(),
            signature: Seq::empty(),
            client_id: Seq::empty(),
            nonce: Seq::empty(),
        }
    }

    open spec fn to_fields(m: HandshakeRequestView) -> Seq<FieldView> {
        number_field(1, m.timestamp as u64)
            + bytes_field(2, m.public_key)
            + bytes_field(3, m.signature)
            + bytes_field(4, encode_utf8(m.client_id))
            + bytes_field(5, m.nonce)
    }

    open spec fn with_field(m: HandshakeRequestView, f: FieldView, depth: nat) -> Option<HandshakeRequestView> {
        if f.tag == 1 {
            match number_in(f) {
                Some(n) => Some(HandshakeRequestView { timestamp: n as i64, ..m }),
                None => None,
            }
        } else if f.tag == 2 {
            match bytes_in(f) {
                Some(value) => Some(HandshakeRequestView { public_key: value, ..m }),
                None => None,
            }
        } else if f.tag == 3 {
            match bytes_in(f) {
                Some(value) => Some(HandshakeRequestView { signature: value, ..m }),
                None => None,
            }
        } else if f.tag == 4 {
            match text_in(f) {
                Some(text) => Some(HandshakeRequestView { client_id: text, ..m }),
                None => None,
            }
        } else if f.tag == 5 {
            match bytes_in(f) {
                Some(value) => Some(HandshakeRequestView { nonce: value, ..m }),
                None => None,
            }
        } else {
            Some(m)
        }
    }

    open spec fn nesting() -> nat {
        0
    }

    fn new_blank() -> HandshakeRequest {
        let m = HandshakeRequest {
            timestamp: 0,
            public_key: Vec::new(),
            signature: Vec::new(),
            client_id: String::new(),
            nonce: Vec::new(),
        };
        assert(m@ =~= Self::blank());
        m
    }

    fn set_field(&mut self, field: Field, depth: usize) -> bool {
        if field.tag == 1 {
            match take_number(field) {
                Some(n) => {
                    self.timestamp = n as i64;
                    true
                },
                None => false,
            }
        } else if field.tag == 2 {
            match take_bytes(field) {
                Some(value) => {
                    self.public_key = value;
                    true
                },
                None => false,
            }
        } else if field.tag == 3 {
            match take_bytes(field) {
                Some(value) => {
                    self.signature = value;
                    true
                },
                None => false,
            }
        } else if field.tag == 4 {
            match take_text(field) {
                Some(text) => {
                    self.client_id = text;
                    true
                },
                None => false,
            }
        } else if field.tag == 5 {
            match take_bytes(field) {
                Some(value) => {
                    self.nonce = value;
                    true
                },
                None => false,
            }
        } else {
            true
        }
    }

    fn put_fields(&self, buf: &mut Vec<u8>) {
        let ghost b0 = buf@;
        put_number(buf, 1, self.timestamp as u64);
        let ghost b1 = buf@;
        put_bytes(buf, 2, self.public_key.as_slice());
        let ghost b2 = buf@;
        put_bytes(buf, 3, self.signature.as_slice());
        let ghost b3 = buf@;
        put_bytes(buf, 4, self.client_id.as_str().as_bytes());
        let ghost b4 = buf@;
        put_bytes(buf, 5, self.nonce.as_slice());
        proof {
            let m = self@;
            let f1 = number_field(1, m.timestamp as u64);
            let f2 = bytes_field(2, m.public_key);
            let f3 = bytes_field(3, m.signature);
            let f4 = bytes_field(4, encode_utf8(m.client_id));
            let f5 = bytes_field(5, m.nonce);
            appends_in_steps(b0, b1, b2, f1, f2);
            appends_in_steps(b0, b2, b3, f1 + f2, f3);
            appends_in_steps(b0, b3, b4, f1 + f2 + f3, f4);
            appends_in_steps(b0, b4, buf@, f1 + f2 + f3 + f4, f5);
        }
    }
}

impl ReadsBack for HandshakeRequest {
    proof fn fields_lead_back(m: HandshakeRequestView, depth: nat) {
        let m0 = Self::blank();
        let m1 = HandshakeRequestView { timestamp: m.timestamp, ..m0 };
        let m2 = HandshakeRequestView { public_key: m.public_key, ..m1 };
        let m3 = HandshakeRequestView { signature: m.signature, ..m2 };
        let m4 = HandshakeRequestView { client_id: m.client_id, ..m3 };
        let m5 = m;
        signed_reads_back(m.timestamp);
        with_number_field::<Self>(m0, 1, m.timestamp as u64, m1, depth);
        assert(m.public_key.len() == 0 ==> m.public_key =~= Seq::empty());
        with_bytes_field::<Self>(m1, 2, m.public_key, m2, depth);
        assert(m.signature.len() == 0 ==> m.signature =~= Seq::empty());
        with_bytes_field::<Self>(m2, 3, m.signature, m3, depth);
        text_reads_back(m.client_id);
        with_bytes_field::<Self>(m3, 4, encode_utf8(m.client_id), m4, depth);
        assert(m.nonce.len() == 0 ==> m.nonce =~= Seq::empty());
        with_bytes_field::<Self>(m4, 5, m.nonce, m5, depth);
        let f1 = number_field(1, m.timestamp as u64);
        let f2 = bytes_field(2, m.public_key);
        let f3 = bytes_field(3, m.signature);
        let f4 = bytes_field(4, encode_utf8(m.client_id));
        let f5 = bytes_field(5, m.nonce);
        with_more_fields::<Self>(m0, f1, m1, f2, m2, depth);
        all_proper_concat(f1, f2);
        with_more_fields::<Self>(m0, f1 + f2, m2, f3, m3, depth);
        all_proper_concat(f1 + f2, f3);
        with_more_fields::<Self>(m0, f1 + f2 + f3, m3, f4, m4, depth);
        all_proper_concat(f1 + f2 + f3, f4);
        with_more_fields::<Self>(m0, f1 + f2 + f3 + f4, m4, f5, m5, depth);
        all_proper_concat(f1 + f2 + f3 + f4, f5);
        proper_is_writable(Self::to_fields(m));
    }
}

impl WireMessage for HandshakeResponse {
    open spec fn blank() -> HandshakeResponseView {
        HandshakeResponseView {
            accepted: false,
            error: Seq::empty(),
            session_id: Seq::empty(),
        }
    }

    open spec fn to_fields(m: HandshakeResponseView) -> Seq<FieldView> {
        number_field(1, bool_number(m.accepted))
            + bytes_field(2, encode_utf8(m.error))
            + bytes_field(3, encode_utf8(m.session_id))
    }

    open spec fn with_field(m: HandshakeResponseView, f: FieldView, depth: nat) -> Option<HandshakeResponseView> {
        if f.tag == 1 {
            match number_in(f) {
                Some(n) => Some(HandshakeResponseView { accepted: n != 0, ..m }),
                None => None,
            }
        } else if f.tag == 2 {
            match text_in(f) {
                Some(text) => Some(HandshakeResponseView { error: text, ..m }),
                None => None,
            }
        } else if f.tag == 3 {
            match text_in(f) {
                Some(text) => Some(HandshakeResponseView { session_id: text, ..m }),
                None => None,
            }
        } else {
            Some(m)
        }
    }

    open spec fn nesting() -> nat {
        0
    }

    fn new_blank() -> HandshakeResponse {
        let m = HandshakeResponse {
            accepted: false,
            error: String::new(),
            session_id: String::new(),
        };
        assert(m@ =~= Self::blank());
        m
    }

    fn set_field(&mut self, field: Field, depth: usize) -> bool {
        if field.tag == 1 {
            match take_number(field) {
                Some(n) => {
                    self.accepted = n != 0;
                    true
                },
                None => false,
            }
        } else if field.tag == 2 {
            match take_text(field) {
                Some(text) => {
                    self.error = text;
                    true
                },
                None => false,
            }
        } else if field.tag == 3 {
            match take_text(field) {
                Some(text) => {
                    self.session_id = text;
                    true
                },
                None => false,
            }
        } else {
            true
        }
    }

    fn put_fields(&self, buf: &mut Vec<u8>) {
        let ghost b0 = buf@;
        put_number(buf, 1, if self.accepted {
            1
        } else {
            0
        });
        let ghost b1 = buf@;
        put_bytes(buf, 2, self.error.as_str().as_bytes());
        let ghost b2 = buf@;
        put_bytes(buf, 3, self.session_id.as_str().as_bytes());
        proof {
            let m = self@;
            let f1 = number_field(1, bool_number(m.accepted));
            let f2 = bytes_field(2, encode_utf8(m.error));
            let f3 = bytes_field(3, encode_utf8(m.session_id));
            appends_in_steps(b0, b1, b2, f1, f2);
            appends_in_steps(b0, b2, buf@, f1 + f2, f3);
        }
    }
}

impl ReadsBack for HandshakeResponse {
    proof fn fields_lead_back(m: HandshakeResponseView, depth: nat) {
        let m0 = Self::blank();
        let m1 = HandshakeResponseView { accepted: m.accepted, ..m0 };
        let m2 = HandshakeResponseView { error: m.error, ..m1 };
        let m3 = m;
        with_number_field::<Self>(m0, 1, bool_number(m.accepted), m1, depth);
        text_reads_back(m.error);
        with_bytes_field::<Self>(m1, 2, encode_utf8(m.error), m2, depth);
        text_reads_back(m.session_id);
        with_bytes_field::<Self>(m2, 3, encode_utf8(m.session_id), m3, depth);
        let f1 = number_field(1, bool_number(m.accepted));
        let f2 = bytes_field(2, encode_utf8(m.error));
        let f3 = bytes_field(3, encode_utf8(m.session_id));
        with_more_fields::<Self>(m0, f1, m1, f2, m2, depth);
        all_proper_concat(f1, f2);
        with_more_fields::<Self>(m0, f1 + f2, m2, f3, m3, depth);
        all_proper_concat(f1 + f2, f3);
        proper_is_writable(Self::to_fields(m));
    }
}

impl WireMessage for Ping {
    open spec fn blank() -> PingView {
        PingView {
            timestamp: 0,
        }
    }

    open spec fn to_fields(m: PingView) -> Seq<FieldView> {
        number_field(1, m.timestamp as u64)
    }

    open spec fn with_field(m: PingView, f: FieldView, depth: nat) -> Option<PingView> {
        if f.tag == 1 {
            match number_in(f) {
                Some(n) => Some(PingView { timestamp: n as i64, ..m }),
                None => None,
            }
        } else {
            Some(m)
        }
    }

    open spec fn nesting() -> nat {
        0
    }

    fn new_blank() -> Ping {
        let m = Ping {
            timestamp: 0,
        };
        assert(m@ =~= Self::blank());
        m
    }

    fn set_field(&mut self, field: Field, depth: usize) -> bool {
        if field.tag == 1 {
            match take_number(field) {
                Some(n) => {
                    self.timestamp = n as i64;
                    true
                },
                None => false,
            }
        } else {
            true
        }
    }

    fn put_fields(&self, buf: &mut Vec<u8>) {
        put_number(buf, 1, self.timestamp as u64);
    }
}

impl ReadsBack for Ping {
    proof fn fields_lead_back(m: PingView, depth: nat) {
        let m0 = Self::blank();
        let m1 = m;
        signed_reads_back(m.timestamp);
        with_number_field::<Self>(m0, 1, m.timestamp as u64, m1, depth);
        proper_is_writable(Self::to_fields(m));
    }
}

impl WireMessage for Pong {
    open spec fn blank() -> PongView {
        PongView {
            timestamp: 0,
        }
    }

    open spec fn to_fields(m: PongView) -> Seq<FieldView> {
        number_field(1, m.timestamp as u64)
    }

    open spec fn with_field(m: PongView, f: FieldView, depth: nat) -> Option<PongView> {
        if f.tag == 1 {
            match number_in(f) {
                Some(n) => Some(PongView { timestamp: n as i64, ..m }),
                None => None,
            }
        } else {
            Some(m)
        }
    }

    open spec fn nesting() -> nat {
        0
    }

    fn new_blank() -> Pong {
        let m = Pong {
            timestamp: 0,
        };
        assert(m@ =~= Self::blank());
        m
    }

    fn set_field(&mut self, field: Field, depth: usize) -> bool {
        if field.tag == 1 {
            match take_number(field) {
                Some(n) => {
                    self.timestamp = n as i64;
                    true
                },
                None => false,
            }
        } else {
            true
        }
    }

    fn put_fields(&self, buf: &mut Vec<u8>) {
        put_number(buf, 1, self.timestamp as u64);
    }
}

impl ReadsBack for Pong {
    proof fn fields_lead_back(m: PongView, depth: nat) {
        let m0 = Self::blank();
        let m1 = m;
        signed_reads_back(m.timestamp);
        with_number_field::<Self>(m0, 1, m.timestamp as u64, m1, depth);
        proper_is_writable(Self::to_fields(m));
    }
}

impl WireMessage for TransactionRequest {
    open spec fn blank() -> TransactionRequestView {
        TransactionRequestView {
            chain_id: 0,
            transaction: Seq::empty(),
        }
    }

    open spec fn to_fields(m: TransactionRequestView) -> Seq<FieldView> {
        number_field(1, m.chain_id)
            + repeated_field(2, m.transaction)
    }

    open spec fn with_field(m: TransactionRequestView, f: FieldView, depth: nat) -> Option<TransactionRequestView> {
        if f.tag == 1 {
            match number_in(f) {
                Some(n) => Some(TransactionRequestView { chain_id: n, ..m }),
                None => None,
            }
        } else if f.tag == 2 {
            match bytes_in(f) {
                Some(value) => Some(TransactionRequestView { transaction: m.transaction.push(value), ..m }),
                None => None,
            }
        } else {
            Some(m)
        }
    }

    open spec fn nesting() -> nat {
        0
    }

    fn new_blank() -> TransactionRequest {
        let m = TransactionRequest {
            chain_id: 0,
            transaction: Vec::new(),
        };
        assert(m@ =~= Self::blank());
        m
    }

    fn set_field(&mut self, field: Field, depth: usize) -> bool {
        if field.tag == 1 {
            match take_number(field) {
                Some(n) => {
                    self.chain_id = n;
                    true
                },
                None => false,
            }
        } else if field.tag == 2 {
            match take_bytes(field) {
                Some(value) => {
                    let ghost before = byte_strings(self.transaction@);
                    self.transaction.push(value);
                    assert(byte_strings(self.transaction@) =~= before.push(value@));
                    true
                },
                None => false,
            }
        } else {
            true
        }
    }

    fn put_fields(&self, buf: &mut Vec<u8>) {
        let ghost b0 = buf@;
        put_number(buf, 1, self.chain_id);
        let ghost b1 = buf@;
        put_repeated(buf, 2, &self.transaction);
        proof {
            let m = self@;
            let f1 = number_field(1, m.chain_id);
            let f2 = repeated_field(2, m.transaction);
            appends_in_steps(b0, b1, buf@, f1, f2);
        }
    }
}

/// The byte strings that were written are added when they are read back.
proof fn transaction_request_transaction_read_back(m: TransactionRequestView, list: Seq<Seq<u8>>, depth: nat)
    ensures
        with_fields::<TransactionRequest>(m, repeated_field(2, list), depth) == Some(
            TransactionRequestView { transaction: m.transaction + list, ..m },
        ),
    decreases list.len(),
{
    let fields = repeated_field(2, list);
    if list.len() == 0 {
        assert(m.transaction + list =~= m.transaction);
    } else {
        transaction_request_transaction_read_back(m, list.drop_last(), depth);
        assert(fields.drop_last() =~= repeated_field(2, list.drop_last()));
        assert((m.transaction + list.drop_last()).push(list.last()) =~= m.transaction + list);
    }
}

impl ReadsBack for TransactionRequest {
    proof fn fields_lead_back(m: TransactionRequestView, depth: nat) {
        let m0 = Self::blank();
        let m1 = TransactionRequestView { chain_id: m.chain_id, ..m0 };
        let m2 = m;
        with_number_field::<Self>(m0, 1, m.chain_id, m1, depth);
        transaction_request_transaction_read_back(m1, m.transaction, depth);
        assert(m1.transaction + m.transaction =~= m.transaction);
        let f1 = number_field(1, m.chain_id);
        let f2 = repeated_field(2, m.transaction);
        with_more_fields::<Self>(m0, f1, m1, f2, m2, depth);
        all_proper_concat(f1, f2);
        proper_is_writable(Self::to_fields(m));
    }
}

/// The fields of a list of requests to single chains.
pub open spec fn transaction_request_fields(list: Seq<TransactionRequestView>) -> Seq<FieldView> {
    list.map_values(
        |t: TransactionRequestView|
            FieldView {
                tag: 1,
                value: FieldValueView::Delimited(message_bytes::<TransactionRequest>(t)),
            },
    )
}

impl WireMessage for XtRequest {
    open spec fn blank() -> XtRequestView {
        XtRequestView { transaction_requests: Seq::empty() }
    }

    open spec fn to_fields(m: XtRequestView) -> Seq<FieldView> {
        transaction_request_fields(m.transaction_requests)
    }

    open spec fn with_field(m: XtRequestView, f: FieldView, depth: nat) -> Option<XtRequestView> {
        if f.tag == 1 {
            match message_in::<TransactionRequest>(TransactionRequest::blank(), f, depth) {
                Some(t) => Some(
                    XtRequestView { transaction_requests: m.transaction_requests.push(t) },
                ),
                None => None,
            }
        } else {
            Some(m)
        }
    }

    open spec fn nesting() -> nat {
        1
    }

    fn new_blank() -> XtRequest {
        let m = XtRequest { transaction_requests: Vec::new() };
        assert(m@ =~= Self::blank());
        m
    }

    fn set_field(&mut self, field: Field, depth: usize) -> bool {
        if field.tag == 1 {
            match take_message(TransactionRequest::new_blank(), field, depth) {
                Some(t) => {
                    let ghost before = self@.transaction_requests;
                    self.transaction_requests.push(t);
                    assert(self@.transaction_requests =~= before.push(t@));
                    true
                },
                None => false,
            }
        } else {
            true
        }
    }

    fn put_fields(&self, buf: &mut Vec<u8>) {
        let ghost all = Self::to_fields(self@);
        assert(buf@ =~= old(buf)@ + fields_bytes(all.take(0)));
        for i in 0..self.transaction_requests.len()
            invariant
                all == Self::to_fields(self@),
                appends(old(buf)@, buf@, all.take(i as int)),
        {
            let ghost middle = buf@;
            let inner = to_bytes(&self.transaction_requests[i]);
            put_always(buf, 1, inner.as_slice());
            proof {
                appends_in_steps(
                    old(buf)@,
                    middle,
                    buf@,
                    all.take(i as int),
                    always_field(1, inner@),
                );
                assert(all.take(i + 1) =~= all.take(i as int) + always_field(1, inner@));
            }
        }
        assert(all.take(all.len() as int) =~= all);
    }
}

/// The requests that were written are added when they are read back.
proof fn transaction_requests_read_back(
    m: XtRequestView,
    list: Seq<TransactionRequestView>,
    depth: nat,
)
    requires
        depth >= 1,
        fields_bytes(transaction_request_fields(list)).len() <= u64::MAX,
    ensures
        with_fields::<XtRequest>(m, transaction_request_fields(list), depth) == Some(
            XtRequestView { transaction_requests: m.transaction_requests + list },
        ),
    decreases list.len(),
{
    let fields = transaction_request_fields(list);
    if list.len() == 0 {
        assert(m.transaction_requests + list =~= m.transaction_requests);
    } else {
        assert(fields.drop_last() =~= transaction_request_fields(list.drop_last()));
        assert(fields.last() == fields[list.len() - 1]);
        assert(field_bytes(fields.last()).len() <= fields_bytes(fields).len());
        transaction_requests_read_back(m, list.drop_last(), depth);
        message_reads_back::<TransactionRequest>(list.last(), (depth - 1) as nat);
        assert((m.transaction_requests + list.drop_last()).push(list.last())
            =~= m.transaction_requests + list);
    }
}

impl ReadsBack for XtRequest {
    proof fn fields_lead_back(m: XtRequestView, depth: nat) {
        transaction_requests_read_back(Self::blank(), m.transaction_requests, depth);
        assert(Seq::<TransactionRequestView>::empty() + m.transaction_requests
            =~= m.transaction_requests);
        proper_is_writable(Self::to_fields(m));
    }
}

/// The field of the request in an announcement: none where there is no request.
pub open spec fn xt_request_field(x: Option<XtRequestView>) -> Seq<FieldView> {
    match x {
        Some(x) => always_field(4, message_bytes::<XtRequest>(x)),
        None => Seq::empty(),
    }
}

impl WireMessage for StartInstance {
    open spec fn blank() -> StartInstanceView {
        StartInstanceView {
            instance_id: Seq::empty(),
            period_id: 0,
            sequence_number: 0,
            xt_request: None,
        }
    }

    open spec fn to_fields(m: StartInstanceView) -> Seq<FieldView> {
        bytes_field(1, m.instance_id)
            + number_field(2, m.period_id)
            + number_field(3, m.sequence_number)
            + xt_request_field(m.xt_request)
    }

    open spec fn with_field(m: StartInstanceView, f: FieldView, depth: nat) -> Option<StartInstanceView> {
        if f.tag == 1 {
            match bytes_in(f) {
                Some(value) => Some(StartInstanceView { instance_id: value, ..m }),
                None => None,
            }
        } else if f.tag == 2 {
            match number_in(f) {
                Some(n) => Some(StartInstanceView { period_id: n, ..m }),
                None => None,
            }
        } else if f.tag == 3 {
            match number_in(f) {
                Some(n) => Some(StartInstanceView { sequence_number: n, ..m }),
                None => None,
            }
        } else if f.tag == 4 {
            let start = match m.xt_request {
                Some(x) => x,
                None => XtRequest::blank(),
            };
            match message_in::<XtRequest>(start, f, depth) {
                Some(x) => Some(StartInstanceView { xt_request: Some(x), ..m }),
                None => None,
            }
        } else {
            Some(m)
        }
    }

    open spec fn nesting() -> nat {
        2
    }

    fn new_blank() -> StartInstance {
        let m = StartInstance {
            instance_id: Vec::new(),
            period_id: 0,
            sequence_number: 0,
            xt_request: None,
        };
        assert(m@ =~= Self::blank());
        m
    }

    fn set_field(&mut self, field: Field, depth: usize) -> bool {
        if field.tag == 1 {
            match take_bytes(field) {
                Some(value) => {
                    self.instance_id = value;
                    true
                },
                None => false,
            }
        } else if field.tag == 2 {
            match take_number(field) {
                Some(n) => {
                    self.period_id = n;
                    true
                },
                None => false,
            }
        } else if field.tag == 3 {
            match take_number(field) {
                Some(n) => {
                    self.sequence_number = n;
                    true
                },
                None => false,
            }
        } else if field.tag == 4 {
            let start = match self.xt_request.take() {
                Some(x) => x,
                None => XtRequest::new_blank(),
            };
            match take_message(start, field, depth) {
                Some(x) => {
                    self.xt_request = Some(x);
                    true
                },
                None => false,
            }
        } else {
            true
        }
    }

    fn put_fields(&self, buf: &mut Vec<u8>) {
        let ghost b0 = buf@;
        put_bytes(buf, 1, self.instance_id.as_slice());
        let ghost b1 = buf@;
        put_number(buf, 2, self.period_id);
        let ghost b2 = buf@;
        put_number(buf, 3, self.sequence_number);
        let ghost b3 = buf@;
        match &self.xt_request {
            Some(x) => {
                let inner = to_bytes(x);
                put_always(buf, 4, inner.as_slice());
            },
            None => {
                assert(buf@ =~= b3 + fields_bytes(Seq::empty()));
            },
        }
        proof {
            let m = self@;
            let f1 = bytes_field(1, m.instance_id);
            let f2 = number_field(2, m.period_id);
            let f3 = number_field(3, m.sequence_number);
            let f4 = xt_request_field(m.xt_request);
            appends_in_steps(b0, b1, b2, f1, f2);
            appends_in_steps(b0, b2, b3, f1 + f2, f3);
            appends_in_steps(b0, b3, buf@, f1 + f2 + f3, f4);
        }
    }
}

impl ReadsBack for StartInstance {
    proof fn fields_lead_back(m: StartInstanceView, depth: nat) {
        let m0 = Self::blank();
        let m1 = StartInstanceView { instance_id: m.instance_id, ..m0 };
        let m2 = StartInstanceView { period_id: m.period_id, ..m1 };
        let m3 = StartInstanceView { sequence_number: m.sequence_number, ..m2 };
        let m4 = m;
        assert(m.instance_id.len() == 0 ==> m.instance_id =~= Seq::empty());
        with_bytes_field::<Self>(m0, 1, m.instance_id, m1, depth);
        with_number_field::<Self>(m1, 2, m.period_id, m2, depth);
        with_number_field::<Self>(m2, 3, m.sequence_number, m3, depth);
        if let Some(x) = m.xt_request {
            let fields = Self::to_fields(m);
            let last = fields.len() - 1;
            assert(fields[last].value == FieldValueView::Delimited(message_bytes::<XtRequest>(x)));
            field_bytes_bounded(fields, last);
            message_reads_back::<XtRequest>(x, (depth - 1) as nat);
            with_always_field::<Self>(m3, 4, message_bytes::<XtRequest>(x), m4, depth);
        }
        let f1 = bytes_field(1, m.instance_id);
        let f2 = number_field(2, m.period_id);
        let f3 = number_field(3, m.sequence_number);
        let f4 = xt_request_field(m.xt_request);
        with_more_fields::<Self>(m0, f1, m1, f2, m2, depth);
        all_proper_concat(f1, f2);
        with_more_fields::<Self>(m0, f1 + f2, m2, f3, m3, depth);
        all_proper_concat(f1 + f2, f3);
        with_more_fields::<Self>(m0, f1 + f2 + f3, m3, f4, m4, depth);
        all_proper_concat(f1 + f2 + f3, f4);
        proper_is_writable(Self::to_fields(m));
    }
}

impl WireMessage for Vote {
    open spec fn blank() -> VoteView {
        VoteView {
            instance_id: Seq::empty(),
            chain_id: 0,
            vote: false,
        }
    }

    open spec fn to_fields(m: VoteView) -> Seq<FieldView> {
        bytes_field(1, m.instance_id)
            + number_field(2, m.chain_id)
            + number_field(3, bool_number(m.vote))
    }

    open spec fn with_field(m: VoteView, f: FieldView, depth: nat) -> Option<VoteView> {
        if f.tag == 1 {
            match bytes_in(f) {
                Some(value) => Some(VoteView { instance_id: value, ..m }),
                None => None,
            }
        } else if f.tag == 2 {
            match number_in(f) {
                Some(n) => Some(VoteView { chain_id: n, ..m }),
                None => None,
            }
        } else if f.tag == 3 {
            match number_in(f) {
                Some(n) => Some(VoteView { vote: n != 0, ..m }),
                None => None,
            }
        } else {
            Some(m)
        }
    }

    open spec fn nesting() -> nat {
        0
    }

    fn new_blank() -> Vote {
        let m = Vote {
            instance_id: Vec::new(),
            chain_id: 0,
            vote: false,
        };
        assert(m@ =~= Self::blank());
        m
    }

    fn set_field(&mut self, field: Field, depth: usize) -> bool {
        if field.tag == 1 {
            match take_bytes(field) {
                Some(value) => {
                    self.instance_id = value;
                    true
                },
                None => false,
            }
        } else if field.tag == 2 {
            match take_number(field) {
                Some(n) => {
                    self.chain_id = n;
                    true
                },
                None => false,
            }
        } else if field.tag == 3 {
            match take_number(field) {
                Some(n) => {
                    self.vote = n != 0;
                    true
                },
                None => false,
            }
        } else {
            true
        }
    }

    fn put_fields(&self, buf: &mut Vec<u8>) {
        let ghost b0 = buf@;
        put_bytes(buf, 1, self.instance_id.as_slice());
        let ghost b1 = buf@;
        put_number(buf, 2, self.chain_id);
        let ghost b2 = buf@;
        put_number(buf, 3, if self.vote {
            1
        } else {
            0
        });
        proof {
            let m = self@;
            let f1 = bytes_field(1, m.instance_id);
            let f2 = number_field(2, m.chain_id);
            let f3 = number_field(3, bool_number(m.vote));
            appends_in_steps(b0, b1, b2, f1, f2);
            appends_in_steps(b0, b2, buf@, f1 + f2, f3);
        }
    }
}

impl ReadsBack for Vote {
    proof fn fields_lead_back(m: VoteView, depth: nat) {
        let m0 = Self::blank();
        let m1 = VoteView { instance_id: m.instance_id, ..m0 };
        let m2 = VoteView { chain_id: m.chain_id, ..m1 };
        let m3 = m;
        assert(m.instance_id.len() == 0 ==> m.instance_id =~= Seq::empty());
        with_bytes_field::<Self>(m0, 1, m.instance_id, m1, depth);
        with_number_field::<Self>(m1, 2, m.chain_id, m2, depth);
        with_number_field::<Self>(m2, 3, bool_number(m.vote), m3, depth);
        let f1 = bytes_field(1, m.instance_id);
        let f2 = number_field(2, m.chain_id);
        let f3 = number_field(3, bool_number(m.vote));
        with_more_fields::<Self>(m0, f1, m1, f2, m2, depth);
        all_proper_concat(f1, f2);
        with_more_fields::<Self>(m0, f1 + f2, m2, f3, m3, depth);
        all_proper_concat(f1 + f2, f3);
        proper_is_writable(Self::to_fields(m));
    }
}

impl WireMessage for Decided {
    open spec fn blank() -> DecidedView {
        DecidedView {
            instance_id: Seq::empty(),
            decision: false,
        }
    }

    open spec fn to_fields(m: DecidedView) -> Seq<FieldView> {
        bytes_field(1, m.instance_id)
            + number_field(2, bool_number(m.decision))
    }

    open spec fn with_field(m: DecidedView, f: FieldView, depth: nat) -> Option<DecidedView> {
        if f.tag == 1 {
            match bytes_in(f) {
                Some(value) => Some(DecidedView { instance_id: value, ..m }),
                None => None,
            }
        } else if f.tag == 2 {
            match number_in(f) {
                Some(n) => Some(DecidedView { decision: n != 0, ..m }),
                None => None,
            }
        } else {
            Some(m)
        }
    }

    open spec fn nesting() -> nat {
        0
    }

    fn new_blank() -> Decided {
        let m = Decided {
            instance_id: Vec::new(),
            decision: false,
        };
        assert(m@ =~= Self::blank());
        m
    }

    fn set_field(&mut self, field: Field, depth: usize) -> bool {
        if field.tag == 1 {
            match take_bytes(field) {
                Some(value) => {
                    self.instance_id = value;
                    true
                },
                None => false,
            }
        } else if field.tag == 2 {
            match take_number(field) {
                Some(n) => {
                    self.decision = n != 0;
                    true
                },
                None => false,
            }
        } else {
            true
        }
    }

    fn put_fields(&self, buf: &mut Vec<u8>) {
        let ghost b0 = buf@;
        put_bytes(buf, 1, self.instance_id.as_slice());
        let ghost b1 = buf@;
        put_number(buf, 2, if self.decision {
            1
        } else {
            0
        });
        proof {
            let m = self@;
            let f1 = bytes_field(1, m.instance_id);
            let f2 = number_field(2, bool_number(m.decision));
            appends_in_steps(b0, b1, buf@, f1, f2);
        }
    }
}

impl ReadsBack for Decided {
    proof fn fields_lead_back(m: DecidedView, depth: nat) {
        let m0 = Self::blank();
        let m1 = DecidedView { instance_id: m.instance_id, ..m0 };
        let m2 = m;
        assert(m.instance_id.len() == 0 ==> m.instance_id =~= Seq::empty());
        with_bytes_field::<Self>(m0, 1, m.instance_id, m1, depth);
        with_number_field::<Self>(m1, 2, bool_number(m.decision), m2, depth);
        let f1 = bytes_field(1, m.instance_id);
        let f2 = number_field(2, bool_number(m.decision));
        with_more_fields::<Self>(m0, f1, m1, f2, m2, depth);
        all_proper_concat(f1, f2);
        proper_is_writable(Self::to_fields(m));
    }
}

impl WireMessage for MailboxMessage {
    open spec fn blank() -> MailboxMessageView {
        MailboxMessageView {
            session_id: 0,
            instance_id: Seq::empty(),
            source_chain: 0,
            destination_chain: 0,
            source: Seq::empty(),
            receiver: Seq::empty(),
            label: Seq::empty(),
            data: Seq::empty(),
        }
    }

    open spec fn to_fields(m: MailboxMessageView) -> Seq<FieldView> {
        number_field(1, m.session_id)
            + bytes_field(2, m.instance_id)
            + number_field(3, m.source_chain)
            + number_field(4, m.destination_chain)
            + bytes_field(5, m.source)
            + bytes_field(6, m.receiver)
            + bytes_field(7, encode_utf8(m.label))
            + repeated_field(8, m.data)
    }

    open spec fn with_field(m: MailboxMessageView, f: FieldView, depth: nat) -> Option<MailboxMessageView> {
        if f.tag == 1 {
            match number_in(f) {
                Some(n) => Some(MailboxMessageView { session_id: n, ..m }),
                None => None,
            }
        } else if f.tag == 2 {
            match bytes_in(f) {
                Some(value) => Some(MailboxMessageView { instance_id: value, ..m }),
                None => None,
            }
        } else if f.tag == 3 {
            match number_in(f) {
                Some(n) => Some(MailboxMessageView { source_chain: n, ..m }),
                None => None,
            }
        } else if f.tag == 4 {
            match number_in(f) {
                Some(n) => Some(MailboxMessageView { destination_chain: n, ..m }),
                None => None,
            }
        } else if f.tag == 5 {
            match bytes_in(f) {
                Some(value) => Some(MailboxMessageView { source: value, ..m }),
                None => None,
            }
        } else if f.tag == 6 {
            match bytes_in(f) {
                Some(value) => Some(MailboxMessageView { receiver: value, ..m }),
                None => None,
            }
        } else if f.tag == 7 {
            match text_in(f) {
                Some(text) => Some(MailboxMessageView { label: text, ..m }),
                None => None,
            }
        } else if f.tag == 8 {
            match bytes_in(f) {
                Some(value) => Some(MailboxMessageView { data: m.data.push(value), ..m }),
                None => None,
            }
        } else {
            Some(m)
        }
    }

    open spec fn nesting() -> nat {
        0
    }

    fn new_blank() -> MailboxMessage {
        let m = MailboxMessage {
            session_id: 0,
            instance_id: Vec::new(),
            source_chain: 0,
            destination_chain: 0,
            source: Vec::new(),
            receiver: Vec::new(),
            label: String::new(),
            data: Vec::new(),
        };
        assert(m@ =~= Self::blank());
        m
    }

    fn set_field(&mut self, field: Field, depth: usize) -> bool {
        if field.tag == 1 {
            match take_number(field) {
                Some(n) => {
                    self.session_id = n;
                    true
                },
                None => false,
            }
        } else if field.tag == 2 {
            match take_bytes(field) {
                Some(value) => {
                    self.instance_id = value;
                    true
                },
                None => false,
            }
        } else if field.tag == 3 {
            match take_number(field) {
                Some(n) => {
                    self.source_chain = n;
                    true
                },
                None => false,
            }
        } else if field.tag == 4 {
            match take_number(field) {
                Some(n) => {
                    self.destination_chain = n;
                    true
                },
                None => false,
            }
        } else if field.tag == 5 {
            match take_bytes(field) {
                Some(value) => {
                    self.source = value;
                    true
                },
                None => false,
            }
        } else if field.tag == 6 {
            match take_bytes(field) {
                Some(value) => {
                    self.receiver = value;
                    true
                },
                None => false,
            }
        } else if field.tag == 7 {
            match take_text(field) {
                Some(text) => {
                    self.label = text;
                    true
                },
                None => false,
            }
        } else if field.tag == 8 {
            match take_bytes(field) {
                Some(value) => {
                    let ghost before = byte_strings(self.data@);
                    self.data.push(value);
                    assert(byte_strings(self.data@) =~= before.push(value@));
                    true
                },
                None => false,
            }
        } else {
            true
        }
    }

    fn put_fields(&self, buf: &mut Vec<u8>) {
        let ghost b0 = buf@;
        put_number(buf, 1, self.session_id);
        let ghost b1 = buf@;
        put_bytes(buf, 2, self.instance_id.as_slice());
        let ghost b2 = buf@;
        put_number(buf, 3, self.source_chain);
        let ghost b3 = buf@;
        put_number(buf, 4, self.destination_chain);
        let ghost b4 = buf@;
        put_bytes(buf, 5, self.source.as_slice());
        let ghost b5 = buf@;
        put_bytes(buf, 6, self.receiver.as_slice());
        let ghost b6 = buf@;
        put_bytes(buf, 7, self.label.as_str().as_bytes());
        let ghost b7 = buf@;
        put_repeated(buf, 8, &self.data);
        proof {
            let m = self@;
            let f1 = number_field(1, m.session_id);
            let f2 = bytes_field(2, m.instance_id);
            let f3 = number_field(3, m.source_chain);
            let f4 = number_field(4, m.destination_chain);
            let f5 = bytes_field(5, m.source);
            let f6 = bytes_field(6, m.receiver);
            let f7 = bytes_field(7, encode_utf8(m.label));
            let f8 = repeated_field(8, m.data);
            appends_in_steps(b0, b1, b2, f1, f2);
            appends_in_steps(b0, b2, b3, f1 + f2, f3);
            appends_in_steps(b0, b3, b4, f1 + f2 + f3, f4);
            appends_in_steps(b0, b4, b5, f1 + f2 + f3 + f4, f5);
            appends_in_steps(b0, b5, b6, f1 + f2 + f3 + f4 + f5, f6);
            appends_in_steps(b0, b6, b7, f1 + f2 + f3 + f4 + f5 + f6, f7);
            appends_in_steps(b0, b7, buf@, f1 + f2 + f3 + f4 + f5 + f6 + f7, f8);
        }
    }
}

/// The byte strings that were written are added when they are read back.
proof fn mailbox_message_data_read_back(m: MailboxMessageView, list: Seq<Seq<u8>>, depth: nat)
    ensures
        with_fields::<MailboxMessage>(m, repeated_field(8, list), depth) == Some(
            MailboxMessageView { data: m.data + list, ..m },
        ),
    decreases list.len(),
{
    let fields = repeated_field(8, list);
    if list.len() == 0 {
        assert(m.data + list =~= m.data);
    } else {
        mailbox_message_data_read_back(m, list.drop_last(), depth);
        assert(fields.drop_last() =~= repeated_field(8, list.drop_last()));
        assert((m.data + list.drop_last()).push(list.last()) =~= m.data + list);
    }
}

impl ReadsBack for MailboxMessage {
    proof fn fields_lead_back(m: MailboxMessageView, depth: nat) {
        let m0 = Self::blank();
        let m1 = MailboxMessageView { session_id: m.session_id, ..m0 };
        let m2 = MailboxMessageView { instance_id: m.instance_id, ..m1 };
        let m3 = MailboxMessageView { source_chain: m.source_chain, ..m2 };
        let m4 = MailboxMessageView { destination_chain: m.destination_chain, ..m3 };
        let m5 = MailboxMessageView { source: m.source, ..m4 };
        let m6 = MailboxMessageView { receiver: m.receiver, ..m5 };
        let m7 = MailboxMessageView { label: m.label, ..m6 };
        let m8 = m;
        with_number_field::<Self>(m0, 1, m.session_id, m1, depth);
        assert(m.instance_id.len() == 0 ==> m.instance_id =~= Seq::empty());
        with_bytes_field::<Self>(m1, 2, m.instance_id, m2, depth);
        with_number_field::<Self>(m2, 3, m.source_chain, m3, depth);
        with_number_field::<Self>(m3, 4, m.destination_chain, m4, depth);
        assert(m.source.len() == 0 ==> m.source =~= Seq::empty());
        with_bytes_field::<Self>(m4, 5, m.source, m5, depth);
        assert(m.receiver.len() == 0 ==> m.receiver =~= Seq::empty());
        with_bytes_field::<Self>(m5, 6, m.receiver, m6, depth);
        text_reads_back(m.label);
        with_bytes_field::<Self>(m6, 7, encode_utf8(m.label), m7, depth);
        mailbox_message_data_read_back(m7, m.data, depth);
        assert(m7.data + m.data =~= m.data);
        let f1 = number_field(1, m.session_id);
        let f2 = bytes_field(2, m.instance_id);
        let f3 = number_field(3, m.source_chain);
        let f4 = number_field(4, m.destination_chain);
        let f5 = bytes_field(5, m.source);
        let f6 = bytes_field(6, m.receiver);
        let f7 = bytes_field(7, encode_utf8(m.label));
        let f8 = repeated_field(8, m.data);
        with_more_fields::<Self>(m0, f1, m1, f2, m2, depth);
        all_proper_concat(f1, f2);
        with_more_fields::<Self>(m0, f1 + f2, m2, f3, m3, depth);
        all_proper_concat(f1 + f2, f3);
        with_more_fields::<Self>(m0, f1 + f2 + f3, m3, f4, m4, depth);
        all_proper_concat(f1 + f2 + f3, f4);
        with_more_fields::<Self>(m0, f1 + f2 + f3 + f4, m4, f5, m5, depth);
        all_proper_concat(f1 + f2 + f3 + f4, f5);
        with_more_fields::<Self>(m0, f1 + f2 + f3 + f4 + f5, m5, f6, m6, depth);
        all_proper_concat(f1 + f2 + f3 + f4 + f5, f6);
        with_more_fields::<Self>(m0, f1 + f2 + f3 + f4 + f5 + f6, m6, f7, m7, depth);
        all_proper_concat(f1 + f2 + f3 + f4 + f5 + f6, f7);
        with_more_fields::<Self>(m0, f1 + f2 + f3 + f4 + f5 + f6 + f7, m7, f8, m8, depth);
        all_proper_concat(f1 + f2 + f3 + f4 + f5 + f6 + f7, f8);
        proper_is_writable(Self::to_fields(m));
    }
}

impl WireMessage for StartPeriod {
    open spec fn blank() -> StartPeriodView {
        StartPeriodView {
            period_id: 0,
            superblock_number: 0,
        }
    }

    open spec fn to_fields(m: StartPeriodView) -> Seq<FieldView> {
        number_field(1, m.period_id)
            + number_field(2, m.superblock_number)
    }

    open spec fn with_field(m: StartPeriodView, f: FieldView, depth: nat) -> Option<StartPeriodView> {
        if f.tag == 1 {
            match number_in(f) {
                Some(n) => Some(StartPeriodView { period_id: n, ..m }),
                None => None,
            }
        } else if f.tag == 2 {
            match number_in(f) {
                Some(n) => Some(StartPeriodView { superblock_number: n, ..m }),
                None => None,
            }
        } else {
            Some(m)
        }
    }

    open spec fn nesting() -> nat {
        0
    }

    fn new_blank() -> StartPeriod {
        let m = StartPeriod {
            period_id: 0,
            superblock_number: 0,
        };
        assert(m@ =~= Self::blank());
        m
    }

    fn set_field(&mut self, field: Field, depth: usize) -> bool {
        if field.tag == 1 {
            match take_number(field) {
                Some(n) => {
                    self.period_id = n;
                    true
                },
                None => false,
            }
        } else if field.tag == 2 {
            match take_number(field) {
                Some(n) => {
                    self.superblock_number = n;
                    true
                },
                None => false,
            }
        } else {
            true
        }
    }

    fn put_fields(&self, buf: &mut Vec<u8>) {
        let ghost b0 = buf@;
        put_number(buf, 1, self.period_id);
        let ghost b1 = buf@;
        put_number(buf, 2, self.superblock_number);
        proof {
            let m = self@;
            let f1 = number_field(1, m.period_id);
            let f2 = number_field(2, m.superblock_number);
            appends_in_steps(b0, b1, buf@, f1, f2);
        }
    }
}

impl ReadsBack for StartPeriod {
    proof fn fields_lead_back(m: StartPeriodView, depth: nat) {
        let m0 = Self::blank();
        let m1 = StartPeriodView { period_id: m.period_id, ..m0 };
        let m2 = m;
        with_number_field::<Self>(m0, 1, m.period_id, m1, depth);
        with_number_field::<Self>(m1, 2, m.superblock_number, m2, depth);
        let f1 = number_field(1, m.period_id);
        let f2 = number_field(2, m.superblock_number);
        with_more_fields::<Self>(m0, f1, m1, f2, m2, depth);
        all_proper_concat(f1, f2);
        proper_is_writable(Self::to_fields(m));
    }
}

impl WireMessage for Rollback {
    open spec fn blank() -> RollbackView {
        RollbackView {
            period_id: 0,
            last_finalized_superblock_number: 0,
            last_finalized_superblock_hash: Seq::empty(),
        }
    }

    open spec fn to_fields(m: RollbackView) -> Seq<FieldView> {
        number_field(1, m.period_id)
            + number_field(2, m.last_finalized_superblock_number)
            + bytes_field(3, m.last_finalized_superblock_hash)
    }

    open spec fn with_field(m: RollbackView, f: FieldView, depth: nat) -> Option<RollbackView> {
        if f.tag == 1 {
            match number_in(f) {
                Some(n) => Some(RollbackView { period_id: n, ..m }),
                None => None,
            }
        } else if f.tag == 2 {
            match number_in(f) {
                Some(n) => Some(RollbackView { last_finalized_superblock_number: n, ..m }),
                None => None,
            }
        } else if f.tag == 3 {
            match bytes_in(f) {
                Some(value) => Some(RollbackView { last_finalized_superblock_hash: value, ..m }),
                None => None,
            }
        } else {
            Some(m)
        }
    }

    open spec fn nesting() -> nat {
        0
    }

    fn new_blank() -> Rollback {
        let m = Rollback {
            period_id: 0,
            last_finalized_superblock_number: 0,
            last_finalized_superblock_hash: Vec::new(),
        };
        assert(m@ =~= Self::blank());
        m
    }

    fn set_field(&mut self, field: Field, depth: usize) -> bool {
        if field.tag == 1 {
            match take_number(field) {
                Some(n) => {
                    self.period_id = n;
                    true
                },
                None => false,
            }
        } else if field.tag == 2 {
            match take_number(field) {
                Some(n) => {
                    self.last_finalized_superblock_number = n;
                    true
                },
                None => false,
            }
        } else if field.tag == 3 {
            match take_bytes(field) {
                Some(value) => {
                    self.last_finalized_superblock_hash = value;
                    true
                },
                None => false,
            }
        } else {
            true
        }
    }

    fn put_fields(&self, buf: &mut Vec<u8>) {
        let ghost b0 = buf@;
        put_number(buf, 1, self.period_id);
        let ghost b1 = buf@;
        put_number(buf, 2, self.last_finalized_superblock_number);
        let ghost b2 = buf@;
        put_bytes(buf, 3, self.last_finalized_superblock_hash.as_slice());
        proof {
            let m = self@;
            let f1 = number_field(1, m.period_id);
            let f2 = number_field(2, m.last_finalized_superblock_number);
            let f3 = bytes_field(3, m.last_finalized_superblock_hash);
            appends_in_steps(b0, b1, b2, f1, f2);
            appends_in_steps(b0, b2, buf@, f1 + f2, f3);
        }
    }
}

impl ReadsBack for Rollback {
    proof fn fields_lead_back(m: RollbackView, depth: nat) {
        let m0 = Self::blank();
        let m1 = RollbackView { period_id: m.period_id, ..m0 };
        let m2 = RollbackView { last_finalized_superblock_number: m.last_finalized_superblock_number, ..m1 };
        let m3 = m;
        with_number_field::<Self>(m0, 1, m.period_id, m1, depth);
        with_number_field::<Self>(m1, 2, m.last_finalized_superblock_number, m2, depth);
        assert(m.last_finalized_superblock_hash.len() == 0 ==> m.last_finalized_superblock_hash =~= Seq::empty());
        with_bytes_field::<Self>(m2, 3, m.last_finalized_superblock_hash, m3, depth);
        let f1 = number_field(1, m.period_id);
        let f2 = number_field(2, m.last_finalized_superblock_number);
        let f3 = bytes_field(3, m.last_finalized_superblock_hash);
        with_more_fields::<Self>(m0, f1, m1, f2, m2, depth);
        all_proper_concat(f1, f2);
        with_more_fields::<Self>(m0, f1 + f2, m2, f3, m3, depth);
        all_proper_concat(f1 + f2, f3);
        proper_is_writable(Self::to_fields(m));
    }
}

impl WireMessage for Proof {
    open spec fn blank() -> ProofView {
        ProofView {
            period_id: 0,
            superblock_number: 0,
            proof_data: Seq::empty(),
        }
    }

    open spec fn to_fields(m: ProofView) -> Seq<FieldView> {
        number_field(1, m.period_id)
            + number_field(2, m.superblock_number)
            + bytes_field(3, m.proof_data)
    }

    open spec fn with_field(m: ProofView, f: FieldView, depth: nat) -> Option<ProofView> {
        if f.tag == 1 {
            match number_in(f) {
                Some(n) => Some(ProofView { period_id: n, ..m }),
                None => None,
            }
        } else if f.tag == 2 {
            match number_in(f) {
                Some(n) => Some(ProofView { superblock_number: n, ..m }),
                None => None,
            }
        } else if f.tag == 3 {
            match bytes_in(f) {
                Some(value) => Some(ProofView { proof_data: value, ..m }),
                None => None,
            }
        } else {
            Some(m)
        }
    }

    open spec fn nesting() -> nat {
        0
    }

    fn new_blank() -> Proof {
        let m = Proof {
            period_id: 0,
            superblock_number: 0,
            proof_data: Vec::new(),
        };
        assert(m@ =~= Self::blank());
        m
    }

    fn set_field(&mut self, field: Field, depth: usize) -> bool {
        if field.tag == 1 {
            match take_number(field) {
                Some(n) => {
                    self.period_id = n;
                    true
                },
                None => false,
            }
        } else if field.tag == 2 {
            match take_number(field) {
                Some(n) => {
                    self.superblock_number = n;
                    true
                },
                None => false,
            }
        } else if field.tag == 3 {
            match take_bytes(field) {
                Some(value) => {
                    self.proof_data = value;
                    true
                },
                None => false,
            }
        } else {
            true
        }
    }

    fn put_fields(&self, buf: &mut Vec<u8>) {
        let ghost b0 = buf@;
        put_number(buf, 1, self.period_id);
        let ghost b1 = buf@;
        put_number(buf, 2, self.superblock_number);
        let ghost b2 = buf@;
        put_bytes(buf, 3, self.proof_data.as_slice());
        proof {
            let m = self@;
            let f1 = number_field(1, m.period_id);
            let f2 = number_field(2, m.superblock_number);
            let f3 = bytes_field(3, m.proof_data);
            appends_in_steps(b0, b1, b2, f1, f2);
            appends_in_steps(b0, b2, buf@, f1 + f2, f3);
        }
    }
}

impl ReadsBack for Proof {
    proof fn fields_lead_back(m: ProofView, depth: nat) {
        let m0 = Self::blank();
        let m1 = ProofView { period_id: m.period_id, ..m0 };
        let m2 = ProofView { superblock_number: m.superblock_number, ..m1 };
        let m3 = m;
        with_number_field::<Self>(m0, 1, m.period_id, m1, depth);
        with_number_field::<Self>(m1, 2, m.superblock_number, m2, depth);
        assert(m.proof_data.len() == 0 ==> m.proof_data =~= Seq::empty());
        with_bytes_field::<Self>(m2, 3, m.proof_data, m3, depth);
        let f1 = number_field(1, m.period_id);
        let f2 = number_field(2, m.superblock_number);
        let f3 = bytes_field(3, m.proof_data);
        with_more_fields::<Self>(m0, f1, m1, f2, m2, depth);
        all_proper_concat(f1, f2);
        with_more_fields::<Self>(m0, f1 + f2, m2, f3, m3, depth);
        all_proper_concat(f1 + f2, f3);
        proper_is_writable(Self::to_fields(m));
    }
}

impl WireMessage for NativeDecided {
    open spec fn blank() -> NativeDecidedView {
        NativeDecidedView {
            instance_id: Seq::empty(),
            decision: false,
        }
    }

    open spec fn to_fields(m: NativeDecidedView) -> Seq<FieldView> {
        bytes_field(1, m.instance_id)
            + number_field(2, bool_number(m.decision))
    }

    open spec fn with_field(m: NativeDecidedView, f: FieldView, depth: nat) -> Option<NativeDecidedView> {
        if f.tag == 1 {
            match bytes_in(f) {
                Some(value) => Some(NativeDecidedView { instance_id: value, ..m }),
                None => None,
            }
        } else if f.tag == 2 {
            match number_in(f) {
                Some(n) => Some(NativeDecidedView { decision: n != 0, ..m }),
                None => None,
            }
        } else {
            Some(m)
        }
    }

    open spec fn nesting() -> nat {
        0
    }

    fn new_blank() -> NativeDecided {
        let m = NativeDecided {
            instance_id: Vec::new(),
            decision: false,
        };
        assert(m@ =~= Self::blank());
        m
    }

    fn set_field(&mut self, field: Field, depth: usize) -> bool {
        if field.tag == 1 {
            match take_bytes(field) {
                Some(value) => {
                    self.instance_id = value;
                    true
                },
                None => false,
            }
        } else if field.tag == 2 {
            match take_number(field) {
                Some(n) => {
                    self.decision = n != 0;
                    true
                },
                None => false,
            }
        } else {
            true
        }
    }

    fn put_fields(&self, buf: &mut Vec<u8>) {
        let ghost b0 = buf@;
        put_bytes(buf, 1, self.instance_id.as_slice());
        let ghost b1 = buf@;
        put_number(buf, 2, if self.decision {
            1
        } else {
            0
        });
        proof {
            let m = self@;
            let f1 = bytes_field(1, m.instance_id);
            let f2 = number_field(2, bool_number(m.decision));
            appends_in_steps(b0, b1, buf@, f1, f2);
        }
    }
}

impl ReadsBack for NativeDecided {
    proof fn fields_lead_back(m: NativeDecidedView, depth: nat) {
        let m0 = Self::blank();
        let m1 = NativeDecidedView { instance_id: m.instance_id, ..m0 };
        let m2 = m;
        assert(m.instance_id.len() == 0 ==> m.instance_id =~= Seq::empty());
        with_bytes_field::<Self>(m0, 1, m.instance_id, m1, depth);
        with_number_field::<Self>(m1, 2, bool_number(m.decision), m2, depth);
        let f1 = bytes_field(1, m.instance_id);
        let f2 = number_field(2, bool_number(m.decision));
        with_more_fields::<Self>(m0, f1, m1, f2, m2, depth);
        all_proper_concat(f1, f2);
        proper_is_writable(Self::to_fields(m));
    }
}

impl WireMessage for WsDecided {
    open spec fn blank() -> WsDecidedView {
        WsDecidedView {
            instance_id: Seq::empty(),
            decision: false,
        }
    }

    open spec fn to_fields(m: WsDecidedView) -> Seq<FieldView> {
        bytes_field(1, m.instance_id)
            + number_field(2, bool_number(m.decision))
    }

    open spec fn with_field(m: WsDecidedView, f: FieldView, depth: nat) -> Option<WsDecidedView> {
        if f.tag == 1 {
            match bytes_in(f) {
                Some(value) => Some(WsDecidedView { instance_id: value, ..m }),
                None => None,
            }
        } else if f.tag == 2 {
            match number_in(f) {
                Some(n) => Some(WsDecidedView { decision: n != 0, ..m }),
                None => None,
            }
        } else {
            Some(m)
        }
    }

    open spec fn nesting() -> nat {
        0
    }

    fn new_blank() -> WsDecided {
        let m = WsDecided {
            instance_id: Vec::new(),
            decision: false,
        };
        assert(m@ =~= Self::blank());
        m
    }

    fn set_field(&mut self, field: Field, depth: usize) -> bool {
        if field.tag == 1 {
            match take_bytes(field) {
                Some(value) => {
                    self.instance_id = value;
                    true
                },
                None => false,
            }
        } else if field.tag == 2 {
            match take_number(field) {
                Some(n) => {
                    self.decision = n != 0;
                    true
                },
                None => false,
            }
        } else {
            true
        }
    }

    fn put_fields(&self, buf: &mut Vec<u8>) {
        let ghost b0 = buf@;
        put_bytes(buf, 1, self.instance_id.as_slice());
        let ghost b1 = buf@;
        put_number(buf, 2, if self.decision {
            1
        } else {
            0
        });
        proof {
            let m = self@;
            let f1 = bytes_field(1, m.instance_id);
            let f2 = number_field(2, bool_number(m.decision));
            appends_in_steps(b0, b1, buf@, f1, f2);
        }
    }
}

impl ReadsBack for WsDecided {
    proof fn fields_lead_back(m: WsDecidedView, depth: nat) {
        let m0 = Self::blank();
        let m1 = WsDecidedView { instance_id: m.instance_id, ..m0 };
        let m2 = m;
        assert(m.instance_id.len() == 0 ==> m.instance_id =~= Seq::empty());
        with_bytes_field::<Self>(m0, 1, m.instance_id, m1, depth);
        with_number_field::<Self>(m1, 2, bool_number(m.decision), m2, depth);
        let f1 = bytes_field(1, m.instance_id);
        let f2 = number_field(2, bool_number(m.decision));
        with_more_fields::<Self>(m0, f1, m1, f2, m2, depth);
        all_proper_concat(f1, f2);
        proper_is_writable(Self::to_fields(m));
    }
}

impl WireMessage for Confirmed {
    open spec fn blank() -> ConfirmedView {
        ConfirmedView {
            instance_id: Seq::empty(),
            chain_id: 0,
        }
    }

    open spec fn to_fields(m: ConfirmedView) -> Seq<FieldView> {
        bytes_field(1, m.instance_id)
            + number_field(2, m.chain_id)
    }

    open spec fn with_field(m: ConfirmedView, f: FieldView, depth: nat) -> Option<ConfirmedView> {
        if f.tag == 1 {
            match bytes_in(f) {
                Some(value) => Some(ConfirmedView { instance_id: value, ..m }),
                None => None,
            }
        } else if f.tag == 2 {
            match number_in(f) {
                Some(n) => Some(ConfirmedView { chain_id: n, ..m }),
                None => None,
            }
        } else {
            Some(m)
        }
    }

    open spec fn nesting() -> nat {
        0
    }

    fn new_blank() -> Confirmed {
        let m = Confirmed {
            instance_id: Vec::new(),
            chain_id: 0,
        };
        assert(m@ =~= Self::blank());
        m
    }

    fn set_field(&mut self, field: Field, depth: usize) -> bool {
        if field.tag == 1 {
            match take_bytes(field) {
                Some(value) => {
                    self.instance_id = value;
                    true
                },
                None => false,
            }
        } else if field.tag == 2 {
            match take_number(field) {
                Some(n) => {
                    self.chain_id = n;
                    true
                },
                None => false,
            }
        } else {
            true
        }
    }

    fn put_fields(&self, buf: &mut Vec<u8>) {
        let ghost b0 = buf@;
        put_bytes(buf, 1, self.instance_id.as_slice());
        let ghost b1 = buf@;
        put_number(buf, 2, self.chain_id);
        proof {
            let m = self@;
            let f1 = bytes_field(1, m.instance_id);
            let f2 = number_field(2, m.chain_id);
            appends_in_steps(b0, b1, buf@, f1, f2);
        }
    }
}

impl ReadsBack for Confirmed {
    proof fn fields_lead_back(m: ConfirmedView, depth: nat) {
        let m0 = Self::blank();
        let m1 = ConfirmedView { instance_id: m.instance_id, ..m0 };
        let m2 = m;
        assert(m.instance_id.len() == 0 ==> m.instance_id =~= Seq::empty());
        with_bytes_field::<Self>(m0, 1, m.instance_id, m1, depth);
        with_number_field::<Self>(m1, 2, m.chain_id, m2, depth);
        let f1 = bytes_field(1, m.instance_id);
        let f2 = number_field(2, m.chain_id);
        with_more_fields::<Self>(m0, f1, m1, f2, m2, depth);
        all_proper_concat(f1, f2);
        proper_is_writable(Self::to_fields(m));
    }
}

/// The field of a payload: none where there is no payload.
pub open spec fn payload_field(payload: Option<PayloadView>) -> Seq<FieldView> {
    match payload {
        None => Seq::empty(),
        Some(PayloadView::HandshakeRequest(x)) => always_field(2, message_bytes::<HandshakeRequest>(x)),
        Some(PayloadView::HandshakeResponse(x)) => always_field(3, message_bytes::<HandshakeResponse>(x)),
        Some(PayloadView::Ping(x)) => always_field(4, message_bytes::<Ping>(x)),
        Some(PayloadView::Pong(x)) => always_field(5, message_bytes::<Pong>(x)),
        Some(PayloadView::XtRequest(x)) => always_field(6, message_bytes::<XtRequest>(x)),
        Some(PayloadView::StartInstance(x)) => always_field(7, message_bytes::<StartInstance>(x)),
        Some(PayloadView::Vote(x)) => always_field(8, message_bytes::<Vote>(x)),
        Some(PayloadView::Decided(x)) => always_field(9, message_bytes::<Decided>(x)),
        Some(PayloadView::MailboxMessage(x)) => always_field(10, message_bytes::<MailboxMessage>(x)),
        Some(PayloadView::StartPeriod(x)) => always_field(11, message_bytes::<StartPeriod>(x)),
        Some(PayloadView::Rollback(x)) => always_field(12, message_bytes::<Rollback>(x)),
        Some(PayloadView::Proof(x)) => always_field(13, message_bytes::<Proof>(x)),
        Some(PayloadView::NativeDecided(x)) => always_field(14, message_bytes::<NativeDecided>(x)),
        Some(PayloadView::WsDecided(x)) => always_field(15, message_bytes::<WsDecided>(x)),
        Some(PayloadView::Confirmed(x)) => always_field(16, message_bytes::<Confirmed>(x)),
    }
}

/// The payload after its field was read: a payload of the same sort is read into,
/// any other is replaced. Nothing where the field does not fit.
pub open spec fn payload_with(payload: Option<PayloadView>, f: FieldView, depth: nat) -> Option<
    PayloadView,
> {
    if f.tag == 2 {
        let start = match payload {
            Some(PayloadView::HandshakeRequest(x)) => x,
            _ => HandshakeRequest::blank(),
        };
        match message_in::<HandshakeRequest>(start, f, depth) {
            Some(x) => Some(PayloadView::HandshakeRequest(x)),
            None => None,
        }
    } else if f.tag == 3 {
        let start = match payload {
            Some(PayloadView::HandshakeResponse(x)) => x,
            _ => HandshakeResponse::blank(),
        };
        match message_in::<HandshakeResponse>(start, f, depth) {
            Some(x) => Some(PayloadView::HandshakeResponse(x)),
            None => None,
        }
    } else if f.tag == 4 {
        let start = match payload {
            Some(PayloadView::Ping(x)) => x,
            _ => Ping::blank(),
        };
        match message_in::<Ping>(start, f, depth) {
            Some(x) => Some(PayloadView::Ping(x)),
            None => None,
        }
    } else if f.tag == 5 {
        let start = match payload {
            Some(PayloadView::Pong(x)) => x,
            _ => Pong::blank(),
        };
        match message_in::<Pong>(start, f, depth) {
            Some(x) => Some(PayloadView::Pong(x)),
            None => None,
        }
    } else if f.tag == 6 {
        let start = match payload {
            Some(PayloadView::XtRequest(x)) => x,
            _ => XtRequest::blank(),
        };
        match message_in::<XtRequest>(start, f, depth) {
            Some(x) => Some(PayloadView::XtRequest(x)),
            None => None,
        }
    } else if f.tag == 7 {
        let start = match payload {
            Some(PayloadView::StartInstance(x)) => x,
            _ => StartInstance::blank(),
        };
        match message_in::<StartInstance>(start, f, depth) {
            Some(x) => Some(PayloadView::StartInstance(x)),
            None => None,
        }
    } else if f.tag == 8 {
        let start = match payload {
            Some(PayloadView::Vote(x)) => x,
            _ => Vote::blank(),
        };
        match message_in::<Vote>(start, f, depth) {
            Some(x) => Some(PayloadView::Vote(x)),
            None => None,
        }
    } else if f.tag == 9 {
        let start = match payload {
            Some(PayloadView::Decided(x)) => x,
            _ => Decided::blank(),
        };
        match message_in::<Decided>(start, f, depth) {
            Some(x) => Some(PayloadView::Decided(x)),
            None => None,
        }
    } else if f.tag == 10 {
        let start = match payload {
            Some(PayloadView::MailboxMessage(x)) => x,
            _ => MailboxMessage::blank(),
        };
        match message_in::<MailboxMessage>(start, f, depth) {
            Some(x) => Some(PayloadView::MailboxMessage(x)),
            None => None,
        }
    } else if f.tag == 11 {
        let start = match payload {
            Some(PayloadView::StartPeriod(x)) => x,
            _ => StartPeriod::blank(),
        };
        match message_in::<StartPeriod>(start, f, depth) {
            Some(x) => Some(PayloadView::StartPeriod(x)),
            None => None,
        }
    } else if f.tag == 12 {
        let start = match payload {
            Some(PayloadView::Rollback(x)) => x,
            _ => Rollback::blank(),
        };
        match message_in::<Rollback>(start, f, depth) {
            Some(x) => Some(PayloadView::Rollback(x)),
            None => None,
        }
    } else if f.tag == 13 {
        let start = match payload {
            Some(PayloadView::Proof(x)) => x,
            _ => Proof::blank(),
        };
        match message_in::<Proof>(start, f, depth) {
            Some(x) => Some(PayloadView::Proof(x)),
            None => None,
        }
    } else if f.tag == 14 {
        let start = match payload {
            Some(PayloadView::NativeDecided(x)) => x,
            _ => NativeDecided::blank(),
        };
        match message_in::<NativeDecided>(start, f, depth) {
            Some(x) => Some(PayloadView::NativeDecided(x)),
            None => None,
        }
    } else if f.tag == 15 {
        let start = match payload {
            Some(PayloadView::WsDecided(x)) => x,
            _ => WsDecided::blank(),
        };
        match message_in::<WsDecided>(start, f, depth) {
            Some(x) => Some(PayloadView::WsDecided(x)),
            None => None,
        }
    } else {
        let start = match payload {
            Some(PayloadView::Confirmed(x)) => x,
            _ => Confirmed::blank(),
        };
        match message_in::<Confirmed>(start, f, depth) {
            Some(x) => Some(PayloadView::Confirmed(x)),
            None => None,
        }
    }
}

impl WireMessage for Message {
    open spec fn blank() -> MessageView {
        MessageView { sender_id: Seq::empty(), payload: None }
    }

    open spec fn to_fields(m: MessageView) -> Seq<FieldView> {
        bytes_field(1, encode_utf8(m.sender_id)) + payload_field(m.payload)
    }

    open spec fn with_field(m: MessageView, f: FieldView, depth: nat) -> Option<MessageView> {
        if f.tag == 1 {
            match text_in(f) {
                Some(text) => Some(MessageView { sender_id: text, ..m }),
                None => None,
            }
        } else if 2 <= f.tag <= 16 {
            match payload_with(m.payload, f, depth) {
                Some(payload) => Some(MessageView { payload: Some(payload), ..m }),
                None => None,
            }
        } else {
            Some(m)
        }
    }

    open spec fn nesting() -> nat {
        3
    }

    fn new_blank() -> Message {
        let m = Message { sender_id: String::new(), payload: None };
        assert(m@ =~= Self::blank());
        m
    }

    fn set_field(&mut self, field: Field, depth: usize) -> bool {
        if field.tag == 1 {
            match take_text(field) {
                Some(text) => {
                    self.sender_id = text;
                    true
                },
                None => false,
            }
        } else if 2 <= field.tag && field.tag <= 16 {
            match take_payload(self.payload.take(), field, depth) {
                Some(payload) => {
                    self.payload = Some(payload);
                    true
                },
                None => false,
            }
        } else {
            true
        }
    }

    fn put_fields(&self, buf: &mut Vec<u8>) {
        let ghost b0 = buf@;
        put_bytes(buf, 1, self.sender_id.as_str().as_bytes());
        let ghost b1 = buf@;
        put_payload(&self.payload, buf);
        proof {
            let m = self@;
            appends_in_steps(
                b0,
                b1,
                buf@,
                bytes_field(1, encode_utf8(m.sender_id)),
                payload_field(m.payload),
            );
        }
    }
}

/// The content of an optional payload.
pub open spec fn payload_view(payload: Option<Payload>) -> Option<PayloadView> {
    match payload {
        Some(p) => Some(p@),
        None => None,
    }
}

/// Writes the field of a payload.
fn put_payload(payload: &Option<Payload>, buf: &mut Vec<u8>)
    ensures
        appends(old(buf)@, final(buf)@, payload_field(payload_view(*payload))),
{
    match payload {
        None => {
            assert(buf@ =~= old(buf)@ + fields_bytes(Seq::empty()));
        },
        Some(Payload::HandshakeRequest(x)) => {
            put_always(buf, 2, to_bytes(x).as_slice());
        },
        Some(Payload::HandshakeResponse(x)) => {
            put_always(buf, 3, to_bytes(x).as_slice());
        },
        Some(Payload::Ping(x)) => {
            put_always(buf, 4, to_bytes(x).as_slice());
        },
        Some(Payload::Pong(x)) => {
            put_always(buf, 5, to_bytes(x).as_slice());
        },
        Some(Payload::XtRequest(x)) => {
            put_always(buf, 6, to_bytes(x).as_slice());
        },
        Some(Payload::StartInstance(x)) => {
            put_always(buf, 7, to_bytes(x).as_slice());
        },
        Some(Payload::Vote(x)) => {
            put_always(buf, 8, to_bytes(x).as_slice());
        },
        Some(Payload::Decided(x)) => {
            put_always(buf, 9, to_bytes(x).as_slice());
        },
        Some(Payload::MailboxMessage(x)) => {
            put_always(buf, 10, to_bytes(x).as_slice());
        },
        Some(Payload::StartPeriod(x)) => {
            put_always(buf, 11, to_bytes(x).as_slice());
        },
        Some(Payload::Rollback(x)) => {
            put_always(buf, 12, to_bytes(x).as_slice());
        },
        Some(Payload::Proof(x)) => {
            put_always(buf, 13, to_bytes(x).as_slice());
        },
        Some(Payload::NativeDecided(x)) => {
            put_always(buf, 14, to_bytes(x).as_slice());
        },
        Some(Payload::WsDecided(x)) => {
            put_always(buf, 15, to_bytes(x).as_slice());
        },
        Some(Payload::Confirmed(x)) => {
            put_always(buf, 16, to_bytes(x).as_slice());
        },
    }
}

/// Reads the field of a payload.
fn take_payload(payload: Option<Payload>, field: Field, depth: usize) -> (r: Option<Payload>)
    requires
        2 <= field.tag <= 16,
    ensures
        match r {
            Some(p) => payload_with(payload_view(payload), field@, depth as nat) == Some(p@),
            None => payload_with(payload_view(payload), field@, depth as nat) is None,
        },
{
    match field.tag {
        2 => {
            let start = match payload {
                Some(Payload::HandshakeRequest(x)) => x,
                _ => HandshakeRequest::new_blank(),
            };
            match take_message(start, field, depth) {
                Some(x) => Some(Payload::HandshakeRequest(x)),
                None => None,
            }
        },
        3 => {
            let start = match payload {
                Some(Payload::HandshakeResponse(x)) => x,
                _ => HandshakeResponse::new_blank(),
            };
            match take_message(start, field, depth) {
                Some(x) => Some(Payload::HandshakeResponse(x)),
                None => None,
            }
        },
        4 => {
            let start = match payload {
                Some(Payload::Ping(x)) => x,
                _ => Ping::new_blank(),
            };
            match take_message(start, field, depth) {
                Some(x) => Some(Payload::Ping(x)),
                None => None,
            }
        },
        5 => {
            let start = match payload {
                Some(Payload::Pong(x)) => x,
                _ => Pong::new_blank(),
            };
            match take_message(start, field, depth) {
                Some(x) => Some(Payload::Pong(x)),
                None => None,
            }
        },
        6 => {
            let start = match payload {
                Some(Payload::XtRequest(x)) => x,
                _ => XtRequest::new_blank(),
            };
            match take_message(start, field, depth) {
                Some(x) => Some(Payload::XtRequest(x)),
                None => None,
            }
        },
        7 => {
            let start = match payload {
                Some(Payload::StartInstance(x)) => x,
                _ => StartInstance::new_blank(),
            };
            match take_message(start, field, depth) {
                Some(x) => Some(Payload::StartInstance(x)),
                None => None,
            }
        },
        8 => {
            let start = match payload {
                Some(Payload::Vote(x)) => x,
                _ => Vote::new_blank(),
            };
            match take_message(start, field, depth) {
                Some(x) => Some(Payload::Vote(x)),
                None => None,
            }
        },
        9 => {
            let start = match payload {
                Some(Payload::Decided(x)) => x,
                _ => Decided::new_blank(),
            };
            match take_message(start, field, depth) {
                Some(x) => Some(Payload::Decided(x)),
                None => None,
            }
        },
        10 => {
            let start = match payload {
                Some(Payload::MailboxMessage(x)) => x,
                _ => MailboxMessage::new_blank(),
            };
            match take_message(start, field, depth) {
                Some(x) => Some(Payload::MailboxMessage(x)),
                None => None,
            }
        },
        11 => {
            let start = match payload {
                Some(Payload::StartPeriod(x)) => x,
                _ => StartPeriod::new_blank(),
            };
            match take_message(start, field, depth) {
                Some(x) => Some(Payload::StartPeriod(x)),
                None => None,
            }
        },
        12 => {
            let start = match payload {
                Some(Payload::Rollback(x)) => x,
                _ => Rollback::new_blank(),
            };
            match take_message(start, field, depth) {
                Some(x) => Some(Payload::Rollback(x)),
                None => None,
            }
        },
        13 => {
            let start = match payload {
                Some(Payload::Proof(x)) => x,
                _ => Proof::new_blank(),
            };
            match take_message(start, field, depth) {
                Some(x) => Some(Payload::Proof(x)),
                None => None,
            }
        },
        14 => {
            let start = match payload {
                Some(Payload::NativeDecided(x)) => x,
                _ => NativeDecided::new_blank(),
            };
            match take_message(start, field, depth) {
                Some(x) => Some(Payload::NativeDecided(x)),
                None => None,
            }
        },
        15 => {
            let start = match payload {
                Some(Payload::WsDecided(x)) => x,
                _ => WsDecided::new_blank(),
            };
            match take_message(start, field, depth) {
                Some(x) => Some(Payload::WsDecided(x)),
                None => None,
            }
        },
        _ => {
            let start = match payload {
                Some(Payload::Confirmed(x)) => x,
                _ => Confirmed::new_blank(),
            };
            match take_message(start, field, depth) {
                Some(x) => Some(Payload::Confirmed(x)),
                None => None,
            }
        },
    }
}

impl ReadsBack for Message {
    proof fn fields_lead_back(m: MessageView, depth: nat) {
        let fields = Self::to_fields(m);
        let m0 = Self::blank();
        let m1 = MessageView { sender_id: m.sender_id, ..m0 };
        text_reads_back(m.sender_id);
        with_bytes_field::<Self>(m0, 1, encode_utf8(m.sender_id), m1, depth);
        if m.payload is Some {
            let last = fields.len() - 1;
            assert(fields[last] == payload_field(m.payload)[0]);
            field_bytes_bounded(fields, last);
        }
        match m.payload {
            None => {},
            Some(PayloadView::HandshakeRequest(x)) => {
                message_reads_back::<HandshakeRequest>(x, (depth - 1) as nat);
                with_always_field::<Self>(m1, 2, message_bytes::<HandshakeRequest>(x), m, depth);
            },
            Some(PayloadView::HandshakeResponse(x)) => {
                message_reads_back::<HandshakeResponse>(x, (depth - 1) as nat);
                with_always_field::<Self>(m1, 3, message_bytes::<HandshakeResponse>(x), m, depth);
            },
            Some(PayloadView::Ping(x)) => {
                message_reads_back::<Ping>(x, (depth - 1) as nat);
                with_always_field::<Self>(m1, 4, message_bytes::<Ping>(x), m, depth);
            },
            Some(PayloadView::Pong(x)) => {
                message_reads_back::<Pong>(x, (depth - 1) as nat);
                with_always_field::<Self>(m1, 5, message_bytes::<Pong>(x), m, depth);
            },
            Some(PayloadView::XtRequest(x)) => {
                message_reads_back::<XtRequest>(x, (depth - 1) as nat);
                with_always_field::<Self>(m1, 6, message_bytes::<XtRequest>(x), m, depth);
            },
            Some(PayloadView::StartInstance(x)) => {
                message_reads_back::<StartInstance>(x, (depth - 1) as nat);
                with_always_field::<Self>(m1, 7, message_bytes::<StartInstance>(x), m, depth);
            },
            Some(PayloadView::Vote(x)) => {
                message_reads_back::<Vote>(x, (depth - 1) as nat);
                with_always_field::<Self>(m1, 8, message_bytes::<Vote>(x), m, depth);
            },
            Some(PayloadView::Decided(x)) => {
                message_reads_back::<Decided>(x, (depth - 1) as nat);
                with_always_field::<Self>(m1, 9, message_bytes::<Decided>(x), m, depth);
            },
            Some(PayloadView::MailboxMessage(x)) => {
                message_reads_back::<MailboxMessage>(x, (depth - 1) as nat);
                with_always_field::<Self>(m1, 10, message_bytes::<MailboxMessage>(x), m, depth);
            },
            Some(PayloadView::StartPeriod(x)) => {
                message_reads_back::<StartPeriod>(x, (depth - 1) as nat);
                with_always_field::<Self>(m1, 11, message_bytes::<StartPeriod>(x), m, depth);
            },
            Some(PayloadView::Rollback(x)) => {
                message_reads_back::<Rollback>(x, (depth - 1) as nat);
                with_always_field::<Self>(m1, 12, message_bytes::<Rollback>(x), m, depth);
            },
            Some(PayloadView::Proof(x)) => {
                message_reads_back::<Proof>(x, (depth - 1) as nat);
                with_always_field::<Self>(m1, 13, message_bytes::<Proof>(x), m, depth);
            },
            Some(PayloadView::NativeDecided(x)) => {
                message_reads_back::<NativeDecided>(x, (depth - 1) as nat);
                with_always_field::<Self>(m1, 14, message_bytes::<NativeDecided>(x), m, depth);
            },
            Some(PayloadView::WsDecided(x)) => {
                message_reads_back::<WsDecided>(x, (depth - 1) as nat);
                with_always_field::<Self>(m1, 15, message_bytes::<WsDecided>(x), m, depth);
            },
            Some(PayloadView::Confirmed(x)) => {
                message_reads_back::<Confirmed>(x, (depth - 1) as nat);
                with_always_field::<Self>(m1, 16, message_bytes::<Confirmed>(x), m, depth);
            },
        }
        with_more_fields::<Self>(
            m0,
            bytes_field(1, encode_utf8(m.sender_id)),
            m1,
            payload_field(m.payload),
            m,
            depth,
        );
        all_proper_concat(
            bytes_field(1, encode_utf8(m.sender_id)),
            payload_field(m.payload),
        );
        proper_is_writable(fields);
    }
}

/// Bytes that are no message.
#[derive(Clone, Copy, Debug, PartialEq, Eq, Structural)]
pub struct DecodeError;

/// How deep messages and groups may be nested in a message.
pub const NESTING_LIMIT: usize = 100;

/// The bytes of a message.
pub open spec fn encoded(m: MessageView) -> Seq<u8> {
    message_bytes::<Message>(m)
}

/// The message that `bytes` stand for. Fields with unknown tags are passed over, and
/// of a field that occurs again the last value counts, but for lists, which grow, and
/// messages, which are read into.
pub open spec fn decoded(bytes: Seq<u8>) -> Option<MessageView> {
    with_bytes::<Message>(Message::blank(), bytes, NESTING_LIMIT as nat)
}

impl Message {
    /// The bytes of the message.
    pub fn encode_to_vec(&self) -> (bytes: Vec<u8>)
        ensures
            bytes@ == encoded(self@),
    {
        to_bytes(self)
    }

    /// The message that `bytes` stand for.
    pub fn decode(bytes: &[u8]) -> (r: Result<Message, DecodeError>)
        ensures
            match decoded(bytes@) {
                Some(m) => r is Ok && r->Ok_0@ == m,
                None => r is Err,
            },
    {
        match merge_bytes(Message::new_blank(), bytes, NESTING_LIMIT) {
            Some(m) => Ok(m),
            None => Err(DecodeError),
        }
    }
}

/// A message that was encoded is decoded as it was.
pub proof fn messages_survive_the_wire(m: MessageView)
    requires
        encoded(m).len() <= u64::MAX,
    ensures
        decoded(encoded(m)) == Some(m),
{
    message_reads_back::<Message>(m, NESTING_LIMIT as nat);
}

/// Fields with unknown tags are passed over.
pub proof fn unknown_fields_are_passed_over(m: MessageView, f: FieldView)
    requires
        encoded(m).len() <= u64::MAX,
        writable(f),
        f.tag > 16,
    ensures
        decoded(encoded(m) + field_bytes(f)) == Some(m),
{
    let depth = NESTING_LIMIT as nat;
    let fields = Message::to_fields(m);
    Message::fields_lead_back(m, depth);
    assert(fields.push(f).drop_last() =~= fields);
    assert(fields_bytes(fields.push(f)) =~= encoded(m) + field_bytes(f));
    fields_read_back(fields.push(f), depth);
}

/// The bytes in a field are no more than those that it was read from.
proof fn fields_are_bounded(bytes: Seq<u8>, depth: nat)
    ensures
        read_fields(bytes, depth) matches Some(fields) ==> all_bounded(fields, bytes.len()),
    decreases bytes.len(),
{
    if bytes.len() > 0 {
        read_field_consumes(bytes, depth);
        if let Some((field, rest)) = read_field(bytes, depth) {
            fields_are_bounded(rest, depth);
            if let Some(more) = read_fields(rest, depth) {
                let fields = seq![field] + more;
                assert forall|i: int| 0 <= i < fields.len() implies bounded(
                    #[trigger] fields[i],
                    bytes.len(),
                ) by {
                    if i > 0 {
                        assert(fields[i] == more[i - 1]);
                        assert(bounded(more[i - 1], rest.len()));
                    }
                }
            }
        }
    }
}

/// The bytes in a field, if there are any, are at most `n`.
spec fn bounded(f: FieldView, n: nat) -> bool {
    f.value matches FieldValueView::Delimited(value) ==> value.len() <= n
}

/// The bytes in each field are at most `n`.
spec fn all_bounded(fields: Seq<FieldView>, n: nat) -> bool {
    forall|i: int| 0 <= i < fields.len() ==> bounded(#[trigger] fields[i], n)
}

/// An identifier in a vote is no longer than what it was read from.
proof fn vote_is_bounded(m: VoteView, fields: Seq<FieldView>, depth: nat, n: nat)
    requires
        m.instance_id.len() <= n,
        all_bounded(fields, n),
    ensures
        with_fields::<Vote>(m, fields, depth) matches Some(v) ==> v.instance_id.len() <= n,
    decreases fields.len(),
{
    if fields.len() > 0 {
        assert(bounded(fields[fields.len() - 1], n));
        assert forall|i: int| 0 <= i < fields.drop_last().len() implies bounded(
            #[trigger] fields.drop_last()[i],
            n,
        ) by {
            assert(fields.drop_last()[i] == fields[i]);
        }
        vote_is_bounded(m, fields.drop_last(), depth, n);
    }
}

/// An identifier in a confirmation is no longer than what it was read from.
proof fn confirmation_is_bounded(m: ConfirmedView, fields: Seq<FieldView>, depth: nat, n: nat)
    requires
        m.instance_id.len() <= n,
        all_bounded(fields, n),
    ensures
        with_fields::<Confirmed>(m, fields, depth) matches Some(c) ==> c.instance_id.len() <= n,
    decreases fields.len(),
{
    if fields.len() > 0 {
        assert(bounded(fields[fields.len() - 1], n));
        assert forall|i: int| 0 <= i < fields.drop_last().len() implies bounded(
            #[trigger] fields.drop_last()[i],
            n,
        ) by {
            assert(fields.drop_last()[i] == fields[i]);
        }
        confirmation_is_bounded(m, fields.drop_last(), depth, n);
    }
}

/// The identifier in a vote or a confirmation, if the payload is one, has at most `n`
/// bytes.
pub open spec fn identifier_bounded(payload: Option<PayloadView>, n: nat) -> bool {
    match payload {
        Some(PayloadView::Vote(vote)) => vote.instance_id.len() <= n,
        Some(PayloadView::Confirmed(confirmed)) => confirmed.instance_id.len() <= n,
        _ => true,
    }
}

/// An identifier in a message is no longer than what it was read from.
proof fn message_is_bounded(fields: Seq<FieldView>, depth: nat, n: nat)
    requires
        all_bounded(fields, n),
    ensures
        with_fields::<Message>(Message::blank(), fields, depth) matches Some(m)
            ==> identifier_bounded(m.payload, n),
    decreases fields.len(),
{
    if fields.len() > 0 {
        let f = fields.last();
        assert(bounded(fields[fields.len() - 1], n));
        assert forall|i: int| 0 <= i < fields.drop_last().len() implies bounded(
            #[trigger] fields.drop_last()[i],
            n,
        ) by {
            assert(fields.drop_last()[i] == fields[i]);
        }
        message_is_bounded(fields.drop_last(), depth, n);
        if let Some(m) = with_fields::<Message>(Message::blank(), fields.drop_last(), depth) {
            if f.tag == 8 || f.tag == 16 {
                if let Some(value) = bytes_in(f) {
                    let inner = (depth - 1) as nat;
                    fields_are_bounded(value, inner);
                    if let Some(more) = read_fields(value, inner) {
                        assert forall|i: int| 0 <= i < more.len() implies bounded(
                            #[trigger] more[i],
                            n,
                        ) by {
                            assert(bounded(more[i], value.len()));
                        }
                        let vote = match m.payload {
                            Some(PayloadView::Vote(x)) => x,
                            _ => Vote::blank(),
                        };
                        vote_is_bounded(vote, more, inner, n);
                        let confirmed = match m.payload {
                            Some(PayloadView::Confirmed(x)) => x,
                            _ => Confirmed::blank(),
                        };
                        confirmation_is_bounded(confirmed, more, inner, n);
                    }
                }
            }
        }
    }
}

/// An identifier in a decoded vote or confirmation is no longer than the bytes that it
/// was decoded from.
pub proof fn decoded_identifiers_are_bounded(bytes: Seq<u8>)
    ensures
        decoded(bytes) matches Some(m) ==> identifier_bounded(m.payload, bytes.len()),
{
    fields_are_bounded(bytes, NESTING_LIMIT as nat);
    if let Some(fields) = read_fields(bytes, NESTING_LIMIT as nat) {
        message_is_bounded(fields, NESTING_LIMIT as nat, bytes.len());
    }
}

/// Different messages are encoded differently.
pub proof fn encoding_is_injective(a: MessageView, b: MessageView)
    requires
        encoded(a).len() <= u64::MAX,
        encoded(a) == encoded(b),
    ensures
        a == b,
{
    messages_survive_the_wire(a);
    messages_survive_the_wire(b);
}

} // verus!
