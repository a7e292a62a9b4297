//! The tags under which each part of a message stands on the wire.
//!
//! Messages are compared here with a table of tags: what the bytes of a message hold
//! under each tag, and what is made of the values under each tag when a message is
//! read.

use vstd::prelude::*;
#[allow(unused_imports)]
use vstd::utf8::{decode_utf8, encode_utf8, valid_utf8};

#[allow(unused_imports)]
use crate::codec::{message_bytes, with_bytes, with_fields, ReadsBack, WireMessage};
#[allow(unused_imports)]
use crate::message_codec::{
    bool_number, decoded, encoded, payload_field, transaction_request_fields, xt_request_field,
};
#[allow(unused_imports)]
use crate::messages::{
    Confirmed, ConfirmedView, Decided, DecidedView, HandshakeRequest, HandshakeRequestView,
    HandshakeResponse, HandshakeResponseView, MailboxMessage, MailboxMessageView, Message,
    MessageView, NativeDecided, NativeDecidedView, Payload, PayloadView, Ping, PingView, Pong,
    PongView, Proof, ProofView, Rollback, RollbackView, StartInstance, StartInstanceView,
    StartPeriod, StartPeriodView, TransactionRequest, TransactionRequestView, Vote, VoteView,
    WsDecided, WsDecidedView, XtRequest, XtRequestView,
};
#[allow(unused_imports)]
use crate::wire::{
    after_groups, bytes_field, field_bytes, field_reads_back, fields_bytes, fields_bytes_concat,
    fields_read_back, key_number, key_reads_back, number_field, read_delimited, read_field,
    read_fields, read_key, read_varint, repeated_field, varint, varint_reads_back, writable,
    FieldValueView, FieldView, WireKind,
};

verus! {

/// The values under `tag`, in order.
pub open spec fn under(fields: Seq<FieldView>, tag: u32) -> Seq<FieldValueView>
    decreases fields.len(),
{
    if fields.len() == 0 {
        Seq::empty()
    } else if fields.last().tag == tag {
        under(fields.drop_last(), tag).push(fields.last().value)
    } else {
        under(fields.drop_last(), tag)
    }
}

/// No tag is less than one before it, and all of them lie between 1 and `top`.
pub open spec fn tags_ascend(fields: Seq<FieldView>, top: int) -> bool {
    &&& forall|i: int| 0 <= i < fields.len() ==> 1 <= (#[trigger] fields[i]).tag <= top
    &&& forall|i: int, j: int|
        0 <= i < j < fields.len() ==> (#[trigger] fields[i]).tag <= (#[trigger] fields[j]).tag
}

/// A number as the only value under a tag; none where it is zero.
pub open spec fn one_number(n: u64) -> Seq<FieldValueView> {
    if n == 0 {
        Seq::empty()
    } else {
        seq![FieldValueView::Varint(n)]
    }
}

/// A byte string as the only value under a tag; none where it is empty.
pub open spec fn one_string(value: Seq<u8>) -> Seq<FieldValueView> {
    if value.len() == 0 {
        Seq::empty()
    } else {
        seq![FieldValueView::Delimited(value)]
    }
}

/// Byte strings as the values under a tag.
pub open spec fn strings(list: Seq<Seq<u8>>) -> Seq<FieldValueView> {
    list.map_values(|value: Seq<u8>| FieldValueView::Delimited(value))
}

/// Where all fields have the same tag, their values are those under it.
proof fn all_under_tag(fields: Seq<FieldView>, tag: u32)
    requires
        forall|i: int| 0 <= i < fields.len() ==> (#[trigger] fields[i]).tag == tag,
    ensures
        under(fields, tag) == fields.map_values(|f: FieldView| f.value),
    decreases fields.len(),
{
    if fields.len() > 0 {
        let init = fields.drop_last();
        assert forall|i: int| 0 <= i < init.len() implies (#[trigger] init[i]).tag == tag by {
            assert(init[i] == fields[i]);
        }
        all_under_tag(init, tag);
        assert(fields[fields.len() - 1].tag == tag);
    }
    assert(under(fields, tag) =~= fields.map_values(|f: FieldView| f.value));
}

/// Where no field has a tag, there are no values under it.
proof fn none_under_tag(fields: Seq<FieldView>, tag: u32)
    requires
        forall|i: int| 0 <= i < fields.len() ==> (#[trigger] fields[i]).tag != tag,
    ensures
        under(fields, tag) == Seq::<FieldValueView>::empty(),
    decreases fields.len(),
{
    if fields.len() > 0 {
        let init = fields.drop_last();
        assert forall|i: int| 0 <= i < init.len() implies (#[trigger] init[i]).tag != tag by {
            assert(init[i] == fields[i]);
        }
        none_under_tag(init, tag);
        assert(fields[fields.len() - 1].tag != tag);
    }
}

/// What stands under a tag in two lists, one after the other.
proof fn under_both(a: Seq<FieldView>, b: Seq<FieldView>, tag: u32)
    ensures
        under(a + b, tag) == under(a, tag) + under(b, tag),
    decreases b.len(),
{
    if b.len() == 0 {
        assert(a + b =~= a);
    } else {
        under_both(a, b.drop_last(), tag);
        assert((a + b).drop_last() =~= a + b.drop_last());
        assert((a + b).last() == b.last());
    }
    assert(under(a + b, tag) =~= under(a, tag) + under(b, tag));
}

/// Fields with a higher tag leave what stands under the lower ones.
proof fn under_concat(a: Seq<FieldView>, b: Seq<FieldView>, tag: u32)
    requires
        tag >= 1,
        tags_ascend(a, tag - 1),
        forall|i: int| 0 <= i < b.len() ==> (#[trigger] b[i]).tag == tag,
    ensures
        tags_ascend(a + b, tag as int),
        forall|t: u32| t < tag ==> #[trigger] under(a + b, t) == under(a, t),
        under(a + b, tag) == under(b, tag),
{
    assert forall|t: u32| t < tag implies #[trigger] under(a + b, t) == under(a, t) by {
        under_both(a, b, t);
        none_under_tag(b, t);
        assert(under(a, t) + under(b, t) =~= under(a, t));
    }
    under_both(a, b, tag);
    none_under_tag(a, tag);
    assert(under(a, tag) + under(b, tag) =~= under(b, tag));
    let both = a + b;
    assert forall|i: int| 0 <= i < both.len() implies 1 <= (#[trigger] both[i]).tag <= tag by {
        if i < a.len() {
            assert(both[i] == a[i]);
        } else {
            assert(both[i] == b[i - a.len()]);
        }
    }
    assert forall|i: int, j: int| 0 <= i < j < both.len() implies (#[trigger] both[i]).tag <= (
    #[trigger] both[j]).tag by {
        if j < a.len() {
            assert(both[i] == a[i] && both[j] == a[j]);
        } else {
            assert(both[j] == b[j - a.len()]);
        }
    }
}

/// The last number under `tag`, or `before` where there is none.
pub open spec fn last_number(fields: Seq<FieldView>, tag: u32, before: u64) -> u64
    decreases fields.len(),
{
    if fields.len() == 0 {
        before
    } else {
        match fields.last().value {
            FieldValueView::Varint(n) if fields.last().tag == tag => n,
            _ => last_number(fields.drop_last(), tag, before),
        }
    }
}

/// Every value under `tag` is a number.
pub open spec fn only_numbers(fields: Seq<FieldView>, tag: u32) -> bool
    decreases fields.len(),
{
    fields.len() == 0 || {
        &&& only_numbers(fields.drop_last(), tag)
        &&& fields.last().tag == tag ==> fields.last().value is Varint
    }
}

/// The byte string in a field; empty where it holds none.
pub open spec fn string_value(f: FieldView) -> Seq<u8> {
    match f.value {
        FieldValueView::Delimited(value) => value,
        _ => Seq::empty(),
    }
}

/// The last byte string under `tag`, or `before` where there is none.
pub open spec fn last_string(fields: Seq<FieldView>, tag: u32, before: Seq<u8>) -> Seq<u8>
    decreases fields.len(),
{
    if fields.len() == 0 {
        before
    } else if fields.last().tag == tag {
        string_value(fields.last())
    } else {
        last_string(fields.drop_last(), tag, before)
    }
}

/// The byte strings under `tag`, in order.
pub open spec fn strings_of(fields: Seq<FieldView>, tag: u32) -> Seq<Seq<u8>>
    decreases fields.len(),
{
    if fields.len() == 0 {
        Seq::empty()
    } else if fields.last().tag == tag {
        strings_of(fields.drop_last(), tag).push(string_value(fields.last()))
    } else {
        strings_of(fields.drop_last(), tag)
    }
}

/// Every value under `tag` is a byte string.
pub open spec fn only_strings(fields: Seq<FieldView>, tag: u32) -> bool
    decreases fields.len(),
{
    fields.len() == 0 || {
        &&& only_strings(fields.drop_last(), tag)
        &&& fields.last().tag == tag ==> fields.last().value is Delimited
    }
}

/// The last text under `tag`, or `before` where there is none.
pub open spec fn last_text(fields: Seq<FieldView>, tag: u32, before: Seq<char>) -> Seq<char>
    decreases fields.len(),
{
    if fields.len() == 0 {
        before
    } else if fields.last().tag == tag {
        decode_utf8(string_value(fields.last()))
    } else {
        last_text(fields.drop_last(), tag, before)
    }
}

/// Every value under `tag` is a text in UTF-8.
pub open spec fn only_texts(fields: Seq<FieldView>, tag: u32) -> bool
    decreases fields.len(),
{
    fields.len() == 0 || {
        &&& only_texts(fields.drop_last(), tag)
        &&& fields.last().tag == tag ==> fields.last().value is Delimited && valid_utf8(
            string_value(fields.last()),
        )
    }
}

/// A signed number survives being read as an unsigned one.
proof fn signed_survives(x: i64)
    ensures
        (x as u64) as i64 == x,
{
    assert((x as u64) as i64 == x) by (bit_vector);
}

/// On the wire a number is preceded by eight times its tag, and a byte string by
/// eight times its tag and two, and by its length.
pub proof fn fields_on_the_wire(tag: u32, n: u64, value: Seq<u8>, rest: Seq<u8>, depth: nat)
    requires
        1 <= tag < 0x2000_0000,
        value.len() <= u64::MAX,
    ensures
        field_bytes(FieldView { tag, value: FieldValueView::Varint(n) }) == varint(8 * tag as nat)
            + varint(n as nat),
        field_bytes(FieldView { tag, value: FieldValueView::Delimited(value) }) == varint(
            8 * tag as nat + 2,
        ) + varint(value.len()) + value,
        read_field(varint(8 * tag as nat) + varint(n as nat) + rest, depth) == Some(
            (FieldView { tag, value: FieldValueView::Varint(n) }, rest),
        ),
        read_field(varint(8 * tag as nat + 2) + varint(value.len()) + value + rest, depth) == Some(
            (FieldView { tag, value: FieldValueView::Delimited(value) }, rest),
        ),
{
    field_reads_back(FieldView { tag, value: FieldValueView::Varint(n) }, rest, depth);
    field_reads_back(FieldView { tag, value: FieldValueView::Delimited(value) }, rest, depth);
}

/// The bytes of a list of fields are those of its fields, one after the other.
pub proof fn fields_follow_each_other(fields: Seq<FieldView>, f: FieldView)
    ensures
        fields_bytes(Seq::empty()) == Seq::<u8>::empty(),
        fields_bytes(fields.push(f)) == fields_bytes(fields) + field_bytes(f),
{
    assert(fields.push(f).drop_last() =~= fields);
}

/// The fields of bytes are read one after the other; a byte string that is cut short, and
/// the end of a group that was not begun, cannot be read.
pub proof fn fields_are_read_in_turn(
    f: FieldView,
    rest: Seq<u8>,
    tag: u32,
    n: u64,
    short: Seq<u8>,
    depth: nat,
)
    requires
        writable(f),
        1 <= tag < 0x2000_0000,
        short.len() < n,
    ensures
        read_fields(field_bytes(f) + rest, depth) == (match read_fields(rest, depth) {
            Some(fields) => Some(seq![f] + fields),
            None => None,
        }),
        read_field(varint(8 * tag as nat + 2) + varint(n as nat) + short, depth) is None,
        read_field(varint(8 * tag as nat + 4) + rest, depth) is None,
{
    field_reads_back(f, rest, depth);
    fields_follow_each_other(Seq::empty(), f);
    crate::wire::read_field_consumes(field_bytes(f) + rest, depth);
    let key = varint(8 * tag as nat + 2);
    key_reads_back(tag, WireKind::LengthDelimited, varint(n as nat) + short);
    assert(key + varint(n as nat) + short =~= key + (varint(n as nat) + short));
    varint_reads_back(n, short);
    key_reads_back(tag, WireKind::EndGroup, rest);
}

/// Within groups, values of every kind are passed over one after the other, a group may
/// begin in another, and the innermost one has to end first. Nothing is passed over once
/// as many groups are open as may be.
pub proof fn groups_are_passed_over_in_turn(
    tag: u32,
    n: u64,
    value: Seq<u8>,
    eight: Seq<u8>,
    four: Seq<u8>,
    rest: Seq<u8>,
    open: Seq<u32>,
    depth: nat,
)
    requires
        1 <= tag < 0x2000_0000,
        value.len() <= u64::MAX,
        eight.len() == 8,
        four.len() == 4,
        open.len() > 0,
    ensures
        after_groups(rest, Seq::empty(), depth) == Some(rest),
        after_groups(varint(8 * tag as nat + 4) + rest, open, depth) == (if tag == open.last() {
            after_groups(rest, open.drop_last(), depth)
        } else {
            None
        }),
        open.len() >= depth ==> {
            &&& after_groups(varint(8 * tag as nat) + varint(n as nat) + rest, open, depth) is None
            &&& after_groups(varint(8 * tag as nat + 3) + rest, open, depth) is None
        },
        open.len() < depth ==> {
            &&& after_groups(varint(8 * tag as nat) + varint(n as nat) + rest, open, depth)
                == after_groups(rest, open, depth)
            &&& after_groups(varint(8 * tag as nat + 1) + eight + rest, open, depth)
                == after_groups(rest, open, depth)
            &&& after_groups(
                varint(8 * tag as nat + 2) + varint(value.len()) + value + rest,
                open,
                depth,
            ) == after_groups(rest, open, depth)
            &&& after_groups(varint(8 * tag as nat + 3) + rest, open, depth) == after_groups(
                rest,
                open.push(tag),
                depth,
            )
            &&& after_groups(varint(8 * tag as nat + 5) + four + rest, open, depth)
                == after_groups(rest, open, depth)
        },
{
    let t = 8 * tag as nat;
    key_reads_back(tag, WireKind::EndGroup, rest);
    key_reads_back(tag, WireKind::StartGroup, rest);
    assert(varint(t) + varint(n as nat) + rest =~= varint(t) + (varint(n as nat) + rest));
    key_reads_back(tag, WireKind::Varint, varint(n as nat) + rest);
    varint_reads_back(n, rest);
    assert(varint(t + 1) + eight + rest =~= varint(t + 1) + (eight + rest));
    key_reads_back(tag, WireKind::SixtyFourBit, eight + rest);
    assert((eight + rest).skip(8) =~= rest);
    assert(varint(t + 5) + four + rest =~= varint(t + 5) + (four + rest));
    key_reads_back(tag, WireKind::ThirtyTwoBit, four + rest);
    assert((four + rest).skip(4) =~= rest);
    let tail = varint(value.len()) + (value + rest);
    assert(varint(t + 2) + varint(value.len()) + value + rest =~= varint(t + 2) + tail);
    key_reads_back(tag, WireKind::LengthDelimited, tail);
    varint_reads_back(value.len() as u64, value + rest);
    assert((value + rest).take(value.len() as int) =~= value);
    assert((value + rest).skip(value.len() as int) =~= rest);
}

/// Values of eight bytes, of four bytes and of groups are passed over.
pub proof fn other_values_are_passed_over(
    tag: u32,
    eight: Seq<u8>,
    four: Seq<u8>,
    inner: Seq<FieldView>,
    rest: Seq<u8>,
    depth: nat,
)
    requires
        1 <= tag < 0x2000_0000,
        eight.len() == 8,
        four.len() == 4,
        forall|i: int| 0 <= i < inner.len() ==> writable(#[trigger] inner[i]),
        depth >= 2,
    ensures
        read_field(varint(8 * tag as nat + 1) + eight + rest, depth) == Some(
            (FieldView { tag, value: FieldValueView::Other }, rest),
        ),
        read_field(varint(8 * tag as nat + 5) + four + rest, depth) == Some(
            (FieldView { tag, value: FieldValueView::Other }, rest),
        ),
        read_field(
            varint(8 * tag as nat + 3) + fields_bytes(inner) + varint(8 * tag as nat + 4) + rest,
            depth,
        ) == Some((FieldView { tag, value: FieldValueView::Other }, rest)),
{
    let key1 = varint(8 * tag as nat + 1);
    key_reads_back(tag, WireKind::SixtyFourBit, eight + rest);
    assert(key1 + eight + rest =~= key1 + (eight + rest));
    assert((eight + rest).skip(8) =~= rest);
    let key5 = varint(8 * tag as nat + 5);
    key_reads_back(tag, WireKind::ThirtyTwoBit, four + rest);
    assert(key5 + four + rest =~= key5 + (four + rest));
    assert((four + rest).skip(4) =~= rest);
    let key3 = varint(8 * tag as nat + 3);
    let more = fields_bytes(inner) + varint(8 * tag as nat + 4) + rest;
    assert(key3 + fields_bytes(inner) + varint(8 * tag as nat + 4) + rest =~= key3 + more);
    key_reads_back(tag, WireKind::StartGroup, more);
    group_is_passed_over(tag, inner, rest, depth);
}

/// A group ends where its end is marked.
proof fn group_is_passed_over(tag: u32, inner: Seq<FieldView>, rest: Seq<u8>, depth: nat)
    requires
        1 <= tag < 0x2000_0000,
        forall|i: int| 0 <= i < inner.len() ==> writable(#[trigger] inner[i]),
        depth >= 2,
    ensures
        after_groups(
            fields_bytes(inner) + varint(8 * tag as nat + 4) + rest,
            seq![tag],
            depth,
        ) == Some(rest),
    decreases inner.len(),
{
    let end = varint(8 * tag as nat + 4) + rest;
    assert(fields_bytes(inner) + varint(8 * tag as nat + 4) + rest =~= fields_bytes(inner) + end);
    if inner.len() == 0 {
        assert(fields_bytes(inner) + end =~= varint(8 * tag as nat + 4) + rest);
        key_reads_back(tag, WireKind::EndGroup, rest);
        assert(seq![tag].drop_last() =~= Seq::<u32>::empty());
        assert(after_groups(rest, Seq::<u32>::empty(), depth) == Some(rest));
    } else {
        let first = inner[0];
        let others = inner.drop_first();
        assert forall|i: int| 0 <= i < others.len() implies writable(#[trigger] others[i]) by {
            assert(others[i] == inner[i + 1]);
        }
        group_is_passed_over(tag, others, rest, depth);
        assert(inner =~= seq![first] + others);
        fields_bytes_concat(seq![first], others);
        assert(seq![first] =~= Seq::empty().push(first));
        fields_follow_each_other(Seq::empty(), first);
        let more = fields_bytes(others) + end;
        assert(fields_bytes(others) + varint(8 * tag as nat + 4) + rest =~= more);
        assert(fields_bytes(inner) + end =~= field_bytes(first) + more);
        match first.value {
            FieldValueView::Varint(n) => {
                let key = varint(key_number(first.tag, WireKind::Varint));
                assert(field_bytes(first) + more =~= key + (varint(n as nat) + more));
                key_reads_back(first.tag, WireKind::Varint, varint(n as nat) + more);
                varint_reads_back(n, more);
            },
            FieldValueView::Delimited(value) => {
                let key = varint(key_number(first.tag, WireKind::LengthDelimited));
                let tail = varint(value.len()) + (value + more);
                assert(field_bytes(first) + more =~= key + tail);
                key_reads_back(first.tag, WireKind::LengthDelimited, tail);
                varint_reads_back(value.len() as u64, value + more);
                assert((value + more).take(value.len() as int) =~= value);
                assert((value + more).skip(value.len() as int) =~= more);
            },
            FieldValueView::Other => {},
        }
    }
}

/// The bytes of a opening message hold each part under its tag, in the order of the
/// tags, and
/// nothing else; a part at its default is left out.
pub proof fn handshake_request_is_written_by_tag(m: HandshakeRequestView, depth: nat)
    requires
        message_bytes::<HandshakeRequest>(m).len() <= u64::MAX,
        depth >= HandshakeRequest::nesting(),
    ensures
        read_fields(message_bytes::<HandshakeRequest>(m), depth) matches Some(fields) && {
            &&& under(fields, 1) == one_number(m.timestamp as u64)
            &&& under(fields, 2) == one_string(m.public_key)
            &&& under(fields, 3) == one_string(m.signature)
            &&& under(fields, 4) == one_string(encode_utf8(m.client_id))
            &&& under(fields, 5) == one_string(m.nonce)
            &&& tags_ascend(fields, 5)
        },
{
    HandshakeRequest::fields_lead_back(m, depth);
    fields_read_back(HandshakeRequest::to_fields(m), depth);
    let f1 = number_field(1, m.timestamp as u64);
    all_under_tag(f1, 1);
    assert(under(f1, 1) =~= one_number(m.timestamp as u64));
    let f2 = bytes_field(2, m.public_key);
    all_under_tag(f2, 2);
    assert(under(f2, 2) =~= one_string(m.public_key));
    under_concat(f1, f2, 2);
    let f3 = bytes_field(3, m.signature);
    all_under_tag(f3, 3);
    assert(under(f3, 3) =~= one_string(m.signature));
    under_concat(f1 + f2, f3, 3);
    let f4 = bytes_field(4, encode_utf8(m.client_id));
    all_under_tag(f4, 4);
    assert(under(f4, 4) =~= one_string(encode_utf8(m.client_id)));
    under_concat(f1 + f2 + f3, f4, 4);
    let f5 = bytes_field(5, m.nonce);
    all_under_tag(f5, 5);
    assert(under(f5, 5) =~= one_string(m.nonce));
    under_concat(f1 + f2 + f3 + f4, f5, 5);
    assert(HandshakeRequest::to_fields(m) == f1 + f2 + f3 + f4 + f5);
}

/// A opening message is read by tag: the last value under a tag counts, lists grow,
/// other tags
/// are passed over, and a value of the wrong kind makes the whole unreadable.
pub proof fn handshake_request_is_read_by_tag(start: HandshakeRequestView, fields: Seq<FieldView>,
    depth: nat)
    ensures
        match with_fields::<HandshakeRequest>(start, fields, depth) {
            Some(m) => {
                &&& only_numbers(fields, 1)
                &&& only_strings(fields, 2)
                &&& only_strings(fields, 3)
                &&& only_texts(fields, 4)
                &&& only_strings(fields, 5)
                &&& m.timestamp == last_number(fields, 1, start.timestamp as u64) as i64
                &&& m.public_key == last_string(fields, 2, start.public_key)
                &&& m.signature == last_string(fields, 3, start.signature)
                &&& m.client_id == last_text(fields, 4, start.client_id)
                &&& m.nonce == last_string(fields, 5, start.nonce)
            },
            None => !(only_numbers(fields, 1) && only_strings(fields, 2) && only_strings(fields,
                3) && only_texts(fields, 4) && only_strings(fields, 5)),
        },
    decreases fields.len(),
{
    if fields.len() > 0 {
        handshake_request_is_read_by_tag(start, fields.drop_last(), depth);
    } else {
        signed_survives(start.timestamp);
    }
}

/// The bytes of a answer to an opening message hold each part under its tag, in the
/// order of the tags, and
/// nothing else; a part at its default is left out.
pub proof fn handshake_response_is_written_by_tag(m: HandshakeResponseView, depth: nat)
    requires
        message_bytes::<HandshakeResponse>(m).len() <= u64::MAX,
        depth >= HandshakeResponse::nesting(),
    ensures
        read_fields(message_bytes::<HandshakeResponse>(m), depth) matches Some(fields) && {
            &&& under(fields, 1) == one_number(if m.accepted { 1 } else { 0 })
            &&& under(fields, 2) == one_string(encode_utf8(m.error))
            &&& under(fields, 3) == one_string(encode_utf8(m.session_id))
            &&& tags_ascend(fields, 3)
        },
{
    HandshakeResponse::fields_lead_back(m, depth);
    fields_read_back(HandshakeResponse::to_fields(m), depth);
    let f1 = number_field(1, bool_number(m.accepted));
    all_under_tag(f1, 1);
    assert(under(f1, 1) =~= one_number(if m.accepted { 1 } else { 0 }));
    let f2 = bytes_field(2, encode_utf8(m.error));
    all_under_tag(f2, 2);
    assert(under(f2, 2) =~= one_string(encode_utf8(m.error)));
    under_concat(f1, f2, 2);
    let f3 = bytes_field(3, encode_utf8(m.session_id));
    all_under_tag(f3, 3);
    assert(under(f3, 3) =~= one_string(encode_utf8(m.session_id)));
    under_concat(f1 + f2, f3, 3);
    assert(HandshakeResponse::to_fields(m) == f1 + f2 + f3);
}

/// A answer to an opening message is read by tag: the last value under a tag counts,
/// lists grow, other tags
/// are passed over, and a value of the wrong kind makes the whole unreadable.
pub proof fn handshake_response_is_read_by_tag(start: HandshakeResponseView,
    fields: Seq<FieldView>, depth: nat)
    ensures
        match with_fields::<HandshakeResponse>(start, fields, depth) {
            Some(m) => {
                &&& only_numbers(fields, 1)
                &&& only_texts(fields, 2)
                &&& only_texts(fields, 3)
                &&& m.accepted == (last_number(fields, 1, if start.accepted { 1 } else { 0 }) != 0)
                &&& m.error == last_text(fields, 2, start.error)
                &&& m.session_id == last_text(fields, 3, start.session_id)
            },
            None => !(only_numbers(fields, 1) && only_texts(fields, 2) && only_texts(fields, 3)),
        },
    decreases fields.len(),
{
    if fields.len() > 0 {
        handshake_response_is_read_by_tag(start, fields.drop_last(), depth);
    } else {
    }
}

/// The bytes of a ping hold each part under its tag, in the order of the tags, and
/// nothing else; a part at its default is left out.
pub proof fn ping_is_written_by_tag(m: PingView, depth: nat)
    requires
        message_bytes::<Ping>(m).len() <= u64::MAX,
        depth >= Ping::nesting(),
    ensures
        read_fields(message_bytes::<Ping>(m), depth) matches Some(fields) && {
            &&& under(fields, 1) == one_number(m.timestamp as u64)
            &&& tags_ascend(fields, 1)
        },
{
    Ping::fields_lead_back(m, depth);
    fields_read_back(Ping::to_fields(m), depth);
    let f1 = number_field(1, m.timestamp as u64);
    all_under_tag(f1, 1);
    assert(under(f1, 1) =~= one_number(m.timestamp as u64));
    assert(Ping::to_fields(m) == f1);
}

/// A ping is read by tag: the last value under a tag counts, lists grow, other tags
/// are passed over, and a value of the wrong kind makes the whole unreadable.
pub proof fn ping_is_read_by_tag(start: PingView, fields: Seq<FieldView>, depth: nat)
    ensures
        match with_fields::<Ping>(start, fields, depth) {
            Some(m) => {
                &&& only_numbers(fields, 1)
                &&& m.timestamp == last_number(fields, 1, start.timestamp as u64) as i64
            },
            None => !(only_numbers(fields, 1)),
        },
    decreases fields.len(),
{
    if fields.len() > 0 {
        ping_is_read_by_tag(start, fields.drop_last(), depth);
    } else {
        signed_survives(start.timestamp);
    }
}

/// The bytes of a pong hold each part under its tag, in the order of the tags, and
/// nothing else; a part at its default is left out.
pub proof fn pong_is_written_by_tag(m: PongView, depth: nat)
    requires
        message_bytes::<Pong>(m).len() <= u64::MAX,
        depth >= Pong::nesting(),
    ensures
        read_fields(message_bytes::<Pong>(m), depth) matches Some(fields) && {
            &&& under(fields, 1) == one_number(m.timestamp as u64)
            &&& tags_ascend(fields, 1)
        },
{
    Pong::fields_lead_back(m, depth);
    fields_read_back(Pong::to_fields(m), depth);
    let f1 = number_field(1, m.timestamp as u64);
    all_under_tag(f1, 1);
    assert(under(f1, 1) =~= one_number(m.timestamp as u64));
    assert(Pong::to_fields(m) == f1);
}

/// A pong is read by tag: the last value under a tag counts, lists grow, other tags
/// are passed over, and a value of the wrong kind makes the whole unreadable.
pub proof fn pong_is_read_by_tag(start: PongView, fields: Seq<FieldView>, depth: nat)
    ensures
        match with_fields::<Pong>(start, fields, depth) {
            Some(m) => {
                &&& only_numbers(fields, 1)
                &&& m.timestamp == last_number(fields, 1, start.timestamp as u64) as i64
            },
            None => !(only_numbers(fields, 1)),
        },
    decreases fields.len(),
{
    if fields.len() > 0 {
        pong_is_read_by_tag(start, fields.drop_last(), depth);
    } else {
        signed_survives(start.timestamp);
    }
}

/// The bytes of a request to a single chain hold each part under its tag, in the order
/// of the tags, and
/// nothing else; a part at its default is left out.
pub proof fn transaction_request_is_written_by_tag(m: TransactionRequestView, depth: nat)
    requires
        message_bytes::<TransactionRequest>(m).len() <= u64::MAX,
        depth >= TransactionRequest::nesting(),
    ensures
        read_fields(message_bytes::<TransactionRequest>(m), depth) matches Some(fields) && {
            &&& under(fields, 1) == one_number(m.chain_id)
            &&& under(fields, 2) == strings(m.transaction)
            &&& tags_ascend(fields, 2)
        },
{
    TransactionRequest::fields_lead_back(m, depth);
    fields_read_back(TransactionRequest::to_fields(m), depth);
    let f1 = number_field(1, m.chain_id);
    all_under_tag(f1, 1);
    assert(under(f1, 1) =~= one_number(m.chain_id));
    let f2 = repeated_field(2, m.transaction);
    all_under_tag(f2, 2);
    assert(under(f2, 2) =~= strings(m.transaction));
    under_concat(f1, f2, 2);
    assert(TransactionRequest::to_fields(m) == f1 + f2);
}

/// A request to a single chain is read by tag: the last value under a tag counts, lists
/// grow, other tags
/// are passed over, and a value of the wrong kind makes the whole unreadable.
pub proof fn transaction_request_is_read_by_tag(start: TransactionRequestView,
    fields: Seq<FieldView>, depth: nat)
    ensures
        match with_fields::<TransactionRequest>(start, fields, depth) {
            Some(m) => {
                &&& only_numbers(fields, 1)
                &&& only_strings(fields, 2)
                &&& m.chain_id == last_number(fields, 1, start.chain_id)
                &&& m.transaction == start.transaction + strings_of(fields, 2)
            },
            None => !(only_numbers(fields, 1) && only_strings(fields, 2)),
        },
    decreases fields.len(),
{
    if fields.len() > 0 {
        transaction_request_is_read_by_tag(start, fields.drop_last(), depth);
        assert(start.transaction + strings_of(fields.drop_last(),
            2).push(string_value(fields.last()))
            =~= (start.transaction + strings_of(fields.drop_last(),
            2)).push(string_value(fields.last())));
    } else {
        assert(start.transaction + strings_of(fields, 2) =~= start.transaction);
    }
}

/// The bytes of a vote hold each part under its tag, in the order of the tags, and
/// nothing else; a part at its default is left out.
pub proof fn vote_is_written_by_tag(m: VoteView, depth: nat)
    requires
        message_bytes::<Vote>(m).len() <= u64::MAX,
        depth >= Vote::nesting(),
    ensures
        read_fields(message_bytes::<Vote>(m), depth) matches Some(fields) && {
            &&& under(fields, 1) == one_string(m.instance_id)
            &&& under(fields, 2) == one_number(m.chain_id)
            &&& under(fields, 3) == one_number(if m.vote { 1 } else { 0 })
            &&& tags_ascend(fields, 3)
        },
{
    Vote::fields_lead_back(m, depth);
    fields_read_back(Vote::to_fields(m), depth);
    let f1 = bytes_field(1, m.instance_id);
    all_under_tag(f1, 1);
    assert(under(f1, 1) =~= one_string(m.instance_id));
    let f2 = number_field(2, m.chain_id);
    all_under_tag(f2, 2);
    assert(under(f2, 2) =~= one_number(m.chain_id));
    under_concat(f1, f2, 2);
    let f3 = number_field(3, bool_number(m.vote));
    all_under_tag(f3, 3);
    assert(under(f3, 3) =~= one_number(if m.vote { 1 } else { 0 }));
    under_concat(f1 + f2, f3, 3);
    assert(Vote::to_fields(m) == f1 + f2 + f3);
}

/// A vote is read by tag: the last value under a tag counts, lists grow, other tags
/// are passed over, and a value of the wrong kind makes the whole unreadable.
pub proof fn vote_is_read_by_tag(start: VoteView, fields: Seq<FieldView>, depth: nat)
    ensures
        match with_fields::<Vote>(start, fields, depth) {
            Some(m) => {
                &&& only_strings(fields, 1)
                &&& only_numbers(fields, 2)
                &&& only_numbers(fields, 3)
                &&& m.instance_id == last_string(fields, 1, start.instance_id)
                &&& m.chain_id == last_number(fields, 2, start.chain_id)
                &&& m.vote == (last_number(fields, 3, if start.vote { 1 } else { 0 }) != 0)
            },
            None => !(only_strings(fields, 1) && only_numbers(fields, 2) && only_numbers(fields,
                3)),
        },
    decreases fields.len(),
{
    if fields.len() > 0 {
        vote_is_read_by_tag(start, fields.drop_last(), depth);
    } else {
    }
}

/// The bytes of a decision hold each part under its tag, in the order of the tags, and
/// nothing else; a part at its default is left out.
pub proof fn decided_is_written_by_tag(m: DecidedView, depth: nat)
    requires
        message_bytes::<Decided>(m).len() <= u64::MAX,
        depth >= Decided::nesting(),
    ensures
        read_fields(message_bytes::<Decided>(m), depth) matches Some(fields) && {
            &&& under(fields, 1) == one_string(m.instance_id)
            &&& under(fields, 2) == one_number(if m.decision { 1 } else { 0 })
            &&& tags_ascend(fields, 2)
        },
{
    Decided::fields_lead_back(m, depth);
    fields_read_back(Decided::to_fields(m), depth);
    let f1 = bytes_field(1, m.instance_id);
    all_under_tag(f1, 1);
    assert(under(f1, 1) =~= one_string(m.instance_id));
    let f2 = number_field(2, bool_number(m.decision));
    all_under_tag(f2, 2);
    assert(under(f2, 2) =~= one_number(if m.decision { 1 } else { 0 }));
    under_concat(f1, f2, 2);
    assert(Decided::to_fields(m) == f1 + f2);
}

/// A decision is read by tag: the last value under a tag counts, lists grow, other tags
/// are passed over, and a value of the wrong kind makes the whole unreadable.
pub proof fn decided_is_read_by_tag(start: DecidedView, fields: Seq<FieldView>, depth: nat)
    ensures
        match with_fields::<Decided>(start, fields, depth) {
            Some(m) => {
                &&& only_strings(fields, 1)
                &&& only_numbers(fields, 2)
                &&& m.instance_id == last_string(fields, 1, start.instance_id)
                &&& m.decision == (last_number(fields, 2, if start.decision { 1 } else { 0 }) != 0)
            },
            None => !(only_strings(fields, 1) && only_numbers(fields, 2)),
        },
    decreases fields.len(),
{
    if fields.len() > 0 {
        decided_is_read_by_tag(start, fields.drop_last(), depth);
    } else {
    }
}

/// The bytes of a mailbox message hold each part under its tag, in the order of the
/// tags, and
/// nothing else; a part at its default is left out.
pub proof fn mailbox_message_is_written_by_tag(m: MailboxMessageView, depth: nat)
    requires
        message_bytes::<MailboxMessage>(m).len() <= u64::MAX,
        depth >= MailboxMessage::nesting(),
    ensures
        read_fields(message_bytes::<MailboxMessage>(m), depth) matches Some(fields) && {
            &&& under(fields, 1) == one_number(m.session_id)
            &&& under(fields, 2) == one_string(m.instance_id)
            &&& under(fields, 3) == one_number(m.source_chain)
            &&& under(fields, 4) == one_number(m.destination_chain)
            &&& under(fields, 5) == one_string(m.source)
            &&& under(fields, 6) == one_string(m.receiver)
            &&& under(fields, 7) == one_string(encode_utf8(m.label))
            &&& under(fields, 8) == strings(m.data)
            &&& tags_ascend(fields, 8)
        },
{
    MailboxMessage::fields_lead_back(m, depth);
    fields_read_back(MailboxMessage::to_fields(m), depth);
    let f1 = number_field(1, m.session_id);
    all_under_tag(f1, 1);
    assert(under(f1, 1) =~= one_number(m.session_id));
    let f2 = bytes_field(2, m.instance_id);
    all_under_tag(f2, 2);
    assert(under(f2, 2) =~= one_string(m.instance_id));
    under_concat(f1, f2, 2);
    let f3 = number_field(3, m.source_chain);
    all_under_tag(f3, 3);
    assert(under(f3, 3) =~= one_number(m.source_chain));
    under_concat(f1 + f2, f3, 3);
    let f4 = number_field(4, m.destination_chain);
    all_under_tag(f4, 4);
    assert(under(f4, 4) =~= one_number(m.destination_chain));
    under_concat(f1 + f2 + f3, f4, 4);
    let f5 = bytes_field(5, m.source);
    all_under_tag(f5, 5);
    assert(under(f5, 5) =~= one_string(m.source));
    under_concat(f1 + f2 + f3 + f4, f5, 5);
    let f6 = bytes_field(6, m.receiver);
    all_under_tag(f6, 6);
    assert(under(f6, 6) =~= one_string(m.receiver));
    under_concat(f1 + f2 + f3 + f4 + f5, f6, 6);
    let f7 = bytes_field(7, encode_utf8(m.label));
    all_under_tag(f7, 7);
    assert(under(f7, 7) =~= one_string(encode_utf8(m.label)));
    under_concat(f1 + f2 + f3 + f4 + f5 + f6, f7, 7);
    let f8 = repeated_field(8, m.data);
    all_under_tag(f8, 8);
    assert(under(f8, 8) =~= strings(m.data));
    under_concat(f1 + f2 + f3 + f4 + f5 + f6 + f7, f8, 8);
    assert(MailboxMessage::to_fields(m) == f1 + f2 + f3 + f4 + f5 + f6 + f7 + f8);
}

/// A mailbox message is read by tag: the last value under a tag counts, lists grow,
/// other tags
/// are passed over, and a value of the wrong kind makes the whole unreadable.
pub proof fn mailbox_message_is_read_by_tag(start: MailboxMessageView, fields: Seq<FieldView>,
    depth: nat)
    ensures
        match with_fields::<MailboxMessage>(start, fields, depth) {
            Some(m) => {
                &&& only_numbers(fields, 1)
                &&& only_strings(fields, 2)
                &&& only_numbers(fields, 3)
                &&& only_numbers(fields, 4)
                &&& only_strings(fields, 5)
                &&& only_strings(fields, 6)
                &&& only_texts(fields, 7)
                &&& only_strings(fields, 8)
                &&& m.session_id == last_number(fields, 1, start.session_id)
                &&& m.instance_id == last_string(fields, 2, start.instance_id)
                &&& m.source_chain == last_number(fields, 3, start.source_chain)
                &&& m.destination_chain == last_number(fields, 4, start.destination_chain)
                &&& m.source == last_string(fields, 5, start.source)
                &&& m.receiver == last_string(fields, 6, start.receiver)
                &&& m.label == last_text(fields, 7, start.label)
                &&& m.data == start.data + strings_of(fields, 8)
            },
            None => !(only_numbers(fields, 1) && only_strings(fields, 2) && only_numbers(fields,
                3) && only_numbers(fields, 4) && only_strings(fields, 5) && only_strings(fields,
                6) && only_texts(fields, 7) && only_strings(fields, 8)),
        },
    decreases fields.len(),
{
    if fields.len() > 0 {
        mailbox_message_is_read_by_tag(start, fields.drop_last(), depth);
        assert(start.data + strings_of(fields.drop_last(), 8).push(string_value(fields.last()))
            =~= (start.data + strings_of(fields.drop_last(), 8)).push(string_value(fields.last())));
    } else {
        assert(start.data + strings_of(fields, 8) =~= start.data);
    }
}

/// The bytes of a announcement of a period hold each part under its tag, in the order
/// of the tags, and
/// nothing else; a part at its default is left out.
pub proof fn start_period_is_written_by_tag(m: StartPeriodView, depth: nat)
    requires
        message_bytes::<StartPeriod>(m).len() <= u64::MAX,
        depth >= StartPeriod::nesting(),
    ensures
        read_fields(message_bytes::<StartPeriod>(m), depth) matches Some(fields) && {
            &&& under(fields, 1) == one_number(m.period_id)
            &&& under(fields, 2) == one_number(m.superblock_number)
            &&& tags_ascend(fields, 2)
        },
{
    StartPeriod::fields_lead_back(m, depth);
    fields_read_back(StartPeriod::to_fields(m), depth);
    let f1 = number_field(1, m.period_id);
    all_under_tag(f1, 1);
    assert(under(f1, 1) =~= one_number(m.period_id));
    let f2 = number_field(2, m.superblock_number);
    all_under_tag(f2, 2);
    assert(under(f2, 2) =~= one_number(m.superblock_number));
    under_concat(f1, f2, 2);
    assert(StartPeriod::to_fields(m) == f1 + f2);
}

/// A announcement of a period is read by tag: the last value under a tag counts, lists
/// grow, other tags
/// are passed over, and a value of the wrong kind makes the whole unreadable.
pub proof fn start_period_is_read_by_tag(start: StartPeriodView, fields: Seq<FieldView>, depth: nat)
    ensures
        match with_fields::<StartPeriod>(start, fields, depth) {
            Some(m) => {
                &&& only_numbers(fields, 1)
                &&& only_numbers(fields, 2)
                &&& m.period_id == last_number(fields, 1, start.period_id)
                &&& m.superblock_number == last_number(fields, 2, start.superblock_number)
            },
            None => !(only_numbers(fields, 1) && only_numbers(fields, 2)),
        },
    decreases fields.len(),
{
    if fields.len() > 0 {
        start_period_is_read_by_tag(start, fields.drop_last(), depth);
    } else {
    }
}

/// The bytes of a announcement of a rollback hold each part under its tag, in the order
/// of the tags, and
/// nothing else; a part at its default is left out.
pub proof fn rollback_is_written_by_tag(m: RollbackView, depth: nat)
    requires
        message_bytes::<Rollback>(m).len() <= u64::MAX,
        depth >= Rollback::nesting(),
    ensures
        read_fields(message_bytes::<Rollback>(m), depth) matches Some(fields) && {
            &&& under(fields, 1) == one_number(m.period_id)
            &&& under(fields, 2) == one_number(m.last_finalized_superblock_number)
            &&& under(fields, 3) == one_string(m.last_finalized_superblock_hash)
            &&& tags_ascend(fields, 3)
        },
{
    Rollback::fields_lead_back(m, depth);
    fields_read_back(Rollback::to_fields(m), depth);
    let f1 = number_field(1, m.period_id);
    all_under_tag(f1, 1);
    assert(under(f1, 1) =~= one_number(m.period_id));
    let f2 = number_field(2, m.last_finalized_superblock_number);
    all_under_tag(f2, 2);
    assert(under(f2, 2) =~= one_number(m.last_finalized_superblock_number));
    under_concat(f1, f2, 2);
    let f3 = bytes_field(3, m.last_finalized_superblock_hash);
    all_under_tag(f3, 3);
    assert(under(f3, 3) =~= one_string(m.last_finalized_superblock_hash));
    under_concat(f1 + f2, f3, 3);
    assert(Rollback::to_fields(m) == f1 + f2 + f3);
}

/// A announcement of a rollback is read by tag: the last value under a tag counts,
/// lists grow, other tags
/// are passed over, and a value of the wrong kind makes the whole unreadable.
pub proof fn rollback_is_read_by_tag(start: RollbackView, fields: Seq<FieldView>, depth: nat)
    ensures
        match with_fields::<Rollback>(start, fields, depth) {
            Some(m) => {
                &&& only_numbers(fields, 1)
                &&& only_numbers(fields, 2)
                &&& only_strings(fields, 3)
                &&& m.period_id == last_number(fields, 1, start.period_id)
                &&& m.last_finalized_superblock_number == last_number(fields, 2,
                    start.last_finalized_superblock_number)
                &&& m.last_finalized_superblock_hash == last_string(fields, 3,
                    start.last_finalized_superblock_hash)
            },
            None => !(only_numbers(fields, 1) && only_numbers(fields, 2) && only_strings(fields,
                3)),
        },
    decreases fields.len(),
{
    if fields.len() > 0 {
        rollback_is_read_by_tag(start, fields.drop_last(), depth);
    } else {
    }
}

/// The bytes of a proof hold each part under its tag, in the order of the tags, and
/// nothing else; a part at its default is left out.
pub proof fn proof_is_written_by_tag(m: ProofView, depth: nat)
    requires
        message_bytes::<Proof>(m).len() <= u64::MAX,
        depth >= Proof::nesting(),
    ensures
        read_fields(message_bytes::<Proof>(m), depth) matches Some(fields) && {
            &&& under(fields, 1) == one_number(m.period_id)
            &&& under(fields, 2) == one_number(m.superblock_number)
            &&& under(fields, 3) == one_string(m.proof_data)
            &&& tags_ascend(fields, 3)
        },
{
    Proof::fields_lead_back(m, depth);
    fields_read_back(Proof::to_fields(m), depth);
    let f1 = number_field(1, m.period_id);
    all_under_tag(f1, 1);
    assert(under(f1, 1) =~= one_number(m.period_id));
    let f2 = number_field(2, m.superblock_number);
    all_under_tag(f2, 2);
    assert(under(f2, 2) =~= one_number(m.superblock_number));
    under_concat(f1, f2, 2);
    let f3 = bytes_field(3, m.proof_data);
    all_under_tag(f3, 3);
    assert(under(f3, 3) =~= one_string(m.proof_data));
    under_concat(f1 + f2, f3, 3);
    assert(Proof::to_fields(m) == f1 + f2 + f3);
}

/// A proof is read by tag: the last value under a tag counts, lists grow, other tags
/// are passed over, and a value of the wrong kind makes the whole unreadable.
pub proof fn proof_is_read_by_tag(start: ProofView, fields: Seq<FieldView>, depth: nat)
    ensures
        match with_fields::<Proof>(start, fields, depth) {
            Some(m) => {
                &&& only_numbers(fields, 1)
                &&& only_numbers(fields, 2)
                &&& only_strings(fields, 3)
                &&& m.period_id == last_number(fields, 1, start.period_id)
                &&& m.superblock_number == last_number(fields, 2, start.superblock_number)
                &&& m.proof_data == last_string(fields, 3, start.proof_data)
            },
            None => !(only_numbers(fields, 1) && only_numbers(fields, 2) && only_strings(fields,
                3)),
        },
    decreases fields.len(),
{
    if fields.len() > 0 {
        proof_is_read_by_tag(start, fields.drop_last(), depth);
    } else {
    }
}

/// The bytes of a native decision hold each part under its tag, in the order of the
/// tags, and
/// nothing else; a part at its default is left out.
pub proof fn native_decided_is_written_by_tag(m: NativeDecidedView, depth: nat)
    requires
        message_bytes::<NativeDecided>(m).len() <= u64::MAX,
        depth >= NativeDecided::nesting(),
    ensures
        read_fields(message_bytes::<NativeDecided>(m), depth) matches Some(fields) && {
            &&& under(fields, 1) == one_string(m.instance_id)
            &&& under(fields, 2) == one_number(if m.decision { 1 } else { 0 })
            &&& tags_ascend(fields, 2)
        },
{
    NativeDecided::fields_lead_back(m, depth);
    fields_read_back(NativeDecided::to_fields(m), depth);
    let f1 = bytes_field(1, m.instance_id);
    all_under_tag(f1, 1);
    assert(under(f1, 1) =~= one_string(m.instance_id));
    let f2 = number_field(2, bool_number(m.decision));
    all_under_tag(f2, 2);
    assert(under(f2, 2) =~= one_number(if m.decision { 1 } else { 0 }));
    under_concat(f1, f2, 2);
    assert(NativeDecided::to_fields(m) == f1 + f2);
}

/// A native decision is read by tag: the last value under a tag counts, lists grow,
/// other tags
/// are passed over, and a value of the wrong kind makes the whole unreadable.
pub proof fn native_decided_is_read_by_tag(start: NativeDecidedView, fields: Seq<FieldView>,
    depth: nat)
    ensures
        match with_fields::<NativeDecided>(start, fields, depth) {
            Some(m) => {
                &&& only_strings(fields, 1)
                &&& only_numbers(fields, 2)
                &&& m.instance_id == last_string(fields, 1, start.instance_id)
                &&& m.decision == (last_number(fields, 2, if start.decision { 1 } else { 0 }) != 0)
            },
            None => !(only_strings(fields, 1) && only_numbers(fields, 2)),
        },
    decreases fields.len(),
{
    if fields.len() > 0 {
        native_decided_is_read_by_tag(start, fields.drop_last(), depth);
    } else {
    }
}

/// The bytes of a `Ws` decision hold each part under its tag, in the order of the tags,
/// and
/// nothing else; a part at its default is left out.
pub proof fn ws_decided_is_written_by_tag(m: WsDecidedView, depth: nat)
    requires
        message_bytes::<WsDecided>(m).len() <= u64::MAX,
        depth >= WsDecided::nesting(),
    ensures
        read_fields(message_bytes::<WsDecided>(m), depth) matches Some(fields) && {
            &&& under(fields, 1) == one_string(m.instance_id)
            &&& under(fields, 2) == one_number(if m.decision { 1 } else { 0 })
            &&& tags_ascend(fields, 2)
        },
{
    WsDecided::fields_lead_back(m, depth);
    fields_read_back(WsDecided::to_fields(m), depth);
    let f1 = bytes_field(1, m.instance_id);
    all_under_tag(f1, 1);
    assert(under(f1, 1) =~= one_string(m.instance_id));
    let f2 = number_field(2, bool_number(m.decision));
    all_under_tag(f2, 2);
    assert(under(f2, 2) =~= one_number(if m.decision { 1 } else { 0 }));
    under_concat(f1, f2, 2);
    assert(WsDecided::to_fields(m) == f1 + f2);
}

/// A `Ws` decision is read by tag: the last value under a tag counts, lists grow, other
/// tags
/// are passed over, and a value of the wrong kind makes the whole unreadable.
pub proof fn ws_decided_is_read_by_tag(start: WsDecidedView, fields: Seq<FieldView>, depth: nat)
    ensures
        match with_fields::<WsDecided>(start, fields, depth) {
            Some(m) => {
                &&& only_strings(fields, 1)
                &&& only_numbers(fields, 2)
                &&& m.instance_id == last_string(fields, 1, start.instance_id)
                &&& m.decision == (last_number(fields, 2, if start.decision { 1 } else { 0 }) != 0)
            },
            None => !(only_strings(fields, 1) && only_numbers(fields, 2)),
        },
    decreases fields.len(),
{
    if fields.len() > 0 {
        ws_decided_is_read_by_tag(start, fields.drop_last(), depth);
    } else {
    }
}

/// The bytes of a confirmation hold each part under its tag, in the order of the tags,
/// and
/// nothing else; a part at its default is left out.
pub proof fn confirmed_is_written_by_tag(m: ConfirmedView, depth: nat)
    requires
        message_bytes::<Confirmed>(m).len() <= u64::MAX,
        depth >= Confirmed::nesting(),
    ensures
        read_fields(message_bytes::<Confirmed>(m), depth) matches Some(fields) && {
            &&& under(fields, 1) == one_string(m.instance_id)
            &&& under(fields, 2) == one_number(m.chain_id)
            &&& tags_ascend(fields, 2)
        },
{
    Confirmed::fields_lead_back(m, depth);
    fields_read_back(Confirmed::to_fields(m), depth);
    let f1 = bytes_field(1, m.instance_id);
    all_under_tag(f1, 1);
    assert(under(f1, 1) =~= one_string(m.instance_id));
    let f2 = number_field(2, m.chain_id);
    all_under_tag(f2, 2);
    assert(under(f2, 2) =~= one_number(m.chain_id));
    under_concat(f1, f2, 2);
    assert(Confirmed::to_fields(m) == f1 + f2);
}

/// A confirmation is read by tag: the last value under a tag counts, lists grow, other
/// tags
/// are passed over, and a value of the wrong kind makes the whole unreadable.
pub proof fn confirmed_is_read_by_tag(start: ConfirmedView, fields: Seq<FieldView>, depth: nat)
    ensures
        match with_fields::<Confirmed>(start, fields, depth) {
            Some(m) => {
                &&& only_strings(fields, 1)
                &&& only_numbers(fields, 2)
                &&& m.instance_id == last_string(fields, 1, start.instance_id)
                &&& m.chain_id == last_number(fields, 2, start.chain_id)
            },
            None => !(only_strings(fields, 1) && only_numbers(fields, 2)),
        },
    decreases fields.len(),
{
    if fields.len() > 0 {
        confirmed_is_read_by_tag(start, fields.drop_last(), depth);
    } else {
    }
}

/// The bytes of a cross-chain request hold each part under its tag, in the order of the
/// tags, and
/// nothing else; a part at its default is left out.
pub proof fn xt_request_is_written_by_tag(m: XtRequestView, depth: nat)
    requires
        message_bytes::<XtRequest>(m).len() <= u64::MAX,
        depth >= XtRequest::nesting(),
    ensures
        read_fields(message_bytes::<XtRequest>(m), depth) matches Some(fields) && {
            &&& under(fields, 1)
                == strings(m.transaction_requests.map_values(|t: TransactionRequestView| message_bytes::<TransactionRequest>(t)))
            &&& tags_ascend(fields, 1)
        },
{
    XtRequest::fields_lead_back(m, depth);
    fields_read_back(XtRequest::to_fields(m), depth);
    let f1 = transaction_request_fields(m.transaction_requests);
    all_under_tag(f1, 1);
    assert(under(f1, 1)
        =~= strings(m.transaction_requests.map_values(|t: TransactionRequestView| message_bytes::<TransactionRequest>(t))));
    assert(XtRequest::to_fields(m) == f1);
}

/// The bytes of a announcement of an instance hold each part under its tag, in the
/// order of the tags, and
/// nothing else; a part at its default is left out.
pub proof fn start_instance_is_written_by_tag(m: StartInstanceView, depth: nat)
    requires
        message_bytes::<StartInstance>(m).len() <= u64::MAX,
        depth >= StartInstance::nesting(),
    ensures
        read_fields(message_bytes::<StartInstance>(m), depth) matches Some(fields) && {
            &&& under(fields, 1) == one_string(m.instance_id)
            &&& under(fields, 2) == one_number(m.period_id)
            &&& under(fields, 3) == one_number(m.sequence_number)
            &&& under(fields, 4)
                == (match m.xt_request { Some(x) => strings(seq![message_bytes::<XtRequest>(x)]),
                None => Seq::empty() })
            &&& tags_ascend(fields, 4)
        },
{
    StartInstance::fields_lead_back(m, depth);
    fields_read_back(StartInstance::to_fields(m), depth);
    let f1 = bytes_field(1, m.instance_id);
    all_under_tag(f1, 1);
    assert(under(f1, 1) =~= one_string(m.instance_id));
    let f2 = number_field(2, m.period_id);
    all_under_tag(f2, 2);
    assert(under(f2, 2) =~= one_number(m.period_id));
    under_concat(f1, f2, 2);
    let f3 = number_field(3, m.sequence_number);
    all_under_tag(f3, 3);
    assert(under(f3, 3) =~= one_number(m.sequence_number));
    under_concat(f1 + f2, f3, 3);
    let f4 = xt_request_field(m.xt_request);
    all_under_tag(f4, 4);
    assert(under(f4, 4)
        =~= (match m.xt_request { Some(x) => strings(seq![message_bytes::<XtRequest>(x)]),
        None => Seq::empty() }));
    under_concat(f1 + f2 + f3, f4, 4);
    assert(StartInstance::to_fields(m) == f1 + f2 + f3 + f4);
}

/// A request to a single chain of which nothing was read yet.
pub open spec fn no_request() -> TransactionRequestView {
    TransactionRequestView { chain_id: 0, transaction: Seq::empty() }
}

/// A cross-chain request is read by tag: each byte string under its tag is one more
/// request to a single chain.
pub proof fn xt_request_is_read_by_tag(start: XtRequestView, fields: Seq<FieldView>, depth: nat)
    ensures
        ({
            let parts = strings_of(fields, 1);
            let before = start.transaction_requests;
            match with_fields::<XtRequest>(start, fields, depth) {
                Some(m) => {
                    &&& only_strings(fields, 1)
                    &&& m.transaction_requests.len() == before.len() + parts.len()
                    &&& m.transaction_requests.take(before.len() as int) == before
                    &&& forall|k: int|
                        0 <= k < parts.len() ==> depth > 0 && with_bytes::<TransactionRequest>(
                            no_request(),
                            #[trigger] parts[k],
                            (depth - 1) as nat,
                        ) == Some(m.transaction_requests[before.len() + k])
                },
                None => !only_strings(fields, 1) || exists|k: int|
                    0 <= k < parts.len() && (depth == 0 || with_bytes::<TransactionRequest>(
                        no_request(),
                        #[trigger] parts[k],
                        (depth - 1) as nat,
                    ) is None),
            }
        }),
    decreases fields.len(),
{
    let parts = strings_of(fields, 1);
    let before = start.transaction_requests;
    if fields.len() == 0 {
        assert(before.take(before.len() as int) =~= before);
    } else {
        let init = fields.drop_last();
        xt_request_is_read_by_tag(start, init, depth);
        let earlier = strings_of(init, 1);
        assert(TransactionRequest::blank() == no_request());
        match with_fields::<XtRequest>(start, init, depth) {
            Some(x) => {
                match with_fields::<XtRequest>(start, fields, depth) {
                    Some(m) => {
                        assert(m.transaction_requests.take(before.len() as int) =~= before) by {
                            assert(x.transaction_requests.take(before.len() as int) == before);
                            assert forall|i: int| 0 <= i < before.len() implies m.transaction_requests[i]
                                == before[i] by {
                                assert(x.transaction_requests.take(before.len() as int)[i]
                                    == before[i]);
                            }
                        }
                        assert forall|k: int| 0 <= k < parts.len() implies depth > 0
                            && with_bytes::<
                            TransactionRequest,
                        >(no_request(), #[trigger] parts[k], (depth - 1) as nat) == Some(
                            m.transaction_requests[before.len() + k],
                        ) by {
                            if k < earlier.len() {
                                assert(parts[k] == earlier[k]);
                            }
                        }
                    },
                    None => {
                        if only_strings(fields, 1) {
                            assert(parts[parts.len() - 1] == string_value(fields.last()));
                        }
                    },
                }
            },
            None => {
                if only_strings(init, 1) {
                    let k = choose|k: int|
                        0 <= k < earlier.len() && (depth == 0 || with_bytes::<TransactionRequest>(
                            no_request(),
                            #[trigger] earlier[k],
                            (depth - 1) as nat,
                        ) is None);
                    assert(parts[k] == earlier[k]);
                }
            },
        }
    }
}

/// A cross-chain request of which nothing was read yet.
pub open spec fn no_xt_request() -> XtRequestView {
    XtRequestView { transaction_requests: Seq::empty() }
}

/// The cross-chain request that the byte strings under `tag` make up, read one into
/// the other. Nothing where one of them cannot be read.
pub open spec fn xt_request_under(
    fields: Seq<FieldView>,
    tag: u32,
    before: Option<XtRequestView>,
    depth: nat,
) -> Option<Option<XtRequestView>>
    decreases fields.len(),
{
    if fields.len() == 0 {
        Some(before)
    } else {
        match xt_request_under(fields.drop_last(), tag, before, depth) {
            None => None,
            Some(x) => if fields.last().tag != tag {
                Some(x)
            } else if depth == 0 || !(fields.last().value is Delimited) {
                None
            } else {
                match with_bytes::<XtRequest>(
                    match x {
                        Some(y) => y,
                        None => no_xt_request(),
                    },
                    string_value(fields.last()),
                    (depth - 1) as nat,
                ) {
                    Some(y) => Some(Some(y)),
                    None => None,
                }
            },
        }
    }
}

/// An announcement of an instance is read by tag.
pub proof fn start_instance_is_read_by_tag(
    start: StartInstanceView,
    fields: Seq<FieldView>,
    depth: nat,
)
    ensures
        match with_fields::<StartInstance>(start, fields, depth) {
            Some(m) => {
                &&& only_strings(fields, 1)
                &&& only_numbers(fields, 2)
                &&& only_numbers(fields, 3)
                &&& m.instance_id == last_string(fields, 1, start.instance_id)
                &&& m.period_id == last_number(fields, 2, start.period_id)
                &&& m.sequence_number == last_number(fields, 3, start.sequence_number)
                &&& xt_request_under(fields, 4, start.xt_request, depth) == Some(m.xt_request)
            },
            None => !only_strings(fields, 1) || !only_numbers(fields, 2) || !only_numbers(fields, 3)
                || xt_request_under(fields, 4, start.xt_request, depth) is None,
        },
    decreases fields.len(),
{
    if fields.len() > 0 {
        start_instance_is_read_by_tag(start, fields.drop_last(), depth);
        assert(XtRequest::blank() == no_xt_request());
    }
}

/// The tag of a payload.
pub open spec fn payload_tag(p: PayloadView) -> u32 {
    match p {
        PayloadView::HandshakeRequest(x) => 2,
        PayloadView::HandshakeResponse(x) => 3,
        PayloadView::Ping(x) => 4,
        PayloadView::Pong(x) => 5,
        PayloadView::XtRequest(x) => 6,
        PayloadView::StartInstance(x) => 7,
        PayloadView::Vote(x) => 8,
        PayloadView::Decided(x) => 9,
        PayloadView::MailboxMessage(x) => 10,
        PayloadView::StartPeriod(x) => 11,
        PayloadView::Rollback(x) => 12,
        PayloadView::Proof(x) => 13,
        PayloadView::NativeDecided(x) => 14,
        PayloadView::WsDecided(x) => 15,
        PayloadView::Confirmed(x) => 16,
    }
}

/// The bytes of a payload.
pub open spec fn payload_bytes(p: PayloadView) -> Seq<u8> {
    match p {
        PayloadView::HandshakeRequest(x) => message_bytes::<HandshakeRequest>(x),
        PayloadView::HandshakeResponse(x) => message_bytes::<HandshakeResponse>(x),
        PayloadView::Ping(x) => message_bytes::<Ping>(x),
        PayloadView::Pong(x) => message_bytes::<Pong>(x),
        PayloadView::XtRequest(x) => message_bytes::<XtRequest>(x),
        PayloadView::StartInstance(x) => message_bytes::<StartInstance>(x),
        PayloadView::Vote(x) => message_bytes::<Vote>(x),
        PayloadView::Decided(x) => message_bytes::<Decided>(x),
        PayloadView::MailboxMessage(x) => message_bytes::<MailboxMessage>(x),
        PayloadView::StartPeriod(x) => message_bytes::<StartPeriod>(x),
        PayloadView::Rollback(x) => message_bytes::<Rollback>(x),
        PayloadView::Proof(x) => message_bytes::<Proof>(x),
        PayloadView::NativeDecided(x) => message_bytes::<NativeDecided>(x),
        PayloadView::WsDecided(x) => message_bytes::<WsDecided>(x),
        PayloadView::Confirmed(x) => message_bytes::<Confirmed>(x),
    }
}

/// The field of a payload has the tag and the bytes of the payload.
proof fn payload_stands_under_its_tag(p: PayloadView)
    ensures
        payload_field(Some(p)) == seq![
            FieldView {
                tag: payload_tag(p),
                value: FieldValueView::Delimited(payload_bytes(p)),
            },
        ],
        2 <= payload_tag(p) <= 16,
{
}

/// The bytes of a message hold the sender's name under the first tag, and its payload
/// under the tag that tells which payload it is.
pub proof fn message_is_written_by_tag(m: MessageView, depth: nat)
    requires
        message_bytes::<Message>(m).len() <= u64::MAX,
        depth >= Message::nesting(),
    ensures
        read_fields(message_bytes::<Message>(m), depth) matches Some(fields) && {
            &&& under(fields, 1) == one_string(encode_utf8(m.sender_id))
            &&& tags_ascend(fields, 16)
            &&& match m.payload {
                Some(p) => {
                    &&& under(fields, payload_tag(p)) == strings(seq![payload_bytes(p)])
                    &&& fields.len() == under(fields, 1).len() + 1
                },
                None => fields.len() == under(fields, 1).len(),
            }
        },
{
    Message::fields_lead_back(m, depth);
    fields_read_back(Message::to_fields(m), depth);
    let f1 = bytes_field(1, encode_utf8(m.sender_id));
    all_under_tag(f1, 1);
    assert(under(f1, 1) =~= one_string(encode_utf8(m.sender_id)));
    match m.payload {
        Some(p) => {
            let tag = payload_tag(p);
            let f2 = seq![FieldView { tag, value: FieldValueView::Delimited(payload_bytes(p)) }];
            payload_stands_under_its_tag(p);
            all_under_tag(f2, tag);
            assert(under(f2, tag) =~= strings(seq![payload_bytes(p)]));
            under_concat(f1, f2, tag);
            assert(tags_ascend(f1 + f2, 16));
        },
        None => {
            assert(Message::to_fields(m) =~= f1);
        },
    }
}

/// Whether the payload `p` is what `bytes` make of `before`: they are read into a
/// payload of the same sort, and into an empty one otherwise.
pub open spec fn payload_read_from(
    p: PayloadView,
    before: Option<PayloadView>,
    bytes: Seq<u8>,
    depth: nat,
) -> bool {
    match p {
        PayloadView::HandshakeRequest(x) => with_bytes::<HandshakeRequest>(
            match before {
                Some(PayloadView::HandshakeRequest(y)) => y,
                _ => HandshakeRequest::blank(),
            },
            bytes,
            depth,
        ) == Some(x),
        PayloadView::HandshakeResponse(x) => with_bytes::<HandshakeResponse>(
            match before {
                Some(PayloadView::HandshakeResponse(y)) => y,
                _ => HandshakeResponse::blank(),
            },
            bytes,
            depth,
        ) == Some(x),
        PayloadView::Ping(x) => with_bytes::<Ping>(
            match before {
                Some(PayloadView::Ping(y)) => y,
                _ => Ping::blank(),
            },
            bytes,
            depth,
        ) == Some(x),
        PayloadView::Pong(x) => with_bytes::<Pong>(
            match before {
                Some(PayloadView::Pong(y)) => y,
                _ => Pong::blank(),
            },
            bytes,
            depth,
        ) == Some(x),
        PayloadView::XtRequest(x) => with_bytes::<XtRequest>(
            match before {
                Some(PayloadView::XtRequest(y)) => y,
                _ => XtRequest::blank(),
            },
            bytes,
            depth,
        ) == Some(x),
        PayloadView::StartInstance(x) => with_bytes::<StartInstance>(
            match before {
                Some(PayloadView::StartInstance(y)) => y,
                _ => StartInstance::blank(),
            },
            bytes,
            depth,
        ) == Some(x),
        PayloadView::Vote(x) => with_bytes::<Vote>(
            match before {
                Some(PayloadView::Vote(y)) => y,
                _ => Vote::blank(),
            },
            bytes,
            depth,
        ) == Some(x),
        PayloadView::Decided(x) => with_bytes::<Decided>(
            match before {
                Some(PayloadView::Decided(y)) => y,
                _ => Decided::blank(),
            },
            bytes,
            depth,
        ) == Some(x),
        PayloadView::MailboxMessage(x) => with_bytes::<MailboxMessage>(
            match before {
                Some(PayloadView::MailboxMessage(y)) => y,
                _ => MailboxMessage::blank(),
            },
            bytes,
            depth,
        ) == Some(x),
        PayloadView::StartPeriod(x) => with_bytes::<StartPeriod>(
            match before {
                Some(PayloadView::StartPeriod(y)) => y,
                _ => StartPeriod::blank(),
            },
            bytes,
            depth,
        ) == Some(x),
        PayloadView::Rollback(x) => with_bytes::<Rollback>(
            match before {
                Some(PayloadView::Rollback(y)) => y,
                _ => Rollback::blank(),
            },
            bytes,
            depth,
        ) == Some(x),
        PayloadView::Proof(x) => with_bytes::<Proof>(
            match before {
                Some(PayloadView::Proof(y)) => y,
                _ => Proof::blank(),
            },
            bytes,
            depth,
        ) == Some(x),
        PayloadView::NativeDecided(x) => with_bytes::<NativeDecided>(
            match before {
                Some(PayloadView::NativeDecided(y)) => y,
                _ => NativeDecided::blank(),
            },
            bytes,
            depth,
        ) == Some(x),
        PayloadView::WsDecided(x) => with_bytes::<WsDecided>(
            match before {
                Some(PayloadView::WsDecided(y)) => y,
                _ => WsDecided::blank(),
            },
            bytes,
            depth,
        ) == Some(x),
        PayloadView::Confirmed(x) => with_bytes::<Confirmed>(
            match before {
                Some(PayloadView::Confirmed(y)) => y,
                _ => Confirmed::blank(),
            },
            bytes,
            depth,
        ) == Some(x),
    }
}

/// A message is read by tag: the first tag holds the sender's name, and each payload
/// has a tag of its own; other tags are passed over.
pub proof fn message_is_read_by_tag(
    start: MessageView,
    fields: Seq<FieldView>,
    f: FieldView,
    depth: nat,
)
    ensures
        ({
            let bytes = string_value(f);
            let after = with_fields::<Message>(start, fields.push(f), depth);
            match with_fields::<Message>(start, fields, depth) {
                None => after is None,
                Some(m) => if f.tag == 1 {
                    if f.value is Delimited && valid_utf8(bytes) {
                        after == Some(MessageView { sender_id: decode_utf8(bytes), ..m })
                    } else {
                        after is None
                    }
                } else if 2 <= f.tag <= 16 {
                    match after {
                        Some(n) => {
                            &&& f.value is Delimited
                            &&& depth > 0
                            &&& n.sender_id == m.sender_id
                            &&& n.payload is Some
                            &&& payload_tag(n.payload->0) == f.tag
                            &&& payload_read_from(n.payload->0, m.payload, bytes,
                                (depth - 1) as nat)
                        },
                        None => f.value is Delimited && depth > 0 ==> forall|p: PayloadView|
                            #[trigger] payload_tag(p) == f.tag ==> !payload_read_from(
                                p,
                                m.payload,
                                bytes,
                                (depth - 1) as nat,
                            ),
                    }
                } else {
                    after == Some(m)
                },
            }
        }),
{
    assert(fields.push(f).drop_last() =~= fields);
    assert(fields.push(f).last() == f);
}

/// Bytes are read field by field: those of a list of fields give what the fields give,
/// each read into what the ones before it gave.
pub proof fn bytes_are_read_field_by_field<M: WireMessage>(
    start: M::V,
    fields: Seq<FieldView>,
    f: FieldView,
    depth: nat,
)
    requires
        forall|i: int| 0 <= i < fields.len() ==> writable(#[trigger] fields[i]),
        writable(f),
    ensures
        with_bytes::<M>(start, Seq::empty(), depth) == Some(start),
        with_bytes::<M>(start, fields_bytes(fields) + field_bytes(f), depth) == (match with_bytes::<
            M,
        >(start, fields_bytes(fields), depth) {
            Some(m) => M::with_field(m, f, depth),
            None => None,
        }),
{
    assert(read_fields(Seq::empty(), depth) == Some(Seq::<FieldView>::empty()));
    fields_read_back(fields, depth);
    let more = fields.push(f);
    assert forall|i: int| 0 <= i < more.len() implies writable(#[trigger] more[i]) by {
        if i < fields.len() {
            assert(more[i] == fields[i]);
        }
    }
    fields_read_back(more, depth);
    fields_follow_each_other(fields, f);
    assert(more.drop_last() =~= fields);
}

/// A message is decoded from its fields, with up to a hundred messages and groups in one
/// another, and encoded as the fields that its bytes are read as.
pub proof fn envelopes_are_made_of_fields(m: MessageView, bytes: Seq<u8>)
    requires
        encoded(m).len() <= u64::MAX,
    ensures
        match read_fields(bytes, 100) {
            Some(fields) => decoded(bytes) == with_fields::<Message>(
                MessageView { sender_id: Seq::empty(), payload: None },
                fields,
                100,
            ),
            None => decoded(bytes) is None,
        },
        encoded(m) == message_bytes::<Message>(m),
        read_fields(encoded(m), 100) matches Some(fields) && fields_bytes(fields) == encoded(m),
{
    Message::fields_lead_back(m, 100);
    fields_read_back(Message::to_fields(m), 100);
}

/// A message of which nothing was read yet names no sender and carries nothing.
pub proof fn reading_starts_from_nothing(depth: nat)
    ensures
        with_fields::<Message>(Message::blank(), Seq::empty(), depth) == Some(
            MessageView { sender_id: Seq::empty(), payload: None },
        ),
{
}

/// The content of a opening message is what its parts hold.
pub proof fn handshake_request_view_is_faithful(m: HandshakeRequest)
    ensures
        m@.timestamp == m.timestamp,
        m@.public_key == m.public_key@,
        m@.signature == m.signature@,
        m@.client_id == m.client_id@,
        m@.nonce == m.nonce@,
{
}

/// The content of a answer to an opening message is what its parts hold.
pub proof fn handshake_response_view_is_faithful(m: HandshakeResponse)
    ensures
        m@.accepted == m.accepted,
        m@.error == m.error@,
        m@.session_id == m.session_id@,
{
}

/// The content of a ping is what its parts hold.
pub proof fn ping_view_is_faithful(m: Ping)
    ensures
        m@.timestamp == m.timestamp,
{
}

/// The content of a pong is what its parts hold.
pub proof fn pong_view_is_faithful(m: Pong)
    ensures
        m@.timestamp == m.timestamp,
{
}

/// The content of a request to a single chain is what its parts hold.
pub proof fn transaction_request_view_is_faithful(m: TransactionRequest)
    ensures
        m@.chain_id == m.chain_id,
        m@.transaction.len() == m.transaction.len(),
        forall|i: int| 0 <= i < m.transaction.len() ==> #[trigger] m@.transaction[i]
            == m.transaction[i]@,
{
}

/// The content of a vote is what its parts hold.
pub proof fn vote_view_is_faithful(m: Vote)
    ensures
        m@.instance_id == m.instance_id@,
        m@.chain_id == m.chain_id,
        m@.vote == m.vote,
{
}

/// The content of a decision is what its parts hold.
pub proof fn decided_view_is_faithful(m: Decided)
    ensures
        m@.instance_id == m.instance_id@,
        m@.decision == m.decision,
{
}

/// The content of a mailbox message is what its parts hold.
pub proof fn mailbox_message_view_is_faithful(m: MailboxMessage)
    ensures
        m@.session_id == m.session_id,
        m@.instance_id == m.instance_id@,
        m@.source_chain == m.source_chain,
        m@.destination_chain == m.destination_chain,
        m@.source == m.source@,
        m@.receiver == m.receiver@,
        m@.label == m.label@,
        m@.data.len() == m.data.len(),
        forall|i: int| 0 <= i < m.data.len() ==> #[trigger] m@.data[i] == m.data[i]@,
{
}

/// The content of a announcement of a period is what its parts hold.
pub proof fn start_period_view_is_faithful(m: StartPeriod)
    ensures
        m@.period_id == m.period_id,
        m@.superblock_number == m.superblock_number,
{
}

/// The content of a announcement of a rollback is what its parts hold.
pub proof fn rollback_view_is_faithful(m: Rollback)
    ensures
        m@.period_id == m.period_id,
        m@.last_finalized_superblock_number == m.last_finalized_superblock_number,
        m@.last_finalized_superblock_hash == m.last_finalized_superblock_hash@,
{
}

/// The content of a proof is what its parts hold.
pub proof fn proof_view_is_faithful(m: Proof)
    ensures
        m@.period_id == m.period_id,
        m@.superblock_number == m.superblock_number,
        m@.proof_data == m.proof_data@,
{
}

/// The content of a native decision is what its parts hold.
pub proof fn native_decided_view_is_faithful(m: NativeDecided)
    ensures
        m@.instance_id == m.instance_id@,
        m@.decision == m.decision,
{
}

/// The content of a `Ws` decision is what its parts hold.
pub proof fn ws_decided_view_is_faithful(m: WsDecided)
    ensures
        m@.instance_id == m.instance_id@,
        m@.decision == m.decision,
{
}

/// The content of a confirmation is what its parts hold.
pub proof fn confirmed_view_is_faithful(m: Confirmed)
    ensures
        m@.instance_id == m.instance_id@,
        m@.chain_id == m.chain_id,
{
}

/// The content of a cross-chain request is what its parts hold.
pub proof fn xt_request_view_is_faithful(m: XtRequest)
    ensures
        m@.transaction_requests.len() == m.transaction_requests.len(),
        forall|i: int|
            0 <= i < m.transaction_requests.len() ==> #[trigger] m@.transaction_requests[i]
                == m.transaction_requests[i]@,
{
}

/// The content of an announcement of an instance is what its parts hold.
pub proof fn start_instance_view_is_faithful(m: StartInstance)
    ensures
        m@.instance_id == m.instance_id@,
        m@.period_id == m.period_id,
        m@.sequence_number == m.sequence_number,
        m.xt_request is Some <==> m@.xt_request is Some,
        m.xt_request is Some ==> m@.xt_request->0 == m.xt_request->0@,
{
}

/// The content of a message is what its parts hold.
pub proof fn message_view_is_faithful(m: Message)
    ensures
        m@.sender_id == m.sender_id@,
        m.payload is None <==> m@.payload is None,
        match m.payload {
            None => true,
            Some(Payload::HandshakeRequest(x)) => m@.payload
                == Some(PayloadView::HandshakeRequest(x@)),
            Some(Payload::HandshakeResponse(x)) => m@.payload
                == Some(PayloadView::HandshakeResponse(x@)),
            Some(Payload::Ping(x)) => m@.payload == Some(PayloadView::Ping(x@)),
            Some(Payload::Pong(x)) => m@.payload == Some(PayloadView::Pong(x@)),
            Some(Payload::XtRequest(x)) => m@.payload == Some(PayloadView::XtRequest(x@)),
            Some(Payload::StartInstance(x)) => m@.payload == Some(PayloadView::StartInstance(x@)),
            Some(Payload::Vote(x)) => m@.payload == Some(PayloadView::Vote(x@)),
            Some(Payload::Decided(x)) => m@.payload == Some(PayloadView::Decided(x@)),
            Some(Payload::MailboxMessage(x)) => m@.payload == Some(PayloadView::MailboxMessage(x@)),
            Some(Payload::StartPeriod(x)) => m@.payload == Some(PayloadView::StartPeriod(x@)),
            Some(Payload::Rollback(x)) => m@.payload == Some(PayloadView::Rollback(x@)),
            Some(Payload::Proof(x)) => m@.payload == Some(PayloadView::Proof(x@)),
            Some(Payload::NativeDecided(x)) => m@.payload == Some(PayloadView::NativeDecided(x@)),
            Some(Payload::WsDecided(x)) => m@.payload == Some(PayloadView::WsDecided(x@)),
            Some(Payload::Confirmed(x)) => m@.payload == Some(PayloadView::Confirmed(x@)),
        },
{
}

} // verus!
