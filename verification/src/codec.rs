//! How messages are written as fields and read from them.

use vstd::prelude::*;
#[allow(unused_imports)]
use vstd::string::*;
#[allow(unused_imports)]
use vstd::utf8::{decode_utf8, encode_utf8, valid_utf8};

#[allow(unused_imports)]
use crate::wire::{
    always_field, appends, bytes_field, field_bytes_bounded, field_views, fields_bytes,
    fields_read_back, number_field, read_fields, writable, FieldValueView, FieldView,
};
use crate::wire::{split_fields, Field, FieldValue};

verus! {

/// A message that is written as a list of fields.
pub trait WireMessage: View + Sized {
    /// The message without any field.
    spec fn blank() -> Self::V;

    /// The fields of a message.
    spec fn to_fields(m: Self::V) -> Seq<FieldView>;

    /// The message after a field was read, or nothing where the field does not fit.
    /// Up to `depth` messages and groups may be nested in it.
    spec fn with_field(m: Self::V, f: FieldView, depth: nat) -> Option<Self::V>;

    /// How many messages can be nested in this one.
    spec fn nesting() -> nat;

    /// The message without any field.
    fn new_blank() -> (m: Self)
        ensures
            m@ == Self::blank(),
    ;

    /// Reads a field into the message. Gives whether it fits.
    fn set_field(&mut self, field: Field, depth: usize) -> (fits: bool)
        ensures
            match Self::with_field(old(self)@, field@, depth as nat) {
                Some(m) => fits && final(self)@ == m,
                None => !fits,
            },
    ;

    /// Writes the message to the end of `buf`.
    fn put_fields(&self, buf: &mut Vec<u8>)
        ensures
            appends(old(buf)@, final(buf)@, Self::to_fields(self@)),
    ;
}

/// The message after a list of fields was read.
pub open spec fn with_fields<M: WireMessage>(m: M::V, fields: Seq<FieldView>, depth: nat) -> Option<
    M::V,
>
    decreases fields.len(),
{
    if fields.len() == 0 {
        Some(m)
    } else {
        match with_fields::<M>(m, fields.drop_last(), depth) {
            Some(x) => M::with_field(x, fields.last(), depth),
            None => None,
        }
    }
}

/// The message after the fields in `bytes` were read.
pub open spec fn with_bytes<M: WireMessage>(m: M::V, bytes: Seq<u8>, depth: nat) -> Option<M::V> {
    match read_fields(bytes, depth) {
        Some(fields) => with_fields::<M>(m, fields, depth),
        None => None,
    }
}

/// The bytes of a message.
pub open spec fn message_bytes<M: WireMessage>(m: M::V) -> Seq<u8> {
    fields_bytes(M::to_fields(m))
}

/// Reading two lists of fields, one after the other.
proof fn with_fields_concat<M: WireMessage>(
    m: M::V,
    a: Seq<FieldView>,
    b: Seq<FieldView>,
    depth: nat,
)
    ensures
        with_fields::<M>(m, a + b, depth) == (match with_fields::<M>(m, a, depth) {
            Some(x) => with_fields::<M>(x, b, depth),
            None => None,
        }),
    decreases b.len(),
{
    if b.len() == 0 {
        assert(a + b =~= a);
    } else {
        with_fields_concat::<M>(m, a, b.drop_last(), depth);
        assert((a + b).drop_last() =~= a + b.drop_last());
        assert((a + b).last() == b.last());
    }
}

/// Reading a single field.
proof fn with_single_field<M: WireMessage>(m: M::V, f: FieldView, depth: nat)
    ensures
        with_fields::<M>(m, seq![f], depth) == M::with_field(m, f, depth),
{
    reveal_with_fuel(with_fields, 2);
    assert(seq![f].drop_last() =~= Seq::empty());
    assert(seq![f].last() == f);
}

/// Reads the fields in `bytes` into a message.
pub fn merge_bytes<M: WireMessage>(start: M, bytes: &[u8], depth: usize) -> (r: Option<M>)
    ensures
        match r {
            Some(m) => with_bytes::<M>(start@, bytes@, depth as nat) == Some(m@),
            None => with_bytes::<M>(start@, bytes@, depth as nat) is None,
        },
{
    match split_fields(bytes, depth) {
        Some(fields) => {
            let ghost all = field_views(fields@);
            let ghost list = fields@;
            let mut m = start;
            for f in it: fields
                invariant
                    it.seq() == list,
                    all == field_views(list),
                    read_fields(bytes@, depth as nat) == Some(all),
                    with_fields::<M>(start@, all.take(it.index()), depth as nat) == Some(m@),
            {
                let ghost i = it.index();
                assert(all.take(i + 1).drop_last() =~= all.take(i));
                assert(all.take(i + 1).last() == f@);
                if !m.set_field(f, depth) {
                    proof {
                        with_fields_stops::<M>(start@, all, i + 1, depth as nat);
                    }
                    return None;
                }
            }
            assert(all.take(all.len() as int) =~= all);
            Some(m)
        },
        None => None,
    }
}

/// Where some of the fields do not fit, all of them do not.
proof fn with_fields_stops<M: WireMessage>(m: M::V, fields: Seq<FieldView>, n: int, depth: nat)
    requires
        0 <= n <= fields.len(),
        with_fields::<M>(m, fields.take(n), depth) is None,
    ensures
        with_fields::<M>(m, fields, depth) is None,
{
    assert(fields =~= fields.take(n) + fields.skip(n));
    with_fields_concat::<M>(m, fields.take(n), fields.skip(n), depth);
}

/// A message whose fields lead back to it.
pub trait ReadsBack: WireMessage {
    /// The fields of a message can be written, and lead back to it.
    proof fn fields_lead_back(m: Self::V, depth: nat)
        requires
            fields_bytes(Self::to_fields(m)).len() <= u64::MAX,
            depth >= Self::nesting(),
        ensures
            forall|i: int|
                0 <= i < Self::to_fields(m).len() ==> writable(#[trigger] Self::to_fields(m)[i]),
            with_fields::<Self>(Self::blank(), Self::to_fields(m), depth) == Some(m),
    ;
}

/// A message that was written is read back as it was.
pub proof fn message_reads_back<M: ReadsBack>(m: M::V, depth: nat)
    requires
        message_bytes::<M>(m).len() <= u64::MAX,
        depth >= M::nesting(),
    ensures
        with_bytes::<M>(M::blank(), message_bytes::<M>(m), depth) == Some(m),
{
    M::fields_lead_back(m, depth);
    fields_read_back(M::to_fields(m), depth);
}

/// A field is proper: it has a tag in range, and a number or bytes.
pub open spec fn proper(f: FieldView) -> bool {
    1 <= f.tag < 0x2000_0000 && !(f.value is Other)
}

/// Every field of a list is proper.
pub open spec fn all_proper(fields: Seq<FieldView>) -> bool {
    forall|i: int| 0 <= i < fields.len() ==> proper(#[trigger] fields[i])
}

/// Two lists of proper fields, one after the other.
pub proof fn all_proper_concat(a: Seq<FieldView>, b: Seq<FieldView>)
    requires
        all_proper(a),
        all_proper(b),
    ensures
        all_proper(a + b),
{
    assert forall|i: int| 0 <= i < (a + b).len() implies proper(#[trigger] (a + b)[i]) by {
        if i < a.len() {
            assert((a + b)[i] == a[i]);
        } else {
            assert((a + b)[i] == b[i - a.len()]);
        }
    }
}

/// Proper fields can be written where all their bytes together are few enough.
pub proof fn proper_is_writable(fields: Seq<FieldView>)
    requires
        all_proper(fields),
        fields_bytes(fields).len() <= u64::MAX,
    ensures
        forall|i: int| 0 <= i < fields.len() ==> writable(#[trigger] fields[i]),
{
    assert forall|i: int| 0 <= i < fields.len() implies writable(#[trigger] fields[i]) by {
        field_bytes_bounded(fields, i);
        assert(proper(fields[i]));
    }
}

/// Reading the field of a number.
pub proof fn with_number_field<M: WireMessage>(m: M::V, tag: u32, n: u64, x: M::V, depth: nat)
    requires
        n == 0 ==> x == m,
        n != 0 ==> M::with_field(m, FieldView { tag, value: FieldValueView::Varint(n) }, depth)
            == Some(x),
    ensures
        with_fields::<M>(m, number_field(tag, n), depth) == Some(x),
{
    if n != 0 {
        with_single_field::<M>(m, FieldView { tag, value: FieldValueView::Varint(n) }, depth);
    }
}

/// Reading the field of a byte string that is always written.
pub proof fn with_always_field<M: WireMessage>(
    m: M::V,
    tag: u32,
    value: Seq<u8>,
    x: M::V,
    depth: nat,
)
    requires
        M::with_field(m, FieldView { tag, value: FieldValueView::Delimited(value) }, depth) == Some(
            x,
        ),
    ensures
        with_fields::<M>(m, always_field(tag, value), depth) == Some(x),
{
    with_single_field::<M>(m, FieldView { tag, value: FieldValueView::Delimited(value) }, depth);
}

/// Reading the field of a byte string.
pub proof fn with_bytes_field<M: WireMessage>(
    m: M::V,
    tag: u32,
    value: Seq<u8>,
    x: M::V,
    depth: nat,
)
    requires
        value.len() == 0 ==> x == m,
        value.len() != 0 ==> M::with_field(
            m,
            FieldView { tag, value: FieldValueView::Delimited(value) },
            depth,
        ) == Some(x),
    ensures
        with_fields::<M>(m, bytes_field(tag, value), depth) == Some(x),
{
    if value.len() != 0 {
        with_always_field::<M>(m, tag, value, x, depth);
    }
}

/// Reading on after what has been read.
pub proof fn with_more_fields<M: WireMessage>(
    m: M::V,
    a: Seq<FieldView>,
    x: M::V,
    b: Seq<FieldView>,
    y: M::V,
    depth: nat,
)
    requires
        with_fields::<M>(m, a, depth) == Some(x),
        with_fields::<M>(x, b, depth) == Some(y),
    ensures
        with_fields::<M>(m, a + b, depth) == Some(y),
{
    with_fields_concat::<M>(m, a, b, depth);
}

/// The bytes of a message.
pub fn to_bytes<M: WireMessage>(m: &M) -> (bytes: Vec<u8>)
    ensures
        bytes@ == message_bytes::<M>(m@),
{
    let mut bytes: Vec<u8> = Vec::new();
    m.put_fields(&mut bytes);
    assert(bytes@ =~= message_bytes::<M>(m@));
    bytes
}

/// The text that UTF-8 bytes stand for.
pub open spec fn text_value(bytes: Seq<u8>) -> Option<Seq<char>> {
    if valid_utf8(bytes) {
        Some(decode_utf8(bytes))
    } else {
        None
    }
}

/// `String::from_utf8`: the text that UTF-8 bytes stand for.
#[verifier::external_body]
fn utf8_text(bytes: Vec<u8>) -> (r: Option<String>)
    ensures
        match r {
            Some(text) => text_value(bytes@) == Some(text@),
            None => text_value(bytes@) is None,
        },
{
    match String::from_utf8(bytes) {
        Ok(text) => Some(text),
        Err(_) => None,
    }
}

/// The number in a field.
pub open spec fn number_in(f: FieldView) -> Option<u64> {
    match f.value {
        FieldValueView::Varint(n) => Some(n),
        _ => None,
    }
}

/// The bytes in a field.
pub open spec fn bytes_in(f: FieldView) -> Option<Seq<u8>> {
    match f.value {
        FieldValueView::Delimited(value) => Some(value),
        _ => None,
    }
}

/// The text in a field.
pub open spec fn text_in(f: FieldView) -> Option<Seq<char>> {
    match bytes_in(f) {
        Some(value) => text_value(value),
        None => None,
    }
}

/// The message in a field, read into `start`.
pub open spec fn message_in<M: WireMessage>(start: M::V, f: FieldView, depth: nat) -> Option<M::V> {
    match bytes_in(f) {
        Some(value) => if depth == 0 {
            None
        } else {
            with_bytes::<M>(start, value, (depth - 1) as nat)
        },
        None => None,
    }
}

/// The number in a field.
pub fn take_number(field: Field) -> (r: Option<u64>)
    ensures
        r == number_in(field@),
{
    match field.value {
        FieldValue::Varint(n) => Some(n),
        _ => None,
    }
}

/// The bytes in a field.
pub fn take_bytes(field: Field) -> (r: Option<Vec<u8>>)
    ensures
        match r {
            Some(value) => bytes_in(field@) == Some(value@),
            None => bytes_in(field@) is None,
        },
{
    match field.value {
        FieldValue::Delimited(value) => Some(value),
        _ => None,
    }
}

/// The text in a field.
pub fn take_text(field: Field) -> (r: Option<String>)
    ensures
        match r {
            Some(text) => text_in(field@) == Some(text@),
            None => text_in(field@) is None,
        },
{
    match field.value {
        FieldValue::Delimited(value) => utf8_text(value),
        _ => None,
    }
}

/// The message in a field, read into `start`.
pub fn take_message<M: WireMessage>(start: M, field: Field, depth: usize) -> (r: Option<M>)
    ensures
        match r {
            Some(m) => message_in::<M>(start@, field@, depth as nat) == Some(m@),
            None => message_in::<M>(start@, field@, depth as nat) is None,
        },
{
    match field.value {
        FieldValue::Delimited(value) => {
            if depth == 0 {
                None
            } else {
                merge_bytes(start, value.as_slice(), depth - 1)
            }
        },
        _ => None,
    }
}

/// The text that was written is the text that is read back.
pub proof fn text_reads_back(text: Seq<char>)
    ensures
        text_value(encode_utf8(text)) == Some(text),
        encode_utf8(text).len() == 0 ==> text == Seq::<char>::empty(),
{
    vstd::utf8::encode_utf8_valid_utf8(text);
    vstd::utf8::encode_utf8_decode_utf8(text);
    if encode_utf8(text).len() == 0 {
        assert(encode_utf8(text) =~= Seq::empty());
    }
}

} // verus!
