//! The wire format: messages are lists of tagged fields.

use vstd::prelude::*;
use vstd::slice::{slice_subrange, slice_to_vec};

#[allow(unused_imports)]
use crate::types::byte_strings;

verus! {

/// How the value of a field is written.
#[derive(Clone, Copy, Debug, PartialEq, Eq, Structural)]
pub enum WireKind {
    /// As a number of variable length.
    Varint,
    /// In eight bytes.
    SixtyFourBit,
    /// As a length and that many bytes.
    LengthDelimited,
    /// As the fields up to the end of the group.
    StartGroup,
    /// As nothing: the field ends a group.
    EndGroup,
    /// In four bytes.
    ThirtyTwoBit,
}

/// The number under which a kind is written.
pub open spec fn kind_number(kind: WireKind) -> nat {
    match kind {
        WireKind::Varint => 0,
        WireKind::SixtyFourBit => 1,
        WireKind::LengthDelimited => 2,
        WireKind::StartGroup => 3,
        WireKind::EndGroup => 4,
        WireKind::ThirtyTwoBit => 5,
    }
}

/// The kind that is written under a number.
pub open spec fn numbered_kind(n: nat) -> Option<WireKind> {
    if n == 0 {
        Some(WireKind::Varint)
    } else if n == 1 {
        Some(WireKind::SixtyFourBit)
    } else if n == 2 {
        Some(WireKind::LengthDelimited)
    } else if n == 3 {
        Some(WireKind::StartGroup)
    } else if n == 4 {
        Some(WireKind::EndGroup)
    } else if n == 5 {
        Some(WireKind::ThirtyTwoBit)
    } else {
        None
    }
}

/// A number in variable length: seven bits to a byte, lowest first, with the top bit
/// set in all bytes but the last.
pub open spec fn varint(n: nat) -> Seq<u8>
    decreases n,
{
    if n < 128 {
        seq![n as u8]
    } else {
        seq![(n % 128 + 128) as u8] + varint(n / 128)
    }
}

/// The number of variable length that `bytes` begin with, where it ends within
/// `limit` bytes, and what follows it.
pub open spec fn varint_prefix(bytes: Seq<u8>, limit: nat) -> Option<(nat, Seq<u8>)>
    decreases limit,
{
    if limit == 0 || bytes.len() == 0 {
        None
    } else if bytes[0] < 128 {
        Some((bytes[0] as nat, bytes.drop_first()))
    } else {
        match varint_prefix(bytes.drop_first(), (limit - 1) as nat) {
            Some((n, rest)) => Some(((bytes[0] - 128) as nat + 128 * n, rest)),
            None => None,
        }
    }
}

/// The 64-bit number of variable length that `bytes` begin with, and what follows it.
pub open spec fn read_varint(bytes: Seq<u8>) -> Option<(u64, Seq<u8>)> {
    match varint_prefix(bytes, 10) {
        Some((n, rest)) => if n <= u64::MAX {
            Some((n as u64, rest))
        } else {
            None
        },
        None => None,
    }
}

/// The number that stands for a tag and a kind.
pub open spec fn key_number(tag: u32, kind: WireKind) -> nat {
    8 * (tag as nat) + kind_number(kind)
}

/// The tag and the kind that `bytes` begin with, and what follows them.
pub open spec fn read_key(bytes: Seq<u8>) -> Option<(u32, WireKind, Seq<u8>)> {
    match read_varint(bytes) {
        Some((key, rest)) => match numbered_kind((key % 8) as nat) {
            Some(kind) => if key <= u32::MAX && key / 8 >= 1 {
                Some(((key / 8) as u32, kind, rest))
            } else {
                None
            },
            None => None,
        },
        None => None,
    }
}

/// `prost::encoding::encode_varint`: a number in variable length.
#[verifier::external_body]
fn varint_bytes(n: u64) -> (bytes: Vec<u8>)
    ensures
        bytes@ == varint(n as nat),
{
    let mut bytes = Vec::new();
    prost::encoding::encode_varint(n, &mut bytes);
    bytes
}

/// `prost::encoding::decode_varint`: the 64-bit number of variable length that
/// `bytes` begin with, and what follows it. Fails where there is none, or where it
/// has more than ten bytes or 64 bits.
#[verifier::external_body]
fn take_varint(bytes: &[u8]) -> (r: Option<(u64, &[u8])>)
    ensures
        match r {
            Some((n, rest)) => read_varint(bytes@) == Some((n, rest@)),
            None => read_varint(bytes@) is None,
        },
{
    let mut rest = bytes;
    match prost::encoding::decode_varint(&mut rest) {
        Ok(n) => Some((n, rest)),
        Err(_) => None,
    }
}

/// `prost::encoding::encode_key`: a tag and a kind, as the number in variable length
/// that stands for them.
#[verifier::external_body]
fn key_bytes(tag: u32, kind: WireKind) -> (bytes: Vec<u8>)
    requires
        1 <= tag < 0x2000_0000,
    ensures
        bytes@ == varint(key_number(tag, kind)),
{
    let wire_type = match kind {
        WireKind::Varint => prost::encoding::WireType::Varint,
        WireKind::SixtyFourBit => prost::encoding::WireType::SixtyFourBit,
        WireKind::LengthDelimited => prost::encoding::WireType::LengthDelimited,
        WireKind::StartGroup => prost::encoding::WireType::StartGroup,
        WireKind::EndGroup => prost::encoding::WireType::EndGroup,
        WireKind::ThirtyTwoBit => prost::encoding::WireType::ThirtyTwoBit,
    };
    let mut bytes = Vec::new();
    prost::encoding::encode_key(tag, wire_type, &mut bytes);
    bytes
}

/// `prost::encoding::decode_key`: the tag and the kind that `bytes` begin with, and
/// what follows them. Fails where there is no number, where it has more than 32 bits,
/// where no kind has its number, or where the tag is zero.
#[verifier::external_body]
fn take_key(bytes: &[u8]) -> (r: Option<(u32, WireKind, &[u8])>)
    ensures
        match r {
            Some((tag, kind, rest)) => read_key(bytes@) == Some((tag, kind, rest@)),
            None => read_key(bytes@) is None,
        },
{
    let mut rest = bytes;
    match prost::encoding::decode_key(&mut rest) {
        Ok((tag, prost::encoding::WireType::Varint)) => Some((tag, WireKind::Varint, rest)),
        Ok((tag, prost::encoding::WireType::SixtyFourBit)) => Some((tag, WireKind::SixtyFourBit, rest)),
        Ok((tag, prost::encoding::WireType::LengthDelimited)) => Some((tag, WireKind::LengthDelimited, rest)),
        Ok((tag, prost::encoding::WireType::StartGroup)) => Some((tag, WireKind::StartGroup, rest)),
        Ok((tag, prost::encoding::WireType::EndGroup)) => Some((tag, WireKind::EndGroup, rest)),
        Ok((tag, prost::encoding::WireType::ThirtyTwoBit)) => Some((tag, WireKind::ThirtyTwoBit, rest)),
        Err(_) => None,
    }
}

/// What follows a number of variable length is shorter.
proof fn varint_prefix_consumes(bytes: Seq<u8>, limit: nat)
    ensures
        varint_prefix(bytes, limit) matches Some((n, rest)) ==> rest.len() < bytes.len(),
    decreases limit,
{
    if limit > 0 && bytes.len() > 0 && bytes[0] >= 128 {
        varint_prefix_consumes(bytes.drop_first(), (limit - 1) as nat);
    }
}

/// The length and the bytes that `bytes` begin with, and what follows them.
pub open spec fn read_delimited(bytes: Seq<u8>) -> Option<(Seq<u8>, Seq<u8>)> {
    match read_varint(bytes) {
        Some((len, rest)) => if len <= rest.len() {
            Some((rest.take(len as int), rest.skip(len as int)))
        } else {
            None
        },
        None => None,
    }
}

/// What follows a key is shorter, and so is what follows a number or bytes after it.
proof fn key_and_value_consume(bytes: Seq<u8>)
    ensures
        read_key(bytes) matches Some((tag, kind, rest)) ==> {
            &&& rest.len() < bytes.len()
            &&& read_varint(rest) matches Some((n, more)) ==> more.len() < rest.len()
            &&& read_delimited(rest) matches Some((value, more)) ==> more.len() + value.len()
                < rest.len()
        },
{
    varint_prefix_consumes(bytes, 10);
    if let Some((tag, kind, rest)) = read_key(bytes) {
        varint_prefix_consumes(rest, 10);
    }
}

/// What follows the groups that are open with the tags `open`, innermost last, where
/// they end properly. No more than `depth` groups may be open while a field is read.
pub open spec fn after_groups(bytes: Seq<u8>, open: Seq<u32>, depth: nat) -> Option<Seq<u8>>
    decreases bytes.len(),
    via after_groups_decreases
{
    if open.len() == 0 {
        Some(bytes)
    } else {
        match read_key(bytes) {
            None => None,
            Some((tag, kind, rest)) => if kind is EndGroup {
                if tag == open.last() {
                    after_groups(rest, open.drop_last(), depth)
                } else {
                    None
                }
            } else if open.len() >= depth {
                None
            } else {
                match kind {
                    WireKind::Varint => match read_varint(rest) {
                        Some((n, more)) => after_groups(more, open, depth),
                        None => None,
                    },
                    WireKind::SixtyFourBit => if rest.len() >= 8 {
                        after_groups(rest.skip(8), open, depth)
                    } else {
                        None
                    },
                    WireKind::LengthDelimited => match read_delimited(rest) {
                        Some((value, more)) => after_groups(more, open, depth),
                        None => None,
                    },
                    WireKind::ThirtyTwoBit => if rest.len() >= 4 {
                        after_groups(rest.skip(4), open, depth)
                    } else {
                        None
                    },
                    _ => after_groups(rest, open.push(tag), depth),
                }
            },
        }
    }
}

#[via_fn]
proof fn after_groups_decreases(bytes: Seq<u8>, open: Seq<u32>, depth: nat) {
    key_and_value_consume(bytes);
}

/// The value of a field.
#[derive(Debug)]
pub enum FieldValue {
    /// A number.
    Varint(u64),
    /// Bytes.
    Delimited(Vec<u8>),
    /// Something of another kind, which no message uses.
    Other,
}

/// A tagged field.
#[derive(Debug)]
pub struct Field {
    /// The tag.
    pub tag: u32,
    /// The value.
    pub value: FieldValue,
}

/// The content of a [`FieldValue`].
#[verifier::ext_equal]
pub enum FieldValueView {
    /// A number.
    Varint(u64),
    /// Bytes.
    Delimited(Seq<u8>),
    /// Something of another kind.
    Other,
}

/// The content of a [`Field`].
#[verifier::ext_equal]
pub struct FieldView {
    /// The tag.
    pub tag: u32,
    /// The value.
    pub value: FieldValueView,
}

impl View for FieldValue {
    type V = FieldValueView;

    open spec fn view(&self) -> FieldValueView {
        match *self {
            FieldValue::Varint(n) => FieldValueView::Varint(n),
            FieldValue::Delimited(bytes) => FieldValueView::Delimited(bytes@),
            FieldValue::Other => FieldValueView::Other,
        }
    }
}

impl View for Field {
    type V = FieldView;

    open spec fn view(&self) -> FieldView {
        FieldView { tag: self.tag, value: self.value@ }
    }
}

/// The contents of a list of fields.
pub open spec fn field_views(fields: Seq<Field>) -> Seq<FieldView> {
    fields.map_values(|f: Field| f@)
}

/// The value of the given kind that `bytes` begin with, and what follows it.
pub open spec fn read_value(tag: u32, kind: WireKind, bytes: Seq<u8>, depth: nat) -> Option<
    (FieldValueView, Seq<u8>),
> {
    match kind {
        WireKind::Varint => match read_varint(bytes) {
            Some((n, rest)) => Some((FieldValueView::Varint(n), rest)),
            None => None,
        },
        WireKind::SixtyFourBit => if bytes.len() >= 8 {
            Some((FieldValueView::Other, bytes.skip(8)))
        } else {
            None
        },
        WireKind::LengthDelimited => match read_delimited(bytes) {
            Some((value, rest)) => Some((FieldValueView::Delimited(value), rest)),
            None => None,
        },
        WireKind::StartGroup => match after_groups(bytes, seq![tag], depth) {
            Some(rest) => Some((FieldValueView::Other, rest)),
            None => None,
        },
        WireKind::EndGroup => None,
        WireKind::ThirtyTwoBit => if bytes.len() >= 4 {
            Some((FieldValueView::Other, bytes.skip(4)))
        } else {
            None
        },
    }
}

/// The field that `bytes` begin with, and what follows it.
pub open spec fn read_field(bytes: Seq<u8>, depth: nat) -> Option<(FieldView, Seq<u8>)> {
    match read_key(bytes) {
        Some((tag, kind, rest)) => match read_value(tag, kind, rest, depth) {
            Some((value, more)) => Some((FieldView { tag, value }, more)),
            None => None,
        },
        None => None,
    }
}

/// What follows open groups is no longer than what came before.
proof fn after_groups_consumes(bytes: Seq<u8>, open: Seq<u32>, depth: nat)
    ensures
        after_groups(bytes, open, depth) matches Some(rest) ==> rest.len() <= bytes.len(),
    decreases bytes.len(),
{
    key_and_value_consume(bytes);
    if open.len() > 0 {
        if let Some((tag, kind, rest)) = read_key(bytes) {
            if kind is EndGroup {
                after_groups_consumes(rest, open.drop_last(), depth);
            } else {
                match kind {
                    WireKind::Varint => {
                        if let Some((n, more)) = read_varint(rest) {
                            after_groups_consumes(more, open, depth);
                        }
                    },
                    WireKind::SixtyFourBit => {
                        if rest.len() >= 8 {
                            after_groups_consumes(rest.skip(8), open, depth);
                        }
                    },
                    WireKind::LengthDelimited => {
                        if let Some((value, more)) = read_delimited(rest) {
                            after_groups_consumes(more, open, depth);
                        }
                    },
                    WireKind::ThirtyTwoBit => {
                        if rest.len() >= 4 {
                            after_groups_consumes(rest.skip(4), open, depth);
                        }
                    },
                    _ => {
                        after_groups_consumes(rest, open.push(tag), depth);
                    },
                }
            }
        }
    }
}

/// What follows a field is shorter, and a field's bytes are no longer than what they
/// were read from.
pub proof fn read_field_consumes(bytes: Seq<u8>, depth: nat)
    ensures
        read_field(bytes, depth) matches Some((field, rest)) ==> {
            &&& rest.len() < bytes.len()
            &&& field.value matches FieldValueView::Delimited(value) ==> value.len() <= bytes.len()
        },
{
    key_and_value_consume(bytes);
    if let Some((tag, kind, rest)) = read_key(bytes) {
        after_groups_consumes(rest, seq![tag], depth);
    }
}

/// The fields that `bytes` are made of.
pub open spec fn read_fields(bytes: Seq<u8>, depth: nat) -> Option<Seq<FieldView>>
    decreases bytes.len(),
    via read_fields_decreases
{
    if bytes.len() == 0 {
        Some(Seq::empty())
    } else {
        match read_field(bytes, depth) {
            Some((field, rest)) => match read_fields(rest, depth) {
                Some(fields) => Some(seq![field] + fields),
                None => None,
            },
            None => None,
        }
    }
}

#[via_fn]
proof fn read_fields_decreases(bytes: Seq<u8>, depth: nat) {
    read_field_consumes(bytes, depth);
}

/// What follows the groups that are open with the tags `groups`.
fn skip_groups<'a>(input: &'a [u8], groups: Vec<u32>, depth: usize) -> (r: Option<&'a [u8]>)
    ensures
        match r {
            Some(rest) => after_groups(input@, groups@, depth as nat) == Some(rest@),
            None => after_groups(input@, groups@, depth as nat) is None,
        },
{
    let ghost goal = after_groups(input@, groups@, depth as nat);
    let mut open = groups;
    let mut bytes = input;
    while open.len() > 0
        invariant
            goal == after_groups(input@, groups@, depth as nat),
            after_groups(bytes@, open@, depth as nat) == goal,
        decreases bytes@.len(),
    {
        proof {
            key_and_value_consume(bytes@);
        }
        match take_key(bytes) {
            None => {
                return None;
            },
            Some((tag, kind, rest)) => match kind {
                WireKind::EndGroup => {
                    if tag != open[open.len() - 1] {
                        return None;
                    }
                    let ghost before = open@;
                    open.pop();
                    assert(open@ =~= before.drop_last());
                    bytes = rest;
                },
                _ => {
                    if open.len() >= depth {
                        return None;
                    }
                    match kind {
                        WireKind::Varint => match take_varint(rest) {
                            Some((_, more)) => {
                                bytes = more;
                            },
                            None => {
                                return None;
                            },
                        },
                        WireKind::SixtyFourBit => {
                            if rest.len() < 8 {
                                return None;
                            }
                            bytes = slice_subrange(rest, 8, rest.len());
                            assert(bytes@ =~= rest@.skip(8));
                        },
                        WireKind::LengthDelimited => match take_delimited(rest) {
                            Some((_, more)) => {
                                bytes = more;
                            },
                            None => {
                                return None;
                            },
                        },
                        WireKind::ThirtyTwoBit => {
                            if rest.len() < 4 {
                                return None;
                            }
                            bytes = slice_subrange(rest, 4, rest.len());
                            assert(bytes@ =~= rest@.skip(4));
                        },
                        _ => {
                            open.push(tag);
                            bytes = rest;
                        },
                    }
                },
            },
        }
    }
    Some(bytes)
}

/// The length and the bytes that `bytes` begin with, and what follows them.
fn take_delimited<'a>(bytes: &'a [u8]) -> (r: Option<(&'a [u8], &'a [u8])>)
    ensures
        match r {
            Some((value, rest)) => read_delimited(bytes@) == Some((value@, rest@)),
            None => read_delimited(bytes@) is None,
        },
{
    match take_varint(bytes) {
        Some((len, rest)) => {
            if len > rest.len() as u64 {
                return None;
            }
            let value = slice_subrange(rest, 0, len as usize);
            let more = slice_subrange(rest, len as usize, rest.len());
            assert(value@ =~= rest@.take(len as int));
            assert(more@ =~= rest@.skip(len as int));
            Some((value, more))
        },
        None => None,
    }
}

/// The field that `bytes` begin with, and what follows it.
fn take_field<'a>(bytes: &'a [u8], depth: usize) -> (r: Option<(Field, &'a [u8])>)
    ensures
        match r {
            Some((field, rest)) => read_field(bytes@, depth as nat) == Some((field@, rest@)),
            None => read_field(bytes@, depth as nat) is None,
        },
{
    match take_key(bytes) {
        Some((tag, kind, rest)) => match kind {
            WireKind::Varint => match take_varint(rest) {
                Some((n, more)) => Some((Field { tag, value: FieldValue::Varint(n) }, more)),
                None => None,
            },
            WireKind::SixtyFourBit => {
                if rest.len() < 8 {
                    return None;
                }
                let more = slice_subrange(rest, 8, rest.len());
                assert(more@ =~= rest@.skip(8));
                Some((Field { tag, value: FieldValue::Other }, more))
            },
            WireKind::LengthDelimited => match take_delimited(rest) {
                Some((value, more)) => Some(
                    (Field { tag, value: FieldValue::Delimited(slice_to_vec(value)) }, more),
                ),
                None => None,
            },
            WireKind::StartGroup => {
                let open: Vec<u32> = vec![tag];
                assert(open@ =~= seq![tag]);
                match skip_groups(rest, open, depth) {
                    Some(more) => Some((Field { tag, value: FieldValue::Other }, more)),
                    None => None,
                }
            },
            WireKind::EndGroup => None,
            WireKind::ThirtyTwoBit => {
                if rest.len() < 4 {
                    return None;
                }
                let more = slice_subrange(rest, 4, rest.len());
                assert(more@ =~= rest@.skip(4));
                Some((Field { tag, value: FieldValue::Other }, more))
            },
        },
        None => None,
    }
}

/// The fields that `input` is made of, where it is made of fields. Up to `depth`
/// groups may be nested in a field.
pub fn split_fields(input: &[u8], depth: usize) -> (r: Option<Vec<Field>>)
    ensures
        match r {
            Some(fields) => read_fields(input@, depth as nat) == Some(field_views(fields@)),
            None => read_fields(input@, depth as nat) is None,
        },
{
    let ghost goal = read_fields(input@, depth as nat);
    let mut fields: Vec<Field> = Vec::new();
    let mut bytes = input;
    assert(field_views(fields@) =~= Seq::empty());
    proof {
        if let Some(all) = goal {
            assert(Seq::<FieldView>::empty() + all =~= all);
        }
    }
    while bytes.len() > 0
        invariant
            goal == read_fields(input@, depth as nat),
            goal == (match read_fields(bytes@, depth as nat) {
                Some(more) => Some(field_views(fields@) + more),
                None => None,
            }),
        decreases bytes@.len(),
    {
        proof {
            read_field_consumes(bytes@, depth as nat);
        }
        match take_field(bytes, depth) {
            Some((field, rest)) => {
                let ghost before = field_views(fields@);
                fields.push(field);
                proof {
                    assert(field_views(fields@) =~= before.push(field@));
                    if let Some(more) = read_fields(rest@, depth as nat) {
                        assert(before + (seq![field@] + more) =~= field_views(fields@) + more);
                    }
                }
                bytes = rest;
            },
            None => {
                return None;
            },
        }
    }
    assert(field_views(fields@) + Seq::<FieldView>::empty() =~= field_views(fields@));
    Some(fields)
}

/// The bytes of a field.
pub open spec fn field_bytes(f: FieldView) -> Seq<u8> {
    match f.value {
        FieldValueView::Varint(n) => varint(key_number(f.tag, WireKind::Varint)) + varint(n as nat),
        FieldValueView::Delimited(value) => varint(key_number(f.tag, WireKind::LengthDelimited))
            + varint(value.len()) + value,
        FieldValueView::Other => Seq::empty(),
    }
}

/// The bytes of a list of fields.
pub open spec fn fields_bytes(fields: Seq<FieldView>) -> Seq<u8>
    decreases fields.len(),
{
    if fields.len() == 0 {
        Seq::empty()
    } else {
        fields_bytes(fields.drop_last()) + field_bytes(fields.last())
    }
}

/// Whether a field can be written: it has a proper tag, a number or bytes, and no
/// more bytes than a length can say.
pub open spec fn writable(f: FieldView) -> bool {
    &&& 1 <= f.tag < 0x2000_0000
    &&& match f.value {
        FieldValueView::Varint(n) => true,
        FieldValueView::Delimited(value) => value.len() <= u64::MAX,
        FieldValueView::Other => false,
    }
}

/// The bytes of two lists of fields, one after the other.
pub proof fn fields_bytes_concat(a: Seq<FieldView>, b: Seq<FieldView>)
    ensures
        fields_bytes(a + b) == fields_bytes(a) + fields_bytes(b),
    decreases b.len(),
{
    if b.len() == 0 {
        assert(a + b =~= a);
    } else {
        fields_bytes_concat(a, b.drop_last());
        assert((a + b).drop_last() =~= a + b.drop_last());
        assert((a + b).last() == b.last());
        assert(fields_bytes(a + b) =~= fields_bytes(a) + fields_bytes(b));
    }
}

/// The bytes of a field are among those of every list that holds it.
pub proof fn field_bytes_bounded(fields: Seq<FieldView>, i: int)
    requires
        0 <= i < fields.len(),
    ensures
        field_bytes(fields[i]).len() <= fields_bytes(fields).len(),
    decreases fields.len(),
{
    if i < fields.len() - 1 {
        field_bytes_bounded(fields.drop_last(), i);
        assert(fields.drop_last()[i] == fields[i]);
    }
}

/// 128 to the power of `k`.
spec fn pow128(k: nat) -> nat
    decreases k,
{
    if k == 0 {
        1
    } else {
        128 * pow128((k - 1) as nat)
    }
}

/// A number in variable length is read back.
proof fn varint_prefix_reads_back(n: nat, rest: Seq<u8>, limit: nat)
    requires
        0 < limit,
        n < pow128(limit),
    ensures
        varint_prefix(varint(n) + rest, limit) == Some((n, rest)),
    decreases limit,
{
    let bytes = varint(n) + rest;
    if n < 128 {
        assert(bytes[0] == n as u8);
        assert(bytes.drop_first() =~= rest);
    } else {
        let low = (n % 128 + 128) as u8;
        assert(bytes[0] == low);
        assert(bytes.drop_first() =~= varint(n / 128) + rest);
        assert(pow128(limit) == 128 * pow128((limit - 1) as nat));
        varint_prefix_reads_back(n / 128, rest, (limit - 1) as nat);
        assert((low - 128) as nat + 128 * (n / 128) == n);
    }
}

/// A 64-bit number in variable length is read back.
pub proof fn varint_reads_back(n: u64, rest: Seq<u8>)
    ensures
        read_varint(varint(n as nat) + rest) == Some((n, rest)),
{
    assert(pow128(10) > u64::MAX) by {
        reveal_with_fuel(pow128, 11);
    }
    varint_prefix_reads_back(n as nat, rest, 10);
}

/// A tag and a kind are read back.
pub proof fn key_reads_back(tag: u32, kind: WireKind, rest: Seq<u8>)
    requires
        1 <= tag < 0x2000_0000,
    ensures
        read_key(varint(key_number(tag, kind)) + rest) == Some((tag, kind, rest)),
{
    varint_reads_back(key_number(tag, kind) as u64, rest);
}

/// A field is read back.
pub proof fn field_reads_back(f: FieldView, rest: Seq<u8>, depth: nat)
    requires
        writable(f),
    ensures
        read_field(field_bytes(f) + rest, depth) == Some((f, rest)),
{
    match f.value {
        FieldValueView::Varint(n) => {
            let key = varint(key_number(f.tag, WireKind::Varint));
            assert(field_bytes(f) + rest =~= key + (varint(n as nat) + rest));
            key_reads_back(f.tag, WireKind::Varint, varint(n as nat) + rest);
            varint_reads_back(n, rest);
        },
        FieldValueView::Delimited(value) => {
            let key = varint(key_number(f.tag, WireKind::LengthDelimited));
            let more = varint(value.len()) + (value + rest);
            assert(field_bytes(f) + rest =~= key + more);
            key_reads_back(f.tag, WireKind::LengthDelimited, more);
            varint_reads_back(value.len() as u64, value + rest);
            assert((value + rest).take(value.len() as int) =~= value);
            assert((value + rest).skip(value.len() as int) =~= rest);
        },
        FieldValueView::Other => {},
    }
}

/// A field has at least one byte.
proof fn field_has_bytes(f: FieldView)
    requires
        writable(f),
    ensures
        field_bytes(f).len() > 0,
{
    match f.value {
        FieldValueView::Varint(n) => {
            assert(varint(n as nat).len() > 0);
        },
        FieldValueView::Delimited(value) => {
            assert(varint(value.len()).len() > 0);
        },
        FieldValueView::Other => {},
    }
}

/// The fields that were written are the fields that are read back.
pub proof fn fields_read_back(fields: Seq<FieldView>, depth: nat)
    requires
        forall|i: int| 0 <= i < fields.len() ==> writable(#[trigger] fields[i]),
    ensures
        read_fields(fields_bytes(fields), depth) == Some(fields),
    decreases fields.len(),
{
    if fields.len() > 0 {
        let first = fields[0];
        let more = fields.drop_first();
        assert forall|i: int| 0 <= i < more.len() implies writable(#[trigger] more[i]) by {
            assert(more[i] == fields[i + 1]);
        }
        fields_read_back(more, depth);
        assert(fields =~= seq![first] + more);
        fields_bytes_concat(seq![first], more);
        assert(seq![first].drop_last() =~= Seq::empty());
        assert(seq![first].last() == first);
        reveal_with_fuel(fields_bytes, 2);
        assert(fields_bytes(seq![first]) =~= field_bytes(first));
        field_has_bytes(first);
        field_reads_back(first, fields_bytes(more), depth);
    }
}

/// The field of a number: none where the number is zero.
pub open spec fn number_field(tag: u32, n: u64) -> Seq<FieldView> {
    if n == 0 {
        Seq::empty()
    } else {
        seq![FieldView { tag, value: FieldValueView::Varint(n) }]
    }
}

/// The field of a byte string: none where it is empty.
pub open spec fn bytes_field(tag: u32, value: Seq<u8>) -> Seq<FieldView> {
    if value.len() == 0 {
        Seq::empty()
    } else {
        seq![FieldView { tag, value: FieldValueView::Delimited(value) }]
    }
}

/// The field of a byte string, even where it is empty.
pub open spec fn always_field(tag: u32, value: Seq<u8>) -> Seq<FieldView> {
    seq![FieldView { tag, value: FieldValueView::Delimited(value) }]
}

/// The fields of a list of byte strings.
pub open spec fn repeated_field(tag: u32, list: Seq<Seq<u8>>) -> Seq<FieldView> {
    list.map_values(|value: Seq<u8>| FieldView { tag, value: FieldValueView::Delimited(value) })
}

/// `after` is what `before` becomes when `fields` are written to its end.
pub open spec fn appends(before: Seq<u8>, after: Seq<u8>, fields: Seq<FieldView>) -> bool {
    after == before + fields_bytes(fields)
}

/// What is written in two steps is written.
pub proof fn appends_in_steps(
    start: Seq<u8>,
    middle: Seq<u8>,
    finish: Seq<u8>,
    a: Seq<FieldView>,
    b: Seq<FieldView>,
)
    requires
        appends(start, middle, a),
        appends(middle, finish, b),
    ensures
        appends(start, finish, a + b),
{
    fields_bytes_concat(a, b);
    assert(finish =~= start + fields_bytes(a + b));
}

/// The bytes of a single field.
proof fn single_field_bytes(f: FieldView)
    ensures
        fields_bytes(seq![f]) == field_bytes(f),
{
    reveal_with_fuel(fields_bytes, 2);
    assert(seq![f].drop_last() =~= Seq::empty());
    assert(seq![f].last() == f);
    assert(fields_bytes(seq![f]) =~= field_bytes(f));
}

/// Writes the field of a number.
pub fn put_number(buf: &mut Vec<u8>, tag: u32, n: u64)
    requires
        1 <= tag < 0x2000_0000,
    ensures
        appends(old(buf)@, final(buf)@, number_field(tag, n)),
{
    if n != 0 {
        let mut key = key_bytes(tag, WireKind::Varint);
        let mut value = varint_bytes(n);
        buf.append(&mut key);
        buf.append(&mut value);
        proof {
            single_field_bytes(FieldView { tag, value: FieldValueView::Varint(n) });
        }
        assert(buf@ =~= old(buf)@ + fields_bytes(number_field(tag, n)));
    } else {
        assert(buf@ =~= old(buf)@ + fields_bytes(number_field(tag, n)));
    }
}

/// Writes the field of a byte string, even where it is empty.
pub fn put_always(buf: &mut Vec<u8>, tag: u32, value: &[u8])
    requires
        1 <= tag < 0x2000_0000,
    ensures
        appends(old(buf)@, final(buf)@, always_field(tag, value@)),
{
    let mut key = key_bytes(tag, WireKind::LengthDelimited);
    let mut len = varint_bytes(value.len() as u64);
    let mut copy = slice_to_vec(value);
    buf.append(&mut key);
    buf.append(&mut len);
    buf.append(&mut copy);
    proof {
        single_field_bytes(FieldView { tag, value: FieldValueView::Delimited(value@) });
    }
    assert(buf@ =~= old(buf)@ + fields_bytes(always_field(tag, value@)));
}

/// Writes the field of a byte string.
pub fn put_bytes(buf: &mut Vec<u8>, tag: u32, value: &[u8])
    requires
        1 <= tag < 0x2000_0000,
    ensures
        appends(old(buf)@, final(buf)@, bytes_field(tag, value@)),
{
    if value.len() != 0 {
        put_always(buf, tag, value);
    } else {
        assert(buf@ =~= old(buf)@ + fields_bytes(bytes_field(tag, value@)));
    }
}

/// Writes the fields of a list of byte strings.
pub fn put_repeated(buf: &mut Vec<u8>, tag: u32, list: &Vec<Vec<u8>>)
    requires
        1 <= tag < 0x2000_0000,
    ensures
        appends(old(buf)@, final(buf)@, repeated_field(tag, byte_strings(list@))),
{
    let ghost all = repeated_field(tag, byte_strings(list@));
    assert(buf@ =~= old(buf)@ + fields_bytes(all.take(0)));
    for i in 0..list.len()
        invariant
            1 <= tag < 0x2000_0000,
            all == repeated_field(tag, byte_strings(list@)),
            appends(old(buf)@, buf@, all.take(i as int)),
    {
        let ghost middle = buf@;
        put_always(buf, tag, list[i].as_slice());
        proof {
            appends_in_steps(
                old(buf)@,
                middle,
                buf@,
                all.take(i as int),
                always_field(tag, list@[i as int]@),
            );
            assert(all.take(i + 1) =~= all.take(i as int) + always_field(tag, list@[i as int]@));
        }
    }
    assert(all.take(all.len() as int) =~= all);
}

} // verus!
