//! Tagged fields: a key that holds the field's number and how its value is
//! laid out, followed by the value.

use vstd::prelude::*;
use vstd::bytes::{
    lemma_auto_spec_u32_to_from_le_bytes, lemma_auto_spec_u64_to_from_le_bytes,
    spec_u32_from_le_bytes, spec_u32_to_le_bytes, spec_u64_from_le_bytes, spec_u64_to_le_bytes,
    u32_from_le_bytes, u32_to_le_bytes, u64_from_le_bytes, u64_to_le_bytes,
};
use vstd::slice::{slice_subrange, slice_to_vec};
use crate::wire::varint::{
    decode_varint, lemma_decode_varint_of_varint, lemma_parse_varint_taken, read_varint, varint,
    write_varint,
};

verus! {

/// The largest number a field may have.
pub const MAX_FIELD_NUMBER: u32 = 0x1fff_ffff;

/// The value of a field, by layout.
#[derive(Debug)]
pub enum FieldValue {
    /// A base-128 integer.
    Varint(u64),
    /// Eight bytes, little-endian.
    Fixed64(u64),
    /// A length and that many bytes.
    Bytes(Vec<u8>),
    /// Four bytes, little-endian.
    Fixed32(u32),
}

/// What a `FieldValue` stands for in contracts.
pub enum FieldValueView {
    Varint(u64),
    Fixed64(u64),
    Bytes(Seq<u8>),
    Fixed32(u32),
}

impl View for FieldValue {
    type V = FieldValueView;

    open spec fn view(&self) -> FieldValueView {
        match self {
            FieldValue::Varint(v) => FieldValueView::Varint(*v),
            FieldValue::Fixed64(v) => FieldValueView::Fixed64(*v),
            FieldValue::Bytes(b) => FieldValueView::Bytes(b@),
            FieldValue::Fixed32(v) => FieldValueView::Fixed32(*v),
        }
    }
}

/// One field of a message.
#[derive(Debug)]
pub struct Field {
    pub number: u32,
    pub value: FieldValue,
}

/// What a `Field` stands for in contracts.
pub struct FieldView {
    pub number: u32,
    pub value: FieldValueView,
}

impl View for Field {
    type V = FieldView;

    open spec fn view(&self) -> FieldView {
        FieldView { number: self.number, value: self.value@ }
    }
}

/// The views of a run of fields, in order.
pub open spec fn field_views(fields: Seq<Field>) -> Seq<FieldView> {
    Seq::new(fields.len(), |i: int| fields[i]@)
}

/// The layout code that goes into the key.
pub open spec fn wire_type(value: FieldValueView) -> nat {
    match value {
        FieldValueView::Varint(_) => 0,
        FieldValueView::Fixed64(_) => 1,
        FieldValueView::Bytes(_) => 2,
        FieldValueView::Fixed32(_) => 5,
    }
}

/// The bytes of a value, without its key.
pub open spec fn value_bytes(value: FieldValueView) -> Seq<u8> {
    match value {
        FieldValueView::Varint(v) => varint(v as nat),
        FieldValueView::Fixed64(v) => spec_u64_to_le_bytes(v),
        FieldValueView::Bytes(b) => varint(b.len()) + b,
        FieldValueView::Fixed32(v) => spec_u32_to_le_bytes(v),
    }
}

/// The bytes of a field: the key, followed by the value.
pub open spec fn field_bytes(field: FieldView) -> Seq<u8> {
    varint(field.number as nat * 8 + wire_type(field.value)) + value_bytes(field.value)
}

/// The bytes of a run of fields, one after the other.
pub open spec fn fields_bytes(fields: Seq<FieldView>) -> Seq<u8>
    decreases fields.len(),
{
    if fields.len() == 0 {
        Seq::empty()
    } else {
        field_bytes(fields.first()) + fields_bytes(fields.drop_first())
    }
}

/// A field that can be written and read back: its number is in range and a
/// byte value is no longer than a 64-bit length can say.
pub open spec fn field_valid(field: FieldView) -> bool {
    &&& 1 <= field.number <= MAX_FIELD_NUMBER
    &&& field.value matches FieldValueView::Bytes(b) ==> b.len() <= u64::MAX
}

/// Every field of the run is valid.
pub open spec fn fields_valid(fields: Seq<FieldView>) -> bool {
    forall|i: int| 0 <= i < fields.len() ==> field_valid(#[trigger] fields[i])
}

/// The value with layout `layout` at the head of `bytes`, and its length.
pub open spec fn parsed_value(layout: nat, bytes: Seq<u8>) -> Option<(FieldValueView, nat)> {
    if layout == 0 {
        match decode_varint(bytes) {
            Some((v, taken)) => Some((FieldValueView::Varint(v), taken)),
            None => None,
        }
    } else if layout == 1 {
        if bytes.len() >= 8 {
            Some((FieldValueView::Fixed64(spec_u64_from_le_bytes(bytes.take(8))), 8nat))
        } else {
            None
        }
    } else if layout == 2 {
        match decode_varint(bytes) {
            Some((length, taken)) => if bytes.len() - taken >= length {
                Some(
                    (
                        FieldValueView::Bytes(bytes.subrange(taken as int, taken + length)),
                        (taken + length) as nat,
                    ),
                )
            } else {
                None
            },
            None => None,
        }
    } else if layout == 5 {
        if bytes.len() >= 4 {
            Some((FieldValueView::Fixed32(spec_u32_from_le_bytes(bytes.take(4))), 4nat))
        } else {
            None
        }
    } else {
        None
    }
}

/// The field at the head of `bytes`, and its length. `None` for a key that
/// cannot be read, a number out of range, a layout that is not one of the
/// four, or a value that is cut short.
pub open spec fn parsed_field(bytes: Seq<u8>) -> Option<(FieldView, nat)> {
    match decode_varint(bytes) {
        None => None,
        Some((key, taken)) => {
            let number = key / 8;
            if number == 0 || number > MAX_FIELD_NUMBER {
                None
            } else {
                match parsed_value((key % 8) as nat, bytes.skip(taken as int)) {
                    None => None,
                    Some((value, more)) => Some(
                        (FieldView { number: number as u32, value }, taken + more),
                    ),
                }
            }
        },
    }
}

/// The fields that `bytes` holds from end to end; `None` unless every byte
/// belongs to a well-formed field.
pub open spec fn parsed_fields(bytes: Seq<u8>) -> Option<Seq<FieldView>>
    decreases bytes.len(),
{
    if bytes.len() == 0 {
        Some(Seq::empty())
    } else {
        match parsed_field(bytes) {
            None => None,
            Some((field, taken)) => if taken == 0 || taken > bytes.len() {
                None
            } else {
                match parsed_fields(bytes.skip(taken as int)) {
                    None => None,
                    Some(rest) => Some(seq![field] + rest),
                }
            },
        }
    }
}

/// A reading takes at least one byte and no more than there are.
pub proof fn lemma_decode_varint_taken(bytes: Seq<u8>)
    ensures
        decode_varint(bytes) matches Some((value, taken)) ==> 1 <= taken <= bytes.len() && taken
            <= 10,
{
    lemma_parse_varint_taken(bytes);
}

/// A field takes at least one byte and no more than there are.
pub proof fn lemma_parsed_field_taken(bytes: Seq<u8>)
    ensures
        parsed_field(bytes) matches Some((field, taken)) ==> 1 <= taken <= bytes.len()
            && field_valid(field),
{
    lemma_decode_varint_taken(bytes);
    if let Some((key, taken)) = decode_varint(bytes) {
        lemma_decode_varint_taken(bytes.skip(taken as int));
    }
}

/// The bytes of two runs of fields, one after the other, are the bytes of
/// the joined run.
pub proof fn lemma_fields_bytes_concat(first: Seq<FieldView>, second: Seq<FieldView>)
    ensures
        fields_bytes(first + second) == fields_bytes(first) + fields_bytes(second),
    decreases first.len(),
{
    if first.len() == 0 {
        assert(first + second =~= second);
    } else {
        lemma_fields_bytes_concat(first.drop_first(), second);
        assert((first + second).drop_first() =~= first.drop_first() + second);
        assert((first + second).first() == first.first());
    }
}

/// Adding one field to a run appends its bytes.
pub proof fn lemma_fields_bytes_push(fields: Seq<FieldView>, field: FieldView)
    ensures
        fields_bytes(fields.push(field)) == fields_bytes(fields) + field_bytes(field),
{
    lemma_fields_bytes_concat(fields, seq![field]);
    assert(fields.push(field) =~= fields + seq![field]);
    assert(seq![field].drop_first() =~= Seq::<FieldView>::empty());
    assert(seq![field].first() == field);
    assert(fields_bytes(Seq::<FieldView>::empty()) =~= Seq::<u8>::empty());
    assert(fields_bytes(seq![field]) =~= field_bytes(field));
}

/// Reading a written field gives it back, whatever follows it.
pub proof fn lemma_parsed_field_of_field_bytes(field: FieldView, rest: Seq<u8>)
    requires
        field_valid(field),
    ensures
        parsed_field(field_bytes(field) + rest) == Some((field, field_bytes(field).len())),
{
    let key = (field.number as nat * 8 + wire_type(field.value)) as u64;
    let body = value_bytes(field.value);
    let bytes = field_bytes(field) + rest;
    let key_len = varint(key as nat).len();
    lemma_decode_varint_of_varint(key, body + rest);
    assert(bytes =~= varint(key as nat) + (body + rest));
    assert(bytes.skip(key_len as int) =~= body + rest);
    assert(key / 8 == field.number && key % 8 == wire_type(field.value));
    let tail = body + rest;
    match field.value {
        FieldValueView::Varint(v) => {
            lemma_decode_varint_of_varint(v, rest);
        },
        FieldValueView::Fixed64(v) => {
            lemma_auto_spec_u64_to_from_le_bytes();
            assert(tail.take(8) =~= spec_u64_to_le_bytes(v));
        },
        FieldValueView::Bytes(b) => {
            let length = b.len() as u64;
            lemma_decode_varint_of_varint(length, b + rest);
            let taken = varint(length as nat).len();
            assert(tail =~= varint(length as nat) + (b + rest));
            assert(tail.subrange(taken as int, taken + length) =~= b);
        },
        FieldValueView::Fixed32(v) => {
            lemma_auto_spec_u32_to_from_le_bytes();
            assert(tail.take(4) =~= spec_u32_to_le_bytes(v));
        },
    }
}

/// Reading written fields gives them back: for every run of valid fields,
/// parsing its bytes yields that run.
pub proof fn lemma_parsed_fields_of_fields_bytes(fields: Seq<FieldView>)
    requires
        fields_valid(fields),
    ensures
        parsed_fields(fields_bytes(fields)) == Some(fields),
    decreases fields.len(),
{
    if fields.len() == 0 {
    } else {
        let head = fields.first();
        let tail = fields.drop_first();
        let bytes = fields_bytes(fields);
        assert(field_valid(fields[0]));
        assert forall|i: int| 0 <= i < tail.len() implies field_valid(#[trigger] tail[i]) by {
            assert(tail[i] == fields[i + 1]);
        }
        lemma_parsed_field_of_field_bytes(head, fields_bytes(tail));
        lemma_parsed_fields_of_fields_bytes(tail);
        lemma_parsed_field_taken(bytes);
        let taken = field_bytes(head).len();
        assert(bytes.skip(taken as int) =~= fields_bytes(tail));
        assert(seq![head] + tail =~= fields);
    }
}

/// Writes `field` at the end of `out`.
pub fn write_field(out: &mut Vec<u8>, field: &Field)
    ensures
        final(out)@ == old(out)@ + field_bytes(field@),
{
    let ghost start = out@;
    let number: u64 = field.number as u64;
    match &field.value {
        FieldValue::Varint(v) => {
            write_varint(out, number * 8);
            write_varint(out, *v);
        },
        FieldValue::Fixed64(v) => {
            write_varint(out, number * 8 + 1);
            let mut body = u64_to_le_bytes(*v);
            out.append(&mut body);
        },
        FieldValue::Bytes(b) => {
            write_varint(out, number * 8 + 2);
            write_varint(out, b.len() as u64);
            let ghost before = out@;
            out.extend_from_slice(b.as_slice());
            proof {
                assert(out@ =~= before + b@);
            }
        },
        FieldValue::Fixed32(v) => {
            write_varint(out, number * 8 + 5);
            let mut body = u32_to_le_bytes(*v);
            out.append(&mut body);
        },
    }
    proof {
        assert(out@ =~= start + field_bytes(field@));
    }
}

/// The bytes of `fields`, one after the other.
pub fn encode_fields(fields: &Vec<Field>) -> (bytes: Vec<u8>)
    ensures
        bytes@ == fields_bytes(field_views(fields@)),
{
    let mut bytes: Vec<u8> = Vec::new();
    let mut i: usize = 0;
    let ghost views = field_views(fields@);
    while i < fields.len()
        invariant
            i <= fields.len(),
            views == field_views(fields@),
            bytes@ == fields_bytes(views.take(i as int)),
        decreases fields.len() - i,
    {
        write_field(&mut bytes, &fields[i]);
        proof {
            lemma_fields_bytes_push(views.take(i as int), views[i as int]);
            assert(views.take(i + 1) =~= views.take(i as int).push(views[i as int]));
        }
        i += 1;
    }
    proof {
        assert(views.take(i as int) =~= views);
    }
    bytes
}

/// Reads the value with layout `layout` that starts at `from`. Returns it with
/// the index just behind it.
fn read_value(bytes: &[u8], from: usize, layout: u64) -> (read: Option<(FieldValue, usize)>)
    requires
        from <= bytes@.len(),
    ensures
        match read {
            Some((value, next)) => parsed_value(layout as nat, bytes@.skip(from as int)) == Some(
                (value@, (next - from) as nat),
            ) && from <= next <= bytes@.len(),
            None => parsed_value(layout as nat, bytes@.skip(from as int)) is None,
        },
{
    let end: usize = bytes.len();
    let ghost tail = bytes@.skip(from as int);
    if layout == 0 {
        match read_varint(bytes, from) {
            Some((v, next)) => Some((FieldValue::Varint(v), next)),
            None => None,
        }
    } else if layout == 1 {
        if end - from < 8 {
            return None;
        }
        let v = u64_from_le_bytes(slice_subrange(bytes, from, from + 8));
        proof {
            assert(bytes@.subrange(from as int, from + 8) =~= tail.take(8));
        }
        Some((FieldValue::Fixed64(v), from + 8))
    } else if layout == 2 {
        match read_varint(bytes, from) {
            Some((length, start)) => {
                if length > (end - start) as u64 {
                    return None;
                }
                let stop: usize = start + length as usize;
                let body = slice_to_vec(slice_subrange(bytes, start, stop));
                proof {
                    assert(bytes@.subrange(start as int, stop as int) =~= tail.subrange(
                        start - from,
                        start - from + length,
                    ));
                }
                Some((FieldValue::Bytes(body), stop))
            },
            None => None,
        }
    } else if layout == 5 {
        if end - from < 4 {
            return None;
        }
        let v = u32_from_le_bytes(slice_subrange(bytes, from, from + 4));
        proof {
            assert(bytes@.subrange(from as int, from + 4) =~= tail.take(4));
        }
        Some((FieldValue::Fixed32(v), from + 4))
    } else {
        None
    }
}

/// Reads the field that starts at `from`. Returns it with the index just
/// behind it.
pub fn read_field(bytes: &[u8], from: usize) -> (read: Option<(Field, usize)>)
    requires
        from <= bytes@.len(),
    ensures
        match read {
            Some((field, next)) => parsed_field(bytes@.skip(from as int)) == Some(
                (field@, (next - from) as nat),
            ) && from < next <= bytes@.len(),
            None => parsed_field(bytes@.skip(from as int)) is None,
        },
{
    let ghost tail = bytes@.skip(from as int);
    let (key, start) = match read_varint(bytes, from) {
        Some(read) => read,
        None => {
            return None;
        },
    };
    let number: u64 = key / 8;
    if number == 0 || number > MAX_FIELD_NUMBER as u64 {
        return None;
    }
    proof {
        assert(tail.skip(start - from) =~= bytes@.skip(start as int));
    }
    match read_value(bytes, start, key % 8) {
        Some((value, next)) => Some((Field { number: number as u32, value }, next)),
        None => None,
    }
}

/// Reads `bytes` as a run of fields. `None` unless every byte belongs to a
/// well-formed field.
pub fn decode_fields(bytes: &[u8]) -> (fields: Option<Vec<Field>>)
    ensures
        match fields {
            Some(fields) => parsed_fields(bytes@) == Some(field_views(fields@)),
            None => parsed_fields(bytes@) is None,
        },
{
    let mut fields: Vec<Field> = Vec::new();
    let mut at: usize = 0;
    let end: usize = bytes.len();
    proof {
        assert(bytes@.skip(0) =~= bytes@);
        assert(field_views(fields@) =~= Seq::<FieldView>::empty());
        match parsed_fields(bytes@) {
            Some(all) => {
                assert(Seq::<FieldView>::empty() + all =~= all);
            },
            None => {},
        }
    }
    while at < end
        invariant
            at <= end,
            end == bytes@.len(),
            parsed_fields(bytes@) == match parsed_fields(bytes@.skip(at as int)) {
                None => None::<Seq<FieldView>>,
                Some(rest) => Some(field_views(fields@) + rest),
            },
        decreases end - at,
    {
        let ghost tail = bytes@.skip(at as int);
        match read_field(bytes, at) {
            None => {
                return None;
            },
            Some((field, next)) => {
                let ghost before = fields@;
                let ghost view = field@;
                fields.push(field);
                proof {
                    assert(tail.skip(next - at) =~= bytes@.skip(next as int));
                    assert(field_views(fields@) =~= field_views(before).push(view));
                    match parsed_fields(bytes@.skip(next as int)) {
                        None => {},
                        Some(rest) => {
                            assert(field_views(before) + (seq![view] + rest) =~= field_views(
                                fields@,
                            ) + rest);
                        },
                    }
                }
                at = next;
            },
        }
    }
    proof {
        assert(bytes@.skip(at as int).len() == 0);
        assert(field_views(fields@) + Seq::<FieldView>::empty() =~= field_views(fields@));
    }
    Some(fields)
}

} // verus!
