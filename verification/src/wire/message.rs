//! Messages as runs of fields: where a number occurs more than once the last
//! occurrence counts, a missing field has its type's empty value, and fields
//! that a message does not know are passed over.

use vstd::prelude::*;
use vstd::utf8::encode_utf8;
use crate::wire::field::{Field, FieldValue, FieldValueView, FieldView, field_views};
use crate::wire::text::{parsed_text, read_text, text_bytes};

verus! {

/// The last byte value filed under `number`.
pub open spec fn last_bytes(fields: Seq<FieldView>, number: u32) -> Option<Seq<u8>>
    decreases fields.len(),
{
    if fields.len() == 0 {
        None
    } else {
        match fields.last().value {
            FieldValueView::Bytes(b) if fields.last().number == number => Some(b),
            _ => last_bytes(fields.drop_last(), number),
        }
    }
}

/// The last base-128 integer filed under `number`.
pub open spec fn last_varint(fields: Seq<FieldView>, number: u32) -> Option<u64>
    decreases fields.len(),
{
    if fields.len() == 0 {
        None
    } else {
        match fields.last().value {
            FieldValueView::Varint(v) if fields.last().number == number => Some(v),
            _ => last_varint(fields.drop_last(), number),
        }
    }
}

/// Every byte value filed under `number`, in order.
pub open spec fn all_bytes(fields: Seq<FieldView>, number: u32) -> Seq<Seq<u8>>
    decreases fields.len(),
{
    if fields.len() == 0 {
        Seq::empty()
    } else {
        let front = all_bytes(fields.drop_last(), number);
        match fields.last().value {
            FieldValueView::Bytes(b) if fields.last().number == number => front.push(b),
            _ => front,
        }
    }
}

/// The text filed under `number`: empty where the field is missing, `None`
/// where its bytes are not well-formed UTF-8.
pub open spec fn text_of(fields: Seq<FieldView>, number: u32) -> Option<Seq<char>> {
    match last_bytes(fields, number) {
        None => Some(Seq::empty()),
        Some(b) => parsed_text(b),
    }
}

/// The bytes filed under `number`: empty where the field is missing.
pub open spec fn bytes_of(fields: Seq<FieldView>, number: u32) -> Seq<u8> {
    match last_bytes(fields, number) {
        None => Seq::empty(),
        Some(b) => b,
    }
}

/// The integer filed under `number`: zero where the field is missing.
pub open spec fn uint_of(fields: Seq<FieldView>, number: u32) -> u64 {
    match last_varint(fields, number) {
        None => 0,
        Some(v) => v,
    }
}

/// The views of a run of byte strings.
pub open spec fn byte_views(items: Seq<Vec<u8>>) -> Seq<Seq<u8>> {
    Seq::new(items.len(), |i: int| items[i]@)
}

/// The views of a run of strings.
pub open spec fn text_views(items: Seq<String>) -> Seq<Seq<char>> {
    Seq::new(items.len(), |i: int| items[i]@)
}

/// What a run of byte strings holds when each is read by `parse`; `None`
/// where `parse` refuses one of them.
pub open spec fn parsed_all<T>(items: Seq<Seq<u8>>, parse: spec_fn(Seq<u8>) -> Option<T>) -> Option<
    Seq<T>,
>
    decreases items.len(),
{
    if items.len() == 0 {
        Some(Seq::empty())
    } else {
        match (parsed_all(items.drop_last(), parse), parse(items.last())) {
            (Some(front), Some(item)) => Some(front.push(item)),
            _ => None,
        }
    }
}

/// Where `parse` refuses an item of a prefix, the whole run holds nothing.
pub proof fn lemma_parsed_all_prefix<T>(
    items: Seq<Seq<u8>>,
    parse: spec_fn(Seq<u8>) -> Option<T>,
    i: int,
)
    requires
        0 <= i <= items.len(),
        parsed_all(items.take(i), parse) is None,
    ensures
        parsed_all(items, parse) is None,
    decreases items.len() - i,
{
    if i == items.len() {
        assert(items.take(i) =~= items);
    } else {
        assert(items.take(i + 1).drop_last() =~= items.take(i));
        lemma_parsed_all_prefix(items, parse, i + 1);
    }
}

/// Reading one more item of a run: what the longer prefix holds.
pub proof fn lemma_parsed_all_step<T>(
    items: Seq<Seq<u8>>,
    parse: spec_fn(Seq<u8>) -> Option<T>,
    i: int,
)
    requires
        0 <= i < items.len(),
    ensures
        parsed_all(items.take(i + 1), parse) == match (
            parsed_all(items.take(i), parse),
            parse(items[i]),
        ) {
            (Some(front), Some(item)) => Some(front.push(item)),
            _ => None,
        },
{
    assert(items.take(i + 1).drop_last() =~= items.take(i));
    assert(items.take(i + 1).last() == items[i]);
}

/// A text field as it is written: nothing for empty text.
pub open spec fn text_field(number: u32, text: Seq<char>) -> Seq<FieldView> {
    if text.len() == 0 {
        Seq::empty()
    } else {
        seq![FieldView { number, value: FieldValueView::Bytes(encode_utf8(text)) }]
    }
}

/// A bytes field as it is written: nothing for no bytes.
pub open spec fn bytes_field(number: u32, bytes: Seq<u8>) -> Seq<FieldView> {
    if bytes.len() == 0 {
        Seq::empty()
    } else {
        seq![FieldView { number, value: FieldValueView::Bytes(bytes) }]
    }
}

/// An integer field as it is written: nothing for zero.
pub open spec fn uint_field(number: u32, value: u64) -> Seq<FieldView> {
    if value == 0 {
        Seq::empty()
    } else {
        seq![FieldView { number, value: FieldValueView::Varint(value) }]
    }
}

/// One text field per item, all under `number`, empty items included.
pub open spec fn repeated_text_fields(number: u32, items: Seq<Seq<char>>) -> Seq<FieldView> {
    Seq::new(
        items.len(),
        |i: int| FieldView { number, value: FieldValueView::Bytes(encode_utf8(items[i])) },
    )
}

/// The last byte value filed under `number`, copied out.
pub fn find_bytes(fields: &Vec<Field>, number: u32) -> (found: Option<Vec<u8>>)
    ensures
        match found {
            Some(b) => last_bytes(field_views(fields@), number) == Some(b@),
            None => last_bytes(field_views(fields@), number) is None,
        },
{
    let ghost views = field_views(fields@);
    let mut at: usize = fields.len();
    proof {
        assert(views.take(at as int) =~= views);
    }
    while at > 0
        invariant
            at <= fields.len(),
            views == field_views(fields@),
            last_bytes(views, number) == last_bytes(views.take(at as int), number),
        decreases at,
    {
        at -= 1;
        proof {
            assert(views.take(at + 1).drop_last() =~= views.take(at as int));
            assert(views.take(at + 1).last() == fields@[at as int]@);
        }
        if fields[at].number == number {
            if let FieldValue::Bytes(b) = &fields[at].value {
                return Some(vstd::slice::slice_to_vec(b.as_slice()));
            }
        }
    }
    None
}

/// The last base-128 integer filed under `number`.
pub fn find_varint(fields: &Vec<Field>, number: u32) -> (found: Option<u64>)
    ensures
        found == last_varint(field_views(fields@), number),
{
    let ghost views = field_views(fields@);
    let mut at: usize = fields.len();
    proof {
        assert(views.take(at as int) =~= views);
    }
    while at > 0
        invariant
            at <= fields.len(),
            views == field_views(fields@),
            last_varint(views, number) == last_varint(views.take(at as int), number),
        decreases at,
    {
        at -= 1;
        proof {
            assert(views.take(at + 1).drop_last() =~= views.take(at as int));
            assert(views.take(at + 1).last() == fields@[at as int]@);
        }
        if fields[at].number == number {
            if let FieldValue::Varint(v) = &fields[at].value {
                return Some(*v);
            }
        }
    }
    None
}

/// Every byte value filed under `number`, in order, copied out.
pub fn find_all_bytes(fields: &Vec<Field>, number: u32) -> (found: Vec<Vec<u8>>)
    ensures
        byte_views(found@) == all_bytes(field_views(fields@), number),
{
    let ghost views = field_views(fields@);
    let mut found: Vec<Vec<u8>> = Vec::new();
    let mut i: usize = 0;
    proof {
        assert(byte_views(found@) =~= all_bytes(views.take(0), number));
    }
    while i < fields.len()
        invariant
            i <= fields.len(),
            views == field_views(fields@),
            byte_views(found@) == all_bytes(views.take(i as int), number),
        decreases fields.len() - i,
    {
        proof {
            assert(views.take(i + 1).drop_last() =~= views.take(i as int));
            assert(views.take(i + 1).last() == fields@[i as int]@);
        }
        if fields[i].number == number {
            if let FieldValue::Bytes(b) = &fields[i].value {
                let ghost before = found@;
                found.push(vstd::slice::slice_to_vec(b.as_slice()));
                proof {
                    assert(byte_views(found@) =~= byte_views(before).push(b@));
                }
            }
        }
        i += 1;
    }
    proof {
        assert(views.take(i as int) =~= views);
    }
    found
}

/// The text filed under `number`; see `text_of`.
pub fn find_text(fields: &Vec<Field>, number: u32) -> (found: Option<String>)
    ensures
        match found {
            Some(text) => text_of(field_views(fields@), number) == Some(text@),
            None => text_of(field_views(fields@), number) is None,
        },
{
    match find_bytes(fields, number) {
        None => Some(String::new()),
        Some(bytes) => read_text(bytes),
    }
}

/// Appends the field for `text` under `number`; nothing for empty text.
pub fn push_text(fields: &mut Vec<Field>, number: u32, text: &str)
    ensures
        field_views(final(fields)@) == field_views(old(fields)@) + text_field(number, text@),
{
    let bytes = text_bytes(text);
    proof {
        lemma_text_is_empty(text@);
    }
    if bytes.len() > 0 {
        fields.push(Field { number, value: FieldValue::Bytes(bytes) });
    }
    proof {
        assert(field_views(fields@) =~= field_views(old(fields)@) + text_field(number, text@));
    }
}

/// Appends the field for `bytes` under `number`; nothing for no bytes.
pub fn push_bytes(fields: &mut Vec<Field>, number: u32, bytes: Vec<u8>)
    ensures
        field_views(final(fields)@) == field_views(old(fields)@) + bytes_field(number, bytes@),
{
    if bytes.len() > 0 {
        fields.push(Field { number, value: FieldValue::Bytes(bytes) });
    }
    proof {
        assert(field_views(fields@) =~= field_views(old(fields)@) + bytes_field(number, bytes@));
    }
}

/// Appends the field for `value` under `number`; nothing for zero.
pub fn push_uint(fields: &mut Vec<Field>, number: u32, value: u64)
    ensures
        field_views(final(fields)@) == field_views(old(fields)@) + uint_field(number, value),
{
    if value != 0 {
        fields.push(Field { number, value: FieldValue::Varint(value) });
    }
    proof {
        assert(field_views(fields@) =~= field_views(old(fields)@) + uint_field(number, value));
    }
}

/// Appends one text field per item, all under `number`.
pub fn push_repeated_text(fields: &mut Vec<Field>, number: u32, items: &Vec<String>)
    ensures
        field_views(final(fields)@) == field_views(old(fields)@) + repeated_text_fields(
            number,
            text_views(items@),
        ),
{
    let mut i: usize = 0;
    let ghost start = field_views(fields@);
    let ghost all = repeated_text_fields(number, text_views(items@));
    proof {
        assert(field_views(fields@) =~= start + all.take(0));
    }
    while i < items.len()
        invariant
            i <= items.len(),
            all == repeated_text_fields(number, text_views(items@)),
            field_views(fields@) == start + all.take(i as int),
        decreases items.len() - i,
    {
        let bytes = text_bytes(items[i].as_str());
        let ghost before = fields@;
        fields.push(Field { number, value: FieldValue::Bytes(bytes) });
        proof {
            assert(field_views(fields@) =~= field_views(before).push(all[i as int]));
            assert(start + all.take(i + 1) =~= (start + all.take(i as int)).push(all[i as int]));
        }
        i += 1;
    }
    proof {
        assert(all.take(i as int) =~= all);
    }
}

/// Only empty text is spelled by no bytes.
pub proof fn lemma_text_is_empty(text: Seq<char>)
    ensures
        encode_utf8(text).len() == 0 <==> text.len() == 0,
{
    vstd::utf8::encode_utf8_decode_utf8(text);
    if encode_utf8(text).len() == 0 {
        assert(encode_utf8(text) =~= Seq::<u8>::empty());
        assert(encode_utf8(Seq::<char>::empty()) =~= Seq::<u8>::empty());
        vstd::utf8::encode_utf8_decode_utf8(Seq::<char>::empty());
    }
}

} // verus!
