//! The envelope that every message on the upstream channel travels in: the
//! kind of message, the id that pairs a reply with its request, and the
//! payload.

use vstd::prelude::*;
use crate::wire::field::{
    Field, FieldView, decode_fields, encode_fields, field_valid, field_views, fields_bytes,
    fields_valid, lemma_parsed_fields_of_fields_bytes, parsed_fields,
};
use crate::wire::frame::{frame_bytes, law_frame_round_trip, parsed_frame};
use crate::wire::message::{
    bytes_field, bytes_of, find_bytes, find_text, find_varint, last_bytes, last_varint, push_bytes,
    push_text, push_uint, text_field, text_of, uint_field, uint_of, lemma_text_is_empty,
};
use crate::wire::text::lemma_text_round_trip;
use vstd::utf8::encode_utf8;

verus! {

/// The field that holds the kind of message.
pub const ENVELOPE_TYPE: u32 = 1;

/// The field that holds the message id.
pub const ENVELOPE_MESSAGE_ID: u32 = 2;

/// The field that holds the payload.
pub const ENVELOPE_DATA: u32 = 3;

/// One message on the upstream channel, in either direction.
#[derive(Debug)]
pub struct Envelope {
    /// The wire number of the kind of message.
    pub kind: u32,
    /// Chosen by whoever asks, echoed by whoever answers.
    pub message_id: String,
    /// A nested message whose layout the kind decides.
    pub data: Vec<u8>,
}

/// What an `Envelope` stands for in contracts.
pub struct EnvelopeView {
    pub kind: u32,
    pub message_id: Seq<char>,
    pub data: Seq<u8>,
}

impl View for Envelope {
    type V = EnvelopeView;

    open spec fn view(&self) -> EnvelopeView {
        EnvelopeView { kind: self.kind, message_id: self.message_id@, data: self.data@ }
    }
}

/// The fields that an envelope is written as.
pub open spec fn envelope_fields(envelope: EnvelopeView) -> Seq<FieldView> {
    uint_field(ENVELOPE_TYPE, envelope.kind as u64) + text_field(
        ENVELOPE_MESSAGE_ID,
        envelope.message_id,
    ) + bytes_field(ENVELOPE_DATA, envelope.data)
}

/// The bytes that an envelope is written as.
pub open spec fn envelope_bytes(envelope: EnvelopeView) -> Seq<u8> {
    fields_bytes(envelope_fields(envelope))
}

/// The envelope that a run of fields holds; `None` where the kind does not
/// fit in 32 bits or the message id is not text.
pub open spec fn envelope_of_fields(fields: Seq<FieldView>) -> Option<EnvelopeView> {
    let kind = uint_of(fields, ENVELOPE_TYPE);
    match text_of(fields, ENVELOPE_MESSAGE_ID) {
        Some(message_id) if kind <= u32::MAX => Some(
            EnvelopeView { kind: kind as u32, message_id, data: bytes_of(fields, ENVELOPE_DATA) },
        ),
        _ => None,
    }
}

/// The envelope that `bytes` hold; `None` where they are no run of fields or
/// the fields hold no envelope.
pub open spec fn parsed_envelope(bytes: Seq<u8>) -> Option<EnvelopeView> {
    match parsed_fields(bytes) {
        None => None,
        Some(fields) => envelope_of_fields(fields),
    }
}

/// An envelope whose parts are short enough for their lengths to be written.
pub open spec fn envelope_fits(envelope: EnvelopeView) -> bool {
    &&& encode_utf8(envelope.message_id).len() <= u64::MAX
    &&& envelope.data.len() <= u64::MAX
}

/// The fields of an envelope hold that envelope.
pub proof fn lemma_envelope_of_envelope_fields(envelope: EnvelopeView)
    ensures
        envelope_of_fields(envelope_fields(envelope)) == Some(envelope),
{
    let fields = envelope_fields(envelope);
    lemma_text_round_trip(envelope.message_id);
    lemma_text_is_empty(envelope.message_id);
    let kind_part = uint_field(ENVELOPE_TYPE, envelope.kind as u64);
    let id_part = text_field(ENVELOPE_MESSAGE_ID, envelope.message_id);
    let data_part = bytes_field(ENVELOPE_DATA, envelope.data);
    assert(fields =~= kind_part + id_part + data_part);
    lemma_last_in_parts(kind_part, id_part, data_part);
    if envelope.message_id.len() == 0 {
        assert(envelope.message_id =~= Seq::<char>::empty());
    }
    if envelope.data.len() == 0 {
        assert(envelope.data =~= Seq::<u8>::empty());
    }
}

/// What the three parts of an envelope's fields hold under each number.
proof fn lemma_last_in_parts(kind_part: Seq<FieldView>, id_part: Seq<FieldView>, data_part: Seq<FieldView>)
    requires
        kind_part.len() <= 1,
        id_part.len() <= 1,
        data_part.len() <= 1,
        forall|i: int|
            0 <= i < kind_part.len() ==> (#[trigger] kind_part[i]).number == ENVELOPE_TYPE
                && kind_part[i].value is Varint,
        forall|i: int|
            0 <= i < id_part.len() ==> (#[trigger] id_part[i]).number == ENVELOPE_MESSAGE_ID
                && id_part[i].value is Bytes,
        forall|i: int|
            0 <= i < data_part.len() ==> (#[trigger] data_part[i]).number == ENVELOPE_DATA
                && data_part[i].value is Bytes,
    ensures
        last_varint(kind_part + id_part + data_part, ENVELOPE_TYPE) == if kind_part.len() == 1 {
            Some(kind_part[0].value->Varint_0)
        } else {
            None
        },
        last_bytes(kind_part + id_part + data_part, ENVELOPE_MESSAGE_ID) == if id_part.len() == 1 {
            Some(id_part[0].value->Bytes_0)
        } else {
            None
        },
        last_bytes(kind_part + id_part + data_part, ENVELOPE_DATA) == if data_part.len() == 1 {
            Some(data_part[0].value->Bytes_0)
        } else {
            None
        },
{
    let all = kind_part + id_part + data_part;
    reveal_with_fuel(last_bytes, 4);
    reveal_with_fuel(last_varint, 4);
    if all.len() >= 1 {
        let a = all.drop_last();
        assert(a.len() == all.len() - 1);
        if a.len() >= 1 {
            let b = a.drop_last();
            assert(b.len() == a.len() - 1);
            if b.len() >= 1 {
                let c = b.drop_last();
                assert(c.len() == 0);
            }
        }
    }
}

/// Envelope round-trip: for every envelope, reading the bytes it is written
/// as gives that envelope.
pub proof fn law_envelope_round_trip(envelope: EnvelopeView)
    requires
        envelope_fits(envelope),
    ensures
        parsed_envelope(envelope_bytes(envelope)) == Some(envelope),
{
    let fields = envelope_fields(envelope);
    assert(fields_valid(fields)) by {
        assert forall|i: int| 0 <= i < fields.len() implies field_valid(#[trigger] fields[i]) by {
            lemma_envelope_fields_valid(envelope, i);
        }
    }
    lemma_parsed_fields_of_fields_bytes(fields);
    lemma_envelope_of_envelope_fields(envelope);
}

/// Each field of an envelope can be written and read back.
proof fn lemma_envelope_fields_valid(envelope: EnvelopeView, i: int)
    requires
        envelope_fits(envelope),
        0 <= i < envelope_fields(envelope).len(),
    ensures
        field_valid(envelope_fields(envelope)[i]),
{
    let kind_part = uint_field(ENVELOPE_TYPE, envelope.kind as u64);
    let id_part = text_field(ENVELOPE_MESSAGE_ID, envelope.message_id);
    let data_part = bytes_field(ENVELOPE_DATA, envelope.data);
    let fields = envelope_fields(envelope);
    if i < kind_part.len() {
        assert(fields[i] == kind_part[i]);
    } else if i < kind_part.len() + id_part.len() {
        assert(fields[i] == id_part[i - kind_part.len()]);
    } else {
        assert(fields[i] == data_part[i - kind_part.len() - id_part.len()]);
    }
}

/// Wire framing round-trip: for every envelope, taking the frame off the
/// bytes it is sent as and reading the payload gives that envelope.
pub proof fn law_wire_round_trip(envelope: EnvelopeView, rest: Seq<u8>)
    requires
        envelope_fits(envelope),
        envelope_bytes(envelope).len() <= u64::MAX,
    ensures
        parsed_frame(frame_bytes(envelope_bytes(envelope)) + rest) matches Some((payload, taken))
            && parsed_envelope(payload) == Some(envelope) && taken == frame_bytes(
            envelope_bytes(envelope),
        ).len(),
{
    law_frame_round_trip(envelope_bytes(envelope), rest);
    law_envelope_round_trip(envelope);
    vstd::bytes::lemma_auto_spec_u64_to_from_le_bytes();
}

/// Writes `envelope` as bytes.
pub fn encode_envelope(envelope: &Envelope) -> (bytes: Vec<u8>)
    ensures
        bytes@ == envelope_bytes(envelope@),
{
    let mut fields: Vec<Field> = Vec::new();
    proof {
        assert(field_views(fields@) =~= Seq::<FieldView>::empty());
    }
    push_uint(&mut fields, ENVELOPE_TYPE, envelope.kind as u64);
    push_text(&mut fields, ENVELOPE_MESSAGE_ID, envelope.message_id.as_str());
    push_bytes(&mut fields, ENVELOPE_DATA, vstd::slice::slice_to_vec(envelope.data.as_slice()));
    proof {
        assert(field_views(fields@) =~= envelope_fields(envelope@));
    }
    encode_fields(&fields)
}

/// Reads `bytes` as an envelope.
pub fn decode_envelope(bytes: &[u8]) -> (envelope: Option<Envelope>)
    ensures
        match envelope {
            Some(envelope) => parsed_envelope(bytes@) == Some(envelope@),
            None => parsed_envelope(bytes@) is None,
        },
{
    let fields = match decode_fields(bytes) {
        Some(fields) => fields,
        None => {
            return None;
        },
    };
    let kind: u64 = match find_varint(&fields, ENVELOPE_TYPE) {
        Some(kind) => kind,
        None => 0,
    };
    let message_id = match find_text(&fields, ENVELOPE_MESSAGE_ID) {
        Some(message_id) => message_id,
        None => {
            return None;
        },
    };
    if kind > u32::MAX as u64 {
        return None;
    }
    let data = match find_bytes(&fields, ENVELOPE_DATA) {
        Some(data) => data,
        None => Vec::new(),
    };
    Some(Envelope { kind: kind as u32, message_id, data })
}

} // verus!
