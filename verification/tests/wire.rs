use torrential::wire::field::{decode_fields, encode_fields, read_field, write_field, Field, FieldValue};
use torrential::wire::frame::{encode_frame, frame_length, split_frame, FRAME_HEADER_LEN};
use torrential::wire::message::{
    find_all_bytes, find_bytes, find_text, find_varint, push_bytes, push_repeated_text,
    push_text, push_uint,
};
use torrential::wire::text::{read_text, text_bytes};
use torrential::wire::varint::{read_varint, write_varint};

fn varint_of(value: u64) -> Vec<u8> {
    let mut out = Vec::new();
    write_varint(&mut out, value);
    out
}

#[test]
fn varint_has_the_expected_bytes() {
    assert_eq!(varint_of(0), vec![0x00]);
    assert_eq!(varint_of(1), vec![0x01]);
    assert_eq!(varint_of(127), vec![0x7f]);
    assert_eq!(varint_of(128), vec![0x80, 0x01]);
    assert_eq!(varint_of(300), vec![0xac, 0x02]);
    assert_eq!(
        varint_of(u64::MAX),
        vec![0xff, 0xff, 0xff, 0xff, 0xff, 0xff, 0xff, 0xff, 0xff, 0x01]
    );
}

#[test]
fn varint_appends_to_what_is_there() {
    let mut out = vec![9u8];
    write_varint(&mut out, 300);
    assert_eq!(out, vec![9, 0xac, 0x02]);
}

#[test]
fn varint_reads_back() {
    for value in [0u64, 1, 127, 128, 300, 16384, 1 << 32, u64::MAX - 1, u64::MAX] {
        let mut bytes = varint_of(value);
        let length = bytes.len();
        bytes.push(0x55);
        assert_eq!(read_varint(&bytes, 0), Some((value, length)));
    }
}

#[test]
fn varint_reads_from_an_offset() {
    let bytes = vec![0xff, 0xac, 0x02, 0x01];
    assert_eq!(read_varint(&bytes, 1), Some((300, 3)));
    assert_eq!(read_varint(&bytes, 3), Some((1, 4)));
    assert_eq!(read_varint(&bytes, 4), None);
}

#[test]
fn varint_accepts_padded_forms_up_to_ten_bytes() {
    assert_eq!(read_varint(&[0x80, 0x00], 0), Some((0, 2)));
    assert_eq!(
        read_varint(&[0x80, 0x80, 0x80, 0x80, 0x80, 0x80, 0x80, 0x80, 0x80, 0x00], 0),
        Some((0, 10))
    );
}

#[test]
fn varint_refuses_what_is_cut_short_too_long_or_too_large() {
    assert_eq!(read_varint(&[], 0), None);
    assert_eq!(read_varint(&[0x80], 0), None);
    assert_eq!(read_varint(&[0xff, 0xff], 0), None);
    assert_eq!(
        read_varint(&[0x80, 0x80, 0x80, 0x80, 0x80, 0x80, 0x80, 0x80, 0x80, 0x80, 0x00], 0),
        None
    );
    assert_eq!(
        read_varint(&[0xff, 0xff, 0xff, 0xff, 0xff, 0xff, 0xff, 0xff, 0xff, 0x02], 0),
        None
    );
}

#[test]
fn fields_have_the_expected_bytes() {
    let fields = vec![
        Field { number: 1, value: FieldValue::Varint(150) },
        Field { number: 2, value: FieldValue::Bytes(b"testing".to_vec()) },
        Field { number: 3, value: FieldValue::Fixed32(1) },
        Field { number: 4, value: FieldValue::Fixed64(2) },
    ];
    assert_eq!(
        encode_fields(&fields),
        vec![
            0x08, 0x96, 0x01, 0x12, 0x07, b't', b'e', b's', b't', b'i', b'n', b'g', 0x1d, 1, 0, 0,
            0, 0x21, 2, 0, 0, 0, 0, 0, 0, 0
        ]
    );
}

#[test]
fn fields_read_back() {
    let fields = vec![
        Field { number: 1, value: FieldValue::Varint(u64::MAX) },
        Field { number: 536870911, value: FieldValue::Bytes(vec![0; 200]) },
        Field { number: 7, value: FieldValue::Fixed32(0xdeadbeef) },
        Field { number: 7, value: FieldValue::Fixed64(0x0123456789abcdef) },
        Field { number: 2, value: FieldValue::Bytes(Vec::new()) },
    ];
    let bytes = encode_fields(&fields);
    let read = decode_fields(&bytes).unwrap();
    assert_eq!(read.len(), 5);
    assert_eq!(format!("{:?}", read), format!("{:?}", fields));
}

#[test]
fn write_field_appends() {
    let mut out = vec![0xaa];
    write_field(&mut out, &Field { number: 1, value: FieldValue::Varint(1) });
    assert_eq!(out, vec![0xaa, 0x08, 0x01]);
}

#[test]
fn read_field_says_where_the_next_one_starts() {
    let bytes = vec![0x08, 0x01, 0x12, 0x01, 0x41];
    let (first, next) = read_field(&bytes, 0).unwrap();
    assert_eq!(first.number, 1);
    assert_eq!(next, 2);
    let (second, end) = read_field(&bytes, next).unwrap();
    assert_eq!(second.number, 2);
    assert!(matches!(second.value, FieldValue::Bytes(ref b) if b == &vec![0x41]));
    assert_eq!(end, 5);
}

#[test]
fn fields_refuse_what_is_malformed() {
    // field number zero
    assert!(decode_fields(&[0x00, 0x01]).is_none());
    // a group, which no layout stands for
    assert!(decode_fields(&[0x0b]).is_none());
    assert!(decode_fields(&[0x0e, 0x00]).is_none());
    // bytes cut short
    assert!(decode_fields(&[0x12, 0x05, 0x41]).is_none());
    // fixed values cut short
    assert!(decode_fields(&[0x1d, 1, 0, 0]).is_none());
    assert!(decode_fields(&[0x21, 1, 0, 0, 0, 0, 0, 0]).is_none());
    // a key without a value
    assert!(decode_fields(&[0x08]).is_none());
    // a number beyond the largest
    assert!(decode_fields(&[0x80, 0x80, 0x80, 0x80, 0x10, 0x00]).is_none());
}

#[test]
fn no_bytes_are_no_fields() {
    assert_eq!(decode_fields(&[]).unwrap().len(), 0);
    assert_eq!(encode_fields(&Vec::new()), Vec::<u8>::new());
}

#[test]
fn frame_has_the_expected_bytes() {
    assert_eq!(FRAME_HEADER_LEN, 8);
    assert_eq!(encode_frame(b"abc"), vec![3, 0, 0, 0, 0, 0, 0, 0, b'a', b'b', b'c']);
    assert_eq!(encode_frame(b""), vec![0, 0, 0, 0, 0, 0, 0, 0]);
    let long = encode_frame(&vec![1u8; 258]);
    assert_eq!(&long[..8], &[2, 1, 0, 0, 0, 0, 0, 0]);
    assert_eq!(long.len(), 266);
}

#[test]
fn frame_length_reads_the_header() {
    assert_eq!(frame_length(&[3, 0, 0, 0, 0, 0, 0, 0]), Some(3));
    assert_eq!(frame_length(&[2, 1, 0, 0, 0, 0, 0, 0]), Some(258));
    assert_eq!(frame_length(&[0; 8]), Some(0));
}

#[test]
fn frame_round_trip() {
    for payload in [Vec::new(), vec![1u8], vec![9u8; 1000]] {
        let mut bytes = encode_frame(&payload);
        let length = bytes.len();
        bytes.extend_from_slice(&[0xee, 0xee]);
        assert_eq!(split_frame(&bytes), Some((payload, length)));
    }
}

#[test]
fn an_incomplete_frame_is_not_split() {
    assert_eq!(split_frame(&[]), None);
    assert_eq!(split_frame(&[1, 0, 0, 0, 0, 0, 0]), None);
    assert_eq!(split_frame(&[1, 0, 0, 0, 0, 0, 0, 0]), None);
    assert_eq!(split_frame(&[2, 0, 0, 0, 0, 0, 0, 0, 7]), None);
    assert_eq!(split_frame(&[0xff; 8]), None);
}

#[test]
fn text_is_utf8() {
    assert_eq!(text_bytes("h\u{e9}"), vec![b'h', 0xc3, 0xa9]);
    assert_eq!(read_text(vec![b'h', 0xc3, 0xa9]), Some("h\u{e9}".to_string()));
    assert_eq!(read_text(Vec::new()), Some(String::new()));
    assert_eq!(read_text(vec![0xff]), None);
    assert_eq!(read_text(vec![0xc3]), None);
    assert_eq!(read_text(vec![0xed, 0xa0, 0x80]), None);
}

#[test]
fn the_last_occurrence_of_a_field_counts() {
    let fields = vec![
        Field { number: 1, value: FieldValue::Varint(1) },
        Field { number: 2, value: FieldValue::Bytes(b"old".to_vec()) },
        Field { number: 1, value: FieldValue::Varint(2) },
        Field { number: 2, value: FieldValue::Bytes(b"new".to_vec()) },
        Field { number: 2, value: FieldValue::Varint(9) },
        Field { number: 3, value: FieldValue::Fixed32(5) },
    ];
    assert_eq!(find_varint(&fields, 1), Some(2));
    assert_eq!(find_varint(&fields, 2), Some(9));
    assert_eq!(find_varint(&fields, 3), None);
    assert_eq!(find_bytes(&fields, 2), Some(b"new".to_vec()));
    assert_eq!(find_bytes(&fields, 1), None);
    assert_eq!(find_text(&fields, 2), Some("new".to_string()));
    assert_eq!(find_text(&fields, 9), Some(String::new()));
    assert_eq!(find_all_bytes(&fields, 2), vec![b"old".to_vec(), b"new".to_vec()]);
    assert_eq!(find_all_bytes(&fields, 4), Vec::<Vec<u8>>::new());
}

#[test]
fn text_that_is_not_utf8_is_refused() {
    let fields = vec![Field { number: 2, value: FieldValue::Bytes(vec![0xff]) }];
    assert_eq!(find_text(&fields, 2), None);
}

#[test]
fn empty_values_are_not_written() {
    let mut fields = Vec::new();
    push_text(&mut fields, 1, "");
    push_bytes(&mut fields, 2, Vec::new());
    push_uint(&mut fields, 3, 0);
    assert_eq!(fields.len(), 0);
    push_text(&mut fields, 1, "a");
    push_bytes(&mut fields, 2, vec![1]);
    push_uint(&mut fields, 3, 4);
    assert_eq!(encode_fields(&fields), vec![0x0a, 1, b'a', 0x12, 1, 1, 0x18, 4]);
}

#[test]
fn repeated_text_keeps_empty_items() {
    let mut fields = Vec::new();
    push_repeated_text(&mut fields, 1, &vec!["a".to_string(), String::new(), "bc".to_string()]);
    assert_eq!(encode_fields(&fields), vec![0x0a, 1, b'a', 0x0a, 0, 0x0a, 2, b'b', b'c']);
}
