//! Text on the wire: UTF-8, checked when it is read.

use vstd::prelude::*;
use vstd::utf8::{
    decode_utf8, encode_utf8, encode_utf8_decode_utf8, encode_utf8_valid_utf8, valid_utf8,
};

verus! {

/// The text that `bytes` spell, where they spell one.
pub open spec fn parsed_text(bytes: Seq<u8>) -> Option<Seq<char>> {
    if valid_utf8(bytes) {
        Some(decode_utf8(bytes))
    } else {
        None
    }
}

/// Calls `String::from_utf8`. The claim: it succeeds exactly on well-formed
/// UTF-8, and the bytes of the string it returns are the bytes it was given.
#[verifier::external_body]
fn string_from_utf8(bytes: Vec<u8>) -> (text: Option<String>)
    ensures
        text is Some == valid_utf8(bytes@),
        text matches Some(s) ==> encode_utf8(s@) == bytes@,
{
    String::from_utf8(bytes).ok()
}

/// Reads `bytes` as text; `None` unless they are well-formed UTF-8.
pub fn read_text(bytes: Vec<u8>) -> (text: Option<String>)
    ensures
        match text {
            Some(s) => parsed_text(bytes@) == Some(s@),
            None => parsed_text(bytes@) is None,
        },
{
    let text = string_from_utf8(bytes);
    proof {
        if text is Some {
            encode_utf8_decode_utf8(text->0@);
        }
    }
    text
}

/// The bytes that spell `text`.
pub fn text_bytes(text: &str) -> (bytes: Vec<u8>)
    ensures
        bytes@ == encode_utf8(text@),
{
    vstd::slice::slice_to_vec(text.as_bytes())
}

/// Text that is written reads back as itself.
pub proof fn lemma_text_round_trip(text: Seq<char>)
    ensures
        parsed_text(encode_utf8(text)) == Some(text),
{
    encode_utf8_valid_utf8(text);
    encode_utf8_decode_utf8(text);
}

} // verus!
