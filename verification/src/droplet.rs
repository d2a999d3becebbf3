//! The requests that the peer makes of this server: how each is read, and
//! which message answers it.

pub mod backend;
pub mod cert;
pub mod manifest;

use vstd::prelude::*;
use vstd::utf8::encode_utf8;
use crate::server::kinds::DropBoundType;
use crate::wire::field::{decode_fields, parsed_fields};
use crate::wire::message::{find_text, text_of};
use crate::wire::text::text_bytes;

verus! {

/// A message to send in answer to a request.
#[derive(Debug)]
pub struct Reply {
    pub kind: DropBoundType,
    /// The id of the request that is answered.
    pub message_id: String,
    pub data: Vec<u8>,
}

/// What a `Reply` stands for in contracts.
pub struct ReplyView {
    pub kind: DropBoundType,
    pub message_id: Seq<char>,
    pub data: Seq<u8>,
}

impl View for Reply {
    type V = ReplyView;

    open spec fn view(&self) -> ReplyView {
        ReplyView { kind: self.kind, message_id: self.message_id@, data: self.data@ }
    }
}

/// The outcome of a handler as contracts see it.
pub open spec fn outcome_view(outcome: Result<Reply, String>) -> Result<ReplyView, Seq<char>> {
    match outcome {
        Ok(reply) => Ok(reply@),
        Err(error) => Err(error@),
    }
}

/// The message that reports a failed request: kind `RpcError`, the id of the
/// request, and the error's text as UTF-8.
pub open spec fn rpc_error_reply(message_id: Seq<char>, error: Seq<char>) -> ReplyView {
    ReplyView { kind: DropBoundType::RpcError, message_id, data: encode_utf8(error) }
}

/// The message that goes out once a handler is done with the request
/// `message_id`: the handler's reply, or the report of its failure.
pub fn call_rpc(message_id: String, outcome: Result<Reply, String>) -> (reply: Reply)
    ensures
        reply@ == (match outcome {
            Ok(done) => done@,
            Err(error) => rpc_error_reply(message_id@, error@),
        }),
{
    match outcome {
        Ok(done) => done,
        Err(error) => Reply {
            kind: DropBoundType::RpcError,
            message_id,
            data: text_bytes(error.as_str()),
        },
    }
}

/// The text under `number` in the message that `data` holds; `None` where
/// `data` is no run of fields or the field is no text.
pub open spec fn parsed_text_field(data: Seq<u8>, number: u32) -> Option<Seq<char>> {
    match parsed_fields(data) {
        None => None,
        Some(fields) => text_of(fields, number),
    }
}

/// Reads the text under `number` in the message that `data` holds.
pub fn read_text_field(data: &[u8], number: u32) -> (text: Option<String>)
    ensures
        match text {
            Some(text) => parsed_text_field(data@, number) == Some(text@),
            None => parsed_text_field(data@, number) is None,
        },
{
    match decode_fields(data) {
        None => None,
        Some(fields) => find_text(&fields, number),
    }
}

} // verus!
