//! Introspection of version backends: is there one at a path, which files
//! does it list, how large is one of them.

use vstd::prelude::*;
use crate::droplet::{Reply, ReplyView, parsed_text_field, read_text_field};
use crate::server::envelope::Envelope;
use crate::server::kinds::DropBoundType;
use crate::wire::field::{Field, FieldView, decode_fields, encode_fields, field_views, fields_bytes, parsed_fields};
use crate::wire::message::{
    find_text, push_repeated_text, push_uint, repeated_text_fields, text_of, text_views,
    uint_field,
};

verus! {

/// In each of the three queries, the field that holds the path of the version.
pub const QUERY_PATH: u32 = 1;

/// In a peek query, the field that holds the name of the file.
pub const PEEK_FILENAME: u32 = 2;

/// In each of the three answers, the field that holds the result.
pub const ANSWER_RESULT: u32 = 1;

/// The path that a has-backend or list-files query asks about.
pub open spec fn parsed_path_query(data: Seq<u8>) -> Option<Seq<char>> {
    parsed_text_field(data, QUERY_PATH)
}

/// Reads a has-backend or list-files query: the path it asks about.
pub fn read_path_query(message: &Envelope) -> (path: Option<String>)
    ensures
        match path {
            Some(path) => parsed_path_query(message.data@) == Some(path@),
            None => parsed_path_query(message.data@) is None,
        },
{
    read_text_field(message.data.as_slice(), QUERY_PATH)
}

/// What a peek query asks about.
#[derive(Debug)]
pub struct PeekFileQuery {
    pub path: String,
    pub filename: String,
}

/// The path and the file name that a peek query asks about.
pub open spec fn parsed_peek_query(data: Seq<u8>) -> Option<(Seq<char>, Seq<char>)> {
    match parsed_fields(data) {
        None => None,
        Some(fields) => match (text_of(fields, QUERY_PATH), text_of(fields, PEEK_FILENAME)) {
            (Some(path), Some(filename)) => Some((path, filename)),
            _ => None,
        },
    }
}

/// Reads a peek query.
pub fn read_peek_query(message: &Envelope) -> (query: Option<PeekFileQuery>)
    ensures
        match query {
            Some(query) => parsed_peek_query(message.data@) == Some((query.path@, query.filename@)),
            None => parsed_peek_query(message.data@) is None,
        },
{
    let fields = match decode_fields(message.data.as_slice()) {
        Some(fields) => fields,
        None => {
            return None;
        },
    };
    let path = match find_text(&fields, QUERY_PATH) {
        Some(path) => path,
        None => {
            return None;
        },
    };
    match find_text(&fields, PEEK_FILENAME) {
        Some(filename) => Some(PeekFileQuery { path, filename }),
        None => None,
    }
}

/// The answer to a has-backend query.
pub open spec fn has_backend_reply(message_id: Seq<char>, has_backend: bool) -> ReplyView {
    ReplyView {
        kind: DropBoundType::HasBackendComplete,
        message_id,
        data: fields_bytes(uint_field(ANSWER_RESULT, if has_backend { 1u64 } else { 0u64 })),
    }
}

/// Answers a has-backend query: `has_backend` says whether a backend could
/// be made for the path.
pub fn has_backend_rpc(message: &Envelope, has_backend: bool) -> (reply: Reply)
    ensures
        reply@ == has_backend_reply(message.message_id@, has_backend),
{
    let mut fields: Vec<Field> = Vec::new();
    proof {
        assert(field_views(fields@) =~= Seq::<FieldView>::empty());
    }
    let flag: u64 = if has_backend { 1 } else { 0 };
    push_uint(&mut fields, ANSWER_RESULT, flag);
    proof {
        assert(field_views(fields@) =~= uint_field(ANSWER_RESULT, flag));
    }
    Reply {
        kind: DropBoundType::HasBackendComplete,
        message_id: message.message_id.clone(),
        data: encode_fields(&fields),
    }
}

/// The answer to a list-files query.
pub open spec fn list_files_reply(message_id: Seq<char>, files: Seq<Seq<char>>) -> ReplyView {
    ReplyView {
        kind: DropBoundType::ListFilesComplete,
        message_id,
        data: fields_bytes(repeated_text_fields(ANSWER_RESULT, files)),
    }
}

/// Answers a list-files query with the relative names of the files that the
/// backend listed, in the backend's order.
pub fn list_files_rpc(message: &Envelope, files: &Vec<String>) -> (reply: Reply)
    ensures
        reply@ == list_files_reply(message.message_id@, text_views(files@)),
{
    let mut fields: Vec<Field> = Vec::new();
    proof {
        assert(field_views(fields@) =~= Seq::<FieldView>::empty());
    }
    push_repeated_text(&mut fields, ANSWER_RESULT, files);
    proof {
        assert(field_views(fields@) =~= repeated_text_fields(ANSWER_RESULT, text_views(files@)));
    }
    Reply {
        kind: DropBoundType::ListFilesComplete,
        message_id: message.message_id.clone(),
        data: encode_fields(&fields),
    }
}

/// The answer to a peek query.
pub open spec fn peek_file_reply(message_id: Seq<char>, size: u64) -> ReplyView {
    ReplyView {
        kind: DropBoundType::PeekFileComplete,
        message_id,
        data: fields_bytes(uint_field(ANSWER_RESULT, size)),
    }
}

/// Answers a peek query with the size of the file.
pub fn peek_file_rpc(message: &Envelope, size: u64) -> (reply: Reply)
    ensures
        reply@ == peek_file_reply(message.message_id@, size),
{
    let mut fields: Vec<Field> = Vec::new();
    proof {
        assert(field_views(fields@) =~= Seq::<FieldView>::empty());
    }
    push_uint(&mut fields, ANSWER_RESULT, size);
    proof {
        assert(field_views(fields@) =~= uint_field(ANSWER_RESULT, size));
    }
    Reply {
        kind: DropBoundType::PeekFileComplete,
        message_id: message.message_id.clone(),
        data: encode_fields(&fields),
    }
}

} // verus!
