//! Manifest generation on request. The generator is a collaborator that
//! reports progress and log lines while it runs and hands back the manifest
//! as JSON; each report goes to the peer under the id of the request.

use vstd::prelude::*;
use crate::droplet::{Reply, ReplyView, parsed_text_field, read_text_field, rpc_error_reply};
use crate::server::envelope::Envelope;
use crate::server::kinds::DropBoundType;
use crate::wire::field::{Field, FieldValue, FieldValueView, FieldView, encode_fields, field_views, fields_bytes};
use crate::wire::message::{push_text, text_field};
use crate::wire::text::text_bytes;

verus! {

/// In a generate request, the field that holds the directory of the version.
pub const VERSION_DIR: u32 = 1;

/// In each report, the field that holds what is reported.
pub const REPORT: u32 = 1;

/// What the generator reports while it works on one request.
#[derive(Debug)]
pub enum ManifestEvent {
    /// How far it has come, in percent, as the bits of a 32-bit float.
    Progress(u32),
    /// A line for the log.
    Log(String),
    /// The manifest, as JSON.
    Complete(String),
}

/// The directory that a generate request names.
pub open spec fn parsed_generate_manifest(data: Seq<u8>) -> Option<Seq<char>> {
    parsed_text_field(data, VERSION_DIR)
}

/// Reads a generate request: the directory of the version.
pub fn read_generate_manifest(message: &Envelope) -> (version_dir: Option<String>)
    ensures
        match version_dir {
            Some(dir) => parsed_generate_manifest(message.data@) == Some(dir@),
            None => parsed_generate_manifest(message.data@) is None,
        },
{
    read_text_field(message.data.as_slice(), VERSION_DIR)
}

/// The message that carries one report of the generator.
pub open spec fn manifest_report(message_id: Seq<char>, event: ManifestEvent) -> ReplyView {
    match event {
        ManifestEvent::Progress(bits) => ReplyView {
            kind: DropBoundType::ManifestProgress,
            message_id,
            data: fields_bytes(seq![FieldView { number: REPORT, value: FieldValueView::Fixed32(bits) }]),
        },
        ManifestEvent::Log(line) => ReplyView {
            kind: DropBoundType::ManifestLog,
            message_id,
            data: fields_bytes(text_field(REPORT, line@)),
        },
        ManifestEvent::Complete(manifest) => ReplyView {
            kind: DropBoundType::ManifestComplete,
            message_id,
            data: fields_bytes(text_field(REPORT, manifest@)),
        },
    }
}

/// The message that carries one report of the generator to the peer, under
/// the id of the request that started it.
pub fn generate_manifest_raw(message_id: &String, event: ManifestEvent) -> (reply: Reply)
    ensures
        reply@ == manifest_report(message_id@, event),
{
    let mut fields: Vec<Field> = Vec::new();
    proof {
        assert(field_views(fields@) =~= Seq::<FieldView>::empty());
    }
    match event {
        ManifestEvent::Progress(bits) => {
            fields.push(Field { number: REPORT, value: FieldValue::Fixed32(bits) });
            proof {
                assert(field_views(fields@) =~= seq![
                    FieldView { number: REPORT, value: FieldValueView::Fixed32(bits) },
                ]);
            }
            Reply {
                kind: DropBoundType::ManifestProgress,
                message_id: message_id.clone(),
                data: encode_fields(&fields),
            }
        },
        ManifestEvent::Log(line) => {
            push_text(&mut fields, REPORT, line.as_str());
            proof {
                assert(field_views(fields@) =~= text_field(REPORT, line@));
            }
            Reply {
                kind: DropBoundType::ManifestLog,
                message_id: message_id.clone(),
                data: encode_fields(&fields),
            }
        },
        ManifestEvent::Complete(manifest) => {
            push_text(&mut fields, REPORT, manifest.as_str());
            proof {
                assert(field_views(fields@) =~= text_field(REPORT, manifest@));
            }
            Reply {
                kind: DropBoundType::ManifestComplete,
                message_id: message_id.clone(),
                data: encode_fields(&fields),
            }
        },
    }
}

/// What goes out when the generator has ended: nothing more where it
/// succeeded, else the report of its failure, as for every request that
/// fails: kind `RpcError`, the id of the request, the error's text as UTF-8.
pub fn generate_manifest(message_id: String, outcome: Result<(), String>) -> (reply: Option<Reply>)
    ensures
        match outcome {
            Ok(_) => reply is None,
            Err(error) => reply matches Some(sent) && sent@ == rpc_error_reply(
                message_id@,
                error@,
            ),
        },
{
    match outcome {
        Ok(_) => None,
        Err(error) => Some(
            Reply {
                kind: DropBoundType::RpcError,
                message_id,
                data: text_bytes(error.as_str()),
            },
        ),
    }
}

/// How many readers the generator may run at once: the configured number,
/// else half the logical cores.
pub fn reader_permits(configured: Option<usize>, logical_cores: usize) -> (permits: usize)
    ensures
        permits == (match configured {
            Some(count) => count,
            None => logical_cores / 2,
        }),
{
    match configured {
        Some(count) => count,
        None => logical_cores / 2,
    }
}

} // verus!
