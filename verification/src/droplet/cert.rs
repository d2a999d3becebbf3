//! Certificates: the root authority and the certificates of clients. The
//! generator is a collaborator; what it hands back is a list of PEM texts,
//! certificate first and private key second.

use vstd::prelude::*;
use crate::droplet::{Reply, ReplyView, outcome_view};
use crate::server::envelope::Envelope;
use crate::server::kinds::DropBoundType;
use crate::wire::field::{Field, FieldView, decode_fields, encode_fields, field_views, fields_bytes, parsed_fields};
use crate::wire::message::{find_text, push_text, text_field, text_of, text_views};

verus! {

/// In both answers, the field that holds the certificate.
pub const CERT: u32 = 1;

/// In both answers, the field that holds the private key.
pub const PRIVATE_KEY: u32 = 2;

/// In a client query, the field that holds the client's id.
pub const CLIENT_ID: u32 = 1;

/// In a client query, the field that holds the client's name.
pub const CLIENT_NAME: u32 = 2;

/// In a client query, the field that holds the root certificate.
pub const ROOT_CERT: u32 = 3;

/// In a client query, the field that holds the root's private key.
pub const ROOT_PRIVATE_KEY: u32 = 4;

/// What a client-certificate query asks for.
#[derive(Debug)]
pub struct ClientCertQuery {
    pub client_id: String,
    pub client_name: String,
    pub root_cert: String,
    pub root_priv: String,
}

/// What a `ClientCertQuery` stands for in contracts.
pub struct ClientCertQueryView {
    pub client_id: Seq<char>,
    pub client_name: Seq<char>,
    pub root_cert: Seq<char>,
    pub root_priv: Seq<char>,
}

impl View for ClientCertQuery {
    type V = ClientCertQueryView;

    open spec fn view(&self) -> ClientCertQueryView {
        ClientCertQueryView {
            client_id: self.client_id@,
            client_name: self.client_name@,
            root_cert: self.root_cert@,
            root_priv: self.root_priv@,
        }
    }
}

/// The query that `data` holds; `None` where `data` is no run of fields or
/// one of the four is no text.
pub open spec fn parsed_client_cert_query(data: Seq<u8>) -> Option<ClientCertQueryView> {
    match parsed_fields(data) {
        None => None,
        Some(fields) => match (
            text_of(fields, CLIENT_ID),
            text_of(fields, CLIENT_NAME),
            text_of(fields, ROOT_CERT),
            text_of(fields, ROOT_PRIVATE_KEY),
        ) {
            (Some(client_id), Some(client_name), Some(root_cert), Some(root_priv)) => Some(
                ClientCertQueryView { client_id, client_name, root_cert, root_priv },
            ),
            _ => None,
        },
    }
}

/// Reads a client-certificate query.
pub fn read_client_cert_query(message: &Envelope) -> (query: Option<ClientCertQuery>)
    ensures
        match query {
            Some(query) => parsed_client_cert_query(message.data@) == Some(query@),
            None => parsed_client_cert_query(message.data@) is None,
        },
{
    let fields = match decode_fields(message.data.as_slice()) {
        Some(fields) => fields,
        None => {
            return None;
        },
    };
    let client_id = match find_text(&fields, CLIENT_ID) {
        Some(text) => text,
        None => {
            return None;
        },
    };
    let client_name = match find_text(&fields, CLIENT_NAME) {
        Some(text) => text,
        None => {
            return None;
        },
    };
    let root_cert = match find_text(&fields, ROOT_CERT) {
        Some(text) => text,
        None => {
            return None;
        },
    };
    match find_text(&fields, ROOT_PRIVATE_KEY) {
        Some(root_priv) => Some(ClientCertQuery { client_id, client_name, root_cert, root_priv }),
        None => None,
    }
}

/// The payload that carries a certificate and its private key.
pub open spec fn cert_pair_bytes(cert: Seq<char>, private_key: Seq<char>) -> Seq<u8> {
    fields_bytes(text_field(CERT, cert) + text_field(PRIVATE_KEY, private_key))
}

/// The answer built from what the generator handed back: the first text is
/// the certificate, the second the private key; an error names the one
/// that is missing.
pub open spec fn cert_outcome(
    kind: DropBoundType,
    message_id: Seq<char>,
    generated: Seq<Seq<char>>,
    missing_cert: Seq<char>,
    missing_priv: Seq<char>,
) -> Result<ReplyView, Seq<char>> {
    if generated.len() == 0 {
        Err(missing_cert)
    } else if generated.len() == 1 {
        Err(missing_priv)
    } else {
        Ok(ReplyView { kind, message_id, data: cert_pair_bytes(generated[0], generated[1]) })
    }
}

/// Builds the answer that carries a certificate and its key.
fn cert_reply(
    kind: DropBoundType,
    message: &Envelope,
    generated: &Vec<String>,
    missing_cert: &str,
    missing_priv: &str,
) -> (outcome: Result<Reply, String>)
    ensures
        outcome_view(outcome) == cert_outcome(
            kind,
            message.message_id@,
            text_views(generated@),
            missing_cert@,
            missing_priv@,
        ),
{
    if generated.len() == 0 {
        return Err(missing_cert.to_owned());
    }
    if generated.len() == 1 {
        return Err(missing_priv.to_owned());
    }
    let mut fields: Vec<Field> = Vec::new();
    proof {
        assert(field_views(fields@) =~= Seq::<FieldView>::empty());
    }
    push_text(&mut fields, CERT, generated[0].as_str());
    push_text(&mut fields, PRIVATE_KEY, generated[1].as_str());
    proof {
        assert(field_views(fields@) =~= text_field(CERT, generated@[0]@) + text_field(
            PRIVATE_KEY,
            generated@[1]@,
        ));
    }
    Ok(Reply { kind, message_id: message.message_id.clone(), data: encode_fields(&fields) })
}

/// Answers a root-authority request from the texts that the generator
/// handed back.
pub fn generate_root_ca_rpc(message: &Envelope, generated: &Vec<String>) -> (outcome: Result<
    Reply,
    String,
>)
    ensures
        outcome_view(outcome) == cert_outcome(
            DropBoundType::RootCaComplete,
            message.message_id@,
            text_views(generated@),
            "root ca generation missing cert"@,
            "root ca generation missing priv"@,
        ),
{
    cert_reply(
        DropBoundType::RootCaComplete,
        message,
        generated,
        "root ca generation missing cert",
        "root ca generation missing priv",
    )
}

/// Answers a client-certificate request from the texts that the generator
/// handed back.
pub fn generate_client_cert_rpc(message: &Envelope, generated: &Vec<String>) -> (outcome: Result<
    Reply,
    String,
>)
    ensures
        outcome_view(outcome) == cert_outcome(
            DropBoundType::ClientCertComplete,
            message.message_id@,
            text_views(generated@),
            "client cert generation missing cert"@,
            "client cert generation missing priv"@,
        ),
{
    cert_reply(
        DropBoundType::ClientCertComplete,
        message,
        generated,
        "client cert generation missing cert",
        "client cert generation missing priv",
    )
}

} // verus!
