use torrential::droplet::backend::{
    has_backend_rpc, list_files_rpc, peek_file_rpc, read_path_query, read_peek_query,
};
use torrential::droplet::cert::{
    generate_client_cert_rpc, generate_root_ca_rpc, read_client_cert_query,
};
use torrential::droplet::manifest::{
    generate_manifest, generate_manifest_raw, read_generate_manifest, reader_permits,
    ManifestEvent,
};
use torrential::droplet::{call_rpc, read_text_field, Reply};
use torrential::server::envelope::Envelope;
use torrential::server::kinds::DropBoundType;

fn request(message_id: &str, data: &[u8]) -> Envelope {
    Envelope { kind: 0, message_id: message_id.to_string(), data: data.to_vec() }
}

#[test]
fn a_failed_request_is_reported_under_its_id() {
    let reply = call_rpc("m1".to_string(), Err("backend doesn't exist at path /x".to_string()));
    assert_eq!(reply.kind, DropBoundType::RpcError);
    assert_eq!(reply.message_id, "m1");
    assert_eq!(reply.data, b"backend doesn't exist at path /x".to_vec());
}

#[test]
fn a_handled_request_is_answered_with_the_handlers_reply() {
    let done = Reply {
        kind: DropBoundType::PeekFileComplete,
        message_id: "m2".to_string(),
        data: vec![8, 5],
    };
    let reply = call_rpc("m2".to_string(), Ok(done));
    assert_eq!(reply.kind, DropBoundType::PeekFileComplete);
    assert_eq!(reply.message_id, "m2");
    assert_eq!(reply.data, vec![8, 5]);
}

#[test]
fn path_queries_are_read() {
    let message = request("q", &[0x0a, 4, b'/', b'l', b'i', b'b']);
    assert_eq!(read_path_query(&message), Some("/lib".to_string()));
    assert_eq!(read_path_query(&request("q", &[])), Some(String::new()));
    assert_eq!(read_path_query(&request("q", &[0x0a, 1, 0xff])), None);
    assert_eq!(read_path_query(&request("q", &[0x0a, 9, b'x'])), None);
    assert_eq!(read_text_field(&[0x12, 1, b'z'], 2), Some("z".to_string()));
}

#[test]
fn peek_queries_are_read() {
    let message = request("q", &[0x0a, 2, b'/', b'v', 0x12, 3, b'a', b'.', b'b']);
    let query = read_peek_query(&message).unwrap();
    assert_eq!(query.path, "/v");
    assert_eq!(query.filename, "a.b");
    assert!(read_peek_query(&request("q", &[0x12, 1, 0xff])).is_none());
    assert!(read_peek_query(&request("q", &[0x0a])).is_none());
}

#[test]
fn has_backend_is_answered() {
    let yes = has_backend_rpc(&request("m3", &[]), true);
    assert_eq!(yes.kind, DropBoundType::HasBackendComplete);
    assert_eq!(yes.message_id, "m3");
    assert_eq!(yes.data, vec![0x08, 1]);
    let no = has_backend_rpc(&request("m3", &[]), false);
    assert_eq!(no.data, Vec::<u8>::new());
}

#[test]
fn list_files_is_answered_in_order() {
    let files = vec!["b.bin".to_string(), "a/c.bin".to_string()];
    let reply = list_files_rpc(&request("m4", &[]), &files);
    assert_eq!(reply.kind, DropBoundType::ListFilesComplete);
    assert_eq!(reply.message_id, "m4");
    assert_eq!(
        reply.data,
        vec![
            0x0a, 5, b'b', b'.', b'b', b'i', b'n', 0x0a, 7, b'a', b'/', b'c', b'.', b'b', b'i',
            b'n'
        ]
    );
    assert_eq!(list_files_rpc(&request("m4", &[]), &Vec::new()).data, Vec::<u8>::new());
}

#[test]
fn peek_file_is_answered_with_the_size() {
    let reply = peek_file_rpc(&request("m5", &[]), 300);
    assert_eq!(reply.kind, DropBoundType::PeekFileComplete);
    assert_eq!(reply.message_id, "m5");
    assert_eq!(reply.data, vec![0x08, 0xac, 0x02]);
}

#[test]
fn client_cert_queries_are_read() {
    let data = vec![
        0x0a, 2, b'i', b'd', 0x12, 4, b'n', b'a', b'm', b'e', 0x1a, 1, b'C', 0x22, 1, b'P',
    ];
    let query = read_client_cert_query(&request("q", &data)).unwrap();
    assert_eq!(query.client_id, "id");
    assert_eq!(query.client_name, "name");
    assert_eq!(query.root_cert, "C");
    assert_eq!(query.root_priv, "P");
    assert!(read_client_cert_query(&request("q", &[0x22, 1, 0xff])).is_none());
}

#[test]
fn root_ca_is_answered_with_cert_and_key() {
    let generated = vec!["CERT".to_string(), "KEY".to_string(), "extra".to_string()];
    let reply = generate_root_ca_rpc(&request("m6", &[]), &generated).unwrap();
    assert_eq!(reply.kind, DropBoundType::RootCaComplete);
    assert_eq!(reply.message_id, "m6");
    assert_eq!(reply.data, vec![0x0a, 4, b'C', b'E', b'R', b'T', 0x12, 3, b'K', b'E', b'Y']);
}

#[test]
fn root_ca_names_what_is_missing() {
    assert_eq!(
        generate_root_ca_rpc(&request("m", &[]), &Vec::new()).unwrap_err(),
        "root ca generation missing cert"
    );
    assert_eq!(
        generate_root_ca_rpc(&request("m", &[]), &vec!["CERT".to_string()]).unwrap_err(),
        "root ca generation missing priv"
    );
}

#[test]
fn client_cert_is_answered_with_cert_and_key() {
    let generated = vec!["C".to_string(), "K".to_string()];
    let reply = generate_client_cert_rpc(&request("m7", &[]), &generated).unwrap();
    assert_eq!(reply.kind, DropBoundType::ClientCertComplete);
    assert_eq!(reply.message_id, "m7");
    assert_eq!(reply.data, vec![0x0a, 1, b'C', 0x12, 1, b'K']);
    assert_eq!(
        generate_client_cert_rpc(&request("m", &[]), &Vec::new()).unwrap_err(),
        "client cert generation missing cert"
    );
    assert_eq!(
        generate_client_cert_rpc(&request("m", &[]), &vec!["C".to_string()]).unwrap_err(),
        "client cert generation missing priv"
    );
}

#[test]
fn generate_requests_are_read() {
    let message = request("g", &[0x0a, 2, b'/', b'd']);
    assert_eq!(read_generate_manifest(&message), Some("/d".to_string()));
    assert_eq!(read_generate_manifest(&request("g", &[0x0a, 2, b'/'])), None);
}

#[test]
fn reports_of_the_generator_go_out_under_the_request_id() {
    let id = "m8".to_string();
    let progress = generate_manifest_raw(&id, ManifestEvent::Progress(50.0f32.to_bits()));
    assert_eq!(progress.kind, DropBoundType::ManifestProgress);
    assert_eq!(progress.message_id, "m8");
    assert_eq!(progress.data, vec![0x0d, 0x00, 0x00, 0x48, 0x42]);
    let log = generate_manifest_raw(&id, ManifestEvent::Log("hi".to_string()));
    assert_eq!(log.kind, DropBoundType::ManifestLog);
    assert_eq!(log.data, vec![0x0a, 2, b'h', b'i']);
    let complete = generate_manifest_raw(&id, ManifestEvent::Complete("{}".to_string()));
    assert_eq!(complete.kind, DropBoundType::ManifestComplete);
    assert_eq!(complete.message_id, "m8");
    assert_eq!(complete.data, vec![0x0a, 2, b'{', b'}']);
}

#[test]
fn a_failed_generation_is_reported() {
    assert!(generate_manifest("m9".to_string(), Ok(())).is_none());
    let reply = generate_manifest("m9".to_string(), Err("bad".to_string())).unwrap();
    assert_eq!(reply.kind, DropBoundType::RpcError);
    assert_eq!(reply.message_id, "m9");
    assert_eq!(reply.data, b"bad".to_vec());
    let same = call_rpc("m9".to_string(), Err("bad".to_string()));
    assert_eq!((reply.kind, reply.message_id, reply.data), (same.kind, same.message_id, same.data));
    let empty = generate_manifest("m9".to_string(), Err(String::new())).unwrap();
    assert_eq!(empty.kind, DropBoundType::RpcError);
    assert_eq!(empty.data, Vec::<u8>::new());
}

#[test]
fn readers_default_to_half_the_cores() {
    assert_eq!(reader_permits(None, 8), 4);
    assert_eq!(reader_permits(None, 1), 0);
    assert_eq!(reader_permits(None, 7), 3);
    assert_eq!(reader_permits(Some(3), 8), 3);
    assert_eq!(reader_permits(Some(0), 8), 0);
}
