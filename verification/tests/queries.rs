use torrential::error::{ErrorOption, Status};
use torrential::remote::LibraryBackend;
use torrential::server::download::{
    fetch_instance_games, fetch_version_data, library_backend, read_chunk, read_file_entry,
    read_manifest, read_server_games, read_source, read_version_response, server_games_query,
    version_query, version_response_body,
};
use torrential::server::ServerError;
use torrential::wire::field::{encode_fields, Field, FieldValue};

fn text(number: u32, value: &str) -> Field {
    Field { number, value: FieldValue::Bytes(value.as_bytes().to_vec()) }
}

fn bytes(number: u32, value: Vec<u8>) -> Field {
    Field { number, value: FieldValue::Bytes(value) }
}

fn uint(number: u32, value: u64) -> Field {
    Field { number, value: FieldValue::Varint(value) }
}

fn file_entry(name: &str, start: u64, length: u64, permissions: u64) -> Vec<u8> {
    encode_fields(&vec![text(1, name), uint(2, start), uint(3, length), uint(4, permissions)])
}

fn chunk(iv: Vec<u8>, files: Vec<Vec<u8>>) -> Vec<u8> {
    let mut fields: Vec<Field> = files.into_iter().map(|file| bytes(1, file)).collect();
    fields.push(text(2, "sum"));
    fields.push(bytes(3, iv));
    encode_fields(&fields)
}

fn manifest_bytes(key: Vec<u8>, iv: Vec<u8>) -> Vec<u8> {
    let c1 = chunk(iv.clone(), vec![file_entry("data.bin", 0, 16, 0o644)]);
    let c2 = chunk(iv, vec![file_entry("a.bin", 2, 3, 0), file_entry("b.bin", 0, 5, 0)]);
    encode_fields(&vec![
        text(1, "2"),
        bytes(2, encode_fields(&vec![text(1, "c1"), bytes(2, c1)])),
        bytes(2, encode_fields(&vec![text(1, "c2"), bytes(2, c2)])),
        uint(3, 24),
        bytes(4, key),
    ])
}

fn response_bytes(backend: u64, key: Vec<u8>) -> Vec<u8> {
    let source = encode_fields(&vec![
        text(1, "{\"baseDir\":\"/srv\"}"),
        text(2, "lib1"),
        uint(3, backend),
    ]);
    encode_fields(&vec![
        bytes(1, manifest_bytes(key, vec![3; 16])),
        bytes(2, source),
        text(3, "game"),
        text(4, "v1"),
    ])
}

#[test]
fn a_version_query_names_the_version() {
    assert_eq!(version_query("v1"), vec![0x0a, 2, b'v', b'1']);
    assert_eq!(version_query(""), Vec::<u8>::new());
    assert_eq!(server_games_query(), Vec::<u8>::new());
}

#[test]
fn a_file_entry_is_read() {
    let entry = read_file_entry(&file_entry("data.bin", 5, 16, 0o755)).unwrap();
    assert_eq!(entry.filename, "data.bin");
    assert_eq!((entry.start, entry.length, entry.permissions), (5, 16, 0o755));
    let empty = read_file_entry(&[]).unwrap();
    assert_eq!(empty.filename, "");
    assert_eq!((empty.start, empty.length, empty.permissions), (0, 0, 0));
    assert!(read_file_entry(&file_entry("f", 0, 0, 1 << 32)).is_none());
    assert!(read_file_entry(&[0x0a, 1, 0xff]).is_none());
    assert!(read_file_entry(&[0x0a]).is_none());
}

#[test]
fn a_chunk_is_read_with_its_files_in_order() {
    let read = read_chunk(&chunk(
        vec![1; 16],
        vec![file_entry("a.bin", 2, 3, 0), file_entry("b.bin", 0, 5, 0)],
    ))
    .unwrap();
    assert_eq!(read.files.len(), 2);
    assert_eq!(read.files[0].filename, "a.bin");
    assert_eq!(read.files[1].filename, "b.bin");
    assert_eq!(read.checksum, "sum");
    assert_eq!(read.iv, vec![1; 16]);
    assert!(read_chunk(&chunk(vec![1; 16], vec![vec![0x0a]])).is_none());
}

#[test]
fn a_manifest_is_read() {
    let read = read_manifest(&manifest_bytes(vec![9; 16], vec![3; 16])).unwrap();
    assert_eq!(read.version, "2");
    assert_eq!(read.size, 24);
    assert_eq!(read.key, vec![9; 16]);
    assert_eq!(read.chunks.len(), 2);
    assert_eq!(read.chunks[0].0, "c1");
    assert_eq!(read.chunks[1].0, "c2");
    assert_eq!(read.chunks[1].1.files.len(), 2);
    assert!(read_manifest(&[0x12, 2, 0x12, 5]).is_none());
}

#[test]
fn a_source_is_read() {
    let source = read_source(&encode_fields(&vec![text(1, "{}"), text(2, "id"), uint(3, 1)]))
        .unwrap();
    assert_eq!(source.options, "{}");
    assert_eq!(source.id, "id");
    assert_eq!(source.backend, 1);
    assert!(read_source(&encode_fields(&vec![uint(3, 1 << 40)])).is_none());
}

#[test]
fn layouts_have_their_numbers() {
    assert_eq!(library_backend(0), Some(LibraryBackend::Filesystem));
    assert_eq!(library_backend(1), Some(LibraryBackend::FlatFilesystem));
    assert_eq!(library_backend(2), None);
}

#[test]
fn a_version_response_is_read_and_put_in_shape() {
    let response = read_version_response(&response_bytes(1, vec![9; 16])).unwrap();
    assert_eq!(response.library_path, "game");
    assert_eq!(response.version_path, "v1");
    assert_eq!(response.source.options, "{\"baseDir\":\"/srv\"}");
    let body = version_response_body(response, "/srv".to_string()).unwrap();
    assert_eq!(body.library.base_dir, "/srv");
    assert_eq!(body.library.id, "lib1");
    assert_eq!(body.library.backend, LibraryBackend::FlatFilesystem);
    assert_eq!(body.manifest.key, [9; 16]);
    assert_eq!(body.manifest.chunk("c1").unwrap().iv, [3; 16]);
    assert_eq!(body.manifest.chunk("c2").unwrap().files[1].length, 5);
}

#[test]
fn an_unknown_layout_gives_no_body() {
    let response = read_version_response(&response_bytes(7, vec![9; 16])).unwrap();
    assert!(version_response_body(response, "/srv".to_string()).is_none());
}

#[test]
fn version_data_is_fetched_from_a_reply() {
    let fetched = fetch_version_data(Ok(response_bytes(0, vec![9; 16]))).ok().unwrap();
    assert_eq!(fetched.source.backend, 0);
    match fetch_version_data(Ok(vec![0x0a])) {
        Err(ErrorOption::Failure(text)) => {
            assert_eq!(text, "response didn't deserialize correctly")
        }
        _ => panic!("expected a failure"),
    }
    match fetch_version_data(Err(ServerError::Remote("no such version".to_string()))) {
        Err(error) => {
            assert_eq!(error.status(), Status::InternalServerError);
            match error {
                ErrorOption::Failure(text) => assert_eq!(text, "no such version"),
                _ => panic!("expected a failure"),
            }
        }
        Ok(_) => panic!("expected a failure"),
    }
    assert!(fetch_version_data(Err(ServerError::Transport)).is_err());
}

fn games_bytes() -> Vec<u8> {
    let g1 = encode_fields(&vec![
        text(1, "g1"),
        bytes(2, encode_fields(&vec![text(1, "v1")])),
        bytes(2, Vec::new()),
        bytes(2, encode_fields(&vec![text(1, "v3")])),
    ]);
    let g2 = encode_fields(&vec![text(1, "g2")]);
    encode_fields(&vec![bytes(1, g1), bytes(1, g2)])
}

#[test]
fn the_games_of_the_instance_are_read() {
    let games = read_server_games(&games_bytes()).unwrap();
    assert_eq!(games.len(), 2);
    assert_eq!(games[0].id, "g1");
    let versions: Vec<&str> =
        games[0].versions.iter().map(|version| version.version_id.as_str()).collect();
    assert_eq!(versions, vec!["v1", "", "v3"]);
    assert_eq!(games[1].id, "g2");
    assert_eq!(games[1].versions.len(), 0);
    assert_eq!(read_server_games(&[]).unwrap().len(), 0);
    assert!(read_server_games(&[0x0a, 2, 0x0a, 7]).is_none());
}

#[test]
fn the_games_are_fetched_from_a_reply() {
    assert_eq!(fetch_instance_games(Ok(games_bytes())).ok().unwrap().len(), 2);
    match fetch_instance_games(Ok(vec![0x0a])) {
        Err(ErrorOption::Failure(text)) => {
            assert_eq!(text, "response didn't deserialize correctly")
        }
        _ => panic!("expected a failure"),
    }
    match fetch_instance_games(Err(ServerError::NoResponse)) {
        Err(ErrorOption::Failure(text)) => assert_eq!(text, "no response returned for value"),
        _ => panic!("expected a failure"),
    }
}
