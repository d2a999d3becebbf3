use torrential::cipher::{encrypt_chunk, CipherStage};
use torrential::download::{create_download_context, BackendProbe, DownloadContext};
use torrential::error::{ErrorOption, Status};
use torrential::handlers::{invalidate, InvalidateBody};
use torrential::manifest::{ChunkData, FileEntry, Manifest};
use torrential::remote::{LibraryBackend, LibrarySource, VersionResponseBody};
use torrential::serve::{
    complete_build, get_file_reader, get_or_create_context, lookup_chunk, serve_file, ContextStep,
    ServeStep,
};
use torrential::state::AppState;
use torrential::token::{set_token, TokenPayload};

const KEY: [u8; 16] = [
    0x00, 0x11, 0x22, 0x33, 0x44, 0x55, 0x66, 0x77, 0x88, 0x99, 0xaa, 0xbb, 0xcc, 0xdd, 0xee, 0xff,
];
const IV: [u8; 16] = [
    0x0f, 0x0e, 0x0d, 0x0c, 0x0b, 0x0a, 0x09, 0x08, 0x07, 0x06, 0x05, 0x04, 0x03, 0x02, 0x01, 0x00,
];

fn manifest() -> Manifest {
    let mut manifest = Manifest::new("2".to_string(), 24, KEY);
    manifest.insert_chunk(
        "c1".to_string(),
        ChunkData {
            files: vec![FileEntry {
                filename: "data.bin".to_string(),
                start: 0,
                length: 16,
                permissions: 0,
            }],
            checksum: String::new(),
            iv: IV,
        },
    );
    manifest.insert_chunk(
        "c2".to_string(),
        ChunkData {
            files: vec![
                FileEntry { filename: "a.bin".to_string(), start: 2, length: 3, permissions: 0 },
                FileEntry { filename: "b.bin".to_string(), start: 0, length: 5, permissions: 0 },
            ],
            checksum: String::new(),
            iv: [7; 16],
        },
    );
    manifest
}

fn build(now: u64) -> Result<DownloadContext, ErrorOption> {
    create_download_context(
        VersionResponseBody {
            manifest: manifest(),
            library: LibrarySource {
                base_dir: "/lib".to_string(),
                id: "l".to_string(),
                backend: LibraryBackend::Filesystem,
            },
            library_path: "g1".to_string(),
            version_path: "v1".to_string(),
        },
        BackendProbe::Ready,
        now,
    )
}

fn ready_state() -> AppState {
    let mut state = AppState::new();
    set_token(&mut state, TokenPayload { key: "k".to_string() }).unwrap();
    state
}

fn read_file(name: &str) -> &'static [u8] {
    match name {
        "data.bin" => b"HELLO WORLD!!!!!",
        "a.bin" => b"ABCDEF",
        "b.bin" => b"12345",
        _ => panic!("no such file"),
    }
}

/// Serves one chunk the way the service does: plan, read each range, push
/// the pieces through a cipher stage.
fn respond(state: &mut AppState, chunk_id: &str, now: u64) -> Result<(u64, Vec<u8>), Status> {
    match serve_file(state, "g1", "v1", chunk_id, 1024, false, now) {
        ServeStep::Respond(Ok(plan)) => {
            let pieces: Vec<Vec<u8>> = plan
                .reads
                .iter()
                .map(|read| {
                    read_file(&read.filename)[read.start as usize..read.end as usize].to_vec()
                })
                .collect();
            let mut stage = CipherStage::new(plan.key, plan.iv);
            let body = stage.encrypt_group(&pieces).unwrap();
            Ok((plan.content_length, body))
        }
        ServeStep::Respond(Err(status)) => Err(status),
        other => panic!("context is missing: {:?}", other),
    }
}

#[test]
fn single_file_chunk_happy_path() {
    let mut state = ready_state();
    assert!(complete_build(&mut state, "g1".to_string(), "v1".to_string(), build(0)).is_none());
    let (content_length, body) = respond(&mut state, "c1", 1).unwrap();
    assert_eq!(content_length, 16);
    assert_eq!(body.len(), 16);
    assert_eq!(body, encrypt_chunk(&KEY, &IV, b"HELLO WORLD!!!!!".to_vec()));
    assert_eq!(
        body,
        vec![
            0x7a, 0x7b, 0x3a, 0x7d, 0x1c, 0x62, 0x71, 0x0e, 0x02, 0xc9, 0x8a, 0xab, 0x6e, 0xca,
            0x02, 0x9a
        ]
    );
}

#[test]
fn multi_file_chunk_ordered_concatenation() {
    let mut state = ready_state();
    complete_build(&mut state, "g1".to_string(), "v1".to_string(), build(0));
    let (content_length, body) = respond(&mut state, "c2", 1).unwrap();
    assert_eq!(content_length, 8);
    assert_eq!(body.len(), 8);
    assert_eq!(encrypt_chunk(&KEY, &[7; 16], body), b"CDE12345".to_vec());
}

#[test]
fn unknown_chunk_is_404() {
    let mut state = ready_state();
    complete_build(&mut state, "g1".to_string(), "v1".to_string(), build(0));
    assert_eq!(respond(&mut state, "nope", 1).unwrap_err(), Status::NotFound);
    assert_eq!(Status::NotFound.code(), 404);
}

#[test]
fn too_many_files_is_507() {
    let mut state = ready_state();
    complete_build(&mut state, "g1".to_string(), "v1".to_string(), build(0));
    match serve_file(&mut state, "g1", "v1", "c2", 2, false, 1) {
        ServeStep::Respond(Err(status)) => {
            assert_eq!(status, Status::InsufficientStorage);
            assert_eq!(status.code(), 507);
        }
        other => panic!("expected a 507, got {:?}", other),
    }
}

#[test]
fn before_the_token_everything_is_503() {
    let mut state = AppState::new();
    match serve_file(&mut state, "g1", "v1", "c1", 1024, false, 0) {
        ServeStep::Respond(Err(status)) => assert_eq!(status, Status::ServiceUnavailable),
        other => panic!("expected a 503, got {:?}", other),
    }
    assert_eq!(get_or_create_context(&mut state, "g1", "v1", false, 0), ContextStep::Unavailable);
    assert_eq!(get_or_create_context(&mut state, "g1", "v1", true, 0), ContextStep::Unavailable);
}

#[test]
fn ten_requests_one_build() {
    let mut state = ready_state();
    let mut builds = 0;
    let mut waiting = Vec::new();
    // All ten look before any of them has the permit.
    for request in 0..10 {
        assert_eq!(
            get_or_create_context(&mut state, "g1", "v1", false, 0),
            ContextStep::AcquirePermit
        );
        waiting.push(request);
    }
    // The permit goes from one to the next; each looks again with it in hand.
    for _ in waiting {
        match get_or_create_context(&mut state, "g1", "v1", true, 1) {
            ContextStep::Build => {
                builds += 1;
                assert!(complete_build(&mut state, "g1".to_string(), "v1".to_string(), build(1))
                    .is_none());
            }
            ContextStep::Ready => {}
            other => panic!("unexpected step {:?}", other),
        }
        let (_, body) = respond(&mut state, "c1", 2).unwrap();
        assert_eq!(body, encrypt_chunk(&KEY, &IV, b"HELLO WORLD!!!!!".to_vec()));
    }
    assert_eq!(builds, 1);
}

#[test]
fn eviction_after_the_time_to_live_leads_to_a_new_build() {
    let mut state = ready_state();
    complete_build(&mut state, "g1".to_string(), "v1".to_string(), build(0));
    assert!(respond(&mut state, "c1", 10).is_ok());
    state.context_cache.sweep(10 + 601);
    assert!(!state.context_cache.contains("g1", "v1"));
    assert_eq!(
        get_or_create_context(&mut state, "g1", "v1", false, 612),
        ContextStep::AcquirePermit
    );
    assert_eq!(get_or_create_context(&mut state, "g1", "v1", true, 612), ContextStep::Build);
}

#[test]
fn a_request_records_its_use() {
    let mut state = ready_state();
    complete_build(&mut state, "g1".to_string(), "v1".to_string(), build(0));
    assert!(respond(&mut state, "c1", 500).is_ok());
    state.context_cache.sweep(700);
    assert!(state.context_cache.contains("g1", "v1"));
    assert_eq!(get_or_create_context(&mut state, "g1", "v1", false, 900), ContextStep::Ready);
    state.context_cache.sweep(1400);
    assert!(state.context_cache.contains("g1", "v1"));
    state.context_cache.sweep(1500);
    assert!(!state.context_cache.contains("g1", "v1"));
}

#[test]
fn invalidation_leaves_a_plan_in_hand_and_leads_to_a_rebuild() {
    let mut state = ready_state();
    complete_build(&mut state, "g1".to_string(), "v1".to_string(), build(0));
    let plan = match serve_file(&mut state, "g1", "v1", "c2", 1024, false, 1) {
        ServeStep::Respond(Ok(plan)) => plan,
        other => panic!("expected a plan, got {:?}", other),
    };
    invalidate(&mut state, &InvalidateBody { game: "g1".to_string(), version: "v1".to_string() });
    // The request that is under way goes on with what it holds.
    assert_eq!(plan.reads.len(), 2);
    assert_eq!(plan.content_length, 8);
    let mut stage = CipherStage::new(plan.key, plan.iv);
    let body = stage.encrypt_group(&vec![b"CDE".to_vec(), b"12345".to_vec()]).unwrap();
    assert_eq!(encrypt_chunk(&KEY, &[7; 16], body), b"CDE12345".to_vec());
    // The next one builds anew.
    assert!(matches!(
        serve_file(&mut state, "g1", "v1", "c2", 1024, false, 2),
        ServeStep::AcquirePermit
    ));
    assert!(matches!(serve_file(&mut state, "g1", "v1", "c2", 1024, true, 2), ServeStep::Build));
}

#[test]
fn a_failed_build_files_nothing_and_answers_with_its_status() {
    let mut state = ready_state();
    let failed = complete_build(
        &mut state,
        "g1".to_string(),
        "v1".to_string(),
        Err(ErrorOption::Status(Status::NotFound)),
    );
    assert_eq!(failed, Some(Status::NotFound));
    let failed = complete_build(
        &mut state,
        "g1".to_string(),
        "v1".to_string(),
        Err(ErrorOption::Failure("upstream".to_string())),
    );
    assert_eq!(failed, Some(Status::InternalServerError));
    assert!(!state.context_cache.contains("g1", "v1"));
}

#[test]
fn a_chunk_is_looked_up_in_the_context() {
    let context = build(0).ok().unwrap();
    let chunk = lookup_chunk("c2", &context).unwrap();
    assert_eq!(chunk.files.len(), 2);
    assert_eq!(chunk.files[1].filename, "b.bin");
    assert_eq!(chunk.iv, [7; 16]);
    assert_eq!(lookup_chunk("nope", &context).unwrap_err(), Status::NotFound);
}

#[test]
fn a_read_runs_from_start_to_start_plus_length() {
    let entry = FileEntry { filename: "f".to_string(), start: 10, length: 5, permissions: 7 };
    let read = get_file_reader(&entry).unwrap();
    assert_eq!((read.filename.as_str(), read.start, read.end), ("f", 10, 15));
    let edge = FileEntry { filename: "f".to_string(), start: u64::MAX - 1, length: 1, permissions: 0 };
    assert_eq!(get_file_reader(&edge).unwrap().end, u64::MAX);
    let over = FileEntry { filename: "f".to_string(), start: u64::MAX, length: 1, permissions: 0 };
    assert!(get_file_reader(&over).is_none());
}
