use torrential::error::Status;
use torrential::manifest::{ChunkData, FileEntry, Manifest};
use torrential::serve::plan_chunk;

fn sample_manifest() -> Manifest {
    let key: [u8; 16] = [
        0x00, 0x11, 0x22, 0x33, 0x44, 0x55, 0x66, 0x77, 0x88, 0x99, 0xaa, 0xbb, 0xcc, 0xdd, 0xee,
        0xff,
    ];
    let mut manifest = Manifest::new("2".to_string(), 24, key);
    manifest.insert_chunk(
        "c1".to_string(),
        ChunkData {
            files: vec![FileEntry {
                filename: "data.bin".to_string(),
                start: 0,
                length: 16,
                permissions: 0o644,
            }],
            checksum: String::new(),
            iv: [
                0x0f, 0x0e, 0x0d, 0x0c, 0x0b, 0x0a, 0x09, 0x08, 0x07, 0x06, 0x05, 0x04, 0x03,
                0x02, 0x01, 0x00,
            ],
        },
    );
    manifest.insert_chunk(
        "c2".to_string(),
        ChunkData {
            files: vec![
                FileEntry { filename: "a.bin".to_string(), start: 2, length: 3, permissions: 0 },
                FileEntry { filename: "b.bin".to_string(), start: 0, length: 5, permissions: 0 },
            ],
            checksum: String::new(),
            iv: [7; 16],
        },
    );
    manifest
}

#[test]
fn plan_single_file_chunk() {
    let manifest = sample_manifest();
    let plan = plan_chunk(&manifest, "c1", 1024).unwrap();
    assert_eq!(plan.content_length, 16);
    assert_eq!(plan.permits, 1);
    assert_eq!(plan.reads.len(), 1);
    assert_eq!(plan.reads[0].filename, "data.bin");
    assert_eq!(plan.reads[0].start, 0);
    assert_eq!(plan.reads[0].end, 16);
    assert_eq!(plan.key, manifest.key);
    assert_eq!(plan.iv[0], 0x0f);
}

#[test]
fn plan_multi_file_chunk_in_order() {
    let manifest = sample_manifest();
    let plan = plan_chunk(&manifest, "c2", 1024).unwrap();
    assert_eq!(plan.content_length, 8);
    assert_eq!(plan.permits, 2);
    assert_eq!(plan.reads[0].filename, "a.bin");
    assert_eq!((plan.reads[0].start, plan.reads[0].end), (2, 5));
    assert_eq!(plan.reads[1].filename, "b.bin");
    assert_eq!((plan.reads[1].start, plan.reads[1].end), (0, 5));
}

#[test]
fn plan_unknown_chunk_is_not_found() {
    let manifest = sample_manifest();
    assert_eq!(plan_chunk(&manifest, "nope", 1024).unwrap_err(), Status::NotFound);
}

#[test]
fn plan_refuses_chunk_at_capacity() {
    let manifest = sample_manifest();
    assert_eq!(plan_chunk(&manifest, "c2", 2).unwrap_err(), Status::InsufficientStorage);
    assert_eq!(plan_chunk(&manifest, "c2", 1).unwrap_err(), Status::InsufficientStorage);
    assert!(plan_chunk(&manifest, "c2", 3).is_ok());
}

#[test]
fn plan_refuses_ranges_that_overflow() {
    let mut manifest = sample_manifest();
    manifest.insert_chunk(
        "wide".to_string(),
        ChunkData {
            files: vec![FileEntry {
                filename: "a.bin".to_string(),
                start: u64::MAX,
                length: 1,
                permissions: 0,
            }],
            checksum: String::new(),
            iv: [0; 16],
        },
    );
    manifest.insert_chunk(
        "long".to_string(),
        ChunkData {
            files: vec![
                FileEntry { filename: "a.bin".to_string(), start: 0, length: u64::MAX, permissions: 0 },
                FileEntry { filename: "b.bin".to_string(), start: 0, length: 1, permissions: 0 },
            ],
            checksum: String::new(),
            iv: [0; 16],
        },
    );
    assert_eq!(plan_chunk(&manifest, "wide", 8).unwrap_err(), Status::InternalServerError);
    assert_eq!(plan_chunk(&manifest, "long", 8).unwrap_err(), Status::InternalServerError);
}
