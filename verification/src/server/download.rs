//! Queries to the control plane over the upstream channel: the version query
//! that a context is built from, and the listing of the instance's games.

use vstd::prelude::*;
use crate::conversions::{
    WireChunkData, WireManifest, WireManifestView, convert_protobuf_manifest, converted_manifest,
    entry_views, fixed_lengths,
};
use crate::error::ErrorOption;
use crate::manifest::{ChunkDataView, FileEntry, FileEntryView, file_views};
use crate::remote::{
    ErrorView, LibraryBackend, LibrarySource, SkeletonGame, SkeletonVersion, VersionResponseBody,
    error_view,
};
use crate::server::ServerError;
use crate::wire::field::{Field, FieldView, decode_fields, encode_fields, field_views, fields_bytes, parsed_fields};
use crate::wire::message::{
    all_bytes, byte_views, bytes_of, find_all_bytes, find_bytes, find_text, find_varint,
    lemma_parsed_all_prefix, lemma_parsed_all_step, parsed_all, push_text, text_field, text_of,
    uint_of,
};

verus! {

/// In a version query, the field that holds the id of the version.
pub const VERSION_ID: u32 = 1;

/// The payload of a version query.
pub open spec fn version_query_bytes(version_id: Seq<char>) -> Seq<u8> {
    fields_bytes(text_field(VERSION_ID, version_id))
}

/// Builds the payload of the query for the version `version_id`.
pub fn version_query(version_id: &str) -> (payload: Vec<u8>)
    ensures
        payload@ == version_query_bytes(version_id@),
{
    let mut fields: Vec<Field> = Vec::new();
    proof {
        assert(field_views(fields@) =~= Seq::<FieldView>::empty());
    }
    push_text(&mut fields, VERSION_ID, version_id);
    proof {
        assert(field_views(fields@) =~= text_field(VERSION_ID, version_id@));
    }
    encode_fields(&fields)
}

/// The payload of the query for the games of the instance: nothing.
pub fn server_games_query() -> (payload: Vec<u8>)
    ensures
        payload@ == Seq::<u8>::empty(),
{
    Vec::new()
}

/// The file entry that `bytes` hold: name under 1, start under 2, length
/// under 3, permissions under 4.
pub open spec fn parsed_file_entry(bytes: Seq<u8>) -> Option<FileEntryView> {
    match parsed_fields(bytes) {
        None => None,
        Some(fields) => match text_of(fields, 1) {
            Some(filename) if uint_of(fields, 4) <= u32::MAX => Some(
                FileEntryView {
                    filename,
                    start: uint_of(fields, 2),
                    length: uint_of(fields, 3),
                    permissions: uint_of(fields, 4) as u32,
                },
            ),
            _ => None,
        },
    }
}

/// `parsed_file_entry` as a value.
pub open spec fn file_entry_parser() -> spec_fn(Seq<u8>) -> Option<FileEntryView> {
    |bytes: Seq<u8>| parsed_file_entry(bytes)
}

/// The chunk that `bytes` hold: files under 1, checksum under 2, IV under 3.
pub open spec fn parsed_chunk(bytes: Seq<u8>) -> Option<ChunkDataView> {
    match parsed_fields(bytes) {
        None => None,
        Some(fields) => match (
            parsed_all(all_bytes(fields, 1), file_entry_parser()),
            text_of(fields, 2),
        ) {
            (Some(files), Some(checksum)) => Some(
                ChunkDataView { files, checksum, iv: bytes_of(fields, 3) },
            ),
            _ => None,
        },
    }
}

/// The manifest entry that `bytes` hold: the chunk's id under 1, the chunk
/// under 2.
pub open spec fn parsed_chunk_entry(bytes: Seq<u8>) -> Option<(Seq<char>, ChunkDataView)> {
    match parsed_fields(bytes) {
        None => None,
        Some(fields) => match (text_of(fields, 1), parsed_chunk(bytes_of(fields, 2))) {
            (Some(id), Some(chunk)) => Some((id, chunk)),
            _ => None,
        },
    }
}

/// `parsed_chunk_entry` as a value.
pub open spec fn chunk_entry_parser() -> spec_fn(Seq<u8>) -> Option<(Seq<char>, ChunkDataView)> {
    |bytes: Seq<u8>| parsed_chunk_entry(bytes)
}

/// The manifest that `bytes` hold: version under 1, entries under 2, size
/// under 3, key under 4.
pub open spec fn parsed_manifest(bytes: Seq<u8>) -> Option<WireManifestView> {
    match parsed_fields(bytes) {
        None => None,
        Some(fields) => match (
            text_of(fields, 1),
            parsed_all(all_bytes(fields, 2), chunk_entry_parser()),
        ) {
            (Some(version), Some(chunks)) => Some(
                WireManifestView {
                    version,
                    chunks,
                    size: uint_of(fields, 3),
                    key: bytes_of(fields, 4),
                },
            ),
            _ => None,
        },
    }
}

/// The library of a version as it travels.
#[derive(Debug)]
pub struct WireSource {
    /// The options of the library, as JSON.
    pub options: String,
    pub id: String,
    /// The wire number of the layout of the library.
    pub backend: u32,
}

/// What a `WireSource` stands for in contracts.
pub struct WireSourceView {
    pub options: Seq<char>,
    pub id: Seq<char>,
    pub backend: u32,
}

impl View for WireSource {
    type V = WireSourceView;

    open spec fn view(&self) -> WireSourceView {
        WireSourceView { options: self.options@, id: self.id@, backend: self.backend }
    }
}

/// The library that `bytes` hold: options under 1, id under 2, layout under 3.
pub open spec fn parsed_source(bytes: Seq<u8>) -> Option<WireSourceView> {
    match parsed_fields(bytes) {
        None => None,
        Some(fields) => match (text_of(fields, 1), text_of(fields, 2)) {
            (Some(options), Some(id)) if uint_of(fields, 3) <= u32::MAX => Some(
                WireSourceView { options, id, backend: uint_of(fields, 3) as u32 },
            ),
            _ => None,
        },
    }
}

/// The layout that a wire number stands for.
pub open spec fn spec_library_backend(code: u32) -> Option<LibraryBackend> {
    if code == 0 {
        Some(LibraryBackend::Filesystem)
    } else if code == 1 {
        Some(LibraryBackend::FlatFilesystem)
    } else {
        None
    }
}

/// The layout that `code` stands for, if it stands for one.
pub fn library_backend(code: u32) -> (backend: Option<LibraryBackend>)
    ensures
        backend == spec_library_backend(code),
{
    match code {
        0 => Some(LibraryBackend::Filesystem),
        1 => Some(LibraryBackend::FlatFilesystem),
        _ => None,
    }
}

/// The answer to a version query as it travels.
#[derive(Debug)]
pub struct VersionResponse {
    pub manifest: WireManifest,
    pub source: WireSource,
    pub library_path: String,
    pub version_path: String,
}

/// What a `VersionResponse` stands for in contracts.
pub struct VersionResponseView {
    pub manifest: WireManifestView,
    pub source: WireSourceView,
    pub library_path: Seq<char>,
    pub version_path: Seq<char>,
}

impl View for VersionResponse {
    type V = VersionResponseView;

    open spec fn view(&self) -> VersionResponseView {
        VersionResponseView {
            manifest: self.manifest@,
            source: self.source@,
            library_path: self.library_path@,
            version_path: self.version_path@,
        }
    }
}

/// The answer that `bytes` hold: manifest under 1, library under 2, the
/// game's directory under 3, the version's directory under 4.
pub open spec fn parsed_version_response(bytes: Seq<u8>) -> Option<VersionResponseView> {
    match parsed_fields(bytes) {
        None => None,
        Some(fields) => match (
            parsed_manifest(bytes_of(fields, 1)),
            parsed_source(bytes_of(fields, 2)),
            text_of(fields, 3),
            text_of(fields, 4),
        ) {
            (Some(manifest), Some(source), Some(library_path), Some(version_path)) => Some(
                VersionResponseView { manifest, source, library_path, version_path },
            ),
            _ => None,
        },
    }
}

/// The bytes filed under `number`, or none.
fn bytes_or_empty(fields: &Vec<Field>, number: u32) -> (bytes: Vec<u8>)
    ensures
        bytes@ == bytes_of(field_views(fields@), number),
{
    match find_bytes(fields, number) {
        Some(bytes) => bytes,
        None => Vec::new(),
    }
}

/// The integer filed under `number`, or zero.
fn uint_or_zero(fields: &Vec<Field>, number: u32) -> (value: u64)
    ensures
        value == uint_of(field_views(fields@), number),
{
    match find_varint(fields, number) {
        Some(value) => value,
        None => 0,
    }
}

/// Reads a file entry.
pub fn read_file_entry(bytes: &[u8]) -> (entry: Option<FileEntry>)
    ensures
        match entry {
            Some(entry) => parsed_file_entry(bytes@) == Some(entry@),
            None => parsed_file_entry(bytes@) is None,
        },
{
    let fields = match decode_fields(bytes) {
        Some(fields) => fields,
        None => {
            return None;
        },
    };
    let filename = match find_text(&fields, 1) {
        Some(filename) => filename,
        None => {
            return None;
        },
    };
    let permissions: u64 = uint_or_zero(&fields, 4);
    if permissions > u32::MAX as u64 {
        return None;
    }
    Some(
        FileEntry {
            filename,
            start: uint_or_zero(&fields, 2),
            length: uint_or_zero(&fields, 3),
            permissions: permissions as u32,
        },
    )
}

/// Reads a run of file entries.
fn read_file_entries(items: &Vec<Vec<u8>>) -> (entries: Option<Vec<FileEntry>>)
    ensures
        match entries {
            Some(entries) => parsed_all(byte_views(items@), file_entry_parser()) == Some(
                file_views(entries@),
            ),
            None => parsed_all(byte_views(items@), file_entry_parser()) is None,
        },
{
    let ghost views = byte_views(items@);
    let mut entries: Vec<FileEntry> = Vec::new();
    let mut i: usize = 0;
    proof {
        assert(file_views(entries@) =~= Seq::<FileEntryView>::empty());
    }
    while i < items.len()
        invariant
            i <= items.len(),
            views == byte_views(items@),
            parsed_all(views.take(i as int), file_entry_parser()) == Some(file_views(entries@)),
        decreases items.len() - i,
    {
        proof {
            lemma_parsed_all_step(views, file_entry_parser(), i as int);
        }
        match read_file_entry(items[i].as_slice()) {
            None => {
                proof {
                    lemma_parsed_all_prefix(views, file_entry_parser(), i + 1);
                }
                return None;
            },
            Some(entry) => {
                let ghost before = entries@;
                let ghost view = entry@;
                entries.push(entry);
                proof {
                    assert(file_views(entries@) =~= file_views(before).push(view));
                }
            },
        }
        i += 1;
    }
    proof {
        assert(views.take(i as int) =~= views);
    }
    Some(entries)
}

/// Reads a chunk.
pub fn read_chunk(bytes: &[u8]) -> (chunk: Option<WireChunkData>)
    ensures
        match chunk {
            Some(chunk) => parsed_chunk(bytes@) == Some(chunk@),
            None => parsed_chunk(bytes@) is None,
        },
{
    let fields = match decode_fields(bytes) {
        Some(fields) => fields,
        None => {
            return None;
        },
    };
    let items = find_all_bytes(&fields, 1);
    let files = match read_file_entries(&items) {
        Some(files) => files,
        None => {
            return None;
        },
    };
    let checksum = match find_text(&fields, 2) {
        Some(checksum) => checksum,
        None => {
            return None;
        },
    };
    Some(WireChunkData { files, checksum, iv: bytes_or_empty(&fields, 3) })
}

/// Reads one entry of a manifest.
pub fn read_chunk_entry(bytes: &[u8]) -> (entry: Option<(String, WireChunkData)>)
    ensures
        match entry {
            Some(entry) => parsed_chunk_entry(bytes@) == Some((entry.0@, entry.1@)),
            None => parsed_chunk_entry(bytes@) is None,
        },
{
    let fields = match decode_fields(bytes) {
        Some(fields) => fields,
        None => {
            return None;
        },
    };
    let id = match find_text(&fields, 1) {
        Some(id) => id,
        None => {
            return None;
        },
    };
    let body = bytes_or_empty(&fields, 2);
    match read_chunk(body.as_slice()) {
        Some(chunk) => Some((id, chunk)),
        None => None,
    }
}

/// Reads the entries of a manifest.
fn read_chunk_entries(items: &Vec<Vec<u8>>) -> (entries: Option<Vec<(String, WireChunkData)>>)
    ensures
        match entries {
            Some(entries) => parsed_all(byte_views(items@), chunk_entry_parser()) == Some(
                entry_views(entries@),
            ),
            None => parsed_all(byte_views(items@), chunk_entry_parser()) is None,
        },
{
    let ghost views = byte_views(items@);
    let mut entries: Vec<(String, WireChunkData)> = Vec::new();
    let mut i: usize = 0;
    proof {
        assert(entry_views(entries@) =~= Seq::<(Seq<char>, ChunkDataView)>::empty());
    }
    while i < items.len()
        invariant
            i <= items.len(),
            views == byte_views(items@),
            parsed_all(views.take(i as int), chunk_entry_parser()) == Some(entry_views(entries@)),
        decreases items.len() - i,
    {
        proof {
            lemma_parsed_all_step(views, chunk_entry_parser(), i as int);
        }
        match read_chunk_entry(items[i].as_slice()) {
            None => {
                proof {
                    lemma_parsed_all_prefix(views, chunk_entry_parser(), i + 1);
                }
                return None;
            },
            Some(entry) => {
                let ghost before = entries@;
                let ghost view = (entry.0@, entry.1@);
                entries.push(entry);
                proof {
                    assert(entry_views(entries@) =~= entry_views(before).push(view));
                }
            },
        }
        i += 1;
    }
    proof {
        assert(views.take(i as int) =~= views);
    }
    Some(entries)
}

/// Reads a manifest.
pub fn read_manifest(bytes: &[u8]) -> (manifest: Option<WireManifest>)
    ensures
        match manifest {
            Some(manifest) => parsed_manifest(bytes@) == Some(manifest@),
            None => parsed_manifest(bytes@) is None,
        },
{
    let fields = match decode_fields(bytes) {
        Some(fields) => fields,
        None => {
            return None;
        },
    };
    let version = match find_text(&fields, 1) {
        Some(version) => version,
        None => {
            return None;
        },
    };
    let items = find_all_bytes(&fields, 2);
    let chunks = match read_chunk_entries(&items) {
        Some(chunks) => chunks,
        None => {
            return None;
        },
    };
    Some(
        WireManifest {
            version,
            chunks,
            size: uint_or_zero(&fields, 3),
            key: bytes_or_empty(&fields, 4),
        },
    )
}

/// Reads the library of a version.
pub fn read_source(bytes: &[u8]) -> (source: Option<WireSource>)
    ensures
        match source {
            Some(source) => parsed_source(bytes@) == Some(source@),
            None => parsed_source(bytes@) is None,
        },
{
    let fields = match decode_fields(bytes) {
        Some(fields) => fields,
        None => {
            return None;
        },
    };
    let options = match find_text(&fields, 1) {
        Some(options) => options,
        None => {
            return None;
        },
    };
    let id = match find_text(&fields, 2) {
        Some(id) => id,
        None => {
            return None;
        },
    };
    let backend: u64 = uint_or_zero(&fields, 3);
    if backend > u32::MAX as u64 {
        return None;
    }
    Some(WireSource { options, id, backend: backend as u32 })
}

/// Reads the answer to a version query.
pub fn read_version_response(bytes: &[u8]) -> (response: Option<VersionResponse>)
    ensures
        match response {
            Some(response) => parsed_version_response(bytes@) == Some(response@),
            None => parsed_version_response(bytes@) is None,
        },
{
    let fields = match decode_fields(bytes) {
        Some(fields) => fields,
        None => {
            return None;
        },
    };
    let manifest_bytes = bytes_or_empty(&fields, 1);
    let manifest = match read_manifest(manifest_bytes.as_slice()) {
        Some(manifest) => manifest,
        None => {
            return None;
        },
    };
    let source_bytes = bytes_or_empty(&fields, 2);
    let source = match read_source(source_bytes.as_slice()) {
        Some(source) => source,
        None => {
            return None;
        },
    };
    let library_path = match find_text(&fields, 3) {
        Some(path) => path,
        None => {
            return None;
        },
    };
    match find_text(&fields, 4) {
        Some(version_path) => Some(VersionResponse { manifest, source, library_path, version_path }),
        None => None,
    }
}

/// Puts the answer to a version query into the shape that contexts are
/// built from: the manifest converted, the library with the base directory
/// that its options name and with its layout. `None` where the number of the
/// layout stands for none.
pub fn version_response_body(response: VersionResponse, base_dir: String) -> (body: Option<
    VersionResponseBody,
>)
    requires
        fixed_lengths(response@.manifest),
    ensures
        match body {
            Some(body) => {
                &&& spec_library_backend(response.source.backend) == Some(body.library.backend)
                &&& body.manifest@ == converted_manifest(response@.manifest)
                &&& body.library.base_dir@ == base_dir@
                &&& body.library.id@ == response.source.id@
                &&& body.library_path@ == response.library_path@
                &&& body.version_path@ == response.version_path@
            },
            None => spec_library_backend(response.source.backend) is None,
        },
{
    let backend = match library_backend(response.source.backend) {
        Some(backend) => backend,
        None => {
            return None;
        },
    };
    Some(
        VersionResponseBody {
            manifest: convert_protobuf_manifest(response.manifest),
            library: LibrarySource { base_dir, id: response.source.id, backend },
            library_path: response.library_path,
            version_path: response.version_path,
        },
    )
}

/// The outcome of a version query as contracts see it.
pub open spec fn version_outcome_view(outcome: Result<VersionResponse, ErrorOption>) -> Result<
    VersionResponseView,
    ErrorView,
> {
    match outcome {
        Ok(response) => Ok(response@),
        Err(error) => Err(error_view(error)),
    }
}

/// The version data that a reply holds: what its payload reads as; a
/// failure that says so where it cannot be read; the failure of the channel
/// in words where there is no reply.
pub open spec fn spec_fetch_version_data(reply: Result<Vec<u8>, ServerError>) -> Result<
    VersionResponseView,
    ErrorView,
> {
    match reply {
        Ok(payload) => match parsed_version_response(payload@) {
            Some(response) => Ok(response),
            None => Err(ErrorView::Failure(ServerError::Malformed.spec_describe())),
        },
        Err(error) => Err(ErrorView::Failure(error.spec_describe())),
    }
}

/// Turns the reply to a version query into the version data, or into the
/// failure to report.
pub fn fetch_version_data(reply: Result<Vec<u8>, ServerError>) -> (outcome: Result<
    VersionResponse,
    ErrorOption,
>)
    ensures
        version_outcome_view(outcome) == spec_fetch_version_data(reply),
{
    match reply {
        Ok(payload) => match read_version_response(payload.as_slice()) {
            Some(response) => Ok(response),
            None => Err(ErrorOption::Failure(ServerError::Malformed.describe())),
        },
        Err(error) => Err(ErrorOption::Failure(error.describe())),
    }
}

/// A game of a listing as contracts see it: its id and the ids of its versions.
pub open spec fn game_view(game: SkeletonGame) -> (Seq<char>, Seq<Seq<char>>) {
    (game.id@, Seq::new(game.versions@.len(), |i: int| game.versions@[i].version_id@))
}

/// The games of a listing as contracts see them.
pub open spec fn game_views(games: Seq<SkeletonGame>) -> Seq<(Seq<char>, Seq<Seq<char>>)> {
    Seq::new(games.len(), |i: int| game_view(games[i]))
}

/// The id of the version that `bytes` hold, under 1.
pub open spec fn parsed_skeleton_version(bytes: Seq<u8>) -> Option<Seq<char>> {
    match parsed_fields(bytes) {
        None => None,
        Some(fields) => text_of(fields, 1),
    }
}

/// `parsed_skeleton_version` as a value.
pub open spec fn skeleton_version_parser() -> spec_fn(Seq<u8>) -> Option<Seq<char>> {
    |bytes: Seq<u8>| parsed_skeleton_version(bytes)
}

/// The game that `bytes` hold: its id under 1, its versions under 2.
pub open spec fn parsed_skeleton_game(bytes: Seq<u8>) -> Option<(Seq<char>, Seq<Seq<char>>)> {
    match parsed_fields(bytes) {
        None => None,
        Some(fields) => match (
            text_of(fields, 1),
            parsed_all(all_bytes(fields, 2), skeleton_version_parser()),
        ) {
            (Some(id), Some(versions)) => Some((id, versions)),
            _ => None,
        },
    }
}

/// `parsed_skeleton_game` as a value.
pub open spec fn skeleton_game_parser() -> spec_fn(Seq<u8>) -> Option<(Seq<char>, Seq<Seq<char>>)> {
    |bytes: Seq<u8>| parsed_skeleton_game(bytes)
}

/// The games that `bytes` hold, under 1.
pub open spec fn parsed_server_games(bytes: Seq<u8>) -> Option<Seq<(Seq<char>, Seq<Seq<char>>)>> {
    match parsed_fields(bytes) {
        None => None,
        Some(fields) => parsed_all(all_bytes(fields, 1), skeleton_game_parser()),
    }
}

/// The ids of a run of versions.
pub open spec fn version_ids(versions: Seq<SkeletonVersion>) -> Seq<Seq<char>> {
    Seq::new(versions.len(), |i: int| versions[i].version_id@)
}

/// Reads the versions of a game.
fn read_skeleton_versions(items: &Vec<Vec<u8>>) -> (versions: Option<Vec<SkeletonVersion>>)
    ensures
        match versions {
            Some(versions) => parsed_all(byte_views(items@), skeleton_version_parser()) == Some(
                version_ids(versions@),
            ),
            None => parsed_all(byte_views(items@), skeleton_version_parser()) is None,
        },
{
    let ghost views = byte_views(items@);
    let mut versions: Vec<SkeletonVersion> = Vec::new();
    let mut i: usize = 0;
    proof {
        assert(version_ids(versions@) =~= Seq::<Seq<char>>::empty());
    }
    while i < items.len()
        invariant
            i <= items.len(),
            views == byte_views(items@),
            parsed_all(views.take(i as int), skeleton_version_parser()) == Some(
                version_ids(versions@),
            ),
        decreases items.len() - i,
    {
        proof {
            lemma_parsed_all_step(views, skeleton_version_parser(), i as int);
        }
        let read = match decode_fields(items[i].as_slice()) {
            Some(fields) => find_text(&fields, 1),
            None => None,
        };
        match read {
            None => {
                proof {
                    lemma_parsed_all_prefix(views, skeleton_version_parser(), i + 1);
                }
                return None;
            },
            Some(version_id) => {
                let ghost before = versions@;
                let ghost view = version_id@;
                versions.push(SkeletonVersion { version_id });
                proof {
                    assert(version_ids(versions@) =~= version_ids(before).push(view));
                }
            },
        }
        i += 1;
    }
    proof {
        assert(views.take(i as int) =~= views);
    }
    Some(versions)
}

/// Reads one game of a listing.
fn read_skeleton_game(bytes: &[u8]) -> (game: Option<SkeletonGame>)
    ensures
        match game {
            Some(game) => parsed_skeleton_game(bytes@) == Some(game_view(game)),
            None => parsed_skeleton_game(bytes@) is None,
        },
{
    let fields = match decode_fields(bytes) {
        Some(fields) => fields,
        None => {
            return None;
        },
    };
    let id = match find_text(&fields, 1) {
        Some(id) => id,
        None => {
            return None;
        },
    };
    let items = find_all_bytes(&fields, 2);
    match read_skeleton_versions(&items) {
        Some(versions) => {
            let game = SkeletonGame { id, versions };
            proof {
                assert(game_view(game).1 =~= version_ids(game.versions@));
            }
            Some(game)
        },
        None => None,
    }
}

/// Reads the listing of the instance's games.
pub fn read_server_games(bytes: &[u8]) -> (games: Option<Vec<SkeletonGame>>)
    ensures
        match games {
            Some(games) => parsed_server_games(bytes@) == Some(game_views(games@)),
            None => parsed_server_games(bytes@) is None,
        },
{
    let fields = match decode_fields(bytes) {
        Some(fields) => fields,
        None => {
            return None;
        },
    };
    let items = find_all_bytes(&fields, 1);
    let ghost views = byte_views(items@);
    let mut games: Vec<SkeletonGame> = Vec::new();
    let mut i: usize = 0;
    proof {
        assert(game_views(games@) =~= Seq::<(Seq<char>, Seq<Seq<char>>)>::empty());
    }
    while i < items.len()
        invariant
            i <= items.len(),
            views == byte_views(items@),
            parsed_fields(bytes@) == Some(field_views(fields@)),
            views == all_bytes(field_views(fields@), 1),
            parsed_all(views.take(i as int), skeleton_game_parser()) == Some(game_views(games@)),
        decreases items.len() - i,
    {
        proof {
            lemma_parsed_all_step(views, skeleton_game_parser(), i as int);
        }
        match read_skeleton_game(items[i].as_slice()) {
            None => {
                proof {
                    lemma_parsed_all_prefix(views, skeleton_game_parser(), i + 1);
                }
                return None;
            },
            Some(game) => {
                let ghost before = games@;
                let ghost view = game_view(game);
                games.push(game);
                proof {
                    assert(game_views(games@) =~= game_views(before).push(view));
                }
            },
        }
        i += 1;
    }
    proof {
        assert(views.take(i as int) =~= views);
    }
    Some(games)
}

/// Turns the reply to a listing query into the games, or into the failure
/// to report.
pub fn fetch_instance_games(reply: Result<Vec<u8>, ServerError>) -> (outcome: Result<
    Vec<SkeletonGame>,
    ErrorOption,
>)
    ensures
        match outcome {
            Ok(games) => reply matches Ok(payload) && parsed_server_games(payload@) == Some(
                game_views(games@),
            ),
            Err(error) => error_view(error) == ErrorView::Failure(
                match reply {
                    Ok(_) => ServerError::Malformed.spec_describe(),
                    Err(failure) => failure.spec_describe(),
                },
            ) && (reply matches Ok(payload) ==> parsed_server_games(payload@) is None),
        },
{
    match reply {
        Ok(payload) => match read_server_games(payload.as_slice()) {
            Some(games) => Ok(games),
            None => Err(ErrorOption::Failure(ServerError::Malformed.describe())),
        },
        Err(error) => Err(ErrorOption::Failure(error.describe())),
    }
}

} // verus!
