//! From the manifest as it travels on the wire, with keys and IVs of any
//! length, to the manifest that chunks are served from.

use vstd::prelude::*;
use vstd::hash_map::StringHashMap;
use vstd::pervasive::unreached;
use crate::manifest::{
    ChunkData, ChunkDataView, FileEntry, Manifest, ManifestView, chunk_views, duplicate_files,
    file_views,
};

verus! {

/// The length of a key and of an IV.
pub const BLOCK_LEN: usize = 16;

/// A chunk as it travels: its IV is a run of bytes of any length.
#[derive(Debug)]
pub struct WireChunkData {
    pub files: Vec<FileEntry>,
    pub checksum: String,
    pub iv: Vec<u8>,
}

/// A manifest as it travels: its chunks are a run of entries in which a
/// later entry replaces an earlier one with the same id, and its key is a run
/// of bytes of any length.
#[derive(Debug)]
pub struct WireManifest {
    pub version: String,
    pub chunks: Vec<(String, WireChunkData)>,
    pub size: u64,
    pub key: Vec<u8>,
}

impl View for WireChunkData {
    type V = ChunkDataView;

    open spec fn view(&self) -> ChunkDataView {
        ChunkDataView { files: file_views(self.files@), checksum: self.checksum@, iv: self.iv@ }
    }
}

/// What a `WireManifest` stands for in contracts.
pub struct WireManifestView {
    pub version: Seq<char>,
    pub chunks: Seq<(Seq<char>, ChunkDataView)>,
    pub size: u64,
    pub key: Seq<u8>,
}

/// The entries of a travelling manifest as contracts see them.
pub open spec fn entry_views(entries: Seq<(String, WireChunkData)>) -> Seq<(Seq<char>, ChunkDataView)> {
    Seq::new(entries.len(), |i: int| (entries[i].0@, entries[i].1@))
}

impl View for WireManifest {
    type V = WireManifestView;

    open spec fn view(&self) -> WireManifestView {
        WireManifestView {
            version: self.version@,
            chunks: entry_views(self.chunks@),
            size: self.size,
            key: self.key@,
        }
    }
}

/// The table that a run of entries becomes: entry by entry, a later entry
/// replacing an earlier one with the same id.
pub open spec fn converted_chunks(entries: Seq<(Seq<char>, ChunkDataView)>) -> Map<
    Seq<char>,
    ChunkDataView,
>
    decreases entries.len(),
{
    if entries.len() == 0 {
        Map::empty()
    } else {
        converted_chunks(entries.drop_last()).insert(entries.last().0, entries.last().1)
    }
}

/// The manifest that a travelling manifest becomes.
pub open spec fn converted_manifest(source: WireManifestView) -> ManifestView {
    ManifestView {
        version: source.version,
        chunks: converted_chunks(source.chunks),
        size: source.size,
        key: source.key,
    }
}

/// The key and every IV are sixteen bytes long.
pub open spec fn fixed_lengths(source: WireManifestView) -> bool {
    &&& source.key.len() == BLOCK_LEN
    &&& forall|i: int|
        0 <= i < source.chunks.len() ==> (#[trigger] source.chunks[i]).1.iv.len() == BLOCK_LEN
}

/// Calls the conversion of `Vec<T>` into `[T; N]` (`TryFrom`, through
/// `try_into`). The claim: it succeeds exactly when the vector has `N`
/// items, and holds the same items in the same order either way.
#[verifier::external_body]
fn vec_into_array<T, const N: usize>(v: Vec<T>) -> (converted: Result<[T; N], Vec<T>>)
    ensures
        converted is Ok == (v@.len() == N),
        converted matches Ok(array) ==> array@ == v@,
        converted matches Err(back) ==> back@ == v@,
{
    v.try_into()
}

/// The array that holds the `N` items of `v`.
pub fn fixed_length<T, const N: usize>(v: Vec<T>) -> (array: [T; N])
    requires
        v@.len() == N,
    ensures
        array@ == v@,
{
    match vec_into_array(v) {
        Ok(array) => array,
        Err(_) => unreached(),
    }
}

/// Whether the key and every IV of `source` are sixteen bytes long, which
/// is what the conversion asks for.
pub fn has_fixed_lengths(source: &WireManifest) -> (ok: bool)
    ensures
        ok == fixed_lengths(source@),
{
    if source.key.len() != BLOCK_LEN {
        return false;
    }
    let mut i: usize = 0;
    while i < source.chunks.len()
        invariant
            i <= source.chunks.len(),
            forall|j: int| 0 <= j < i ==> (#[trigger] source@.chunks[j]).1.iv.len() == BLOCK_LEN,
        decreases source.chunks.len() - i,
    {
        if source.chunks[i].1.iv.len() != BLOCK_LEN {
            proof {
                assert(source@.chunks[i as int].1.iv.len() != BLOCK_LEN);
            }
            return false;
        }
        i += 1;
    }
    true
}

/// Converts a travelling manifest, coercing its key and IVs to their fixed
/// length.
pub fn convert_protobuf_manifest(source: WireManifest) -> (manifest: Manifest)
    requires
        fixed_lengths(source@),
    ensures
        manifest@ == converted_manifest(source@),
{
    let mut chunks: StringHashMap<ChunkData> = StringHashMap::new();
    let mut i: usize = 0;
    let ghost entries = source@.chunks;
    proof {
        assert(chunk_views(chunks@) =~= converted_chunks(entries.take(0)));
    }
    while i < source.chunks.len()
        invariant
            i <= source.chunks.len(),
            entries == source@.chunks,
            fixed_lengths(source@),
            chunk_views(chunks@) == converted_chunks(entries.take(i as int)),
        decreases source.chunks.len() - i,
    {
        let entry = &source.chunks[i];
        let ghost before = chunks@;
        proof {
            assert(entries[i as int] == (entry.0@, entry.1@));
            assert(entries[i as int].1.iv.len() == BLOCK_LEN);
        }
        let chunk = ChunkData {
            files: duplicate_files(&entry.1.files),
            checksum: entry.1.checksum.clone(),
            iv: fixed_length(vstd::slice::slice_to_vec(entry.1.iv.as_slice())),
        };
        proof {
            assert(chunk@ == entry.1@);
        }
        chunks.insert(entry.0.clone(), chunk);
        proof {
            assert(entries.take(i + 1).drop_last() =~= entries.take(i as int));
            assert(entries.take(i + 1).last() == entries[i as int]);
            assert(chunk_views(chunks@) =~= chunk_views(before).insert(entry.0@, chunk@));
        }
        i += 1;
    }
    proof {
        assert(entries.take(i as int) =~= entries);
    }
    let key: [u8; 16] = fixed_length(vstd::slice::slice_to_vec(source.key.as_slice()));
    Manifest { version: source.version, chunks, size: source.size, key }
}

} // verus!
