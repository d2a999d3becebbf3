//! The per-version catalogue of chunks: which byte ranges of which files make
//! up each chunk, with the key shared by the version and one IV per chunk.

use vstd::prelude::*;
use vstd::hash_map::StringHashMap;

verus! {

/// One byte range of one file inside a chunk.
#[derive(Debug)]
pub struct FileEntry {
    pub filename: String,
    pub start: u64,
    pub length: u64,
    pub permissions: u32,
}

/// What a `FileEntry` stands for in contracts.
pub struct FileEntryView {
    pub filename: Seq<char>,
    pub start: u64,
    pub length: u64,
    pub permissions: u32,
}

impl View for FileEntry {
    type V = FileEntryView;

    open spec fn view(&self) -> FileEntryView {
        FileEntryView {
            filename: self.filename@,
            start: self.start,
            length: self.length,
            permissions: self.permissions,
        }
    }
}

impl FileEntry {
    /// A copy with the same name, range and permissions.
    pub fn duplicate(&self) -> (copy: FileEntry)
        ensures
            copy@ == self@,
    {
        FileEntry {
            filename: self.filename.clone(),
            start: self.start,
            length: self.length,
            permissions: self.permissions,
        }
    }
}

/// The views of a run of file entries, in order.
pub open spec fn file_views(files: Seq<FileEntry>) -> Seq<FileEntryView> {
    Seq::new(files.len(), |i: int| files[i]@)
}

/// The atomic download unit: its plaintext is the concatenation of the
/// ranges in `files`, in order.
#[derive(Debug)]
pub struct ChunkData {
    pub files: Vec<FileEntry>,
    pub checksum: String,
    pub iv: [u8; 16],
}

/// What a `ChunkData` stands for in contracts.
pub struct ChunkDataView {
    pub files: Seq<FileEntryView>,
    pub checksum: Seq<char>,
    pub iv: Seq<u8>,
}

impl View for ChunkData {
    type V = ChunkDataView;

    open spec fn view(&self) -> ChunkDataView {
        ChunkDataView { files: file_views(self.files@), checksum: self.checksum@, iv: self.iv@ }
    }
}

impl ChunkData {
    /// A copy with the same files, checksum and IV.
    pub fn duplicate(&self) -> (copy: ChunkData)
        ensures
            copy@ == self@,
    {
        ChunkData {
            files: duplicate_files(&self.files),
            checksum: self.checksum.clone(),
            iv: self.iv,
        }
    }
}

/// Copies of `files`, in order.
pub fn duplicate_files(files: &Vec<FileEntry>) -> (copies: Vec<FileEntry>)
    ensures
        file_views(copies@) == file_views(files@),
{
    let mut copies: Vec<FileEntry> = Vec::new();
    let mut i: usize = 0;
    while i < files.len()
        invariant
            i <= files.len(),
            copies@.len() == i,
            file_views(copies@) == file_views(files@).take(i as int),
        decreases files.len() - i,
    {
        let ghost before = copies@;
        copies.push(files[i].duplicate());
        proof {
            assert forall|j: int| 0 <= j < i + 1 implies file_views(copies@)[j] == file_views(
                files@,
            ).take(i + 1)[j] by {
                if j < i {
                    assert(file_views(before)[j] == file_views(files@).take(i as int)[j]);
                }
            }
            assert(file_views(copies@) =~= file_views(files@).take(i + 1));
        }
        i += 1;
    }
    proof {
        assert(file_views(files@).take(i as int) =~= file_views(files@));
    }
    copies
}

/// The chunk views of a table of chunks, id by id.
pub open spec fn chunk_views(chunks: Map<Seq<char>, ChunkData>) -> Map<Seq<char>, ChunkDataView> {
    Map::new(|id: Seq<char>| chunks.contains_key(id), |id: Seq<char>| chunks[id]@)
}

/// The catalogue of one version. Immutable once loaded.
pub struct Manifest {
    pub version: String,
    pub chunks: StringHashMap<ChunkData>,
    pub size: u64,
    pub key: [u8; 16],
}

/// What a `Manifest` stands for in contracts.
pub struct ManifestView {
    pub version: Seq<char>,
    pub chunks: Map<Seq<char>, ChunkDataView>,
    pub size: u64,
    pub key: Seq<u8>,
}

impl View for Manifest {
    type V = ManifestView;

    open spec fn view(&self) -> ManifestView {
        ManifestView {
            version: self.version@,
            chunks: chunk_views(self.chunks@),
            size: self.size,
            key: self.key@,
        }
    }
}

impl Manifest {
    /// A manifest without chunks.
    pub fn new(version: String, size: u64, key: [u8; 16]) -> (manifest: Manifest)
        ensures
            manifest@ == (ManifestView {
                version: version@,
                chunks: Map::empty(),
                size,
                key: key@,
            }),
    {
        let manifest = Manifest { version, chunks: StringHashMap::new(), size, key };
        proof {
            assert(chunk_views(manifest.chunks@) =~= Map::empty());
        }
        manifest
    }

    /// Files `chunk` under `id`; a chunk already filed under that id is replaced.
    pub fn insert_chunk(&mut self, id: String, chunk: ChunkData)
        ensures
            final(self)@ == (ManifestView {
                chunks: old(self)@.chunks.insert(id@, chunk@),
                ..old(self)@
            }),
    {
        self.chunks.insert(id, chunk);
        proof {
            assert(chunk_views(self.chunks@) =~= chunk_views(old(self).chunks@).insert(
                id@,
                chunk@,
            ));
        }
    }

    /// The chunk filed under `id`, if there is one.
    pub fn chunk(&self, id: &str) -> (found: Option<&ChunkData>)
        ensures
            found is Some == self@.chunks.contains_key(id@),
            found matches Some(chunk) ==> chunk@ == self@.chunks[id@],
    {
        self.chunks.get(id)
    }

    /// How many chunks the manifest lists.
    pub fn chunk_count(&self) -> (count: usize)
        ensures
            count == self@.chunks.len(),
    {
        proof {
            lemma_chunk_views_len(self.chunks@);
        }
        self.chunks.len()
    }
}

/// Taking views keeps the number of chunks.
pub proof fn lemma_chunk_views_len(chunks: Map<Seq<char>, ChunkData>)
    ensures
        chunk_views(chunks).dom() == chunks.dom(),
        chunk_views(chunks).len() == chunks.len(),
{
    assert(chunk_views(chunks).dom() =~= chunks.dom());
}

/// One chunk of the older manifest layout, kept for callers that still
/// hold such records: parallel lists of file ids, checksums and lengths.
#[derive(Debug)]
pub struct DropChunk {
    pub permissions: usize,
    pub ids: Vec<String>,
    pub checksums: Vec<String>,
    pub lengths: Vec<usize>,
}

} // verus!
