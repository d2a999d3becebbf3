//! Planning a chunk request: which ranges to read, in which order, how many
//! open-file permits to reserve, and how long the response body will be.

use vstd::prelude::*;
use crate::cache::KeyView;
use crate::download::{DownloadContext, DownloadContextView};
use crate::error::{ErrorOption, Status};
use crate::manifest::{ChunkData, FileEntry, FileEntryView, Manifest, ManifestView, file_views};
use crate::state::{AppState, AppStateView};

verus! {

/// One call to make on the version's backend: the bytes `start..end` of `filename`.
#[derive(Debug)]
pub struct ReadRequest {
    pub filename: String,
    pub start: u64,
    pub end: u64,
}

/// What a `ReadRequest` stands for in contracts.
pub struct ReadRequestView {
    pub filename: Seq<char>,
    pub start: u64,
    pub end: u64,
}

impl View for ReadRequest {
    type V = ReadRequestView;

    open spec fn view(&self) -> ReadRequestView {
        ReadRequestView { filename: self.filename@, start: self.start, end: self.end }
    }
}

/// The views of a run of read requests, in order.
pub open spec fn read_views(reads: Seq<ReadRequest>) -> Seq<ReadRequestView> {
    Seq::new(reads.len(), |i: int| reads[i]@)
}

/// All that is needed to answer one chunk request.
#[derive(Debug)]
pub struct ChunkPlan {
    /// The reads to make, in the order in which their bytes appear in the body.
    pub reads: Vec<ReadRequest>,
    /// The length of the body, and the value of its `Content-Length` header.
    pub content_length: u64,
    /// How many open-file permits the request holds while its body lives.
    pub permits: usize,
    /// The key of the version.
    pub key: [u8; 16],
    /// The IV of the chunk.
    pub iv: [u8; 16],
}

/// What a `ChunkPlan` stands for in contracts.
pub struct ChunkPlanView {
    pub reads: Seq<ReadRequestView>,
    pub content_length: u64,
    pub permits: nat,
    pub key: Seq<u8>,
    pub iv: Seq<u8>,
}

impl View for ChunkPlan {
    type V = ChunkPlanView;

    open spec fn view(&self) -> ChunkPlanView {
        ChunkPlanView {
            reads: read_views(self.reads@),
            content_length: self.content_length,
            permits: self.permits as nat,
            key: self.key@,
            iv: self.iv@,
        }
    }
}

/// The sum of the lengths of `files`.
pub open spec fn total_length(files: Seq<FileEntryView>) -> nat
    decreases files.len(),
{
    if files.len() == 0 {
        0
    } else {
        total_length(files.drop_last()) + files.last().length as nat
    }
}

/// The range ends at or below `u64::MAX`.
pub open spec fn range_fits(file: FileEntryView) -> bool {
    file.start + file.length <= u64::MAX
}

/// Every range ends at or below `u64::MAX`, and so does the sum of the lengths.
pub open spec fn ranges_fit(files: Seq<FileEntryView>) -> bool {
    &&& forall|i: int| 0 <= i < files.len() ==> range_fits(#[trigger] files[i])
    &&& total_length(files) <= u64::MAX
}

/// The read that serves one file entry.
pub open spec fn read_of(file: FileEntryView) -> ReadRequestView {
    ReadRequestView {
        filename: file.filename,
        start: file.start,
        end: (file.start + file.length) as u64,
    }
}

/// The reads that serve `files`, one per entry and in the same order.
pub open spec fn reads_of(files: Seq<FileEntryView>) -> Seq<ReadRequestView> {
    Seq::new(files.len(), |i: int| read_of(files[i]))
}

/// The outcome of planning `chunk_id` against `manifest` when the process may
/// hold `capacity` files open:
/// 404 for an unknown chunk, 507 for a chunk with `capacity` files or more,
/// 500 for a chunk whose ranges do not fit in 64 bits, else the plan.
pub open spec fn spec_plan_chunk(manifest: ManifestView, chunk_id: Seq<char>, capacity: nat) -> Result<
    ChunkPlanView,
    Status,
> {
    if !manifest.chunks.contains_key(chunk_id) {
        Err(Status::NotFound)
    } else {
        let chunk = manifest.chunks[chunk_id];
        if chunk.files.len() >= capacity {
            Err(Status::InsufficientStorage)
        } else if !ranges_fit(chunk.files) {
            Err(Status::InternalServerError)
        } else {
            Ok(
                ChunkPlanView {
                    reads: reads_of(chunk.files),
                    content_length: total_length(chunk.files) as u64,
                    permits: chunk.files.len(),
                    key: manifest.key,
                    iv: chunk.iv,
                },
            )
        }
    }
}

/// `plan` as contracts see it.
pub open spec fn plan_outcome_view(outcome: Result<ChunkPlan, Status>) -> Result<ChunkPlanView, Status> {
    match outcome {
        Ok(plan) => Ok(plan@),
        Err(status) => Err(status),
    }
}

/// Adding one entry to a prefix adds its length to the sum.
pub proof fn lemma_total_length_step(files: Seq<FileEntryView>, i: int)
    requires
        0 <= i < files.len(),
    ensures
        total_length(files.take(i + 1)) == total_length(files.take(i)) + files[i].length,
{
    assert(files.take(i + 1).drop_last() =~= files.take(i));
}

/// The sum over a prefix never exceeds the sum over the whole.
pub proof fn lemma_total_length_prefix(files: Seq<FileEntryView>, i: int)
    requires
        0 <= i <= files.len(),
    ensures
        total_length(files.take(i)) <= total_length(files),
    decreases files.len() - i,
{
    if i == files.len() {
        assert(files.take(i) =~= files);
    } else {
        lemma_total_length_step(files, i);
        lemma_total_length_prefix(files, i + 1);
    }
}

/// The chunk filed under `chunk_id` in the manifest of `context`, copied out;
/// 404 where there is none.
pub fn lookup_chunk(chunk_id: &str, context: &DownloadContext) -> (found: Result<ChunkData, Status>)
    ensures
        match found {
            Ok(chunk) => context@.manifest.chunks.contains_key(chunk_id@) && chunk@
                == context@.manifest.chunks[chunk_id@],
            Err(status) => !context@.manifest.chunks.contains_key(chunk_id@) && status
                == Status::NotFound,
        },
{
    match context.manifest().chunk(chunk_id) {
        Some(chunk) => Ok(chunk.duplicate()),
        None => Err(Status::NotFound),
    }
}

/// The read to ask the backend for, for one file entry: from the entry's
/// start to its start plus its length. `None` where that end does not fit in
/// 64 bits.
pub fn get_file_reader(entry: &FileEntry) -> (read: Option<ReadRequest>)
    ensures
        match read {
            Some(read) => range_fits(entry@) && read@ == read_of(entry@),
            None => !range_fits(entry@),
        },
{
    match entry.start.checked_add(entry.length) {
        Some(end) => Some(
            ReadRequest { filename: entry.filename.clone(), start: entry.start, end },
        ),
        None => None,
    }
}

/// Plans the request for `chunk_id`: looks the chunk up, refuses it when it
/// names as many files as the process may hold open or more, and lists the
/// reads with the body's length.
pub fn plan_chunk(manifest: &Manifest, chunk_id: &str, file_permit_capacity: usize) -> (outcome: Result<
    ChunkPlan,
    Status,
>)
    ensures
        plan_outcome_view(outcome) == spec_plan_chunk(
            manifest@,
            chunk_id@,
            file_permit_capacity as nat,
        ),
{
    let chunk: &ChunkData = match manifest.chunk(chunk_id) {
        Some(chunk) => chunk,
        None => {
            return Err(Status::NotFound);
        },
    };
    let count: usize = chunk.files.len();
    if count >= file_permit_capacity {
        return Err(Status::InsufficientStorage);
    }
    let ghost files = chunk@.files;
    let mut reads: Vec<ReadRequest> = Vec::new();
    let mut content_length: u64 = 0;
    let mut i: usize = 0;
    while i < count
        invariant
            i <= count,
            count == chunk.files@.len(),
            count < file_permit_capacity,
            manifest@.chunks.contains_key(chunk_id@),
            chunk@ == manifest@.chunks[chunk_id@],
            files == file_views(chunk.files@),
            reads@.len() == i,
            read_views(reads@) == reads_of(files).take(i as int),
            content_length == total_length(files.take(i as int)),
            forall|j: int| 0 <= j < i ==> range_fits(#[trigger] files[j]),
        decreases count - i,
    {
        let entry: &FileEntry = &chunk.files[i];
        proof {
            lemma_total_length_step(files, i as int);
            lemma_total_length_prefix(files, i + 1);
            assert(files[i as int] == entry@);
        }
        let read: ReadRequest = match get_file_reader(entry) {
            Some(read) => read,
            None => {
                proof {
                    assert(!range_fits(files[i as int]));
                }
                return Err(Status::InternalServerError);
            },
        };
        let sum: u64 = match content_length.checked_add(entry.length) {
            Some(sum) => sum,
            None => {
                return Err(Status::InternalServerError);
            },
        };
        let ghost before = reads@;
        reads.push(read);
        proof {
            assert forall|j: int| 0 <= j < i + 1 implies read_views(reads@)[j] == reads_of(
                files,
            ).take(i + 1)[j] by {
                if j < i {
                    assert(read_views(before)[j] == reads_of(files).take(i as int)[j]);
                }
            }
            assert(read_views(reads@) =~= reads_of(files).take(i + 1));
        }
        content_length = sum;
        i += 1;
    }
    proof {
        assert(files.take(i as int) =~= files);
        assert(reads_of(files).take(i as int) =~= reads_of(files));
    }
    Ok(ChunkPlan { reads, content_length, permits: count, key: manifest.key, iv: chunk.iv })
}

/// What a request does next about its context.
#[derive(Clone, Copy, Debug, PartialEq, Eq, Structural)]
pub enum ContextStep {
    /// Answer 503: the token is not set.
    Unavailable,
    /// Go on: the context is there, and its use has been recorded.
    Ready,
    /// Wait for the permit to build, and ask again with it.
    AcquirePermit,
    /// Build the context, file it, and give the permit back.
    Build,
}

/// What a request does next: without a token it is turned away; a context
/// that is there is used; one that is missing is built by the request that
/// holds the permit, after it has looked again with the permit in hand.
pub open spec fn decide(token_set: bool, present: bool, holds_permit: bool) -> ContextStep {
    if !token_set {
        ContextStep::Unavailable
    } else if present {
        ContextStep::Ready
    } else if !holds_permit {
        ContextStep::AcquirePermit
    } else {
        ContextStep::Build
    }
}

/// The contexts after a use of the one under `key` at `now`.
pub open spec fn touched(
    contexts: Map<KeyView, DownloadContextView>,
    key: KeyView,
    now: u64,
) -> Map<KeyView, DownloadContextView> {
    contexts.insert(key, DownloadContextView { last_access: now, ..contexts[key] })
}

/// Looks the context of the game and version up and says what the request
/// does next; on a hit the use is recorded at `now`. `holds_permit` says
/// whether the request holds the permit to build.
pub fn get_or_create_context(
    state: &mut AppState,
    game: &str,
    version: &str,
    holds_permit: bool,
    now: u64,
) -> (step: ContextStep)
    ensures
        step == decide(
            old(state)@.token is Some,
            old(state)@.contexts.contains_key((game@, version@)),
            holds_permit,
        ),
        final(state)@ == (if step == ContextStep::Ready {
            AppStateView {
                contexts: touched(old(state)@.contexts, (game@, version@), now),
                ..old(state)@
            }
        } else {
            old(state)@
        }),
{
    if !state.initialized() {
        return ContextStep::Unavailable;
    }
    if state.context_cache.lookup(game, version, now) {
        ContextStep::Ready
    } else if !holds_permit {
        ContextStep::AcquirePermit
    } else {
        ContextStep::Build
    }
}

/// Files what a build gave: the context, under the game and version; or,
/// where the build failed, nothing, and the status of its error is the answer.
pub fn complete_build(
    state: &mut AppState,
    game: String,
    version: String,
    built: Result<DownloadContext, ErrorOption>,
) -> (failed: Option<Status>)
    ensures
        match built {
            Ok(context) => failed is None && final(state)@ == (AppStateView {
                contexts: old(state)@.contexts.insert((game@, version@), context@),
                ..old(state)@
            }),
            Err(error) => failed == Some(error.spec_status()) && final(state)@ == old(state)@,
        },
{
    match built {
        Ok(context) => {
            state.context_cache.insert(game, version, context);
            None
        },
        Err(error) => Some(error.status()),
    }
}

/// What a chunk request does next.
#[derive(Debug)]
pub enum ServeStep {
    /// Wait for the permit to build, and ask again with it.
    AcquirePermit,
    /// Build the context, file it, give the permit back, and ask again.
    Build,
    /// Answer: with the plan's body, or with the status.
    Respond(Result<ChunkPlan, Status>),
}

/// What a `ServeStep` stands for in contracts.
pub enum ServeStepView {
    AcquirePermit,
    Build,
    Respond(Result<ChunkPlanView, Status>),
}

impl View for ServeStep {
    type V = ServeStepView;

    open spec fn view(&self) -> ServeStepView {
        match self {
            ServeStep::AcquirePermit => ServeStepView::AcquirePermit,
            ServeStep::Build => ServeStepView::Build,
            ServeStep::Respond(outcome) => ServeStepView::Respond(plan_outcome_view(*outcome)),
        }
    }
}

/// What a chunk request does next: 503 without a token; the plan of the
/// chunk, or the status that refuses it, where the context is there; else the
/// step towards building the context.
pub open spec fn spec_serve_file(
    state: AppStateView,
    key: KeyView,
    chunk_id: Seq<char>,
    capacity: nat,
    holds_permit: bool,
) -> ServeStepView {
    match decide(state.token is Some, state.contexts.contains_key(key), holds_permit) {
        ContextStep::Unavailable => ServeStepView::Respond(Err(Status::ServiceUnavailable)),
        ContextStep::AcquirePermit => ServeStepView::AcquirePermit,
        ContextStep::Build => ServeStepView::Build,
        ContextStep::Ready => ServeStepView::Respond(
            spec_plan_chunk(state.contexts[key].manifest, chunk_id, capacity),
        ),
    }
}

/// Takes a chunk request one step on. Where the context is there, its use is
/// recorded at `now` and the chunk is planned against its manifest.
pub fn serve_file(
    state: &mut AppState,
    game: &str,
    version: &str,
    chunk_id: &str,
    file_permit_capacity: usize,
    holds_permit: bool,
    now: u64,
) -> (step: ServeStep)
    ensures
        step@ == spec_serve_file(
            old(state)@,
            (game@, version@),
            chunk_id@,
            file_permit_capacity as nat,
            holds_permit,
        ),
        final(state)@ == (if old(state)@.token is Some && old(state)@.contexts.contains_key(
            (game@, version@),
        ) {
            AppStateView {
                contexts: touched(old(state)@.contexts, (game@, version@), now),
                ..old(state)@
            }
        } else {
            old(state)@
        }),
{
    match get_or_create_context(state, game, version, holds_permit, now) {
        ContextStep::Unavailable => ServeStep::Respond(Err(Status::ServiceUnavailable)),
        ContextStep::AcquirePermit => ServeStep::AcquirePermit,
        ContextStep::Build => ServeStep::Build,
        ContextStep::Ready => {
            let ghost held = state@;
            match state.context_cache.take(game, version) {
                Some(context) => {
                    let outcome = plan_chunk(context.manifest(), chunk_id, file_permit_capacity);
                    state.context_cache.insert(game.to_owned(), version.to_owned(), context);
                    proof {
                        assert(state@.contexts =~= held.contexts);
                    }
                    ServeStep::Respond(outcome)
                },
                None => ServeStep::Respond(Err(Status::ServiceUnavailable)),
            }
        },
    }
}

/// Dropping a context touches nothing else, and the next request for it
/// builds it anew. With the context under `key` gone, by invalidation or by
/// a sweep: every other context is as it was; the plan that a request made
/// before is a value of its own, which nothing in the state reaches; and a
/// request for `key` first waits for the permit and, with the permit in hand
/// and the context still missing, builds.
pub proof fn law_missing_context_is_rebuilt(
    state: AppStateView,
    key: KeyView,
    chunk_id: Seq<char>,
    capacity: nat,
)
    requires
        state.token is Some,
    ensures
        ({
            let dropped = AppStateView { contexts: state.contexts.remove(key), ..state };
            &&& forall|other: KeyView|
                other != key ==> dropped.contexts.contains_key(other)
                    == state.contexts.contains_key(other) && dropped.contexts[other]
                    == state.contexts[other]
            &&& spec_serve_file(dropped, key, chunk_id, capacity, false)
                == ServeStepView::AcquirePermit
            &&& spec_serve_file(dropped, key, chunk_id, capacity, true) == ServeStepView::Build
            &&& forall|other: KeyView|
                other != key ==> spec_serve_file(dropped, other, chunk_id, capacity, false)
                    == spec_serve_file(state, other, chunk_id, capacity, false)
        }),
{
}

/// The files on disk, by name.
pub type Disk = Map<Seq<char>, Seq<u8>>;

/// The range of `file` is there to be read.
pub open spec fn on_disk(disk: Disk, file: FileEntryView) -> bool {
    &&& disk.contains_key(file.filename)
    &&& file.start + file.length <= disk[file.filename].len()
}

/// The bytes of the range that `file` names.
pub open spec fn file_range(disk: Disk, file: FileEntryView) -> Seq<u8> {
    disk[file.filename].subrange(file.start as int, file.start + file.length)
}

/// The plaintext of a chunk: the ranges of its files, end to end, in order.
pub open spec fn chunk_plaintext(disk: Disk, files: Seq<FileEntryView>) -> Seq<u8>
    decreases files.len(),
{
    if files.len() == 0 {
        Seq::empty()
    } else {
        chunk_plaintext(disk, files.drop_last()) + file_range(disk, files.last())
    }
}

/// The plaintext of a chunk whose ranges are all there is as long as the sum
/// of the lengths of its files.
pub proof fn lemma_plaintext_length(disk: Disk, files: Seq<FileEntryView>)
    requires
        forall|i: int| 0 <= i < files.len() ==> on_disk(disk, #[trigger] files[i]),
    ensures
        chunk_plaintext(disk, files).len() == total_length(files),
    decreases files.len(),
{
    if files.len() > 0 {
        assert forall|i: int| 0 <= i < files.drop_last().len() implies on_disk(
            disk,
            #[trigger] files.drop_last()[i],
        ) by {
            assert(files.drop_last()[i] == files[i]);
        }
        lemma_plaintext_length(disk, files.drop_last());
        assert(on_disk(disk, files[files.len() - 1]));
    }
}

/// The body of a 200 response. For a chunk that is planned against a manifest
/// and whose ranges are all there on disk, however the plaintext is cut into
/// groups on its way through the cipher stage:
/// the reads are the ranges of the chunk's files, in order;
/// the body is as long as the sum of the files' lengths, which is the
/// announced length;
/// and decrypting the body with the manifest's key and the chunk's IV gives
/// the ranges of the files, end to end.
pub proof fn law_response_body(
    manifest: ManifestView,
    chunk_id: Seq<char>,
    capacity: nat,
    disk: Disk,
    groups: Seq<Seq<u8>>,
)
    requires
        spec_plan_chunk(manifest, chunk_id, capacity) is Ok,
        forall|i: int|
            0 <= i < manifest.chunks[chunk_id].files.len() ==> on_disk(
                disk,
                #[trigger] manifest.chunks[chunk_id].files[i],
            ),
        groups.flatten() == chunk_plaintext(disk, manifest.chunks[chunk_id].files),
    ensures
        ({
            let plan = spec_plan_chunk(manifest, chunk_id, capacity)->Ok_0;
            let files = manifest.chunks[chunk_id].files;
            let plaintext = chunk_plaintext(disk, files);
            let body = crate::cipher::stream_encrypt(plan.key, plan.iv, 0, groups);
            &&& plan.reads.len() == files.len()
            &&& forall|i: int|
                0 <= i < files.len() ==> (#[trigger] plan.reads[i]).filename == files[i].filename
                    && plan.reads[i].start == files[i].start && plan.reads[i].end
                    == files[i].start + files[i].length
            &&& body.len() == total_length(files)
            &&& body.len() == plan.content_length
            &&& plan.key == manifest.key
            &&& plan.iv == manifest.chunks[chunk_id].iv
            &&& crate::cipher::keystream_xor(plan.key, plan.iv, 0, body) == plaintext
        }),
{
    let plan = spec_plan_chunk(manifest, chunk_id, capacity)->Ok_0;
    let files = manifest.chunks[chunk_id].files;
    let plaintext = chunk_plaintext(disk, files);
    lemma_plaintext_length(disk, files);
    crate::cipher::law_streaming_equals_offline(plan.key, plan.iv, 0, groups);
    crate::cipher::law_cipher_inverts(plan.key, plan.iv, 0, plaintext);
    assert forall|i: int| 0 <= i < files.len() implies (#[trigger] plan.reads[i]).end
        == files[i].start + files[i].length by {
        assert(range_fits(files[i]));
    }
}

} // verus!
