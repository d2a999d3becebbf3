//! Download contexts: the manifest of one version together with the place
//! on disk that its files are read from, built once and kept while in use.

use vstd::prelude::*;
use crate::error::{ErrorOption, Status};
use crate::manifest::{Manifest, ManifestView};
use crate::remote::{LibraryBackend, VersionResponseBody};

verus! {

/// What is needed to serve the chunks of one version of one game.
pub struct DownloadContext {
    manifest: Manifest,
    root: Vec<String>,
    last_access: u64,
}

/// What a `DownloadContext` stands for in contracts.
pub struct DownloadContextView {
    pub manifest: ManifestView,
    pub root: Seq<Seq<char>>,
    pub last_access: u64,
}

/// The views of a run of strings.
pub open spec fn path_views(parts: Seq<String>) -> Seq<Seq<char>> {
    Seq::new(parts.len(), |i: int| parts[i]@)
}

impl View for DownloadContext {
    type V = DownloadContextView;

    closed spec fn view(&self) -> DownloadContextView {
        DownloadContextView {
            manifest: self.manifest@,
            root: path_views(self.root@),
            last_access: self.last_access,
        }
    }
}

impl DownloadContext {
    /// The manifest of the version.
    pub fn manifest(&self) -> (manifest: &Manifest)
        ensures
            manifest@ == self@.manifest,
    {
        &self.manifest
    }

    /// The parts of the path that the version's files live under.
    pub fn root(&self) -> (root: &Vec<String>)
        ensures
            path_views(root@) == self@.root,
    {
        &self.root
    }

    /// A context for `manifest` under `root`, last used at `now`.
    pub fn new(manifest: Manifest, root: Vec<String>, now: u64) -> (context: DownloadContext)
        ensures
            context@ == (DownloadContextView {
                manifest: manifest@,
                root: path_views(root@),
                last_access: now,
            }),
    {
        DownloadContext { manifest, root, last_access: now }
    }

    /// When the context was last used, in seconds on the process's clock.
    pub fn last_access(&self) -> (at: u64)
        ensures
            at == self@.last_access,
    {
        self.last_access
    }

    /// Records a use of the context at `now`.
    pub fn reset_last_access(&mut self, now: u64)
        ensures
            final(self)@ == (DownloadContextView { last_access: now, ..old(self)@ }),
    {
        self.last_access = now;
    }
}

/// The text that the JSON object written in `text` holds under `member`;
/// `None` where `text` is no JSON, is no object, has no such member, or has
/// one that is no string.
pub uninterp spec fn json_string_member(text: Seq<char>, member: Seq<char>) -> Option<Seq<char>>;

/// Calls `serde_json::from_str` for a `serde_json::Value`, `Value::get` with
/// the member's name and `Value::as_str`. The claim: what comes back is
/// decided by the text and the member's name alone.
#[verifier::external_body]
fn json_string_member_of(text: &str, member: &str) -> (found: Option<String>)
    ensures
        found matches Some(s) ==> json_string_member(text@, member@) == Some(s@),
        found is None ==> json_string_member(text@, member@) is None,
{
    let value: serde_json::Value = serde_json::from_str(text).ok()?;
    value.get(member)?.as_str().map(str::to_owned)
}

/// The base directory that the options of a library name: their `baseDir`
/// member, where they are a JSON object with such a member and it is a string.
pub fn base_dir_of(options: &str) -> (base: Option<String>)
    ensures
        base matches Some(b) ==> json_string_member(options@, "baseDir"@) == Some(b@),
        base is None ==> json_string_member(options@, "baseDir"@) is None,
{
    json_string_member_of(options, "baseDir")
}

/// What looking at the root on disk showed.
#[derive(Clone, Copy, Debug, PartialEq, Eq, Structural)]
pub enum BackendProbe {
    /// The root does not exist.
    Missing,
    /// Nothing knows how to read what is at the root.
    Unsupported,
    /// A reader for the root could not be made.
    Failed,
    /// A reader for the root was made.
    Ready,
}

/// The parts of the path under which a version's files live: the library's
/// base directory and the game's directory, and for a library with one
/// directory per version that directory too.
pub open spec fn version_root(
    base_dir: Seq<char>,
    library_path: Seq<char>,
    version_path: Seq<char>,
    backend: LibraryBackend,
) -> Seq<Seq<char>> {
    match backend {
        LibraryBackend::Filesystem => seq![base_dir, library_path, version_path],
        LibraryBackend::FlatFilesystem => seq![base_dir, library_path],
    }
}

/// The parts of the path under which the files of `version_data` live, to
/// be joined in order.
pub fn create_backend(version_data: &VersionResponseBody) -> (root: Vec<String>)
    ensures
        path_views(root@) == version_root(
            version_data.library.base_dir@,
            version_data.library_path@,
            version_data.version_path@,
            version_data.library.backend,
        ),
{
    let mut root: Vec<String> = Vec::new();
    root.push(version_data.library.base_dir.clone());
    root.push(version_data.library_path.clone());
    match version_data.library.backend {
        LibraryBackend::Filesystem => {
            root.push(version_data.version_path.clone());
        },
        LibraryBackend::FlatFilesystem => {},
    }
    proof {
        assert(path_views(root@) =~= version_root(
            version_data.library.base_dir@,
            version_data.library_path@,
            version_data.version_path@,
            version_data.library.backend,
        ));
    }
    root
}

/// Builds the context for `version_data` once the root has been looked at:
/// the context, last used at `now`, where a reader was made; else 500.
pub fn create_download_context(version_data: VersionResponseBody, probe: BackendProbe, now: u64) -> (built:
    Result<DownloadContext, ErrorOption>)
    ensures
        match built {
            Ok(context) => probe == BackendProbe::Ready && context@ == (DownloadContextView {
                manifest: version_data.manifest@,
                root: version_root(
                    version_data.library.base_dir@,
                    version_data.library_path@,
                    version_data.version_path@,
                    version_data.library.backend,
                ),
                last_access: now,
            }),
            Err(error) => probe != BackendProbe::Ready && error == ErrorOption::Status(
                Status::InternalServerError,
            ),
        },
{
    match probe {
        BackendProbe::Ready => {
            let root = create_backend(&version_data);
            Ok(DownloadContext::new(version_data.manifest, root, now))
        },
        _ => Err(ErrorOption::Status(Status::InternalServerError)),
    }
}

} // verus!
