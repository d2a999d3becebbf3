//! What the control plane says about a version and about the games of an
//! instance, and how its answers over HTTP are judged.

use vstd::prelude::*;
use vstd::string::StringExecFns;
use crate::error::{ErrorOption, Status};
use crate::manifest::Manifest;
use crate::state::AppInitData;

verus! {

/// How the files of a library are laid out on disk.
#[derive(Clone, Copy, Debug, PartialEq, Eq, Structural)]
#[non_exhaustive]
pub enum LibraryBackend {
    /// One directory per game, one directory per version inside it.
    Filesystem,
    /// One directory per game, which is its only version.
    FlatFilesystem,
}

/// The library that a version lives in.
#[derive(Debug)]
pub struct LibrarySource {
    /// The `baseDir` option of the library.
    pub base_dir: String,
    pub id: String,
    pub backend: LibraryBackend,
}

/// The answer to a version query.
pub struct VersionResponseBody {
    pub manifest: Manifest,
    pub library: LibrarySource,
    pub library_path: String,
    pub version_path: String,
}

/// The question that a version query asks.
#[derive(Debug)]
pub struct VersionQuery {
    pub game: String,
    pub version: String,
}

/// One version of a game, as a listing names it.
#[derive(Debug)]
pub struct SkeletonVersion {
    pub version_id: String,
}

/// One game of the instance, as a listing names it.
#[derive(Debug)]
pub struct SkeletonGame {
    pub id: String,
    pub versions: Vec<SkeletonVersion>,
}

/// Where the control plane is reached over HTTP: the address that was
/// configured, else the local default.
pub fn remote_url(configured: Option<String>) -> (url: String)
    ensures
        url@ == (match configured {
            Some(address) => address@,
            None => "http://localhost:3000"@,
        }),
{
    match configured {
        Some(address) => address,
        None => "http://localhost:3000".to_owned(),
    }
}

/// The value of the `Authorization` header that carries the token:
/// `Bearer`, a space, and the token.
pub fn authorization(init_data: &AppInitData) -> (header: String)
    ensures
        header@ == "Bearer "@ + init_data.key@,
{
    String::from_str("Bearer ").concat(init_data.key.as_str())
}

/// Whether a status code lies in 200..=299.
pub open spec fn is_success(status: u16) -> bool {
    200 <= status <= 299
}

/// The text that stands for a body that could not be read.
pub open spec fn body_text(body: Option<String>) -> Seq<char> {
    match body {
        Some(text) => text@,
        None => "(failed to read body)"@,
    }
}

/// The description of an answer that was no success: `prefix`, the status as
/// it prints, a comma and a space, and the body.
pub open spec fn failure_text(prefix: Seq<char>, status_text: Seq<char>, body: Option<String>) -> Seq<
    char,
> {
    prefix + status_text + ", "@ + body_text(body)
}

/// Builds `failure_text`.
fn describe_failure(prefix: &str, status_text: &str, body: Option<String>) -> (text: String)
    ensures
        text@ == failure_text(prefix@, status_text@, body),
{
    let text = String::from_str(prefix).concat(status_text).concat(", ");
    match body {
        Some(body) => text.concat(body.as_str()),
        None => text.concat("(failed to read body)"),
    }
}

/// How an answer to a version query is judged when it is no success: 400
/// means that the version is unknown, anything else is a failure.
pub open spec fn version_failure(status: u16, status_text: Seq<char>, body: Option<String>) -> ErrorView {
    if status == 400 {
        ErrorView::Status(Status::NotFound)
    } else {
        ErrorView::Failure(
            failure_text(
                "Fetching context failed with non-success code: "@,
                status_text,
                body,
            ),
        )
    }
}

/// What an `ErrorOption` stands for in contracts.
pub enum ErrorView {
    Status(Status),
    Failure(Seq<char>),
}

/// What an `ErrorOption` stands for in contracts.
pub open spec fn error_view(error: ErrorOption) -> ErrorView {
    match error {
        ErrorOption::Status(status) => ErrorView::Status(status),
        ErrorOption::Failure(cause) => ErrorView::Failure(cause@),
    }
}

/// Judges the answer to a version query by its status: `None` for a
/// success, whose body is the version data; else the error to report.
/// `status_text` is the status as it prints, `body` the body of the answer
/// where it could be read.
pub fn fetch_version_data(status: u16, status_text: &str, body: Option<String>) -> (error: Option<
    ErrorOption,
>)
    ensures
        error is None == is_success(status),
        error matches Some(e) ==> error_view(e) == version_failure(status, status_text@, body),
{
    if 200 <= status && status <= 299 {
        return None;
    }
    if status == 400 {
        return Some(ErrorOption::Status(Status::NotFound));
    }
    Some(
        ErrorOption::Failure(
            describe_failure(
                "Fetching context failed with non-success code: ",
                status_text,
                body,
            ),
        ),
    )
}

/// Judges the answer to a listing of the instance's games by its status:
/// `None` for a success, whose body is the listing; else the failure.
pub fn fetch_instance_games(status: u16, status_text: &str, body: Option<String>) -> (error: Option<
    ErrorOption,
>)
    ensures
        error is None == is_success(status),
        error matches Some(e) ==> error_view(e) == ErrorView::Failure(
            failure_text(
                "Fetching instance games failed with non-success code: "@,
                status_text@,
                body,
            ),
        ),
{
    if 200 <= status && status <= 299 {
        return None;
    }
    Some(
        ErrorOption::Failure(
            describe_failure(
                "Fetching instance games failed with non-success code: ",
                status_text,
                body,
            ),
        ),
    )
}

} // verus!
