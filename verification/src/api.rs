//! Requests to the server and the decisions behind its answers.

use crate::decimal::{self, decimal_i64};
use crate::error::{self, Error};
use crate::pathmap::{self, normalize, PathMapping};
use crate::run::{self, unfinished_jobs, StatusRow};
use crate::text;
use vstd::prelude::*;

verus! {

/// A request to list a MEGA folder.
#[derive(Debug, Clone, PartialEq, Eq)]
pub struct InspectReq {
    pub link: String,
}

/// A request to download a MEGA folder.
#[derive(Debug, Clone, PartialEq, Eq)]
pub struct CreateJobReq {
    pub link: String,
    /// Optional subset of file handles to download (defaults to all files).
    pub include_handles: Option<Vec<String>>,
}

/// A request to add a path mapping.
#[derive(Debug, Clone, PartialEq, Eq)]
pub struct PathMappingReq {
    pub remote_path: String,
    pub local_path: String,
}

// ---------------------------------------------------------------------------
// Refusals
// ---------------------------------------------------------------------------

pub const BAD_REQUEST: u16 = 400;

pub const NOT_FOUND: u16 = 404;

pub const INTERNAL_SERVER_ERROR: u16 = 500;

/// A request that is not served: a status and a message.
#[derive(Debug, Clone, PartialEq, Eq)]
pub struct ApiError {
    pub status: u16,
    pub message: String,
}

/// Whether an answer has this status and this message.
pub open spec fn refuses(e: ApiError, status: u16, message: Seq<char>) -> bool {
    e.status == status && e.message@ == message
}

fn refusal(status: u16, message: &str) -> (r: ApiError)
    ensures
        refuses(r, status, message@),
{
    ApiError { status, message: message.to_owned() }
}

/// The answer when a request could not be served because of what it asks for.
pub fn bad_request(e: &Error) -> (r: ApiError)
    ensures
        refuses(r, BAD_REQUEST, error::error_text(*e)),
{
    ApiError { status: BAD_REQUEST, message: e.to_string() }
}

/// The answer when the server itself has failed, with the message of what
/// failed.
pub fn internal(message: &str) -> (r: ApiError)
    ensures
        refuses(r, INTERNAL_SERVER_ERROR, message@),
{
    refusal(INTERNAL_SERVER_ERROR, message)
}

/// A row that a request names, or the answer that there is no such job.
pub fn found_job<T>(row: Option<T>) -> (r: Result<T, ApiError>)
    ensures
        r is Ok <==> row is Some,
        r matches Ok(t) ==> row == Some(t),
        r matches Err(e) ==> refuses(e, NOT_FOUND, "job not found"@),
{
    match row {
        Some(t) => Ok(t),
        None => Err(refusal(NOT_FOUND, "job not found")),
    }
}

// ---------------------------------------------------------------------------
// Jobs
// ---------------------------------------------------------------------------

/// The token that a new job needs.
pub fn token_for_new_job(token: Option<String>) -> (r: Result<String, ApiError>)
    ensures
        r is Ok <==> token is Some,
        r matches Ok(t) ==> token == Some(t),
        r matches Err(e) ==> refuses(
            e,
            BAD_REQUEST,
            "Real-Debrid token not set — save it in settings first"@,
        ),
{
    match token {
        Some(t) => Ok(t),
        None => Err(
            refusal(BAD_REQUEST, "Real-Debrid token not set — save it in settings first"),
        ),
    }
}

/// What to do with a request to run a job again.
#[derive(Debug, Clone, PartialEq, Eq)]
pub enum RerunStep {
    /// The job runs already: nothing is done.
    AlreadyRunning { ok: bool, note: String },
    Refused { error: ApiError },
    /// Run the job with this token.
    Run { token: String },
}

/// Decides on a request to queue a job's failed files again and resume. A
/// running job must not be retried: queueing its active transfers again and
/// running it twice would put two workers on the same file.
pub fn retry_job(running: bool, token: Option<String>) -> (r: RerunStep)
    ensures
        r is AlreadyRunning <==> running,
        r is Run <==> !running && token is Some,
        r matches RerunStep::AlreadyRunning { ok, note } ==> !ok && note@
            == "job is already running — pause it first to retry"@,
        r matches RerunStep::Refused { error } ==> refuses(
            error,
            BAD_REQUEST,
            "Real-Debrid token not set"@,
        ),
        r matches RerunStep::Run { token: t } ==> token == Some(t),
{
    if running {
        return RerunStep::AlreadyRunning {
            ok: false,
            note: "job is already running — pause it first to retry".to_owned(),
        };
    }
    match token {
        Some(token) => RerunStep::Run { token },
        None => RerunStep::Refused {
            error: refusal(BAD_REQUEST, "Real-Debrid token not set"),
        },
    }
}

/// Decides on a request to resume a paused job, which continues its queued
/// and partial files.
pub fn resume_job(running: bool, known: bool, token: Option<String>) -> (r: RerunStep)
    ensures
        r is AlreadyRunning <==> running,
        r is Run <==> !running && known && token is Some,
        r matches RerunStep::AlreadyRunning { ok, note } ==> ok && note@ == "already running"@,
        r matches RerunStep::Refused { error } ==> if known {
            refuses(error, BAD_REQUEST, "Real-Debrid token not set"@)
        } else {
            refuses(error, NOT_FOUND, "job not found"@)
        },
        r matches RerunStep::Run { token: t } ==> token == Some(t),
{
    if running {
        return RerunStep::AlreadyRunning { ok: true, note: "already running".to_owned() };
    }
    if !known {
        return RerunStep::Refused { error: refusal(NOT_FOUND, "job not found") };
    }
    match token {
        Some(token) => RerunStep::Run { token },
        None => RerunStep::Refused {
            error: refusal(BAD_REQUEST, "Real-Debrid token not set"),
        },
    }
}

/// The answer to a request to pause a job.
#[derive(Debug, Clone, PartialEq, Eq)]
pub struct PauseReply {
    pub ok: bool,
    pub paused: bool,
    pub note: Option<String>,
}

/// Answers a request to pause a job: a running job is cancelled (in-flight
/// files stop and can be resumed).
pub fn pause_job(running: bool) -> (r: PauseReply)
    ensures
        r.ok,
        r.paused == running,
        text::text_of(r.note) == if running {
            None
        } else {
            Some("job not running"@)
        },
{
    if running {
        PauseReply { ok: true, paused: true, note: None }
    } else {
        PauseReply { ok: true, paused: false, note: Some("job not running".to_owned()) }
    }
}

/// The jobs to resume at startup. Without a token there is nothing to resume
/// with.
pub fn resume_unfinished_jobs(token: &Option<String>, rows: &Vec<StatusRow>) -> (r: Vec<String>)
    ensures
        text::texts_of(r@) == if token is Some {
            run::ids_in(rows@, run::unfinished_statuses())
        } else {
            Seq::<Seq<char>>::empty()
        },
{
    if token.is_some() {
        unfinished_jobs(rows)
    } else {
        let none: Vec<String> = Vec::new();
        assert(text::texts_of(none@) =~= Seq::<Seq<char>>::empty());
        none
    }
}

// ---------------------------------------------------------------------------
// Path mappings
// ---------------------------------------------------------------------------

/// Whether a request names two paths that are not empty once normalized.
pub open spec fn names_both_paths(req: PathMappingReq) -> bool {
    pathmap::normalized(req.remote_path@).len() > 0 && pathmap::normalized(
        req.local_path@,
    ).len() > 0
}

/// The mapping that a request adds, or changes another one to.
pub fn add_path_mapping(req: &PathMappingReq) -> (r: Result<PathMapping, ApiError>)
    ensures
        r is Ok <==> names_both_paths(*req),
        r matches Ok(m) ==> {
            &&& m.id is None
            &&& m.remote_path@ == pathmap::normalized(req.remote_path@)
            &&& m.local_path@ == pathmap::normalized(req.local_path@)
            &&& m.position == 0
        },
        r matches Err(e) ==> refuses(e, BAD_REQUEST, "remote_path and local_path are required"@),
{
    let remote = normalize(req.remote_path.as_str());
    let local = normalize(req.local_path.as_str());
    if remote.as_str().is_empty() || local.as_str().is_empty() {
        return Err(refusal(BAD_REQUEST, "remote_path and local_path are required"));
    }
    Ok(PathMapping::new(remote.as_str(), local.as_str()))
}

/// A new mapping goes behind the ones that there are.
pub fn placed_last(mapping: PathMapping, existing: i64) -> (r: PathMapping)
    ensures
        r == (PathMapping { position: existing, ..mapping }),
{
    PathMapping {
        id: mapping.id,
        remote_path: mapping.remote_path,
        local_path: mapping.local_path,
        position: existing,
    }
}

/// The answer to a request about a mapping, given how many rows it has
/// changed.
fn found_mapping(id: i64, affected: u64) -> (r: Result<(), ApiError>)
    ensures
        r is Ok <==> affected > 0,
        r matches Err(e) ==> refuses(
            e,
            NOT_FOUND,
            "no mapping with id "@ + decimal::decimal(id as int),
        ),
{
    if affected == 0 {
        let mut message = "no mapping with id ".to_owned();
        message.append(decimal_i64(id).as_str());
        return Err(ApiError { status: NOT_FOUND, message });
    }
    Ok(())
}

/// The answer to a request to change a mapping, given how many rows it has
/// changed.
pub fn update_path_mapping(id: i64, affected: u64) -> (r: Result<(), ApiError>)
    ensures
        r is Ok <==> affected > 0,
        r matches Err(e) ==> refuses(
            e,
            NOT_FOUND,
            "no mapping with id "@ + decimal::decimal(id as int),
        ),
{
    found_mapping(id, affected)
}

/// The answer to a request to remove a mapping, given how many rows it has
/// removed.
pub fn delete_path_mapping(id: i64, affected: u64) -> (r: Result<(), ApiError>)
    ensures
        r is Ok <==> affected > 0,
        r matches Err(e) ==> refuses(
            e,
            NOT_FOUND,
            "no mapping with id "@ + decimal::decimal(id as int),
        ),
{
    found_mapping(id, affected)
}

// ---------------------------------------------------------------------------
// Laws
// ---------------------------------------------------------------------------

/// A refusal has just one status and one message, and the statuses are those of
/// HTTP.
pub proof fn refusals_are_plain(e: ApiError, status: u16, message: Seq<char>)
    ensures
        refuses(e, status, message) <==> e.status == status && e.message@ == message,
        BAD_REQUEST == 400,
        NOT_FOUND == 404,
        INTERNAL_SERVER_ERROR == 500,
{
}

/// A mapping is refused exactly if one of its paths is nothing but white space
/// and slashes.
pub proof fn mappings_need_two_paths(req: PathMappingReq)
    ensures
        names_both_paths(req) <==> pathmap::normalized(req.remote_path@).len() > 0
            && pathmap::normalized(req.local_path@).len() > 0,
{
}

} // verus!
