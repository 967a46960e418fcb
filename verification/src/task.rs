//! One file of a job: from its first attempt to its end.
//!
//! A file is downloaded via Real-Debrid. On a transient failure it is deferred
//! (queued again after a backoff) without blocking a worker; once the retries
//! are exhausted, or on a permanent failure, it falls back to native MEGA.

use crate::error::{self, Error};
use crate::events::{EngineEvent, EventView, TransferUpdate, UpdateView};
use crate::queue::QueueMove;
use crate::retry::{self, classify};
use vstd::prelude::*;

verus! {

/// A unit of work in the per-job download queue.
#[derive(Debug, Clone, PartialEq, Eq)]
pub struct FileTask {
    pub transfer_id: String,
    pub handle: String,
    pub rel_path: String,
    pub size: i64,
    /// The MEGA file key for the native fallback (none for nodes without one).
    pub file_key: Option<Vec<u8>>,
    /// How many transient failures this file has had so far.
    pub attempt: u32,
}

/// The contents of a task.
#[verifier::ext_equal]
pub ghost struct TaskView {
    pub transfer_id: Seq<char>,
    pub handle: Seq<char>,
    pub rel_path: Seq<char>,
    pub size: i64,
    pub file_key: Option<Seq<u8>>,
    pub attempt: u32,
}

/// The view of optional bytes.
pub open spec fn bytes_view(b: Option<Vec<u8>>) -> Option<Seq<u8>> {
    match b {
        Some(v) => Some(v@),
        None => None,
    }
}

/// A copy of an optional key.
pub fn copy_key(key: &Option<Vec<u8>>) -> (r: Option<Vec<u8>>)
    ensures
        bytes_view(r) == bytes_view(*key),
{
    match key {
        Some(k) => {
            let mut v: Vec<u8> = Vec::new();
            for i in 0..k.len()
                invariant
                    v@ == k@.take(i as int),
            {
                v.push(k[i]);
                assert(k@.take(i + 1) =~= k@.take(i as int).push(k@[i as int]));
            }
            assert(k@.take(k@.len() as int) =~= k@);
            Some(v)
        },
        None => None,
    }
}

impl View for FileTask {
    type V = TaskView;

    open spec fn view(&self) -> TaskView {
        TaskView {
            transfer_id: self.transfer_id@,
            handle: self.handle@,
            rel_path: self.rel_path@,
            size: self.size,
            file_key: bytes_view(self.file_key),
            attempt: self.attempt,
        }
    }
}

/// The length of a usable MEGA file key.
pub const FILE_KEY_LEN: usize = 32;

/// The first bytes of a key, as many as a usable key has.
fn usable_key(v: &Vec<u8>) -> (r: [u8; 32])
    requires
        v@.len() >= FILE_KEY_LEN,
    ensures
        r@ == v@.take(FILE_KEY_LEN as int),
{
    let mut key: [u8; 32] = [0u8; 32];
    for i in 0..FILE_KEY_LEN
        invariant
            v@.len() >= FILE_KEY_LEN,
            forall|j: int| 0 <= j < i ==> key@[j] == v@[j],
    {
        key[i] = v[i];
    }
    assert(key@ =~= v@.take(FILE_KEY_LEN as int));
    key
}

// ---------------------------------------------------------------------------
// Before an attempt
// ---------------------------------------------------------------------------

/// Whether a file is on disk in full: its size is known and that many bytes
/// are there.
pub open spec fn complete_on_disk(size: i64, on_disk: i64) -> bool {
    size > 0 && on_disk == size
}

/// Whether a file that already is on disk needs no download.
pub fn already_complete(size: i64, on_disk: i64) -> (r: bool)
    ensures
        r == complete_on_disk(size, on_disk),
        r <==> size > 0 && on_disk == size,
{
    size > 0 && on_disk == size
}

/// The link to one file of a shared folder.
pub open spec fn file_link(folder_id: Seq<char>, folder_key: Seq<char>, handle: Seq<char>) -> Seq<
    char,
> {
    "https://mega.nz/folder/"@ + folder_id + "#"@ + folder_key + "/file/"@ + handle
}

/// What to do with a task that a worker has taken up.
#[derive(Debug, Clone, PartialEq, Eq)]
pub enum TaskStart {
    /// A complete file is already on disk: finish the task with this size.
    OnDisk { update: TransferUpdate, event: EngineEvent },
    /// Download the file from this link, through Aria2 or with the built-in
    /// streamer.
    Attempt { update: TransferUpdate, link: String, via_aria2: bool },
}

/// Starts a task, given how many bytes of its file are on disk.
pub fn start_task(
    job_id: &str,
    folder_id: &str,
    folder_key: &str,
    task: &FileTask,
    on_disk: i64,
    aria2_enabled: bool,
) -> (r: TaskStart)
    ensures
        r is OnDisk <==> complete_on_disk(task.size, on_disk),
        r is OnDisk <==> task.size > 0 && on_disk == task.size,
        r matches TaskStart::OnDisk { update, event } ==> {
            &&& update@ == (UpdateView::Done { bytes_done: task.size })
            &&& event@ == (EventView::FileDone { job_id: job_id@, handle: task.handle@ })
        },
        r matches TaskStart::Attempt { update, link, via_aria2 } ==> {
            &&& update@ == UpdateView::Active
            &&& link@ == file_link(folder_id@, folder_key@, task.handle@)
            &&& link@ == "https://mega.nz/folder/"@ + folder_id@ + "#"@ + folder_key@ + "/file/"@
                + task.handle@
            &&& via_aria2 == aria2_enabled
        },
{
    if already_complete(task.size, on_disk) {
        let (update, event) = crate::events::finish(job_id, task.handle.as_str(), task.size);
        return TaskStart::OnDisk { update, event };
    }
    let mut link = "https://mega.nz/folder/".to_owned();
    link.append(folder_id);
    link.append("#");
    link.append(folder_key);
    link.append("/file/");
    link.append(task.handle.as_str());
    TaskStart::Attempt { update: TransferUpdate::Active, link, via_aria2: aria2_enabled }
}

// ---------------------------------------------------------------------------
// After an attempt
// ---------------------------------------------------------------------------

/// How an attempt ends for the task.
pub ghost enum Verdict {
    /// The file is complete.
    Settle,
    /// The job is paused: the task is left for resume.
    Pause,
    /// The task waits and is tried again.
    Defer,
    /// The file is downloaded from MEGA directly.
    FallBack,
    /// The file has failed.
    Fail,
}

/// Whether a task has a key that the native download can use.
pub open spec fn has_key(file_key: Option<Seq<u8>>) -> bool {
    file_key matches Some(k) && k.len() >= FILE_KEY_LEN
}

/// Whether another attempt is left after an error.
pub open spec fn attempt_left(attempt: u32, e: Error) -> bool {
    attempt + 1 < retry::attempts_allowed(retry::policy_for(e))
}

/// What follows from the outcome of an attempt.
pub open spec fn verdict(task: TaskView, outcome: Result<(), Error>) -> Verdict {
    match outcome {
        Ok(_) => Verdict::Settle,
        Err(Error::Cancelled) => Verdict::Pause,
        Err(e) => if attempt_left(task.attempt, e) {
            Verdict::Defer
        } else if has_key(task.file_key) {
            Verdict::FallBack
        } else {
            Verdict::Fail
        },
    }
}

/// The task after one more failure.
pub open spec fn deferred(task: TaskView) -> TaskView {
    TaskView { attempt: (task.attempt + 1) as u32, ..task }
}

/// The next step for a task after an attempt.
#[derive(Debug, Clone, PartialEq, Eq)]
pub enum AttemptStep {
    /// Count the task as settled.
    Settled,
    /// Leave the task for resume.
    Paused,
    /// Queue the task again after a delay.
    Deferred { task: FileTask, delay_secs: u64, update: TransferUpdate, event: EngineEvent },
    /// Download the file from MEGA directly, with this key.
    FallBack { task: FileTask, key: [u8; 32], event: EngineEvent },
    /// Record the failure and count the task as settled.
    Failed { update: TransferUpdate, event: EngineEvent },
}

/// What is written down and told when a file has failed.
pub fn fail(job_id: &str, handle: &str, e: &Error) -> (r: (TransferUpdate, EngineEvent))
    ensures
        r.0@ == (UpdateView::Failed { error: error::error_text(*e) }),
        r.1@ == (EventView::FileError {
            job_id: job_id@,
            handle: handle@,
            error: error::error_text(*e),
        }),
{
    (
        TransferUpdate::Failed { error: e.to_string() },
        EngineEvent::FileError {
            job_id: job_id.to_owned(),
            handle: handle.to_owned(),
            error: e.to_string(),
        },
    )
}

/// Decides what follows from the outcome of an attempt at a task.
pub fn after_attempt(job_id: &str, task: FileTask, outcome: Result<(), Error>) -> (r: AttemptStep)
    ensures
        r is Settled <==> outcome is Ok,
        r is Paused <==> outcome == Err::<(), Error>(Error::Cancelled),
        r is FallBack ==> task.file_key is Some,
        r is Failed ==> task.file_key is None || task.file_key->0@.len() < 32,
        r matches AttemptStep::Deferred { task: next, .. } ==> {
            &&& next.transfer_id@ == task.transfer_id@
            &&& next.handle@ == task.handle@
            &&& next.rel_path@ == task.rel_path@
            &&& next.size == task.size
            &&& bytes_view(next.file_key) == bytes_view(task.file_key)
            &&& next.attempt == task.attempt + 1
        },
        r is Settled <==> verdict(task@, outcome) is Settle,
        r is Paused <==> verdict(task@, outcome) is Pause,
        r is Deferred <==> verdict(task@, outcome) is Defer,
        r is FallBack <==> verdict(task@, outcome) is FallBack,
        r is Failed <==> verdict(task@, outcome) is Fail,
        r matches AttemptStep::Deferred { task: next, delay_secs, update, event } ==> {
            let e = outcome->Err_0;
            &&& next@ == deferred(task@)
            &&& delay_secs == retry::backoff_secs(retry::policy_for(e), next.attempt)
            &&& update@ == (UpdateView::Requeued {
                retries: next.attempt,
                error: error::error_text(e),
            })
            &&& event@ == (EventView::FileRetry {
                job_id: job_id@,
                handle: task.handle@,
                attempt: next.attempt,
                max: retry::attempts_allowed(retry::policy_for(e)),
                reason: error::error_text(e),
            })
        },
        r matches AttemptStep::FallBack { task: next, key, event } ==> {
            &&& next@ == task@
            &&& key@ == task@.file_key->0.take(FILE_KEY_LEN as int)
            &&& task.file_key is Some
            &&& task.file_key->0@.len() >= 32
            &&& forall|i: int| 0 <= i < 32 ==> #[trigger] key@[i] == task.file_key->0@[i]
            &&& event@ == (EventView::FileFallback { job_id: job_id@, handle: task.handle@ })
        },
        r matches AttemptStep::Failed { update, event } ==> {
            let e = outcome->Err_0;
            &&& update@ == (UpdateView::Failed { error: error::error_text(e) })
            &&& event@ == (EventView::FileError {
                job_id: job_id@,
                handle: task.handle@,
                error: error::error_text(e),
            })
        },
{
    let err = match outcome {
        Ok(_) => return AttemptStep::Settled,
        Err(e) => match e {
            Error::Cancelled => return AttemptStep::Paused,
            other => other,
        },
    };
    let policy = classify(&err);
    let max = policy.max_attempts();
    if task.attempt < max - 1 {
        let attempt: u32 = task.attempt + 1;
        let reason = err.to_string();
        let update = TransferUpdate::Requeued { retries: attempt, error: err.to_string() };
        let event = EngineEvent::FileRetry {
            job_id: job_id.to_owned(),
            handle: task.handle.clone(),
            attempt,
            max,
            reason,
        };
        let delay_secs = policy.backoff(attempt);
        let next = FileTask {
            transfer_id: task.transfer_id,
            handle: task.handle,
            rel_path: task.rel_path,
            size: task.size,
            file_key: task.file_key,
            attempt,
        };
        return AttemptStep::Deferred { task: next, delay_secs, update, event };
    }
    let key: Option<[u8; 32]> = match &task.file_key {
        Some(k) => if k.len() >= FILE_KEY_LEN {
            Some(usable_key(k))
        } else {
            None
        },
        None => None,
    };
    match key {
        Some(key) => {
            let event = EngineEvent::FileFallback {
                job_id: job_id.to_owned(),
                handle: task.handle.clone(),
            };
            AttemptStep::FallBack { task, key, event }
        },
        None => {
            let (update, event) = fail(job_id, task.handle.as_str(), &err);
            AttemptStep::Failed { update, event }
        },
    }
}

/// The next step for a task after the native fallback.
#[derive(Debug, Clone, PartialEq, Eq)]
pub enum FallbackStep {
    /// Count the task as settled.
    Settled,
    /// Leave the task for resume.
    Paused,
    /// Record the failure and count the task as settled.
    Failed { update: TransferUpdate, event: EngineEvent },
}

/// Decides what follows from the outcome of the native fallback.
pub fn after_fallback(job_id: &str, handle: &str, outcome: Result<(), Error>) -> (r: FallbackStep)
    ensures
        r is Settled <==> outcome is Ok,
        r is Paused <==> outcome == Err::<(), Error>(Error::Cancelled),
        r matches FallbackStep::Failed { update, event } ==> {
            &&& outcome is Err
            &&& update@ == (UpdateView::Failed { error: error::error_text(outcome->Err_0) })
            &&& event@ == (EventView::FileError {
                job_id: job_id@,
                handle: handle@,
                error: error::error_text(outcome->Err_0),
            })
        },
{
    match outcome {
        Ok(_) => FallbackStep::Settled,
        Err(e) => match e {
            Error::Cancelled => FallbackStep::Paused,
            other => {
                let (update, event) = fail(job_id, handle, &other);
                FallbackStep::Failed { update, event }
            },
        },
    }
}

// ---------------------------------------------------------------------------
// What a step means for the queue
// ---------------------------------------------------------------------------

/// The move of a task that a worker has taken up, if it ends with its start.
pub open spec fn start_move(s: TaskStart) -> Option<QueueMove> {
    match s {
        TaskStart::OnDisk { .. } => Some(QueueMove::Settle),
        TaskStart::Attempt { .. } => None,
    }
}

/// The move of a task after an attempt; none where the fallback follows.
pub open spec fn attempt_move(s: AttemptStep) -> Option<QueueMove> {
    match s {
        AttemptStep::Settled => Some(QueueMove::Settle),
        AttemptStep::Paused => Some(QueueMove::Leave),
        AttemptStep::Deferred { .. } => Some(QueueMove::Defer),
        AttemptStep::FallBack { .. } => None,
        AttemptStep::Failed { .. } => Some(QueueMove::Settle),
    }
}

/// The move of a task after the native fallback.
pub open spec fn fallback_move(s: FallbackStep) -> QueueMove {
    match s {
        FallbackStep::Settled => QueueMove::Settle,
        FallbackStep::Paused => QueueMove::Leave,
        FallbackStep::Failed { .. } => QueueMove::Settle,
    }
}

impl TaskStart {
    /// Whether the task is settled and to be counted.
    pub fn settles(&self) -> (r: bool)
        ensures
            r == (start_move(*self) == Some(QueueMove::Settle)),
    {
        match self {
            TaskStart::OnDisk { .. } => true,
            TaskStart::Attempt { .. } => false,
        }
    }
}

impl AttemptStep {
    /// Whether the task is settled and to be counted.
    pub fn settles(&self) -> (r: bool)
        ensures
            r == (attempt_move(*self) == Some(QueueMove::Settle)),
    {
        match self {
            AttemptStep::Settled => true,
            AttemptStep::Failed { .. } => true,
            _ => false,
        }
    }
}

impl FallbackStep {
    /// Whether the task is settled and to be counted.
    pub fn settles(&self) -> (r: bool)
        ensures
            r == (fallback_move(*self) == QueueMove::Settle),
    {
        match self {
            FallbackStep::Paused => false,
            _ => true,
        }
    }
}

// ---------------------------------------------------------------------------
// Laws
// ---------------------------------------------------------------------------

/// A task after a run of failed attempts, each of which deferred it.
pub open spec fn after_failures(task: TaskView, errors: Seq<Error>) -> TaskView
    decreases errors.len(),
{
    if errors.len() == 0 {
        task
    } else {
        deferred(after_failures(task, errors.drop_last()))
    }
}

/// Whether each of the errors, one after the other, defers the task.
pub open spec fn all_defer(task: TaskView, errors: Seq<Error>) -> bool {
    forall|i: int|
        0 <= i < errors.len() ==> verdict(
            after_failures(task, errors.take(i)),
            Err(#[trigger] errors[i]),
        ) is Defer
}

/// Retries are bounded: a fresh task is deferred at most seven times, whatever
/// goes wrong, and a deferred task counts its failures.
pub proof fn retries_are_bounded(task: TaskView, errors: Seq<Error>)
    requires
        task.attempt == 0,
        all_defer(task, errors),
    ensures
        errors.len() <= 7,
        after_failures(task, errors).attempt == errors.len(),
        after_failures(task, errors) == (TaskView { attempt: errors.len() as u32, ..task }),
    decreases errors.len(),
{
    if errors.len() > 0 {
        let front = errors.drop_last();
        assert(all_defer(task, front)) by {
            assert forall|i: int| 0 <= i < front.len() implies verdict(
                after_failures(task, front.take(i)),
                Err(#[trigger] front[i]),
            ) is Defer by {
                assert(front.take(i) =~= errors.take(i));
                assert(front[i] == errors[i]);
                assert(verdict(after_failures(task, errors.take(i)), Err(errors[i])) is Defer);
            }
        }
        retries_are_bounded(task, front);
        let last = errors.len() - 1;
        assert(errors.take(last) =~= front);
        assert(verdict(after_failures(task, errors.take(last)), Err(errors[last])) is Defer);
    }
}

/// A file that Real-Debrid cannot serve does not fail the run while it has a
/// usable key: no outcome of an attempt makes it fail before the native
/// download was tried.
pub proof fn files_with_a_key_fall_back(task: TaskView, outcome: Result<(), Error>)
    requires
        has_key(task.file_key),
    ensures
        !(verdict(task, outcome) is Fail),
        outcome is Err && outcome != Err::<(), Error>(Error::Cancelled) ==> {
            ||| verdict(task, outcome) is FallBack
            ||| verdict(task, outcome) is Defer
        },
{
}

/// Permanent errors are not retried.
pub proof fn permanent_errors_are_not_retried(task: TaskView, e: Error)
    requires
        retry::policy_for(e) is Fatal,
    ensures
        !(verdict(task, Err(e)) is Defer),
{
}

/// The moves of a task from when a worker takes it up until the worker is free
/// again, given the step at its start, after the attempt, and after the
/// fallback; each of them counts only if the task gets there.
pub open spec fn moves_of(
    start: TaskStart,
    attempt: AttemptStep,
    fallback: FallbackStep,
) -> Seq<QueueMove> {
    match start_move(start) {
        Some(m) => seq![m],
        None => match attempt_move(attempt) {
            Some(m) => seq![m],
            None => seq![fallback_move(fallback)],
        },
    }
}

/// A worker makes exactly one move with a task that it has taken up, and the
/// move settles the task unless it is deferred or the job is paused. So a task
/// is counted once, however it ends.
pub proof fn a_task_is_settled_once(start: TaskStart, attempt: AttemptStep, fallback: FallbackStep)
    ensures
        moves_of(start, attempt, fallback).len() == 1,
        ({
            let deferred = start is Attempt && attempt is Deferred;
            let paused = start is Attempt && (attempt is Paused || attempt is FallBack
                && fallback is Paused);
            &&& moves_of(start, attempt, fallback)[0] is Settle <==> !deferred && !paused
            &&& moves_of(start, attempt, fallback)[0] is Defer <==> deferred
            &&& moves_of(start, attempt, fallback)[0] is Leave <==> paused
        }),
{
}

/// The move after an attempt follows from its outcome alone: success and a
/// final failure settle a task, a transient failure defers it, a pause leaves
/// it.
pub proof fn moves_follow_verdicts(task: TaskView, outcome: Result<(), Error>, step: AttemptStep)
    requires
        step is Settled <==> verdict(task, outcome) is Settle,
        step is Paused <==> verdict(task, outcome) is Pause,
        step is Deferred <==> verdict(task, outcome) is Defer,
        step is FallBack <==> verdict(task, outcome) is FallBack,
        step is Failed <==> verdict(task, outcome) is Fail,
    ensures
        attempt_move(step) == match verdict(task, outcome) {
            Verdict::Settle => Some(QueueMove::Settle),
            Verdict::Pause => Some(QueueMove::Leave),
            Verdict::Defer => Some(QueueMove::Defer),
            Verdict::FallBack => None,
            Verdict::Fail => Some(QueueMove::Settle),
        },
{
}

/// A link is the file's own: it is made of the folder's id, the folder's key
/// and the whole handle of the file, in that order, so two files of a folder
/// never share a link.
pub proof fn links_are_the_files_own(
    folder_id: Seq<char>,
    folder_key: Seq<char>,
    a: Seq<char>,
    b: Seq<char>,
)
    ensures
        ({
            let link = file_link(folder_id, folder_key, a);
            let front = "https://mega.nz/folder/"@ + folder_id + "#"@ + folder_key + "/file/"@;
            &&& link.len() == front.len() + a.len()
            &&& link.take(front.len() as int) == front
            &&& link.skip(link.len() - a.len()) == a
        }),
        file_link(folder_id, folder_key, a) == file_link(folder_id, folder_key, b) <==> a == b,
{
    let front = "https://mega.nz/folder/"@ + folder_id + "#"@ + folder_key + "/file/"@;
    let la = file_link(folder_id, folder_key, a);
    let lb = file_link(folder_id, folder_key, b);
    assert(la =~= front + a);
    assert(lb =~= front + b);
    assert(la.take(front.len() as int) =~= front);
    assert(la.skip(la.len() - a.len()) =~= a);
    if la == lb {
        assert(la.skip(front.len() as int) =~= a);
        assert(lb.skip(front.len() as int) =~= b);
    }
}

/// What every outcome of an attempt leads to, whatever the task: success
/// settles it, a pause leaves it. A dropped connection, a short file, a busy
/// database, a rate limit and a server error are tried five times in all, a file
/// that Real-Debrid has not cached yet eight times; nothing else is tried again.
/// After that a file with a key of 32 bytes falls back, and any other fails.
pub proof fn every_outcome_has_its_consequence(task: TaskView, outcome: Result<(), Error>)
    ensures
        outcome is Ok ==> verdict(task, outcome) is Settle,
        outcome == Err::<(), Error>(Error::Cancelled) ==> verdict(task, outcome) is Pause,
        outcome matches Err(e) ==> !(e is Cancelled) ==> {
            let cold = e matches Error::RealDebrid { code, .. } && code == Some(24i64);
            let busy = e matches Error::RealDebrid { status, .. } && (status == 429 || 500
                <= status <= 599);
            let again = cold && task.attempt < 7 || !cold && (busy || e is Http || e is Incomplete
                || e is Db) && task.attempt < 4;
            let keyed = task.file_key is Some && task.file_key->0.len() >= 32;
            &&& verdict(task, outcome) is Defer <==> again
            &&& verdict(task, outcome) is FallBack <==> !again && keyed
            &&& verdict(task, outcome) is Fail <==> !again && !keyed
        },
{
}

/// Being deferred changes nothing about a task but the count of its failures.
pub proof fn deferring_counts_one_failure(task: TaskView)
    requires
        task.attempt < u32::MAX,
    ensures
        deferred(task).attempt == task.attempt + 1,
        deferred(task).transfer_id == task.transfer_id,
        deferred(task).handle == task.handle,
        deferred(task).rel_path == task.rel_path,
        deferred(task).size == task.size,
        deferred(task).file_key == task.file_key,
{
}

/// The view of a task holds all of it.
pub proof fn task_views_tell_all(task: FileTask)
    ensures
        task@.transfer_id == task.transfer_id@,
        task@.handle == task.handle@,
        task@.rel_path == task.rel_path@,
        task@.size == task.size,
        task@.attempt == task.attempt,
        task@.file_key is Some <==> task.file_key is Some,
        task.file_key matches Some(k) ==> task@.file_key == Some(k@),
{
}

/// A file is on disk in full exactly if its size is known and that many bytes
/// are there; a file of unknown size never is.
pub proof fn only_whole_files_are_skipped(size: i64, on_disk: i64)
    ensures
        complete_on_disk(size, on_disk) <==> size > 0 && on_disk == size,
{
}

} // verus!
