//! What the engine tells its listeners, and what it writes down about a
//! transfer.

use vstd::prelude::*;

verus! {

/// An event for the user interface.
#[derive(Debug, Clone, PartialEq, Eq)]
pub enum EngineEvent {
    JobCreated { job_id: String, root_name: String, total_files: i64, total_bytes: i64 },
    JobDone { job_id: String },
    Progress { job_id: String, handle: String, bytes_done: i64, bytes_total: i64 },
    FileRetry { job_id: String, handle: String, attempt: u32, max: u32, reason: String },
    FileFallback { job_id: String, handle: String },
    FileDone { job_id: String, handle: String },
    FileError { job_id: String, handle: String, error: String },
}

/// The contents of an event.
pub ghost enum EventView {
    JobCreated { job_id: Seq<char>, root_name: Seq<char>, total_files: i64, total_bytes: i64 },
    JobDone { job_id: Seq<char> },
    Progress { job_id: Seq<char>, handle: Seq<char>, bytes_done: i64, bytes_total: i64 },
    FileRetry { job_id: Seq<char>, handle: Seq<char>, attempt: u32, max: u32, reason: Seq<char> },
    FileFallback { job_id: Seq<char>, handle: Seq<char> },
    FileDone { job_id: Seq<char>, handle: Seq<char> },
    FileError { job_id: Seq<char>, handle: Seq<char>, error: Seq<char> },
}

impl View for EngineEvent {
    type V = EventView;

    open spec fn view(&self) -> EventView {
        match *self {
            EngineEvent::JobCreated { job_id, root_name, total_files, total_bytes } => {
                EventView::JobCreated {
                    job_id: job_id@,
                    root_name: root_name@,
                    total_files,
                    total_bytes,
                }
            },
            EngineEvent::JobDone { job_id } => EventView::JobDone { job_id: job_id@ },
            EngineEvent::Progress { job_id, handle, bytes_done, bytes_total } => {
                EventView::Progress { job_id: job_id@, handle: handle@, bytes_done, bytes_total }
            },
            EngineEvent::FileRetry { job_id, handle, attempt, max, reason } => {
                EventView::FileRetry {
                    job_id: job_id@,
                    handle: handle@,
                    attempt,
                    max,
                    reason: reason@,
                }
            },
            EngineEvent::FileFallback { job_id, handle } => EventView::FileFallback {
                job_id: job_id@,
                handle: handle@,
            },
            EngineEvent::FileDone { job_id, handle } => EventView::FileDone {
                job_id: job_id@,
                handle: handle@,
            },
            EngineEvent::FileError { job_id, handle, error } => EventView::FileError {
                job_id: job_id@,
                handle: handle@,
                error: error@,
            },
        }
    }
}

/// A change to the row of a transfer.
#[derive(Debug, Clone, PartialEq, Eq)]
pub enum TransferUpdate {
    /// The transfer is being worked on.
    Active,
    /// The transfer is being worked on by Aria2.
    ActiveInAria2,
    /// The transfer is being worked on by the engine itself, not by Aria2.
    ActiveInEngine,
    /// The transfer waits for its next attempt.
    Requeued { retries: u32, error: String },
    /// So many bytes have arrived.
    Progress { bytes_done: i64 },
    /// The transfer is complete; an earlier error is forgotten.
    Done { bytes_done: i64 },
    /// The transfer is paused.
    Paused,
    /// The transfer has failed.
    Failed { error: String },
    /// The transfer's id in Aria2.
    Gid { gid: String },
}

/// The contents of a change.
pub ghost enum UpdateView {
    Active,
    ActiveInAria2,
    ActiveInEngine,
    Requeued { retries: u32, error: Seq<char> },
    Progress { bytes_done: i64 },
    Done { bytes_done: i64 },
    Paused,
    Failed { error: Seq<char> },
    Gid { gid: Seq<char> },
}

impl View for TransferUpdate {
    type V = UpdateView;

    open spec fn view(&self) -> UpdateView {
        match *self {
            TransferUpdate::Active => UpdateView::Active,
            TransferUpdate::ActiveInAria2 => UpdateView::ActiveInAria2,
            TransferUpdate::ActiveInEngine => UpdateView::ActiveInEngine,
            TransferUpdate::Requeued { retries, error } => UpdateView::Requeued {
                retries,
                error: error@,
            },
            TransferUpdate::Progress { bytes_done } => UpdateView::Progress { bytes_done },
            TransferUpdate::Done { bytes_done } => UpdateView::Done { bytes_done },
            TransferUpdate::Paused => UpdateView::Paused,
            TransferUpdate::Failed { error } => UpdateView::Failed { error: error@ },
            TransferUpdate::Gid { gid } => UpdateView::Gid { gid: gid@ },
        }
    }
}

/// The event that reports how far a file has come.
pub fn progress_event(job_id: &str, handle: &str, bytes_done: i64, bytes_total: i64) -> (r:
    EngineEvent)
    ensures
        r@ == (EventView::Progress { job_id: job_id@, handle: handle@, bytes_done, bytes_total }),
        r matches EngineEvent::Progress { job_id: j, handle: h, bytes_done: d, bytes_total: t }
            && j@ == job_id@ && h@ == handle@ && d == bytes_done && t == bytes_total,
{
    EngineEvent::Progress {
        job_id: job_id.to_owned(),
        handle: handle.to_owned(),
        bytes_done,
        bytes_total,
    }
}

/// What is written down and told when a file is complete.
pub fn finish(job_id: &str, handle: &str, bytes: i64) -> (r: (TransferUpdate, EngineEvent))
    ensures
        r.0@ == (UpdateView::Done { bytes_done: bytes }),
        r.1@ == (EventView::FileDone { job_id: job_id@, handle: handle@ }),
        r.0 == (TransferUpdate::Done { bytes_done: bytes }),
        r.1 matches EngineEvent::FileDone { job_id: j, handle: h } && j@ == job_id@ && h@
            == handle@,
{
    (
        TransferUpdate::Done { bytes_done: bytes },
        EngineEvent::FileDone { job_id: job_id.to_owned(), handle: handle.to_owned() },
    )
}

// ---------------------------------------------------------------------------
// Laws
// ---------------------------------------------------------------------------

/// The view of an event is of the same sort and holds all that the event does.
pub proof fn event_views_tell_all(e: EngineEvent)
    ensures
        e matches EngineEvent::JobCreated { job_id, root_name, total_files, total_bytes } ==> e@
            == (EventView::JobCreated {
            job_id: job_id@,
            root_name: root_name@,
            total_files,
            total_bytes,
        }),
        e matches EngineEvent::JobDone { job_id } ==> e@ == (EventView::JobDone {
            job_id: job_id@,
        }),
        e matches EngineEvent::Progress { job_id, handle, bytes_done, bytes_total } ==> e@ == (
        EventView::Progress { job_id: job_id@, handle: handle@, bytes_done, bytes_total }),
        e matches EngineEvent::FileRetry { job_id, handle, attempt, max, reason } ==> e@ == (
        EventView::FileRetry {
            job_id: job_id@,
            handle: handle@,
            attempt,
            max,
            reason: reason@,
        }),
        e matches EngineEvent::FileFallback { job_id, handle } ==> e@ == (EventView::FileFallback {
            job_id: job_id@,
            handle: handle@,
        }),
        e matches EngineEvent::FileDone { job_id, handle } ==> e@ == (EventView::FileDone {
            job_id: job_id@,
            handle: handle@,
        }),
        e matches EngineEvent::FileError { job_id, handle, error } ==> e@ == (
        EventView::FileError { job_id: job_id@, handle: handle@, error: error@ }),
{
}

/// The view of a change is of the same sort and holds all that the change does.
pub proof fn update_views_tell_all(u: TransferUpdate)
    ensures
        u is Active <==> u@ is Active,
        u is ActiveInAria2 <==> u@ is ActiveInAria2,
        u is ActiveInEngine <==> u@ is ActiveInEngine,
        u is Paused <==> u@ is Paused,
        u matches TransferUpdate::Requeued { retries, error } ==> u@ == (UpdateView::Requeued {
            retries,
            error: error@,
        }),
        u matches TransferUpdate::Progress { bytes_done } ==> u@ == (UpdateView::Progress {
            bytes_done,
        }),
        u matches TransferUpdate::Done { bytes_done } ==> u@ == (UpdateView::Done { bytes_done }),
        u matches TransferUpdate::Failed { error } ==> u@ == (UpdateView::Failed {
            error: error@,
        }),
        u matches TransferUpdate::Gid { gid } ==> u@ == (UpdateView::Gid { gid: gid@ }),
{
}

} // verus!
