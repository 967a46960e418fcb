//! Watching a download in Aria2 until it completes, fails, or the job is
//! paused.

use crate::aria2::{self, base64_err, AriaStatus};
use crate::decimal::{self, parse_i64};
use crate::error::Error;
use crate::events::{progress_event, EngineEvent, EventView, TransferUpdate, UpdateView};
use crate::retry::{self, RetryPolicy};
use crate::text::same_text;
use vstd::prelude::*;

verus! {

/// How long to wait between two looks at a download.
pub const POLL_MILLIS: u64 = 500;

/// How often progress is written down and told.
pub const PROGRESS_MILLIS: u64 = 300;

/// How many looks in a row have failed when Aria2 counts as gone; between them
/// lies half a minute of waiting. Fewer are a hiccup.
pub const MAX_MISSES: u32 = 60;

/// What a look at a download brought.
#[derive(Debug, Clone, PartialEq, Eq)]
pub enum PollEvent {
    /// The job is paused or stopped.
    Cancelled,
    /// Aria2 could not be asked, so many times in a row.
    Unreachable { misses: u32 },
    /// Aria2's answer.
    Status(AriaStatus),
}

/// What follows from a look at a download.
#[derive(Debug, Clone, PartialEq, Eq)]
pub enum PollStep {
    /// Leave Aria2 running in place (it will resume next time), write the
    /// update down and end with this error.
    Pause { update: TransferUpdate, error: Error },
    /// End with this many bytes downloaded.
    Complete { bytes: i64 },
    /// The download failed with this error; the link itself may be to blame.
    Fail { error: Error, link_error: bool },
    /// Aria2 is gone: fetch the file with the built-in streamer.
    Stream { update: TransferUpdate },
    /// Write down and tell the progress, where it is due, and look again
    /// after a while.
    Wait { millis: u64, progress: Option<(TransferUpdate, EngineEvent)> },
}

/// How many bytes a download has, by Aria2's word; none if that is no number.
pub open spec fn bytes_completed(completed_length: Seq<char>) -> i64 {
    match decimal::parsed_i64(completed_length) {
        Some(n) => n,
        None => 0,
    }
}

/// Reads how many bytes a download has.
pub fn read_completed(completed_length: &str) -> (r: i64)
    ensures
        r == bytes_completed(completed_length@),
        decimal::parsed_i64(completed_length@) matches Some(n) ==> r == n,
        decimal::parsed_i64(completed_length@) is None ==> r == 0,
{
    match parse_i64(completed_length) {
        Some(n) => n,
        None => 0,
    }
}

/// The larger of two sizes.
pub open spec fn larger(a: i64, b: i64) -> i64 {
    if a >= b {
        a
    } else {
        b
    }
}

/// Picks the larger of two sizes.
pub fn pick_larger(a: i64, b: i64) -> (r: i64)
    ensures
        r == larger(a, b),
        r >= a && r >= b && (r == a || r == b),
{
    if a >= b {
        a
    } else {
        b
    }
}

/// A text that may be missing, which is then empty.
pub open spec fn text_or_empty(t: Option<String>) -> Seq<char> {
    match t {
        Some(s) => s@,
        None => Seq::empty(),
    }
}

/// The text of the error for a download that failed in Aria2.
pub open spec fn failure_text(code: Seq<char>, message: Seq<char>) -> Seq<char> {
    "aria2 error (code "@ + code + "): "@ + message
}

/// The error for a download that failed in Aria2, from its code and its
/// decoded message.
pub fn failure(code: &str, message: &str) -> (r: Error)
    ensures
        aria2::is_other(r, failure_text(code@, message@)),
        r matches Error::Other(m) && m@ == "aria2 error (code "@ + code@ + "): "@ + message@,
{
    let mut t = "aria2 error (code ".to_owned();
    t.append(code);
    t.append("): ");
    t.append(message);
    assert(t@ =~= failure_text(code@, message@));
    Error::Other(t)
}

/// Whether Aria2's error code blames the link: the resource was not found (3),
/// the server's answer was not the one expected (22), or access was refused
/// (24). A Real-Debrid link that has expired fails in one of these ways.
pub open spec fn blames_link(code: Seq<char>) -> bool {
    code == "3"@ || code == "22"@ || code == "24"@
}

fn is_link_code(code: &str) -> (r: bool)
    ensures
        r == blames_link(code@),
        r <==> code@ == "3"@ || code@ == "22"@ || code@ == "24"@,
{
    same_text(code, "3") || same_text(code, "22") || same_text(code, "24")
}

/// Decides what follows from a look at a download of a file with this total
/// size, where `due` tells whether progress is to be reported.
pub fn after_poll(job_id: &str, handle: &str, event: PollEvent, total: i64, due: bool) -> (r:
    PollStep)
    ensures
        match event {
            PollEvent::Cancelled => r matches PollStep::Pause { update, error } && update@
                == UpdateView::Paused && error == Error::Cancelled,
            PollEvent::Unreachable { misses } => if misses < MAX_MISSES {
                r == (PollStep::Wait { millis: POLL_MILLIS, progress: None })
            } else {
                r matches PollStep::Stream { update } && update@ == UpdateView::ActiveInEngine
            },
            PollEvent::Status(st) => {
                let done = bytes_completed(st.completed_length@);
                if st.status@ == "complete"@ {
                    r == (PollStep::Complete { bytes: done })
                } else if st.status@ == "error"@ {
                    r matches PollStep::Fail { error, link_error } && {
                        &&& aria2::is_other(
                            error,
                            failure_text(
                                text_or_empty(st.error_code),
                                aria2::plain_message(text_or_empty(st.error_message)),
                            ),
                        )
                        &&& link_error == blames_link(text_or_empty(st.error_code))
                    }
                } else if st.status@ == "removed"@ {
                    r matches PollStep::Fail { error, link_error } && aria2::is_other(
                        error,
                        "aria2 download removed"@,
                    ) && !link_error
                } else {
                    r matches PollStep::Wait { millis, progress } && {
                        &&& millis == POLL_MILLIS
                        &&& progress is Some <==> due
                        &&& progress matches Some(p) ==> {
                            &&& p.0@ == (UpdateView::Progress { bytes_done: done })
                            &&& p.1@ == (EventView::Progress {
                                job_id: job_id@,
                                handle: handle@,
                                bytes_done: done,
                                bytes_total: larger(total, done),
                            })
                        }
                    }
                }
            },
        },
{
    let st = match event {
        PollEvent::Cancelled => {
            return PollStep::Pause { update: TransferUpdate::Paused, error: Error::Cancelled };
        },
        PollEvent::Unreachable { misses } => {
            if misses < MAX_MISSES {
                return PollStep::Wait { millis: POLL_MILLIS, progress: None };
            }
            return PollStep::Stream { update: TransferUpdate::ActiveInEngine };
        },
        PollEvent::Status(st) => st,
    };
    let done = read_completed(st.completed_length.as_str());
    if same_text(st.status.as_str(), "complete") {
        return PollStep::Complete { bytes: done };
    }
    if same_text(st.status.as_str(), "error") {
        let code = owned_or_empty(st.error_code);
        let raw = owned_or_empty(st.error_message);
        let message = base64_err(raw.as_str());
        return PollStep::Fail {
            error: failure(code.as_str(), message.as_str()),
            link_error: is_link_code(code.as_str()),
        };
    }
    if same_text(st.status.as_str(), "removed") {
        return PollStep::Fail {
            error: Error::Other("aria2 download removed".to_owned()),
            link_error: false,
        };
    }
    if due {
        let event = progress_event(job_id, handle, done, pick_larger(total, done));
        let update = TransferUpdate::Progress { bytes_done: done };
        PollStep::Wait { millis: POLL_MILLIS, progress: Some((update, event)) }
    } else {
        PollStep::Wait { millis: POLL_MILLIS, progress: None }
    }
}

/// How many looks in a row have failed after one more look, counted up to the
/// bound.
pub open spec fn misses_next(misses: u32, reached: bool) -> u32 {
    if reached {
        0
    } else if misses < MAX_MISSES {
        (misses + 1) as u32
    } else {
        misses
    }
}

/// Counts one more look.
pub fn count_look(misses: u32, reached: bool) -> (r: u32)
    ensures
        r == misses_next(misses, reached),
        reached ==> r == 0,
        !reached && misses < 60 ==> r == misses + 1,
        !reached && misses >= 60 ==> r == misses,
{
    if reached {
        0
    } else if misses < MAX_MISSES {
        misses + 1
    } else {
        misses
    }
}

/// A text, or the empty one.
pub fn owned_or_empty(t: Option<String>) -> (r: String)
    ensures
        r@ == text_or_empty(t),
{
    match t {
        Some(s) => s,
        None => {
            let s = String::new();
            assert(s@ =~= Seq::<char>::empty());
            s
        },
    }
}

// ---------------------------------------------------------------------------
// Expired links
// ---------------------------------------------------------------------------

/// How to go on from a download that failed in Aria2.
#[derive(Debug, Clone, PartialEq, Eq)]
pub enum FailureStep {
    /// Unrestrict the link again and hand Aria2 the fresh one.
    Renew,
    /// Give the attempt up.
    GiveUp { error: Error },
}

/// Whether a failed download gets a fresh link: the link is to blame, and not
/// as many links have failed as a file has attempts.
pub open spec fn gets_fresh_link(link_error: bool, renewals: u32) -> bool {
    link_error && renewals + 1 < retry::attempts_allowed(RetryPolicy::Normal)
}

/// Decides how to go on from a download that failed in Aria2, given how many
/// fresh links this attempt has had.
pub fn after_failure(error: Error, link_error: bool, renewals: u32) -> (r: FailureStep)
    ensures
        r is Renew <==> gets_fresh_link(link_error, renewals),
        r is Renew <==> link_error && renewals < 4,
        r matches FailureStep::GiveUp { error: e } ==> e == error,
{
    if link_error && renewals < RetryPolicy::Normal.max_attempts() - 1 {
        FailureStep::Renew
    } else {
        FailureStep::GiveUp { error }
    }
}

// ---------------------------------------------------------------------------
// Laws
// ---------------------------------------------------------------------------

/// An expired link does not end an attempt: the first failure that blames the
/// link always brings a fresh one, and no attempt has more than four.
pub proof fn expired_links_are_renewed(renewals: u32)
    ensures
        gets_fresh_link(true, 0),
        gets_fresh_link(true, renewals) <==> renewals < 4,
        !gets_fresh_link(false, renewals),
{
}

/// How many looks in a row have failed after some more looks.
pub open spec fn misses_after(misses: u32, reached: Seq<bool>) -> u32
    decreases reached.len(),
{
    if reached.len() == 0 {
        misses
    } else {
        misses_next(misses_after(misses, reached.drop_last()), reached.last())
    }
}

/// A file does not hang on an outage of Aria2: as many failed looks in a row as
/// the bound says send it to the streamer, whatever was before; and a look that
/// succeeds starts the count anew.
pub proof fn outages_end_the_watch(misses: u32, reached: Seq<bool>)
    ensures
        reached.len() >= MAX_MISSES && (forall|i: int| 0 <= i < reached.len() ==> !reached[i])
            ==> misses_after(misses, reached) >= MAX_MISSES,
        reached.len() > 0 && reached.last() ==> misses_after(misses, reached) == 0,
{
    if forall|i: int| 0 <= i < reached.len() ==> !reached[i] {
        failed_looks_add_up(misses, reached);
    }
}

proof fn failed_looks_add_up(misses: u32, reached: Seq<bool>)
    requires
        forall|i: int| 0 <= i < reached.len() ==> !reached[i],
    ensures
        misses_after(misses, reached) >= reached.len() || misses_after(misses, reached)
            >= MAX_MISSES,
    decreases reached.len(),
{
    if reached.len() > 0 {
        assert(!reached[reached.len() - 1]);
        failed_looks_add_up(misses, reached.drop_last());
    }
}

/// What Aria2 says of a download is taken as it is: the number of bytes where it
/// is a number and zero where it is none, the larger of two sizes, a missing
/// text as an empty one.
pub proof fn aria2_is_taken_at_its_word(completed: Seq<char>, a: i64, b: i64, t: Option<String>)
    ensures
        decimal::parsed_i64(completed) matches Some(n) ==> bytes_completed(completed) == n,
        decimal::parsed_i64(completed) is None ==> bytes_completed(completed) == 0,
        larger(a, b) >= a,
        larger(a, b) >= b,
        larger(a, b) == a || larger(a, b) == b,
        t matches Some(s) ==> text_or_empty(t) == s@,
        t is None ==> text_or_empty(t).len() == 0,
{
}

/// A failure is told with its whole code and its whole message.
pub proof fn failures_are_told_in_full(code: Seq<char>, message: Seq<char>)
    ensures
        failure_text(code, message) == "aria2 error (code "@ + code + "): "@ + message,
        failure_text(code, message).skip(
            failure_text(code, message).len() - message.len(),
        ) == message,
{
    let t = failure_text(code, message);
    assert(t.skip(t.len() - message.len()) =~= message);
}

/// Which codes blame the link, how often one is renewed, and how many failed
/// looks are an outage.
pub proof fn links_are_blamed_by_code(code: Seq<char>, misses: u32)
    ensures
        blames_link(code) <==> code == "3"@ || code == "22"@ || code == "24"@,
        POLL_MILLIS == 500,
        PROGRESS_MILLIS == 300,
        MAX_MISSES == 60,
        misses_next(misses, true) == 0,
        misses < 60 ==> misses_next(misses, false) == misses + 1,
{
}

} // verus!
