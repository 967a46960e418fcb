//! Downloading a file with the built-in streamer: resuming what is on disk,
//! and accepting the result only when it is whole.

use crate::decimal::{self, decimal_i64};
use crate::error::Error;
use crate::events::{progress_event, EngineEvent, EventView};
use vstd::prelude::*;

verus! {

/// What is made of the bytes of a file that are on disk before an attempt.
#[derive(Debug, Clone, Copy, PartialEq, Eq, Structural)]
pub struct Existing {
    /// How many bytes to resume behind.
    pub bytes: i64,
    /// Whether the file is to be removed first.
    pub discard: bool,
}

/// A file larger than expected is corrupt and starts over; any other is
/// resumed.
pub open spec fn usable(expected: i64, on_disk: i64) -> Existing {
    if expected > 0 && on_disk > expected {
        Existing { bytes: 0, discard: true }
    } else {
        Existing { bytes: on_disk, discard: false }
    }
}

/// Decides what to make of the bytes on disk.
pub fn check_existing(expected: i64, on_disk: i64) -> (r: Existing)
    ensures
        r == usable(expected, on_disk),
        expected <= 0 || on_disk <= expected ==> r.bytes == on_disk && !r.discard,
        expected > 0 && on_disk > expected ==> r.bytes == 0 && r.discard,
{
    if expected > 0 && on_disk > expected {
        Existing { bytes: 0, discard: true }
    } else {
        Existing { bytes: on_disk, discard: false }
    }
}

/// The `Range` header of a request: none for a file from its start.
pub open spec fn range_text(existing: i64) -> Option<Seq<char>> {
    if existing > 0 {
        Some("bytes="@ + decimal::decimal(existing as int) + "-"@)
    } else {
        None
    }
}

/// The `Range` header to send, if the download resumes.
pub fn range_header(existing: i64) -> (r: Option<String>)
    ensures
        crate::text::text_of(r) == range_text(existing),
        r is Some <==> existing > 0,
        r matches Some(h) ==> h@ == "bytes="@ + decimal::decimal(existing as int) + "-"@,
{
    if existing > 0 {
        let mut h = "bytes=".to_owned();
        h.append(decimal_i64(existing).as_str());
        h.append("-");
        Some(h)
    } else {
        None
    }
}

/// The first of two sizes that is known, where a size of zero or less is not.
pub open spec fn known_size(first: i64, second: i64) -> i64 {
    if first > 0 {
        first
    } else {
        second
    }
}

/// Picks the first of two sizes that is known.
pub fn pick_size(first: i64, second: i64) -> (r: i64)
    ensures
        r == known_size(first, second),
        first > 0 ==> r == first,
        first <= 0 ==> r == second,
{
    if first > 0 {
        first
    } else {
        second
    }
}

/// The status of a response that honours a `Range` header.
pub const PARTIAL_CONTENT: u16 = 206;

/// A download under way.
#[derive(Debug, PartialEq, Eq)]
pub struct StreamDownload {
    /// The size to report.
    pub total: i64,
    /// The size that the file must have in the end; zero or less if unknown.
    pub target: i64,
    /// How many bytes of the file are there.
    pub downloaded: i64,
    /// Whether to append to the file on disk; if not, it is created anew.
    pub append: bool,
}

/// Whether a response continues the file: bytes were there, so a range was
/// asked for, and the server sent just the rest.
pub open spec fn resumes(existing: i64, status: u16) -> bool {
    existing > 0 && status == PARTIAL_CONTENT
}

/// Whether so many bytes are a whole file.
pub open spec fn is_whole(target: i64, downloaded: i64) -> bool {
    target > 0 ==> downloaded == target
}

impl StreamDownload {
    /// Starts on a response, given how many bytes the request resumed behind,
    /// the size in the tree, the size that Real-Debrid gave, and the status
    /// of the response. If the whole file was sent although the rest was
    /// asked for, the file starts over.
    pub fn begin(existing: i64, expected: i64, filesize: i64, status: u16) -> (r: Self)
        ensures
            r.total == known_size(filesize, expected),
            filesize > 0 ==> r.total == filesize,
            filesize <= 0 ==> r.total == expected,
            r.target == known_size(expected, r.total),
            expected > 0 ==> r.target == expected,
            expected <= 0 ==> r.target == r.total,
            r.append == resumes(existing, status),
            r.append <==> existing > 0 && status == 206,
            r.append ==> r.downloaded == existing,
            !r.append ==> r.downloaded == 0,
            r.downloaded == if resumes(existing, status) {
                existing
            } else {
                0
            },
    {
        let total = pick_size(filesize, expected);
        let target = pick_size(expected, total);
        let append = existing > 0 && status == PARTIAL_CONTENT;
        let downloaded: i64 = if append {
            existing
        } else {
            0
        };
        StreamDownload { total, target, downloaded, append }
    }

    /// Counts a chunk that was written.
    pub fn received(&mut self, bytes: usize)
        requires
            old(self).downloaded + bytes <= i64::MAX,
        ensures
            final(self).downloaded == old(self).downloaded + bytes,
            final(self).total == old(self).total,
            final(self).target == old(self).target,
            final(self).append == old(self).append,
    {
        self.downloaded = (self.downloaded as i128 + bytes as i128) as i64;
    }

    /// The event that reports how far the file has come.
    pub fn progress(&self, job_id: &str, handle: &str) -> (r: EngineEvent)
        ensures
            r@ == (EventView::Progress {
                job_id: job_id@,
                handle: handle@,
                bytes_done: self.downloaded,
                bytes_total: self.total,
            }),
    {
        progress_event(job_id, handle, self.downloaded, self.total)
    }

    /// Ends the download. A short read means a truncated or dropped transfer,
    /// which is an error (and can be retried).
    pub fn complete(&self) -> (r: Result<i64, Error>)
        ensures
            r is Ok <==> is_whole(self.target, self.downloaded),
            r is Ok <==> self.target <= 0 || self.downloaded == self.target,
            r matches Ok(n) ==> n == self.downloaded,
            r matches Err(e) ==> e == (Error::Incomplete {
                got: self.downloaded,
                expected: self.target,
            }),
    {
        if self.target > 0 && self.downloaded != self.target {
            Err(Error::Incomplete { got: self.downloaded, expected: self.target })
        } else {
            Ok(self.downloaded)
        }
    }
}

// ---------------------------------------------------------------------------
// Laws
// ---------------------------------------------------------------------------

/// The file on disk after a response's body was written to it.
pub open spec fn file_after(disk: Seq<u8>, append: bool, body: Seq<u8>) -> Seq<u8> {
    if append {
        disk + body
    } else {
        body
    }
}

/// What a server sends of a file: the rest behind `existing` bytes with the
/// status for a range, where it is asked for that and honours it; else the
/// whole file with another status.
pub open spec fn answers(remote: Seq<u8>, existing: i64, status: u16, body: Seq<u8>) -> bool {
    if existing > 0 && status == PARTIAL_CONTENT {
        body == remote.skip(existing as int)
    } else {
        body == remote
    }
}

/// Downloads resume: with the start of a file on disk, a whole response makes
/// the file on disk the file on the server, whether the server honours the
/// range or sends everything, and the result is accepted.
pub proof fn resumed_downloads_are_whole(
    remote: Seq<u8>,
    disk: Seq<u8>,
    expected: i64,
    filesize: i64,
    status: u16,
    body: Seq<u8>,
)
    requires
        remote.len() <= i64::MAX,
        disk.is_prefix_of(remote),
        known_size(expected, known_size(filesize, expected)) > 0 ==> known_size(
            expected,
            known_size(filesize, expected),
        ) == remote.len(),
        answers(remote, usable(expected, disk.len() as i64).bytes, status, body),
    ensures
        ({
            let existing = usable(expected, disk.len() as i64);
            let append = resumes(existing.bytes, status);
            let start = if append {
                existing.bytes
            } else {
                0
            };
            let target = known_size(expected, known_size(filesize, expected));
            &&& !existing.discard
            &&& file_after(disk, append, body) == remote
            &&& start + body.len() == remote.len()
            &&& is_whole(target, (start + body.len()) as i64)
        }),
{
    let existing = usable(expected, disk.len() as i64).bytes;
    assert(disk =~= remote.take(disk.len() as int));
    if resumes(existing, status) {
        assert(disk + remote.skip(existing as int) =~= remote);
    }
}

/// Interrupted downloads can be resumed: wherever a response breaks off, the
/// file on disk is a start of the file on the server, so the next attempt goes
/// on from there.
pub proof fn interrupted_downloads_can_be_resumed(
    remote: Seq<u8>,
    disk: Seq<u8>,
    existing: i64,
    status: u16,
    body: Seq<u8>,
    arrived: int,
)
    requires
        disk.is_prefix_of(remote),
        existing == disk.len(),
        answers(remote, existing, status, body),
        0 <= arrived <= body.len(),
    ensures
        file_after(disk, resumes(existing, status), body.take(arrived)).is_prefix_of(remote),
{
    assert(disk =~= remote.take(disk.len() as int));
    let after = file_after(disk, resumes(existing, status), body.take(arrived));
    if resumes(existing, status) {
        assert(after =~= remote.take(disk.len() + arrived));
    } else {
        assert(after =~= remote.take(arrived));
    }
}

/// Truncated files are refused: fewer or more bytes than the size that is
/// known never pass for the file.
pub proof fn truncated_files_are_refused(expected: i64, filesize: i64, downloaded: i64)
    requires
        expected > 0 || filesize > 0,
        downloaded != known_size(expected, known_size(filesize, expected)),
    ensures
        !is_whole(known_size(expected, known_size(filesize, expected)), downloaded),
{
}

/// What is on disk is not thrown away: the bytes of a partial file, of a whole
/// one, and of one whose size is unknown are all resumed behind. Only a file
/// that is larger than it should be starts over.
pub proof fn bytes_on_disk_are_kept(expected: i64, on_disk: i64)
    ensures
        on_disk <= expected || expected <= 0 ==> usable(expected, on_disk).bytes == on_disk
            && !usable(expected, on_disk).discard,
        0 < expected < on_disk ==> usable(expected, on_disk).bytes == 0 && usable(
            expected,
            on_disk,
        ).discard,
{
}

/// Only the rest is fetched: with the start of a file on disk, the request asks
/// for the bytes behind it, a server that honours that sends just as many as
/// are missing, and they are appended.
pub proof fn only_the_rest_is_fetched(
    remote: Seq<u8>,
    disk: Seq<u8>,
    expected: i64,
    body: Seq<u8>,
)
    requires
        0 < disk.len() <= remote.len() <= i64::MAX,
        expected <= 0 || expected == remote.len(),
        answers(remote, usable(expected, disk.len() as i64).bytes, 206, body),
    ensures
        range_text(usable(expected, disk.len() as i64).bytes) == Some(
            "bytes="@ + decimal::decimal(disk.len() as int) + "-"@,
        ),
        resumes(usable(expected, disk.len() as i64).bytes, 206),
        body.len() == remote.len() - disk.len(),
        body == remote.skip(disk.len() as int),
{
}

/// A response continues a file exactly if something was asked to be continued
/// and the server sent a part.
pub proof fn only_partial_content_is_appended(existing: i64, status: u16)
    ensures
        resumes(existing, status) <==> existing > 0 && status == 206,
        range_text(existing) is None <==> existing <= 0,
        existing > 0 ==> range_text(existing) == Some(
            "bytes="@ + decimal::decimal(existing as int) + "-"@,
        ),
        range_text(existing) is None ==> !resumes(existing, status),
{
}

/// The size in the tree decides where it is known, then the one that
/// Real-Debrid gave; a file is whole exactly if it has that many bytes, and
/// any number will do where neither is known.
pub proof fn the_known_size_decides(expected: i64, filesize: i64, downloaded: i64)
    ensures
        ({
            let target = known_size(expected, known_size(filesize, expected));
            &&& expected > 0 ==> (is_whole(target, downloaded) <==> downloaded == expected)
            &&& expected <= 0 && filesize > 0 ==> (is_whole(target, downloaded) <==> downloaded
                == filesize)
            &&& expected <= 0 && filesize <= 0 ==> is_whole(target, downloaded)
        }),
{
}

} // verus!
