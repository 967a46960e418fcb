//! How downloads are set up: where files go, how many run at once, and what
//! Aria2 is asked to do.

use crate::aria2::{self, AddUriOptions, Aria2Client, Aria2File, AriaConfig};
use crate::error::Error;
use crate::events::{finish, progress_event, EngineEvent, EventView, TransferUpdate, UpdateView};
use crate::names::{self, sanitized_segments};
use crate::pathmap::{self, resolve_mapping, PathMapping};
use crate::path_laws;
use crate::paths::{self, local_path_in, push_path};
use crate::poll::{self, pick_larger};
use crate::stream::{self, pick_size};
use crate::task::{self, FileTask, TaskView};
use crate::text::{self, bytes_in};
use vstd::prelude::*;

verus! {

/// Default number of files downloaded in parallel (overridable via settings).
pub const DEFAULT_CONCURRENCY: usize = 4;

/// The most files downloaded in parallel.
pub const MAX_CONCURRENCY: usize = 16;

/// A number of parallel downloads, brought into range.
pub open spec fn clamped(concurrency: int) -> int {
    if concurrency < 1 {
        1
    } else if concurrency > MAX_CONCURRENCY {
        MAX_CONCURRENCY as int
    } else {
        concurrency
    }
}

/// Brings a number of parallel downloads into range.
pub fn clamp_concurrency(concurrency: usize) -> (r: usize)
    ensures
        r == clamped(concurrency as int),
        1 <= concurrency <= 16 ==> r == concurrency,
        concurrency < 1 ==> r == 1,
        concurrency > 16 ==> r == 16,
{
    if concurrency < 1 {
        1
    } else if concurrency > MAX_CONCURRENCY {
        MAX_CONCURRENCY
    } else {
        concurrency
    }
}

/// How the files of a job are downloaded.
#[derive(Debug, Clone, PartialEq, Eq)]
pub struct Downloader {
    pub dest_root: String,
    pub concurrency: usize,
    /// Optional Aria2 backend (rate-limited downloads and AriaNg visibility).
    pub aria2: Option<Aria2Client>,
    /// Path mappings used to translate Aria2-reported paths to local paths.
    pub path_mappings: Vec<PathMapping>,
    /// Default per-download speed limit (aria2 format, e.g. "5M",
    /// "0" = unlimited).
    pub max_download_speed: Option<String>,
}

/// The directory Aria2 downloads into, as the *remote* (Aria2-side) path: the
/// remote side of the first mapping, or else the download directory, which
/// Aria2 and this engine then share.
pub open spec fn remote_root(dest_root: Seq<char>, mappings: Seq<PathMapping>) -> Seq<char> {
    if mappings.len() > 0 {
        mappings[0].remote_path@
    } else {
        dest_root
    }
}

/// Whether `local` is the path to open for a path that Aria2 reported: the one
/// that the best mapping gives, or the path itself where none applies.
pub open spec fn opens(mappings: Seq<PathMapping>, reported: Seq<char>, local: Seq<char>) -> bool {
    if forall|i: int|
        0 <= i < mappings.len() ==> !pathmap::applies(#[trigger] mappings[i], reported) {
        local == reported
    } else {
        exists|i: int| #[trigger]
            pathmap::is_best(mappings, reported, i) && local == pathmap::mapped(
                mappings[i],
                reported,
            )
    }
}

impl Downloader {
    /// Whether the number of parallel downloads is in range.
    pub open spec fn well_formed(&self) -> bool {
        1 <= self.concurrency <= MAX_CONCURRENCY
    }

    /// A downloader that writes below `dest_root` with the built-in streamer.
    pub fn new(dest_root: &str, concurrency: usize) -> (r: Self)
        ensures
            r.well_formed(),
            r.dest_root@ == dest_root@,
            r.concurrency == clamped(concurrency as int),
            r.aria2 is None,
            r.path_mappings@.len() == 0,
            r.max_download_speed is None,
    {
        Downloader {
            dest_root: dest_root.to_owned(),
            concurrency: clamp_concurrency(concurrency),
            aria2: None,
            path_mappings: Vec::new(),
            max_download_speed: None,
        }
    }

    /// Configures the Aria2 backend. A config that does not enable Aria2 keeps
    /// the built-in streamer for everything.
    pub fn with_aria2(&mut self, cfg: &AriaConfig) -> (r: &mut Self)
        ensures
            r.aria2 is Some <==> aria2::url_given(text::text_of(cfg.rpc_url)),
            r.aria2 matches Some(c) ==> {
                &&& c.url@ == text::trim(cfg.rpc_url->0@)
                &&& text::text_of(c.secret) == text::text_of(cfg.secret)
            },
            text::text_of(r.max_download_speed) == text::text_of(cfg.max_download_limit),
            r.dest_root == old(self).dest_root,
            r.concurrency == old(self).concurrency,
            r.path_mappings == old(self).path_mappings,
            *final(self) == *final(r),
    {
        self.aria2 = Aria2Client::from_config(cfg);
        self.max_download_speed = cfg.max_download_limit.clone();
        self
    }

    /// Sets the remote-to-local path mappings (for moving files that Aria2
    /// completed).
    pub fn set_path_mappings(&mut self, mappings: Vec<PathMapping>) -> (r: &mut Self)
        ensures
            *r == (Downloader { path_mappings: mappings, ..*old(self) }),
            *final(self) == *final(r),
    {
        self.path_mappings = mappings;
        self
    }

    /// True when an Aria2 client is configured (Real-Debrid downloads go
    /// through it).
    pub fn aria2_enabled(&self) -> (r: bool)
        ensures
            r == self.aria2 is Some,
    {
        self.aria2.is_some()
    }

    /// Maps a node's relative path to a sanitized destination path.
    pub fn local_path(&self, rel_path: &str) -> (r: String)
        ensures
            r@ == paths::local_path(self.dest_root@, rel_path@),
    {
        local_path_in(self.dest_root.as_str(), rel_path)
    }

    /// The directory Aria2 downloads into.
    pub fn aria2_root(&self) -> (r: String)
        ensures
            r@ == remote_root(self.dest_root@, self.path_mappings@),
            self.path_mappings@.len() > 0 ==> r@ == self.path_mappings@[0].remote_path@,
            self.path_mappings@.len() == 0 ==> r@ == self.dest_root@,
    {
        if self.path_mappings.len() > 0 {
            self.path_mappings[0].remote_path.clone()
        } else {
            self.dest_root.clone()
        }
    }

    /// Translates an Aria2-reported path to a local path this engine can open,
    /// using the configured path mappings. Rules and path are taken in
    /// forward-slash style, on every platform.
    pub fn map_aria2_path(&self, aria2_path: &str) -> (r: String)
        ensures
            opens(self.path_mappings@, aria2_path@, r@),
    {
        match resolve_mapping(self.path_mappings.as_slice(), aria2_path) {
            Some(local) => local,
            None => aria2_path.to_owned(),
        }
    }
}

// ---------------------------------------------------------------------------
// Handing a file to Aria2
// ---------------------------------------------------------------------------

/// How many bytes of a job's id name its directory in Aria2's download area.
pub const ID_BYTES: usize = 8;

/// Where the start of a job's id ends.
pub open spec fn id_end(job_id: Seq<char>) -> int {
    if text::byte_len(job_id) < ID_BYTES {
        text::byte_len(job_id) as int
    } else {
        ID_BYTES as int
    }
}

/// Whether a job's id can be cut there.
pub open spec fn id_can_be_cut(job_id: Seq<char>) -> bool {
    vstd::utf8::is_char_boundary(vstd::utf8::encode_utf8(job_id), id_end(job_id))
}

/// The start of a job's id.
pub open spec fn id_start(job_id: Seq<char>) -> Seq<char> {
    vstd::utf8::decode_utf8(vstd::utf8::encode_utf8(job_id).subrange(0, id_end(job_id)))
}

/// The directory for a job's files below Aria2's root.
pub open spec fn job_dir(root: Seq<char>, job_id: Seq<char>) -> Seq<char> {
    paths::pushed(root, "job-"@ + id_start(job_id))
}

/// The name that a file is expected to have in Aria2's download area.
pub open spec fn flat_name(rel_path: Seq<char>, handle: Seq<char>) -> Seq<char> {
    let names = names::all_sanitized(text::segments(rel_path));
    if names.len() > 0 {
        names.last()
    } else {
        handle + ".part"@
    }
}

/// What Aria2 is asked to do for a file.
#[derive(Debug, Clone, PartialEq, Eq)]
pub struct Aria2Plan {
    /// The size to report.
    pub total: i64,
    /// The directory that Aria2 downloads into, as Aria2 sees it.
    pub dir: String,
    /// The file's name there, unless Aria2 says otherwise.
    pub filename: String,
    pub options: AddUriOptions,
    /// What is written down before Aria2 is asked.
    pub update: TransferUpdate,
}

fn name_in_aria2(rel_path: &str, handle: &str) -> (r: String)
    ensures
        r@ == flat_name(rel_path@, handle@),
{
    let list = sanitized_segments(rel_path);
    if list.len() > 0 {
        list[list.len() - 1].clone()
    } else {
        let mut r = handle.to_owned();
        r.append(".part");
        r
    }
}

fn dir_in_aria2(root: &str, job_id: &str) -> (r: String)
    requires
        id_can_be_cut(job_id@),
    ensures
        r@ == job_dir(root@, job_id@),
{
    let len = bytes_in(job_id);
    let cut: usize = if len < ID_BYTES {
        len
    } else {
        ID_BYTES
    };
    let (start, _) = job_id.split_at(cut);
    proof {
        vstd::utf8::encode_utf8_decode_utf8(start@);
    }
    let mut name = "job-".to_owned();
    name.append(start);
    assert(name@ =~= "job-"@ + id_start(job_id@));
    push_path(root, name.as_str())
}

impl Downloader {
    /// Plans the download of a file through Aria2, given the size that
    /// Real-Debrid gave. The file is kept inside the job's directory under
    /// Aria2's root; the path mapping later tells where that is on this
    /// filesystem.
    pub fn plan_aria2(&self, job_id: &str, task: &FileTask, filesize: i64) -> (r: Aria2Plan)
        requires
            id_can_be_cut(job_id@),
        ensures
            r.total == stream::known_size(filesize, task.size),
            r.dir@ == job_dir(remote_root(self.dest_root@, self.path_mappings@), job_id@),
            r.filename@ == flat_name(task.rel_path@, task.handle@),
            r.update@ == UpdateView::ActiveInAria2,
            r.options.dir@ == r.dir@,
            text::text_of(r.options.max_download_limit) == text::text_of(self.max_download_speed),
            text::text_of(r.options.max_connection_per_server) == Some("1"@),
            text::text_of(r.options.continue_field) == Some("true"@),
            text::text_of(r.options.title) == Some(task.rel_path@),
    {
        let root = self.aria2_root();
        let dir = dir_in_aria2(root.as_str(), job_id);
        let options = AddUriOptions {
            dir: dir.clone(),
            max_download_limit: self.max_download_speed.clone(),
            max_connection_per_server: Some("1".to_owned()),
            continue_field: Some("true".to_owned()),
            title: Some(task.rel_path.clone()),
        };
        Aria2Plan {
            total: pick_size(filesize, task.size),
            dir,
            filename: name_in_aria2(task.rel_path.as_str(), task.handle.as_str()),
            options,
            update: TransferUpdate::ActiveInAria2,
        }
    }
}

/// How to go on once Aria2 was asked to download a file.
#[derive(Debug, Clone, PartialEq, Eq)]
pub enum QueuedStep {
    /// Watch the download with this id, which is written down.
    Poll { gid: String, update: TransferUpdate },
    /// Aria2 cannot be reached: fetch the file with the built-in streamer. The
    /// next file, and the next attempt, tries Aria2 again.
    Stream { update: TransferUpdate },
    /// Give the attempt up.
    Fail { error: Error },
}

/// Decides how to go on from the reply to the request to download a file. A
/// run does not die on an outage of Aria2.
pub fn after_add_uri(reply: Result<String, Error>) -> (r: QueuedStep)
    ensures
        reply matches Ok(g) ==> (r matches QueuedStep::Poll { gid, update } && gid == g
            && update@ == (UpdateView::Gid { gid: g@ })),
        (reply matches Err(Error::Http(_))) ==> (r matches QueuedStep::Stream { update }
            && update@ == UpdateView::ActiveInEngine),
        reply matches Err(e) ==> !(e is Http) ==> r == (QueuedStep::Fail { error: e }),
{
    match reply {
        Ok(gid) => {
            let update = TransferUpdate::Gid { gid: gid.clone() };
            QueuedStep::Poll { gid, update }
        },
        Err(e) => match e {
            Error::Http(_) => QueuedStep::Stream { update: TransferUpdate::ActiveInEngine },
            other => QueuedStep::Fail { error: other },
        },
    }
}

/// How the request to download a file, and watching the download, end.
pub ghost enum Aria2End {
    /// The request was answered with an error.
    Refused { error: Error },
    /// The download was watched to its end, and its file moved.
    Watched { outcome: Result<(), Error> },
    /// Aria2 was not reached while the download was watched.
    Lost,
}

/// How an attempt through Aria2 ends: as the streamer ends where Aria2 cannot
/// be reached, be it for the request or while the download is watched.
pub open spec fn aria2_outcome(end: Aria2End, streamed: Result<(), Error>) -> Result<(), Error> {
    match end {
        Aria2End::Refused { error: Error::Http(_) } => streamed,
        Aria2End::Refused { error } => Err(error),
        Aria2End::Watched { outcome } => outcome,
        Aria2End::Lost => streamed,
    }
}

/// Where Aria2 has put a finished file: where its first file is, if it says
/// so, or else the file's name in the directory it was given.
pub open spec fn finished_at(files: Seq<Aria2File>, dir: Seq<char>, filename: Seq<char>) -> Seq<
    char,
> {
    if files.len() > 0 && files[0].path@.len() > 0 {
        files[0].path@
    } else {
        paths::pushed(dir, filename)
    }
}

/// The path of a finished file, as Aria2 sees it.
pub fn finished_path(files: &Vec<Aria2File>, dir: &str, filename: &str) -> (r: String)
    ensures
        r@ == finished_at(files@, dir@, filename@),
        files@.len() > 0 && files@[0].path@.len() > 0 ==> r@ == files@[0].path@,
        files@.len() == 0 || files@[0].path@.len() == 0 ==> r@ == paths::pushed(dir@, filename@),
{
    if files.len() > 0 && !files[0].path.as_str().is_empty() {
        files[0].path.clone()
    } else {
        push_path(dir, filename)
    }
}

/// The error number of a rename across filesystems.
pub const CROSS_DEVICE: i32 = 18;

/// A rename that failed.
#[derive(Debug, Clone, PartialEq, Eq)]
pub struct RenameFailure {
    /// The error number of the operating system, if it gave one.
    pub os_error: Option<i32>,
    pub message: String,
}

/// How to go on with moving a file.
#[derive(Debug, Clone, PartialEq, Eq)]
pub enum MoveStep {
    /// The file has been moved.
    Moved,
    /// The two paths are on different filesystems: copy, then remove the
    /// source.
    Copy,
    /// Give up.
    Fail { error: Error },
}

/// Decides how to go on after renaming a file. A plain rename is atomic and
/// instant on the same filesystem.
pub fn after_rename(failure: Option<RenameFailure>) -> (r: MoveStep)
    ensures
        r is Moved <==> failure is None,
        r is Copy <==> failure is Some && failure->0.os_error == Some(CROSS_DEVICE),
        r is Copy <==> failure is Some && failure->0.os_error == Some(18i32),
        r matches MoveStep::Fail { error } ==> failure is Some && error == Error::Io(
            failure->0.message,
        ),
{
    match failure {
        None => MoveStep::Moved,
        Some(f) => match f.os_error {
            Some(code) => if code == CROSS_DEVICE {
                MoveStep::Copy
            } else {
                MoveStep::Fail { error: Error::Io(f.message) }
            },
            None => MoveStep::Fail { error: Error::Io(f.message) },
        },
    }
}

/// What is told and written down when a file from Aria2 is in its place: its
/// progress, and that it is done.
pub fn aria2_done(job_id: &str, handle: &str, total: i64, downloaded: i64) -> (r: (
    EngineEvent,
    TransferUpdate,
    EngineEvent,
))
    ensures
        r.0@ == (EventView::Progress {
            job_id: job_id@,
            handle: handle@,
            bytes_done: downloaded,
            bytes_total: poll::larger(total, downloaded),
        }),
        r.0 matches EngineEvent::Progress { bytes_done, bytes_total, .. } && bytes_done
            == downloaded && bytes_total >= downloaded && bytes_total >= total && (bytes_total == downloaded
            || bytes_total == total),
        r.1@ == (UpdateView::Done { bytes_done: downloaded }),
        r.2@ == (EventView::FileDone { job_id: job_id@, handle: handle@ }),
{
    let progress = progress_event(job_id, handle, downloaded, pick_larger(total, downloaded));
    let (update, event) = finish(job_id, handle, downloaded);
    (progress, update, event)
}

// ---------------------------------------------------------------------------
// Laws
// ---------------------------------------------------------------------------

/// Files from Aria2 are found: a file of the tree that Aria2 puts where the
/// plan says is opened at the same names, the job's directory and the file's
/// name, under the local side of the mapping that gave Aria2's root; and with
/// no mapping, under the download directory itself.
pub proof fn planned_files_are_found(
    dest_root: Seq<char>,
    mappings: Seq<PathMapping>,
    job_id: Seq<char>,
    rel_path: Seq<char>,
    handle: Seq<char>,
    reported: Seq<char>,
    local: Seq<char>,
)
    requires
        text::segments(rel_path).len() > 0,
        !id_start(job_id).contains('/'),
        reported == paths::pushed(
            job_dir(remote_root(dest_root, mappings), job_id),
            flat_name(rel_path, handle),
        ),
        mappings.len() > 0 ==> pathmap::is_best(mappings, reported, 0),
        opens(mappings, reported, local),
    ensures
        ({
            let names = seq!["job-"@ + id_start(job_id), flat_name(rel_path, handle)];
            let root = if mappings.len() > 0 {
                mappings[0].local_path@
            } else {
                dest_root
            };
            local == paths::pushed(root, path_laws::slashed(names))
        }),
{
    let root = remote_root(dest_root, mappings);
    let dir = "job-"@ + id_start(job_id);
    let name = flat_name(rel_path, handle);
    let names = seq![dir, name];
    path_laws::disk_names_are_plain(rel_path);
    let all = names::all_sanitized(text::segments(rel_path));
    assert(name == all[all.len() - 1]);
    reveal_strlit("job-");
    assert(dir[0] == 'j');
    assert(!dir.contains('/')) by {
        assert forall|k: int| 0 <= k < dir.len() implies dir[k] != '/' by {
            if k >= 4 {
                assert(dir[k] == id_start(job_id)[k - 4]);
                assert(id_start(job_id).contains(id_start(job_id)[k - 4]));
            }
        }
    }
    assert(dir != seq!['.']) by {
        assert(seq!['.'][0] == '.');
    }
    assert(path_laws::plain_names(names));
    path_laws::names_pushed_one_by_one(root, names);
    assert(names.drop_last() =~= seq![dir]);
    assert(seq![dir].drop_last() =~= Seq::<Seq<char>>::empty());
    assert(paths::all_pushed(root, seq![dir]) == paths::pushed(root, dir)) by {
        assert(paths::all_pushed(root, Seq::<Seq<char>>::empty()) == root);
    }
    assert(reported == paths::pushed(root, path_laws::slashed(names)));
    if mappings.len() > 0 {
        let i = choose|i: int| #[trigger]
            pathmap::is_best(mappings, reported, i) && local == pathmap::mapped(
                mappings[i],
                reported,
            );
        assert(pathmap::applies(mappings[0], reported));
        pathmap::best_mapping_is_unique(mappings, reported, 0, i);
        pathmap::mapped_files_keep_their_place(mappings[0], names);
    }
}

/// An outage of Aria2 costs a file nothing: where Aria2 cannot be reached, for
/// the request or while the download is watched, a file fares as it would
/// without Aria2. Where the streamer fetches it, it is settled; it is neither
/// downloaded from MEGA nor failed because of Aria2.
pub proof fn an_outage_of_aria2_costs_nothing(
    task: TaskView,
    end: Aria2End,
    streamed: Result<(), Error>,
)
    requires
        end is Lost || (end matches Aria2End::Refused { error } && error is Http),
    ensures
        task::verdict(task, aria2_outcome(end, streamed)) == task::verdict(task, streamed),
        streamed is Ok ==> task::verdict(task, aria2_outcome(end, streamed)) is Settle,
{
}

/// Any number of parallel downloads is brought into the range from 1 to 16, and
/// one in that range is left alone.
pub proof fn concurrency_is_brought_into_range(n: int)
    ensures
        1 <= clamped(n) <= 16,
        1 <= n <= 16 ==> clamped(n) == n,
        n < 1 ==> clamped(n) == 1,
        n > 16 ==> clamped(n) == 16,
{
}

/// Aria2's root is the remote side of the first mapping, or else the download
/// directory.
pub proof fn the_first_mapping_gives_the_root(dest_root: Seq<char>, mappings: Seq<PathMapping>)
    ensures
        mappings.len() > 0 ==> remote_root(dest_root, mappings) == mappings[0].remote_path@,
        mappings.len() == 0 ==> remote_root(dest_root, mappings) == dest_root,
{
}

/// A path that no mapping applies to is opened as it is, and no mapping that
/// does not apply is ever used.
pub proof fn unmapped_paths_are_opened_as_they_are(
    mappings: Seq<PathMapping>,
    reported: Seq<char>,
    local: Seq<char>,
)
    requires
        opens(mappings, reported, local),
    ensures
        (forall|i: int|
            0 <= i < mappings.len() ==> !paths::starts_with(
                reported,
                (#[trigger] mappings[i]).remote_path@,
            )) ==> local == reported,
        (exists|i: int|
            0 <= i < mappings.len() && paths::starts_with(
                reported,
                (#[trigger] mappings[i]).remote_path@,
            )) ==> exists|i: int| #[trigger]
            pathmap::is_best(mappings, reported, i) && local == pathmap::mapped(
                mappings[i],
                reported,
            ),
{
    if forall|i: int|
        0 <= i < mappings.len() ==> !paths::starts_with(
            reported,
            (#[trigger] mappings[i]).remote_path@,
        ) {
        assert forall|i: int| 0 <= i < mappings.len() implies !pathmap::applies(
            #[trigger] mappings[i],
            reported,
        ) by {
            assert(!paths::starts_with(reported, mappings[i].remote_path@));
        }
    }
    if exists|i: int|
        0 <= i < mappings.len() && paths::starts_with(
            reported,
            (#[trigger] mappings[i]).remote_path@,
        ) {
        let i = choose|i: int|
            0 <= i < mappings.len() && paths::starts_with(
                reported,
                (#[trigger] mappings[i]).remote_path@,
            );
        assert(pathmap::applies(mappings[i], reported));
    }
}

/// A file is called by its own name in Aria2's area: the last name of its tree
/// path, made safe; its handle with `.part` where the path has no names.
pub proof fn files_are_called_by_their_own_name(
    folder: Seq<char>,
    name: Seq<char>,
    handle: Seq<char>,
)
    requires
        name.len() > 0,
        !name.contains('/'),
    ensures
        flat_name(folder + seq!['/'] + name, handle) == names::sanitized(name),
        flat_name(name, handle) == names::sanitized(name),
        flat_name(Seq::empty(), handle) == handle + ".part"@,
        text::segments(folder).len() > 0 ==> flat_name(folder, handle) == names::sanitized(
            text::segments(folder).last(),
        ),
        text::segments(folder).len() == 0 ==> flat_name(folder, handle) == handle + ".part"@,
{
    let e = Seq::<char>::empty();
    text::segments_are_the_names_between_slashes(folder, name);
    text::segments_are_the_names_between_slashes(name, e);
    text::segments_are_the_names_between_slashes(e, e);
    let whole = text::segments(folder + seq!['/'] + name);
    assert(whole.last() == name);
    assert(names::all_sanitized(whole).last() == names::sanitized(name));
    assert(names::all_sanitized(seq![name]).last() == names::sanitized(name));
}

/// The directory of a job is named after the first eight characters of its id
/// (all of them, if it has fewer), for every id in ASCII.
pub proof fn jobs_have_their_own_directory(root: Seq<char>, id: Seq<char>)
    requires
        vstd::utf8::is_ascii_chars(id),
    ensures
        id.len() >= 8 ==> job_dir(root, id) == paths::pushed(root, "job-"@ + id.take(8)),
        id.len() < 8 ==> job_dir(root, id) == paths::pushed(root, "job-"@ + id),
{
    let n: int = if id.len() < 8 {
        id.len() as int
    } else {
        8
    };
    let head = id.take(n);
    let bytes = vstd::utf8::encode_utf8(id);
    vstd::utf8::is_ascii_chars_encode_utf8(id);
    assert(vstd::utf8::is_ascii_chars(head));
    vstd::utf8::is_ascii_chars_encode_utf8(head);
    assert(bytes.subrange(0, n) =~= vstd::utf8::encode_utf8(head)) by {
        assert forall|i: int| 0 <= i < n implies #[trigger] bytes[i] == vstd::utf8::encode_utf8(
            head,
        )[i] by {
            assert(head[i] == id[i]);
        }
    }
    vstd::utf8::encode_utf8_decode_utf8(head);
    if id.len() < 8 {
        assert(head =~= id);
    }
}

/// A finished file is where Aria2 says it is; only if Aria2 says nothing is it
/// looked for where the plan put it.
pub proof fn aria2_knows_where_its_files_are(
    files: Seq<Aria2File>,
    dir: Seq<char>,
    filename: Seq<char>,
)
    ensures
        files.len() > 0 && files[0].path@.len() > 0 ==> finished_at(files, dir, filename)
            == files[0].path@,
        files.len() == 0 || files[0].path@.len() == 0 ==> finished_at(files, dir, filename)
            == paths::pushed(dir, filename),
{
}

/// How an attempt through Aria2 ends follows from how Aria2 was reached.
pub proof fn outcomes_follow_from_the_end(
    end: Aria2End,
    error: Error,
    outcome: Result<(), Error>,
    streamed: Result<(), Error>,
)
    ensures
        aria2_outcome(Aria2End::Watched { outcome }, streamed) == outcome,
        aria2_outcome(Aria2End::Lost, streamed) == streamed,
        error is Http ==> aria2_outcome(Aria2End::Refused { error }, streamed) == streamed,
        !(error is Http) ==> aria2_outcome(Aria2End::Refused { error }, streamed) == Err::<
            (),
            Error,
        >(error),
{
}

} // verus!
