use mega_downloader::api::{
    add_path_mapping, bad_request, delete_path_mapping, found_job, internal, pause_job,
    placed_last, resume_job, resume_unfinished_jobs, retry_job, token_for_new_job,
    update_path_mapping, ApiError, PathMappingReq, RerunStep,
};
use mega_downloader::error::Error;
use mega_downloader::events::EngineEvent;
use mega_downloader::ids::new_ids;
use mega_downloader::job::{folder_of, plan_job, MegaLink, Node, NodeKind, Tree};
use mega_downloader::job_view::{
    check_sizes, job_tree, latest_transfers, NodeRecord, TransferState,
};
use mega_downloader::registry::RunningJobs;
use mega_downloader::run::{
    end_run, failed, interrupted, pending_tasks, unfinished_jobs, StatusRow, TransferRecord,
};
use mega_downloader::zip::{
    archive_base_name, archive_files, ascii_filename, candidates, content_disposition, is_under,
    requested_prefix, ZipEntry, ZipParams,
};
use mega_downloader::{Downloader, PathMapping, VERSION};

fn node(handle: &str, parent: Option<&str>, kind: NodeKind, rel_path: &str, size: i64) -> Node {
    Node {
        handle: handle.to_string(),
        parent: parent.map(str::to_string),
        kind,
        name: rel_path.rsplit('/').next().unwrap().to_string(),
        rel_path: rel_path.to_string(),
        size,
        file_key: if kind == NodeKind::File { Some(vec![7; 32]) } else { None },
    }
}

fn tree() -> Tree {
    Tree {
        root_name: "Root".to_string(),
        total_files: 2,
        total_bytes: 30,
        nodes: vec![
            node("r", None, NodeKind::Folder, "Root", 0),
            node("a", Some("r"), NodeKind::File, "Root/a", 10),
            node("s", Some("r"), NodeKind::Folder, "Root/s", 0),
            node("b", Some("s"), NodeKind::File, "Root/s/b", 20),
        ],
    }
}

fn texts(list: &[&str]) -> Vec<String> {
    list.iter().map(|s| s.to_string()).collect()
}

fn row(id: &str, status: &str) -> StatusRow {
    StatusRow { id: id.to_string(), status: status.to_string() }
}

// --- creating jobs --------------------------------------------------------------

#[test]
fn plans_write_down_the_tree() {
    let plan = plan_job(
        "job",
        &texts(&["n0", "n1", "n2", "n3"]),
        &texts(&["t0", "t1"]),
        "https://mega.nz/folder/F#K",
        "/d",
        &tree(),
        &None,
    );
    assert_eq!(plan.job.id, "job");
    assert_eq!(plan.job.link, "https://mega.nz/folder/F#K");
    assert_eq!(plan.job.kind, "folder");
    assert_eq!(plan.job.root_path, "/d");
    assert_eq!(plan.job.transport, "realdebrid");
    assert_eq!(plan.job.status, "downloading");
    assert_eq!(plan.nodes.len(), 4);
    assert_eq!(plan.nodes[1].id, "n1");
    assert_eq!(plan.nodes[1].job_id, "job");
    assert_eq!(plan.nodes[1].parent_handle.as_deref(), Some("r"));
    assert_eq!(plan.nodes[1].handle, "a");
    assert_eq!(plan.nodes[1].kind, "file");
    assert_eq!(plan.nodes[1].name, "a");
    assert_eq!(plan.nodes[1].rel_path, "Root/a");
    assert_eq!(plan.nodes[1].size, 10);
    assert_eq!(plan.nodes[1].file_key, Some(vec![7; 32]));
    assert_eq!(plan.nodes[2].kind, "folder");
    assert_eq!(plan.nodes[0].parent_handle, None);
    let transfers: Vec<(&str, &str, &str, i64)> = plan
        .transfers
        .iter()
        .map(|t| (t.id.as_str(), t.node_id.as_str(), t.status.as_str(), t.bytes_total))
        .collect();
    assert_eq!(transfers, vec![("t0", "n1", "queued", 10), ("t1", "n3", "queued", 20)]);
    assert_eq!(
        plan.event,
        EngineEvent::JobCreated {
            job_id: "job".to_string(),
            root_name: "Root".to_string(),
            total_files: 2,
            total_bytes: 30,
        }
    );
}

#[test]
fn only_included_files_are_queued() {
    let dl = Downloader::new("/d", 4);
    // A folder's handle selects nothing.
    let plan = dl.create_job("link", &tree(), Some(texts(&["b", "s", "zzz"])));
    assert_eq!(plan.transfers.len(), 1);
    assert_eq!(plan.transfers[0].node_id, plan.nodes[3].id);
    assert_eq!(plan.nodes.len(), 4);
    assert!(dl.create_job("link", &tree(), Some(Vec::new())).transfers.is_empty());
}

fn is_uuid(s: &str) -> bool {
    let parts: Vec<&str> = s.split('-').collect();
    let lengths: Vec<usize> = parts.iter().map(|p| p.len()).collect();
    lengths == vec![8, 4, 4, 4, 12]
        && parts.iter().all(|p| p.chars().all(|c| matches!(c, '0'..='9' | 'a'..='f')))
        && parts[2].starts_with('4')
        && matches!(parts[3].chars().next(), Some('8' | '9' | 'a' | 'b'))
}

#[test]
fn new_jobs_get_new_ids() {
    let dl = Downloader::new("/d", 4);
    let plan = dl.create_job("link", &tree(), None);
    assert!(is_uuid(&plan.job.id));
    assert_eq!(plan.job.root_path, "/d");
    assert_eq!(plan.transfers.len(), 2);
    for n in &plan.nodes {
        assert!(is_uuid(&n.id));
        assert_eq!(n.job_id, plan.job.id);
    }
    for t in &plan.transfers {
        assert!(is_uuid(&t.id));
    }
    let ids = new_ids(3);
    assert_eq!(ids.len(), 3);
    assert_ne!(ids[0], ids[1]);
    // The id of a job can name its directory in Aria2's download area.
    let task = &pending_tasks(&vec![record("t", "queued")])[0];
    let planned = dl.plan_aria2(&plan.job.id, task, 0);
    assert_eq!(planned.dir, format!("/d/job-{}", &plan.job.id[..8]));
}

#[test]
fn jobs_are_for_folders() {
    let (id, key) = ("F".to_string(), "K".to_string());
    assert_eq!(
        folder_of(MegaLink::Folder { id: id.clone(), key: key.clone() }),
        Ok((id.clone(), key.clone()))
    );
    assert_eq!(
        folder_of(MegaLink::File { id, key }),
        Err(Error::Other("job link is not a folder".to_string()))
    );
}

// --- running jobs ----------------------------------------------------------------

fn record(id: &str, status: &str) -> TransferRecord {
    TransferRecord {
        transfer_id: id.to_string(),
        handle: format!("h{id}"),
        rel_path: format!("Root/{id}"),
        size: 5,
        file_key: Some(vec![1, 2]),
        status: status.to_string(),
    }
}

#[test]
fn a_run_picks_up_what_is_not_done() {
    let tasks = pending_tasks(&vec![
        record("1", "done"),
        record("2", "queued"),
        record("3", "error"),
        record("4", "paused"),
        record("5", "active"),
    ]);
    let ids: Vec<&str> = tasks.iter().map(|t| t.transfer_id.as_str()).collect();
    assert_eq!(ids, vec!["2", "3", "4", "5"]);
    assert_eq!(tasks[0].handle, "h2");
    assert_eq!(tasks[0].rel_path, "Root/2");
    assert_eq!(tasks[0].size, 5);
    assert_eq!(tasks[0].file_key, Some(vec![1, 2]));
    assert_eq!(tasks[0].attempt, 0);
}

#[test]
fn rows_are_found_by_status() {
    let rows = vec![row("1", "active"), row("2", "error"), row("3", "done"), row("4", "active")];
    assert_eq!(interrupted(&rows), vec!["1", "4"]);
    assert_eq!(failed(&rows), vec!["1", "2", "4"]);
    let jobs = vec![
        row("a", "downloading"),
        row("b", "paused"),
        row("c", "error"),
        row("d", "pending"),
        row("e", "done"),
    ];
    assert_eq!(unfinished_jobs(&jobs), vec!["a", "d"]);
    assert_eq!(resume_unfinished_jobs(&Some("token".to_string()), &jobs), vec!["a", "d"]);
    assert!(resume_unfinished_jobs(&None, &jobs).is_empty());
}

#[test]
fn runs_end_done_in_error_or_paused() {
    let done = EngineEvent::JobDone { job_id: "j".to_string() };
    let all = end_run("j", false, &vec![row("1", "done"), row("2", "done")]);
    assert_eq!((all.status.as_str(), &all.event), ("done", &done));
    assert!(all.requeue.is_empty());
    let some = end_run("j", false, &vec![row("1", "done"), row("2", "error")]);
    assert_eq!((some.status.as_str(), &some.event), ("error", &done));
    assert!(some.requeue.is_empty());
    let paused = end_run("j", true, &vec![row("1", "done"), row("2", "active")]);
    assert_eq!((paused.status.as_str(), &paused.event), ("paused", &done));
    assert_eq!(paused.requeue, vec!["2"]);
    assert_eq!(end_run("j", false, &Vec::new()).status, "done");
    assert_eq!(end_run("j", true, &Vec::new()).status, "paused");
}

#[test]
fn done_jobs_have_nothing_left_to_run() {
    for statuses in [vec!["done", "done"], vec!["done", "queued"], vec![]] {
        let rows: Vec<StatusRow> = statuses.iter().map(|s| row("x", s)).collect();
        let records: Vec<TransferRecord> = statuses.iter().map(|s| record("x", s)).collect();
        let ended = end_run("j", false, &rows);
        assert_eq!(ended.status == "done", pending_tasks(&records).is_empty());
    }
}

#[test]
fn a_running_job_is_not_started_again() {
    let mut jobs: RunningJobs<u32> = RunningJobs::new();
    assert!(!jobs.contains("j"));
    assert!(jobs.start("j", 1));
    assert!(!jobs.start("j", 2));
    assert_eq!(jobs.token("j"), Some(&1));
    assert!(jobs.start("k", 3));
    jobs.finish("j");
    assert!(!jobs.contains("j"));
    assert_eq!(jobs.token("j"), None);
    assert!(jobs.contains("k"));
    assert!(jobs.start("j", 4));
    assert_eq!(jobs.token("j"), Some(&4));
}

// --- answers -----------------------------------------------------------------------

fn refusal(status: u16, message: &str) -> ApiError {
    ApiError { status, message: message.to_string() }
}

#[test]
fn failures_have_a_status() {
    assert_eq!(bad_request(&Error::Cancelled), refusal(400, "cancelled"));
    assert_eq!(internal("disk I/O error"), refusal(500, "disk I/O error"));
    assert_eq!(found_job(Some(3)), Ok(3));
    assert_eq!(found_job::<u8>(None), Err(refusal(404, "job not found")));
}

#[test]
fn jobs_need_a_token() {
    let token = Some("t".to_string());
    assert_eq!(token_for_new_job(token.clone()), Ok("t".to_string()));
    assert_eq!(
        token_for_new_job(None),
        Err(refusal(400, "Real-Debrid token not set — save it in settings first"))
    );
    let missing = RerunStep::Refused { error: refusal(400, "Real-Debrid token not set") };
    assert_eq!(retry_job(false, None), missing);
    assert_eq!(resume_job(false, true, None), missing);
    assert_eq!(retry_job(false, token.clone()), RerunStep::Run { token: "t".to_string() });
    assert_eq!(resume_job(false, true, token), RerunStep::Run { token: "t".to_string() });
}

#[test]
fn running_jobs_are_neither_retried_nor_resumed() {
    let token = Some("t".to_string());
    assert_eq!(
        retry_job(true, token.clone()),
        RerunStep::AlreadyRunning {
            ok: false,
            note: "job is already running — pause it first to retry".to_string(),
        }
    );
    assert_eq!(
        resume_job(true, false, token),
        RerunStep::AlreadyRunning { ok: true, note: "already running".to_string() }
    );
}

#[test]
fn unknown_jobs_are_not_resumed() {
    assert_eq!(
        resume_job(false, false, None),
        RerunStep::Refused { error: refusal(404, "job not found") }
    );
}

#[test]
fn pausing_tells_whether_the_job_ran() {
    let running = pause_job(true);
    assert!(running.ok && running.paused);
    assert_eq!(running.note, None);
    let idle = pause_job(false);
    assert!(idle.ok && !idle.paused);
    assert_eq!(idle.note.as_deref(), Some("job not running"));
}

#[test]
fn mappings_need_both_paths() {
    let req = |remote: &str, local: &str| PathMappingReq {
        remote_path: remote.to_string(),
        local_path: local.to_string(),
    };
    assert_eq!(
        add_path_mapping(&req(" //rd/ ", "/mnt/rd/")),
        Ok(PathMapping::new("/rd", "/mnt/rd"))
    );
    for (remote, local) in [("", "/x"), ("/x", " "), ("/", "/x"), ("/x", "///")] {
        assert_eq!(
            add_path_mapping(&req(remote, local)),
            Err(refusal(400, "remote_path and local_path are required"))
        );
    }
    let placed = placed_last(PathMapping::new("/a", "/b"), 3);
    assert_eq!(placed.position, 3);
    assert_eq!(placed.remote_path, "/a");
}

#[test]
fn missing_mappings_cannot_be_changed_or_removed() {
    assert_eq!(update_path_mapping(7, 0), Err(refusal(404, "no mapping with id 7")));
    assert_eq!(update_path_mapping(7, 1), Ok(()));
    assert_eq!(delete_path_mapping(-12, 0), Err(refusal(404, "no mapping with id -12")));
    assert_eq!(delete_path_mapping(3, 1), Ok(()));
}

// --- showing jobs ------------------------------------------------------------------

fn shown(handle: &str, parent: Option<&str>, kind: &str, size: i64) -> NodeRecord {
    NodeRecord {
        handle: handle.to_string(),
        parent: parent.map(str::to_string),
        kind: kind.to_string(),
        name: format!("name of {handle}"),
        rel_path: format!("Root/{handle}"),
        size,
    }
}

#[test]
fn trees_are_rebuilt_from_their_nodes() {
    let nodes = vec![
        shown("r", Some("outside"), "folder", 0),
        shown("a", Some("r"), "file", 10),
        shown("b", Some("gone"), "file", 20),
        shown("s", Some("r"), "folder", 99),
    ];
    assert!(check_sizes(&nodes));
    let t = job_tree(&nodes);
    assert_eq!((t.total_files, t.total_folders, t.total_bytes), (2, 2, 30));
    assert_eq!(t.root_handle, "r");
    assert_eq!(t.root_name, "name of r");
    let parents: Vec<Option<&str>> = t.nodes.iter().map(|n| n.parent.as_deref()).collect();
    assert_eq!(parents, vec![None, Some("r"), None, Some("r")]);
    assert_eq!(t.nodes[2].rel_path, "Root/b");
    assert_eq!(t.nodes[3].size, 99);
    assert_eq!(t.nodes[3].kind, "folder");
}

#[test]
fn the_last_root_is_the_root() {
    let t = job_tree(&vec![shown("r1", None, "folder", 0), shown("r2", None, "folder", 0)]);
    assert_eq!(t.root_handle, "r2");
    let none = job_tree(&vec![shown("a", None, "file", 1)]);
    assert_eq!(none.root_handle, "");
    assert_eq!(none.root_name, "(root)");
}

#[test]
fn sizes_that_do_not_add_up_are_noticed() {
    assert!(!check_sizes(&vec![shown("a", None, "file", i64::MAX), shown("b", None, "file", 1)]));
    assert!(check_sizes(&vec![shown("a", None, "file", i64::MAX), shown("b", None, "folder", 1)]));
    assert!(!check_sizes(&vec![shown("a", None, "file", i64::MIN), shown("b", None, "file", -1)]));
}

#[test]
fn the_last_transfer_of_a_file_counts() {
    let state = |handle: &str, bytes_done: i64, status: &str| TransferState {
        handle: handle.to_string(),
        bytes_done,
        bytes_total: 10,
        status: status.to_string(),
    };
    let rows = vec![state("a", 1, "error"), state("b", 2, "queued"), state("a", 10, "done")];
    let mut latest = latest_transfers(&rows);
    latest.sort_by(|x, y| x.handle.cmp(&y.handle));
    assert_eq!(latest, vec![state("a", 10, "done"), state("b", 2, "queued")]);
    assert!(latest_transfers(&Vec::new()).is_empty());
}

// --- archives ------------------------------------------------------------------------

#[test]
fn prefixes_select_subfolders() {
    assert!(is_under("Root/s/b", ""));
    assert!(is_under("Root/s/b", "Root/s"));
    assert!(is_under("Root/s", "Root/s"));
    assert!(!is_under("Root/sx/b", "Root/s"));
    assert!(!is_under("Root", "Root/s"));
    assert!(!is_under("Root/s/b", "Root/s/"));
}

#[test]
fn archives_hold_the_files_under_their_prefix() {
    let rels = texts(&["Root/a", "Root/s/b?", "Root/s2/c"]);
    let entries = candidates("/d", &rels, "Root/s");
    assert_eq!(
        entries,
        vec![ZipEntry { path: "/d/Root/s/b_".to_string(), name: "Root/s/b_".to_string() }]
    );
    assert_eq!(candidates("/d", &rels, "").len(), 3);
    assert_eq!(archive_files(entries.clone()), Ok(entries));
    assert_eq!(
        archive_files(Vec::new()),
        Err(refusal(404, "no downloaded files to zip yet"))
    );
}

#[test]
fn archives_are_named_after_their_folder() {
    assert_eq!(archive_base_name("Root/s", Some("Root".to_string())), "s");
    assert_eq!(archive_base_name("Root/", None), "");
    assert_eq!(archive_base_name("", Some("Root".to_string())), "Root");
    assert_eq!(archive_base_name("", None), "download");
    assert_eq!(requested_prefix(ZipParams { prefix: None }), "");
    assert_eq!(requested_prefix(ZipParams { prefix: Some("p".to_string()) }), "p");
}

#[test]
fn filenames_are_plain_ascii() {
    assert_eq!(ascii_filename("Ferien \"2024\"\\ü\n"), "Ferien _2024____");
    assert_eq!(ascii_filename("  "), "download");
    assert_eq!(ascii_filename(""), "download");
    assert_eq!(ascii_filename("a\u{7f}b~"), "a_b~");
    assert_eq!(ascii_filename("\u{7f}"), "_");
    assert_eq!(
        content_disposition("Root"),
        "attachment; filename=\"Root.zip\""
    );
}

#[test]
fn the_version_is_surfaced() {
    assert_eq!(VERSION, "0.1.0");
}
