use mega_downloader::aria2::{
    base64_err, gid_in, message_from, option_entries, read_gid, read_purged, read_removed,
    read_reply, read_version, removed_in, rpc_result, version_in, AddUriOptions,
    Aria2Client, Aria2File, AriaConfig, AriaStatus, OptionEntry, RpcFault, RpcParam,
};
use mega_downloader::downloader::{
    after_add_uri, after_rename, aria2_done, finished_path, MoveStep, QueuedStep, RenameFailure,
};
use mega_downloader::error::Error;
use mega_downloader::events::{EngineEvent, TransferUpdate};
use mega_downloader::json::JsonPart;
use mega_downloader::native::{counter_block, NativeDownload};
use mega_downloader::poll::{
    after_failure, after_poll, count_look, FailureStep, PollEvent, PollStep, MAX_MISSES,
};
use mega_downloader::stream::{check_existing, range_header, Existing, StreamDownload};
use mega_downloader::task::FileTask;
use mega_downloader::{Downloader, PathMapping};

fn file_task(rel_path: &str, size: i64) -> FileTask {
    FileTask {
        transfer_id: "t".to_string(),
        handle: "h".to_string(),
        rel_path: rel_path.to_string(),
        size,
        file_key: None,
        attempt: 0,
    }
}

// --- the built-in streamer ---------------------------------------------------

#[test]
fn oversized_files_start_over() {
    assert_eq!(check_existing(10, 11), Existing { bytes: 0, discard: true });
    assert_eq!(check_existing(10, 10), Existing { bytes: 10, discard: false });
    assert_eq!(check_existing(0, 11), Existing { bytes: 11, discard: false });
}

#[test]
fn ranges_are_asked_for_only_behind_bytes() {
    assert_eq!(range_header(4096), Some("bytes=4096-".to_string()));
    assert_eq!(range_header(0), None);
    assert_eq!(range_header(-1), None);
}

#[test]
fn partial_content_resumes() {
    let mut d = StreamDownload::begin(4, 10, 0, 206);
    assert!(d.append);
    assert_eq!((d.total, d.target, d.downloaded), (10, 10, 4));
    d.received(6);
    assert_eq!(d.complete(), Ok(10));
    assert_eq!(
        d.progress("j", "h"),
        EngineEvent::Progress {
            job_id: "j".to_string(),
            handle: "h".to_string(),
            bytes_done: 10,
            bytes_total: 10,
        }
    );
}

#[test]
fn a_whole_answer_starts_over() {
    let d = StreamDownload::begin(4, 10, 12, 200);
    assert!(!d.append);
    assert_eq!((d.total, d.target, d.downloaded), (12, 10, 0));
    let fresh = StreamDownload::begin(0, 10, 10, 206);
    assert!(!fresh.append);
}

#[test]
fn truncated_transfers_are_incomplete() {
    let mut d = StreamDownload::begin(0, 10, 0, 200);
    d.received(9);
    assert_eq!(d.complete(), Err(Error::Incomplete { got: 9, expected: 10 }));
    d.received(2);
    assert_eq!(d.complete(), Err(Error::Incomplete { got: 11, expected: 10 }));
    let mut by_filesize = StreamDownload::begin(0, 0, 5, 200);
    assert_eq!(by_filesize.target, 5);
    by_filesize.received(4);
    assert!(by_filesize.complete().is_err());
}

#[test]
fn files_of_unknown_size_are_accepted() {
    let mut d = StreamDownload::begin(0, 0, 0, 200);
    d.received(7);
    assert_eq!(d.complete(), Ok(7));
}

// --- native downloads ----------------------------------------------------------

const KEY: [u8; 16] = [
    0x2b, 0x7e, 0x15, 0x16, 0x28, 0xae, 0xd2, 0xa6, 0xab, 0xf7, 0x15, 0x88, 0x09, 0xcf, 0x4f, 0x3c,
];
const COUNTER: [u8; 16] = [
    0xf0, 0xf1, 0xf2, 0xf3, 0xf4, 0xf5, 0xf6, 0xf7, 0xf8, 0xf9, 0xfa, 0xfb, 0xfc, 0xfd, 0xfe, 0xff,
];
const PLAIN: [u8; 32] = [
    0x6b, 0xc1, 0xbe, 0xe2, 0x2e, 0x40, 0x9f, 0x96, 0xe9, 0x3d, 0x7e, 0x11, 0x73, 0x93, 0x17, 0x2a,
    0xae, 0x2d, 0x8a, 0x57, 0x1e, 0x03, 0xac, 0x9c, 0x9e, 0xb7, 0x6f, 0xac, 0x45, 0xaf, 0x8e, 0x51,
];
const SEALED: [u8; 32] = [
    0x87, 0x4d, 0x61, 0x91, 0xb6, 0x20, 0xe3, 0x26, 0x1b, 0xef, 0x68, 0x64, 0x99, 0x0d, 0xb6, 0xce,
    0x98, 0x06, 0xf6, 0x6b, 0x79, 0x70, 0xfd, 0xff, 0x86, 0x17, 0x18, 0x7b, 0xb9, 0xff, 0xfd, 0xff,
];

fn sealed_download() -> NativeDownload {
    NativeDownload { key: KEY, iv: COUNTER, total: 32, downloaded: 0 }
}

#[test]
fn native_content_is_decrypted() {
    // The CTR-AES128 vectors of NIST SP 800-38A.
    let mut d = sealed_download();
    assert_eq!(d.decrypt(&SEALED.to_vec()), PLAIN.to_vec());
    assert_eq!(d.complete(), Ok(32));
}

#[test]
fn native_content_may_arrive_in_any_chunks() {
    for cut in 0..=32 {
        let mut d = sealed_download();
        let mut out = d.decrypt(&SEALED[..cut].to_vec());
        out.extend(d.decrypt(&SEALED[cut..].to_vec()));
        assert_eq!(out, PLAIN.to_vec());
    }
}

#[test]
fn decrypting_twice_gives_the_content_back() {
    let once = sealed_download().decrypt(&SEALED.to_vec());
    assert_eq!(sealed_download().decrypt(&once), SEALED.to_vec());
}

#[test]
fn the_counter_block_is_the_nonce_and_zeros() {
    let mut key = [0u8; 32];
    for (i, b) in key.iter_mut().enumerate() {
        *b = i as u8;
    }
    let iv = counter_block(&key);
    assert_eq!(iv, [16, 17, 18, 19, 20, 21, 22, 23, 0, 0, 0, 0, 0, 0, 0, 0]);
    let d = NativeDownload::begin(KEY, &key, 0, 9);
    assert_eq!(d, NativeDownload { key: KEY, iv, total: 9, downloaded: 0 });
    assert_eq!(NativeDownload::begin(KEY, &key, 5, 9).total, 5);
}

#[test]
fn short_native_downloads_are_incomplete() {
    let mut d = sealed_download();
    d.decrypt(&vec![0; 31]);
    assert_eq!(d.complete(), Err(Error::Incomplete { got: 31, expected: 32 }));
    assert_eq!(
        d.progress("j", "h"),
        EngineEvent::Progress {
            job_id: "j".to_string(),
            handle: "h".to_string(),
            bytes_done: 31,
            bytes_total: 32,
        }
    );
}

// --- Aria2 ----------------------------------------------------------------------

fn config(url: Option<&str>, secret: Option<&str>) -> AriaConfig {
    AriaConfig {
        rpc_url: url.map(str::to_string),
        secret: secret.map(str::to_string),
        max_download_limit: Some("5M".to_string()),
    }
}

#[test]
fn aria2_needs_a_url() {
    assert!(!config(None, None).enabled());
    assert!(!config(Some("  "), None).enabled());
    assert!(config(Some("http://x"), None).enabled());
    assert!(Aria2Client::from_config(&config(None, None)).is_none());
    assert!(Aria2Client::from_config(&config(Some(" \t"), None)).is_none());
    let c = Aria2Client::from_config(&config(Some(" http://x/jsonrpc "), Some("s"))).unwrap();
    assert_eq!(c.url, "http://x/jsonrpc");
    assert_eq!(c.secret.as_deref(), Some("s"));
    assert!(!AriaConfig::default().enabled());
}

#[test]
fn the_secret_is_the_first_parameter() {
    let c = Aria2Client::from_config(&config(Some("http://x"), Some("s3"))).unwrap();
    let req = c.tell_status("gid1");
    assert_eq!(req.jsonrpc, "2.0");
    assert_eq!(req.id, "mega-dl");
    assert_eq!(req.method, "aria2.tellStatus");
    assert_eq!(
        req.params,
        vec![RpcParam::Text("token:s3".to_string()), RpcParam::Text("gid1".to_string())]
    );
}

#[test]
fn calls_without_a_secret_send_none() {
    let c = Aria2Client::from_config(&config(Some("http://x"), None)).unwrap();
    assert!(c.get_version().params.is_empty());
    assert_eq!(c.get_version().method, "aria2.getVersion");
    assert_eq!(c.remove("g").method, "aria2.remove");
    assert_eq!(c.remove("g").params, vec![RpcParam::Text("g".to_string())]);
    assert_eq!(c.purge(&[]).method, "aria2.purgeDownloadResult");
    assert!(c.purge(&[]).params.is_empty());
    let opts = AddUriOptions { dir: "/d".to_string(), ..Default::default() };
    let req = c.add_uri(&["http://f".to_string()], opts.clone());
    assert_eq!(req.method, "aria2.addUri");
    assert_eq!(
        req.params,
        vec![
            RpcParam::Texts(vec!["http://f".to_string()]),
            RpcParam::Options(vec![entry("dir", "/d")]),
        ]
    );
}

fn entry(name: &str, value: &str) -> OptionEntry {
    OptionEntry { name: name.to_string(), value: value.to_string() }
}

#[test]
fn options_are_sent_under_the_names_that_aria2_knows() {
    let opts = AddUriOptions {
        dir: "/d".to_string(),
        max_download_limit: Some("50M".to_string()),
        max_connection_per_server: Some("1".to_string()),
        continue_field: Some("true".to_string()),
        title: Some("Root/a".to_string()),
    };
    assert_eq!(
        option_entries(&opts),
        vec![
            entry("dir", "/d"),
            entry("max-download-limit", "50M"),
            entry("max-connection-per-server", "1"),
            entry("continue", "true"),
            entry("title", "Root/a"),
        ]
    );
}

#[test]
fn faults_come_before_results() {
    let fault = RpcFault { code: Some(1), message: Some("Unauthorized".to_string()) };
    assert_eq!(
        rpc_result("aria2.addUri", Some(fault), Some(5)),
        Err(Error::Aria2 {
            method: "aria2.addUri".to_string(),
            code: 1,
            message: "Unauthorized".to_string(),
        })
    );
    assert_eq!(
        rpc_result::<u8>("m", Some(RpcFault { code: None, message: None }), None),
        Err(Error::Aria2 {
            method: "m".to_string(),
            code: -1,
            message: "aria2 rpc error".to_string(),
        })
    );
    assert_eq!(rpc_result("m", None, Some(5)), Ok(5));
    assert_eq!(
        rpc_result::<u8>("m", None, None),
        Err(Error::Other("aria2 rpc: missing result".to_string()))
    );
}

#[test]
fn replies_have_defaults() {
    assert_eq!(version_in(Some("1.37.0".to_string())), "1.37.0");
    assert_eq!(version_in(None), "unknown");
    assert_eq!(gid_in(Some("g".to_string())), Ok("g".to_string()));
    assert_eq!(
        gid_in(None),
        Err(Error::Other("aria2.addUri returned no gid".to_string()))
    );
}

#[test]
fn replies_are_read_from_their_bodies() {
    let body = |s: &str| s.as_bytes().to_vec();
    assert_eq!(
        read_reply("m", &body("{\"result\":{\"gid\":\"g\"}}")),
        Ok(JsonPart::Object)
    );
    assert_eq!(read_reply("m", &body("{\"result\":[1]}")), Ok(JsonPart::Array));
    assert_eq!(read_reply("m", &body("{\"result\":null}")), Ok(JsonPart::Null));
    assert_eq!(read_reply("m", &body("{\"result\":true}")), Ok(JsonPart::Bool(true)));
    assert_eq!(read_reply("m", &body("{\"result\":-3}")), Ok(JsonPart::Number(Some(-3))));
    assert_eq!(read_reply("m", &body("{\"result\":0.5}")), Ok(JsonPart::Number(None)));
    assert_eq!(
        read_reply("m", &body("{\"id\":1}")),
        Err(Error::Other("aria2 rpc: missing result".to_string()))
    );
    for not_json in ["", "<html>", "{\"result\":1"] {
        assert_eq!(
            read_reply("m", &body(not_json)),
            Err(Error::Http("error decoding response body".to_string()))
        );
    }
}

#[test]
fn faults_are_read_from_their_bodies() {
    let fault = |s: &str| read_reply("m", &s.as_bytes().to_vec());
    let error = |code: i64, message: &str| {
        Err(Error::Aria2 { method: "m".to_string(), code, message: message.to_string() })
    };
    assert_eq!(
        fault("{\"result\":1,\"error\":{\"code\":1,\"message\":\"Unauthorized\"}}"),
        error(1, "Unauthorized")
    );
    assert_eq!(fault("{\"error\":null,\"result\":1}"), error(-1, "aria2 rpc error"));
    assert_eq!(
        fault("{\"error\":{\"code\":\"1\",\"message\":2}}"),
        error(-1, "aria2 rpc error")
    );
}

#[test]
fn versions_and_gids_are_read_from_their_bodies() {
    let body = |s: &str| s.as_bytes().to_vec();
    assert_eq!(
        read_version(&body("{\"result\":{\"version\":\"1.36.0\"}}")),
        Ok("1.36.0".to_string())
    );
    assert_eq!(read_version(&body("{\"result\":{\"version\":7}}")), Ok("unknown".to_string()));
    assert_eq!(read_version(&body("{\"result\":\"x\"}")), Ok("unknown".to_string()));
    assert!(read_version(&body("{}")).is_err());
    assert_eq!(read_gid(&body("{\"result\":\"2089b0\"}")), Ok("2089b0".to_string()));
    assert_eq!(
        read_gid(&body("{\"result\":5}")),
        Err(Error::Other("aria2.addUri returned no gid".to_string()))
    );
    assert_eq!(
        read_gid(&body("{\"error\":{\"code\":24}}")),
        Err(Error::Aria2 {
            method: "aria2.addUri".to_string(),
            code: 24,
            message: "aria2 rpc error".to_string(),
        })
    );
}

#[test]
fn removals_and_purges_are_read_from_their_bodies() {
    let body = |s: &str| s.as_bytes().to_vec();
    assert_eq!(read_removed(&body("{\"result\":\"2089b0\"}")), Ok(()));
    assert_eq!(
        read_removed(&body("{\"result\":5}")),
        Err(Error::Json("invalid type: integer `5`, expected a string".to_string()))
    );
    assert_eq!(
        read_removed(&body("{\"result\":null}")),
        Err(Error::Json("invalid type: null, expected a string".to_string()))
    );
    assert_eq!(removed_in(Ok("g".to_string())), Ok(()));
    assert_eq!(removed_in(Err("no".to_string())), Err(Error::Json("no".to_string())));
    assert_eq!(
        read_removed(&body("{\"error\":{\"code\":1,\"message\":\"not found\"}}")),
        Err(Error::Aria2 {
            method: "aria2.remove".to_string(),
            code: 1,
            message: "not found".to_string(),
        })
    );
    assert_eq!(read_purged(&body("{\"result\":\"OK\"}")), Ok(()));
    assert_eq!(read_purged(&body("{\"result\":[]}")), Ok(()));
    assert_eq!(
        read_purged(&body("{}")),
        Err(Error::Other("aria2 rpc: missing result".to_string()))
    );
}

#[test]
fn error_messages_are_decoded() {
    assert_eq!(base64_err("RmlsZSBub3QgZm91bmQ="), "File not found");
    assert_eq!(base64_err(""), "");
    // Not base64, or base64 of no text: left as it is.
    assert_eq!(base64_err("File not found"), "File not found");
    assert_eq!(base64_err("/w=="), "/w==");
    assert_eq!(base64_err("RmlsZQ"), "RmlsZQ");
    assert_eq!(message_from("raw", None), "raw");
    assert_eq!(message_from("raw", Some(vec![0xff])), "raw");
    assert_eq!(message_from("raw", Some("ü".as_bytes().to_vec())), "ü");
}

fn status(status: &str, completed: &str) -> AriaStatus {
    AriaStatus {
        status: status.to_string(),
        completed_length: completed.to_string(),
        ..Default::default()
    }
}

#[test]
fn complete_downloads_end_the_watch() {
    assert_eq!(
        after_poll("j", "h", PollEvent::Status(status("complete", "77")), 100, true),
        PollStep::Complete { bytes: 77 }
    );
    assert_eq!(
        after_poll("j", "h", PollEvent::Status(status("complete", "many")), 100, true),
        PollStep::Complete { bytes: 0 }
    );
}

#[test]
fn failed_downloads_end_the_watch() {
    let mut st = status("error", "3");
    st.error_code = Some("1".to_string());
    st.error_message = Some("RmlsZSBub3QgZm91bmQ=".to_string());
    assert_eq!(
        after_poll("j", "h", PollEvent::Status(st), 100, true),
        PollStep::Fail {
            error: Error::Other("aria2 error (code 1): File not found".to_string()),
            link_error: false,
        }
    );
    assert_eq!(
        after_poll("j", "h", PollEvent::Status(status("error", "")), 0, false),
        PollStep::Fail {
            error: Error::Other("aria2 error (code ): ".to_string()),
            link_error: false,
        }
    );
    assert_eq!(
        after_poll("j", "h", PollEvent::Status(status("removed", "")), 0, false),
        PollStep::Fail {
            error: Error::Other("aria2 download removed".to_string()),
            link_error: false,
        }
    );
}

#[test]
fn link_errors_are_told_apart() {
    for (code, blamed) in [("3", true), ("22", true), ("24", true), ("2", false), ("30", false)] {
        let mut st = status("error", "3");
        st.error_code = Some(code.to_string());
        assert_eq!(
            after_poll("j", "h", PollEvent::Status(st), 100, true),
            PollStep::Fail {
                error: Error::Other(format!("aria2 error (code {code}): ")),
                link_error: blamed,
            }
        );
    }
}

#[test]
fn expired_links_are_asked_for_again() {
    let error = || Error::Other("aria2 error (code 3): ".to_string());
    for renewals in 0..4 {
        assert_eq!(after_failure(error(), true, renewals), FailureStep::Renew);
    }
    for renewals in [4, u32::MAX] {
        assert_eq!(after_failure(error(), true, renewals), FailureStep::GiveUp { error: error() });
    }
    assert_eq!(after_failure(error(), false, 0), FailureStep::GiveUp { error: error() });
}

#[test]
fn an_unreachable_aria2_leads_to_the_streamer() {
    assert_eq!(
        after_add_uri(Err(Error::Http("connection refused".to_string()))),
        QueuedStep::Stream { update: TransferUpdate::ActiveInEngine }
    );
    assert_eq!(
        after_add_uri(Ok("g".to_string())),
        QueuedStep::Poll {
            gid: "g".to_string(),
            update: TransferUpdate::Gid { gid: "g".to_string() },
        }
    );
    for error in [
        Error::Other("aria2.addUri returned no gid".to_string()),
        Error::Aria2 { method: "aria2.addUri".to_string(), code: 1, message: String::new() },
        Error::Cancelled,
    ] {
        assert_eq!(after_add_uri(Err(error.clone())), QueuedStep::Fail { error });
    }
}

#[test]
fn running_downloads_are_watched_on() {
    for s in ["active", "waiting", "paused", "", "COMPLETE"] {
        assert_eq!(
            after_poll("j", "h", PollEvent::Status(status(s, "120")), 100, true),
            PollStep::Wait {
                millis: 500,
                progress: Some((
                    TransferUpdate::Progress { bytes_done: 120 },
                    EngineEvent::Progress {
                        job_id: "j".to_string(),
                        handle: "h".to_string(),
                        bytes_done: 120,
                        bytes_total: 120,
                    },
                )),
            }
        );
        assert_eq!(
            after_poll("j", "h", PollEvent::Status(status(s, "120")), 100, false),
            PollStep::Wait { millis: 500, progress: None }
        );
    }
}

#[test]
fn hiccups_are_waited_out_and_outages_are_not() {
    for misses in [0, 1, MAX_MISSES - 1] {
        assert_eq!(
            after_poll("j", "h", PollEvent::Unreachable { misses }, 100, true),
            PollStep::Wait { millis: 500, progress: None }
        );
    }
    assert_eq!(
        after_poll("j", "h", PollEvent::Unreachable { misses: MAX_MISSES }, 100, true),
        PollStep::Stream { update: TransferUpdate::ActiveInEngine }
    );
    let mut misses = 0;
    for _ in 0..500 {
        misses = count_look(misses, false);
    }
    assert_eq!(misses, MAX_MISSES);
    assert_eq!(count_look(misses, true), 0);
    assert_eq!(count_look(0, false), 1);
}

#[test]
fn cancelling_pauses_the_watch() {
    assert_eq!(
        after_poll("j", "h", PollEvent::Cancelled, 100, true),
        PollStep::Pause { update: TransferUpdate::Paused, error: Error::Cancelled }
    );
}

#[test]
fn concurrency_is_brought_into_range() {
    for (asked, got) in [(0, 1), (1, 1), (4, 4), (16, 16), (17, 16), (usize::MAX, 16)] {
        assert_eq!(Downloader::new("/d", asked).concurrency, got);
    }
}

#[test]
fn downloaders_are_configured() {
    let mut dl = Downloader::new("/d", 4);
    assert!(!dl.aria2_enabled());
    assert_eq!(dl.aria2_root(), "/d");
    assert_eq!(dl.map_aria2_path("/x/y"), "/x/y");
    assert_eq!(dl.local_path("Root/a?"), "/d/Root/a_");
    dl.with_aria2(&config(Some("http://x"), None))
        .set_path_mappings(vec![PathMapping::new("/rd", "/mnt/rd")]);
    assert!(dl.aria2_enabled());
    assert_eq!(dl.max_download_speed.as_deref(), Some("5M"));
    assert_eq!(dl.aria2_root(), "/rd");
    assert_eq!(dl.map_aria2_path("/rd/y"), "/mnt/rd/y");
    dl.with_aria2(&config(Some(""), None));
    assert!(!dl.aria2_enabled());
}

#[test]
fn aria2_gets_a_directory_per_job() {
    let mut dl = Downloader::new("/d", 4);
    dl.with_aria2(&config(Some("http://x"), None));
    let plan = dl.plan_aria2("0123456789ab", &file_task("Root/CON/v?.mkv", 10), 12);
    assert_eq!(plan.total, 12);
    assert_eq!(plan.dir, "/d/job-01234567");
    assert_eq!(plan.filename, "v_.mkv");
    assert_eq!(plan.update, TransferUpdate::ActiveInAria2);
    assert_eq!(
        plan.options,
        AddUriOptions {
            dir: "/d/job-01234567".to_string(),
            max_download_limit: Some("5M".to_string()),
            max_connection_per_server: Some("1".to_string()),
            continue_field: Some("true".to_string()),
            title: Some("Root/CON/v?.mkv".to_string()),
        }
    );
    let unnamed = dl.plan_aria2("j1", &file_task("//", 10), 0);
    assert_eq!(unnamed.total, 10);
    assert_eq!(unnamed.dir, "/d/job-j1");
    assert_eq!(unnamed.filename, "h.part");
}

#[test]
fn finished_files_are_found_under_the_mapping() {
    let mut dl = Downloader::new("/d", 4);
    dl.set_path_mappings(vec![PathMapping::new("/rd", "/mnt/rd")]);
    let plan = dl.plan_aria2("0123456789ab", &file_task("Root/v.mkv", 10), 12);
    let path = finished_path(&Vec::new(), &plan.dir, &plan.filename);
    assert_eq!(path, "/rd/job-01234567/v.mkv");
    assert_eq!(dl.map_aria2_path(&path), "/mnt/rd/job-01234567/v.mkv");
}

#[test]
fn aria2_may_name_the_file_itself() {
    let file = |path: &str| Aria2File {
        path: path.to_string(),
        length: String::new(),
        completed_length: String::new(),
        selected: String::new(),
    };
    assert_eq!(finished_path(&vec![file("/rd/x"), file("/rd/y")], "/d", "v"), "/rd/x");
    assert_eq!(finished_path(&vec![file(""), file("/rd/y")], "/d", "v"), "/d/v");
}

#[test]
fn moves_across_filesystems_are_copies() {
    let failure = |os_error: Option<i32>| {
        Some(RenameFailure { os_error, message: "no".to_string() })
    };
    assert_eq!(after_rename(None), MoveStep::Moved);
    assert_eq!(after_rename(failure(Some(18))), MoveStep::Copy);
    for os_error in [Some(2), None] {
        assert_eq!(
            after_rename(failure(os_error)),
            MoveStep::Fail { error: Error::Io("no".to_string()) }
        );
    }
}

#[test]
fn finished_files_report_at_least_their_bytes() {
    let (progress, update, event) = aria2_done("j", "h", 5, 9);
    assert_eq!(
        progress,
        EngineEvent::Progress {
            job_id: "j".to_string(),
            handle: "h".to_string(),
            bytes_done: 9,
            bytes_total: 9,
        }
    );
    assert_eq!(update, TransferUpdate::Done { bytes_done: 9 });
    assert_eq!(
        event,
        EngineEvent::FileDone { job_id: "j".to_string(), handle: "h".to_string() }
    );
}
