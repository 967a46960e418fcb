use mega_downloader::error::Error;
use mega_downloader::events::{progress_event, EngineEvent, TransferUpdate};
use mega_downloader::queue::Remaining;
use mega_downloader::retry::{classify, RetryPolicy};
use mega_downloader::task::{
    after_attempt, after_fallback, already_complete, fail, start_task, AttemptStep, FallbackStep,
    FileTask, TaskStart,
};

fn rd(status: u16, code: Option<i64>) -> Error {
    Error::RealDebrid { status, code, message: "m".to_string() }
}

fn task(attempt: u32, key: Option<Vec<u8>>) -> FileTask {
    FileTask {
        transfer_id: "t".to_string(),
        handle: "h".to_string(),
        rel_path: "Root/a.mkv".to_string(),
        size: 10,
        file_key: key,
        attempt,
    }
}

#[test]
fn classifies_retry_policy() {
    // RD cold-cache → patient
    assert_eq!(
        classify(&Error::RealDebrid {
            status: 404,
            code: Some(24),
            message: "unavailable_file".into(),
        }),
        RetryPolicy::Patient
    );
    // Rate limit / server error → normal retry
    assert_eq!(
        classify(&Error::RealDebrid {
            status: 429,
            code: None,
            message: "slow down".into(),
        }),
        RetryPolicy::Normal
    );
    // Truncated transfer → normal retry
    assert_eq!(
        classify(&Error::Incomplete {
            got: 1,
            expected: 2
        }),
        RetryPolicy::Normal
    );
    // Unsupported/removed → fatal
    assert_eq!(
        classify(&Error::RealDebrid {
            status: 400,
            code: Some(7),
            message: "unsupported".into(),
        }),
        RetryPolicy::Fatal
    );
}

#[test]
fn classifies_the_edges_of_server_errors() {
    assert_eq!(classify(&rd(499, None)), RetryPolicy::Fatal);
    assert_eq!(classify(&rd(500, None)), RetryPolicy::Normal);
    assert_eq!(classify(&rd(599, Some(1))), RetryPolicy::Normal);
    assert_eq!(classify(&rd(600, None)), RetryPolicy::Fatal);
    assert_eq!(classify(&rd(500, Some(24))), RetryPolicy::Patient);
}

#[test]
fn classifies_every_other_error() {
    let s = || "x".to_string();
    assert_eq!(classify(&Error::Http(s())), RetryPolicy::Normal);
    assert_eq!(classify(&Error::Db(s())), RetryPolicy::Normal);
    for e in [
        Error::Migrate(s()),
        Error::Io(s()),
        Error::Json(s()),
        Error::Cancelled,
        Error::InvalidLink(s()),
        Error::Other(s()),
        Error::Aria2 { method: s(), code: 1, message: s() },
    ] {
        assert_eq!(classify(&e), RetryPolicy::Fatal);
    }
}

#[test]
fn backoffs_grow_to_their_bounds() {
    let patient: Vec<u64> = (1..=8).map(|a| RetryPolicy::Patient.backoff(a)).collect();
    assert_eq!(patient, vec![5, 15, 30, 60, 60, 60, 60, 60]);
    let normal: Vec<u64> = (0..=7).map(|a| RetryPolicy::Normal.backoff(a)).collect();
    assert_eq!(normal, vec![1, 2, 4, 8, 16, 30, 30, 30]);
    assert_eq!(RetryPolicy::Patient.backoff(0), 60);
    assert_eq!(RetryPolicy::Fatal.backoff(3), 0);
    assert_eq!(RetryPolicy::Patient.max_attempts(), 8);
    assert_eq!(RetryPolicy::Normal.max_attempts(), 5);
    assert_eq!(RetryPolicy::Fatal.max_attempts(), 1);
}

#[test]
fn errors_read_as_they_should() {
    let m = || "boom".to_string();
    let cases = [
        (Error::Db(m()), "database error: boom"),
        (Error::Migrate(m()), "migration error: boom"),
        (Error::Http(m()), "http error: boom"),
        (Error::Io(m()), "io error: boom"),
        (Error::Json(m()), "serialization error: boom"),
        (Error::Cancelled, "cancelled"),
        (Error::InvalidLink(m()), "invalid mega link: boom"),
        (Error::Other(m()), "boom"),
        (
            Error::Incomplete { got: -1, expected: 20 },
            "incomplete download: got -1 of 20 bytes",
        ),
        (
            Error::Aria2 { method: "aria2.addUri".to_string(), code: -7, message: m() },
            "aria2 rpc error (aria2.addUri, code -7): boom",
        ),
    ];
    for (e, text) in cases {
        assert_eq!(e.to_string(), text);
    }
    assert_eq!(
        rd(404, Some(24)).to_string(),
        format!("real-debrid error (status {}, code {:?}): m", 404, Some(24))
    );
    assert_eq!(
        rd(500, None).to_string(),
        "real-debrid error (status 500, code None): m"
    );
}

#[test]
fn complete_files_are_not_downloaded() {
    assert!(already_complete(10, 10));
    assert!(!already_complete(10, 9));
    assert!(!already_complete(0, 0));
    assert!(!already_complete(-1, -1));
    let start = start_task("j", "F", "K", &task(0, None), 10, true);
    assert_eq!(
        start,
        TaskStart::OnDisk {
            update: TransferUpdate::Done { bytes_done: 10 },
            event: EngineEvent::FileDone { job_id: "j".to_string(), handle: "h".to_string() },
        }
    );
}

#[test]
fn attempts_go_to_the_files_link() {
    for via_aria2 in [true, false] {
        assert_eq!(
            start_task("j", "F", "K", &task(0, None), 3, via_aria2),
            TaskStart::Attempt {
                update: TransferUpdate::Active,
                link: "https://mega.nz/folder/F#K/file/h".to_string(),
                via_aria2,
            }
        );
    }
}

#[test]
fn transient_failures_are_deferred() {
    match after_attempt("j", task(1, None), Err(rd(404, Some(24)))) {
        AttemptStep::Deferred { task: next, delay_secs, update, event } => {
            assert_eq!(next, task(2, None));
            assert_eq!(delay_secs, 15);
            let reason = rd(404, Some(24)).to_string();
            assert_eq!(update, TransferUpdate::Requeued { retries: 2, error: reason.clone() });
            assert_eq!(
                event,
                EngineEvent::FileRetry {
                    job_id: "j".to_string(),
                    handle: "h".to_string(),
                    attempt: 2,
                    max: 8,
                    reason,
                }
            );
        }
        other => panic!("{other:?}"),
    }
}

#[test]
fn exhausted_retries_fall_back_with_a_key() {
    let key: Vec<u8> = (0..40).collect();
    match after_attempt("j", task(4, Some(key.clone())), Err(Error::Http("x".to_string()))) {
        AttemptStep::FallBack { task: next, key: used, event } => {
            assert_eq!(next, task(4, Some(key.clone())));
            assert_eq!(&used[..], &key[..32]);
            assert_eq!(
                event,
                EngineEvent::FileFallback { job_id: "j".to_string(), handle: "h".to_string() }
            );
        }
        other => panic!("{other:?}"),
    }
}

#[test]
fn permanent_failures_fall_back_at_once() {
    let step = after_attempt("j", task(0, Some(vec![1; 32])), Err(rd(400, Some(7))));
    assert!(matches!(step, AttemptStep::FallBack { .. }));
}

#[test]
fn files_without_a_usable_key_fail() {
    for key in [None, Some(vec![1; 31])] {
        let e = Error::Io("disk full".to_string());
        assert_eq!(
            after_attempt("j", task(0, key), Err(e)),
            AttemptStep::Failed {
                update: TransferUpdate::Failed { error: "io error: disk full".to_string() },
                event: EngineEvent::FileError {
                    job_id: "j".to_string(),
                    handle: "h".to_string(),
                    error: "io error: disk full".to_string(),
                },
            }
        );
    }
}

#[test]
fn success_settles_and_pause_leaves() {
    assert_eq!(after_attempt("j", task(0, None), Ok(())), AttemptStep::Settled);
    assert_eq!(after_attempt("j", task(0, None), Err(Error::Cancelled)), AttemptStep::Paused);
    assert_eq!(after_fallback("j", "h", Ok(())), FallbackStep::Settled);
    assert_eq!(after_fallback("j", "h", Err(Error::Cancelled)), FallbackStep::Paused);
    let e = Error::Incomplete { got: 1, expected: 2 };
    let (update, event) = fail("j", "h", &e);
    assert_eq!(after_fallback("j", "h", Err(e)), FallbackStep::Failed { update, event });
}

#[test]
fn only_deferred_and_paused_tasks_are_not_settled() {
    let key = Some(vec![1; 32]);
    assert!(start_task("j", "F", "K", &task(0, None), 10, true).settles());
    assert!(!start_task("j", "F", "K", &task(0, None), 3, true).settles());
    assert!(after_attempt("j", task(0, None), Ok(())).settles());
    assert!(after_attempt("j", task(0, None), Err(Error::Io("x".to_string()))).settles());
    assert!(!after_attempt("j", task(0, None), Err(Error::Cancelled)).settles());
    assert!(!after_attempt("j", task(0, None), Err(Error::Http("x".to_string()))).settles());
    assert!(!after_attempt("j", task(0, key), Err(Error::Io("x".to_string()))).settles());
    assert!(after_fallback("j", "h", Ok(())).settles());
    assert!(after_fallback("j", "h", Err(Error::Io("x".to_string()))).settles());
    assert!(!after_fallback("j", "h", Err(Error::Cancelled)).settles());
}

#[test]
fn a_task_is_deferred_at_most_seven_times() {
    let mut current = task(0, None);
    let mut deferrals = 0;
    loop {
        match after_attempt("j", current, Err(rd(404, Some(24)))) {
            AttemptStep::Deferred { task: next, .. } => {
                deferrals += 1;
                assert_eq!(next.attempt, deferrals);
                current = next;
            }
            AttemptStep::Failed { .. } => break,
            other => panic!("{other:?}"),
        }
    }
    assert_eq!(deferrals, 7);
    let worn = task(u32::MAX, None);
    assert!(matches!(
        after_attempt("j", worn, Err(rd(404, Some(24)))),
        AttemptStep::Failed { .. }
    ));
}

#[test]
fn the_queue_closes_with_the_last_task() {
    let mut remaining = Remaining::new(3);
    assert!(!remaining.terminal());
    assert!(!remaining.terminal());
    assert_eq!(remaining.count(), 1);
    assert!(remaining.terminal());
    assert_eq!(remaining.count(), 0);
}

#[test]
fn progress_is_told_as_it_is() {
    assert_eq!(
        progress_event("j", "h", 3, 10),
        EngineEvent::Progress {
            job_id: "j".to_string(),
            handle: "h".to_string(),
            bytes_done: 3,
            bytes_total: 10,
        }
    );
}
