//! A run of a job: which transfers it picks up, and what it leaves behind.
//!
//! A job can be run any number of times. A run picks up all transfers that are
//! not done; what a crash or a pause has interrupted is queued again.

use crate::events::{EngineEvent, EventView};
use crate::task::{self, copy_key, FileTask, TaskView};
use crate::text::{self, listed, same_text};
use vstd::prelude::*;

verus! {

/// The status of a row, of a transfer or of a job.
#[derive(Debug, Clone, PartialEq, Eq)]
pub struct StatusRow {
    pub id: String,
    pub status: String,
}

/// The ids of the rows whose status is one of some.
pub open spec fn ids_in(rows: Seq<StatusRow>, statuses: Seq<Seq<char>>) -> Seq<Seq<char>>
    decreases rows.len(),
{
    if rows.len() == 0 {
        Seq::empty()
    } else {
        let before = ids_in(rows.drop_last(), statuses);
        if statuses.contains(rows.last().status@) {
            before.push(rows.last().id@)
        } else {
            before
        }
    }
}

/// Finds the rows whose status is one of some.
pub fn find_in(rows: &Vec<StatusRow>, statuses: &Vec<String>) -> (r: Vec<String>)
    ensures
        text::texts_of(r@) == ids_in(rows@, text::texts_of(statuses@)),
{
    let mut ids: Vec<String> = Vec::new();
    assert(rows@.take(0) =~= Seq::<StatusRow>::empty());
    assert(text::texts_of(ids@) =~= Seq::<Seq<char>>::empty());
    for i in 0..rows.len()
        invariant
            text::texts_of(ids@) == ids_in(rows@.take(i as int), text::texts_of(statuses@)),
    {
        assert(rows@.take(i + 1).drop_last() =~= rows@.take(i as int));
        let hit = listed(statuses, rows[i].status.as_str());
        proof {
            let wanted = rows@[i as int].status@;
            let all = text::texts_of(statuses@);
            if hit {
                let k = choose|k: int|
                    0 <= k < statuses@.len() && (#[trigger] statuses@[k])@ == wanted;
                assert(all[k] == wanted);
            } else if all.contains(wanted) {
                let k = choose|k: int| 0 <= k < all.len() && all[k] == wanted;
                assert(statuses@[k]@ == wanted);
            }
        }
        if hit {
            let ghost before = ids@;
            ids.push(rows[i].id.clone());
            assert(text::texts_of(ids@) =~= text::texts_of(before).push(rows@[i as int].id@));
        }
    }
    assert(rows@.take(rows@.len() as int) =~= rows@);
    ids
}

/// The status of a transfer that was being worked on.
pub open spec fn interrupted_statuses() -> Seq<Seq<char>> {
    seq!["active"@]
}

/// The transfers to queue again before a run (crash recovery: a transfer left
/// 'active' by an earlier run was interrupted), and after a paused one.
pub fn interrupted(rows: &Vec<StatusRow>) -> (r: Vec<String>)
    ensures
        text::texts_of(r@) == ids_in(rows@, interrupted_statuses()),
        text::texts_of(r@) == ids_in(rows@, seq!["active"@]),
{
    let mut statuses: Vec<String> = Vec::new();
    statuses.push("active".to_owned());
    assert(text::texts_of(statuses@) =~= interrupted_statuses());
    find_in(rows, &statuses)
}

/// The statuses of transfers that a retry queues again.
pub open spec fn failed_statuses() -> Seq<Seq<char>> {
    seq!["error"@, "active"@]
}

/// The transfers that a retry queues again, with their errors forgotten.
pub fn failed(rows: &Vec<StatusRow>) -> (r: Vec<String>)
    ensures
        text::texts_of(r@) == ids_in(rows@, failed_statuses()),
        text::texts_of(r@) == ids_in(rows@, seq!["error"@, "active"@]),
{
    let mut statuses: Vec<String> = Vec::new();
    statuses.push("error".to_owned());
    statuses.push("active".to_owned());
    assert(text::texts_of(statuses@) =~= failed_statuses());
    find_in(rows, &statuses)
}

/// The statuses of jobs that are continued at startup.
pub open spec fn unfinished_statuses() -> Seq<Seq<char>> {
    seq!["downloading"@, "pending"@]
}

/// The jobs to continue at startup: those left actively running. Jobs that the
/// user paused stay paused, and jobs that ended in error wait for a retry
/// (retrying them at every launch would hammer files that failed permanently).
pub fn unfinished_jobs(rows: &Vec<StatusRow>) -> (r: Vec<String>)
    ensures
        text::texts_of(r@) == ids_in(rows@, unfinished_statuses()),
        text::texts_of(r@) == ids_in(rows@, seq!["downloading"@, "pending"@]),
{
    let mut statuses: Vec<String> = Vec::new();
    statuses.push("downloading".to_owned());
    statuses.push("pending".to_owned());
    assert(text::texts_of(statuses@) =~= unfinished_statuses());
    find_in(rows, &statuses)
}

// ---------------------------------------------------------------------------
// The tasks of a run
// ---------------------------------------------------------------------------

/// A transfer joined with its node.
#[derive(Debug, Clone, PartialEq, Eq)]
pub struct TransferRecord {
    pub transfer_id: String,
    pub handle: String,
    pub rel_path: String,
    pub size: i64,
    pub file_key: Option<Vec<u8>>,
    pub status: String,
}

/// The task for a transfer at the start of a run.
pub open spec fn fresh_task(r: TransferRecord) -> TaskView {
    TaskView {
        transfer_id: r.transfer_id@,
        handle: r.handle@,
        rel_path: r.rel_path@,
        size: r.size,
        file_key: task::bytes_view(r.file_key),
        attempt: 0,
    }
}

/// The tasks for the transfers that are not done.
pub open spec fn tasks_of(records: Seq<TransferRecord>) -> Seq<TaskView>
    decreases records.len(),
{
    if records.len() == 0 {
        Seq::empty()
    } else {
        let before = tasks_of(records.drop_last());
        if records.last().status@ == "done"@ {
            before
        } else {
            before.push(fresh_task(records.last()))
        }
    }
}

/// The views of a list of tasks.
pub open spec fn task_views(tasks: Seq<FileTask>) -> Seq<TaskView> {
    tasks.map_values(|t: FileTask| t@)
}

/// Makes a task of each transfer that is not done.
pub fn pending_tasks(records: &Vec<TransferRecord>) -> (r: Vec<FileTask>)
    ensures
        task_views(r@) == tasks_of(records@),
{
    let mut tasks: Vec<FileTask> = Vec::new();
    assert(records@.take(0) =~= Seq::<TransferRecord>::empty());
    assert(task_views(tasks@) =~= Seq::<TaskView>::empty());
    for i in 0..records.len()
        invariant
            task_views(tasks@) == tasks_of(records@.take(i as int)),
    {
        assert(records@.take(i + 1).drop_last() =~= records@.take(i as int));
        let rec = &records[i];
        if !same_text(rec.status.as_str(), "done") {
            let task = FileTask {
                transfer_id: rec.transfer_id.clone(),
                handle: rec.handle.clone(),
                rel_path: rec.rel_path.clone(),
                size: rec.size,
                file_key: copy_key(&rec.file_key),
                attempt: 0,
            };
            assert(task@ == fresh_task(records@[i as int]));
            let ghost before = tasks@;
            tasks.push(task);
            assert(task_views(tasks@) =~= task_views(before).push(task@));
        }
    }
    assert(records@.take(records@.len() as int) =~= records@);
    tasks
}

// ---------------------------------------------------------------------------
// The end of a run
// ---------------------------------------------------------------------------

/// What is written down and told at the end of a run.
#[derive(Debug, Clone, PartialEq, Eq)]
pub struct RunEnd {
    /// The transfers to queue again.
    pub requeue: Vec<String>,
    /// The job's status.
    pub status: String,
    pub event: EngineEvent,
}

/// Whether all transfers are done.
pub open spec fn all_done(rows: Seq<StatusRow>) -> bool {
    forall|i: int| 0 <= i < rows.len() ==> (#[trigger] rows[i]).status@ == "done"@
}

/// The status of a job after a run.
pub open spec fn status_after(cancelled: bool, rows: Seq<StatusRow>) -> Seq<char> {
    if cancelled {
        "paused"@
    } else if all_done(rows) {
        "done"@
    } else {
        "error"@
    }
}

/// Ends a run, given the transfers as the run has left them. A cancelled run
/// queues again what was in flight (partial files resume later), so nothing is
/// left showing 'active' while the job sits paused. Otherwise the job is done
/// only if nothing remains.
pub fn end_run(job_id: &str, cancelled: bool, rows: &Vec<StatusRow>) -> (r: RunEnd)
    ensures
        text::texts_of(r.requeue@) == if cancelled {
            ids_in(rows@, interrupted_statuses())
        } else {
            Seq::<Seq<char>>::empty()
        },
        r.status@ == status_after(cancelled, rows@),
        cancelled ==> r.status@ == "paused"@ && text::texts_of(r.requeue@) == ids_in(
            rows@,
            seq!["active"@],
        ),
        !cancelled ==> r.requeue@.len() == 0,
        !cancelled && (forall|i: int|
            0 <= i < rows@.len() ==> (#[trigger] rows@[i]).status@ == "done"@) ==> r.status@
            == "done"@,
        !cancelled && (exists|i: int|
            0 <= i < rows@.len() && (#[trigger] rows@[i]).status@ != "done"@) ==> r.status@
            == "error"@,
        r.event@ == (EventView::JobDone { job_id: job_id@ }),
{
    let event = EngineEvent::JobDone { job_id: job_id.to_owned() };
    if cancelled {
        return RunEnd { requeue: interrupted(rows), status: "paused".to_owned(), event };
    }
    let requeue: Vec<String> = Vec::new();
    assert(text::texts_of(requeue@) =~= Seq::<Seq<char>>::empty());
    for i in 0..rows.len()
        invariant
            forall|j: int| 0 <= j < i ==> (#[trigger] rows@[j]).status@ == "done"@,
            text::texts_of(requeue@) == Seq::<Seq<char>>::empty(),
            requeue@.len() == 0,
            event@ == (EventView::JobDone { job_id: job_id@ }),
            !cancelled,
    {
        if !same_text(rows[i].status.as_str(), "done") {
            return RunEnd { requeue, status: "error".to_owned(), event };
        }
    }
    RunEnd { requeue, status: "done".to_owned(), event }
}

// ---------------------------------------------------------------------------
// Laws
// ---------------------------------------------------------------------------

/// A status after some transfers were queued again.
pub open spec fn requeued_status(row: StatusRow, ids: Seq<Seq<char>>) -> Seq<char> {
    if ids.contains(row.id@) {
        "queued"@
    } else {
        row.status@
    }
}

/// The rows with one of some statuses are found, and only those, where ids
/// are distinct.
pub proof fn found_rows(rows: Seq<StatusRow>, statuses: Seq<Seq<char>>)
    ensures
        forall|i: int|
            0 <= i < rows.len() && statuses.contains((#[trigger] rows[i]).status@) ==> ids_in(
                rows,
                statuses,
            ).contains(rows[i].id@),
        forall|x: Seq<char>| #[trigger]
            ids_in(rows, statuses).contains(x) ==> exists|i: int|
                0 <= i < rows.len() && (#[trigger] rows[i]).id@ == x && statuses.contains(
                    rows[i].status@,
                ),
    decreases rows.len(),
{
    if rows.len() > 0 {
        let front = rows.drop_last();
        found_rows(front, statuses);
        let before = ids_in(front, statuses);
        let all = ids_in(rows, statuses);
        assert forall|i: int|
            0 <= i < rows.len() && statuses.contains(
                (#[trigger] rows[i]).status@,
            ) implies all.contains(rows[i].id@) by {
            if i < front.len() {
                assert(front[i] == rows[i]);
                assert(before.contains(rows[i].id@));
                let k = choose|k: int| 0 <= k < before.len() && before[k] == rows[i].id@;
                assert(all[k] == rows[i].id@);
            } else {
                assert(all[all.len() - 1] == rows[i].id@);
            }
        }
        assert forall|x: Seq<char>| #[trigger] all.contains(x) implies exists|i: int|
            0 <= i < rows.len() && (#[trigger] rows[i]).id@ == x && statuses.contains(
                rows[i].status@,
            ) by {
            let k = choose|k: int| 0 <= k < all.len() && all[k] == x;
            if k < before.len() {
                assert(before[k] == x);
                assert(before.contains(x));
                let i = choose|i: int|
                    0 <= i < front.len() && (#[trigger] front[i]).id@ == x && statuses.contains(
                        front[i].status@,
                    );
                assert(rows[i] == front[i]);
            } else {
                assert(rows[rows.len() - 1].id@ == x);
            }
        }
    }
}

/// Rows that are found by their status and queued again have none of those
/// statuses any more, and where ids are distinct, every other row keeps its
/// status.
proof fn requeued_rows(rows: Seq<StatusRow>, statuses: Seq<Seq<char>>, i: int)
    requires
        0 <= i < rows.len(),
        !statuses.contains("queued"@),
    ensures
        ({
            let ids = ids_in(rows, statuses);
            &&& !statuses.contains(requeued_status(rows[i], ids))
            &&& statuses.contains(rows[i].status@) ==> requeued_status(rows[i], ids) == "queued"@
            &&& distinct_ids(rows) && !statuses.contains(rows[i].status@) ==> requeued_status(
                rows[i],
                ids,
            ) == rows[i].status@
        }),
{
    let ids = ids_in(rows, statuses);
    found_rows(rows, statuses);
    if !statuses.contains(rows[i].status@) && ids.contains(rows[i].id@) {
        let k = choose|k: int|
            0 <= k < rows.len() && (#[trigger] rows[k]).id@ == rows[i].id@ && statuses.contains(
                rows[k].status@,
            );
        assert(k != i);
    }
}

/// Whether no two rows have the same id.
pub open spec fn distinct_ids(rows: Seq<StatusRow>) -> bool {
    forall|j: int, k: int|
        0 <= j < k < rows.len() ==> (#[trigger] rows[j]).id@ != (#[trigger] rows[k]).id@
}

/// Nothing is left showing 'active': once the interrupted transfers are queued
/// again, no transfer is active; and where ids are distinct, every other
/// transfer keeps its status.
pub proof fn nothing_stays_active(rows: Seq<StatusRow>, i: int)
    requires
        0 <= i < rows.len(),
    ensures
        ({
            let ids = ids_in(rows, interrupted_statuses());
            &&& requeued_status(rows[i], ids) != "active"@
            &&& rows[i].status@ == "active"@ ==> requeued_status(rows[i], ids) == "queued"@
            &&& distinct_ids(rows) && rows[i].status@ != "active"@ ==> requeued_status(
                rows[i],
                ids,
            ) == rows[i].status@
        }),
{
    reveal_strlit("active");
    reveal_strlit("queued");
    assert("active"@[0] == 'a');
    assert("queued"@[0] == 'q');
    assert(interrupted_statuses()[0] == "active"@);
    assert forall|t: Seq<char>| interrupted_statuses().contains(t) <==> t == "active"@ by {}
    requeued_rows(rows, interrupted_statuses(), i);
}

/// A retry gives every failed file another chance: once it has queued what it
/// finds, no transfer is in error or active, and done ones stay done where ids
/// are distinct.
pub proof fn a_retry_queues_every_failure(rows: Seq<StatusRow>, i: int)
    requires
        0 <= i < rows.len(),
    ensures
        ({
            let ids = ids_in(rows, failed_statuses());
            &&& requeued_status(rows[i], ids) != "error"@
            &&& requeued_status(rows[i], ids) != "active"@
            &&& rows[i].status@ == "error"@ ==> requeued_status(rows[i], ids) == "queued"@
            &&& distinct_ids(rows) && rows[i].status@ == "done"@ ==> requeued_status(rows[i], ids)
                == "done"@
        }),
{
    reveal_strlit("active");
    reveal_strlit("error");
    reveal_strlit("queued");
    reveal_strlit("done");
    assert("active"@[0] == 'a');
    assert("error"@[0] == 'e');
    assert("queued"@[0] == 'q');
    assert("done"@[0] == 'd');
    assert(failed_statuses()[0] == "error"@ && failed_statuses()[1] == "active"@);
    assert forall|t: Seq<char>|
        failed_statuses().contains(t) <==> t == "error"@ || t == "active"@ by {}
    requeued_rows(rows, failed_statuses(), i);
}

/// Downloads survive a restart: a run picks up every transfer that is not
/// done, whatever its status, as a fresh task of its own file; and none that
/// is done.
pub proof fn unfinished_transfers_are_picked_up(records: Seq<TransferRecord>)
    ensures
        forall|i: int|
            0 <= i < records.len() && (#[trigger] records[i]).status@ != "done"@ ==> tasks_of(
                records,
            ).contains(fresh_task(records[i])),
        forall|t: TaskView| #[trigger]
            tasks_of(records).contains(t) ==> exists|i: int|
                0 <= i < records.len() && (#[trigger] records[i]).status@ != "done"@ && t
                    == fresh_task(records[i]),
        tasks_of(records).len() <= records.len(),
    decreases records.len(),
{
    if records.len() > 0 {
        let front = records.drop_last();
        unfinished_transfers_are_picked_up(front);
        let before = tasks_of(front);
        let all = tasks_of(records);
        assert forall|i: int|
            0 <= i < records.len() && (#[trigger] records[i]).status@
                != "done"@ implies all.contains(fresh_task(records[i])) by {
            if i < front.len() {
                assert(front[i] == records[i]);
                assert(before.contains(fresh_task(front[i])));
                let k = choose|k: int| 0 <= k < before.len() && before[k] == fresh_task(front[i]);
                assert(all[k] == fresh_task(records[i]));
            } else {
                assert(all[all.len() - 1] == fresh_task(records[i]));
            }
        }
        assert forall|t: TaskView| #[trigger] all.contains(t) implies exists|i: int|
            0 <= i < records.len() && (#[trigger] records[i]).status@ != "done"@ && t
                == fresh_task(records[i]) by {
            let k = choose|k: int| 0 <= k < all.len() && all[k] == t;
            if k < before.len() {
                assert(before[k] == t);
                assert(before.contains(t));
                let i = choose|i: int|
                    0 <= i < front.len() && (#[trigger] front[i]).status@ != "done"@ && t
                        == fresh_task(front[i]);
                assert(records[i] == front[i]);
            } else {
                assert(t == fresh_task(records[records.len() - 1]));
            }
        }
    }
}

/// Running a job again is harmless: a job is called done exactly when its run
/// was not cancelled and another run would have nothing to do.
pub proof fn done_jobs_have_no_tasks(
    cancelled: bool,
    rows: Seq<StatusRow>,
    records: Seq<TransferRecord>,
)
    requires
        rows.len() == records.len(),
        forall|i: int| 0 <= i < rows.len() ==> (#[trigger] rows[i]).status@ == records[i].status@,
    ensures
        status_after(cancelled, rows) == "done"@ <==> !cancelled && tasks_of(records).len() == 0,
{
    reveal_strlit("paused");
    reveal_strlit("done");
    reveal_strlit("error");
    assert("paused"@[0] == 'p');
    assert("done"@[0] == 'd');
    assert("error"@[0] == 'e');
    unfinished_transfers_are_picked_up(records);
    if all_done(rows) {
        if tasks_of(records).len() > 0 {
            let t = tasks_of(records)[0];
            assert(tasks_of(records).contains(t));
            let i = choose|i: int|
                0 <= i < records.len() && (#[trigger] records[i]).status@ != "done"@ && t
                    == fresh_task(records[i]);
            assert(rows[i].status@ == "done"@);
        }
    } else {
        let i = choose|i: int| 0 <= i < rows.len() && (#[trigger] rows[i]).status@ != "done"@;
        assert(records[i].status@ != "done"@);
        assert(tasks_of(records).contains(fresh_task(records[i])));
    }
}

/// Paused and failed jobs are not continued at startup.
pub proof fn paused_jobs_stay_paused(cancelled: bool, rows: Seq<StatusRow>)
    ensures
        !unfinished_statuses().contains(status_after(cancelled, rows)),
{
    reveal_strlit("paused");
    reveal_strlit("done");
    reveal_strlit("error");
    reveal_strlit("downloading");
    reveal_strlit("pending");
    let s = status_after(cancelled, rows);
    assert(s.len() <= 6);
    assert("downloading"@.len() == 11);
    assert("pending"@.len() == 7);
    if unfinished_statuses().contains(s) {
        let k = choose|k: int| 0 <= k < 2 && unfinished_statuses()[k] == s;
        assert(unfinished_statuses()[k].len() >= 7);
    }
}

/// Rows are found one by one, in order: those of two lists after each other are
/// those of the one and then those of the other, and a single row is found
/// exactly if its status is one of those looked for.
pub proof fn rows_are_found_one_by_one(
    a: Seq<StatusRow>,
    b: Seq<StatusRow>,
    row: StatusRow,
    statuses: Seq<Seq<char>>,
)
    ensures
        ids_in(a + b, statuses) == ids_in(a, statuses) + ids_in(b, statuses),
        statuses.contains(row.status@) ==> ids_in(seq![row], statuses) == seq![row.id@],
        !statuses.contains(row.status@) ==> ids_in(seq![row], statuses) == Seq::<
            Seq<char>,
        >::empty(),
    decreases b.len(),
{
    assert(seq![row].drop_last() =~= Seq::<StatusRow>::empty());
    assert(ids_in(seq![row].drop_last(), statuses) =~= Seq::<Seq<char>>::empty());
    assert(Seq::<Seq<char>>::empty().push(row.id@) =~= seq![row.id@]);
    if b.len() == 0 {
        assert(a + b =~= a);
        assert(ids_in(a, statuses) + ids_in(b, statuses) =~= ids_in(a, statuses));
    } else {
        rows_are_found_one_by_one(a, b.drop_last(), row, statuses);
        assert((a + b).drop_last() =~= a + b.drop_last());
        assert(ids_in(a + b, statuses) =~= ids_in(a, statuses) + ids_in(b, statuses));
    }
}

/// Transfers are picked up one by one, in order: each that is not done once, as
/// a task with its own id, handle, path, size and key and no failures yet.
pub proof fn transfers_are_picked_up_one_by_one(
    a: Seq<TransferRecord>,
    b: Seq<TransferRecord>,
    rec: TransferRecord,
)
    ensures
        tasks_of(a + b) == tasks_of(a) + tasks_of(b),
        rec.status@ == "done"@ ==> tasks_of(seq![rec]).len() == 0,
        rec.status@ != "done"@ ==> {
            let list = tasks_of(seq![rec]);
            &&& list.len() == 1
            &&& list[0].transfer_id == rec.transfer_id@
            &&& list[0].handle == rec.handle@
            &&& list[0].rel_path == rec.rel_path@
            &&& list[0].size == rec.size
            &&& list[0].attempt == 0
            &&& list[0].file_key is Some <==> rec.file_key is Some
            &&& rec.file_key matches Some(k) ==> list[0].file_key == Some(k@)
        },
    decreases b.len(),
{
    assert(seq![rec].drop_last() =~= Seq::<TransferRecord>::empty());
    assert(tasks_of(seq![rec].drop_last()) =~= Seq::<TaskView>::empty());
    if b.len() == 0 {
        assert(a + b =~= a);
        assert(tasks_of(a) + tasks_of(b) =~= tasks_of(a));
    } else {
        transfers_are_picked_up_one_by_one(a, b.drop_last(), rec);
        assert((a + b).drop_last() =~= a + b.drop_last());
        assert(tasks_of(a + b) =~= tasks_of(a) + tasks_of(b));
    }
}

/// A run ends paused if it was cancelled; else done if every transfer is done,
/// and in error if one is not, be it the first or the last.
pub proof fn one_open_transfer_keeps_a_job_from_being_done(rows: Seq<StatusRow>, i: int)
    requires
        0 <= i < rows.len(),
    ensures
        status_after(true, rows) == "paused"@,
        rows[i].status@ != "done"@ ==> status_after(false, rows) == "error"@,
        (forall|j: int| 0 <= j < rows.len() ==> (#[trigger] rows[j]).status@ == "done"@)
            ==> status_after(false, rows) == "done"@,
{
}

/// The statuses that matter: a transfer that was active is queued again, a retry
/// takes failed ones too, and at startup downloading and pending jobs go on.
pub proof fn statuses_mean_what_they_say(s: Seq<char>)
    ensures
        interrupted_statuses().contains(s) <==> s == "active"@,
        failed_statuses().contains(s) <==> s == "error"@ || s == "active"@,
        unfinished_statuses().contains(s) <==> s == "downloading"@ || s == "pending"@,
{
    assert(interrupted_statuses()[0] == "active"@);
    assert(failed_statuses()[0] == "error"@ && failed_statuses()[1] == "active"@);
    assert(unfinished_statuses()[0] == "downloading"@ && unfinished_statuses()[1] == "pending"@);
}

} // verus!
