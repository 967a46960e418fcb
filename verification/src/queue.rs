//! The per-job download queue.
//!
//! A fixed pool of workers takes tasks from a shared queue. A file that has to
//! wait (backoff after a transient failure) is *not* held by a worker: it is
//! queued again by a timer, so the worker serves another file immediately. The
//! queue is closed once no task remains, which ends the workers.

use vstd::prelude::*;

verus! {

/// How many tasks of a job have not been settled.
#[derive(Debug, PartialEq, Eq)]
pub struct Remaining {
    count: usize,
}

/// Whether settling one of so many tasks settles the last one.
pub open spec fn settles_last(remaining: nat) -> bool {
    remaining == 1
}

impl View for Remaining {
    type V = nat;

    closed spec fn view(&self) -> nat {
        self.count as nat
    }
}

impl Remaining {
    /// All tasks of a job remain at first.
    pub fn new(tasks: usize) -> (r: Self)
        ensures
            r@ == tasks,
    {
        Remaining { count: tasks }
    }

    /// How many tasks remain.
    pub fn count(&self) -> (r: usize)
        ensures
            r == self@,
    {
        self.count
    }

    /// Records one settled task. Returns whether the queue is to be closed
    /// because none remains.
    pub fn terminal(&mut self) -> (close: bool)
        requires
            old(self)@ > 0,
        ensures
            final(self)@ == old(self)@ - 1,
            close == settles_last(old(self)@),
            close <==> old(self)@ == 1,
            close <==> final(self)@ == 0,
    {
        let close = self.count == 1;
        self.count = self.count - 1;
        close
    }
}

// ---------------------------------------------------------------------------
// The queue as a whole
// ---------------------------------------------------------------------------

/// Where the tasks of a job are.
pub ghost struct QueueState {
    /// How many workers there are.
    pub workers: nat,
    /// In the queue.
    pub queued: nat,
    /// With a worker.
    pub running: nat,
    /// Waiting for a timer.
    pub waiting: nat,
    /// Left for resume by a worker because the job was paused.
    pub paused: nat,
    /// Sent by a timer when the queue was closed already.
    pub lost: nat,
    /// Not settled, by the count.
    pub remaining: nat,
    /// Whether the queue is closed.
    pub closed: bool,
}

/// What can happen to a task.
pub ghost enum QueueMove {
    /// A free worker takes it.
    Take,
    /// A worker settles it.
    Settle,
    /// A worker defers it.
    Defer,
    /// A timer queues it again.
    Requeue,
    /// A worker leaves it because the job is paused.
    Leave,
}

/// A queue with all of a job's tasks, and its workers.
pub open spec fn started(tasks: nat, workers: nat) -> QueueState {
    QueueState {
        workers,
        queued: tasks,
        running: 0,
        waiting: 0,
        paused: 0,
        lost: 0,
        remaining: tasks,
        closed: false,
    }
}

/// Whether there is a task for a move, and a free worker to take one.
pub open spec fn possible(s: QueueState, m: QueueMove) -> bool {
    match m {
        QueueMove::Take => s.queued > 0 && s.running < s.workers,
        QueueMove::Requeue => s.waiting > 0,
        _ => s.running > 0,
    }
}

/// The queue after a move.
pub open spec fn moved(s: QueueState, m: QueueMove) -> QueueState {
    match m {
        QueueMove::Take => QueueState {
            queued: (s.queued - 1) as nat,
            running: s.running + 1,
            ..s
        },
        QueueMove::Settle => QueueState {
            running: (s.running - 1) as nat,
            remaining: (s.remaining - 1) as nat,
            closed: s.closed || settles_last(s.remaining),
            ..s
        },
        QueueMove::Defer => QueueState {
            running: (s.running - 1) as nat,
            waiting: s.waiting + 1,
            ..s
        },
        QueueMove::Requeue => if s.closed {
            QueueState { waiting: (s.waiting - 1) as nat, lost: s.lost + 1, ..s }
        } else {
            QueueState { waiting: (s.waiting - 1) as nat, queued: s.queued + 1, ..s }
        },
        QueueMove::Leave => QueueState {
            running: (s.running - 1) as nat,
            paused: s.paused + 1,
            ..s
        },
    }
}

/// The queue after a run of moves.
pub open spec fn after_moves(tasks: nat, workers: nat, moves: Seq<QueueMove>) -> QueueState
    decreases moves.len(),
{
    if moves.len() == 0 {
        started(tasks, workers)
    } else {
        moved(after_moves(tasks, workers, moves.drop_last()), moves.last())
    }
}

/// Whether a run of moves is possible.
pub open spec fn all_possible(tasks: nat, workers: nat, moves: Seq<QueueMove>) -> bool {
    forall|i: int|
        0 <= i < moves.len() ==> possible(
            after_moves(tasks, workers, moves.take(i)),
            #[trigger] moves[i],
        )
}

/// Whatever happens, in whatever order: the count is right, no deferred task
/// is ever lost, and the queue of a job with tasks is closed exactly when all
/// of them are settled. So the workers end when the work is done, and not
/// before.
pub proof fn queue_closes_when_all_is_settled(
    tasks: nat,
    workers: nat,
    moves: Seq<QueueMove>,
)
    requires
        tasks > 0,
        all_possible(tasks, workers, moves),
    ensures
        ({
            let s = after_moves(tasks, workers, moves);
            &&& s.remaining == s.queued + s.running + s.waiting + s.paused
            &&& s.lost == 0
            &&& s.closed <==> s.queued + s.running + s.waiting + s.paused == 0
        }),
    decreases moves.len(),
{
    if moves.len() > 0 {
        let front = moves.drop_last();
        assert(all_possible(tasks, workers, front)) by {
            assert forall|i: int| 0 <= i < front.len() implies possible(
                after_moves(tasks, workers, front.take(i)),
                #[trigger] front[i],
            ) by {
                assert(front.take(i) =~= moves.take(i));
                assert(possible(after_moves(tasks, workers, moves.take(i)), moves[i]));
            }
        }
        queue_closes_when_all_is_settled(tasks, workers, front);
        let last = moves.len() - 1;
        assert(moves.take(last) =~= front);
        assert(possible(after_moves(tasks, workers, moves.take(last)), moves[last]));
    }
}

/// No more files are worked on at once than there are workers, whatever
/// happens. Tasks that wait for a timer do not count.
pub proof fn no_more_files_than_workers(tasks: nat, workers: nat, moves: Seq<QueueMove>)
    requires
        all_possible(tasks, workers, moves),
    ensures
        after_moves(tasks, workers, moves).running <= workers,
        after_moves(tasks, workers, moves).workers == workers,
    decreases moves.len(),
{
    if moves.len() > 0 {
        let front = moves.drop_last();
        assert(all_possible(tasks, workers, front)) by {
            assert forall|i: int| 0 <= i < front.len() implies possible(
                after_moves(tasks, workers, front.take(i)),
                #[trigger] front[i],
            ) by {
                assert(front.take(i) =~= moves.take(i));
                assert(possible(after_moves(tasks, workers, moves.take(i)), moves[i]));
            }
        }
        no_more_files_than_workers(tasks, workers, front);
        let last = moves.len() - 1;
        assert(moves.take(last) =~= front);
        assert(possible(after_moves(tasks, workers, moves.take(last)), moves[last]));
    }
}

/// A file that has to wait holds no worker: once it is deferred, a queued file
/// can be taken, even if all workers were busy.
pub proof fn waiting_files_hold_no_worker(s: QueueState)
    requires
        possible(s, QueueMove::Defer),
        s.running <= s.workers,
        s.queued > 0,
    ensures
        possible(moved(s, QueueMove::Defer), QueueMove::Take),
{
}

} // verus!
