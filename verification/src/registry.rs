//! The jobs that are running.

use vstd::hash_map::StringHashMap;
use vstd::prelude::*;

verus! {

/// The running jobs, each with the token that cancels it.
#[verifier::reject_recursive_types(T)]
pub struct RunningJobs<T> {
    jobs: StringHashMap<T>,
}

impl<T> View for RunningJobs<T> {
    type V = Map<Seq<char>, T>;

    closed spec fn view(&self) -> Map<Seq<char>, T> {
        self.jobs@
    }
}

impl<T> RunningJobs<T> {
    /// At first no job is running.
    pub fn new() -> (r: Self)
        ensures
            r@ == Map::<Seq<char>, T>::empty(),
    {
        RunningJobs { jobs: StringHashMap::new() }
    }

    /// Whether a job is running.
    pub fn contains(&self, job_id: &str) -> (r: bool)
        ensures
            r == self@.contains_key(job_id@),
    {
        self.jobs.contains_key(job_id)
    }

    /// The token that cancels a running job.
    pub fn token(&self, job_id: &str) -> (r: Option<&T>)
        ensures
            match r {
                Some(t) => self@.contains_key(job_id@) && *t == self@[job_id@],
                None => !self@.contains_key(job_id@),
            },
    {
        self.jobs.get(job_id)
    }

    /// Registers a job that is about to run. Refuses (returns `false`) if the
    /// job is already running: two runs at once would race their workers over
    /// the same files on disk.
    pub fn start(&mut self, job_id: &str, token: T) -> (started: bool)
        ensures
            started <==> !old(self)@.contains_key(job_id@),
            final(self)@ == if started {
                old(self)@.insert(job_id@, token)
            } else {
                old(self)@
            },
    {
        if self.jobs.contains_key(job_id) {
            return false;
        }
        self.jobs.insert(job_id.to_owned(), token);
        true
    }

    /// Takes a job off the list when its run has ended.
    pub fn finish(&mut self, job_id: &str)
        ensures
            final(self)@ == old(self)@.remove(job_id@),
    {
        self.jobs.remove(job_id);
    }
}

// ---------------------------------------------------------------------------
// Laws
// ---------------------------------------------------------------------------

/// What happens to the list.
pub ghost enum RegistryMove {
    Start { job_id: Seq<char> },
    Finish { job_id: Seq<char> },
}

/// The ids on the list, and how many runs each job has going.
pub ghost struct RunCount {
    pub listed: Set<Seq<char>>,
    pub runs: spec_fn(Seq<char>) -> int,
}

/// The list and the runs after a move: a run begins only where the list
/// accepts it.
pub open spec fn after_move(s: RunCount, m: RegistryMove) -> RunCount {
    match m {
        RegistryMove::Start { job_id } => if s.listed.contains(job_id) {
            s
        } else {
            RunCount {
                listed: s.listed.insert(job_id),
                runs: |j: Seq<char>|
                    if j == job_id {
                        (s.runs)(j) + 1
                    } else {
                        (s.runs)(j)
                    },
            }
        },
        RegistryMove::Finish { job_id } => RunCount {
            listed: s.listed.remove(job_id),
            runs: |j: Seq<char>|
                if j == job_id {
                    (s.runs)(j) - 1
                } else {
                    (s.runs)(j)
                },
        },
    }
}

/// The list and the runs after some moves, from the start.
pub open spec fn after_all(moves: Seq<RegistryMove>) -> RunCount
    decreases moves.len(),
{
    if moves.len() == 0 {
        RunCount { listed: Set::empty(), runs: |j: Seq<char>| 0int }
    } else {
        after_move(after_all(moves.drop_last()), moves.last())
    }
}

/// Whether only runs that are going end.
pub open spec fn only_runs_end(moves: Seq<RegistryMove>) -> bool {
    forall|i: int|
        0 <= i < moves.len() ==> (#[trigger] moves[i] matches RegistryMove::Finish { job_id }
            ==> (after_all(moves.take(i)).runs)(job_id) > 0)
}

/// A job never runs twice at once: whatever is started and ended, in whatever
/// order, a job on the list has one run going and any other has none.
pub proof fn a_job_runs_once_at_a_time(moves: Seq<RegistryMove>, job_id: Seq<char>)
    requires
        only_runs_end(moves),
    ensures
        (after_all(moves).runs)(job_id) == if after_all(moves).listed.contains(job_id) {
            1int
        } else {
            0int
        },
    decreases moves.len(),
{
    if moves.len() > 0 {
        let front = moves.drop_last();
        assert(only_runs_end(front)) by {
            assert forall|i: int| 0 <= i < front.len() implies (
            #[trigger] front[i] matches RegistryMove::Finish { job_id } ==> (after_all(
                front.take(i),
            ).runs)(job_id) > 0) by {
                assert(front.take(i) =~= moves.take(i));
                assert(front[i] == moves[i]);
            }
        }
        a_job_runs_once_at_a_time(front, job_id);
        let last = moves.len() - 1;
        assert(moves.take(last) =~= front);
        assert(moves[last] matches RegistryMove::Finish { job_id } ==> (after_all(
            moves.take(last),
        ).runs)(job_id) > 0);
    }
}

} // verus!
