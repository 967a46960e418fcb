//! When and how patiently a failed download attempt is repeated.

use crate::error::Error;
use vstd::prelude::*;

verus! {

/// How to react to a failed download attempt.
#[derive(Debug, Clone, Copy, PartialEq, Eq, Structural)]
pub enum RetryPolicy {
    /// Long backoff: Real-Debrid cold-cache (`unavailable_file`, code 24) can
    /// take a while to warm for large files.
    Patient,
    /// Short backoff: dropped connections, rate limits, truncated reads.
    Normal,
    /// Permanent: surface to the user immediately.
    Fatal,
}

/// How often a file is tried in all.
pub open spec fn attempts_allowed(p: RetryPolicy) -> u32 {
    match p {
        RetryPolicy::Patient => 8,
        RetryPolicy::Normal => 5,
        RetryPolicy::Fatal => 1,
    }
}

/// Two to the power of `n`.
pub open spec fn doubled(n: nat) -> nat
    decreases n,
{
    if n == 0 {
        1
    } else {
        2 * doubled((n - 1) as nat)
    }
}

/// The seconds to wait before the attempt after `attempt` failures: for the
/// patient policy 5, 15, 30 and then 60; for the normal one twice as long each
/// time, but at most 30.
pub open spec fn backoff_secs(p: RetryPolicy, attempt: u32) -> int {
    match p {
        RetryPolicy::Patient => if attempt == 1 {
            5
        } else if attempt == 2 {
            15
        } else if attempt == 3 {
            30
        } else {
            60
        },
        RetryPolicy::Normal => if attempt >= 5 {
            30
        } else {
            doubled(attempt as nat) as int
        },
        RetryPolicy::Fatal => 0,
    }
}

/// The policy for an error.
pub open spec fn policy_for(e: Error) -> RetryPolicy {
    match e {
        Error::RealDebrid { status, code, .. } => if code == Some(24i64) {
            RetryPolicy::Patient
        } else if status == 429 || 500 <= status <= 599 {
            RetryPolicy::Normal
        } else {
            RetryPolicy::Fatal
        },
        Error::Http(_) => RetryPolicy::Normal,
        Error::Incomplete { .. } => RetryPolicy::Normal,
        Error::Db(_) => RetryPolicy::Normal,
        _ => RetryPolicy::Fatal,
    }
}

impl RetryPolicy {
    /// How often a file is tried in all before it is given up.
    pub fn max_attempts(self) -> (r: u32)
        ensures
            r == attempts_allowed(self),
            self is Patient ==> r == 8,
            self is Normal ==> r == 5,
            self is Fatal ==> r == 1,
    {
        match self {
            RetryPolicy::Patient => 8,
            RetryPolicy::Normal => 5,
            RetryPolicy::Fatal => 1,
        }
    }

    /// The seconds to wait before the next attempt, after `attempt` failures.
    pub fn backoff(self, attempt: u32) -> (r: u64)
        ensures
            r == backoff_secs(self, attempt),
            self is Patient ==> r == if attempt == 1 {
                5int
            } else if attempt == 2 {
                15
            } else if attempt == 3 {
                30
            } else {
                60
            },
            self is Normal && attempt < 5 ==> r == 1u64 << attempt as u64,
            self is Normal && attempt >= 5 ==> r == 30,
            self is Fatal ==> r == 0,
    {
        proof {
            assert(1u64 << 0u64 == 1) by (bit_vector);
            assert(1u64 << 1u64 == 2) by (bit_vector);
            assert(1u64 << 2u64 == 4) by (bit_vector);
            assert(1u64 << 3u64 == 8) by (bit_vector);
            assert(1u64 << 4u64 == 16) by (bit_vector);
        }
        match self {
            RetryPolicy::Patient => match attempt {
                1 => 5,
                2 => 15,
                3 => 30,
                _ => 60,
            },
            RetryPolicy::Normal => {
                proof {
                    reveal_with_fuel(doubled, 6);
                }
                match attempt {
                    0 => 1,
                    1 => 2,
                    2 => 4,
                    3 => 8,
                    4 => 16,
                    _ => 30,
                }
            },
            RetryPolicy::Fatal => 0,
        }
    }
}

/// Decides whether (and how patiently) a failed attempt should be retried.
pub fn classify(e: &Error) -> (r: RetryPolicy)
    ensures
        r == policy_for(*e),
{
    match e {
        Error::RealDebrid { status, code, .. } => {
            let cold = match code {
                Some(c) => *c == 24,
                None => false,
            };
            if cold {
                RetryPolicy::Patient  // unavailable_file: cold cache
            } else if *status == 429 || (500 <= *status && *status <= 599) {
                RetryPolicy::Normal  // rate limit or server error
            } else {
                RetryPolicy::Fatal  // unsupported, removed, auth, etc.
            }
        },
        // Network, timeout and stream interruptions: resume and retry.
        Error::Http(_) => RetryPolicy::Normal,
        // Truncated or short transfer: resume the rest.
        Error::Incomplete { .. } => RetryPolicy::Normal,
        // Database contention is transient, not a reason to declare the file
        // dead.
        Error::Db(_) => RetryPolicy::Normal,
        // Disk errors, bad links, etc. need user attention.
        _ => RetryPolicy::Fatal,
    }
}

/// Waiting times never shrink from one failure to the next, and none exceeds
/// a minute.
pub proof fn waits_grow_and_stay_bounded(p: RetryPolicy, attempt: u32)
    requires
        1 <= attempt < u32::MAX,
    ensures
        0 <= backoff_secs(p, attempt) <= backoff_secs(p, (attempt + 1) as u32) <= 60,
{
    reveal_with_fuel(doubled, 6);
    assert(doubled(1) == 2 && doubled(2) == 4 && doubled(3) == 8 && doubled(4) == 16);
}

/// Which errors are tried again, and how patiently: a file that Real-Debrid has
/// not cached yet patiently, whatever the status; a rate limit, a server error,
/// a network error, a short file and a busy database normally; all others not
/// at all.
pub proof fn every_error_has_its_policy(e: Error)
    ensures
        e matches Error::RealDebrid { status, code, .. } ==> {
            &&& policy_for(e) is Patient <==> code == Some(24i64)
            &&& policy_for(e) is Normal <==> code != Some(24i64) && (status == 429 || 500 <= status
                <= 599)
        },
        e is Http || e is Incomplete || e is Db ==> policy_for(e) is Normal,
        e is Migrate || e is Io || e is Aria2 || e is Json || e is Cancelled || e is InvalidLink
            || e is Other ==> policy_for(e) is Fatal,
{
}

/// What an error says plays no part in how it is treated: only its sort, and of
/// Real-Debrid's errors the status and the code.
pub proof fn messages_play_no_part(status: u16, code: Option<i64>, a: String, b: String)
    ensures
        policy_for(Error::RealDebrid { status, code, message: a }) == policy_for(
            Error::RealDebrid { status, code, message: b },
        ),
        policy_for(Error::Http(a)) == policy_for(Error::Http(b)),
        policy_for(Error::Db(a)) == policy_for(Error::Db(b)),
        policy_for(Error::Io(a)) == policy_for(Error::Io(b)),
        policy_for(Error::Other(a)) == policy_for(Error::Other(b)),
{
}

/// The waits: 5, 15, 30 and then 60 seconds for a cold cache; twice as long each
/// time, but at most 30, for other transient failures.
pub proof fn waits_are_as_promised(attempt: u32)
    ensures
        backoff_secs(RetryPolicy::Patient, 1) == 5,
        backoff_secs(RetryPolicy::Patient, 2) == 15,
        backoff_secs(RetryPolicy::Patient, 3) == 30,
        attempt == 0 || attempt > 3 ==> backoff_secs(RetryPolicy::Patient, attempt) == 60,
        backoff_secs(RetryPolicy::Normal, 0) == 1,
        backoff_secs(RetryPolicy::Normal, 1) == 2,
        1 <= attempt < 4 ==> backoff_secs(RetryPolicy::Normal, (attempt + 1) as u32) == 2
            * backoff_secs(RetryPolicy::Normal, attempt),
        attempt >= 5 ==> backoff_secs(RetryPolicy::Normal, attempt) == 30,
        backoff_secs(RetryPolicy::Fatal, attempt) == 0,
        attempts_allowed(RetryPolicy::Patient) == 8,
        attempts_allowed(RetryPolicy::Normal) == 5,
        attempts_allowed(RetryPolicy::Fatal) == 1,
{
    reveal_with_fuel(doubled, 6);
}

} // verus!
