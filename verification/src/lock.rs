//! How the lock on a PID file is waited for.

use vstd::prelude::*;

use crate::context::{Context, Failure};

verus! {

/// The time between two attempts to lock a file, in milliseconds.
pub const RETRY_MILLIS: u64 = 100;

/// What to do after an attempt to lock a file.
#[derive(Debug, Clone, Copy, PartialEq, Eq, Structural)]
pub enum LockStep {
    /// Nothing: the file is locked.
    Locked,
    /// Try again after the given number of milliseconds.
    Retry(u64),
}

/// What an attempt to lock a file leads to. The attempt succeeded, failed
/// because the file is locked by somebody else, or failed for another reason.
pub open spec fn lock_next<E>(attempt: Result<bool, E>) -> Result<LockStep, Failure<E>> {
    match attempt {
        Ok(true) => Ok(LockStep::Locked),
        Ok(false) => Ok(LockStep::Retry(RETRY_MILLIS)),
        Err(error) => Err(Failure { context: Context::LockFile, error }),
    }
}

/// How waiting for a lock ends: with the lock or with a failure, after the
/// given time asleep. There is no end where all attempts find the file locked.
pub open spec fn lock_end<E>(attempts: Seq<Result<bool, E>>) -> Option<
    (Result<(), Failure<E>>, nat),
>
    decreases attempts.len(),
{
    if attempts.len() == 0 {
        None
    } else {
        match lock_next(attempts[0]) {
            Ok(LockStep::Locked) => Some((Ok(()), 0)),
            Ok(LockStep::Retry(millis)) => match lock_end(attempts.skip(1)) {
                Some((end, slept)) => Some((end, slept + millis as nat)),
                None => None,
            },
            Err(failure) => Some((Err(failure), 0)),
        }
    }
}

/// Decide what to do after an attempt to lock a file.
pub fn lock_step<E>(attempt: Result<bool, E>) -> (r: Result<LockStep, Failure<E>>)
    ensures
        r == lock_next(attempt),
{
    match attempt {
        Ok(locked) => if locked {
            Ok(LockStep::Locked)
        } else {
            Ok(LockStep::Retry(RETRY_MILLIS))
        },
        Err(error) => Err(Failure { context: Context::LockFile, error }),
    }
}

/// Waiting for a lock goes on just as long as the file is found locked: it ends
/// with the first other attempt, with the lock if that attempt got it and with
/// its error if it failed, after one pause for each attempt before it.
pub proof fn lock_is_waited_for<E>(attempts: Seq<Result<bool, E>>, n: int)
    requires
        0 <= n < attempts.len(),
        forall|i: int| 0 <= i < n ==> #[trigger] attempts[i] == Ok::<bool, E>(false),
        attempts[n] != Ok::<bool, E>(false),
    ensures
        lock_end(attempts) == Some(
            (
                match attempts[n] {
                    Ok(_) => Ok(()),
                    Err(error) => Err(Failure { context: Context::LockFile, error }),
                },
                (n * RETRY_MILLIS) as nat,
            ),
        ),
    decreases n,
{
    if n > 0 {
        let rest = attempts.skip(1);
        assert forall|i: int| 0 <= i < n - 1 implies #[trigger] rest[i] == Ok::<bool, E>(
            false,
        ) by {
            assert(rest[i] == attempts[i + 1]);
        }
        lock_is_waited_for(rest, n - 1);
        assert(attempts[0] == Ok::<bool, E>(false));
    } else {
        match attempts[0] {
            Ok(locked) => {
                assert(locked);
            },
            Err(_) => {},
        }
    }
}

/// A lock that was got is kept, one that somebody else holds is tried for again
/// after a tenth of a second, and any other failure ends the attempts.
pub proof fn lock_is_tried_for<E>(error: E)
    ensures
        lock_next::<E>(Ok(true)) == Ok::<LockStep, Failure<E>>(LockStep::Locked),
        lock_next::<E>(Ok(false)) == Ok::<LockStep, Failure<E>>(LockStep::Retry(100)),
        lock_next(Err(error)) == Err::<LockStep, Failure<E>>(
            Failure { context: Context::LockFile, error },
        ),
{
}

} // verus!
