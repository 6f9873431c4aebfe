use vstd::prelude::*;
use crate::connection::Connection;
use crate::endpoint::IpcEndpoint;

verus! {

/// The operating system's error code for a pipe all of whose instances are
/// occupied.
pub const ERROR_PIPE_BUSY: i32 = 231;

/// How long a dial keeps retrying a busy pipe, in nanoseconds: five seconds.
pub const PIPE_AVAILABILITY_TIMEOUT_NANOS: u128 = 5_000_000_000;

/// How long a dial sleeps before it tries a busy pipe again, in milliseconds.
pub const RETRY_INTERVAL_MILLIS: u64 = 50;

/// The retry interval in nanoseconds.
pub open spec fn retry_interval_nanos() -> int {
    RETRY_INTERVAL_MILLIS * 1_000_000
}

/// What came of one attempt to open a pipe.
#[derive(Debug, PartialEq, Eq)]
pub enum OpenAttempt<C, E> {
    /// The pipe was opened; this is the client handle.
    Opened(C),
    /// The attempt failed.
    Failed {
        /// The error of the attempt.
        error: E,
        /// The operating system's code for the error, if it has one.
        os_code: Option<i32>,
        /// The time since the first attempt of this dial began, in
        /// nanoseconds, read after this attempt failed.
        elapsed_nanos: u128,
    },
}

/// What a dial does after one attempt.
#[derive(Debug, PartialEq, Eq)]
pub enum DialStep<T, E> {
    /// The dial is over, with this result.
    Finished(Result<T, E>),
    /// Sleep for this many milliseconds, then attempt again.
    RetryAfter(u64),
}

/// The code says that the pipe exists and has no free instance.
pub open spec fn is_busy(os_code: Option<i32>) -> bool {
    os_code == Some(ERROR_PIPE_BUSY)
}

/// The pipe is busy and has been so for longer than the availability timeout.
pub open spec fn is_unresponsive(os_code: Option<i32>, elapsed_nanos: u128) -> bool {
    is_busy(os_code) && elapsed_nanos > PIPE_AVAILABILITY_TIMEOUT_NANOS
}

/// What a dial does after `attempt`: an opened pipe ends it with the client
/// connection; a busy pipe is tried again after the retry interval unless the
/// timeout has passed; every other failure ends it with the attempt's error.
pub open spec fn dial_step<S, C, L, E>(attempt: OpenAttempt<C, E>) -> DialStep<
    Connection<S, C, L>,
    E,
> {
    match attempt {
        OpenAttempt::Opened(client) => DialStep::Finished(Ok(Connection::Client(client))),
        OpenAttempt::Failed { error, os_code, elapsed_nanos } => {
            if is_busy(os_code) && !is_unresponsive(os_code, elapsed_nanos) {
                DialStep::RetryAfter(RETRY_INTERVAL_MILLIS)
            } else {
                DialStep::Finished(Err(error))
            }
        },
    }
}

/// The constant `Win32::Foundation::ERROR_PIPE_BUSY` of windows-sys, of type
/// `u32`. Trusted: that its value is 231.
#[verifier::external_body]
fn pipe_busy_code() -> (code: u32)
    ensures
        code == 231,
{
    windows_sys::Win32::Foundation::ERROR_PIPE_BUSY
}

/// Tells whether an error code is the one of a busy pipe.
pub fn busy(os_code: Option<i32>) -> (b: bool)
    ensures
        b == is_busy(os_code),
{
    let busy_code: i32 = pipe_busy_code() as i32;
    match os_code {
        Some(code) => code == busy_code,
        None => false,
    }
}

/// Tells whether a failed attempt shows a pipe that has been busy for longer
/// than the availability timeout.
pub fn unresponsive(os_code: Option<i32>, elapsed_nanos: u128) -> (b: bool)
    ensures
        b == is_unresponsive(os_code, elapsed_nanos),
{
    busy(os_code) && elapsed_nanos > PIPE_AVAILABILITY_TIMEOUT_NANOS
}

impl IpcEndpoint {
    /// Decides one step of a dial from the outcome of the attempt just made.
    ///
    /// The caller opens the pipe for reading and writing, hands the outcome
    /// in, and does what the step says: return the result, or sleep and
    /// attempt again. Only a busy pipe is retried, and only until the
    /// availability timeout has passed.
    pub fn connect<S, C, L, E>(attempt: OpenAttempt<C, E>) -> (step: DialStep<
        Connection<S, C, L>,
        E,
    >)
        ensures
            step == dial_step::<S, C, L, E>(attempt),
    {
        match attempt {
            // Connected to a matching server.
            OpenAttempt::Opened(client) => DialStep::Finished(Ok(Connection::Client(client))),
            OpenAttempt::Failed { error, os_code, elapsed_nanos } => {
                if unresponsive(os_code, elapsed_nanos) {
                    // There is a server, but it has not served the dial
                    // within the timeout.
                    DialStep::Finished(Err(error))
                } else if busy(os_code) {
                    // There is a server, but it is busy for now.
                    DialStep::RetryAfter(RETRY_INTERVAL_MILLIS)
                } else {
                    // There is most likely no server to connect to.
                    DialStep::Finished(Err(error))
                }
            },
        }
    }
}

/// How far a dial has come after a series of attempts.
pub enum DialRun<T, E> {
    /// Every attempt so far was followed by a sleep: the dial goes on.
    Pending,
    /// The dial ended with `result` at the attempt of number `attempts`,
    /// counted from one; later attempts are never made.
    Ended { attempts: nat, result: Result<T, E> },
}

/// Where a dial stands once the caller has made `attempts`, one after the
/// other, and has followed `dial_step` after each.
pub open spec fn dial_run<S, C, L, E>(attempts: Seq<OpenAttempt<C, E>>) -> DialRun<
    Connection<S, C, L>,
    E,
>
    decreases attempts.len(),
{
    if attempts.len() == 0 {
        DialRun::Pending
    } else {
        match dial_run::<S, C, L, E>(attempts.drop_last()) {
            DialRun::Ended { attempts: n, result } => DialRun::Ended { attempts: n, result },
            DialRun::Pending => match dial_step::<S, C, L, E>(attempts.last()) {
                DialStep::Finished(result) => DialRun::Ended { attempts: attempts.len(), result },
                DialStep::RetryAfter(_) => DialRun::Pending,
            },
        }
    }
}

/// Every attempt failed on a busy pipe.
pub open spec fn all_busy<C, E>(attempts: Seq<OpenAttempt<C, E>>) -> bool {
    forall|i: int|
        0 <= i < attempts.len() ==> (#[trigger] attempts[i]) is Failed && is_busy(
            attempts[i]->os_code,
        )
}

/// None of the attempts before number `end` (counted from zero) failed after
/// the availability timeout.
pub open spec fn within_timeout<C, E>(attempts: Seq<OpenAttempt<C, E>>, end: int) -> bool {
    forall|i: int|
        0 <= i < end && i < attempts.len() ==> (#[trigger] attempts[i])->elapsed_nanos
            <= PIPE_AVAILABILITY_TIMEOUT_NANOS
}

/// A dial that meets anything but a busy pipe fails at once: a failure whose
/// code is not that of a busy pipe ends the dial at the first attempt with
/// the attempt's own error, whatever time has passed, and no sleep is asked
/// for.
pub proof fn lemma_other_failure_fails_at_once<S, C, L, E>(
    error: E,
    os_code: Option<i32>,
    elapsed_nanos: u128,
)
    requires
        !is_busy(os_code),
    ensures
        dial_step::<S, C, L, E>(OpenAttempt::Failed { error, os_code, elapsed_nanos })
            == DialStep::<Connection<S, C, L>, E>::Finished(Err(error)),
        dial_run::<S, C, L, E>(seq![OpenAttempt::Failed { error, os_code, elapsed_nanos }])
            == (DialRun::<Connection<S, C, L>, E>::Ended { attempts: 1, result: Err(error) }),
{
    let attempts = seq![OpenAttempt::<C, E>::Failed { error, os_code, elapsed_nanos }];
    assert(attempts.drop_last().len() == 0);
    assert(dial_run::<S, C, L, E>(attempts.drop_last()) is Pending);
    assert(attempts.last() == OpenAttempt::<C, E>::Failed { error, os_code, elapsed_nanos });
}

/// While the pipe is busy and the timeout has not passed, the dial goes on.
proof fn lemma_pending_while_busy<S, C, L, E>(attempts: Seq<OpenAttempt<C, E>>)
    requires
        all_busy(attempts),
        within_timeout(attempts, attempts.len() as int),
    ensures
        dial_run::<S, C, L, E>(attempts) is Pending,
    decreases attempts.len(),
{
    if attempts.len() > 0 {
        let before = attempts.drop_last();
        assert forall|i: int| 0 <= i < before.len() implies (#[trigger] before[i]) is Failed
            && is_busy(before[i]->os_code) && before[i]->elapsed_nanos
            <= PIPE_AVAILABILITY_TIMEOUT_NANOS by {
            assert(before[i] == attempts[i]);
        }
        lemma_pending_while_busy::<S, C, L, E>(before);
        let last = attempts.last();
        assert(last == attempts[attempts.len() - 1]);
    }
}

/// Attempts that come after the one that ended a dial change nothing.
proof fn lemma_ended_stays_ended<S, C, L, E>(attempts: Seq<OpenAttempt<C, E>>, end: int)
    requires
        0 <= end <= attempts.len(),
        dial_run::<S, C, L, E>(attempts.take(end)) is Ended,
    ensures
        dial_run::<S, C, L, E>(attempts) == dial_run::<S, C, L, E>(attempts.take(end)),
    decreases attempts.len() - end,
{
    if end < attempts.len() {
        assert(attempts.drop_last().take(end) == attempts.take(end));
        lemma_ended_stays_ended::<S, C, L, E>(attempts.drop_last(), end);
    } else {
        assert(attempts.take(end) == attempts);
    }
}

/// A dial that finds the pipe busy retries at the fixed interval and is
/// served as soon as the pipe opens: after any number of busy failures
/// within the timeout, each answered by a sleep of the retry interval, an
/// opened pipe ends the dial with the client connection over that handle.
pub proof fn lemma_busy_then_opened<S, C, L, E>(busy: Seq<OpenAttempt<C, E>>, client: C)
    requires
        all_busy(busy),
        within_timeout(busy, busy.len() as int),
    ensures
        forall|i: int|
            0 <= i < busy.len() ==> dial_step::<S, C, L, E>(#[trigger] busy[i])
                == DialStep::<Connection<S, C, L>, E>::RetryAfter(RETRY_INTERVAL_MILLIS),
        dial_run::<S, C, L, E>(busy.push(OpenAttempt::Opened(client))) == (DialRun::<
            Connection<S, C, L>,
            E,
        >::Ended { attempts: busy.len() + 1, result: Ok(Connection::Client(client)) }),
{
    let attempts = busy.push(OpenAttempt::Opened(client));
    assert(attempts.drop_last() == busy);
    lemma_pending_while_busy::<S, C, L, E>(busy);
    assert(attempts.last() == OpenAttempt::<C, E>::Opened(client));
}

/// A dial against a pipe that stays busy gives up at the first attempt that
/// fails after the timeout, and not before: if attempt number `last`
/// (counted from zero) is the first to fail later than the availability
/// timeout, the dial ends there with the error of that attempt.
pub proof fn lemma_busy_dial_ends_after_timeout<S, C, L, E>(
    attempts: Seq<OpenAttempt<C, E>>,
    last: int,
)
    requires
        all_busy(attempts),
        0 <= last < attempts.len(),
        within_timeout(attempts, last),
        attempts[last]->elapsed_nanos > PIPE_AVAILABILITY_TIMEOUT_NANOS,
    ensures
        dial_run::<S, C, L, E>(attempts) == (DialRun::<Connection<S, C, L>, E>::Ended {
            attempts: (last + 1) as nat,
            result: Err(attempts[last]->error),
        }),
{
    let upto = attempts.take(last + 1);
    let before = upto.drop_last();
    assert(before == attempts.take(last));
    assert forall|i: int| 0 <= i < before.len() implies (#[trigger] before[i]) is Failed
        && is_busy(before[i]->os_code) && before[i]->elapsed_nanos
        <= PIPE_AVAILABILITY_TIMEOUT_NANOS by {
        assert(before[i] == attempts[i]);
    }
    lemma_pending_while_busy::<S, C, L, E>(before);
    assert(upto.last() == attempts[last]);
    lemma_ended_stays_ended::<S, C, L, E>(attempts, last + 1);
}

/// The first attempt at or after `from` that failed later than the timeout,
/// or the number of attempts if there is none.
spec fn first_late<C, E>(attempts: Seq<OpenAttempt<C, E>>, from: int) -> int
    decreases attempts.len() - from,
{
    if from < 0 || from >= attempts.len() {
        attempts.len() as int
    } else if attempts[from]->elapsed_nanos > PIPE_AVAILABILITY_TIMEOUT_NANOS {
        from
    } else {
        first_late(attempts, from + 1)
    }
}

/// `first_late` finds the first late attempt: none before it is late, and it
/// is late itself unless there is none.
proof fn lemma_first_late<C, E>(attempts: Seq<OpenAttempt<C, E>>, from: int)
    requires
        0 <= from <= attempts.len(),
    ensures
        from <= first_late(attempts, from) <= attempts.len(),
        forall|i: int|
            from <= i < first_late(attempts, from) ==> (#[trigger] attempts[i])->elapsed_nanos
                <= PIPE_AVAILABILITY_TIMEOUT_NANOS,
        first_late(attempts, from) < attempts.len() ==> attempts[first_late(
            attempts,
            from,
        )]->elapsed_nanos > PIPE_AVAILABILITY_TIMEOUT_NANOS,
    decreases attempts.len() - from,
{
    if from < attempts.len() && attempts[from]->elapsed_nanos <= PIPE_AVAILABILITY_TIMEOUT_NANOS {
        lemma_first_late(attempts, from + 1);
    }
}

/// The most attempts that a dial against a busy pipe can make: one at the
/// start, one after each retry interval that fits into the timeout, and the
/// one after the timeout that ends it.
pub open spec fn max_busy_attempts() -> nat {
    (PIPE_AVAILABILITY_TIMEOUT_NANOS as int / retry_interval_nanos() + 2) as nat
}

/// A dial against a pipe that is never free fails, neither before the
/// timeout nor never. Let every attempt fail on a busy pipe, and let at
/// least one retry interval pass before each further attempt, so that attempt
/// number `i` (counted from zero) fails no sooner than `i` intervals after
/// the start. Then the dial ends within `max_busy_attempts` attempts, with
/// the error of the attempt that ended it; that attempt failed after the
/// timeout, and every attempt before it within.
pub proof fn lemma_busy_dial_gives_up<S, C, L, E>(attempts: Seq<OpenAttempt<C, E>>)
    requires
        all_busy(attempts),
        forall|i: int|
            0 <= i < attempts.len() ==> (#[trigger] attempts[i])->elapsed_nanos >= i
                * retry_interval_nanos(),
        attempts.len() >= max_busy_attempts(),
    ensures
        max_busy_attempts() == 102,
        dial_run::<S, C, L, E>(attempts) matches DialRun::Ended { attempts: n, result } && {
            &&& 1 <= n <= max_busy_attempts()
            &&& result == Err::<Connection<S, C, L>, E>(attempts[n - 1]->error)
            &&& attempts[n - 1]->elapsed_nanos > PIPE_AVAILABILITY_TIMEOUT_NANOS
            &&& within_timeout(attempts, n - 1)
        },
{
    let last = first_late(attempts, 0);
    lemma_first_late(attempts, 0);
    let bound = max_busy_attempts() - 1;
    assert(retry_interval_nanos() == 50_000_000);
    assert(5_000_000_000int / 50_000_000 == 100);
    assert(bound == 101);
    assert(attempts[bound]->elapsed_nanos > PIPE_AVAILABILITY_TIMEOUT_NANOS);
    assert(last <= bound);
    lemma_busy_dial_ends_after_timeout::<S, C, L, E>(attempts, last);
}

} // verus!
