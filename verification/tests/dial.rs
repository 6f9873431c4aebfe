use talpid_ipc::dial::busy;
use talpid_ipc::dial::unresponsive;
use talpid_ipc::dial::DialStep;
use talpid_ipc::dial::OpenAttempt;
use talpid_ipc::dial::ERROR_PIPE_BUSY;
use talpid_ipc::dial::PIPE_AVAILABILITY_TIMEOUT_NANOS;
use talpid_ipc::dial::RETRY_INTERVAL_MILLIS;
use talpid_ipc::Connection;
use talpid_ipc::IpcEndpoint;

type Step = DialStep<Connection<(), u32, ()>, &'static str>;

const FILE_NOT_FOUND: i32 = 2;
const ACCESS_DENIED: i32 = 5;

fn step(attempt: OpenAttempt<u32, &'static str>) -> Step {
    IpcEndpoint::connect::<(), u32, (), &'static str>(attempt)
}

fn busy_failure(elapsed_nanos: u128) -> OpenAttempt<u32, &'static str> {
    OpenAttempt::Failed { error: "pipe busy", os_code: Some(231), elapsed_nanos }
}

#[test]
fn dial_parameters_are_five_seconds_and_fifty_milliseconds() {
    assert_eq!(ERROR_PIPE_BUSY, 231i32);
    assert_eq!(PIPE_AVAILABILITY_TIMEOUT_NANOS, 5_000_000_000u128);
    assert_eq!(RETRY_INTERVAL_MILLIS, 50u64);
}

#[test]
fn only_code_231_means_busy() {
    assert!(busy(Some(231)));
    assert!(!busy(Some(230)));
    assert!(!busy(Some(232)));
    assert!(!busy(Some(FILE_NOT_FOUND)));
    assert!(!busy(Some(0)));
    assert!(!busy(Some(-231)));
    assert!(!busy(None));
}

#[test]
fn unresponsive_is_busy_for_more_than_five_seconds() {
    assert!(!unresponsive(Some(231), 0));
    assert!(!unresponsive(Some(231), 4_999_999_999));
    assert!(!unresponsive(Some(231), 5_000_000_000));
    assert!(unresponsive(Some(231), 5_000_000_001));
    assert!(unresponsive(Some(231), u128::MAX));
    assert!(!unresponsive(Some(FILE_NOT_FOUND), 5_000_000_001));
    assert!(!unresponsive(None, u128::MAX));
}

#[test]
fn opened_pipe_gives_the_client_connection() {
    assert_eq!(step(OpenAttempt::Opened(42)), DialStep::Finished(Ok(Connection::Client(42))));
}

#[test]
fn missing_pipe_fails_at_once() {
    let attempt = OpenAttempt::Failed {
        error: "not found",
        os_code: Some(FILE_NOT_FOUND),
        elapsed_nanos: 0,
    };
    assert_eq!(step(attempt), DialStep::Finished(Err("not found")));
}

#[test]
fn missing_pipe_fails_at_once_whatever_the_time() {
    for elapsed_nanos in [0u128, 1, 5_000_000_000, 5_000_000_001, u128::MAX] {
        let attempt = OpenAttempt::Failed {
            error: "not found",
            os_code: Some(FILE_NOT_FOUND),
            elapsed_nanos,
        };
        assert_eq!(step(attempt), DialStep::Finished(Err("not found")));
    }
}

#[test]
fn denied_access_fails_at_once() {
    let attempt = OpenAttempt::Failed {
        error: "access denied",
        os_code: Some(ACCESS_DENIED),
        elapsed_nanos: 10,
    };
    assert_eq!(step(attempt), DialStep::Finished(Err("access denied")));
}

#[test]
fn failure_without_a_code_fails_at_once() {
    let attempt = OpenAttempt::Failed { error: "custom", os_code: None, elapsed_nanos: 10 };
    assert_eq!(step(attempt), DialStep::Finished(Err("custom")));
}

#[test]
fn busy_pipe_is_retried_after_fifty_milliseconds() {
    assert_eq!(step(busy_failure(0)), DialStep::RetryAfter(50));
    assert_eq!(step(busy_failure(4_999_999_999)), DialStep::RetryAfter(50));
}

#[test]
fn busy_pipe_is_retried_at_exactly_five_seconds() {
    assert_eq!(step(busy_failure(5_000_000_000)), DialStep::RetryAfter(50));
}

#[test]
fn busy_pipe_past_five_seconds_fails_with_the_busy_error() {
    assert_eq!(step(busy_failure(5_000_000_001)), DialStep::Finished(Err("pipe busy")));
    assert_eq!(step(busy_failure(u128::MAX)), DialStep::Finished(Err("pipe busy")));
}

#[test]
fn dial_succeeds_once_an_instance_frees_up() {
    let mut clock: u128 = 0;
    let mut sleeps: Vec<u64> = Vec::new();
    let free_after: usize = 3;
    let result = loop {
        let attempt = if sleeps.len() < free_after {
            busy_failure(clock)
        } else {
            OpenAttempt::Opened(9)
        };
        match step(attempt) {
            DialStep::Finished(result) => break result,
            DialStep::RetryAfter(millis) => {
                sleeps.push(millis);
                clock += u128::from(millis) * 1_000_000;
            }
        }
    };
    assert_eq!(result, Ok(Connection::Client(9)));
    assert_eq!(sleeps, vec![50u64, 50, 50]);
    assert!(clock < PIPE_AVAILABILITY_TIMEOUT_NANOS);
}

#[test]
fn dial_against_an_occupied_pipe_gives_up_after_five_seconds() {
    let mut clock: u128 = 0;
    let mut attempts: u32 = 0;
    let mut last_retry_at: u128 = 0;
    let result = loop {
        attempts += 1;
        match step(busy_failure(clock)) {
            DialStep::Finished(result) => break result,
            DialStep::RetryAfter(millis) => {
                last_retry_at = clock;
                clock += u128::from(millis) * 1_000_000;
            }
        }
    };
    assert_eq!(result, Err("pipe busy"));
    assert_eq!(attempts, 102);
    assert_eq!(last_retry_at, 5_000_000_000);
    assert_eq!(clock, 5_050_000_000);
}

#[test]
fn dial_that_starts_late_gives_up_at_the_first_attempt() {
    assert_eq!(step(busy_failure(6_000_000_000)), DialStep::Finished(Err("pipe busy")));
}
