use tls_scanner::retry::{Retry, RetryError, Step, BACKOFF_STEP, SOCKET_TIMEOUT};

fn transient(why: &str) -> RetryError {
    RetryError::Transient(why.to_string())
}

#[test]
fn timing_is_fixed() {
    assert_eq!(SOCKET_TIMEOUT, 3000);
    assert_eq!(BACKOFF_STEP, 200);
}

#[test]
fn waits_grow_until_the_attempts_are_used_up() {
    let (mut retry, step) = Retry::new(3);
    assert!(matches!(step, Step::Attempt));
    assert!(matches!(retry.failed(transient("one")), Step::AttemptAfter(200)));
    assert!(matches!(retry.failed(transient("two")), Step::AttemptAfter(400)));
    match retry.failed(transient("three")) {
        Step::Fail(why) => assert_eq!(why, "three"),
        _ => panic!("no end"),
    }
}

#[test]
fn definitive_failures_end_at_once() {
    let (mut retry, _) = Retry::new(3);
    match retry.failed(RetryError::Definitive("no".to_string())) {
        Step::Fail(why) => assert_eq!(why, "no"),
        _ => panic!("no end"),
    }
}

#[test]
fn no_attempts_fail() {
    let (_, step) = Retry::new(0);
    match step {
        Step::Fail(why) => assert_eq!(why, "operation failed after 0 attempts"),
        _ => panic!("an attempt"),
    }
}

#[test]
fn one_attempt_never_waits() {
    let (mut retry, step) = Retry::new(1);
    assert!(matches!(step, Step::Attempt));
    assert!(matches!(retry.failed(transient("x")), Step::Fail(_)));
    assert!(matches!(retry.failed(transient("x")), Step::Fail(_)));
}

#[test]
fn io_failures_may_pass() {
    match RetryError::from_io("timed out".to_string()) {
        RetryError::Transient(why) => assert_eq!(why, "timed out"),
        RetryError::Definitive(_) => panic!("definitive"),
    }
}
