use pki_client::errors::{ConnectError, RetryError};
use pki_client::reconnect::{AttemptOutcome, RetryPolicy, run_schedule};

fn io_failure() -> AttemptOutcome {
    AttemptOutcome::Failure(ConnectError::IOError(std::io::Error::new(
        std::io::ErrorKind::ConnectionRefused,
        "connection refused",
    )))
}

fn handshake_failure() -> AttemptOutcome {
    AttemptOutcome::Failure(ConnectError::HandshakeError("peer key mismatch".to_string()))
}

#[test]
fn schedule_immediate_success() {
    let policy = RetryPolicy::standard();
    let outcomes = vec![
        AttemptOutcome::Success,
        io_failure(),
        io_failure(),
        io_failure(),
        io_failure(),
    ];
    let (verdict, delays) = run_schedule(&policy, outcomes);
    assert!(matches!(verdict, Ok(1)));
    assert!(delays.is_empty());
}

#[test]
fn schedule_eventual_success() {
    // Two transient failures, then success on the third attempt: two
    // backoff delays, doubling from five seconds.
    let policy = RetryPolicy::standard();
    let outcomes = vec![
        io_failure(),
        io_failure(),
        AttemptOutcome::Success,
        io_failure(),
        io_failure(),
    ];
    let (verdict, delays) = run_schedule(&policy, outcomes);
    assert!(matches!(verdict, Ok(3)));
    assert_eq!(delays, vec![5, 10]);
}

#[test]
fn schedule_handshake_failure_is_terminal() {
    // A protocol mismatch on the second attempt ends the run at once,
    // with plenty of budget left.
    let policy = RetryPolicy::standard();
    let outcomes = vec![
        io_failure(),
        handshake_failure(),
        AttemptOutcome::Success,
        AttemptOutcome::Success,
        AttemptOutcome::Success,
    ];
    let (verdict, delays) = run_schedule(&policy, outcomes);
    match verdict {
        Err(RetryError::Fatal(ConnectError::HandshakeError(msg))) => {
            assert_eq!(msg, "peer key mismatch");
        }
        other => panic!("expected a fatal handshake failure, got {:?}", other.is_ok()),
    }
    assert_eq!(delays, vec![5]);
}

#[test]
fn schedule_budget_exhausted() {
    // Five transient failures against a budget of five: the run gives up
    // after exactly five attempts, having slept 5 + 10 + 20 + 40 = 75
    // accumulated seconds, and the terminal error is I/O-class.
    let policy = RetryPolicy::standard();
    let outcomes = vec![
        io_failure(),
        io_failure(),
        io_failure(),
        io_failure(),
        io_failure(),
    ];
    let (verdict, delays) = run_schedule(&policy, outcomes);
    match verdict {
        Err(RetryError::GaveUp { attempts, last }) => {
            assert_eq!(attempts, 5);
            assert!(matches!(last, ConnectError::IOError(_)));
        }
        _ => panic!("expected the budget to run out"),
    }
    assert_eq!(delays, vec![5, 10, 20, 40]);
    let total: u64 = delays.iter().sum();
    assert!(total >= 75);
}

#[test]
fn schedule_custom_policy() {
    let policy = RetryPolicy::new(7, 2);
    let outcomes = vec![io_failure(), io_failure()];
    let (verdict, delays) = run_schedule(&policy, outcomes);
    match verdict {
        Err(RetryError::GaveUp { attempts, last }) => {
            assert_eq!(attempts, 2);
            assert!(matches!(last, ConnectError::IOError(_)));
        }
        _ => panic!("expected the budget to run out"),
    }
    assert_eq!(delays, vec![7]);
}
