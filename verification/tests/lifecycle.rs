use std::cell::Cell;
use std::rc::Rc;

use x25519_dalek_ng::{PublicKey, StaticSecret};

use pki_client::client::{AttemptDriver, Client, ConnectPlan, SessionTransport};
use pki_client::errors::{ConnectError, RetryError};
use pki_client::reconnect::RetryPolicy;

struct FakeSession {
    shutdowns: Rc<Cell<u32>>,
}

impl SessionTransport for FakeSession {
    fn close(&mut self) {
        self.shutdowns.set(self.shutdowns.get() + 1);
    }
}

struct FakeDriver {
    script: Vec<Result<FakeSession, ConnectError>>,
    attempts: usize,
    sleeps: Vec<u64>,
    last_plan: Option<(u8, u8, u8, u8, u16, bool, u64)>,
}

impl FakeDriver {
    fn new(script: Vec<Result<FakeSession, ConnectError>>) -> FakeDriver {
        FakeDriver { script, attempts: 0, sleeps: Vec::new(), last_plan: None }
    }
}

impl AttemptDriver<FakeSession> for FakeDriver {
    fn attempt(&mut self, plan: &ConnectPlan) -> Result<FakeSession, ConnectError> {
        self.attempts += 1;
        self.last_plan = Some((
            plan.target.a,
            plan.target.b,
            plan.target.c,
            plan.target.d,
            plan.target.port,
            plan.proxy.is_some(),
            plan.connect_timeout_secs,
        ));
        self.script.remove(0)
    }

    fn sleep(&mut self, delay_secs: u64) {
        self.sleeps.push(delay_secs);
    }
}

fn test_keys() -> (StaticSecret, PublicKey) {
    let secret = StaticSecret::from([7u8; 32]);
    let public = PublicKey::from(&secret);
    (secret, public)
}

fn io_error() -> ConnectError {
    ConnectError::IOError(std::io::Error::new(
        std::io::ErrorKind::ConnectionRefused,
        "connection refused",
    ))
}

#[test]
fn client_pki_client_test() {
    let (secret, public) = test_keys();
    let client: Client<FakeSession> = Client::new(secret, public, "127.0.0.1:9999".to_string());
    assert!(client.session.is_none());
    assert!(client.socks_proxy_addr.is_none());
}

#[test]
fn pki_pki_client_test() {
    let (secret, public) = test_keys();
    let client: Client<FakeSession> = Client::new(secret, public, "192.168.1.1:3000".to_string());
    assert!(client.session.is_none());
    assert_eq!(client.retry_policy.max_attempts, 5);
    assert_eq!(client.retry_policy.initial_delay_secs, 5);
    assert_eq!(client.connect_timeout_secs, 45);
}

#[test]
fn connect_once_establishes_and_close_succeeds() {
    // A working proxy route and a matching peer: connect-once returns an
    // established session; close succeeds once and reports no session after.
    let (secret, public) = test_keys();
    let mut client: Client<FakeSession> =
        Client::new(secret, public, "10.0.0.2:8080".to_string());
    client.set_socks_proxy("127.0.0.1:1080".to_string());
    let shutdowns = Rc::new(Cell::new(0u32));
    let mut driver = FakeDriver::new(vec![Ok(FakeSession { shutdowns: Rc::clone(&shutdowns) })]);
    assert!(client.connect(&mut driver).is_ok());
    assert!(client.session.is_some());
    assert_eq!(driver.attempts, 1);
    assert_eq!(driver.last_plan, Some((10, 0, 0, 2, 8080, true, 45)));
    assert_eq!(client.close(), Ok(()));
    assert_eq!(shutdowns.get(), 1);
    assert!(client.session.is_none());
    assert_eq!(client.close(), Err(()));
}

#[test]
fn close_without_session_is_the_defined_result() {
    let (secret, public) = test_keys();
    let mut client: Client<FakeSession> = Client::new(secret, public, "1.2.3.4:80".to_string());
    assert_eq!(client.close(), Err(()));
    assert_eq!(client.close(), Err(()));
}

#[test]
fn connect_rejects_malformed_target_without_io() {
    // Address-parse failure is synchronous: the driver (the test double
    // standing for the network) is never asked for an attempt.
    let (secret, public) = test_keys();
    let mut client: Client<FakeSession> =
        Client::new(secret, public, "not-an-address".to_string());
    let mut driver = FakeDriver::new(vec![]);
    match client.connect(&mut driver) {
        Err(ConnectError::AddrParseError(bad)) => assert_eq!(bad, "not-an-address"),
        _ => panic!("expected an address-parse failure"),
    }
    assert_eq!(driver.attempts, 0);
    assert!(driver.sleeps.is_empty());
    assert!(client.session.is_none());
}

#[test]
fn retry_connect_rejects_malformed_proxy_without_io() {
    let (secret, public) = test_keys();
    let mut client: Client<FakeSession> = Client::new(secret, public, "1.2.3.4:80".to_string());
    client.set_socks_proxy("nowhere".to_string());
    let mut driver = FakeDriver::new(vec![]);
    match client.retry_connect(&mut driver) {
        Err(RetryError::Fatal(ConnectError::AddrParseError(bad))) => assert_eq!(bad, "nowhere"),
        _ => panic!("expected a fatal address-parse failure"),
    }
    assert_eq!(driver.attempts, 0);
    assert!(driver.sleeps.is_empty());
}

#[test]
fn retry_connect_succeeds_after_transient_failures() {
    // First two attempts fail with I/O errors, the third succeeds: the
    // session is installed and exactly two doubling delays were slept.
    let (secret, public) = test_keys();
    let mut client: Client<FakeSession> = Client::new(secret, public, "1.2.3.4:80".to_string());
    let shutdowns = Rc::new(Cell::new(0u32));
    let mut driver = FakeDriver::new(vec![
        Err(io_error()),
        Err(io_error()),
        Ok(FakeSession { shutdowns: Rc::clone(&shutdowns) }),
    ]);
    assert!(client.retry_connect(&mut driver).is_ok());
    assert!(client.session.is_some());
    assert_eq!(driver.attempts, 3);
    assert_eq!(driver.sleeps, vec![5, 10]);
}

#[test]
fn retry_connect_stops_at_handshake_failure() {
    // A protocol mismatch ends the retries at once, with budget left.
    let (secret, public) = test_keys();
    let mut client: Client<FakeSession> = Client::new(secret, public, "1.2.3.4:80".to_string());
    let mut driver = FakeDriver::new(vec![
        Err(io_error()),
        Err(ConnectError::HandshakeError("peer key mismatch".to_string())),
    ]);
    match client.retry_connect(&mut driver) {
        Err(RetryError::Fatal(ConnectError::HandshakeError(msg))) => {
            assert_eq!(msg, "peer key mismatch");
        }
        _ => panic!("expected a fatal handshake failure"),
    }
    assert_eq!(driver.attempts, 2);
    assert_eq!(driver.sleeps, vec![5]);
    assert!(client.session.is_none());
}

#[test]
fn retry_connect_exhausts_budget_with_io_failures() {
    // Nothing listening at the target: every attempt fails with an I/O
    // error, the budget of five is consumed exactly, 5 + 10 + 20 + 40 = 75
    // accumulated seconds of backoff are slept, and the terminal error is
    // I/O-class — never a handshake error.
    let (secret, public) = test_keys();
    let mut client: Client<FakeSession> =
        Client::new(secret, public, "127.0.0.1:9999".to_string());
    let mut driver = FakeDriver::new(vec![
        Err(io_error()),
        Err(io_error()),
        Err(io_error()),
        Err(io_error()),
        Err(io_error()),
    ]);
    match client.retry_connect(&mut driver) {
        Err(RetryError::GaveUp { attempts, last }) => {
            assert_eq!(attempts, 5);
            assert!(matches!(last, ConnectError::IOError(_)));
        }
        _ => panic!("expected the budget to run out"),
    }
    assert_eq!(driver.attempts, 5);
    assert_eq!(driver.sleeps, vec![5, 10, 20, 40]);
    let total: u64 = driver.sleeps.iter().sum();
    assert!(total >= 75);
    assert!(client.session.is_none());
}

#[test]
fn retry_connect_failure_leaves_prior_session_untouched() {
    let (secret, public) = test_keys();
    let mut client: Client<FakeSession> = Client::new(secret, public, "1.2.3.4:80".to_string());
    let shutdowns = Rc::new(Cell::new(0u32));
    let mut driver = FakeDriver::new(vec![Ok(FakeSession { shutdowns: Rc::clone(&shutdowns) })]);
    assert!(client.connect(&mut driver).is_ok());
    let mut failing = FakeDriver::new(vec![Err(ConnectError::HandshakeError(
        "peer key mismatch".to_string(),
    ))]);
    assert!(client.retry_connect(&mut failing).is_err());
    assert!(client.session.is_some());
}

#[test]
fn configured_policy_governs_the_schedule() {
    let (secret, public) = test_keys();
    let mut client: Client<FakeSession> = Client::new(secret, public, "1.2.3.4:80".to_string());
    client.set_retry_policy(RetryPolicy::new(7, 2));
    let mut driver = FakeDriver::new(vec![Err(io_error()), Err(io_error())]);
    match client.retry_connect(&mut driver) {
        Err(RetryError::GaveUp { attempts, .. }) => assert_eq!(attempts, 2),
        _ => panic!("expected the budget to run out"),
    }
    assert_eq!(driver.sleeps, vec![7]);
}

#[test]
fn classifier_follows_the_policy_table() {
    assert!(io_error().is_retryable());
    assert!(!ConnectError::HandshakeError("peer key mismatch".to_string()).is_retryable());
    assert!(!ConnectError::AddrParseError("not-an-address".to_string()).is_retryable());
}

#[test]
fn io_errors_convert_to_the_io_tag() {
    let raw = std::io::Error::new(std::io::ErrorKind::TimedOut, "timed out");
    let tagged = ConnectError::from(raw);
    assert!(matches!(tagged, ConnectError::IOError(_)));
    assert!(tagged.is_retryable());
}

#[test]
fn messages_name_the_failure() {
    assert_eq!(
        ConnectError::HandshakeError("peer key mismatch".to_string()).message(),
        "Handshake failure."
    );
    assert_eq!(
        ConnectError::AddrParseError("not-an-address".to_string()).message(),
        "Failure to parse address."
    );
    assert_eq!(io_error().message(), "connection refused");
}
