//! The client facade: it holds the immutable configuration (keys, target
//! address, optional SOCKS5 proxy address) and the current session, and
//! exposes connect-once, connect-with-retry and close. The facade decides;
//! the surrounding runtime performs (sockets, handshake library, sleeping)
//! through the two small traits below.

use vstd::prelude::*;

use x25519_dalek_ng::{PublicKey, StaticSecret};

use crate::addr::{Ipv4SocketAddr, parse_socket_addr, spec_is_socket_addr, spec_parse_socket_addr};
use crate::errors::{ConnectError, RetryError, spec_retryable};
use crate::reconnect::{RetryPolicy, lemma_pow2_mono, pow2};

verus! {

/// The x25519 key-exchange secret this client authenticates with.
/// Relies on `x25519_dalek_ng::StaticSecret` (an opaque scalar; the library
/// only stores and hands it on).
#[verifier::external_type_specification]
#[verifier::external_body]
pub struct ExStaticSecret(StaticSecret);

/// The x25519 public key the client expects of its peer.
/// Relies on `x25519_dalek_ng::PublicKey` (an opaque curve point; the
/// library only stores and hands it on).
#[verifier::external_type_specification]
#[verifier::external_body]
pub struct ExPublicKey(PublicKey);

/// An established transport session, as the surrounding runtime provides
/// it. The facade owns at most one live session and asks it for an orderly
/// protocol-level shutdown on close. Nothing is assumed of the method.
pub trait SessionTransport {
    /// Request orderly shutdown at the protocol level.
    fn close(&mut self);
}

/// The validated route of one connection attempt: the parsed target, the
/// parsed proxy when one is configured, and the direct-connect timeout.
pub struct ConnectPlan {
    pub target: Ipv4SocketAddr,
    pub proxy: Option<Ipv4SocketAddr>,
    pub connect_timeout_secs: u64,
}

/// How one connection attempt is performed and how a backoff wait is spent.
/// The surrounding runtime supplies both — socket I/O, the handshake
/// library's three ordered steps (initialize, transition to transport mode,
/// finalize) and sleeping cannot run under the verifier — while every
/// decision between attempts stays here. Nothing is assumed of the methods'
/// behaviour: the facade's contracts hold whatever they do.
pub trait AttemptDriver<S> {
    /// One full connect cycle against the given plan: acquire the transport
    /// (through the SOCKS5 proxy when the plan names one, directly
    /// otherwise), drive the handshake to the established phase, and hand
    /// the session back — or the failure, tagged by its origin.
    fn attempt(&mut self, plan: &ConnectPlan) -> Result<S, ConnectError>;

    /// Wait out one backoff delay, in seconds.
    fn sleep(&mut self, delay_secs: u64);
}

/// The client facade. At most one live session is held at any time; a
/// fresh one is made on every attempt and an old one is never reused.
/// Instances share nothing: concurrent connections are separate instances.
/// One instance must not be used from two threads of control at once.
pub struct Client<S> {
    pub socks_proxy_addr: Option<String>,
    pub server_addr: String,
    pub client_private_key: StaticSecret,
    pub server_public_key: PublicKey,
    pub retry_policy: RetryPolicy,
    pub connect_timeout_secs: u64,
    pub session: Option<S>,
}

impl<S> Client<S> {
    /// A client is well formed when its retry policy is.
    pub open spec fn wf(self) -> bool {
        self.retry_policy.wf()
    }

    /// The configured target address is a valid socket-address literal.
    pub open spec fn spec_target_ok(self) -> bool {
        spec_is_socket_addr(self.server_addr@)
    }

    /// The configured proxy address, where one is set, is a valid
    /// socket-address literal.
    pub open spec fn spec_proxy_ok(self) -> bool {
        match self.socks_proxy_addr {
            Some(p) => spec_is_socket_addr(p@),
            None => true,
        }
    }

    /// Both configured addresses pass validation.
    pub open spec fn spec_addrs_ok(self) -> bool {
        self.spec_target_ok() && self.spec_proxy_ok()
    }

    /// The configuration — everything but the held session — of the two
    /// clients is the same.
    pub open spec fn spec_same_config(self, other: Self) -> bool {
        &&& self.server_addr@ == other.server_addr@
        &&& (match (self.socks_proxy_addr, other.socks_proxy_addr) {
            (Some(p), Some(q)) => p@ == q@,
            (None, None) => true,
            _ => false,
        })
        &&& self.client_private_key == other.client_private_key
        &&& self.server_public_key == other.server_public_key
        &&& self.retry_policy == other.retry_policy
        &&& self.connect_timeout_secs == other.connect_timeout_secs
    }

    /// Builds a client around its immutable configuration: this client's
    /// private authentication key, the public key it must see from the
    /// peer, and the target address. No proxy is set, the retry policy is
    /// the standard one, the direct-connect timeout is 45 seconds, and no
    /// session is held.
    pub fn new(
        client_private_key: StaticSecret,
        server_public_key: PublicKey,
        server_addr: String,
    ) -> (r: Client<S>)
        ensures
            r.server_addr@ == server_addr@,
            r.socks_proxy_addr is None,
            r.client_private_key == client_private_key,
            r.server_public_key == server_public_key,
            r.retry_policy.initial_delay_secs == 5,
            r.retry_policy.max_attempts == 5,
            r.connect_timeout_secs == 45,
            r.session is None,
            r.wf(),
    {
        Client {
            socks_proxy_addr: None,
            server_addr,
            client_private_key,
            server_public_key,
            retry_policy: RetryPolicy::standard(),
            connect_timeout_secs: 45,
            session: None,
        }
    }

    /// Routes the transport through a SOCKS5 proxy at the given address.
    pub fn set_socks_proxy(&mut self, addr: String)
        ensures
            final(self).socks_proxy_addr matches Some(p) && p@ == addr@,
            final(self).server_addr@ == old(self).server_addr@,
            final(self).client_private_key == old(self).client_private_key,
            final(self).server_public_key == old(self).server_public_key,
            final(self).retry_policy == old(self).retry_policy,
            final(self).connect_timeout_secs == old(self).connect_timeout_secs,
            final(self).session == old(self).session,
    {
        self.socks_proxy_addr = Some(addr);
    }

    /// Replaces the retry policy; the attempt bound and the initial backoff
    /// are configuration, not constants.
    pub fn set_retry_policy(&mut self, policy: RetryPolicy)
        requires
            policy.wf(),
        ensures
            final(self).retry_policy == policy,
            final(self).wf(),
            final(self).server_addr@ == old(self).server_addr@,
            final(self).socks_proxy_addr == old(self).socks_proxy_addr,
            final(self).client_private_key == old(self).client_private_key,
            final(self).server_public_key == old(self).server_public_key,
            final(self).connect_timeout_secs == old(self).connect_timeout_secs,
            final(self).session == old(self).session,
    {
        self.retry_policy = policy;
    }

    /// Validates the configured addresses and fixes the transport route:
    /// through the proxy when one is set, directly otherwise. No I/O
    /// happens here: a malformed address is reported as the configuration
    /// error it is, with no socket ever opened.
    pub fn transport_plan(&self) -> (r: Result<ConnectPlan, ConnectError>)
        ensures
            match r {
                Ok(plan) => {
                    &&& self.spec_addrs_ok()
                    &&& Some(plan.target) == spec_parse_socket_addr(self.server_addr@)
                    &&& (match self.socks_proxy_addr {
                        Some(p) => plan.proxy == spec_parse_socket_addr(p@),
                        None => plan.proxy is None,
                    })
                    &&& plan.connect_timeout_secs == self.connect_timeout_secs
                },
                Err(e) => {
                    &&& !self.spec_addrs_ok()
                    &&& (e matches ConnectError::AddrParseError(bad) && (if !self.spec_target_ok() {
                        bad@ == self.server_addr@
                    } else {
                        match self.socks_proxy_addr {
                            Some(p) => bad@ == p@,
                            None => false,
                        }
                    }))
                },
            },
    {
        let target = match parse_socket_addr(self.server_addr.as_str()) {
            Some(t) => t,
            None => {
                return Err(ConnectError::AddrParseError(self.server_addr.as_str().to_owned()));
            },
        };
        let proxy = match &self.socks_proxy_addr {
            Some(p) => match parse_socket_addr(p.as_str()) {
                Some(v) => Some(v),
                None => {
                    return Err(ConnectError::AddrParseError(p.as_str().to_owned()));
                },
            },
            None => None,
        };
        Ok(ConnectPlan { target, proxy, connect_timeout_secs: self.connect_timeout_secs })
    }

    /// Connect-once: a single attempt cycle, no retry — validate the
    /// addresses, have the driver acquire the transport and run the
    /// handshake, and install the session it hands back. On failure the
    /// previously held session, if any, stays untouched.
    pub fn connect<D: AttemptDriver<S>>(&mut self, driver: &mut D) -> (r: Result<(), ConnectError>)
        ensures
            final(self).spec_same_config(*old(self)),
            r is Ok ==> final(self).session is Some,
            r is Err ==> final(self).session == old(self).session,
            !old(self).spec_addrs_ok() ==> (r matches Err(e) && e is AddrParseError)
                && *final(driver) == *old(driver),
    {
        let plan = match self.transport_plan() {
            Ok(p) => p,
            Err(e) => {
                return Err(e);
            },
        };
        match driver.attempt(&plan) {
            Ok(session) => {
                self.session = Some(session);
                Ok(())
            },
            Err(e) => Err(e),
        }
    }

    /// Connect-with-retry: attempt cycles under the configured policy,
    /// sleeping the doubling backoff after each transient failure, stopping
    /// at once on a fatal one, and installing the session of the first
    /// success without consuming the remaining budget. A malformed address
    /// is fatal before any attempt runs. On failure the previously held
    /// session, if any, stays untouched.
    #[verifier::loop_isolation(false)]
    pub fn retry_connect<D: AttemptDriver<S>>(&mut self, driver: &mut D) -> (r: Result<
        (),
        RetryError,
    >)
        requires
            old(self).wf(),
        ensures
            final(self).spec_same_config(*old(self)),
            r is Ok ==> final(self).session is Some,
            r is Err ==> final(self).session == old(self).session,
            r matches Err(RetryError::Fatal(e)) ==> !spec_retryable(e),
            r matches Err(RetryError::GaveUp { attempts, last }) ==> attempts == old(
                self,
            ).retry_policy.max_attempts && spec_retryable(last),
            !old(self).spec_addrs_ok() ==> (r matches Err(RetryError::Fatal(e))
                && e is AddrParseError) && *final(driver) == *old(driver),
    {
        let plan = match self.transport_plan() {
            Ok(p) => p,
            Err(e) => {
                return Err(RetryError::Fatal(e));
            },
        };
        let policy = self.retry_policy;
        let mut delay: u64 = policy.initial_delay_secs;
        let mut k: u32 = 0;
        proof {
            assert(pow2(0) == 1);
            assert(policy.spec_delay(0) == policy.initial_delay_secs);
        }
        loop
            invariant
                self.spec_same_config(*old(self)),
                self.session == old(self).session,
                k < policy.max_attempts,
                delay == policy.spec_delay(k as nat),
            decreases policy.max_attempts - k,
        {
            match driver.attempt(&plan) {
                Ok(session) => {
                    self.session = Some(session);
                    return Ok(());
                },
                Err(e) => {
                    if !e.is_retryable() {
                        return Err(RetryError::Fatal(e));
                    } else if k + 1 == policy.max_attempts {
                        return Err(RetryError::GaveUp { attempts: policy.max_attempts, last: e });
                    } else {
                        driver.sleep(delay);
                        proof {
                            lemma_pow2_mono((k + 1) as nat, (policy.max_attempts - 1) as nat);
                            assert(pow2((k + 1) as nat) == 2 * pow2(k as nat));
                            assert(policy.initial_delay_secs * pow2((k + 1) as nat)
                                <= policy.initial_delay_secs * pow2(
                                (policy.max_attempts - 1) as nat,
                            )) by (nonlinear_arith)
                                requires
                                    pow2((k + 1) as nat) <= pow2((policy.max_attempts - 1) as nat),
                                    policy.initial_delay_secs >= 0,
                            ;
                            assert(policy.initial_delay_secs * (2 * pow2(k as nat)) == 2 * (
                            policy.initial_delay_secs * pow2(k as nat))) by (nonlinear_arith);
                        }
                        delay = delay * 2;
                        k = k + 1;
                    }
                },
            }
        }
    }

    /// Close: releases the held session after asking it for an orderly
    /// protocol-level shutdown, and succeeds. With no session held, the
    /// call is the defined no-session result `Err(())` — deterministic,
    /// never a panic — so a second close after a first reports that
    /// nothing was held.
    pub fn close(&mut self) -> (r: Result<(), ()>) where S: SessionTransport
        ensures
            final(self).spec_same_config(*old(self)),
            final(self).session is None,
            r is Ok <==> old(self).session is Some,
    {
        match self.session.take() {
            Some(mut session) => {
                session.close();
                Ok(())
            },
            None => Err(()),
        }
    }
}

} // verus!
