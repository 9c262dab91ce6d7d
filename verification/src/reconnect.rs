//! The reconnect controller: a bounded exponential-backoff schedule, the
//! decision it takes on each attempt's outcome, and the laws of the
//! resulting runs.

use vstd::prelude::*;

use crate::errors::{ConnectError, RetryError, spec_retryable};

verus! {

/// Two to the power `k`.
pub open spec fn pow2(k: nat) -> nat
    decreases k,
{
    if k == 0 {
        1
    } else {
        2 * pow2((k - 1) as nat)
    }
}

pub proof fn lemma_pow2_mono(a: nat, b: nat)
    requires
        a <= b,
    ensures
        pow2(a) <= pow2(b),
    decreases b,
{
    if a < b && b > 0 {
        lemma_pow2_mono(a, (b - 1) as nat);
    }
}

/// The retry policy: how many attempts may run and where the doubling
/// backoff starts. The bound is configuration, not a constant of the code.
#[derive(Clone, Copy)]
pub struct RetryPolicy {
    pub initial_delay_secs: u64,
    pub max_attempts: u32,
}

impl RetryPolicy {
    /// A policy is well formed when it allows at least one attempt and its
    /// largest scheduled delay still fits in a `u64` count of seconds.
    pub open spec fn wf(self) -> bool {
        &&& self.max_attempts >= 1
        &&& self.initial_delay_secs * pow2((self.max_attempts - 1) as nat) <= u64::MAX
    }

    /// The backoff delay slept after the failed attempt of index `k`
    /// (counting from zero): the initial delay doubled `k` times.
    pub open spec fn spec_delay(self, k: nat) -> int {
        self.initial_delay_secs * pow2(k)
    }

    pub fn new(initial_delay_secs: u64, max_attempts: u32) -> (r: Self)
        requires
            max_attempts >= 1,
            initial_delay_secs * pow2((max_attempts - 1) as nat) <= u64::MAX,
        ensures
            r.initial_delay_secs == initial_delay_secs,
            r.max_attempts == max_attempts,
            r.wf(),
    {
        RetryPolicy { initial_delay_secs, max_attempts }
    }

    /// The default schedule: at most five attempts, backoff starting at
    /// five seconds and doubling.
    pub fn standard() -> (r: Self)
        ensures
            r.initial_delay_secs == 5,
            r.max_attempts == 5,
            r.wf(),
    {
        proof {
            assert(pow2(0) == 1);
            assert(pow2(1) == 2);
            assert(pow2(2) == 4);
            assert(pow2(3) == 8);
            assert(pow2(4) == 16);
        }
        RetryPolicy { initial_delay_secs: 5, max_attempts: 5 }
    }
}

/// What one full connection attempt (transport acquisition and handshake)
/// came to.
pub enum AttemptOutcome {
    Success,
    Failure(ConnectError),
}

/// An outcome ends the attempts when it is a success or a fatal failure.
pub open spec fn outcome_terminal(o: AttemptOutcome) -> bool {
    match o {
        AttemptOutcome::Success => true,
        AttemptOutcome::Failure(e) => !spec_retryable(e),
    }
}

/// The index of the attempt on which the controller stops, looking from
/// attempt `i` on: the first terminal outcome, or the last budgeted attempt.
pub open spec fn spec_stop_index_from(
    policy: RetryPolicy,
    outcomes: Seq<AttemptOutcome>,
    i: nat,
) -> nat
    decreases policy.max_attempts - i,
{
    if i + 1 >= policy.max_attempts {
        i
    } else if outcome_terminal(outcomes[i as int]) {
        i
    } else {
        spec_stop_index_from(policy, outcomes, i + 1)
    }
}

pub open spec fn spec_stop_index(policy: RetryPolicy, outcomes: Seq<AttemptOutcome>) -> nat {
    spec_stop_index_from(policy, outcomes, 0)
}

/// What connect-with-retry returns when the attempts of indices `0`, `1`,
/// ... come to the given outcomes: the attempt count on success, the fatal
/// failure as soon as one is seen, or the last transient failure once the
/// budget is exhausted.
pub open spec fn spec_run_verdict(
    policy: RetryPolicy,
    outcomes: Seq<AttemptOutcome>,
) -> Result<u32, RetryError> {
    let n = spec_stop_index(policy, outcomes);
    match outcomes[n as int] {
        AttemptOutcome::Success => Ok((n + 1) as u32),
        AttemptOutcome::Failure(e) => if !spec_retryable(e) {
            Err(RetryError::Fatal(e))
        } else {
            Err(RetryError::GaveUp { attempts: policy.max_attempts, last: e })
        },
    }
}

/// The backoff delays observed in such a run: one after every non-final
/// failed attempt, each double the one before.
pub open spec fn spec_run_delays(policy: RetryPolicy, outcomes: Seq<AttemptOutcome>) -> Seq<int> {
    Seq::new(spec_stop_index(policy, outcomes) as nat, |k: int| policy.spec_delay(k as nat))
}

/// The stop index is the first terminal outcome within the budget, or the
/// last budgeted attempt where there is none.
pub proof fn lemma_stop_index_pinned(
    policy: RetryPolicy,
    outcomes: Seq<AttemptOutcome>,
    i: nat,
    k: nat,
)
    requires
        i <= k < policy.max_attempts,
        forall|j: int| i <= j < k ==> !outcome_terminal(outcomes[j]),
        outcome_terminal(outcomes[k as int]) || k == policy.max_attempts - 1,
    ensures
        spec_stop_index_from(policy, outcomes, i) == k,
    decreases k - i,
{
    if i < k {
        lemma_stop_index_pinned(policy, outcomes, i + 1, k);
    }
}

/// Law: if the first `k` attempts fail transiently (I/O) and the attempt of
/// index `k` succeeds within the budget, connect-with-retry succeeds on
/// attempt `k + 1` without consuming the remaining budget, and exactly `k`
/// backoff delays are observed, the `j`-th being the initial delay doubled
/// `j` times.
pub proof fn lemma_eventual_success(policy: RetryPolicy, outcomes: Seq<AttemptOutcome>, k: nat)
    requires
        policy.wf(),
        k < policy.max_attempts,
        forall|j: int|
            0 <= j < k ==> (#[trigger] outcomes[j] matches AttemptOutcome::Failure(e)
                && spec_retryable(e)),
        outcomes[k as int] is Success,
    ensures
        spec_run_verdict(policy, outcomes) == Ok::<u32, RetryError>((k + 1) as u32),
        spec_run_delays(policy, outcomes) =~= Seq::new(k, |j: int| policy.spec_delay(j as nat)),
{
    assert(forall|j: int| 0 <= j < k ==> !outcome_terminal(outcomes[j]));
    lemma_stop_index_pinned(policy, outcomes, 0, k);
}

/// Law: the first backoff delay is the configured initial delay, and each
/// subsequent delay doubles the one before.
pub proof fn lemma_delays_double(policy: RetryPolicy, k: nat)
    ensures
        policy.spec_delay(0) == policy.initial_delay_secs,
        policy.spec_delay(k + 1) == 2 * policy.spec_delay(k),
{
    assert(pow2(0) == 1);
    assert(pow2(k + 1) == 2 * pow2(k));
    assert(policy.initial_delay_secs * (2 * pow2(k)) == 2 * (policy.initial_delay_secs * pow2(k)))
        by (nonlinear_arith);
}

/// Law: a fatal failure — a handshake protocol mismatch or an address-parse
/// failure — ends connect-with-retry at once: however much budget remains,
/// no further attempt runs and no further delay is slept.
pub proof fn lemma_fatal_failure_stops(
    policy: RetryPolicy,
    outcomes: Seq<AttemptOutcome>,
    k: nat,
    err: ConnectError,
)
    requires
        policy.wf(),
        k < policy.max_attempts,
        forall|j: int|
            0 <= j < k ==> (#[trigger] outcomes[j] matches AttemptOutcome::Failure(e)
                && spec_retryable(e)),
        outcomes[k as int] == AttemptOutcome::Failure(err),
        !spec_retryable(err),
    ensures
        spec_run_verdict(policy, outcomes) == Err::<u32, RetryError>(RetryError::Fatal(err)),
        spec_run_delays(policy, outcomes) =~= Seq::new(k, |j: int| policy.spec_delay(j as nat)),
{
    assert(forall|j: int| 0 <= j < k ==> !outcome_terminal(outcomes[j]));
    lemma_stop_index_pinned(policy, outcomes, 0, k);
}

/// Law: if every budgeted attempt fails transiently, connect-with-retry
/// gives up after exactly the budgeted number of attempts — never more —
/// and reports the last transient failure as terminal.
pub proof fn lemma_budget_exhausted(
    policy: RetryPolicy,
    outcomes: Seq<AttemptOutcome>,
    last: ConnectError,
)
    requires
        policy.wf(),
        forall|j: int|
            0 <= j < policy.max_attempts ==> (#[trigger] outcomes[j] matches AttemptOutcome::Failure(e)
                && spec_retryable(e)),
        outcomes[policy.max_attempts - 1] == AttemptOutcome::Failure(last),
    ensures
        spec_run_verdict(policy, outcomes) == Err::<u32, RetryError>(
            RetryError::GaveUp { attempts: policy.max_attempts, last },
        ),
        spec_run_delays(policy, outcomes) =~= Seq::new(
            (policy.max_attempts - 1) as nat,
            |j: int| policy.spec_delay(j as nat),
        ),
{
    assert(forall|j: int| 0 <= j < policy.max_attempts - 1 ==> !outcome_terminal(outcomes[j]));
    lemma_stop_index_pinned(policy, outcomes, 0, (policy.max_attempts - 1) as nat);
}

/// Runs the backoff schedule against a pre-recorded sequence of attempt
/// outcomes, collecting the delays instead of sleeping them. This is the
/// controller's decision logic made independently testable: what it returns
/// and the delays it would sleep are pinned to the run model above.
#[verifier::loop_isolation(false)]
pub fn run_schedule(policy: &RetryPolicy, outcomes: Vec<AttemptOutcome>) -> (r: (
    Result<u32, RetryError>,
    Vec<u64>,
))
    requires
        policy.wf(),
        outcomes@.len() >= policy.max_attempts,
    ensures
        r.0 == spec_run_verdict(*policy, outcomes@),
        r.1@.map_values(|d: u64| d as int) =~= spec_run_delays(*policy, outcomes@),
{
    let ghost orig = outcomes@;
    let mut rest = outcomes;
    let mut delays: Vec<u64> = Vec::new();
    let mut delay: u64 = policy.initial_delay_secs;
    let mut k: u32 = 0;
    proof {
        assert(pow2(0) == 1);
        assert(policy.spec_delay(0) == policy.initial_delay_secs);
    }
    loop
        invariant
            policy.wf(),
            orig.len() >= policy.max_attempts,
            k < policy.max_attempts,
            rest@ =~= orig.skip(k as int),
            forall|j: int| 0 <= j < k ==> !outcome_terminal(orig[j]),
            delays@.len() == k,
            forall|j: int| 0 <= j < k ==> delays@[j] == policy.spec_delay(j as nat),
            delay == policy.spec_delay(k as nat),
        decreases policy.max_attempts - k,
    {
        let o = rest.remove(0);
        proof {
            assert(o == orig[k as int]);
            assert(rest@ =~= orig.skip(k as int + 1));
        }
        match o {
            AttemptOutcome::Success => {
                proof {
                    lemma_stop_index_pinned(*policy, orig, 0, k as nat);
                }
                return (Ok(k + 1), delays);
            },
            AttemptOutcome::Failure(e) => {
                if !e.is_retryable() {
                    proof {
                        lemma_stop_index_pinned(*policy, orig, 0, k as nat);
                    }
                    return (Err(RetryError::Fatal(e)), delays);
                } else if k + 1 == policy.max_attempts {
                    proof {
                        lemma_stop_index_pinned(*policy, orig, 0, k as nat);
                    }
                    return (
                        Err(RetryError::GaveUp { attempts: policy.max_attempts, last: e }),
                        delays,
                    );
                } else {
                    delays.push(delay);
                    proof {
                        lemma_pow2_mono((k + 1) as nat, (policy.max_attempts - 1) as nat);
                        assert(pow2((k + 1) as nat) == 2 * pow2(k as nat));
                        assert(policy.initial_delay_secs * pow2((k + 1) as nat) <= policy.initial_delay_secs
                            * pow2((policy.max_attempts - 1) as nat)) by (nonlinear_arith)
                            requires
                                pow2((k + 1) as nat) <= pow2((policy.max_attempts - 1) as nat),
                                policy.initial_delay_secs >= 0,
                        ;
                        assert(policy.initial_delay_secs * (2 * pow2(k as nat)) == 2 * (
                        policy.initial_delay_secs * pow2(k as nat))) by (nonlinear_arith);
                    }
                    delay = delay * 2;
                    k = k + 1;
                }
            },
        }
    }
}

} // verus!
