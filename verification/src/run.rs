//! The semantics of the generated retry loop.
//!
//! The generated test runs the original body once per attempt, in order, at
//! most `attempts` times. Each attempt is observed through a
//! failure-isolating scope as an [`AttemptResult`]; a run over a given
//! sequence of attempt outcomes is summarized as a [`RunReport`]. The body
//! itself is opaque, so the loop is specified and proved over every possible
//! outcome sequence.

use vstd::prelude::*;

verus! {

/// What one attempt of the body did. The payload of a failure is the
/// captured abnormal termination, carried as an opaque value so that
/// re-raising it is indistinguishable from the original failure.
#[derive(Debug, Clone, Copy, PartialEq, Eq, Structural)]
pub enum AttemptResult {
    Success,
    Failure(u64),
}

/// How the whole generated test terminates: normally, or by re-raising the
/// final attempt's captured failure.
#[derive(Debug, Clone, Copy, PartialEq, Eq, Structural)]
pub enum Verdict {
    Passed,
    Failed(u64),
}

/// What the loop does after one attempt: complete successfully, swallow the
/// failure and try again, or re-raise the failure because the bound is
/// exhausted.
#[derive(Debug, Clone, Copy, PartialEq, Eq, Structural)]
pub enum RetryDecision {
    Accept,
    Retry,
    Reraise,
}

/// One run of the generated test: its verdict, how many attempts ran, and
/// the attempt indices announced on the diagnostic line before each attempt.
#[derive(Debug, PartialEq, Eq)]
pub struct RunReport {
    pub verdict: Verdict,
    pub attempts_made: usize,
    pub log: Vec<usize>,
}

/// How many attempts the loop makes on this outcome sequence under this
/// bound: attempts run in order until the first success, or until the bound
/// is exhausted.
pub open spec fn spec_attempts_made(outcomes: Seq<AttemptResult>, attempts: int) -> int
    recommends
        1 <= attempts <= outcomes.len(),
    decreases attempts,
{
    if attempts <= 1 {
        1
    } else if outcomes[0] is Success {
        1
    } else {
        1 + spec_attempts_made(outcomes.drop_first(), attempts - 1)
    }
}

/// The verdict the last attempt that ran dictates: its success completes
/// the test, its failure is re-raised with its own payload.
pub open spec fn spec_verdict_of(last: AttemptResult) -> Verdict {
    match last {
        AttemptResult::Success => Verdict::Passed,
        AttemptResult::Failure(p) => Verdict::Failed(p),
    }
}

/// The decision after the attempt at `attempt`: a success is accepted at
/// once; a failure is swallowed while attempts remain and re-raised on the
/// final attempt.
pub open spec fn spec_decide(attempt: int, attempts: int, outcome: AttemptResult) -> RetryDecision {
    if outcome is Success {
        RetryDecision::Accept
    } else if attempt + 1 < attempts {
        RetryDecision::Retry
    } else {
        RetryDecision::Reraise
    }
}

/// The loop controller's decision after one attempt, for a driver that
/// performs the attempts itself and only needs the retry policy.
pub fn decide(attempt: usize, attempts: usize, outcome: &AttemptResult) -> (d: RetryDecision)
    requires
        attempt < attempts,
    ensures
        d == spec_decide(attempt as int, attempts as int, *outcome),
{
    match outcome {
        AttemptResult::Success => RetryDecision::Accept,
        AttemptResult::Failure(_) => {
            if attempt + 1 < attempts {
                RetryDecision::Retry
            } else {
                RetryDecision::Reraise
            }
        }
    }
}

/// The loop always runs at least one attempt and never more than the bound.
pub proof fn lemma_attempts_made_bounds(outcomes: Seq<AttemptResult>, attempts: int)
    requires
        1 <= attempts <= outcomes.len(),
    ensures
        1 <= spec_attempts_made(outcomes, attempts) <= attempts,
    decreases attempts,
{
    if attempts == 1 || outcomes[0] is Success {
    } else {
        lemma_attempts_made_bounds(outcomes.drop_first(), attempts - 1);
    }
}

/// If the body fails on every attempt before `k` and succeeds on attempt
/// `k`, the loop stops right there.
proof fn lemma_attempts_made_success_at(outcomes: Seq<AttemptResult>, attempts: int, k: int)
    requires
        1 <= attempts <= outcomes.len(),
        0 <= k < attempts,
        forall|j: int| 0 <= j < k ==> outcomes[j] is Failure,
        outcomes[k] is Success,
    ensures
        spec_attempts_made(outcomes, attempts) == k + 1,
    decreases k,
{
    if k == 0 {
    } else {
        let rest = outcomes.drop_first();
        assert(outcomes[0] is Failure);
        assert forall|j: int| 0 <= j < k - 1 implies rest[j] is Failure by {
            assert(rest[j] == outcomes[j + 1]);
        }
        assert(rest[k - 1] == outcomes[k]);
        lemma_attempts_made_success_at(rest, attempts - 1, k - 1);
    }
}

/// If the body fails on every attempt within the bound, the loop runs the
/// whole bound.
proof fn lemma_attempts_made_exhausted(outcomes: Seq<AttemptResult>, attempts: int)
    requires
        1 <= attempts <= outcomes.len(),
        forall|j: int| 0 <= j < attempts ==> outcomes[j] is Failure,
    ensures
        spec_attempts_made(outcomes, attempts) == attempts,
    decreases attempts,
{
    if attempts == 1 {
    } else {
        let rest = outcomes.drop_first();
        assert(outcomes[0] is Failure);
        assert forall|j: int| 0 <= j < attempts - 1 implies rest[j] is Failure by {
            assert(rest[j] == outcomes[j + 1]);
        }
        lemma_attempts_made_exhausted(rest, attempts - 1);
    }
}

/// Runs the retry loop over a sequence of attempt outcomes, `outcomes[i]`
/// being what the body's `i`-th invocation would do. Attempts run in order;
/// each one is announced on the log first; the first success completes the
/// test at once, and when every attempt within the bound fails, the final
/// attempt's own failure becomes the verdict.
pub fn run_retry(attempts: usize, outcomes: &Vec<AttemptResult>) -> (r: RunReport)
    requires
        1 <= attempts <= outcomes@.len(),
    ensures
        r.attempts_made == spec_attempts_made(outcomes@, attempts as int),
        1 <= r.attempts_made <= attempts,
        r.verdict == spec_verdict_of(outcomes@[r.attempts_made - 1]),
        r.log@ == Seq::new(r.attempts_made as nat, |k: int| k as usize),
{
    let mut log: Vec<usize> = Vec::new();
    let mut i: usize = 0;
    loop
        invariant
            1 <= attempts <= outcomes@.len(),
            0 <= i < attempts,
            forall|j: int| 0 <= j < i ==> outcomes@[j] is Failure,
            log@ == Seq::new(i as nat, |k: int| k as usize),
        decreases attempts - i,
    {
        log.push(i);
        proof {
            assert(log@ =~= Seq::new((i + 1) as nat, |k: int| k as usize));
        }
        match &outcomes[i] {
            AttemptResult::Success => {
                proof {
                    lemma_attempts_made_success_at(outcomes@, attempts as int, i as int);
                }
                return RunReport { verdict: Verdict::Passed, attempts_made: i + 1, log };
            }
            AttemptResult::Failure(p) => {
                if i + 1 == attempts {
                    proof {
                        lemma_attempts_made_exhausted(outcomes@, attempts as int);
                    }
                    return RunReport { verdict: Verdict::Failed(*p), attempts_made: attempts, log };
                }
                i = i + 1;
            }
        }
    }
}

/// How the external test runner judges the generated test's termination: a
/// test carrying a failure-expectation marker passes exactly when the test
/// terminated abnormally, a test without one exactly when it did not.
pub open spec fn spec_observed_pass(v: Verdict, expects_failure: bool) -> bool {
    (v is Failed) == expects_failure
}

/// Judges a run's verdict under an optional failure-expectation marker.
pub fn observe(verdict: &Verdict, expects_failure: bool) -> (passed: bool)
    ensures
        passed == spec_observed_pass(*verdict, expects_failure),
{
    match verdict {
        Verdict::Passed => !expects_failure,
        Verdict::Failed(_) => expects_failure,
    }
}

/// A body that succeeds on its first attempt runs exactly one attempt,
/// whatever the configured bound, and the test passes.
pub proof fn lemma_short_circuit(outcomes: Seq<AttemptResult>, attempts: int)
    requires
        1 <= attempts <= outcomes.len(),
        outcomes[0] is Success,
    ensures
        spec_attempts_made(outcomes, attempts) == 1,
        spec_verdict_of(outcomes[0]) is Passed,
{
    lemma_attempts_made_success_at(outcomes, attempts, 0);
}

/// A body that fails on attempts `0 .. k - 1` and succeeds on attempt
/// `k - 1`, for `k` within the bound, makes the test pass after exactly `k`
/// attempts.
pub proof fn lemma_retry_until_success(outcomes: Seq<AttemptResult>, attempts: int, k: int)
    requires
        1 <= attempts <= outcomes.len(),
        1 <= k <= attempts,
        forall|j: int| 0 <= j < k - 1 ==> outcomes[j] is Failure,
        outcomes[k - 1] is Success,
    ensures
        spec_attempts_made(outcomes, attempts) == k,
        spec_verdict_of(outcomes[spec_attempts_made(outcomes, attempts) - 1]) is Passed,
{
    lemma_attempts_made_success_at(outcomes, attempts, k - 1);
}

/// A body that fails on every attempt makes the test fail after exactly
/// `attempts` attempts, and the reported failure carries the final
/// attempt's own payload.
pub proof fn lemma_exhaustion_reports_final_failure(outcomes: Seq<AttemptResult>, attempts: int)
    requires
        1 <= attempts <= outcomes.len(),
        forall|j: int| 0 <= j < attempts ==> outcomes[j] is Failure,
    ensures
        spec_attempts_made(outcomes, attempts) == attempts,
        spec_verdict_of(outcomes[attempts - 1]) == Verdict::Failed(outcomes[attempts - 1]->Failure_0),
{
    lemma_attempts_made_exhausted(outcomes, attempts);
}

/// There is no partial success: the test passes exactly when some attempt
/// within the bound succeeds, and otherwise fails after running the whole
/// bound.
pub proof fn lemma_passes_iff_success_within_bound(outcomes: Seq<AttemptResult>, attempts: int)
    requires
        1 <= attempts <= outcomes.len(),
    ensures
        spec_verdict_of(outcomes[spec_attempts_made(outcomes, attempts) - 1]) is Passed <==> (
        exists|k: int| 0 <= k < attempts && outcomes[k] is Success),
        !(exists|k: int| 0 <= k < attempts && outcomes[k] is Success) ==> spec_attempts_made(
            outcomes,
            attempts,
        ) == attempts,
    decreases attempts,
{
    let made = spec_attempts_made(outcomes, attempts);
    if attempts == 1 || outcomes[0] is Success {
        if outcomes[0] is Success {
            assert(0 <= 0 < attempts && outcomes[0] is Success);
        }
    } else {
        let rest = outcomes.drop_first();
        lemma_passes_iff_success_within_bound(rest, attempts - 1);
        let rest_made = spec_attempts_made(rest, attempts - 1);
        lemma_attempts_made_bounds(rest, attempts - 1);
        assert(rest[rest_made - 1] == outcomes[rest_made]);
        assert(outcomes[made - 1] == rest[rest_made - 1]);
        if exists|k: int| 0 <= k < attempts - 1 && rest[k] is Success {
            let k = choose|k: int| 0 <= k < attempts - 1 && rest[k] is Success;
            assert(outcomes[k + 1] is Success);
        }
        if exists|k: int| 0 <= k < attempts && outcomes[k] is Success {
            let k = choose|k: int| 0 <= k < attempts && outcomes[k] is Success;
            assert(rest[k - 1] is Success);
        }
    }
}

/// Under a failure-expectation marker, a body that fails on every attempt
/// is judged as passing - the final attempt's re-raised failure satisfies
/// the expectation - and the loop still runs exactly `attempts` attempts.
pub proof fn lemma_expected_failure_passes(outcomes: Seq<AttemptResult>, attempts: int)
    requires
        1 <= attempts <= outcomes.len(),
        forall|j: int| 0 <= j < attempts ==> outcomes[j] is Failure,
    ensures
        spec_attempts_made(outcomes, attempts) == attempts,
        spec_observed_pass(
            spec_verdict_of(outcomes[spec_attempts_made(outcomes, attempts) - 1]),
            true,
        ),
{
    lemma_attempts_made_exhausted(outcomes, attempts);
}

} // verus!
