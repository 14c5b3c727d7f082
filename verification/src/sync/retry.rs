//! The retry policy of a node's execution phase: how many times `exec` runs,
//! when to wait, and what the fallback is handed.

use vstd::prelude::*;
use crate::errors::FlowError;
use crate::json::JsonValue;

verus! {

/// What the node does next while it executes.
#[derive(Debug)]
pub enum RetryStep {
    /// Run `exec` now.
    Execute,
    /// Wait the node's wait duration, then run `exec` again.
    WaitAndExecute,
    /// Give up: hand this error to the fallback.
    Fallback(FlowError),
}

/// The text of the error that the fallback is handed when `exec` never ran.
pub open spec fn unknown_error_text() -> Seq<char> {
    "Unknown error"@
}

/// The step after a failed attempt that leaves `failures` failures against a
/// limit of `limit` attempts: another attempt, after the wait, while attempts
/// are left; else the fallback, handed the last error.
pub open spec fn after_failure(limit: nat, failures: nat, err: FlowError) -> RetryStep {
    if failures < limit {
        RetryStep::WaitAndExecute
    } else {
        RetryStep::Fallback(err)
    }
}

/// The execution phase, from an attempt that runs after `failures` failed
/// ones, when the attempts give `outcomes` in turn and each step is the one
/// that `Retry` gives: how many attempts run, how many waits come between
/// them, and how the phase ends (`Ok` with the value of an attempt, or `Err`
/// with the error that the fallback is handed).
pub open spec fn retry_run(limit: nat, outcomes: Seq<Result<JsonValue, FlowError>>, failures: nat) -> (
    nat,
    nat,
    Result<JsonValue, FlowError>,
)
    decreases limit - failures,
{
    if failures < outcomes.len() && failures < limit {
        match outcomes[failures as int] {
            Ok(v) => ((failures + 1) as nat, failures, Ok(v)),
            Err(e) => match after_failure(limit, (failures + 1) as nat, e) {
                RetryStep::Fallback(x) => ((failures + 1) as nat, failures, Err(x)),
                _ => retry_run(limit, outcomes, (failures + 1) as nat),
            },
        }
    } else {
        arbitrary()
    }
}

/// The progress of a node's execution phase.
pub struct Retry {
    max_retries: usize,
    attempts: usize,
}

impl Retry {
    #[verifier::type_invariant]
    spec fn attempts_within_limit(self) -> bool {
        self.attempts <= self.max_retries
    }

    /// The number of attempts allowed.
    pub closed spec fn limit(self) -> nat {
        self.max_retries as nat
    }

    /// The number of attempts that failed so far.
    pub closed spec fn failures(self) -> nat {
        self.attempts as nat
    }

    /// Starts an execution phase that allows `max_retries` attempts: the
    /// first attempt runs at once, or, when no attempt is allowed, the
    /// fallback gets an "Unknown error".
    pub fn start(max_retries: usize) -> (r: (Retry, RetryStep))
        ensures
            r.0.limit() == max_retries,
            r.0.failures() == 0,
            max_retries > 0 ==> r.1 is Execute,
            max_retries == 0 ==> (r.1 matches RetryStep::Fallback(FlowError::NodeExecution(t)) && t@
                == unknown_error_text()),
    {
        let r = Retry { max_retries, attempts: 0 };
        if max_retries == 0 {
            (r, RetryStep::Fallback(FlowError::NodeExecution(String::from_str("Unknown error"))))
        } else {
            (r, RetryStep::Execute)
        }
    }

    /// Records that an attempt failed with `err`: another attempt follows,
    /// after the wait, while attempts are left; otherwise the fallback gets
    /// `err`, the last error.
    pub fn failed(&mut self, err: FlowError) -> (s: RetryStep)
        requires
            old(self).failures() < old(self).limit(),
        ensures
            final(self).limit() == old(self).limit(),
            final(self).failures() == old(self).failures() + 1,
            final(self).failures() < final(self).limit() ==> s is WaitAndExecute,
            final(self).failures() == final(self).limit() ==> s == RetryStep::Fallback(err),
            s == after_failure(final(self).limit(), final(self).failures(), err),
    {
        self.attempts = self.attempts + 1;
        if self.attempts < self.max_retries {
            RetryStep::WaitAndExecute
        } else {
            RetryStep::Fallback(err)
        }
    }

    /// The number of attempts that failed so far.
    pub fn failed_attempts(&self) -> (n: usize)
        ensures
            n == self.failures(),
    {
        self.attempts
    }
}

/// A node's execution phase with a limit of `limit` attempts: when an
/// attempt succeeds, the first to do so ends the phase with its value, after
/// as many attempts as it takes and a wait between each two; when all fail,
/// exactly `limit` attempts run, with a wait between each two and none after
/// the last, and the fallback is handed the last attempt's error.
pub proof fn lemma_retry_run(limit: nat, outcomes: Seq<Result<JsonValue, FlowError>>)
    requires
        limit >= 1,
        outcomes.len() >= limit,
    ensures
        forall|k: int|
            #![trigger outcomes[k]]
            0 <= k < limit && outcomes[k] is Ok && (forall|j: int| 0 <= j < k ==> outcomes[j] is Err)
                ==> retry_run(limit, outcomes, 0) == ((k + 1) as nat, k as nat, outcomes[k]),
        (forall|j: int| 0 <= j < limit ==> outcomes[j] is Err) ==> retry_run(limit, outcomes, 0) == (
            limit,
            (limit - 1) as nat,
            outcomes[limit - 1],
        ),
{
    assert forall|k: int|
        #![trigger outcomes[k]]
        0 <= k < limit && outcomes[k] is Ok && (forall|j: int| 0 <= j < k ==> outcomes[j] is Err)
            implies retry_run(limit, outcomes, 0) == ((k + 1) as nat, k as nat, outcomes[k]) by {
        lemma_retry_run_from(limit, outcomes, 0);
    }
    if forall|j: int| 0 <= j < limit ==> outcomes[j] is Err {
        lemma_retry_run_from(limit, outcomes, 0);
    }
}

/// `lemma_retry_run`, from an attempt that runs after `f` failed ones.
proof fn lemma_retry_run_from(limit: nat, outcomes: Seq<Result<JsonValue, FlowError>>, f: nat)
    requires
        f < limit,
        outcomes.len() >= limit,
        forall|j: int| 0 <= j < f ==> outcomes[j] is Err,
    ensures
        forall|k: int|
            #![trigger outcomes[k]]
            f <= k < limit && outcomes[k] is Ok && (forall|j: int| f <= j < k ==> outcomes[j] is Err)
                ==> retry_run(limit, outcomes, f) == ((k + 1) as nat, k as nat, outcomes[k]),
        (forall|j: int| f <= j < limit ==> outcomes[j] is Err) ==> retry_run(limit, outcomes, f) == (
            limit,
            (limit - 1) as nat,
            outcomes[limit - 1],
        ),
    decreases limit - f,
{
    if outcomes[f as int] is Err && f + 1 < limit {
        lemma_retry_run_from(limit, outcomes, (f + 1) as nat);
    }
}

} // verus!
