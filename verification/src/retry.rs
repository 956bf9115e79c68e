//! The retrying executor: which attempts are tried again, and when the
//! retries end.

use crate::outcome::{is_server_error, status_is_server_error, Attempt};
use vstd::prelude::*;

verus! {

/// Retries allowed after the first try.
pub const MAX_RETRIES: usize = 3;

/// Seconds to wait before each retry.
pub const RETRY_DELAY_SECONDS: u64 = 3;

/// An attempt is tried again when the transport failed or the server
/// answered 5xx.
pub open spec fn retryable(attempt: Attempt) -> bool {
    match attempt {
        Attempt::Response(status) => is_server_error(status),
        Attempt::TransportError => true,
        Attempt::BuildError(_) => false,
    }
}

/// Whether an attempt is tried again while retries are left.
pub fn is_retryable(attempt: Attempt) -> (yes: bool)
    ensures
        yes == retryable(attempt),
{
    match attempt {
        Attempt::Response(status) => status_is_server_error(status),
        Attempt::TransportError => true,
        Attempt::BuildError(_) => false,
    }
}

/// How a run of the retrying executor ended.
#[derive(Clone, Copy, Debug, PartialEq, Eq, Structural)]
pub enum RetryOutcome {
    /// An attempt that is not retried; handed to the caller as it is.
    Returned(Attempt),
    /// The last attempt after the retries ran out.
    Exhausted(Attempt),
}

impl RetryOutcome {
    /// The attempt that ended the run.
    pub open spec fn last(self) -> Attempt {
        match self {
            RetryOutcome::Returned(attempt) => attempt,
            RetryOutcome::Exhausted(attempt) => attempt,
        }
    }

    /// The attempt that ended the run.
    pub fn last_attempt(&self) -> (attempt: Attempt)
        ensures
            attempt == self.last(),
    {
        match self {
            RetryOutcome::Returned(attempt) => *attempt,
            RetryOutcome::Exhausted(attempt) => *attempt,
        }
    }
}

/// What to do after an attempt.
#[derive(Clone, Copy, Debug, PartialEq, Eq, Structural)]
pub enum RetryStep {
    /// Wait this many seconds, then try again.
    Retry { delay_seconds: u64 },
    /// Stop with this outcome.
    Done(RetryOutcome),
}

/// Progress of one run: the number of retries already granted.
#[derive(Clone, Copy, Debug, PartialEq, Eq, Structural)]
pub struct RetryState {
    pub attempt_count: usize,
}

/// The step that follows `attempt` once `attempt_count` retries were granted.
pub open spec fn step_after(attempt_count: nat, attempt: Attempt) -> RetryStep {
    if !retryable(attempt) {
        RetryStep::Done(RetryOutcome::Returned(attempt))
    } else if attempt_count >= MAX_RETRIES {
        RetryStep::Done(RetryOutcome::Exhausted(attempt))
    } else {
        RetryStep::Retry { delay_seconds: RETRY_DELAY_SECONDS }
    }
}

/// A finished run over a script of attempts: how many attempts were made,
/// and the outcome.
pub struct RunResult {
    pub attempts: nat,
    pub outcome: RetryOutcome,
}

/// Runs the executor over `script` from its `from`-th attempt on, `from`
/// retries having been granted. `None` when the script ends before the run
/// does.
pub open spec fn run_from(script: Seq<Attempt>, from: nat) -> Option<RunResult>
    decreases script.len() - from,
{
    if from >= script.len() {
        None
    } else {
        match step_after(from, script[from as int]) {
            RetryStep::Done(outcome) => Some(RunResult { attempts: from + 1, outcome }),
            RetryStep::Retry { .. } => run_from(script, from + 1),
        }
    }
}

/// Runs the executor over a script of attempts, in order.
pub open spec fn run(script: Seq<Attempt>) -> Option<RunResult> {
    run_from(script, 0)
}

impl RetryState {
    /// The state before the first attempt.
    pub fn new() -> (state: RetryState)
        ensures
            state.attempt_count == 0,
    {
        RetryState { attempt_count: 0 }
    }

    /// Takes the result of an attempt and decides what follows. A retry is
    /// counted; a finished run leaves the state as it was.
    pub fn on_attempt(&mut self, attempt: Attempt) -> (step: RetryStep)
        ensures
            step == step_after(old(self).attempt_count as nat, attempt),
            final(self).attempt_count == if step is Retry {
                old(self).attempt_count + 1
            } else {
                old(self).attempt_count as int
            },
            old(self).attempt_count <= MAX_RETRIES ==> final(self).attempt_count <= MAX_RETRIES,
    {
        if !is_retryable(attempt) {
            RetryStep::Done(RetryOutcome::Returned(attempt))
        } else if self.attempt_count >= MAX_RETRIES {
            RetryStep::Done(RetryOutcome::Exhausted(attempt))
        } else {
            self.attempt_count = self.attempt_count + 1;
            RetryStep::Retry { delay_seconds: RETRY_DELAY_SECONDS }
        }
    }
}

/// Result of replaying a script: the attempts made and the outcome.
#[derive(Clone, Copy, Debug, PartialEq, Eq, Structural)]
pub struct Replay {
    pub attempts: usize,
    pub outcome: RetryOutcome,
}

/// Replays a script of attempt results through the executor. `None` when
/// the script ends while the executor would still retry.
pub fn replay(script: &Vec<Attempt>) -> (result: Option<Replay>)
    ensures
        match result {
            Some(replay) => run(script@) == Some(
                RunResult { attempts: replay.attempts as nat, outcome: replay.outcome },
            ),
            None => run(script@) is None,
        },
{
    let mut state = RetryState::new();
    let mut i: usize = 0;
    while i < script.len()
        invariant
            i <= script.len(),
            state.attempt_count == i,
            run(script@) == run_from(script@, i as nat),
        decreases script.len() - i,
    {
        match state.on_attempt(script[i]) {
            RetryStep::Done(outcome) => {
                return Some(Replay { attempts: i + 1, outcome });
            },
            RetryStep::Retry { .. } => {
                i = i + 1;
            },
        }
    }
    None
}

/// A finished run made at most `MAX_RETRIES + 1` attempts, ended on its last
/// attempt, and tried again after every attempt before it.
pub proof fn lemma_run_bounded(script: Seq<Attempt>)
    ensures
        match run(script) {
            Some(result) => {
                &&& 1 <= result.attempts <= MAX_RETRIES + 1
                &&& result.attempts <= script.len()
                &&& result.outcome.last() == script[result.attempts - 1]
                &&& forall|k: int| 0 <= k < result.attempts - 1 ==> retryable(#[trigger] script[k])
                &&& result.outcome is Returned ==> !retryable(result.outcome.last())
                &&& result.outcome is Exhausted ==> retryable(result.outcome.last())
                    && result.attempts == MAX_RETRIES + 1
            },
            None => script.len() <= MAX_RETRIES && forall|k: int|
                0 <= k < script.len() ==> retryable(#[trigger] script[k]),
        },
{
    lemma_run_from(script, 0);
}

proof fn lemma_run_from(script: Seq<Attempt>, from: nat)
    requires
        from <= MAX_RETRIES,
        forall|k: int| 0 <= k < from && k < script.len() ==> retryable(#[trigger] script[k]),
    ensures
        match run_from(script, from) {
            Some(result) => {
                &&& from + 1 <= result.attempts <= MAX_RETRIES + 1
                &&& result.attempts <= script.len()
                &&& result.outcome.last() == script[result.attempts - 1]
                &&& forall|k: int| 0 <= k < result.attempts - 1 ==> retryable(#[trigger] script[k])
                &&& result.outcome is Returned ==> !retryable(result.outcome.last())
                &&& result.outcome is Exhausted ==> retryable(result.outcome.last())
                    && result.attempts == MAX_RETRIES + 1
            },
            None => script.len() <= MAX_RETRIES && forall|k: int|
                0 <= k < script.len() ==> retryable(#[trigger] script[k]),
        },
    decreases script.len() - from,
{
    if from < script.len() {
        match step_after(from, script[from as int]) {
            RetryStep::Done(_) => {},
            RetryStep::Retry { .. } => {
                lemma_run_from(script, from + 1);
            },
        }
    }
}

/// The first attempt that is not retried ends the run, if it is among the
/// first `MAX_RETRIES + 1`.
pub proof fn lemma_first_final_attempt_returns(script: Seq<Attempt>, at: int)
    requires
        0 <= at < script.len(),
        at <= MAX_RETRIES,
        !retryable(script[at]),
        forall|k: int| 0 <= k < at ==> retryable(#[trigger] script[k]),
    ensures
        run(script) == Some(
            RunResult { attempts: (at + 1) as nat, outcome: RetryOutcome::Returned(script[at]) },
        ),
{
    lemma_run_bounded(script);
}

/// When the first `MAX_RETRIES + 1` attempts all ask for a retry, the run
/// ends exhausted on the last of them and makes no further attempt.
pub proof fn lemma_exhausted_after_limit(script: Seq<Attempt>)
    requires
        script.len() > MAX_RETRIES,
        forall|k: int| 0 <= k <= MAX_RETRIES ==> retryable(#[trigger] script[k]),
    ensures
        run(script) == Some(
            RunResult {
                attempts: (MAX_RETRIES + 1) as nat,
                outcome: RetryOutcome::Exhausted(script[MAX_RETRIES as int]),
            },
        ),
{
    lemma_run_bounded(script);
}

} // verus!
