//! The self-healing loop's decisions: how many corrective cycles a failed
//! command gets, when the loop gives up, the verdict recorded either way,
//! and the autonomous runner's settings. Running commands, gathering logs
//! and applying patches happen outside the library, which is consulted
//! after every attempt.

use vstd::prelude::*;

use crate::runner::{CommandRunner, spec_backoff, backoff_ms};

verus! {

/// What the healing loop decides after one run of the command.
#[derive(Clone, Copy, Debug, PartialEq, Eq, Structural)]
pub enum HealDecision {
    /// The command succeeded; the loop is done with verdict `success`.
    Succeeded,
    /// The command failed; gather the log and diff, ask for a patch, and
    /// run again. The field is the healing attempt about to start.
    Heal { attempt: u32 },
    /// The attempts are spent; the loop gives up with verdict `failure`.
    Exhausted,
}

/// The bounded self-healing loop around one command.
#[derive(Clone, Copy, Debug, PartialEq, Eq, Structural)]
pub struct HealLoop {
    pub max_heal: u32,
    pub attempt: u32,
}

impl HealLoop {
    /// A fresh loop allowing `max_heal` corrective cycles.
    pub fn new(max_heal: u32) -> (r: HealLoop)
        ensures
            r.max_heal == max_heal,
            r.attempt == 0,
    {
        HealLoop { max_heal, attempt: 0 }
    }

    /// Decide after one run: success ends the loop; a failure starts the
    /// next healing cycle until the budget is spent.
    pub fn on_run_result(&mut self, success: bool) -> (d: HealDecision)
        requires
            old(self).attempt <= old(self).max_heal,
        ensures
            final(self).max_heal == old(self).max_heal,
            success ==> d == HealDecision::Succeeded && *final(self) == *old(self),
            !success && old(self).attempt == old(self).max_heal ==> d == HealDecision::Exhausted
                && final(self).attempt == old(self).attempt,
            !success && old(self).attempt < old(self).max_heal ==> d == (HealDecision::Heal {
                attempt: (old(self).attempt + 1) as u32,
            }) && final(self).attempt == old(self).attempt + 1,
            final(self).attempt <= final(self).max_heal,
    {
        if success {
            HealDecision::Succeeded
        } else if self.attempt == self.max_heal {
            HealDecision::Exhausted
        } else {
            self.attempt = self.attempt + 1;
            HealDecision::Heal { attempt: self.attempt }
        }
    }

    /// The healing attempts used so far.
    pub fn attempts_used(&self) -> (r: u32)
        ensures
            r == self.attempt,
    {
        self.attempt
    }
}

/// The verdict recorded on the timeline for a finished healing loop.
pub fn heal_verdict(succeeded: bool) -> (r: String)
    ensures
        succeeded ==> r@ == "success"@,
        !succeeded ==> r@ == "failure"@,
{
    if succeeded {
        "success".to_owned()
    } else {
        "failure".to_owned()
    }
}

/// The sleep between healing attempts: the base doubled once per attempt
/// already made, and never beyond the cap.
pub fn heal_backoff(base: u64, attempt: u32, cap: u64) -> (r: u64)
    requires
        attempt >= 1,
    ensures
        r == if spec_backoff(base, (attempt - 1) as u32) <= cap {
            spec_backoff(base, (attempt - 1) as u32)
        } else {
            cap
        },
{
    let b = backoff_ms(base, attempt - 1);
    if b <= cap {
        b
    } else {
        cap
    }
}

/// Why the fixer loop refuses to start or gives up.
#[derive(Clone, Copy, Debug, PartialEq, Eq, Structural)]
pub enum FixerError {
    /// The attempt budget must be at least one.
    NoAttempts,
    /// Every attempt failed.
    AttemptsExhausted,
}

/// The fixer loop's decision after one attempt of the task.
#[derive(Clone, Copy, Debug, PartialEq, Eq, Structural)]
pub enum FixerDecision {
    /// The task succeeded.
    Done,
    /// Ask for a fix, apply it, and try again.
    Retry,
    /// The attempts are spent.
    GiveUp,
}

/// The fixer's bounded retry loop around a fallible task.
#[derive(Clone, Copy, Debug, PartialEq, Eq, Structural)]
pub struct FixerLoop {
    pub max_attempts: usize,
    pub attempt: usize,
}

impl FixerLoop {
    /// Start a fixer loop; a zero budget is refused.
    pub fn start(max_attempts: usize) -> (r: Result<FixerLoop, FixerError>)
        ensures
            max_attempts == 0 <==> (r matches Err(e) && e == FixerError::NoAttempts),
            max_attempts > 0 ==> (r matches Ok(f) && f.max_attempts == max_attempts && f.attempt
                == 0),
    {
        if max_attempts == 0 {
            Err(FixerError::NoAttempts)
        } else {
            Ok(FixerLoop { max_attempts, attempt: 0 })
        }
    }

    /// Decide after one attempt of the task.
    pub fn on_task_result(&mut self, success: bool) -> (d: FixerDecision)
        requires
            old(self).attempt < old(self).max_attempts,
        ensures
            final(self).max_attempts == old(self).max_attempts,
            final(self).attempt == old(self).attempt + 1,
            success ==> d == FixerDecision::Done,
            !success && old(self).attempt + 1 >= old(self).max_attempts ==> d
                == FixerDecision::GiveUp,
            !success && old(self).attempt + 1 < old(self).max_attempts ==> d
                == FixerDecision::Retry,
    {
        self.attempt = self.attempt + 1;
        if success {
            FixerDecision::Done
        } else if self.attempt >= self.max_attempts {
            FixerDecision::GiveUp
        } else {
            FixerDecision::Retry
        }
    }
}

/// Continuous autonomous operation: watch for changes, re-plan, run the
/// pipeline, and self-heal failures. The watcher and the loop itself live
/// outside the library.
#[derive(Debug)]
pub struct AutonomousRunner {
    pub planner_cmd: String,
    pub pipeline_cmd: String,
    pub poll_interval_ms: u64,
    pub max_heal_iters: u32,
    pub runner: CommandRunner,
}

impl AutonomousRunner {
    /// An autonomous runner from its settings.
    pub fn new(
        planner_cmd: String,
        pipeline_cmd: String,
        poll_interval_ms: u64,
        runner: CommandRunner,
        max_heal_iters: u32,
    ) -> (r: AutonomousRunner)
        ensures
            r.planner_cmd == planner_cmd,
            r.pipeline_cmd == pipeline_cmd,
            r.poll_interval_ms == poll_interval_ms,
            r.runner == runner,
            r.max_heal_iters == max_heal_iters,
    {
        AutonomousRunner { planner_cmd, pipeline_cmd, poll_interval_ms, max_heal_iters, runner }
    }
}

/// Whether the pipeline runs this cycle: always, except when fresh changes
/// made the planner run first and the planner failed.
pub fn pipeline_due(changed: bool, planner_failed: bool) -> (r: bool)
    ensures
        r == !(changed && planner_failed),
{
    !(changed && planner_failed)
}

} // verus!
