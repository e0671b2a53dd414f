//! The command runner's decision logic: retry counting, exponential
//! backoff, the dry-run short cut, the admission test every action must
//! pass before it reaches a subprocess, and the bounded result record of
//! a run. The
//! subprocess itself is spawned outside the library, which consults these
//! functions between attempts.

use vstd::prelude::*;

use crate::pty::{spec_tail, append_tail};

verus! {

/// Retry policy for command execution: `max_retries` additional attempts
/// after the first, with exponential backoff from `base_delay_ms`.
#[derive(Clone, Copy, Debug)]
pub struct CommandRunner {
    pub max_retries: u32,
    pub base_delay_ms: u64,
}

/// The backoff before the attempt after `attempt`: the base delay doubled
/// `attempt` times, saturating at the largest delay.
pub open spec fn spec_backoff(base: u64, attempt: u32) -> u64
    decreases attempt,
{
    if attempt == 0 {
        base
    } else {
        let p = spec_backoff(base, (attempt - 1) as u32);
        if p > u64::MAX / 2 {
            u64::MAX
        } else {
            (p * 2) as u64
        }
    }
}

impl CommandRunner {
    /// A runner with the given retry policy.
    pub fn new(max_retries: u32, base_delay_ms: u64) -> (r: CommandRunner)
        ensures
            r.max_retries == max_retries,
            r.base_delay_ms == base_delay_ms,
    {
        CommandRunner { max_retries, base_delay_ms }
    }

    /// The delay to sleep after failed attempt number `attempt` (counted
    /// from zero), or nothing when the retry budget is spent.
    pub fn next_attempt_delay(&self, attempt: u32) -> (r: Option<u64>)
        ensures
            attempt >= self.max_retries ==> r is None,
            attempt < self.max_retries ==> r == Some(spec_backoff(self.base_delay_ms, attempt)),
    {
        if attempt >= self.max_retries {
            None
        } else {
            Some(backoff_ms(self.base_delay_ms, attempt))
        }
    }
}

/// The backoff delay, computed by capped doubling.
pub fn backoff_ms(base: u64, attempt: u32) -> (r: u64)
    ensures
        r == spec_backoff(base, attempt),
{
    let mut b: u64 = base;
    let mut i: u32 = 0;
    while i < attempt
        invariant
            i <= attempt,
            b == spec_backoff(base, i),
        decreases attempt - i,
    {
        if b > u64::MAX / 2 {
            b = u64::MAX;
        } else {
            b = b * 2;
        }
        i += 1;
    }
    b
}

/// The admission test in front of the executor: an action goes through
/// only when the manifest says its program can run, or the unsafe
/// override is on.
pub fn admit_action(can_run_ok: bool, unsafe_mode: bool) -> (r: bool)
    ensures
        r == (can_run_ok || unsafe_mode),
{
    can_run_ok || unsafe_mode
}

/// The largest number of log-tail bytes a run result keeps.
pub open spec fn log_tail_limit() -> int {
    4096
}

/// What one command run produced: exit code, wall-clock duration, the
/// trailing bytes of its output, where the full log went, the command
/// line, and whether the deadline expired.
#[derive(Debug)]
pub struct RunResult {
    pub exit_code: i32,
    pub duration_ms: u64,
    pub log_tail: Vec<u8>,
    pub full_log_path: String,
    pub command_line: String,
    pub timed_out: bool,
}

impl RunResult {
    /// The bound every run result keeps: at most 4096 trailing bytes of
    /// log output.
    pub open spec fn wf(&self) -> bool {
        self.log_tail@.len() <= log_tail_limit()
    }

    /// The kept tail of the captured output.
    pub open spec fn spec_log_tail(&self) -> Seq<u8> {
        self.log_tail@
    }

    /// Assemble a result, keeping only the last 4096 bytes of the raw
    /// captured output as the tail.
    pub fn new(
        exit_code: i32,
        duration_ms: u64,
        raw_output: &[u8],
        full_log_path: String,
        command_line: String,
        timed_out: bool,
    ) -> (r: RunResult)
        ensures
            r.wf(),
            r.spec_log_tail() == spec_tail(raw_output@, log_tail_limit()),
            r.exit_code == exit_code,
            r.duration_ms == duration_ms,
            r.full_log_path == full_log_path,
            r.command_line == command_line,
            r.timed_out == timed_out,
    {
        let mut tail: Vec<u8> = Vec::new();
        append_tail(&mut tail, raw_output, 4096);
        proof {
            assert(Seq::<u8>::empty() + raw_output@ =~= raw_output@);
        }
        RunResult { exit_code, duration_ms, log_tail: tail, full_log_path, command_line, timed_out }
    }

    /// Read the kept tail.
    pub fn log_tail(&self) -> (r: &Vec<u8>)
        ensures
            r@ == self.spec_log_tail(),
    {
        &self.log_tail
    }
}

} // verus!
