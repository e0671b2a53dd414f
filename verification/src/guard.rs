//! Guardrails applied before any command runs: a denylist of destructive
//! patterns, an allowlist of common development tools, and the dry-run
//! switch with its report of actions that would have been taken.

use vstd::prelude::*;

use crate::text::{
    contains_seq, is_space, matches_at, token_bounds, str_contains, str_chars, first_token,
    chars_eq_str,
};

verus! {

/// The command text contains one of the destructive patterns that are
/// denied outright.
pub open spec fn hits_denylist(c: Seq<char>) -> bool {
    ||| contains_seq(c, "rm -rf"@)
    ||| contains_seq(c, "sudo"@)
    ||| contains_seq(c, "shutdown"@)
    ||| contains_seq(c, "reboot"@)
    ||| contains_seq(c, "init 0"@)
    ||| contains_seq(c, "poweroff"@)
}

/// The token names one of the common safe development commands.
pub open spec fn allowlisted(t: Seq<char>) -> bool {
    ||| t == "cargo"@
    ||| t == "npm"@
    ||| t == "pytest"@
    ||| t == "go"@
    ||| t == "mvn"@
    ||| t == "rustfmt"@
    ||| t == "prettier"@
    ||| t == "black"@
    ||| t == "gofmt"@
    ||| t == "clippy"@
    ||| t == "eslint"@
    ||| t == "flake8"@
    ||| t == "git"@
    ||| t == "grep"@
    ||| t == "rg"@
}

/// Two bound pairs for the first token of the same text agree.
pub proof fn lemma_token_bounds_unique(s: Seq<char>, a1: int, b1: int, a2: int, b2: int)
    requires
        token_bounds(s, a1, b1),
        token_bounds(s, a2, b2),
    ensures
        a1 == a2,
        b1 == b2,
{
    if a1 < a2 {
        assert(is_space(s[a1]));
        assert(!is_space(s[a1]));
    }
    if a2 < a1 {
        assert(is_space(s[a2]));
        assert(!is_space(s[a2]));
    }
    if b1 < b2 {
        assert(is_space(s[b1]));
        assert(!is_space(s[b1]));
    }
    if b2 < b1 {
        assert(is_space(s[b2]));
        assert(!is_space(s[b2]));
    }
}

/// The first whitespace-separated token of `s`.
pub open spec fn spec_first_token(s: Seq<char>) -> Seq<char> {
    let ab = choose|ab: (int, int)| token_bounds(s, ab.0, ab.1);
    s.subrange(ab.0, ab.1)
}

/// What the guard decides for a raw command line.
#[derive(Clone, Copy, Debug, PartialEq, Eq, Structural)]
pub enum GuardDecision {
    /// The command may run.
    Allowed,
    /// The command contains a destructive pattern and is blocked.
    DeniedPattern,
    /// The command is not allowlisted; the caller must confirm with the
    /// user before running it.
    NeedsConfirmation,
    /// The command is not allowlisted and confirmation is switched off.
    DeniedNotAllowlisted,
}

/// The decision the guard owes for `cmd` under the given confirmation
/// setting.
pub open spec fn spec_guard_decision(cmd: Seq<char>, require_confirmation: bool) -> GuardDecision {
    if hits_denylist(cmd) {
        GuardDecision::DeniedPattern
    } else if allowlisted(spec_first_token(cmd)) {
        GuardDecision::Allowed
    } else if require_confirmation {
        GuardDecision::NeedsConfirmation
    } else {
        GuardDecision::DeniedNotAllowlisted
    }
}

/// Guardrail check on a raw command line: destructive patterns are denied,
/// allowlisted programs pass, anything else needs confirmation or is
/// denied depending on the configuration.
pub fn guard_check(command: &str, require_confirmation: bool) -> (d: GuardDecision)
    ensures
        d == spec_guard_decision(command@, require_confirmation),
{
    let denied = str_contains(command, "rm -rf") || str_contains(command, "sudo")
        || str_contains(command, "shutdown") || str_contains(command, "reboot")
        || str_contains(command, "init 0") || str_contains(command, "poweroff");
    if denied {
        return GuardDecision::DeniedPattern;
    }
    let chars = str_chars(command);
    let tok = first_token(chars.as_slice());
    proof {
        let (a, b) = choose|a: int, b: int|
            token_bounds(command@, a, b) && tok@ == command@.subrange(a, b);
        let ab = choose|ab: (int, int)| token_bounds(command@, ab.0, ab.1);
        assert(token_bounds(command@, ab.0, ab.1)) by {
            assert(token_bounds(command@, a, b));
        }
        lemma_token_bounds_unique(command@, a, b, ab.0, ab.1);
        assert(spec_first_token(command@) == tok@);
    }
    let ok = chars_eq_str(tok.as_slice(), "cargo") || chars_eq_str(tok.as_slice(), "npm")
        || chars_eq_str(tok.as_slice(), "pytest") || chars_eq_str(tok.as_slice(), "go")
        || chars_eq_str(tok.as_slice(), "mvn") || chars_eq_str(tok.as_slice(), "rustfmt")
        || chars_eq_str(tok.as_slice(), "prettier") || chars_eq_str(tok.as_slice(), "black")
        || chars_eq_str(tok.as_slice(), "gofmt") || chars_eq_str(tok.as_slice(), "clippy")
        || chars_eq_str(tok.as_slice(), "eslint") || chars_eq_str(tok.as_slice(), "flake8")
        || chars_eq_str(tok.as_slice(), "git") || chars_eq_str(tok.as_slice(), "grep")
        || chars_eq_str(tok.as_slice(), "rg");
    if ok {
        GuardDecision::Allowed
    } else if require_confirmation {
        GuardDecision::NeedsConfirmation
    } else {
        GuardDecision::DeniedNotAllowlisted
    }
}

impl GuardDecision {
    /// A plain-language line for the diagnostics log.
    pub fn describe(&self) -> (r: String)
        ensures
            (*self == GuardDecision::Allowed) ==> r@ == "allowed"@,
            (*self == GuardDecision::DeniedPattern) ==> r@
                == "denied: command contains a destructive pattern"@,
            (*self == GuardDecision::NeedsConfirmation) ==> r@
                == "confirmation required: command is not in the allowlist"@,
            (*self == GuardDecision::DeniedNotAllowlisted) ==> r@
                == "denied: command is not in the allowlist"@,
    {
        match self {
            GuardDecision::Allowed => "allowed".to_owned(),
            GuardDecision::DeniedPattern => {
                "denied: command contains a destructive pattern".to_owned()
            },
            GuardDecision::NeedsConfirmation => {
                "confirmation required: command is not in the allowlist".to_owned()
            },
            GuardDecision::DeniedNotAllowlisted => {
                "denied: command is not in the allowlist".to_owned()
            },
        }
    }
}

/// Guardrail configuration: when `require_confirmation` is set, a command
/// outside the allowlist asks the user instead of being denied outright.
pub struct GuardConfig {
    pub require_confirmation: bool,
}

impl GuardConfig {
    /// A fresh configuration; nothing asks for confirmation.
    pub fn new() -> (r: GuardConfig)
        ensures
            !r.require_confirmation,
    {
        GuardConfig { require_confirmation: false }
    }

    /// Set whether non-allowlisted commands prompt for confirmation.
    pub fn set_require_confirmation(&mut self, val: bool)
        ensures
            final(self).require_confirmation == val,
    {
        self.require_confirmation = val;
    }
}

/// The dry-run switch together with the report of actions that would have
/// been performed.
pub struct DryRunLog {
    pub enabled: bool,
    pub report: Vec<String>,
}

impl DryRunLog {
    /// A fresh log; dry-run starts switched off.
    pub fn new() -> (r: DryRunLog)
        ensures
            !r.enabled,
            r.report@.len() == 0,
    {
        DryRunLog { enabled: false, report: Vec::new() }
    }

    /// Switch dry-run mode on or off; the report so far is kept.
    pub fn set_dry_run(&mut self, val: bool)
        ensures
            final(self).enabled == val,
            final(self).report == old(self).report,
    {
        self.enabled = val;
    }

    /// Record one action that would have been performed.
    pub fn add_dry_run_report(&mut self, entry: String)
        ensures
            final(self).enabled == old(self).enabled,
            final(self).report@ == old(self).report@.push(entry),
    {
        self.report.push(entry);
    }

    /// The report collected so far.
    pub fn get_dry_run_report(&self) -> (r: Vec<String>)
        ensures
            r@.len() == self.report@.len(),
            forall|i: int| 0 <= i < r@.len() ==> r@[i]@ == self.report@[i]@,
    {
        let mut r: Vec<String> = Vec::new();
        let n = self.report.len();
        let mut i: usize = 0;
        while i < n
            invariant
                n == self.report@.len(),
                i <= n,
                r@.len() == i,
                forall|k: int| 0 <= k < i ==> r@[k]@ == self.report@[k]@,
            decreases n - i,
        {
            r.push(self.report[i].clone());
            i += 1;
        }
        r
    }
}

} // verus!
