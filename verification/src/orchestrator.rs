//! The orchestrator's per-turn decisions: how an informational turn picks
//! its context files, how an edit is applied under the dry-run and
//! export-patch switches, and the fixed layout of the agent's state files
//! and log lines. Reading, writing and deleting the files themselves
//! happens outside the library.

use vstd::prelude::*;
use vstd::string::StringExecFns;

use crate::fsutil::FileMeta;
use crate::text::{spec_digits, u64_string};

verus! {

/// The caps of the summarizer's context: at most eight files, none over
/// twenty KiB, at most eighty KiB together.
pub open spec fn select_spec(files: Seq<FileMeta>, slots: int, budget: int) -> Seq<FileMeta>
    decreases files.len(),
{
    if files.len() == 0 {
        Seq::empty()
    } else if slots > 0 && files[0].size <= 20480 && files[0].size <= budget {
        seq![files[0]] + select_spec(files.skip(1), slots - 1, budget - files[0].size)
    } else {
        select_spec(files.skip(1), slots, budget)
    }
}

/// Pick the context files for an informational summary: walking the list
/// in order, keep a file when a slot is left, it is at most 20 KiB, and
/// it still fits the 80 KiB total.
pub fn select_context_files(files: Vec<FileMeta>) -> (r: Vec<FileMeta>)
    ensures
        r@ == select_spec(files@, 8, 81920),
{
    let ghost all = files@;
    let mut work = files;
    let mut out: Vec<FileMeta> = Vec::new();
    let mut slots: usize = 8;
    let mut budget: u64 = 81920;
    proof {
        assert(out@ + select_spec(work@, slots as int, budget as int) =~= select_spec(
            all,
            8,
            81920,
        ));
    }
    while work.len() > 0
        invariant
            select_spec(all, 8, 81920) == out@ + select_spec(work@, slots as int, budget as int),
            slots <= 8,
            budget <= 81920,
        decreases work@.len(),
    {
        let ghost before_work = work@;
        let ghost before_out = out@;
        let f = work.remove(0);
        let ghost gf = f;
        proof {
            assert(work@ =~= before_work.skip(1));
            assert(before_work[0] == gf);
        }
        if slots > 0 && f.size <= 20480 && f.size <= budget {
            let size = f.size;
            out.push(f);
            slots -= 1;
            budget -= size;
            proof {
                assert(out@ =~= before_out.push(gf));
                assert(out@ + select_spec(work@, slots as int, budget as int) =~= before_out
                    + select_spec(before_work, slots + 1, budget + gf.size));
            }
        }
    }
    proof {
        assert(select_spec(work@, slots as int, budget as int) =~= Seq::<FileMeta>::empty());
        assert(out@ =~= out@ + select_spec(work@, slots as int, budget as int));
    }
    out
}

/// How a proposed edit is applied under the current switches.
#[derive(Clone, Copy, Debug, PartialEq, Eq, Structural)]
pub enum ApplyMode {
    /// Record the intent only; touch nothing.
    DryRun,
    /// Write a numbered patch file instead of the target.
    ExportPatch,
    /// Write the file atomically.
    Apply,
}

/// The apply mode the switches select: dry-run wins, then patch export.
pub fn choose_apply_mode(dry_run: bool, export_patch: bool) -> (r: ApplyMode)
    ensures
        dry_run ==> r == ApplyMode::DryRun,
        !dry_run && export_patch ==> r == ApplyMode::ExportPatch,
        !dry_run && !export_patch ==> r == ApplyMode::Apply,
{
    if dry_run {
        ApplyMode::DryRun
    } else if export_patch {
        ApplyMode::ExportPatch
    } else {
        ApplyMode::Apply
    }
}

/// An edit proposal is accepted only when it has content.
pub fn accept_proposal(content: &str) -> (r: bool)
    ensures
        r == (content@.len() > 0),
{
    !content.is_empty()
}

/// The name of the `n`-th exported patch, zero-padded to three digits.
pub open spec fn spec_patch_name(n: int) -> Seq<char> {
    (if n < 10 {
        "00"@ + spec_digits(n)
    } else if n < 100 {
        "0"@ + spec_digits(n)
    } else {
        spec_digits(n)
    }) + ".patch"@
}

/// Render the exported patch's file name.
pub fn patch_filename(counter: u64) -> (r: String)
    ensures
        r@ == spec_patch_name(counter as int),
{
    let digits = u64_string(counter);
    let mut s: String;
    if counter < 10 {
        s = "00".to_owned();
        s.append(digits.as_str());
    } else if counter < 100 {
        s = "0".to_owned();
        s.append(digits.as_str());
    } else {
        s = digits;
    }
    s.append(".patch");
    assert(s@ =~= spec_patch_name(counter as int));
    s
}

/// The write record appended to the agent log: epoch, a space, the path.
pub open spec fn spec_write_record(epoch: int, path: Seq<char>) -> Seq<char> {
    spec_digits(epoch) + " "@ + path
}

/// Render one write record.
pub fn write_record_line(epoch: u64, path: &str) -> (r: String)
    ensures
        r@ == spec_write_record(epoch as int, path@),
{
    let mut s = u64_string(epoch);
    s.append(" ");
    s.append(path);
    assert(s@ =~= spec_write_record(epoch as int, path@));
    s
}

/// One diagnostics line: the timestamp in brackets, then the message.
pub open spec fn spec_diagnostic_line(ts: Seq<char>, msg: Seq<char>) -> Seq<char> {
    "["@ + ts + "] "@ + msg
}

/// Render one diagnostics line.
pub fn diagnostic_line(ts: &str, msg: &str) -> (r: String)
    ensures
        r@ == spec_diagnostic_line(ts@, msg@),
{
    let mut s: String = "[".to_owned();
    s.append(ts);
    s.append("] ");
    s.append(msg);
    assert(s@ =~= spec_diagnostic_line(ts@, msg@));
    s
}

/// Where the most recent plan is persisted.
pub fn plan_json_path() -> (r: String)
    ensures
        r@ == ".agent/plan.json"@,
{
    ".agent/plan.json".to_owned()
}

/// Where the plan's readable form is persisted.
pub fn plan_md_path() -> (r: String)
    ensures
        r@ == ".agent/plan.md"@,
{
    ".agent/plan.md".to_owned()
}

/// Where the current goal is persisted.
pub fn goal_path() -> (r: String)
    ensures
        r@ == ".agent/goal.txt"@,
{
    ".agent/goal.txt".to_owned()
}

/// Where the last turn's summary is persisted.
pub fn state_json_path() -> (r: String)
    ensures
        r@ == ".agent/state.json"@,
{
    ".agent/state.json".to_owned()
}

/// Where the long-term memory is persisted.
pub fn memory_json_path() -> (r: String)
    ensures
        r@ == ".agent/memory.json"@,
{
    ".agent/memory.json".to_owned()
}

/// The per-tool session log file.
pub fn tool_log_path(tool: &str) -> (r: String)
    ensures
        r@ == ".agent/logs/"@ + tool@ + ".log"@,
{
    let mut s: String = ".agent/logs/".to_owned();
    s.append(tool);
    s.append(".log");
    assert(s@ =~= ".agent/logs/"@ + tool@ + ".log"@);
    s
}

/// The append-only write-record log.
pub fn agent_log_path() -> (r: String)
    ensures
        r@ == "agent.log"@,
{
    "agent.log".to_owned()
}

/// The diagnostics log.
pub fn diagnostics_log_path() -> (r: String)
    ensures
        r@ == "agent_diagnostics.log"@,
{
    "agent_diagnostics.log".to_owned()
}

/// The generated report.
pub fn report_md_path() -> (r: String)
    ensures
        r@ == "report.md"@,
{
    "report.md".to_owned()
}

} // verus!
