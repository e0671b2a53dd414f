use shellcraft::capabilities::{can_run, choose_base_url, choose_model, system_preamble, Manifest,
    Providers, Tools};
use shellcraft::fallback::{fallback_plan, ProjectMarkers};
use shellcraft::fsutil::FileMeta;
use shellcraft::guard::{guard_check, DryRunLog, GuardDecision};
use shellcraft::heal::{heal_verdict, HealDecision, HealLoop};
use shellcraft::llm::propose_patch;
use shellcraft::orchestrator::{accept_proposal, choose_apply_mode, diagnostic_line, goal_path,
    patch_filename, plan_json_path, plan_md_path, report_md_path, select_context_files,
    tool_log_path, write_record_line, ApplyMode};
use shellcraft::plan::{is_informational, preflight_actions, Action, Plan};
use shellcraft::pty::{enforce_command_safety, SafetyVerdict};
use shellcraft::timeline::{report_row, report_rows, Timeline, TimelineEntry};

fn markers_cargo() -> ProjectMarkers {
    ProjectMarkers { cargo: true, npm: false, pytest: false, go: false, mvn: false }
}

fn all_tools(on: bool) -> Tools {
    Tools {
        fs: true,
        cargo: on,
        npm: false,
        bun: false,
        pnpm: false,
        yarn: false,
        pytest: false,
        go: false,
        mvn: false,
        git: false,
        github: false,
        rg: false,
        grep: false,
        prettier: false,
        eslint: false,
        rustfmt: false,
        clippy: false,
    }
}

fn manifest(cargo: bool) -> Manifest {
    Manifest {
        providers: Providers {
            openai: false,
            groq: false,
            local: false,
            anthropic: false,
            model: "gpt-4o-mini".to_string(),
            base_url: "https://api.openai.com/v1".to_string(),
        },
        tools: all_tools(cargo),
    }
}

#[test]
fn dry_run_build_of_empty_project() {
    // Root holds only Cargo.toml; input asks to build.
    let plan = fallback_plan("please build", markers_cargo());
    assert_eq!(plan.actions.len(), 1);
    match &plan.actions[0] {
        Action::Run { program, args, log_hint, .. } => {
            assert_eq!(program, "cargo");
            assert_eq!(args, &vec!["build".to_string()]);
            assert_eq!(log_hint.as_deref(), Some("build"));
        }
    }
    // With dry-run set, no subprocess is spawned; the intent is recorded.
    assert_eq!(choose_apply_mode(true, false), ApplyMode::DryRun);
    let mut log = DryRunLog::new();
    log.set_dry_run(true);
    log.add_dry_run_report("would run cargo build".to_string());
    assert_eq!(log.get_dry_run_report(), vec!["would run cargo build".to_string()]);
    // The timeline records the planner and the executor's dry-run verdict.
    let mut t = Timeline::new();
    t.record_timeline(row("Planner", "planned", 1));
    t.record_timeline(row("Executor", "dry-run", 2));
    assert_eq!(t.entries[1].verdict, "dry-run");
}

fn row(agent: &str, verdict: &str, end: u64) -> TimelineEntry {
    TimelineEntry {
        task: "t".to_string(),
        start_ms: 0,
        end_ms: end,
        duration_ms: end,
        agent: agent.to_string(),
        llm_provider: "none".to_string(),
        tokens_used: 0,
        verdict: verdict.to_string(),
    }
}

#[test]
fn new_file_edit_exports_a_numbered_patch() {
    let plan = fallback_plan(
        "create src/hello.rs with a main that prints Hi",
        markers_cargo(),
    );
    // "create ... with" mentions no editing verb list entry except none;
    // the filename token is still extracted for reading.
    assert!(plan.read.iter().any(|p| p == "src/hello.rs"));
    // The LM's returned body is accepted only when non-empty, and a fence
    // is stripped defensively.
    let body = shellcraft::llm::strip_fences("```rust\nfn main() { println!(\"Hi\"); }\n```");
    assert!(accept_proposal(&body));
    assert!(!body.starts_with("```"));
    // With export-patch on, the file goes to the patch directory under a
    // counter name; the target file itself is not written.
    assert_eq!(choose_apply_mode(false, true), ApplyMode::ExportPatch);
    assert_eq!(patch_filename(1), "001.patch");
    assert_eq!(patch_filename(42), "042.patch");
    assert_eq!(patch_filename(120), "120.patch");
}

#[test]
fn guardrail_blocks_rm_rf() {
    let decision = guard_check("rm -rf target", false);
    assert_eq!(decision, GuardDecision::DeniedPattern);
    let line = diagnostic_line("2026-01-01T00:00:00Z", &decision.describe());
    assert!(line.contains("denied"));
    let v = enforce_command_safety(
        "/bin/rm",
        &vec!["-rf".to_string(), "target".to_string()],
        false,
    );
    assert_eq!(v, SafetyVerdict::BlockedDestructive);
}

#[test]
fn self_heal_succeeds_after_one_attempt() {
    let mut heal = HealLoop::new(3);
    // First run of `cargo build` fails with a missing-trait error.
    let d = heal.on_run_result(false);
    assert_eq!(d, HealDecision::Heal { attempt: 1 });
    // The LM proposes a minimal patch from the log tail and the diff.
    let patch = propose_patch("error[E0277]: the trait bound ...", "--- a/src/lib.rs\n+++ b/src/lib.rs\n").unwrap();
    assert!(patch.contains("src/lib.rs"));
    // The patch applies and the re-run succeeds.
    let d2 = heal.on_run_result(true);
    assert_eq!(d2, HealDecision::Succeeded);
    assert_eq!(heal.attempts_used(), 1);
    assert_eq!(heal_verdict(true), "success");
}

#[test]
fn heal_exhausts_after_the_budget() {
    let mut heal = HealLoop::new(2);
    assert_eq!(heal.on_run_result(false), HealDecision::Heal { attempt: 1 });
    assert_eq!(heal.on_run_result(false), HealDecision::Heal { attempt: 2 });
    assert_eq!(heal.on_run_result(false), HealDecision::Exhausted);
    assert_eq!(heal_verdict(false), "failure");
}

#[test]
fn informational_request_summarizes_capped_context() {
    let plan = fallback_plan("what does this project do?", ProjectMarkers {
        cargo: false,
        npm: false,
        pytest: false,
        go: false,
        mvn: false,
    });
    assert!(is_informational(&plan));
    // The summarizer receives at most 8 files, each at most 20 KiB, and
    // at most 80 KiB in total.
    let mut files: Vec<FileMeta> = Vec::new();
    for i in 0..12u64 {
        files.push(FileMeta { path: format!("f{i}"), size: 15_000, ext: None });
    }
    files.push(FileMeta { path: "huge".to_string(), size: 50_000, ext: None });
    let picked = select_context_files(files);
    assert!(picked.len() <= 8);
    assert!(picked.iter().all(|f| f.size <= 20_480));
    let total: u64 = picked.iter().map(|f| f.size).sum();
    assert!(total <= 81_920);
    assert_eq!(picked.len(), 5);
}

#[test]
fn goal_persistence_layout_and_report() {
    assert_eq!(goal_path(), ".agent/goal.txt");
    assert_eq!(plan_json_path(), ".agent/plan.json");
    assert_eq!(plan_md_path(), ".agent/plan.md");
    assert_eq!(report_md_path(), "report.md");
    assert_eq!(tool_log_path("cargo"), ".agent/logs/cargo.log");
    assert_eq!(write_record_line(1700000000, "/tmp/x.rs"), "1700000000 /tmp/x.rs");
    let mut t = Timeline::new();
    t.record_timeline(row("Planner", "planned", 1));
    let rows = report_rows(&t);
    assert_eq!(rows.len(), 1);
    assert!(rows[0].contains("Planner"));
    assert_eq!(report_row(&t.entries[0]), "| Planner | none | planned |");
}

#[test]
fn preflight_drops_unavailable_actions_with_a_note() {
    let m = manifest(true);
    let (ok, why) = can_run(&m, "cargo");
    assert!(ok);
    assert!(why.is_none());
    let (ok2, why2) = can_run(&m, "npm");
    assert!(!ok2);
    assert_eq!(why2.as_deref(), Some("binary `npm` not on PATH"));
    let mut plan = Plan {
        read: Vec::new(),
        edit: Vec::new(),
        delete: Vec::new(),
        actions: vec![
            Action::Run {
                program: "cargo".to_string(),
                args: vec!["build".to_string()],
                workdir: None,
                log_hint: Some("build".to_string()),
                retries: 1,
                backoff_ms: 1500,
            },
            Action::Run {
                program: "npm".to_string(),
                args: vec!["test".to_string()],
                workdir: None,
                log_hint: Some("test".to_string()),
                retries: 1,
                backoff_ms: 1500,
            },
        ],
        notes: String::new(),
    };
    preflight_actions(&m, &mut plan);
    assert_eq!(plan.actions.len(), 1);
    match &plan.actions[0] {
        Action::Run { program, .. } => assert_eq!(program, "cargo"),
    }
    assert_eq!(
        plan.notes,
        "Preflight removed actions not supported in this environment:\n- drop action `npm`: binary `npm` not on PATH"
    );
}

#[test]
fn preamble_lists_enabled_tools_and_the_provider() {
    let m = manifest(true);
    let p = system_preamble(&m);
    assert!(p.contains("- cargo"));
    assert!(!p.contains("- npm"));
    assert!(p.contains("base_url = https://api.openai.com/v1"));
    assert!(p.contains("model = gpt-4o-mini"));
    assert_eq!(
        choose_base_url(None, None, true),
        "https://api.groq.com/openai/v1"
    );
    assert_eq!(
        choose_base_url(Some("http://localhost:1234/v1".to_string()), None, true),
        "http://localhost:1234/v1"
    );
    assert_eq!(choose_model(None, false), "gpt-4o-mini");
    assert_eq!(choose_model(None, true), "llama-3.3-70b-versatile");
}
