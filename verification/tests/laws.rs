use shellcraft::envfile::{parse_agent_env, read_agent_env, render_agent_env, upsert_agent_env};
use shellcraft::fsutil::{compact_index, merge_ignore_patterns, FileMeta};
use shellcraft::guard::{guard_check, GuardDecision};
use shellcraft::llm::strip_fences;
use shellcraft::memory::FactStore;
use shellcraft::paths::accept_rel_path;
use shellcraft::plan::{is_informational, Action, Plan};
use shellcraft::pty::append_tail;
use shellcraft::repl::{ReplEvent, ReplState, TurnMachine};
use shellcraft::runner::RunResult;
use shellcraft::scheduler::{commit_message, Scheduler};
use shellcraft::timeline::{Timeline, TimelineEntry};

fn entry(agent: &str, end_ms: u64) -> TimelineEntry {
    TimelineEntry {
        task: "t".to_string(),
        start_ms: 0,
        end_ms,
        duration_ms: end_ms,
        agent: agent.to_string(),
        llm_provider: "none".to_string(),
        tokens_used: 0,
        verdict: "success".to_string(),
    }
}

#[test]
fn planned_paths_stay_inside_the_root() {
    assert!(accept_rel_path("src/main.rs"));
    assert!(accept_rel_path("a/./b/../c"));
    assert!(accept_rel_path("a//b"));
    assert!(!accept_rel_path("../escape"));
    assert!(!accept_rel_path("a/../../escape"));
    assert!(!accept_rel_path("/etc/passwd"));
}

#[test]
fn accepted_fences_never_surround_content() {
    assert_eq!(strip_fences("```json\n{\"a\":1}\n```"), "{\"a\":1}");
    assert_eq!(strip_fences("```\nbody\n```"), "body");
    assert_eq!(strip_fences("  plain text  "), "plain text");
    assert_eq!(strip_fences("``````"), "");
    let r = strip_fences("```json\nfn main() {}\n```");
    assert!(!r.starts_with("```"));
    assert!(!r.ends_with("```"));
}

#[test]
fn log_tail_keeps_at_most_4096_bytes() {
    let raw: Vec<u8> = (0..6000u32).map(|i| (i % 251) as u8).collect();
    let r = RunResult::new(0, 10, &raw, "log".to_string(), "cmd".to_string(), false);
    assert_eq!(r.log_tail().len(), 4096);
    assert_eq!(r.log_tail().as_slice(), &raw[6000 - 4096..]);
    let small = RunResult::new(0, 10, b"abc", "log".to_string(), "cmd".to_string(), false);
    assert_eq!(small.log_tail().as_slice(), b"abc");
}

#[test]
fn append_tail_keeps_trailing_bytes() {
    let mut tail: Vec<u8> = Vec::new();
    append_tail(&mut tail, b"hello", 4);
    assert_eq!(tail, b"ello".to_vec());
    append_tail(&mut tail, b"x", 4);
    assert_eq!(tail, b"llox".to_vec());
}

#[test]
fn timeline_is_monotonic_in_recording_order() {
    let mut t = Timeline::new();
    t.record_timeline(entry("Planner", 5));
    t.record_timeline(entry("Executor", 5));
    t.record_timeline(entry("Executor", 9));
    assert_eq!(t.len(), 3);
    assert!(t.entries[0].end_ms <= t.entries[1].end_ms);
    assert!(t.entries[1].end_ms <= t.entries[2].end_ms);
}

#[test]
fn env_upsert_then_read_returns_every_pair() {
    let existing = vec![
        ("KEEP".to_string(), "old".to_string()),
        ("SHADOWED".to_string(), "before".to_string()),
    ];
    let updates = vec![
        ("SHADOWED".to_string(), "after".to_string()),
        ("NEW".to_string(), "fresh".to_string()),
    ];
    let merged = upsert_agent_env(existing, &updates);
    assert_eq!(read_agent_env(&merged, "SHADOWED"), Some("after".to_string()));
    assert_eq!(read_agent_env(&merged, "NEW"), Some("fresh".to_string()));
    assert_eq!(read_agent_env(&merged, "KEEP"), Some("old".to_string()));
    assert_eq!(read_agent_env(&merged, "ABSENT"), None);
}

#[test]
fn env_file_round_trip() {
    let pairs = vec![
        ("MODEL_ID".to_string(), "gpt-4o-mini".to_string()),
        ("DRY_RUN".to_string(), "1".to_string()),
    ];
    let text = render_agent_env(&pairs);
    assert_eq!(text, "MODEL_ID=gpt-4o-mini\nDRY_RUN=1\n");
    let parsed = parse_agent_env(&text);
    assert_eq!(parsed, pairs);
    let with_comment = parse_agent_env("# a comment\nA=1\n\nnot-a-pair\nB=x=y\n");
    assert_eq!(
        with_comment,
        vec![("A".to_string(), "1".to_string()), ("B".to_string(), "x=y".to_string())]
    );
}

#[test]
fn ignore_merge_is_idempotent() {
    let lines = vec!["target".to_string(), "# comment".to_string()];
    let pats = vec!["node_modules".to_string(), "target".to_string(), "dist".to_string()];
    let once = merge_ignore_patterns(lines.clone(), &pats);
    let twice = merge_ignore_patterns(once.clone(), &pats);
    assert_eq!(once, twice);
    assert_eq!(
        once,
        vec![
            "target".to_string(),
            "# comment".to_string(),
            "node_modules".to_string(),
            "dist".to_string()
        ]
    );
}

#[test]
fn recording_a_fact_twice_changes_nothing() {
    let mut store = FactStore::new();
    store.record_fact("the sky is blue".to_string(), "observation".to_string());
    assert_eq!(store.len(), 1);
    store.record_fact("the sky is blue".to_string(), "observation".to_string());
    assert_eq!(store.len(), 1);
    store.record_fact("the sky is blue".to_string(), "another source".to_string());
    assert_eq!(store.len(), 2);
}

#[test]
fn inventory_over_800_files_keeps_exactly_800_ranked_entries() {
    let mut files: Vec<FileMeta> = Vec::new();
    for i in 0..900u64 {
        let (ext, size) = if i % 3 == 0 {
            (Some("rs".to_string()), i * 10)
        } else if i % 3 == 1 {
            (Some("md".to_string()), i)
        } else {
            (Some("bin".to_string()), i)
        };
        files.push(FileMeta { path: format!("f{i}"), size, ext });
    }
    let compact = compact_index(files);
    assert_eq!(compact.len(), 800);
    // Highest extension weight first: all 300 source files lead.
    for f in compact.iter().take(300) {
        assert_eq!(f.ext.as_deref(), Some("rs"));
    }
    // Within equal weight, size buckets ascend.
    for w in compact.windows(2) {
        let weight = |m: &FileMeta| match m.ext.as_deref() {
            Some("rs") => 10,
            Some("md") => 8,
            _ => 1,
        };
        let (a, b) = (&w[0], &w[1]);
        assert!(
            weight(a) > weight(b) || (weight(a) == weight(b) && a.size / 4096 <= b.size / 4096)
        );
    }
}

#[test]
fn ranked_ties_break_by_size_bucket_ascending() {
    let files = vec![
        FileMeta { path: "big.rs".to_string(), size: 50_000, ext: Some("rs".to_string()) },
        FileMeta { path: "small.rs".to_string(), size: 10, ext: Some("rs".to_string()) },
        FileMeta { path: "notes.md".to_string(), size: 10, ext: Some("md".to_string()) },
    ];
    let compact = compact_index(files);
    assert_eq!(compact[0].path, "small.rs");
    assert_eq!(compact[1].path, "big.rs");
    assert_eq!(compact[2].path, "notes.md");
}

#[test]
fn empty_edit_and_actions_is_informational() {
    let plan = Plan {
        read: vec!["README.md".to_string()],
        edit: Vec::new(),
        delete: Vec::new(),
        actions: Vec::new(),
        notes: String::new(),
    };
    assert!(is_informational(&plan));
    let with_action = Plan {
        read: Vec::new(),
        edit: Vec::new(),
        delete: Vec::new(),
        actions: vec![Action::Run {
            program: "cargo".to_string(),
            args: vec!["build".to_string()],
            workdir: None,
            log_hint: None,
            retries: 1,
            backoff_ms: 1500,
        }],
        notes: String::new(),
    };
    assert!(!is_informational(&with_action));
}

#[test]
fn shutdown_signal_wins_in_every_state() {
    for event in [ReplEvent::Started, ReplEvent::InputReceived, ReplEvent::TurnSucceeded] {
        let mut m = TurnMachine::new();
        m.step(event);
        m.step(ReplEvent::ShutdownSignal);
        assert_eq!(m.state, ReplState::Shutdown);
    }
    let mut m = TurnMachine::new();
    m.step(ReplEvent::ShutdownSignal);
    assert_eq!(m.state, ReplState::Shutdown);
}

#[test]
fn failed_turns_retry_twice_then_give_up() {
    let mut m = TurnMachine::new();
    m.step(ReplEvent::Started);
    m.step(ReplEvent::InputReceived);
    assert_eq!(m.state, ReplState::Orchestrating);
    m.step(ReplEvent::TurnFailed);
    assert_eq!(m.state, ReplState::Orchestrating);
    m.step(ReplEvent::TurnFailed);
    assert_eq!(m.state, ReplState::Orchestrating);
    m.step(ReplEvent::TurnFailed);
    assert_eq!(m.state, ReplState::AwaitingInput);
}

#[test]
fn scheduler_releases_due_tasks_in_order() {
    let empty_plan = || Plan {
        read: Vec::new(),
        edit: Vec::new(),
        delete: Vec::new(),
        actions: Vec::new(),
        notes: String::new(),
    };
    let mut s = Scheduler::new();
    s.schedule(empty_plan(), 100, 50);
    s.schedule(empty_plan(), 100, 50);
    s.schedule(empty_plan(), 100, 900);
    assert_eq!(s.len(), 3);
    let due = s.execute_due(150);
    assert_eq!(due.len(), 2);
    assert!(due.iter().all(|t| t.execute_at_ms == 150));
    assert_eq!(s.len(), 1);
    let later = s.execute_due(2000);
    assert_eq!(later.len(), 1);
    assert_eq!(later[0].execute_at_ms, 1000);
    assert_eq!(commit_message(2, 1), "apply 2 edits, 1 actions");
}

#[test]
fn guard_denies_destructive_patterns() {
    assert_eq!(guard_check("rm -rf target", false), GuardDecision::DeniedPattern);
    assert_eq!(guard_check("sudo make install", true), GuardDecision::DeniedPattern);
    assert_eq!(guard_check("cargo build", false), GuardDecision::Allowed);
    assert_eq!(guard_check("unknown-tool --flag", true), GuardDecision::NeedsConfirmation);
    assert_eq!(guard_check("unknown-tool --flag", false), GuardDecision::DeniedNotAllowlisted);
    let msg = GuardDecision::DeniedPattern.describe();
    assert!(msg.contains("denied"));
}
