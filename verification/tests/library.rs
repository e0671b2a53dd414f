use shellcraft::agents::{Agent, PlannerAgent, WorkerAgent};
use shellcraft::editor::{handle_ignore_command, parse_shebang, split_patterns,
    summarize_with_fallback, truthy, EditorError, SummarizerProvider};
use shellcraft::fallback::extract_path_tokens;
use shellcraft::graph::{ExecutorAgent, GraphError, Task, TaskGraph};
use shellcraft::heal::{pipeline_due, AutonomousRunner, FixerDecision, FixerError, FixerLoop};
use shellcraft::llm::{double_backoff, is_retryable_error, provider_from_str,
    simple_fallback_summary, should_retry_provider, ClientRegistry, ModelSelection, Provider,
    ProviderConfig, SessionMemory, TaskConfig, UsageBudget};
use shellcraft::models::{ModelInfo, ModelRegistry};
use shellcraft::plan::{cap_plan, default_backoff, default_retries, validate_plan_paths, Plan};
use shellcraft::pty::{build_command_line, shell_quote, PtyRunResult};
use shellcraft::repl::{classify_input, dashboard_move, dashboard_update, parse_command, DashKey,
    Intent, KeyInput, LineBuffer, ReplCommand, TaskItem, TaskStatus};
use shellcraft::runner::{admit_action, backoff_ms, CommandRunner};
use shellcraft::tools::{check_tool_args, get_tool, tool_invocation, ToolError};

#[test]
fn shell_quoting_is_exact() {
    assert_eq!(shell_quote(""), "''");
    assert_eq!(shell_quote("cargo"), "cargo");
    assert_eq!(shell_quote("a b"), "'a b'");
    assert_eq!(shell_quote("it's"), "'it'\"'\"'s'");
    let line = build_command_line(
        "cargo",
        &vec!["build".to_string(), "--message-format".to_string()],
        "/tmp/proj dir",
    );
    assert_eq!(line, "cd '/tmp/proj dir' && cargo build --message-format");
}

#[test]
fn pty_result_carries_its_parts() {
    let r = PtyRunResult::from_parts(1, false, "tail".to_string(), true, Some("err".to_string()));
    assert_eq!(r.exit_code, 1);
    assert!(!r.success);
    assert!(r.timed_out);
    assert_eq!(r.last_output, "tail");
    assert_eq!(r.error.as_deref(), Some("err"));
}

#[test]
fn runner_backoff_doubles_and_stops_at_the_budget() {
    assert_eq!(backoff_ms(500, 0), 500);
    assert_eq!(backoff_ms(500, 1), 1000);
    assert_eq!(backoff_ms(500, 3), 4000);
    let runner = CommandRunner::new(2, 500);
    assert_eq!(runner.next_attempt_delay(0), Some(500));
    assert_eq!(runner.next_attempt_delay(1), Some(1000));
    assert_eq!(runner.next_attempt_delay(2), None);
    assert!(admit_action(false, true));
    assert!(admit_action(true, false));
    assert!(!admit_action(false, false));
    assert_eq!(default_retries(), 1);
    assert_eq!(default_backoff(), 1500);
}

#[test]
fn task_graph_orders_dependencies_first() {
    let mut g = TaskGraph::new();
    g.add_task(Task::new("build".to_string(), "cargo_build".to_string(), vec![], vec![]));
    g.add_task(Task::new(
        "test".to_string(),
        "cargo_test".to_string(),
        vec![],
        vec!["build".to_string()],
    ));
    g.add_task(Task::new(
        "lint".to_string(),
        "clippy".to_string(),
        vec![],
        vec!["build".to_string()],
    ));
    assert!(g.validate().is_ok());
    let order = g.execution_order().unwrap();
    let pos = |id: &str| {
        g.tasks
            .iter()
            .position(|t| t.id == id)
            .map(|i| order.iter().position(|&o| o == i).unwrap())
            .unwrap()
    };
    assert!(pos("build") < pos("test"));
    assert!(pos("build") < pos("lint"));
}

#[test]
fn task_graph_rejects_cycles_and_unknown_dependencies() {
    let mut g = TaskGraph::new();
    g.add_task(Task::new("a".to_string(), "grep".to_string(), vec![], vec!["b".to_string()]));
    g.add_task(Task::new("b".to_string(), "grep".to_string(), vec![], vec!["a".to_string()]));
    assert!(matches!(g.validate(), Err(GraphError::Cycle)));
    let mut g2 = TaskGraph::new();
    g2.add_task(Task::new("a".to_string(), "grep".to_string(), vec![], vec!["ghost".to_string()]));
    assert!(matches!(g2.validate(), Err(GraphError::MissingDep { .. })));
}

#[test]
fn add_task_overwrites_same_identifier() {
    let mut g = TaskGraph::new();
    g.add_task(Task::new("a".to_string(), "grep".to_string(), vec![], vec![]));
    g.add_task(Task::new("a".to_string(), "ripgrep".to_string(), vec![], vec![]));
    assert_eq!(g.tasks.len(), 1);
    assert_eq!(g.tasks[0].tool, "ripgrep");
}

#[test]
fn executor_agent_caps_concurrency_at_one() {
    let agent = ExecutorAgent::new(CommandRunner::new(0, 0), 0);
    assert_eq!(agent.concurrency, 1);
    let agent4 = ExecutorAgent::new(CommandRunner::new(0, 0), 4);
    assert_eq!(agent4.concurrency, 4);
}

#[test]
fn tool_registry_maps_names_to_commands() {
    let t = get_tool("cargo_build").unwrap();
    assert_eq!(t.command, vec!["cargo".to_string(), "build".to_string()]);
    assert_eq!(t.markers, vec!["Cargo.toml".to_string()]);
    let p = get_tool("prettier").unwrap();
    assert_eq!(
        p.command,
        vec!["prettier".to_string(), "--write".to_string(), ".".to_string()]
    );
    assert!(get_tool("no_such_tool").is_none());
    assert!(check_tool_args(&t, &vec!["anything".to_string()]).is_ok());
    let argv = tool_invocation("grep", &vec!["grep".to_string(), "-r".to_string()]).unwrap();
    assert_eq!(argv, vec!["grep".to_string(), "-r".to_string()]);
    let argv2 = tool_invocation("npm_test", &vec![]).unwrap();
    assert_eq!(argv2, vec!["npm".to_string(), "test".to_string()]);
    assert!(matches!(tool_invocation("nope", &vec![]), Err(ToolError::NotFound)));
}

#[test]
fn fixer_loop_bounds_attempts() {
    assert!(matches!(FixerLoop::start(0), Err(FixerError::NoAttempts)));
    let mut f = FixerLoop::start(2).unwrap();
    assert_eq!(f.on_task_result(false), FixerDecision::Retry);
    assert_eq!(f.on_task_result(false), FixerDecision::GiveUp);
    let mut f2 = FixerLoop::start(2).unwrap();
    assert_eq!(f2.on_task_result(true), FixerDecision::Done);
}

#[test]
fn autonomous_runner_keeps_its_settings() {
    let r = AutonomousRunner::new(
        "plan".to_string(),
        "pipeline".to_string(),
        2000,
        CommandRunner::new(2, 500),
        3,
    );
    assert_eq!(r.planner_cmd, "plan");
    assert_eq!(r.pipeline_cmd, "pipeline");
    assert_eq!(r.poll_interval_ms, 2000);
    assert_eq!(r.max_heal_iters, 3);
    assert!(pipeline_due(false, false));
    assert!(pipeline_due(false, true));
    assert!(!pipeline_due(true, true));
}

#[test]
fn providers_parse_and_route() {
    assert_eq!(provider_from_str("OpenAI"), Some(Provider::OpenAI));
    assert_eq!(provider_from_str("GROQ"), Some(Provider::Groq));
    assert_eq!(provider_from_str("nobody"), None);
    assert_eq!(Provider::Anthropic.env_prefix(), "ANTHROPIC");
    let mut reg = ClientRegistry::new();
    reg.insert("openai", ProviderConfig {
        base_url: "https://api.openai.com/v1".to_string(),
        api_key: "k".to_string(),
        model_id: "gpt-4o-mini".to_string(),
    });
    reg.insert("groq", ProviderConfig {
        base_url: "https://api.groq.com/openai/v1".to_string(),
        api_key: "   ".to_string(),
        model_id: "llama".to_string(),
    });
    assert!(reg.get(Provider::OpenAI).is_some());
    assert!(reg.get(Provider::Groq).is_none());
    let task = TaskConfig {
        primary: "groq".to_string(),
        fallbacks: Some(vec!["openai".to_string(), "bogus".to_string()]),
    };
    let order = reg.ordered_for(Some(&task));
    assert_eq!(order, vec![Provider::OpenAI]);
    assert_eq!(reg.ordered_for(None), vec![]);
}

#[test]
fn provider_config_requires_an_api_key() {
    let cfg = ProviderConfig {
        base_url: "u".to_string(),
        api_key: " ".to_string(),
        model_id: "m".to_string(),
    };
    assert!(cfg.validate().is_err());
}

#[test]
fn retry_classification_and_backoff() {
    assert!(is_retryable_error("LLM error 429 (rate limited)"));
    assert!(is_retryable_error("401 unauthorized"));
    assert!(!is_retryable_error("connection refused"));
    assert!(should_retry_provider(1, true));
    assert!(!should_retry_provider(3, true));
    assert!(!should_retry_provider(1, false));
    assert_eq!(double_backoff(500), 1000);
}

#[test]
fn session_memory_keeps_the_last_ten() {
    let mut mem = SessionMemory::new();
    for i in 0..12 {
        mem.push_memory("user".to_string(), format!("message {i}"));
    }
    assert_eq!(mem.len(), 10);
    let text = mem.recent_memory_formatted();
    assert!(text.starts_with("\n--- Recent Session Memory ---\n"));
    assert!(text.contains("user: message 11"));
    assert!(!text.contains("message 0\n"));
    let empty = SessionMemory::new();
    assert_eq!(empty.recent_memory_formatted(), "");
}

#[test]
fn model_selection_prefers_the_environment() {
    let m = ModelSelection::new(Some("llama".to_string()));
    assert_eq!(m.current_model_id(), "llama");
    let blank = ModelSelection::new(Some("  ".to_string()));
    assert_eq!(blank.current_model_id(), "gpt-4o-mini");
    let mut s = ModelSelection::new(None);
    s.set_model_id("gpt-4.1");
    assert_eq!(s.current_model_id(), "gpt-4.1");
}

#[test]
fn budget_report_is_exact() {
    let mut b = UsageBudget::new();
    b.add_usage(3, 7);
    assert_eq!(b.budget_report(), "Tokens used: 3, Time spent: 7 ms");
    b.add_usage(u64::MAX, 0);
    assert_eq!(b.tokens, u64::MAX);
}

#[test]
fn fallback_summary_trims_and_truncates() {
    assert_eq!(simple_fallback_summary("  short  "), "short");
    let long = "x".repeat(300);
    let s = simple_fallback_summary(&long);
    assert_eq!(s.len(), 203);
    assert!(s.ends_with("..."));
}

#[test]
fn model_registry_lookup() {
    let reg = ModelRegistry::new(
        "gpt-4o-mini".to_string(),
        vec![ModelInfo {
            id: "m1".to_string(),
            provider: "openai".to_string(),
            api_key_env: "OPENAI_API_KEY".to_string(),
            tools: vec![],
            specialty: "code".to_string(),
        }],
    );
    assert!(reg.get("m1").is_some());
    assert!(reg.get("m2").is_none());
}

#[test]
fn plan_validation_and_caps() {
    let existing = vec!["src/main.rs".to_string(), "Cargo.toml".to_string()];
    let ok_plan = Plan {
        read: vec!["src/main.rs".to_string()],
        edit: Vec::new(),
        delete: vec!["Cargo.toml".to_string()],
        actions: Vec::new(),
        notes: String::new(),
    };
    assert!(validate_plan_paths(&ok_plan, &existing));
    let bad_plan = Plan {
        read: vec!["ghost.rs".to_string()],
        edit: Vec::new(),
        delete: Vec::new(),
        actions: Vec::new(),
        notes: String::new(),
    };
    assert!(!validate_plan_paths(&bad_plan, &existing));
    let mut big = Plan {
        read: (0..5).map(|i| format!("r{i}")).collect(),
        edit: Vec::new(),
        delete: Vec::new(),
        actions: Vec::new(),
        notes: String::new(),
    };
    for i in 0..4 {
        big.edit.push(shellcraft::plan::EditPlan {
            path: format!("e{i}"),
            intent: "x".to_string(),
        });
    }
    cap_plan(&mut big);
    assert_eq!(big.edit.len(), 4);
    assert_eq!(big.read.len(), 2);
    assert_eq!(big.read, vec!["r0".to_string(), "r1".to_string()]);
}

#[test]
fn intent_classification_matches_the_rules() {
    assert_eq!(classify_input("goal: add CI"), Intent::Goal);
    assert_eq!(classify_input("please RENAME the module"), Intent::SimpleChange);
    assert_eq!(classify_input("what does this do?"), Intent::Info);
    assert_eq!(parse_command("/help"), ReplCommand::Help);
    assert_eq!(parse_command("/exit"), ReplCommand::Quit);
    assert_eq!(parse_command("/unknown"), ReplCommand::Unknown);
}

#[test]
fn line_buffer_editing() {
    let mut buf = LineBuffer::new();
    for c in "hello world".chars() {
        buf.apply_key(KeyInput::Plain(c));
    }
    buf.apply_key(KeyInput::Backspace);
    assert_eq!(buf.contents(), "hello worl");
    buf.apply_key(KeyInput::CtrlW);
    assert_eq!(buf.contents(), "hello ");
    buf.apply_key(KeyInput::Paste("there".to_string()));
    assert_eq!(buf.contents(), "hello there");
    buf.apply_key(KeyInput::CtrlU);
    assert_eq!(buf.contents(), "");
}

#[test]
fn dashboard_keys_move_and_update() {
    let mut items = vec![
        TaskItem {
            id: 0,
            summary: "cargo build".to_string(),
            detail: "program: cargo".to_string(),
            status: TaskStatus::Pending,
            expanded: false,
        },
        TaskItem {
            id: 1,
            summary: "cargo test".to_string(),
            detail: "program: cargo".to_string(),
            status: TaskStatus::Pending,
            expanded: false,
        },
    ];
    let sel = dashboard_move(0, items.len(), DashKey::Down);
    assert_eq!(sel, 1);
    assert_eq!(dashboard_move(1, 2, DashKey::Down), 1);
    assert_eq!(dashboard_move(1, 2, DashKey::Up), 0);
    dashboard_update(&mut items, 1, DashKey::PauseResume);
    assert_eq!(items[1].status, TaskStatus::Paused);
    dashboard_update(&mut items, 1, DashKey::PauseResume);
    assert_eq!(items[1].status, TaskStatus::Running);
    dashboard_update(&mut items, 0, DashKey::Cancel);
    assert_eq!(items[0].status, TaskStatus::Cancelled);
    dashboard_update(&mut items, 0, DashKey::ToggleExpand);
    assert!(items[0].expanded);
}

#[test]
fn editor_helpers() {
    assert!(truthy("1"));
    assert!(truthy("TRUE"));
    assert!(truthy("yes"));
    assert!(!truthy("0"));
    let toks = parse_shebang("#!/usr/bin/env python3 -u").unwrap();
    assert_eq!(
        toks,
        vec!["/usr/bin/env".to_string(), "python3".to_string(), "-u".to_string()]
    );
    assert!(parse_shebang("fn main() {}").is_none());
    assert!(parse_shebang("#!   ").is_none());
    assert_eq!(
        split_patterns("  target  dist "),
        vec!["target".to_string(), "dist".to_string()]
    );
    let merged = handle_ignore_command("dist", vec!["target".to_string()], false).unwrap();
    assert_eq!(merged, vec!["target".to_string(), "dist".to_string()]);
    assert!(matches!(
        handle_ignore_command("   ", vec![], false),
        Err(EditorError::NoPatterns)
    ));
    let untouched = handle_ignore_command("dist", vec!["target".to_string()], true).unwrap();
    assert_eq!(untouched, vec!["target".to_string()]);
}

struct FailingSummarizer;

struct EchoSummarizer;

impl SummarizerProvider for FailingSummarizer {
    fn summarize(&self, _input: &str) -> Result<String, String> {
        Err("provider offline".to_string())
    }
}

impl SummarizerProvider for EchoSummarizer {
    fn summarize(&self, input: &str) -> Result<String, String> {
        Ok(input.to_string())
    }
}

#[test]
fn summarizer_falls_back_in_order() {
    let none: Vec<EchoSummarizer> = Vec::new();
    assert!(summarize_with_fallback("text", &none).is_err());
    let some = vec![EchoSummarizer];
    assert_eq!(summarize_with_fallback("text", &some).unwrap(), "text");
    let failing = vec![FailingSummarizer, FailingSummarizer];
    assert!(summarize_with_fallback("text", &failing).is_err());
}

#[test]
fn agents_have_names() {
    let p = PlannerAgent::new("gpt-4o-mini".to_string());
    assert_eq!(p.name(), "planner");
    assert_eq!(p.model, "gpt-4o-mini");
    let w = WorkerAgent::new("gpt-4o-mini".to_string(), true);
    assert_eq!(w.name(), "worker");
    assert!(w.tools);
}

#[test]
fn guidance_names_the_schema() {
    let g = shellcraft::plan::guidance();
    assert!(g.contains("Schema:"));
    assert!(g.contains("Return pure JSON, no markdown."));
}

#[test]
fn tool_listing_names_every_registered_tool() {
    let names = shellcraft::tools::list_tools();
    assert_eq!(names.len(), 17);
    for n in &names {
        assert!(get_tool(n).is_some());
    }
}

#[test]
fn recent_context_matches_the_formatted_memory() {
    let mut mem = SessionMemory::new();
    assert_eq!(shellcraft::llm::get_recent_context(&mem), "");
    mem.push_memory("user".to_string(), "hello".to_string());
    assert_eq!(
        shellcraft::llm::get_recent_context(&mem),
        "\n--- Recent Session Memory ---\nuser: hello\n"
    );
}

#[test]
fn path_tokens_are_extracted_in_order() {
    let toks = extract_path_tokens("edit src/a.rs and docs/readme.md please");
    assert_eq!(toks, vec!["src/a.rs".to_string(), "docs/readme.md".to_string()]);
    assert_eq!(extract_path_tokens("no files here"), Vec::<String>::new());
}
