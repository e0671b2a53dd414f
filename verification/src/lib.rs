//! Core orchestration engine of an autonomous coding agent.
//!
//! The library turns a natural-language request into a structured plan,
//! validates and preflights that plan against the host's capabilities,
//! applies guardrails before any command runs, and drives bounded
//! self-healing retries. Everything here is verified; process spawning,
//! terminal handling and network calls live outside the library and hand
//! plain values in and out.

pub mod agents;
pub mod capabilities;
pub mod editor;
pub mod envfile;
pub mod fallback;
pub mod fsutil;
pub mod graph;
pub mod guard;
pub mod heal;
pub mod llm;
pub mod memory;
pub mod models;
pub mod orchestrator;
pub mod paths;
pub mod plan;
pub mod pty;
pub mod repl;
pub mod runner;
pub mod scheduler;
pub mod text;
pub mod timeline;
pub mod tools;

use vstd::prelude::*;

verus! {

} // verus!
