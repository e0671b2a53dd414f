//! The named agents of the system: the planner, which turns a request
//! into a plan, and the worker placeholder. Their LM conversations happen
//! outside the library.

use vstd::prelude::*;

verus! {

/// Every agent has a name for the timeline and the logs.
pub trait Agent {
    /// The agent's name.
    fn name(&self) -> &'static str;
}

/// The planner agent: chats with the user and produces a plan.
#[derive(Debug)]
pub struct PlannerAgent {
    pub model: String,
}

impl PlannerAgent {
    /// A planner bound to a model.
    pub fn new(model: String) -> (r: PlannerAgent)
        ensures
            r.model == model,
    {
        PlannerAgent { model }
    }
}

impl Agent for PlannerAgent {
    fn name(&self) -> &'static str {
        "planner"
    }
}

/// The worker agent placeholder.
#[derive(Debug)]
pub struct WorkerAgent {
    pub model: String,
    pub tools: bool,
}

impl WorkerAgent {
    /// A worker bound to a model, with or without tool access.
    pub fn new(model: String, tools: bool) -> (r: WorkerAgent)
        ensures
            r.model == model,
            r.tools == tools,
    {
        WorkerAgent { model, tools }
    }
}

impl Agent for WorkerAgent {
    fn name(&self) -> &'static str {
        "worker"
    }
}

} // verus!
