//! The in-process scheduler for self-improvement tasks: a queue of plans
//! with due times, first-in first-out within the same due time. The clock
//! and the execution of due plans live outside the library.

use vstd::prelude::*;

use crate::plan::Plan;
use crate::text::{spec_digits, u64_string};
use vstd::string::StringExecFns;

verus! {

/// One queued plan and when it becomes due.
#[derive(Debug)]
pub struct ScheduledTask {
    pub execute_at_ms: u64,
    pub plan: Plan,
}

/// The delayed-task queue, in insertion order.
#[derive(Debug)]
pub struct Scheduler {
    pub queue: Vec<ScheduledTask>,
}

/// The due tasks of a queue, in queue order.
pub open spec fn due_tasks(queue: Seq<ScheduledTask>, now_ms: u64) -> Seq<ScheduledTask>
    decreases queue.len(),
{
    if queue.len() == 0 {
        Seq::empty()
    } else {
        (if queue[0].execute_at_ms <= now_ms {
            seq![queue[0]]
        } else {
            Seq::empty()
        }) + due_tasks(queue.skip(1), now_ms)
    }
}

/// The tasks a queue keeps after the due ones leave, in queue order.
pub open spec fn pending_tasks(queue: Seq<ScheduledTask>, now_ms: u64) -> Seq<ScheduledTask>
    decreases queue.len(),
{
    if queue.len() == 0 {
        Seq::empty()
    } else {
        (if queue[0].execute_at_ms <= now_ms {
            Seq::empty()
        } else {
            seq![queue[0]]
        }) + pending_tasks(queue.skip(1), now_ms)
    }
}

impl Scheduler {
    /// An empty scheduler.
    pub fn new() -> (r: Scheduler)
        ensures
            r.queue@.len() == 0,
    {
        Scheduler { queue: Vec::new() }
    }

    /// Queue a plan to run `delay_ms` after `now_ms`; the due time
    /// saturates rather than wrapping.
    pub fn schedule(&mut self, plan: Plan, now_ms: u64, delay_ms: u64)
        ensures
            final(self).queue@.len() == old(self).queue@.len() + 1,
            forall|i: int|
                0 <= i < old(self).queue@.len() ==> final(self).queue@[i] == old(self).queue@[i],
            final(self).queue@.last().plan == plan,
            final(self).queue@.last().execute_at_ms == if now_ms + delay_ms <= u64::MAX {
                now_ms + delay_ms
            } else {
                u64::MAX as int
            },
    {
        let execute_at_ms = if now_ms <= u64::MAX - delay_ms {
            now_ms + delay_ms
        } else {
            u64::MAX
        };
        self.queue.push(ScheduledTask { execute_at_ms, plan });
    }

    /// How many tasks wait in the queue.
    pub fn len(&self) -> (r: usize)
        ensures
            r == self.queue@.len(),
    {
        self.queue.len()
    }

    /// Take every task whose due time has passed, in queue order; tasks
    /// not yet due stay queued in their order.
    pub fn execute_due(&mut self, now_ms: u64) -> (due: Vec<ScheduledTask>)
        ensures
            due@ == due_tasks(old(self).queue@, now_ms),
            final(self).queue@ == pending_tasks(old(self).queue@, now_ms),
    {
        let mut work: Vec<ScheduledTask> = Vec::new();
        core::mem::swap(&mut work, &mut self.queue);
        let ghost all = work@;
        let mut due: Vec<ScheduledTask> = Vec::new();
        let mut rest: Vec<ScheduledTask> = Vec::new();
        proof {
            assert(due@ + due_tasks(work@, now_ms) =~= due_tasks(all, now_ms));
            assert(rest@ + pending_tasks(work@, now_ms) =~= pending_tasks(all, now_ms));
        }
        while work.len() > 0
            invariant
                due_tasks(all, now_ms) == due@ + due_tasks(work@, now_ms),
                pending_tasks(all, now_ms) == rest@ + pending_tasks(work@, now_ms),
            decreases work@.len(),
        {
            let ghost before = work@;
            let t = work.remove(0);
            let ghost gt = t;
            proof {
                assert(work@ =~= before.skip(1));
                assert(before[0] == gt);
            }
            let ghost due_before = due@;
            let ghost rest_before = rest@;
            if t.execute_at_ms <= now_ms {
                due.push(t);
                proof {
                    assert(due@ =~= due_before.push(gt));
                    assert(due@ + due_tasks(work@, now_ms) =~= due_before + due_tasks(
                        before,
                        now_ms,
                    ));
                }
            } else {
                rest.push(t);
                proof {
                    assert(rest@ =~= rest_before.push(gt));
                    assert(rest@ + pending_tasks(work@, now_ms) =~= rest_before + pending_tasks(
                        before,
                        now_ms,
                    ));
                }
            }
        }
        proof {
            assert(due_tasks(work@, now_ms) =~= Seq::<ScheduledTask>::empty());
            assert(pending_tasks(work@, now_ms) =~= Seq::<ScheduledTask>::empty());
            assert(due@ =~= due@ + due_tasks(work@, now_ms));
            assert(rest@ =~= rest@ + pending_tasks(work@, now_ms));
        }
        self.queue = rest;
        due
    }
}

/// The commit message recorded for one executed scheduled plan, naming
/// how many edits and actions it carried.
pub fn commit_message(edits: u64, actions: u64) -> (r: String)
    ensures
        r@ == "apply "@ + spec_digits(edits as int) + " edits, "@ + spec_digits(actions as int)
            + " actions"@,
{
    let mut s: String = "apply ".to_owned();
    let e = u64_string(edits);
    s.append(e.as_str());
    s.append(" edits, ");
    let a = u64_string(actions);
    s.append(a.as_str());
    s.append(" actions");
    assert(s@ =~= "apply "@ + spec_digits(edits as int) + " edits, "@ + spec_digits(
        actions as int,
    ) + " actions"@);
    s
}

} // verus!
