//! The task graph the executor works through: units of work with
//! dependencies, checked for unknown dependencies and cycles, and ordered
//! so that every task comes after everything it depends on. Running the
//! ordered tasks (subprocesses, threads) happens outside the library.

use vstd::prelude::*;

use crate::text::str_eq;
use crate::runner::CommandRunner;

verus! {

/// One unit of work: a registered tool or raw command with its arguments,
/// and the tasks that must complete first.
#[derive(Debug)]
pub struct Task {
    pub id: String,
    pub tool: String,
    pub args: Vec<String>,
    pub deps: Vec<String>,
}

impl Task {
    /// A task from its parts.
    pub fn new(id: String, tool: String, args: Vec<String>, deps: Vec<String>) -> (r: Task)
        ensures
            r.id == id,
            r.tool == tool,
            r.args == args,
            r.deps == deps,
    {
        Task { id, tool, args, deps }
    }
}

/// Some task carries this identifier.
pub open spec fn has_id(tasks: Seq<Task>, id: Seq<char>) -> bool {
    exists|j: int| 0 <= j < tasks.len() && tasks[j].id@ == id
}

/// No two tasks share an identifier.
pub open spec fn unique_ids(tasks: Seq<Task>) -> bool {
    forall|i: int, j: int| 0 <= i < j < tasks.len() ==> tasks[i].id@ != tasks[j].id@
}

/// Every dependency of every task names a task of the graph.
pub open spec fn deps_exist(tasks: Seq<Task>) -> bool {
    forall|i: int, d: int|
        0 <= i < tasks.len() && 0 <= d < tasks[i].deps.len() ==> has_id(
            tasks,
            #[trigger] tasks[i].deps@[d]@,
        )
}

/// Index `k` appears somewhere in the order.
pub open spec fn in_order(order: Seq<usize>, k: int) -> bool {
    exists|p: int| 0 <= p < order.len() && order[p] as int == k
}

/// No index appears twice.
pub open spec fn order_distinct(order: Seq<usize>) -> bool {
    forall|p: int, q: int| 0 <= p < q < order.len() ==> order[p] != order[q]
}

/// Every listed index is an index of the task list.
pub open spec fn order_in_range(order: Seq<usize>, n: int) -> bool {
    forall|p: int| 0 <= p < order.len() ==> (#[trigger] order[p] as int) < n
}

/// Some entry before position `p` carries the `d`-th dependency of the
/// task at position `p`.
pub open spec fn dep_earlier(tasks: Seq<Task>, order: Seq<usize>, p: int, d: int) -> bool {
    exists|q: int|
        0 <= q < p && tasks[order[q] as int].id@ == tasks[order[p] as int].deps@[d]@
}

/// Every task's dependencies appear earlier in the order than the task.
pub open spec fn order_respects_deps(tasks: Seq<Task>, order: Seq<usize>) -> bool {
    forall|p: int, d: int|
        0 <= p < order.len() && 0 <= d < tasks[order[p] as int].deps.len()
            ==> #[trigger] dep_earlier(tasks, order, p, d)
}

/// `order` is a topological order of the tasks: each index exactly once,
/// dependencies first.
pub open spec fn is_topo_order(tasks: Seq<Task>, order: Seq<usize>) -> bool {
    &&& order.len() == tasks.len()
    &&& order_in_range(order, tasks.len() as int)
    &&& order_distinct(order)
    &&& order_respects_deps(tasks, order)
}

/// A task named `dep` is marked done.
pub open spec fn dep_done(tasks: Seq<Task>, done: Seq<bool>, dep: Seq<char>) -> bool {
    exists|j: int| 0 <= j < tasks.len() && tasks[j].id@ == dep && done[j]
}

/// The done flags mark exactly the ordered indices.
pub open spec fn done_matches(done: Seq<bool>, order: Seq<usize>) -> bool {
    forall|k: int| 0 <= k < done.len() ==> (#[trigger] done[k] <==> in_order(order, k))
}

/// Every dependency of task `k` is satisfied by a done task.
pub open spec fn ready_spec(tasks: Seq<Task>, done: Seq<bool>, k: int) -> bool {
    forall|d: int|
        0 <= d < tasks[k].deps.len() ==> dep_done(tasks, done, #[trigger] tasks[k].deps@[d]@)
}

/// The position of the first undone entry of the order, at or before a
/// known undone position.
proof fn lemma_min_undone_pos(done: Seq<bool>, ord: Seq<usize>, p: int) -> (r: int)
    requires
        0 <= p < ord.len(),
        forall|q: int| 0 <= q < ord.len() ==> 0 <= #[trigger] ord[q] < done.len(),
        !done[ord[p] as int],
    ensures
        0 <= r <= p,
        !done[ord[r] as int],
        forall|q: int| 0 <= q < r ==> done[#[trigger] ord[q] as int],
    decreases p,
{
    if forall|q: int| 0 <= q < p ==> done[#[trigger] ord[q] as int] {
        p
    } else {
        let q = choose|q: int| 0 <= q < p && !done[ord[q] as int];
        lemma_min_undone_pos(done, ord, q)
    }
}

/// A topological order lists every task index.
proof fn lemma_topo_covers(ord: Seq<usize>, n: int, k: int)
    requires
        ord.len() == n,
        order_distinct(ord),
        order_in_range(ord, n),
        0 <= k < n,
    ensures
        in_order(ord, k),
{
    if !in_order(ord, k) {
        let mapped = ord.map_values(|u: usize| u as int);
        assert(mapped.no_duplicates()) by {
            assert(forall|p: int, q: int|
                0 <= p < q < ord.len() ==> ord[p] != ord[q]);
        }
        mapped.unique_seq_to_set();
        let rng = vstd::set_lib::set_int_range(0, n);
        vstd::set_lib::lemma_int_range(0, n);
        assert(mapped.to_set().subset_of(rng)) by {
            assert forall|x: int| mapped.to_set().contains(x) implies rng.contains(x) by {
                let q = choose|q: int| 0 <= q < mapped.len() && mapped[q] == x;
                assert(0 <= (ord[q] as int) && (ord[q] as int) < n);
            }
        }
        assert(!mapped.to_set().contains(k)) by {
            if mapped.to_set().contains(k) {
                let q = choose|q: int| 0 <= q < mapped.len() && mapped[q] == k;
                assert(ord[q] as int == k);
                assert(in_order(ord, k));
            }
        }
        assert(rng.contains(k));
        mapped.to_set().lemma_subset_not_in_lt(rng, k);
        assert(false);
    }
}

/// When the scheduler is stuck — some task is undone and every undone
/// task waits on a dependency no done task carries — no topological order
/// exists.
proof fn lemma_stuck_no_topo(tasks: Seq<Task>, done: Seq<bool>, ord: Seq<usize>)
    requires
        done.len() == tasks.len(),
        deps_exist(tasks),
        exists|k: int| 0 <= k < done.len() && !done[k],
        forall|k: int|
            0 <= k < tasks.len() && !done[k] ==> exists|d: int|
                0 <= d < tasks[k].deps.len() && !dep_done(
                    tasks,
                    done,
                    #[trigger] tasks[k].deps@[d]@,
                ),
    ensures
        !is_topo_order(tasks, ord),
{
    if is_topo_order(tasks, ord) {
        let n = tasks.len() as int;
        let k0 = choose|k: int| 0 <= k < done.len() && !done[k];
        lemma_topo_covers(ord, n, k0);
        let p0 = choose|p: int| 0 <= p < ord.len() && ord[p] as int == k0;
        let pmin = lemma_min_undone_pos(done, ord, p0);
        let kmin = ord[pmin] as int;
        assert(!done[kmin]);
        let d = choose|d: int|
            0 <= d < tasks[kmin].deps.len() && !dep_done(tasks, done, tasks[kmin].deps@[d]@);
        let dep = tasks[kmin].deps@[d]@;
        assert(dep_earlier(tasks, ord, pmin, d));
        let q = choose|q: int| 0 <= q < pmin && tasks[ord[q] as int].id@ == dep;
        assert(done[ord[q] as int]);
        assert(dep_done(tasks, done, dep)) by {
            assert(0 <= (ord[q] as int) && (ord[q] as int) < tasks.len() && tasks[ord[
                q] as int].id@ == dep && done[ord[q] as int]);
        }
        assert(!dep_done(tasks, done, dep));
    }
}

/// How many flags are set.
pub open spec fn count_true(s: Seq<bool>) -> int
    decreases s.len(),
{
    if s.len() == 0 {
        0
    } else {
        (if s[0] {
            1int
        } else {
            0int
        }) + count_true(s.skip(1))
    }
}

/// The count of set flags is bounded by the length.
pub proof fn lemma_count_true_le(s: Seq<bool>)
    ensures
        0 <= count_true(s) <= s.len(),
    decreases s.len(),
{
    if s.len() > 0 {
        lemma_count_true_le(s.skip(1));
    }
}

/// Setting one clear flag raises the count by one.
pub proof fn lemma_count_true_update(s: Seq<bool>, i: int)
    requires
        0 <= i < s.len(),
        !s[i],
    ensures
        count_true(s.update(i, true)) == count_true(s) + 1,
    decreases s.len(),
{
    let t = s.update(i, true);
    if i == 0 {
        assert(t[0]);
        assert(t.skip(1) =~= s.skip(1));
    } else {
        assert(t[0] == s[0]);
        assert(t.skip(1) =~= s.skip(1).update(i - 1, true));
        lemma_count_true_update(s.skip(1), i - 1);
    }
}

/// Why a task graph is rejected.
#[derive(Debug)]
pub enum GraphError {
    /// A task depends on an identifier no task carries.
    MissingDep { task: String, dep: String },
    /// The dependencies cannot be ordered: they close a cycle.
    Cycle,
}

/// A directed graph of tasks. Acyclicity is not enforced on insertion;
/// `validate` checks it before execution.
#[derive(Debug)]
pub struct TaskGraph {
    pub tasks: Vec<Task>,
}

/// The index of the task carrying `id`, if any.
fn find_task(tasks: &Vec<Task>, id: &str) -> (r: Option<usize>)
    ensures
        r matches Some(i) ==> i < tasks@.len() && tasks@[i as int].id@ == id@,
        r is None ==> !has_id(tasks@, id@),
{
    let n = tasks.len();
    let mut i: usize = 0;
    while i < n
        invariant
            n == tasks@.len(),
            i <= n,
            forall|k: int| 0 <= k < i ==> tasks@[k].id@ != id@,
        decreases n - i,
    {
        if str_eq(tasks[i].id.as_str(), id) {
            return Some(i);
        }
        i += 1;
    }
    None
}

/// Whether every dependency of task `i` is satisfied by a done task.
fn deps_ready(tasks: &Vec<Task>, done: &Vec<bool>, i: usize) -> (r: bool)
    requires
        i < tasks@.len(),
        done@.len() == tasks@.len(),
        unique_ids(tasks@),
    ensures
        r ==> forall|d: int|
            0 <= d < tasks@[i as int].deps.len() ==> dep_done(
                tasks@,
                done@,
                #[trigger] tasks@[i as int].deps@[d]@,
            ),
        !r ==> exists|d: int|
            0 <= d < tasks@[i as int].deps.len() && !dep_done(
                tasks@,
                done@,
                #[trigger] tasks@[i as int].deps@[d]@,
            ),
{
    let nd = tasks[i].deps.len();
    let mut d: usize = 0;
    while d < nd
        invariant
            i < tasks@.len(),
            done@.len() == tasks@.len(),
            unique_ids(tasks@),
            nd == tasks@[i as int].deps.len(),
            d <= nd,
            forall|t: int|
                0 <= t < d ==> dep_done(tasks@, done@, #[trigger] tasks@[i as int].deps@[t]@),
        decreases nd - d,
    {
        match find_task(tasks, tasks[i].deps[d].as_str()) {
            Some(j) => {
                if !done[j] {
                    proof {
                        let dep = tasks@[i as int].deps@[d as int]@;
                        assert(!dep_done(tasks@, done@, dep)) by {
                            if dep_done(tasks@, done@, dep) {
                                let j2 = choose|j2: int|
                                    0 <= j2 < tasks@.len() && tasks@[j2].id@ == dep && done@[j2];
                                if j2 < j as int {
                                    assert(tasks@[j2].id@ != tasks@[j as int].id@);
                                } else if j2 > j as int {
                                    assert(tasks@[j as int].id@ != tasks@[j2].id@);
                                }
                            }
                        }
                    }
                    return false;
                }
                assert(dep_done(tasks@, done@, tasks@[i as int].deps@[d as int]@)) by {
                    assert(tasks@[j as int].id@ == tasks@[i as int].deps@[d as int]@
                        && done@[j as int]);
                }
            },
            None => {
                proof {
                    let dep = tasks@[i as int].deps@[d as int]@;
                    assert(!dep_done(tasks@, done@, dep)) by {
                        if dep_done(tasks@, done@, dep) {
                            let j2 = choose|j2: int|
                                0 <= j2 < tasks@.len() && tasks@[j2].id@ == dep && done@[j2];
                            assert(has_id(tasks@, dep));
                        }
                    }
                }
                return false;
            },
        }
        d += 1;
    }
    true
}

/// Copy a string value.
fn clone_string(s: &String) -> (r: String)
    ensures
        r@ == s@,
{
    s.clone()
}

impl TaskGraph {
    /// An empty graph.
    pub fn new() -> (r: TaskGraph)
        ensures
            r.tasks@.len() == 0,
            unique_ids(r.tasks@),
    {
        TaskGraph { tasks: Vec::new() }
    }

    /// Insert a task, replacing any task that already carries its
    /// identifier.
    pub fn add_task(&mut self, task: Task)
        requires
            unique_ids(old(self).tasks@),
        ensures
            unique_ids(final(self).tasks@),
            has_id(old(self).tasks@, task.id@) ==> exists|i: int|
                0 <= i < old(self).tasks@.len() && old(self).tasks@[i].id@ == task.id@
                    && final(self).tasks@ == old(self).tasks@.update(i, task),
            !has_id(old(self).tasks@, task.id@) ==> final(self).tasks@ == old(self).tasks@.push(
                task,
            ),
            has_id(final(self).tasks@, task.id@),
    {
        let found = find_task(&self.tasks, task.id.as_str());
        match found {
            Some(i) => {
                let ghost before = self.tasks@;
                let ghost gid = task.id@;
                self.tasks[i] = task;
                proof {
                    assert(self.tasks@ =~= before.update(i as int, self.tasks@[i as int]));
                    assert(self.tasks@[i as int].id@ == gid);
                }
            },
            None => {
                self.tasks.push(task);
                proof {
                    assert(self.tasks@.last().id@ == self.tasks@[self.tasks@.len() - 1].id@);
                }
            },
        }
    }

    /// Order the tasks so that every task follows all its dependencies.
    /// An order is produced exactly when it exists; a missing dependency
    /// is always reported as such.
    pub fn execution_order(&self) -> (r: Result<Vec<usize>, GraphError>)
        requires
            unique_ids(self.tasks@),
        ensures
            r matches Ok(order) ==> {
                &&& deps_exist(self.tasks@)
                &&& is_topo_order(self.tasks@, order@)
            },
            !deps_exist(self.tasks@) ==> (r matches Err(e) && e is MissingDep),
            r matches Err(e) && e is MissingDep ==> !deps_exist(self.tasks@),
            r matches Err(e) && e is Cycle ==> !(exists|order: Seq<usize>|
                is_topo_order(self.tasks@, order)),
    {
        let n = self.tasks.len();
        let mut i: usize = 0;
        while i < n
            invariant
                n == self.tasks@.len(),
                i <= n,
                forall|k: int, d: int|
                    0 <= k < i && 0 <= d < self.tasks@[k].deps.len() ==> has_id(
                        self.tasks@,
                        #[trigger] self.tasks@[k].deps@[d]@,
                    ),
            decreases n - i,
        {
            let nd = self.tasks[i].deps.len();
            let mut d: usize = 0;
            while d < nd
                invariant
                    n == self.tasks@.len(),
                    i < n,
                    nd == self.tasks@[i as int].deps.len(),
                    d <= nd,
                    forall|t: int|
                        0 <= t < d ==> has_id(
                            self.tasks@,
                            #[trigger] self.tasks@[i as int].deps@[t]@,
                        ),
                decreases nd - d,
            {
                match find_task(&self.tasks, self.tasks[i].deps[d].as_str()) {
                    Some(_) => {
                        assert(has_id(self.tasks@, self.tasks@[i as int].deps@[d as int]@));
                    },
                    None => {
                        return Err(GraphError::MissingDep {
                            task: clone_string(&self.tasks[i].id),
                            dep: clone_string(&self.tasks[i].deps[d]),
                        });
                    },
                }
                d += 1;
            }
            i += 1;
        }
        assert(deps_exist(self.tasks@));
        let mut done: Vec<bool> = Vec::new();
        let mut j: usize = 0;
        while j < n
            invariant
                j <= n,
                done@.len() == j,
                forall|k: int| 0 <= k < j ==> !(#[trigger] done@[k]),
            decreases n - j,
        {
            done.push(false);
            j += 1;
        }
        let mut order: Vec<usize> = Vec::new();
        proof {
            assert(count_true(done@) == 0) by {
                lemma_count_all_false(done@);
            }
            assert(done_matches(done@, order@));
            assert(order_respects_deps(self.tasks@, order@));
        }
        let mut progress = true;
        while progress
            invariant
                n == self.tasks@.len(),
                done@.len() == n,
                deps_exist(self.tasks@),
                unique_ids(self.tasks@),
                order@.len() == count_true(done@),
                order@.len() <= n,
                order_distinct(order@),
                order_in_range(order@, n as int),
                done_matches(done@, order@),
                order_respects_deps(self.tasks@, order@),
                !progress ==> forall|k: int|
                    0 <= k < n ==> (done@[k] || !ready_spec(self.tasks@, done@, k)),
            decreases n - order@.len(), (if progress {
                1int
            } else {
                0int
            }),
        {
            progress = false;
            let ghost pass_start = order@.len();
            let mut i: usize = 0;
            while i < n
                invariant
                    n == self.tasks@.len(),
                    done@.len() == n,
                    deps_exist(self.tasks@),
                    unique_ids(self.tasks@),
                    order@.len() == count_true(done@),
                    order@.len() <= n,
                    pass_start <= order@.len(),
                    progress ==> order@.len() > pass_start,
                    !progress ==> order@.len() == pass_start,
                    i <= n,
                    order_distinct(order@),
                    order_in_range(order@, n as int),
                    done_matches(done@, order@),
                    order_respects_deps(self.tasks@, order@),
                    !progress ==> forall|k: int|
                        0 <= k < i ==> (done@[k] || !ready_spec(self.tasks@, done@, k)),
                decreases n - i,
            {
                if !done[i] {
                    let ready = deps_ready(&self.tasks, &done, i);
                    if !ready {
                        proof {
                            assert(!ready_spec(self.tasks@, done@, i as int));
                        }
                    }
                    if ready {
                        let ghost before_order = order@;
                        let ghost before_done = done@;
                        done[i] = true;
                        order.push(i);
                        progress = true;
                        proof {
                            lemma_count_true_update(before_done, i as int);
                            lemma_count_true_le(done@);
                            assert(!in_order(before_order, i as int));
                            assert(order_distinct(order@)) by {
                                assert forall|p: int, q: int|
                                    0 <= p < q < order@.len() implies order@[p] != order@[q] by {
                                    if q == order@.len() - 1 {
                                        assert(order@[q] == i as usize);
                                        assert(order@[p] == before_order[p]);
                                        if order@[p] == i as usize {
                                            assert(in_order(before_order, i as int));
                                        }
                                    } else {
                                        assert(order@[p] == before_order[p]);
                                        assert(order@[q] == before_order[q]);
                                    }
                                }
                            }
                            assert(done_matches(done@, order@)) by {
                                assert forall|k: int|
                                    0 <= k < done@.len() implies (#[trigger] done@[k] <==> in_order(
                                    order@,
                                    k,
                                )) by {
                                    if k == i {
                                        assert(done@[k]);
                                        assert(order@[order@.len() - 1] as int == k);
                                    } else {
                                        assert(done@[k] == before_done[k]);
                                        if before_done[k] {
                                            let p = choose|p: int|
                                                0 <= p < before_order.len() && before_order[p]
                                                    as int == k;
                                            assert(order@[p] as int == k);
                                        } else {
                                            assert forall|p: int|
                                                0 <= p < order@.len() implies order@[p] as int
                                                != k by {
                                                if p < before_order.len() {
                                                    assert(order@[p] == before_order[p]);
                                                    assert(!in_order(before_order, k));
                                                } else {
                                                    assert(order@[p] == i as usize);
                                                }
                                            }
                                        }
                                    }
                                }
                            }
                            assert(order_respects_deps(self.tasks@, order@)) by {
                                assert forall|p: int, d: int|
                                    0 <= p < order@.len() && 0 <= d < self.tasks@[
                                    order@[p] as int].deps.len() implies #[trigger] dep_earlier(
                                    self.tasks@,
                                    order@,
                                    p,
                                    d,
                                ) by {
                                    if p < order@.len() - 1 {
                                        assert(order@[p] == before_order[p]);
                                        assert(dep_earlier(self.tasks@, before_order, p, d));
                                        let q = choose|q: int|
                                            0 <= q < p && self.tasks@[
                                                before_order[q] as int].id@ == self.tasks@[
                                                before_order[p] as int].deps@[d]@;
                                        assert(order@[q] == before_order[q]);
                                        assert(dep_earlier(self.tasks@, order@, p, d));
                                    } else {
                                        assert(order@[p] == i as usize);
                                        let dep = self.tasks@[i as int].deps@[d]@;
                                        assert(dep_done(self.tasks@, before_done, dep));
                                        let j = choose|j: int|
                                            0 <= j < self.tasks@.len() && self.tasks@[j].id@
                                                == dep && before_done[j];
                                        assert(in_order(before_order, j));
                                        let q = choose|q: int|
                                            0 <= q < before_order.len() && before_order[q] as int
                                                == j;
                                        assert(order@[q] == before_order[q]);
                                        assert(self.tasks@[order@[q] as int].id@ == dep);
                                        assert(dep_earlier(self.tasks@, order@, p, d));
                                    }
                                }
                            }
                        }
                    }
                }
                i += 1;
            }
        }
        if order.len() == n {
            assert(is_topo_order(self.tasks@, order@));
            Ok(order)
        } else {
            proof {
                lemma_count_true_le(done@);
                assert(count_true(done@) < done@.len());
                lemma_count_lt_full_has_false(done@);
                assert forall|k: int|
                    0 <= k < self.tasks@.len() && !done@[k] implies exists|d: int|
                    0 <= d < self.tasks@[k].deps.len() && !dep_done(
                        self.tasks@,
                        done@,
                        #[trigger] self.tasks@[k].deps@[d]@,
                    ) by {
                    assert(!ready_spec(self.tasks@, done@, k));
                    let d = choose|d: int|
                        0 <= d < self.tasks@[k].deps.len() && !dep_done(
                            self.tasks@,
                            done@,
                            self.tasks@[k].deps@[d]@,
                        );
                    assert(0 <= d < self.tasks@[k].deps.len() && !dep_done(
                        self.tasks@,
                        done@,
                        self.tasks@[k].deps@[d]@,
                    ));
                }
                assert forall|ord: Seq<usize>| !is_topo_order(self.tasks@, ord) by {
                    if is_topo_order(self.tasks@, ord) {
                        lemma_stuck_no_topo(self.tasks@, done@, ord);
                    }
                }
            }
            Err(GraphError::Cycle)
        }
    }

    /// Verify that every dependency names a task and the graph has no
    /// cycle.
    pub fn validate(&self) -> (r: Result<(), GraphError>)
        requires
            unique_ids(self.tasks@),
        ensures
            r matches Ok(_) <==> {
                &&& deps_exist(self.tasks@)
                &&& exists|order: Seq<usize>| is_topo_order(self.tasks@, order)
            },
            !deps_exist(self.tasks@) ==> (r matches Err(e) && e is MissingDep),
            r matches Err(e) && e is MissingDep ==> !deps_exist(self.tasks@),
            r matches Err(e) && e is Cycle ==> !(exists|order: Seq<usize>|
                is_topo_order(self.tasks@, order)),
    {
        match self.execution_order() {
            Ok(order) => {
                assert(is_topo_order(self.tasks@, order@));
                Ok(())
            },
            Err(e) => Err(e),
        }
    }
}

/// A count below the length leaves some flag clear.
proof fn lemma_count_lt_full_has_false(s: Seq<bool>)
    requires
        count_true(s) < s.len(),
    ensures
        exists|k: int| 0 <= k < s.len() && !s[k],
    decreases s.len(),
{
    if s.len() > 0 {
        if !s[0] {
        } else {
            lemma_count_true_le(s.skip(1));
            lemma_count_lt_full_has_false(s.skip(1));
            let k = choose|k: int| 0 <= k < s.skip(1).len() && !s.skip(1)[k];
            assert(!s[k + 1]);
        }
    }
}

/// A sequence of clear flags has count zero.
pub proof fn lemma_count_all_false(s: Seq<bool>)
    requires
        forall|k: int| 0 <= k < s.len() ==> !(#[trigger] s[k]),
    ensures
        count_true(s) == 0,
    decreases s.len(),
{
    if s.len() > 0 {
        lemma_count_all_false(s.skip(1));
    }
}

/// Executes a validated task graph with a bounded number of parallel
/// workers. The agent owns the retry policy and the worker cap; walking
/// the order and spawning the work happens outside the library.
#[derive(Debug)]
pub struct ExecutorAgent {
    pub runner: CommandRunner,
    pub concurrency: usize,
}

impl ExecutorAgent {
    /// An executor with the given runner; a concurrency of zero is
    /// treated as one.
    pub fn new(runner: CommandRunner, concurrency: usize) -> (r: ExecutorAgent)
        ensures
            r.runner == runner,
            r.concurrency == if concurrency == 0 {
                1int
            } else {
                concurrency as int
            },
            r.concurrency >= 1,
    {
        let cap = if concurrency == 0 {
            1
        } else {
            concurrency
        };
        ExecutorAgent { runner, concurrency: cap }
    }
}

} // verus!
