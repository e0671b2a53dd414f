//! The structured plan a turn works from: files to read, edit and delete,
//! actions to run, and free-form notes. Validation checks every planned
//! path against the known project files; preflight drops actions the host
//! cannot run and says so in the notes.

use vstd::prelude::*;
use vstd::string::StringExecFns;

use crate::capabilities::{Manifest, can_run, known_program, spec_can_run_known, Tools};

verus! {

/// One planned edit: the file and what to do to it.
#[derive(Debug)]
pub struct EditPlan {
    pub path: String,
    pub intent: String,
}

/// One planned action. The schema is a tagged union so more kinds can be
/// accepted later; today a subprocess run is the only one.
#[derive(Debug)]
pub enum Action {
    Run {
        program: String,
        args: Vec<String>,
        workdir: Option<String>,
        log_hint: Option<String>,
        retries: u32,
        backoff_ms: u64,
    },
}

/// The plan for one turn.
#[derive(Debug)]
pub struct Plan {
    pub read: Vec<String>,
    pub edit: Vec<EditPlan>,
    pub delete: Vec<String>,
    pub actions: Vec<Action>,
    pub notes: String,
}

/// Default retry count for an action that does not name one.
pub fn default_retries() -> (r: u32)
    ensures
        r == 1,
{
    1
}

/// Default backoff in milliseconds for an action that does not name one.
pub fn default_backoff() -> (r: u64)
    ensures
        r == 1500,
{
    1500
}

/// The planning heuristics and the JSON schema shown to the LM.
pub fn guidance() -> (r: String)
    ensures
        r@ == "Heuristics:\n- Do not call external tools like `repo_browser.print_tree`; the file index\n  already contains the repository structure.\n- Prefer touching the fewest files.\n- If the ask is informational only, leave `edit=[]` and put a short answer in `notes`.\n- Use actions only for tools that are enabled in the capabilities list.\n- For Rust projects, typical actions are: `cargo build`, `cargo test`.\n- Use `delete` for files or directories that should be removed.\n- Always fill `retries` and `backoff_ms` (small numbers).\nSchema:\n{\n  \"read\": string[],\n  \"edit\": [{\"path\": string, \"intent\": string}],\n  \"delete\": string[],\n  \"actions\": [{\"kind\":\"run\",\"program\":string,\"args\":string[],\"workdir?\":string,\"log_hint?\":string,\"retries\":number,\"backoff_ms\":number}],\n  \"notes\": string\n}\nReturn pure JSON, no markdown."@,
{
    "Heuristics:\n- Do not call external tools like `repo_browser.print_tree`; the file index\n  already contains the repository structure.\n- Prefer touching the fewest files.\n- If the ask is informational only, leave `edit=[]` and put a short answer in `notes`.\n- Use actions only for tools that are enabled in the capabilities list.\n- For Rust projects, typical actions are: `cargo build`, `cargo test`.\n- Use `delete` for files or directories that should be removed.\n- Always fill `retries` and `backoff_ms` (small numbers).\nSchema:\n{\n  \"read\": string[],\n  \"edit\": [{\"path\": string, \"intent\": string}],\n  \"delete\": string[],\n  \"actions\": [{\"kind\":\"run\",\"program\":string,\"args\":string[],\"workdir?\":string,\"log_hint?\":string,\"retries\":number,\"backoff_ms\":number}],\n  \"notes\": string\n}\nReturn pure JSON, no markdown.".to_owned()
}

/// The program an action runs.
pub open spec fn action_program(a: Action) -> Seq<char> {
    match a {
        Action::Run { program, .. } => program@,
    }
}

/// The actions kept by a boolean mask, in order.
pub open spec fn filter_by(s: Seq<Action>, keep: Seq<bool>) -> Seq<Action>
    decreases s.len(),
{
    if s.len() == 0 || keep.len() == 0 {
        Seq::empty()
    } else {
        (if keep[0] {
            seq![s[0]]
        } else {
            Seq::empty()
        }) + filter_by(s.skip(1), keep.skip(1))
    }
}

/// Filtering distributes over appending one element.
pub proof fn lemma_filter_by_push(s: Seq<Action>, keep: Seq<bool>, a: Action, ok: bool)
    requires
        s.len() == keep.len(),
    ensures
        filter_by(s.push(a), keep.push(ok)) == filter_by(s, keep) + (if ok {
            seq![a]
        } else {
            Seq::<Action>::empty()
        }),
    decreases s.len(),
{
    let t = s.push(a);
    let kt = keep.push(ok);
    if s.len() == 0 {
        assert(t[0] == a && kt[0] == ok);
        assert(t.skip(1) =~= Seq::<Action>::empty());
        assert(kt.skip(1) =~= Seq::<bool>::empty());
        assert(filter_by(t.skip(1), kt.skip(1)) =~= Seq::<Action>::empty());
        assert(filter_by(s, keep) =~= Seq::<Action>::empty());
        assert(filter_by(t, kt) =~= filter_by(s, keep) + (if ok {
            seq![a]
        } else {
            Seq::<Action>::empty()
        }));
    } else {
        assert(t[0] == s[0] && kt[0] == keep[0]);
        assert(t.skip(1) =~= s.skip(1).push(a));
        assert(kt.skip(1) =~= keep.skip(1).push(ok));
        lemma_filter_by_push(s.skip(1), keep.skip(1), a, ok);
        assert(filter_by(t, kt) == (if kt[0] { seq![t[0]] } else { Seq::<Action>::empty() })
            + filter_by(t.skip(1), kt.skip(1)));
        assert(filter_by(s, keep) == (if keep[0] { seq![s[0]] } else { Seq::<Action>::empty() })
            + filter_by(s.skip(1), keep.skip(1)));
        assert(filter_by(t, kt) =~= filter_by(s, keep) + (if ok {
            seq![a]
        } else {
            Seq::<Action>::empty()
        }));
    }
}

/// The note recorded for one dropped action.
pub open spec fn drop_item(p: Seq<char>) -> Seq<char> {
    "drop action `"@ + p + "`: "@ + ("binary `"@ + p + "` not on PATH"@)
}

/// The drop notes of the actions rejected by a boolean mask, in order.
pub open spec fn dropped_items(s: Seq<Action>, keep: Seq<bool>) -> Seq<Seq<char>>
    decreases s.len(),
{
    if s.len() == 0 || keep.len() == 0 {
        Seq::empty()
    } else {
        (if keep[0] {
            Seq::empty()
        } else {
            seq![drop_item(action_program(s[0]))]
        }) + dropped_items(s.skip(1), keep.skip(1))
    }
}

/// Drop notes distribute over appending one element.
pub proof fn lemma_dropped_items_push(s: Seq<Action>, keep: Seq<bool>, a: Action, ok: bool)
    requires
        s.len() == keep.len(),
    ensures
        dropped_items(s.push(a), keep.push(ok)) == dropped_items(s, keep) + (if ok {
            Seq::<Seq<char>>::empty()
        } else {
            seq![drop_item(action_program(a))]
        }),
    decreases s.len(),
{
    let t = s.push(a);
    let kt = keep.push(ok);
    if s.len() == 0 {
        assert(t[0] == a && kt[0] == ok);
        assert(t.skip(1) =~= Seq::<Action>::empty());
        assert(kt.skip(1) =~= Seq::<bool>::empty());
        assert(dropped_items(t.skip(1), kt.skip(1)) =~= Seq::<Seq<char>>::empty());
        assert(dropped_items(s, keep) =~= Seq::<Seq<char>>::empty());
        assert(dropped_items(t, kt) =~= dropped_items(s, keep) + (if ok {
            Seq::<Seq<char>>::empty()
        } else {
            seq![drop_item(action_program(a))]
        }));
    } else {
        assert(t[0] == s[0] && kt[0] == keep[0]);
        assert(t.skip(1) =~= s.skip(1).push(a));
        assert(kt.skip(1) =~= keep.skip(1).push(ok));
        lemma_dropped_items_push(s.skip(1), keep.skip(1), a, ok);
        assert(dropped_items(t, kt) == (if kt[0] { Seq::<Seq<char>>::empty() } else {
            seq![drop_item(action_program(t[0]))]
        }) + dropped_items(t.skip(1), kt.skip(1)));
        assert(dropped_items(s, keep) == (if keep[0] { Seq::<Seq<char>>::empty() } else {
            seq![drop_item(action_program(s[0]))]
        }) + dropped_items(s.skip(1), keep.skip(1)));
        assert(dropped_items(t, kt) =~= dropped_items(s, keep) + (if ok {
            Seq::<Seq<char>>::empty()
        } else {
            seq![drop_item(action_program(a))]
        }));
    }
}

/// Drop notes joined as a bullet list, `\n- ` between items.
pub open spec fn join_rest(items: Seq<Seq<char>>) -> Seq<char>
    decreases items.len(),
{
    if items.len() == 0 {
        Seq::empty()
    } else {
        "\n- "@ + items[0] + join_rest(items.skip(1))
    }
}

/// The joined bullet list: first item bare, the rest separated.
pub open spec fn join_items(items: Seq<Seq<char>>) -> Seq<char> {
    if items.len() == 0 {
        Seq::empty()
    } else {
        items[0] + join_rest(items.skip(1))
    }
}

/// The tail join distributes over appending one item.
pub proof fn lemma_join_rest_push(items: Seq<Seq<char>>, x: Seq<char>)
    ensures
        join_rest(items.push(x)) == join_rest(items) + "\n- "@ + x,
    decreases items.len(),
{
    let t = items.push(x);
    if items.len() == 0 {
        assert(t[0] == x);
        assert(t.skip(1) =~= Seq::<Seq<char>>::empty());
        assert(join_rest(t.skip(1)) =~= Seq::<char>::empty());
        assert(join_rest(t) == "\n- "@ + t[0] + join_rest(t.skip(1)));
        assert(join_rest(items) =~= Seq::<char>::empty());
        assert(join_rest(t) =~= join_rest(items) + "\n- "@ + x);
    } else {
        assert(t[0] == items[0]);
        assert(t.skip(1) =~= items.skip(1).push(x));
        lemma_join_rest_push(items.skip(1), x);
        assert(join_rest(t) == "\n- "@ + t[0] + join_rest(t.skip(1)));
        assert(join_rest(items) == "\n- "@ + items[0] + join_rest(items.skip(1)));
        assert(join_rest(t) =~= join_rest(items) + "\n- "@ + x);
    }
}

/// The join distributes over appending one item.
pub proof fn lemma_join_items_push(items: Seq<Seq<char>>, x: Seq<char>)
    ensures
        items.len() == 0 ==> join_items(items.push(x)) == x,
        items.len() > 0 ==> join_items(items.push(x)) == join_items(items) + "\n- "@ + x,
{
    let t = items.push(x);
    if items.len() == 0 {
        assert(t[0] == x);
        assert(t.skip(1) =~= Seq::<Seq<char>>::empty());
        assert(join_items(t) =~= x);
    } else {
        assert(t[0] == items[0]);
        assert(t.skip(1) =~= items.skip(1).push(x));
        lemma_join_rest_push(items.skip(1), x);
        assert(join_items(t) =~= join_items(items) + "\n- "@ + x);
    }
}

/// The notes after preflight: unchanged when nothing was dropped,
/// otherwise the old notes followed by the header and the bullet list of
/// dropped actions.
pub open spec fn preflight_note(old_notes: Seq<char>, items: Seq<Seq<char>>) -> Seq<char> {
    if items.len() == 0 {
        old_notes
    } else {
        (if old_notes.len() > 0 {
            old_notes + "\n"@
        } else {
            old_notes
        }) + "Preflight removed actions not supported in this environment:\n- "@ + join_items(
            items,
        )
    }
}

/// Drop every action whose program the host cannot run, and append a note
/// listing the drops. The mask `oks` in the contract records, action by
/// action, the answer `can_run` gave: for a program the manifest knows,
/// that answer is pinned by the manifest itself.
pub fn preflight_actions(manifest: &Manifest, plan: &mut Plan)
    ensures
        final(plan).read == old(plan).read,
        final(plan).edit == old(plan).edit,
        final(plan).delete == old(plan).delete,
        exists|oks: Seq<bool>|
            {
                &&& oks.len() == old(plan).actions@.len()
                &&& (forall|j: int|
                    0 <= j < oks.len() ==> (known_program(
                        action_program(old(plan).actions@[j]),
                    ) ==> oks[j] == spec_can_run_known(
                        manifest.tools,
                        action_program(old(plan).actions@[j]),
                    )))
                &&& final(plan).actions@ == filter_by(old(plan).actions@, oks)
                &&& final(plan).notes@ == preflight_note(
                    old(plan).notes@,
                    dropped_items(old(plan).actions@, oks),
                )
            },
{
    let mut work: Vec<Action> = Vec::new();
    core::mem::swap(&mut work, &mut plan.actions);
    let total = work.len();
    let ghost all = work@;
    let mut kept: Vec<Action> = Vec::new();
    let mut items_str: String = String::new();
    let mut dropped_count: usize = 0;
    let ghost mut oks: Seq<bool> = Seq::empty();
    let ghost mut done: Seq<Action> = Seq::empty();
    proof {
        assert(filter_by(done, oks) =~= Seq::<Action>::empty());
        assert(dropped_items(done, oks) =~= Seq::<Seq<char>>::empty());
        assert(done + work@ =~= all);
    }
    while work.len() > 0
        invariant
            oks.len() == done.len(),
            done + work@ == all,
            forall|j: int|
                0 <= j < done.len() ==> (known_program(action_program(done[j])) ==> oks[j]
                    == spec_can_run_known(manifest.tools, action_program(done[j]))),
            done.len() + work@.len() == total,
            kept@ == filter_by(done, oks),
            items_str@ == join_items(dropped_items(done, oks)),
            dropped_count == dropped_items(done, oks).len(),
            dropped_count <= done.len(),
        decreases work@.len(),
    {
        let ghost items_before = dropped_items(done, oks);
        let ghost work_before = work@;
        let a = remove_first(&mut work);
        let ghost ga = a;
        let mut ok: bool = false;
        let mut reason: Option<String> = None;
        match &a {
            Action::Run { program, .. } => {
                let (ok0, why) = can_run(manifest, program.as_str());
                ok = ok0;
                reason = why;
            },
        }
        proof {
            lemma_filter_by_push(done, oks, ga, ok);
            lemma_dropped_items_push(done, oks, ga, ok);
        }
        if ok {
            kept.push(a);
        } else {
            let mut item: String = "drop action `".to_owned();
            match &a {
                Action::Run { program, .. } => {
                    item.append(program.as_str());
                    item.append("`: ");
                    match &reason {
                        Option::Some(why) => {
                            item.append(why.as_str());
                        },
                        Option::None => {
                            assert(false);
                        },
                    }
                    assert(item@ =~= drop_item(program@));
                    assert(action_program(ga) == program@);
                },
            }
            proof {
                lemma_join_items_push(items_before, drop_item(action_program(ga)));
                assert(items_before + seq![drop_item(action_program(ga))] =~= items_before.push(
                    drop_item(action_program(ga)),
                ));
            }
            if dropped_count == 0 {
                items_str = item;
            } else {
                items_str.append("\n- ");
                items_str.append(item.as_str());
            }
            dropped_count += 1;
        }
        proof {
            done = done.push(ga);
            oks = oks.push(ok);
            assert(done + work@ =~= all) by {
                assert(work@ =~= work_before.skip(1));
            }
            if !ok {
                assert(items_str@ =~= join_items(dropped_items(done, oks)));
            }
        }
    }
    proof {
        assert(done =~= all);
    }
    plan.actions = kept;
    if dropped_count > 0 {
        let mut new_notes: String = String::new();
        core::mem::swap(&mut new_notes, &mut plan.notes);
        if !new_notes.as_str().is_empty() {
            new_notes.append("\n");
        }
        new_notes.append("Preflight removed actions not supported in this environment:\n- ");
        new_notes.append(items_str.as_str());
        plan.notes = new_notes;
        proof {
            assert(plan.notes@ =~= preflight_note(old(plan).notes@, dropped_items(all, oks)));
        }
    }
}

/// Remove and return the first element.
fn remove_first(v: &mut Vec<Action>) -> (r: Action)
    requires
        old(v)@.len() > 0,
    ensures
        r == old(v)@[0],
        final(v)@ == old(v)@.skip(1),
{
    let r = v.remove(0);
    proof {
        assert(v@ =~= old(v)@.skip(1));
    }
    r
}

/// Every planned path refers to a known project file.
pub open spec fn spec_paths_valid(
    read: Seq<Seq<char>>,
    edit_paths: Seq<Seq<char>>,
    delete: Seq<Seq<char>>,
    existing: Seq<Seq<char>>,
) -> bool {
    &&& forall|i: int| 0 <= i < read.len() ==> existing.contains(#[trigger] read[i])
    &&& forall|i: int| 0 <= i < edit_paths.len() ==> existing.contains(#[trigger] edit_paths[i])
    &&& forall|i: int| 0 <= i < delete.len() ==> existing.contains(#[trigger] delete[i])
}

/// The paths the plan edits.
pub open spec fn edit_paths_of(edit: Seq<EditPlan>) -> Seq<Seq<char>> {
    edit.map_values(|e: EditPlan| e.path@)
}

/// Whether every path the plan reads, edits or deletes names a file in
/// `existing`, the caller's list of project files.
pub fn validate_plan_paths(plan: &Plan, existing: &Vec<String>) -> (r: bool)
    ensures
        r == spec_paths_valid(
            plan.read.deep_view(),
            edit_paths_of(plan.edit@),
            plan.delete.deep_view(),
            existing.deep_view(),
        ),
{
    let mut ok = all_in(&plan.read, existing);
    if ok {
        let n = plan.edit.len();
        let mut i: usize = 0;
        while i < n
            invariant
                n == plan.edit@.len(),
                i <= n,
                forall|k: int|
                    0 <= k < i ==> existing.deep_view().contains(
                        #[trigger] edit_paths_of(plan.edit@)[k],
                    ),
        decreases n - i,
        {
            if !one_in(&plan.edit[i].path, existing) {
                assert(!existing.deep_view().contains(edit_paths_of(plan.edit@)[i as int]));
                return false;
            }
            assert(existing.deep_view().contains(edit_paths_of(plan.edit@)[i as int]));
            i += 1;
        }
        all_in(&plan.delete, existing)
    } else {
        false
    }
}

/// Whether every path in `paths` is in `existing`.
fn all_in(paths: &Vec<String>, existing: &Vec<String>) -> (r: bool)
    ensures
        r == forall|i: int|
            0 <= i < paths.deep_view().len() ==> existing.deep_view().contains(
                #[trigger] paths.deep_view()[i],
            ),
{
    let n = paths.len();
    let mut i: usize = 0;
    while i < n
        invariant
            n == paths@.len(),
            i <= n,
            forall|k: int|
                0 <= k < i ==> existing.deep_view().contains(#[trigger] paths.deep_view()[k]),
        decreases n - i,
    {
        if !one_in(&paths[i], existing) {
            assert(!existing.deep_view().contains(paths.deep_view()[i as int]));
            return false;
        }
        assert(existing.deep_view().contains(paths.deep_view()[i as int]));
        i += 1;
    }
    true
}

/// Whether `p` is in `existing`.
fn one_in(p: &String, existing: &Vec<String>) -> (r: bool)
    ensures
        r == existing.deep_view().contains(p@),
{
    let n = existing.len();
    let mut i: usize = 0;
    while i < n
        invariant
            n == existing@.len(),
            i <= n,
            forall|k: int| 0 <= k < i ==> existing.deep_view()[k] != p@,
        decreases n - i,
    {
        if existing[i] == *p {
            assert(existing.deep_view()[i as int] == p@);
            return true;
        }
        assert(existing.deep_view()[i as int] == existing@[i as int]@);
        i += 1;
    }
    assert(forall|k: int|
        0 <= k < existing.deep_view().len() ==> existing.deep_view()[k] != p@);
    false
}

/// A plan with nothing to edit and nothing to run is an information
/// request: the orchestrator answers with a summary instead of mutating
/// anything.
pub fn is_informational(plan: &Plan) -> (r: bool)
    ensures
        r == (plan.edit@.len() == 0 && plan.actions@.len() == 0),
{
    plan.edit.len() == 0 && plan.actions.len() == 0
}

/// Cap the combined read and edit lists at six entries, shedding reads
/// first, then edits.
pub fn cap_plan(plan: &mut Plan)
    ensures
        final(plan).delete == old(plan).delete,
        final(plan).actions == old(plan).actions,
        final(plan).notes == old(plan).notes,
        final(plan).read@.len() + final(plan).edit@.len() <= 6 || final(plan).read@.len() == 0,
        final(plan).read@ == old(plan).read@.subrange(0, final(plan).read@.len() as int),
        final(plan).edit@ == old(plan).edit@.subrange(0, final(plan).edit@.len() as int),
        old(plan).read@.len() + old(plan).edit@.len() <= 6 ==> (final(plan).read
            == old(plan).read && final(plan).edit == old(plan).edit),
        final(plan).edit@.len() == if old(plan).edit@.len() <= 6 {
            old(plan).edit@.len() as int
        } else {
            6int
        },
{
    let reads = plan.read.len();
    let edits = plan.edit.len();
    if edits > 6 {
        plan.edit.truncate(6);
        plan.read.truncate(0);
        proof {
            assert(plan.edit@ =~= old(plan).edit@.subrange(0, 6));
            assert(plan.read@ =~= old(plan).read@.subrange(0, 0));
        }
    } else {
        let keep = 6 - edits;
        if keep < reads {
            plan.read.truncate(keep);
            proof {
                assert(plan.read@ =~= old(plan).read@.subrange(0, keep as int));
            }
        }
        proof {
            assert(plan.edit@ =~= old(plan).edit@.subrange(0, plan.edit@.len() as int));
            assert(plan.read@ =~= old(plan).read@.subrange(0, plan.read@.len() as int));
        }
    }
}

} // verus!
