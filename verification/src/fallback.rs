//! The planner's heuristic fallback, used when the LM cannot produce a
//! plan: filename-shaped tokens of the request become reads or edits, the
//! standard project roots seed the reads, and build/test verbs become
//! actions for the detected project kind.

use vstd::prelude::*;

use crate::plan::{Plan, EditPlan, Action};
use crate::text::{
    contains_seq, ws_tokens, str_chars, split_chars, string_from_chars, SepClass, str_contains,
};

verus! {

/// A token shaped like a filename: it holds a dot or a path separator.
pub open spec fn filename_shaped(t: Seq<char>) -> bool {
    exists|k: int| 0 <= k < t.len() && (t[k] == '.' || t[k] == '/')
}

/// The filename-shaped tokens among a token list, in order.
pub open spec fn path_token_filter(toks: Seq<Seq<char>>) -> Seq<Seq<char>>
    decreases toks.len(),
{
    if toks.len() == 0 {
        Seq::empty()
    } else {
        (if filename_shaped(toks[0]) {
            seq![toks[0]]
        } else {
            Seq::empty()
        }) + path_token_filter(toks.skip(1))
    }
}

/// The filename-shaped tokens of a request.
pub open spec fn spec_path_tokens(request: Seq<char>) -> Seq<Seq<char>> {
    path_token_filter(ws_tokens(request))
}

/// Extract the filename-shaped tokens of a request, in order.
pub fn extract_path_tokens(request: &str) -> (r: Vec<String>)
    ensures
        r.deep_view() == spec_path_tokens(request@),
{
    let chars = str_chars(request);
    let toks = split_chars(chars.as_slice(), SepClass::Whitespace);
    let ghost all = toks.deep_view();
    let n = toks.len();
    let mut out: Vec<String> = Vec::new();
    let mut i: usize = 0;
    proof {
        assert(all.skip(0) =~= all);
        assert(out.deep_view() =~~= Seq::<Seq<char>>::empty());
    }
    while i < n
        invariant
            n == toks@.len(),
            i <= n,
            all == toks.deep_view(),
            all.len() == n,
            spec_path_tokens(request@) == out.deep_view() + path_token_filter(
                all.skip(i as int),
            ),
        decreases n - i,
    {
        proof {
            assert(all.skip(i as int)[0] == all[i as int]);
            assert(all.skip(i as int).skip(1) =~= all.skip(i + 1));
            assert(all[i as int] == toks@[i as int]@);
        }
        let ghost before = out.deep_view();
        let tok = &toks[i];
        let m = tok.len();
        let mut shaped = false;
        let mut j: usize = 0;
        while j < m
            invariant
                m == tok@.len(),
                j <= m,
                shaped == exists|k: int| 0 <= k < j && (tok@[k] == '.' || tok@[k] == '/'),
            decreases m - j,
        {
            if tok[j] == '.' || tok[j] == '/' {
                shaped = true;
            }
            j += 1;
        }
        if shaped {
            out.push(string_from_chars(tok.as_slice()));
            proof {
                assert(out.deep_view() =~~= before.push(all[i as int]));
            }
        }
        proof {
            assert(shaped == filename_shaped(all[i as int]));
            assert(spec_path_tokens(request@) =~= out.deep_view() + path_token_filter(
                all.skip(i + 1),
            ));
        }
        i += 1;
    }
    proof {
        assert(all.skip(n as int) =~= Seq::<Seq<char>>::empty());
        assert(out.deep_view() =~~= out.deep_view() + path_token_filter(all.skip(n as int)));
    }
    out
}

/// The request asks for an edit rather than a read.
pub open spec fn spec_wants_edit(r: Seq<char>) -> bool {
    ||| contains_seq(r, "edit"@)
    ||| contains_seq(r, "modify"@)
    ||| contains_seq(r, "change"@)
    ||| contains_seq(r, "refactor"@)
    ||| contains_seq(r, "add"@)
}

/// Whether the request mentions an editing verb.
pub fn wants_edit(request: &str) -> (r: bool)
    ensures
        r == spec_wants_edit(request@),
{
    str_contains(request, "edit") || str_contains(request, "modify") || str_contains(
        request,
        "change",
    ) || str_contains(request, "refactor") || str_contains(request, "add")
}

/// The standard roots seeded into every fallback plan's reads.
pub fn standard_seeds() -> (r: Vec<String>)
    ensures
        r.deep_view() =~= seq![
            "src/main.rs"@,
            "Cargo.toml"@,
            "package.json"@,
            "pyproject.toml"@,
            "README.md"@,
        ],
{
    let mut v: Vec<String> = Vec::new();
    v.push("src/main.rs".to_owned());
    v.push("Cargo.toml".to_owned());
    v.push("package.json".to_owned());
    v.push("pyproject.toml".to_owned());
    v.push("README.md".to_owned());
    proof {
        assert(v.deep_view() =~~= seq![
            "src/main.rs"@,
            "Cargo.toml"@,
            "package.json"@,
            "pyproject.toml"@,
            "README.md"@,
        ]);
    }
    v
}

/// Which project kinds the fallback planner detected in the root.
#[derive(Clone, Copy, Debug, PartialEq, Eq, Structural)]
pub struct ProjectMarkers {
    pub cargo: bool,
    pub npm: bool,
    pub pytest: bool,
    pub go: bool,
    pub mvn: bool,
}

/// An action is a run of exactly this program, arguments and log hint,
/// with the default retry policy and no working directory.
pub open spec fn run_action_is(
    a: Action,
    program: Seq<char>,
    args: Seq<Seq<char>>,
    hint: Seq<char>,
) -> bool {
    match a {
        Action::Run { program: p, args: ar, workdir, log_hint, retries, backoff_ms } => {
            &&& p@ == program
            &&& ar.deep_view() == args
            &&& workdir is None
            &&& (log_hint matches Some(h) && h@ == hint)
            &&& retries == 1
            &&& backoff_ms == 1500
        },
    }
}

/// The build action for the detected project kind, if any: a Rust project
/// builds with its package manager, a JavaScript project with its own.
pub fn build_action(markers: ProjectMarkers) -> (r: Option<Action>)
    ensures
        markers.cargo ==> (r matches Some(a) && run_action_is(
            a,
            "cargo"@,
            seq!["build"@],
            "build"@,
        )),
        !markers.cargo && markers.npm ==> (r matches Some(a) && run_action_is(
            a,
            "npm"@,
            seq!["run"@, "build"@],
            "build"@,
        )),
        !markers.cargo && !markers.npm ==> r is None,
{
    if markers.cargo {
        let a = Action::Run {
            program: "cargo".to_owned(),
            args: crate::tools::one_string("build"),
            workdir: None,
            log_hint: Some("build".to_owned()),
            retries: 1,
            backoff_ms: 1500,
        };
        Some(a)
    } else if markers.npm {
        let a = Action::Run {
            program: "npm".to_owned(),
            args: crate::tools::two_strings("run", "build"),
            workdir: None,
            log_hint: Some("build".to_owned()),
            retries: 1,
            backoff_ms: 1500,
        };
        Some(a)
    } else {
        None
    }
}

/// The test action for the detected project kind, if any.
pub fn test_action(markers: ProjectMarkers) -> (r: Option<Action>)
    ensures
        markers.cargo ==> (r matches Some(a) && run_action_is(a, "cargo"@, seq!["test"@], "test"@)),
        !markers.cargo && markers.npm ==> (r matches Some(a) && run_action_is(
            a,
            "npm"@,
            seq!["test"@],
            "test"@,
        )),
        !markers.cargo && !markers.npm && markers.pytest ==> (r matches Some(a) && run_action_is(
            a,
            "pytest"@,
            Seq::empty(),
            "test"@,
        )),
        !markers.cargo && !markers.npm && !markers.pytest && markers.go ==> (r matches Some(a)
            && run_action_is(a, "go"@, seq!["test"@], "test"@)),
        !markers.cargo && !markers.npm && !markers.pytest && !markers.go && markers.mvn ==> (
        r matches Some(a) && run_action_is(a, "mvn"@, seq!["test"@], "test"@)),
        !markers.cargo && !markers.npm && !markers.pytest && !markers.go && !markers.mvn ==> r
            is None,
{
    if markers.cargo {
        Some(run_of("cargo", crate::tools::one_string("test"), "test"))
    } else if markers.npm {
        Some(run_of("npm", crate::tools::one_string("test"), "test"))
    } else if markers.pytest {
        let empty: Vec<String> = Vec::new();
        proof {
            assert(empty.deep_view() =~~= Seq::<Seq<char>>::empty());
        }
        Some(run_of("pytest", empty, "test"))
    } else if markers.go {
        Some(run_of("go", crate::tools::one_string("test"), "test"))
    } else if markers.mvn {
        Some(run_of("mvn", crate::tools::one_string("test"), "test"))
    } else {
        None
    }
}

/// A run action with the default policy.
fn run_of(program: &str, args: Vec<String>, hint: &str) -> (a: Action)
    ensures
        run_action_is(a, program@, args.deep_view(), hint@),
{
    Action::Run {
        program: program.to_owned(),
        args,
        workdir: None,
        log_hint: Some(hint.to_owned()),
        retries: 1,
        backoff_ms: 1500,
    }
}

/// The actions the fallback planner infers from the request's verbs: a
/// build action when the request mentions building, then a test action
/// when it mentions testing, each for the detected project kind.
pub fn infer_actions(request: &str, markers: ProjectMarkers) -> (r: Vec<Action>)
    ensures
        r@.len() == (if contains_seq(request@, "build"@) && (markers.cargo || markers.npm) {
            1int
        } else {
            0int
        }) + (if contains_seq(request@, "test"@) && (markers.cargo || markers.npm
            || markers.pytest || markers.go || markers.mvn) {
            1int
        } else {
            0int
        }),
        contains_seq(request@, "build"@) && (markers.cargo || markers.npm) ==> {
            &&& (markers.cargo ==> run_action_is(r@[0], "cargo"@, seq!["build"@], "build"@))
            &&& (!markers.cargo ==> run_action_is(r@[0], "npm"@, seq!["run"@, "build"@], "build"@))
        },
        contains_seq(request@, "test"@) && (markers.cargo || markers.npm || markers.pytest
            || markers.go || markers.mvn) ==> {
            &&& (markers.cargo ==> run_action_is(
                r@[r@.len() - 1],
                "cargo"@,
                seq!["test"@],
                "test"@,
            ))
            &&& (!markers.cargo && markers.npm ==> run_action_is(
                r@[r@.len() - 1],
                "npm"@,
                seq!["test"@],
                "test"@,
            ))
            &&& (!markers.cargo && !markers.npm && markers.pytest ==> run_action_is(
                r@[r@.len() - 1],
                "pytest"@,
                Seq::empty(),
                "test"@,
            ))
            &&& (!markers.cargo && !markers.npm && !markers.pytest && markers.go
                ==> run_action_is(r@[r@.len() - 1], "go"@, seq!["test"@], "test"@))
            &&& (!markers.cargo && !markers.npm && !markers.pytest && !markers.go && markers.mvn
                ==> run_action_is(r@[r@.len() - 1], "mvn"@, seq!["test"@], "test"@))
        },
{
    let mut r: Vec<Action> = Vec::new();
    if str_contains(request, "build") {
        match build_action(markers) {
            Some(a) => {
                r.push(a);
            },
            None => {},
        }
    }
    if str_contains(request, "test") {
        match test_action(markers) {
            Some(a) => {
                r.push(a);
            },
            None => {},
        }
    }
    r
}

/// The heuristic fallback plan: the standard seeds plus the request's
/// filename-shaped tokens as reads — or, for an editing request, those
/// tokens as edits carrying the request as intent — and the verb-inferred
/// actions.
pub fn fallback_plan(request: &str, markers: ProjectMarkers) -> (p: Plan)
    ensures
        spec_wants_edit(request@) ==> {
            &&& p.read.deep_view() == standard_seed_names()
            &&& p.edit@.len() == spec_path_tokens(request@).len()
            &&& (forall|i: int|
                0 <= i < p.edit@.len() ==> (#[trigger] p.edit@[i]).path@ == spec_path_tokens(
                    request@,
                )[i] && p.edit@[i].intent@ == request@)
        },
        !spec_wants_edit(request@) ==> {
            &&& p.read.deep_view() == standard_seed_names() + spec_path_tokens(request@)
            &&& p.edit@.len() == 0
        },
        p.delete@.len() == 0,
        p.notes@ == "heuristic fallback plan"@,
{
    let seeds = standard_seeds();
    let tokens = extract_path_tokens(request);
    let ghost toks = tokens.deep_view();
    let mut read = seeds;
    let mut edit: Vec<EditPlan> = Vec::new();
    if wants_edit(request) {
        let n = tokens.len();
        let mut i: usize = 0;
        while i < n
            invariant
                n == tokens@.len(),
                i <= n,
                toks == tokens.deep_view(),
                toks.len() == n,
                edit@.len() == i,
                forall|k: int|
                    0 <= k < i ==> (#[trigger] edit@[k]).path@ == toks[k] && edit@[k].intent@
                        == request@,
            decreases n - i,
        {
            proof {
                assert(toks[i as int] == tokens@[i as int]@);
            }
            edit.push(
                EditPlan { path: tokens[i].clone(), intent: request.to_owned() },
            );
            i += 1;
        }
    } else {
        let ghost seeds0 = read.deep_view();
        let n = tokens.len();
        let mut i: usize = 0;
        proof {
            assert(read.deep_view() =~= seeds0 + toks.subrange(0, 0));
        }
        while i < n
            invariant
                n == tokens@.len(),
                i <= n,
                toks == tokens.deep_view(),
                toks.len() == n,
                read.deep_view() == seeds0 + toks.subrange(0, i as int),
            decreases n - i,
        {
            proof {
                assert(toks[i as int] == tokens@[i as int]@);
            }
            let ghost before = read.deep_view();
            read.push(tokens[i].clone());
            proof {
                assert(read.deep_view() =~~= before.push(toks[i as int]));
                assert(before.push(toks[i as int]) =~= seeds0 + toks.subrange(0, i + 1 as int));
            }
            i += 1;
        }
        proof {
            assert(toks.subrange(0, n as int) =~= toks);
        }
    }
    let actions = infer_actions(request, markers);
    Plan {
        read,
        edit,
        delete: Vec::new(),
        actions,
        notes: "heuristic fallback plan".to_owned(),
    }
}

/// The names of the standard seeds.
pub open spec fn standard_seed_names() -> Seq<Seq<char>> {
    seq!["src/main.rs"@, "Cargo.toml"@, "package.json"@, "pyproject.toml"@, "README.md"@]
}

} // verus!
