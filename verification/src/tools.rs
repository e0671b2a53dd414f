//! The tool registry: each known tool name maps to the command it runs,
//! the marker files that detect its kind of project, and an allow/deny
//! policy over arguments. Spawning the command happens outside the
//! library, which hands back the exact argument vector to run.

use vstd::prelude::*;

use crate::text::{str_chars, chars_eq_str, str_eq};

verus! {

/// Argument policy of one tool: an empty allowlist admits any argument; a
/// denylist blocks specific arguments.
#[derive(Debug)]
pub struct Safety {
    pub allowlist: Vec<String>,
    pub denylist: Vec<String>,
}

/// One registered tool.
#[derive(Debug)]
pub struct Tool {
    pub name: String,
    pub command: Vec<String>,
    pub markers: Vec<String>,
    pub safety: Safety,
}

/// The registry knows this tool name.
pub open spec fn known_tool(n: Seq<char>) -> bool {
    ||| n == "cargo_build"@ || n == "cargo_test"@ || n == "npm_build"@ || n == "npm_test"@
    ||| n == "pytest"@ || n == "go_test"@ || n == "mvn_test"@ || n == "rustfmt"@
    ||| n == "prettier"@ || n == "black"@ || n == "gofmt"@ || n == "clippy"@ || n == "eslint"@
    ||| n == "flake8"@ || n == "grep"@ || n == "ripgrep"@ || n == "git_diff"@
}

/// The command a tool runs; empty means the caller's own arguments are
/// run as given.
pub open spec fn tool_command_spec(n: Seq<char>) -> Seq<Seq<char>> {
    if n == "cargo_build"@ {
        seq!["cargo"@, "build"@]
    } else if n == "cargo_test"@ {
        seq!["cargo"@, "test"@]
    } else if n == "npm_build"@ {
        seq!["npm"@, "run"@, "build"@]
    } else if n == "npm_test"@ {
        seq!["npm"@, "test"@]
    } else if n == "pytest"@ {
        seq!["pytest"@]
    } else if n == "go_test"@ {
        seq!["go"@, "test"@]
    } else if n == "mvn_test"@ {
        seq!["mvn"@, "test"@]
    } else if n == "rustfmt"@ {
        seq!["rustfmt"@]
    } else if n == "prettier"@ {
        seq!["prettier"@, "--write"@, "."@]
    } else if n == "black"@ {
        seq!["black"@, "."@]
    } else if n == "gofmt"@ {
        seq!["gofmt"@, "-w"@, "."@]
    } else if n == "clippy"@ {
        seq!["cargo"@, "clippy"@]
    } else if n == "eslint"@ {
        seq!["eslint"@, "."@]
    } else if n == "flake8"@ {
        seq!["flake8"@]
    } else {
        Seq::empty()
    }
}

/// The marker files whose presence detects the tool's kind of project;
/// empty means the tool applies everywhere.
pub open spec fn tool_markers_spec(n: Seq<char>) -> Seq<Seq<char>> {
    if n == "cargo_build"@ {
        seq!["Cargo.toml"@]
    } else if n == "cargo_test"@ {
        seq!["Cargo.toml"@]
    } else if n == "npm_build"@ {
        seq!["package.json"@]
    } else if n == "npm_test"@ {
        seq!["package.json"@]
    } else if n == "pytest"@ {
        seq!["pytest.ini"@, "tests"@]
    } else if n == "go_test"@ {
        seq!["go.mod"@]
    } else if n == "mvn_test"@ {
        seq!["pom.xml"@]
    } else if n == "rustfmt"@ {
        seq!["Cargo.toml"@]
    } else if n == "prettier"@ {
        seq!["package.json"@]
    } else if n == "black"@ {
        seq!["pytest.ini"@, "tests"@]
    } else if n == "gofmt"@ {
        seq!["go.mod"@]
    } else if n == "clippy"@ {
        seq!["Cargo.toml"@]
    } else if n == "eslint"@ {
        seq!["package.json"@]
    } else if n == "flake8"@ {
        seq!["pytest.ini"@, "tests"@]
    } else {
        Seq::empty()
    }
}

/// Build the tool record for a known name.
fn make_tool(name: &str, command: Vec<String>, markers: Vec<String>) -> (t: Tool)
    ensures
        t.name@ == name@,
        t.command == command,
        t.markers == markers,
        t.safety.allowlist@.len() == 0,
        t.safety.denylist@.len() == 0,
{
    Tool {
        name: name.to_owned(),
        command,
        markers,
        safety: Safety { allowlist: Vec::new(), denylist: Vec::new() },
    }
}

/// Look a tool up by name: exactly the known names are found, each with
/// its command, markers, and an unrestricted argument policy.
pub fn get_tool(name: &str) -> (r: Option<Tool>)
    ensures
        r is Some <==> known_tool(name@),
        r matches Some(t) ==> {
            &&& t.name@ == name@
            &&& t.command.deep_view() == tool_command_spec(name@)
            &&& t.markers.deep_view() == tool_markers_spec(name@)
            &&& t.safety.allowlist@.len() == 0
            &&& t.safety.denylist@.len() == 0
        },
{
    let n = str_chars(name);
    if chars_eq_str(n.as_slice(), "cargo_build") {
        let t = make_tool(name, two_strings("cargo", "build"), one_string("Cargo.toml"));
        assert(t.command.deep_view() =~~= tool_command_spec(name@));
        assert(t.markers.deep_view() =~~= tool_markers_spec(name@));
        Some(t)
    } else if chars_eq_str(n.as_slice(), "cargo_test") {
        let t = make_tool(name, two_strings("cargo", "test"), one_string("Cargo.toml"));
        assert(t.command.deep_view() =~~= tool_command_spec(name@));
        assert(t.markers.deep_view() =~~= tool_markers_spec(name@));
        Some(t)
    } else if chars_eq_str(n.as_slice(), "npm_build") {
        let t = make_tool(name, three_strings("npm", "run", "build"), one_string("package.json"));
        assert(t.command.deep_view() =~~= tool_command_spec(name@));
        assert(t.markers.deep_view() =~~= tool_markers_spec(name@));
        Some(t)
    } else if chars_eq_str(n.as_slice(), "npm_test") {
        let t = make_tool(name, two_strings("npm", "test"), one_string("package.json"));
        assert(t.command.deep_view() =~~= tool_command_spec(name@));
        assert(t.markers.deep_view() =~~= tool_markers_spec(name@));
        Some(t)
    } else if chars_eq_str(n.as_slice(), "pytest") {
        let t = make_tool(name, one_string("pytest"), two_strings("pytest.ini", "tests"));
        assert(t.command.deep_view() =~~= tool_command_spec(name@));
        assert(t.markers.deep_view() =~~= tool_markers_spec(name@));
        Some(t)
    } else if chars_eq_str(n.as_slice(), "go_test") {
        let t = make_tool(name, two_strings("go", "test"), one_string("go.mod"));
        assert(t.command.deep_view() =~~= tool_command_spec(name@));
        assert(t.markers.deep_view() =~~= tool_markers_spec(name@));
        Some(t)
    } else if chars_eq_str(n.as_slice(), "mvn_test") {
        let t = make_tool(name, two_strings("mvn", "test"), one_string("pom.xml"));
        assert(t.command.deep_view() =~~= tool_command_spec(name@));
        assert(t.markers.deep_view() =~~= tool_markers_spec(name@));
        Some(t)
    } else if chars_eq_str(n.as_slice(), "rustfmt") {
        let t = make_tool(name, one_string("rustfmt"), one_string("Cargo.toml"));
        assert(t.command.deep_view() =~~= tool_command_spec(name@));
        assert(t.markers.deep_view() =~~= tool_markers_spec(name@));
        Some(t)
    } else if chars_eq_str(n.as_slice(), "prettier") {
        let t = make_tool(name, three_strings("prettier", "--write", "."), one_string(
            "package.json",
        ));
        assert(t.command.deep_view() =~~= tool_command_spec(name@));
        assert(t.markers.deep_view() =~~= tool_markers_spec(name@));
        Some(t)
    } else if chars_eq_str(n.as_slice(), "black") {
        let t = make_tool(name, two_strings("black", "."), two_strings("pytest.ini", "tests"));
        assert(t.command.deep_view() =~~= tool_command_spec(name@));
        assert(t.markers.deep_view() =~~= tool_markers_spec(name@));
        Some(t)
    } else if chars_eq_str(n.as_slice(), "gofmt") {
        let t = make_tool(name, three_strings("gofmt", "-w", "."), one_string("go.mod"));
        assert(t.command.deep_view() =~~= tool_command_spec(name@));
        assert(t.markers.deep_view() =~~= tool_markers_spec(name@));
        Some(t)
    } else if chars_eq_str(n.as_slice(), "clippy") {
        let t = make_tool(name, two_strings("cargo", "clippy"), one_string("Cargo.toml"));
        assert(t.command.deep_view() =~~= tool_command_spec(name@));
        assert(t.markers.deep_view() =~~= tool_markers_spec(name@));
        Some(t)
    } else if chars_eq_str(n.as_slice(), "eslint") {
        let t = make_tool(name, two_strings("eslint", "."), one_string("package.json"));
        assert(t.command.deep_view() =~~= tool_command_spec(name@));
        assert(t.markers.deep_view() =~~= tool_markers_spec(name@));
        Some(t)
    } else if chars_eq_str(n.as_slice(), "flake8") {
        let t = make_tool(name, one_string("flake8"), two_strings("pytest.ini", "tests"));
        assert(t.command.deep_view() =~~= tool_command_spec(name@));
        assert(t.markers.deep_view() =~~= tool_markers_spec(name@));
        Some(t)
    } else if chars_eq_str(n.as_slice(), "grep") || chars_eq_str(n.as_slice(), "ripgrep")
        || chars_eq_str(n.as_slice(), "git_diff") {
        let t = make_tool(name, Vec::new(), Vec::new());
        assert(t.command.deep_view() =~~= tool_command_spec(name@));
        assert(t.markers.deep_view() =~~= tool_markers_spec(name@));
        Some(t)
    } else {
        None
    }
}

/// One owned string in a vector.
pub fn one_string(a: &str) -> (r: Vec<String>)
    ensures
        r.deep_view() =~= seq![a@],
{
    let mut v: Vec<String> = Vec::new();
    v.push(a.to_owned());
    proof {
        assert(v.deep_view() =~~= seq![a@]);
    }
    v
}

/// Two owned strings in a vector.
pub fn two_strings(a: &str, b: &str) -> (r: Vec<String>)
    ensures
        r.deep_view() =~= seq![a@, b@],
{
    let mut v: Vec<String> = Vec::new();
    v.push(a.to_owned());
    v.push(b.to_owned());
    proof {
        assert(v.deep_view() =~~= seq![a@, b@]);
    }
    v
}

/// Three owned strings in a vector.
pub fn three_strings(a: &str, b: &str, c: &str) -> (r: Vec<String>)
    ensures
        r.deep_view() =~= seq![a@, b@, c@],
{
    let mut v: Vec<String> = Vec::new();
    v.push(a.to_owned());
    v.push(b.to_owned());
    v.push(c.to_owned());
    proof {
        assert(v.deep_view() =~~= seq![a@, b@, c@]);
    }
    v
}

/// Every known tool name, in the registry's order.
pub fn list_tools() -> (r: Vec<String>)
    ensures
        r.deep_view() =~= seq![
            "cargo_build"@,
            "cargo_test"@,
            "npm_build"@,
            "npm_test"@,
            "pytest"@,
            "go_test"@,
            "mvn_test"@,
            "rustfmt"@,
            "prettier"@,
            "black"@,
            "gofmt"@,
            "clippy"@,
            "eslint"@,
            "flake8"@,
            "grep"@,
            "ripgrep"@,
            "git_diff"@,
        ],
        forall|i: int| 0 <= i < r.deep_view().len() ==> known_tool(#[trigger] r.deep_view()[i]),
{
    let mut v: Vec<String> = Vec::new();
    v.push("cargo_build".to_owned());
    v.push("cargo_test".to_owned());
    v.push("npm_build".to_owned());
    v.push("npm_test".to_owned());
    v.push("pytest".to_owned());
    v.push("go_test".to_owned());
    v.push("mvn_test".to_owned());
    v.push("rustfmt".to_owned());
    v.push("prettier".to_owned());
    v.push("black".to_owned());
    v.push("gofmt".to_owned());
    v.push("clippy".to_owned());
    v.push("eslint".to_owned());
    v.push("flake8".to_owned());
    v.push("grep".to_owned());
    v.push("ripgrep".to_owned());
    v.push("git_diff".to_owned());
    proof {
        assert(v.deep_view() =~~= seq![
            "cargo_build"@,
            "cargo_test"@,
            "npm_build"@,
            "npm_test"@,
            "pytest"@,
            "go_test"@,
            "mvn_test"@,
            "rustfmt"@,
            "prettier"@,
            "black"@,
            "gofmt"@,
            "clippy"@,
            "eslint"@,
            "flake8"@,
            "grep"@,
            "ripgrep"@,
            "git_diff"@,
        ]);
    }
    v
}

/// Why a tool invocation is refused.
#[derive(Clone, Copy, Debug, PartialEq, Eq, Structural)]
pub enum ToolError {
    /// No tool of that name is registered.
    NotFound,
    /// An argument is on the tool's denylist.
    ArgDenied,
    /// The tool restricts arguments and one is not on its allowlist.
    ArgNotAllowed,
}

/// Whether a string list holds `s`.
fn contains_string(list: &Vec<String>, s: &str) -> (r: bool)
    ensures
        r == list.deep_view().contains(s@),
{
    let n = list.len();
    let mut i: usize = 0;
    while i < n
        invariant
            n == list@.len(),
            i <= n,
            forall|k: int| 0 <= k < i ==> list.deep_view()[k] != s@,
        decreases n - i,
    {
        if str_eq(list[i].as_str(), s) {
            assert(list.deep_view()[i as int] == s@);
            return true;
        }
        assert(list.deep_view()[i as int] == list@[i as int]@);
        i += 1;
    }
    assert(forall|k: int| 0 <= k < list.deep_view().len() ==> list.deep_view()[k] != s@);
    false
}

/// The arguments pass the tool's policy: none is denied, and when an
/// allowlist exists every argument is on it.
pub open spec fn args_admitted(safety_allow: Seq<Seq<char>>, safety_deny: Seq<Seq<char>>, args: Seq<Seq<char>>) -> bool {
    forall|i: int|
        0 <= i < args.len() ==> !safety_deny.contains(#[trigger] args[i]) && (safety_allow.len()
            == 0 || safety_allow.contains(args[i]))
}

/// Check the arguments against the tool's policy.
pub fn check_tool_args(tool: &Tool, args: &Vec<String>) -> (r: Result<(), ToolError>)
    ensures
        r is Ok <==> args_admitted(
            tool.safety.allowlist.deep_view(),
            tool.safety.denylist.deep_view(),
            args.deep_view(),
        ),
        r matches Err(e) ==> (e == ToolError::ArgDenied || e == ToolError::ArgNotAllowed),
{
    let n = args.len();
    let mut i: usize = 0;
    while i < n
        invariant
            n == args@.len(),
            i <= n,
            forall|k: int|
                0 <= k < i ==> !tool.safety.denylist.deep_view().contains(
                    #[trigger] args.deep_view()[k],
                ) && (tool.safety.allowlist.deep_view().len() == 0
                    || tool.safety.allowlist.deep_view().contains(args.deep_view()[k])),
        decreases n - i,
    {
        proof {
            assert(args.deep_view()[i as int] == args@[i as int]@);
        }
        if contains_string(&tool.safety.denylist, args[i].as_str()) {
            return Err(ToolError::ArgDenied);
        }
        if tool.safety.allowlist.len() > 0 && !contains_string(
            &tool.safety.allowlist,
            args[i].as_str(),
        ) {
            return Err(ToolError::ArgNotAllowed);
        }
        i += 1;
    }
    Ok(())
}

/// Resolve a tool invocation: the registered command to spawn, or the
/// caller's own arguments for the pass-through tools. An unknown name is
/// `NotFound`; arguments must pass the tool's policy.
pub fn tool_invocation(name: &str, args: &Vec<String>) -> (r: Result<Vec<String>, ToolError>)
    ensures
        !known_tool(name@) <==> (r matches Err(e) && e == ToolError::NotFound),
        r matches Ok(argv) ==> {
            &&& known_tool(name@)
            &&& argv.deep_view() == if tool_command_spec(name@).len() > 0 {
                tool_command_spec(name@)
            } else {
                args.deep_view()
            }
        },
{
    let tool = match get_tool(name) {
        Some(t) => t,
        None => {
            return Err(ToolError::NotFound);
        },
    };
    match check_tool_args(&tool, args) {
        Ok(_) => {},
        Err(_) => {
            assert(false);
        },
    }
    if tool.command.len() > 0 {
        Ok(tool.command)
    } else {
        let mut argv: Vec<String> = Vec::new();
        let n = args.len();
        let mut i: usize = 0;
        while i < n
            invariant
                n == args@.len(),
                i <= n,
                argv.deep_view() == args.deep_view().subrange(0, i as int),
            decreases n - i,
        {
            let ghost before = argv.deep_view();
            argv.push(args[i].clone());
            proof {
                assert(args.deep_view()[i as int] == args@[i as int]@);
                assert(argv.deep_view() =~~= before.push(args.deep_view()[i as int]));
                assert(before.push(args.deep_view()[i as int]) =~= args.deep_view().subrange(
                    0,
                    i + 1 as int,
                ));
            }
            i += 1;
        }
        proof {
            assert(argv.deep_view() =~~= args.deep_view());
        }
        Ok(argv)
    }
}

} // verus!
