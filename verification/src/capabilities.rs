//! Detected capabilities of the host: which LM providers are configured
//! and which tool binaries are installed. The planner consumes the
//! manifest through a human-readable preamble; the executor consults
//! `can_run` before letting an action through.

use vstd::prelude::*;
use vstd::string::StringExecFns;

verus! {

/// Configured LM providers and the chosen model and endpoint.
#[derive(Clone, Debug)]
pub struct Providers {
    pub openai: bool,
    pub groq: bool,
    pub local: bool,
    pub anthropic: bool,
    pub model: String,
    pub base_url: String,
}

/// Tool binaries found on PATH, plus the always-present `fs` capability.
#[derive(Clone, Debug)]
pub struct Tools {
    pub fs: bool,
    pub cargo: bool,
    pub npm: bool,
    pub bun: bool,
    pub pnpm: bool,
    pub yarn: bool,
    pub pytest: bool,
    pub go: bool,
    pub mvn: bool,
    pub git: bool,
    pub github: bool,
    pub rg: bool,
    pub grep: bool,
    pub prettier: bool,
    pub eslint: bool,
    pub rustfmt: bool,
    pub clippy: bool,
}

/// Everything the host offers: providers and tools.
#[derive(Clone, Debug)]
pub struct Manifest {
    pub providers: Providers,
    pub tools: Tools,
}

/// Relies on `which::which`: whether a binary of that name is on PATH.
/// The answer depends on the machine, so nothing is promised of it.
#[verifier::external_body]
fn binary_on_path(name: &str) -> bool {
    which::which(name).is_ok()
}

/// The program names whose availability the manifest records directly.
pub open spec fn known_program(p: Seq<char>) -> bool {
    ||| p == "cargo"@ || p == "npm"@ || p == "bun"@ || p == "pnpm"@ || p == "yarn"@
    ||| p == "pytest"@ || p == "go"@ || p == "mvn"@ || p == "git"@ || p == "gh"@
    ||| p == "github"@ || p == "rg"@ || p == "grep"@ || p == "prettier"@ || p == "eslint"@
    ||| p == "rustfmt"@ || p == "cargo-clippy"@ || p == "clippy"@
}

/// The manifest's answer for a known program name.
pub open spec fn spec_can_run_known(t: Tools, p: Seq<char>) -> bool {
    if p == "cargo"@ {
        t.cargo
    } else if p == "npm"@ {
        t.npm
    } else if p == "bun"@ {
        t.bun
    } else if p == "pnpm"@ {
        t.pnpm
    } else if p == "yarn"@ {
        t.yarn
    } else if p == "pytest"@ {
        t.pytest
    } else if p == "go"@ {
        t.go
    } else if p == "mvn"@ {
        t.mvn
    } else if p == "git"@ {
        t.git
    } else if p == "gh"@ || p == "github"@ {
        t.github
    } else if p == "rg"@ {
        t.rg
    } else if p == "grep"@ {
        t.grep
    } else if p == "prettier"@ {
        t.prettier
    } else if p == "eslint"@ {
        t.eslint
    } else if p == "rustfmt"@ {
        t.rustfmt
    } else if p == "cargo-clippy"@ || p == "clippy"@ {
        t.clippy
    } else {
        false
    }
}

/// Whether the host can run `program`, and why not when it cannot. A
/// known program goes by the manifest; an unknown one falls back to a
/// PATH lookup, of which nothing is promised.
pub fn can_run(manifest: &Manifest, program: &str) -> (r: (bool, Option<String>))
    ensures
        known_program(program@) ==> r.0 == spec_can_run_known(manifest.tools, program@),
        r.1 is Some <==> !r.0,
        r.0 ==> r.1 is None,
        !r.0 ==> (r.1 matches Some(m) && m@ == "binary `"@ + program@ + "` not on PATH"@),
{
    let t = &manifest.tools;
    let p = program.to_owned();
    let ok = if p == "cargo".to_owned() {
        t.cargo
    } else if p == "npm".to_owned() {
        t.npm
    } else if p == "bun".to_owned() {
        t.bun
    } else if p == "pnpm".to_owned() {
        t.pnpm
    } else if p == "yarn".to_owned() {
        t.yarn
    } else if p == "pytest".to_owned() {
        t.pytest
    } else if p == "go".to_owned() {
        t.go
    } else if p == "mvn".to_owned() {
        t.mvn
    } else if p == "git".to_owned() {
        t.git
    } else if p == "gh".to_owned() || p == "github".to_owned() {
        t.github
    } else if p == "rg".to_owned() {
        t.rg
    } else if p == "grep".to_owned() {
        t.grep
    } else if p == "prettier".to_owned() {
        t.prettier
    } else if p == "eslint".to_owned() {
        t.eslint
    } else if p == "rustfmt".to_owned() {
        t.rustfmt
    } else if p == "cargo-clippy".to_owned() || p == "clippy".to_owned() {
        t.clippy
    } else {
        binary_on_path(program)
    };
    if ok {
        (true, None)
    } else {
        let mut msg: String = "binary `".to_owned();
        msg.append(program);
        msg.append("` not on PATH");
        assert(msg@ =~= "binary `"@ + program@ + "` not on PATH"@);
        (false, Some(msg))
    }
}

/// The base URL the manifest selects: an explicit endpoint from the
/// environment wins, otherwise the provider with a key decides.
pub open spec fn spec_base_url(
    openai_url: Option<Seq<char>>,
    groq_url: Option<Seq<char>>,
    groq: bool,
) -> Seq<char> {
    if openai_url is Some {
        openai_url->0
    } else if groq_url is Some {
        groq_url->0
    } else if groq {
        "https://api.groq.com/openai/v1"@
    } else {
        "https://api.openai.com/v1"@
    }
}

/// Select the base URL from the environment values the caller read.
pub fn choose_base_url(openai_url: Option<String>, groq_url: Option<String>, groq: bool) -> (r:
    String)
    ensures
        r@ == spec_base_url(
            match openai_url {
                Some(s) => Some(s@),
                None => None,
            },
            match groq_url {
                Some(s) => Some(s@),
                None => None,
            },
            groq,
        ),
{
    match openai_url {
        Some(s) => s,
        None => match groq_url {
            Some(s) => s,
            None => {
                if groq {
                    "https://api.groq.com/openai/v1".to_owned()
                } else {
                    "https://api.openai.com/v1".to_owned()
                }
            },
        },
    }
}

/// The model the manifest selects: the environment value wins, otherwise
/// the provider with a key decides the default.
pub open spec fn spec_model(env_model: Option<Seq<char>>, groq: bool) -> Seq<char> {
    if env_model is Some {
        env_model->0
    } else if groq {
        "llama-3.3-70b-versatile"@
    } else {
        "gpt-4o-mini"@
    }
}

/// Select the model identifier from the environment value the caller read.
pub fn choose_model(env_model: Option<String>, groq: bool) -> (r: String)
    ensures
        r@ == spec_model(
            match env_model {
                Some(s) => Some(s@),
                None => None,
            },
            groq,
        ),
{
    match env_model {
        Some(s) => s,
        None => {
            if groq {
                "llama-3.3-70b-versatile".to_owned()
            } else {
                "gpt-4o-mini".to_owned()
            }
        },
    }
}

/// One enabled-tool line of the preamble, or nothing when the tool is
/// absent.
pub open spec fn tool_line(line: Seq<char>, on: bool) -> Seq<char> {
    if on {
        line
    } else {
        Seq::empty()
    }
}

/// The full capabilities preamble the planner sees.
pub open spec fn spec_preamble(m: Manifest) -> Seq<char> {
    "A file index listing project files is provided for a birds-eye view.\nUse the `fs` capability for file operations:\n- add paths to `read` to view file contents\n- provide {path,intent} entries in `edit` to modify files\n- list paths in `delete` to remove them\n\nYou can also request actions to run other tools.\nEnabled tools:"@
        + tool_line("\n- fs"@, m.tools.fs) + tool_line("\n- cargo"@, m.tools.cargo) + tool_line(
        "\n- npm"@,
        m.tools.npm,
    ) + tool_line("\n- bun"@, m.tools.bun) + tool_line("\n- pnpm"@, m.tools.pnpm) + tool_line(
        "\n- yarn"@,
        m.tools.yarn,
    ) + tool_line("\n- pytest"@, m.tools.pytest) + tool_line("\n- go"@, m.tools.go) + tool_line(
        "\n- mvn"@,
        m.tools.mvn,
    ) + tool_line("\n- git"@, m.tools.git) + tool_line("\n- github"@, m.tools.github) + tool_line(
        "\n- rg"@,
        m.tools.rg,
    ) + tool_line("\n- grep"@, m.tools.grep) + tool_line("\n- prettier"@, m.tools.prettier)
        + tool_line("\n- eslint"@, m.tools.eslint) + tool_line("\n- rustfmt"@, m.tools.rustfmt)
        + tool_line("\n- clippy"@, m.tools.clippy) + "\n\nLLM provider base_url = "@
        + m.providers.base_url@ + ", model = "@ + m.providers.model@
}

/// Append one tool line when the tool is enabled.
fn add_tool_line(s: &mut String, line: &str, on: bool)
    ensures
        final(s)@ == old(s)@ + tool_line(line@, on),
{
    if on {
        s.append(line);
    } else {
        assert(s@ =~= old(s)@ + tool_line(line@, on));
    }
}

/// The short text the planner sees as its capabilities preamble: the
/// fixed instructions, one line per enabled tool, and the provider's
/// endpoint and model.
#[verifier::rlimit(60)]
pub fn system_preamble(manifest: &Manifest) -> (r: String)
    ensures
        r@ == spec_preamble(*manifest),
{
    let t = &manifest.tools;
    let mut s: String =
        "A file index listing project files is provided for a birds-eye view.\nUse the `fs` capability for file operations:\n- add paths to `read` to view file contents\n- provide {path,intent} entries in `edit` to modify files\n- list paths in `delete` to remove them\n\nYou can also request actions to run other tools.\nEnabled tools:".to_owned();
    add_tool_line(&mut s, "\n- fs", t.fs);
    add_tool_line(&mut s, "\n- cargo", t.cargo);
    add_tool_line(&mut s, "\n- npm", t.npm);
    add_tool_line(&mut s, "\n- bun", t.bun);
    add_tool_line(&mut s, "\n- pnpm", t.pnpm);
    add_tool_line(&mut s, "\n- yarn", t.yarn);
    add_tool_line(&mut s, "\n- pytest", t.pytest);
    add_tool_line(&mut s, "\n- go", t.go);
    add_tool_line(&mut s, "\n- mvn", t.mvn);
    add_tool_line(&mut s, "\n- git", t.git);
    add_tool_line(&mut s, "\n- github", t.github);
    add_tool_line(&mut s, "\n- rg", t.rg);
    add_tool_line(&mut s, "\n- grep", t.grep);
    add_tool_line(&mut s, "\n- prettier", t.prettier);
    add_tool_line(&mut s, "\n- eslint", t.eslint);
    add_tool_line(&mut s, "\n- rustfmt", t.rustfmt);
    add_tool_line(&mut s, "\n- clippy", t.clippy);
    s.append("\n\nLLM provider base_url = ");
    s.append(manifest.providers.base_url.as_str());
    s.append(", model = ");
    s.append(manifest.providers.model.as_str());
    assert(s@ =~= spec_preamble(*manifest));
    s
}

} // verus!
