//! Logic behind the PTY runner: shell quoting, the `cd … && program args`
//! command line handed to the shell, the allow/deny safety policy applied
//! before a spawn, and the bounded tail kept of the captured output. The
//! PTY itself (spawning, draining, resizing) lives outside the library and
//! consumes these functions.

use vstd::prelude::*;
use vstd::string::StringExecFns;

use crate::text::{matches_at, str_chars, string_from_chars, chars_eq_str};

verus! {

/// Characters that never need quoting on a POSIX shell command line.
pub open spec fn shell_safe_char(c: char) -> bool {
    ||| ('a' <= c && c <= 'z')
    ||| ('A' <= c && c <= 'Z')
    ||| ('0' <= c && c <= '9')
    ||| c == '-' || c == '_' || c == '.' || c == '/' || c == ':' || c == '@'
}

/// Exec test of the class above.
pub fn shell_safe(c: char) -> (r: bool)
    ensures
        r == shell_safe_char(c),
{
    ('a' <= c && c <= 'z') || ('A' <= c && c <= 'Z') || ('0' <= c && c <= '9') || c == '-'
        || c == '_' || c == '.' || c == '/' || c == ':' || c == '@'
}

/// The single-quote escape: a quote becomes `'"'"'`, everything else is
/// unchanged.
pub open spec fn escape_char(c: char) -> Seq<char> {
    if c == '\'' {
        seq!['\'', '"', '\'', '"', '\'']
    } else {
        seq![c]
    }
}

/// The body of a single-quoted string, with every quote escaped.
pub open spec fn quote_escaped(s: Seq<char>) -> Seq<char>
    decreases s.len(),
{
    if s.len() == 0 {
        Seq::empty()
    } else {
        escape_char(s[0]) + quote_escaped(s.skip(1))
    }
}

/// Escaping distributes over appending one character at the end.
pub proof fn lemma_quote_escaped_push(s: Seq<char>, c: char)
    ensures
        quote_escaped(s.push(c)) == quote_escaped(s) + escape_char(c),
    decreases s.len(),
{
    let t = s.push(c);
    if s.len() == 0 {
        assert(t[0] == c);
        assert(t.skip(1) =~= Seq::<char>::empty());
        assert(quote_escaped(t.skip(1)) =~= Seq::<char>::empty());
        assert(quote_escaped(t) == escape_char(c) + quote_escaped(t.skip(1)));
        assert(quote_escaped(t) =~= quote_escaped(s) + escape_char(c));
    } else {
        assert(t[0] == s[0]);
        assert(t.skip(1) =~= s.skip(1).push(c));
        lemma_quote_escaped_push(s.skip(1), c);
        assert(quote_escaped(t) == escape_char(t[0]) + quote_escaped(t.skip(1)));
        assert(quote_escaped(s) == escape_char(s[0]) + quote_escaped(s.skip(1)));
        assert(quote_escaped(t) =~= quote_escaped(s) + escape_char(c));
    }
}

/// What `shell_quote` owes: the empty string becomes `''`, a string of
/// safe characters is unchanged, anything else is single-quoted with its
/// quotes escaped.
pub open spec fn spec_shell_quote(s: Seq<char>) -> Seq<char> {
    if s.len() == 0 {
        seq!['\'', '\'']
    } else if forall|i: int| 0 <= i < s.len() ==> shell_safe_char(s[i]) {
        s
    } else {
        seq!['\''] + quote_escaped(s) + seq!['\'']
    }
}

/// Quote one word for a POSIX shell command line.
pub fn shell_quote(s: &str) -> (r: String)
    ensures
        r@ == spec_shell_quote(s@),
{
    let chars = str_chars(s);
    let n = chars.len();
    if n == 0 {
        let out: Vec<char> = vec!['\'', '\''];
        assert(out@ =~= spec_shell_quote(s@));
        return string_from_chars(out.as_slice());
    }
    let mut all_safe = true;
    let mut i: usize = 0;
    while i < n
        invariant
            n == chars@.len(),
            chars@ == s@,
            i <= n,
            all_safe == forall|k: int| 0 <= k < i ==> shell_safe_char(s@[k]),
        decreases n - i,
    {
        if !shell_safe(chars[i]) {
            all_safe = false;
            assert(!shell_safe_char(s@[i as int]));
            assert(!(forall|k: int| 0 <= k < i + 1 ==> shell_safe_char(s@[k])));
        } else {
            assert(all_safe ==> forall|k: int| 0 <= k < i + 1 ==> shell_safe_char(s@[k]));
        }
        i += 1;
    }
    if all_safe {
        return s.to_owned();
    }
    let mut out: Vec<char> = vec!['\''];
    assert(out@ =~= seq!['\''] + quote_escaped(s@.subrange(0, 0)));
    let mut i: usize = 0;
    while i < n
        invariant
            n == chars@.len(),
            chars@ == s@,
            i <= n,
            out@ == seq!['\''] + quote_escaped(s@.subrange(0, i as int)),
        decreases n - i,
    {
        let c = chars[i];
        proof {
            lemma_quote_escaped_push(s@.subrange(0, i as int), s@[i as int]);
            assert(s@.subrange(0, i + 1 as int) =~= s@.subrange(0, i as int).push(s@[i as int]));
        }
        if c == '\'' {
            out.push('\'');
            out.push('"');
            out.push('\'');
            out.push('"');
            out.push('\'');
        } else {
            out.push(c);
        }
        assert(out@ =~= seq!['\''] + quote_escaped(s@.subrange(0, i + 1 as int)));
        i += 1;
    }
    out.push('\'');
    proof {
        assert(s@.subrange(0, n as int) =~= s@);
        assert(out@ =~= seq!['\''] + quote_escaped(s@) + seq!['\'']);
    }
    string_from_chars(out.as_slice())
}

/// Quote a filesystem path, given as the text the caller displays it as.
pub fn shell_quote_path(p: &str) -> (r: String)
    ensures
        r@ == spec_shell_quote(p@),
{
    shell_quote(p)
}

/// The quoted arguments, each preceded by one space.
pub open spec fn quoted_args(args: Seq<Seq<char>>) -> Seq<char>
    decreases args.len(),
{
    if args.len() == 0 {
        Seq::empty()
    } else {
        seq![' '] + spec_shell_quote(args[0]) + quoted_args(args.skip(1))
    }
}

/// Quoting distributes over appending one argument at the end.
pub proof fn lemma_quoted_args_push(args: Seq<Seq<char>>, a: Seq<char>)
    ensures
        quoted_args(args.push(a)) == quoted_args(args) + seq![' '] + spec_shell_quote(a),
    decreases args.len(),
{
    let t = args.push(a);
    if args.len() == 0 {
        assert(t[0] == a);
        assert(t.skip(1) =~= Seq::<Seq<char>>::empty());
        assert(quoted_args(t.skip(1)) =~= Seq::<char>::empty());
        assert(quoted_args(t) == seq![' '] + spec_shell_quote(a) + quoted_args(t.skip(1)));
        assert(quoted_args(t) =~= quoted_args(args) + seq![' '] + spec_shell_quote(a));
    } else {
        assert(t[0] == args[0]);
        assert(t.skip(1) =~= args.skip(1).push(a));
        lemma_quoted_args_push(args.skip(1), a);
        assert(quoted_args(t) == seq![' '] + spec_shell_quote(t[0]) + quoted_args(t.skip(1)));
        assert(quoted_args(args) == seq![' '] + spec_shell_quote(args[0]) + quoted_args(
            args.skip(1),
        ));
        assert(quoted_args(t) =~= quoted_args(args) + seq![' '] + spec_shell_quote(a));
    }
}

/// The command line handed to the login shell: change into the working
/// directory, then run the quoted program with its quoted arguments.
pub open spec fn spec_command_line(
    program: Seq<char>,
    args: Seq<Seq<char>>,
    workdir: Seq<char>,
) -> Seq<char> {
    "cd "@ + spec_shell_quote(workdir) + " && "@ + spec_shell_quote(program) + quoted_args(args)
}

/// Build the shell command line for a PTY run.
pub fn build_command_line(program: &str, args: &Vec<String>, workdir: &str) -> (r: String)
    ensures
        r@ == spec_command_line(program@, args.deep_view(), workdir@),
{
    let mut line: String = "cd ".to_owned();
    let qwd = shell_quote_path(workdir);
    line.append(qwd.as_str());
    line.append(" && ");
    let qp = shell_quote(program);
    line.append(qp.as_str());
    let n = args.len();
    let mut i: usize = 0;
    assert(args.deep_view().subrange(0, 0) =~= Seq::<Seq<char>>::empty());
    assert(line@ =~= "cd "@ + spec_shell_quote(workdir@) + " && "@ + spec_shell_quote(program@)
        + quoted_args(args.deep_view().subrange(0, 0)));
    while i < n
        invariant
            n == args@.len(),
            i <= n,
            line@ == "cd "@ + spec_shell_quote(workdir@) + " && "@ + spec_shell_quote(program@)
                + quoted_args(args.deep_view().subrange(0, i as int)),
        decreases n - i,
    {
        proof {
            reveal_strlit(" ");
            assert(" "@ =~= seq![' ']);
            lemma_quoted_args_push(args.deep_view().subrange(0, i as int), args@[i as int]@);
            assert(args.deep_view().subrange(0, i + 1 as int) =~= args.deep_view().subrange(
                0,
                i as int,
            ).push(args@[i as int]@));
        }
        line.append(" ");
        let qa = shell_quote(args[i].as_str());
        line.append(qa.as_str());
        assert(line@ =~= "cd "@ + spec_shell_quote(workdir@) + " && "@ + spec_shell_quote(
            program@,
        ) + quoted_args(args.deep_view().subrange(0, i + 1 as int)));
        i += 1;
    }
    proof {
        assert(args.deep_view().subrange(0, n as int) =~= args.deep_view());
    }
    line
}

/// `s` ends with `suffix`.
pub open spec fn ends_with(s: Seq<char>, suffix: Seq<char>) -> bool {
    matches_at(s, suffix, s.len() - suffix.len())
}

/// Exec test of the suffix relation.
pub fn chars_end_with(s: &[char], suffix: &[char]) -> (r: bool)
    ensures
        r == ends_with(s@, suffix@),
{
    if suffix.len() > s.len() {
        return false;
    }
    let i = s.len() - suffix.len();
    crate::text::check_match_at(s, suffix, i)
}

/// The program path ends in one of the names denied for PTY runs.
pub open spec fn pty_denied(p: Seq<char>) -> bool {
    ||| ends_with(p, "rm"@)
    ||| ends_with(p, "sudo"@)
    ||| ends_with(p, "shutdown"@)
    ||| ends_with(p, "reboot"@)
    ||| ends_with(p, "halt"@)
    ||| ends_with(p, "poweroff"@)
    ||| ends_with(p, "mkfs"@)
    ||| ends_with(p, "dd"@)
    ||| ends_with(p, "chmod"@)
    ||| ends_with(p, "chown"@)
    ||| ends_with(p, "kill"@)
    ||| ends_with(p, "killall"@)
    ||| ends_with(p, "pkill"@)
    ||| ends_with(p, "passwd"@)
    ||| ends_with(p, "useradd"@)
    ||| ends_with(p, "usermod"@)
    ||| ends_with(p, "userdel"@)
}

/// A removal with a recursive or forcing flag among the arguments.
pub open spec fn rm_with_force(p: Seq<char>, args: Seq<Seq<char>>) -> bool {
    ends_with(p, "rm"@) && exists|i: int|
        0 <= i < args.len() && (args[i] == "-rf"@ || args[i] == "-r"@ || args[i] == "-f"@)
}

/// `a` bounds the basename of `p`: everything from the last separator on.
pub open spec fn basename_bounds(p: Seq<char>, a: int) -> bool {
    &&& 0 <= a <= p.len()
    &&& forall|k: int| a <= k < p.len() ==> p[k] != '/'
    &&& (a > 0 ==> p[a - 1] == '/')
}

/// The basename of a program path.
pub open spec fn spec_basename(p: Seq<char>) -> Seq<char> {
    let a = choose|a: int| basename_bounds(p, a);
    p.subrange(a, p.len() as int)
}

/// Two basename bounds agree.
pub proof fn lemma_basename_bounds_unique(p: Seq<char>, a1: int, a2: int)
    requires
        basename_bounds(p, a1),
        basename_bounds(p, a2),
    ensures
        a1 == a2,
{
    if a1 < a2 {
        assert(p[a2 - 1] == '/');
        assert(p[a2 - 1] != '/');
    }
    if a2 < a1 {
        assert(p[a1 - 1] == '/');
        assert(p[a1 - 1] != '/');
    }
}

/// The basename of `p`, as executable code.
pub fn basename_chars(p: &[char]) -> (r: Vec<char>)
    ensures
        r@ == spec_basename(p@),
{
    let n = p.len();
    let mut a: usize = n;
    while a > 0 && p[a - 1] != '/'
        invariant
            n == p@.len(),
            a <= n,
            forall|k: int| a <= k < n ==> p@[k] != '/',
        decreases a,
    {
        a -= 1;
    }
    assert(basename_bounds(p@, a as int));
    let mut r: Vec<char> = Vec::new();
    let mut i: usize = a;
    while i < n
        invariant
            a <= i <= n <= p@.len(),
            n == p@.len(),
            r@ == p@.subrange(a as int, i as int),
        decreases n - i,
    {
        r.push(p[i]);
        assert(r@ =~= p@.subrange(a as int, i + 1 as int));
        i += 1;
    }
    proof {
        let a2 = choose|x: int| basename_bounds(p@, x);
        lemma_basename_bounds_unique(p@, a as int, a2);
        assert(r@ =~= p@.subrange(a as int, n as int));
    }
    r
}

/// The basename names one of the common safe development commands
/// accepted for PTY runs.
pub open spec fn pty_allowlisted(b: Seq<char>) -> bool {
    ||| b == "cargo"@ || b == "make"@ || b == "npm"@ || b == "yarn"@ || b == "go"@
    ||| b == "python"@ || b == "python3"@ || b == "node"@ || b == "git"@ || b == "bash"@
    ||| b == "sh"@ || b == "zsh"@ || b == "ls"@ || b == "cat"@ || b == "echo"@
    ||| b == "grep"@ || b == "sed"@ || b == "awk"@ || b == "gcc"@ || b == "g++"@
    ||| b == "clang"@ || b == "clang++"@ || b == "rustc"@ || b == "rustup"@
    ||| b == "cargo-build"@ || b == "cargo-test"@ || b == "cargo-run"@
}

/// What the PTY safety policy decides before a spawn.
#[derive(Clone, Copy, Debug, PartialEq, Eq, Structural)]
pub enum SafetyVerdict {
    /// The program may run.
    Allowed,
    /// A removal with a recursive or forcing flag: blocked outright.
    BlockedDestructive,
    /// The program is on the denylist: blocked outright.
    BlockedDenylist,
    /// Not allowlisted and the unsafe override is off.
    BlockedNotAllowed,
}

/// The verdict the policy owes for a program, its arguments and the
/// unsafe-override switch.
pub open spec fn spec_enforce(p: Seq<char>, args: Seq<Seq<char>>, allow_unsafe: bool) -> SafetyVerdict {
    if pty_denied(p) {
        if rm_with_force(p, args) {
            SafetyVerdict::BlockedDestructive
        } else {
            SafetyVerdict::BlockedDenylist
        }
    } else if pty_allowlisted(spec_basename(p)) {
        SafetyVerdict::Allowed
    } else if allow_unsafe {
        SafetyVerdict::Allowed
    } else {
        SafetyVerdict::BlockedNotAllowed
    }
}

/// Allow/deny policy applied before a PTY spawn. `allow_unsafe` is the
/// caller-supplied override for programs outside the allowlist.
pub fn enforce_command_safety(program: &str, args: &Vec<String>, allow_unsafe: bool) -> (v: SafetyVerdict)
    ensures
        v == spec_enforce(program@, args.deep_view(), allow_unsafe),
{
    let p = str_chars(program);
    let rm = str_chars("rm");
    let denied = chars_end_with(p.as_slice(), rm.as_slice())
        || ends_with_str(p.as_slice(), "sudo") || ends_with_str(p.as_slice(), "shutdown")
        || ends_with_str(p.as_slice(), "reboot") || ends_with_str(p.as_slice(), "halt")
        || ends_with_str(p.as_slice(), "poweroff") || ends_with_str(p.as_slice(), "mkfs")
        || ends_with_str(p.as_slice(), "dd") || ends_with_str(p.as_slice(), "chmod")
        || ends_with_str(p.as_slice(), "chown") || ends_with_str(p.as_slice(), "kill")
        || ends_with_str(p.as_slice(), "killall") || ends_with_str(p.as_slice(), "pkill")
        || ends_with_str(p.as_slice(), "passwd") || ends_with_str(p.as_slice(), "useradd")
        || ends_with_str(p.as_slice(), "usermod") || ends_with_str(p.as_slice(), "userdel");
    if denied {
        if chars_end_with(p.as_slice(), rm.as_slice()) && has_force_flag(args) {
            return SafetyVerdict::BlockedDestructive;
        }
        return SafetyVerdict::BlockedDenylist;
    }
    let base = basename_chars(p.as_slice());
    let ok = chars_eq_str(base.as_slice(), "cargo") || chars_eq_str(base.as_slice(), "make")
        || chars_eq_str(base.as_slice(), "npm") || chars_eq_str(base.as_slice(), "yarn")
        || chars_eq_str(base.as_slice(), "go") || chars_eq_str(base.as_slice(), "python")
        || chars_eq_str(base.as_slice(), "python3") || chars_eq_str(base.as_slice(), "node")
        || chars_eq_str(base.as_slice(), "git") || chars_eq_str(base.as_slice(), "bash")
        || chars_eq_str(base.as_slice(), "sh") || chars_eq_str(base.as_slice(), "zsh")
        || chars_eq_str(base.as_slice(), "ls") || chars_eq_str(base.as_slice(), "cat")
        || chars_eq_str(base.as_slice(), "echo") || chars_eq_str(base.as_slice(), "grep")
        || chars_eq_str(base.as_slice(), "sed") || chars_eq_str(base.as_slice(), "awk")
        || chars_eq_str(base.as_slice(), "gcc") || chars_eq_str(base.as_slice(), "g++")
        || chars_eq_str(base.as_slice(), "clang") || chars_eq_str(base.as_slice(), "clang++")
        || chars_eq_str(base.as_slice(), "rustc") || chars_eq_str(base.as_slice(), "rustup")
        || chars_eq_str(base.as_slice(), "cargo-build")
        || chars_eq_str(base.as_slice(), "cargo-test")
        || chars_eq_str(base.as_slice(), "cargo-run");
    if ok {
        SafetyVerdict::Allowed
    } else if allow_unsafe {
        SafetyVerdict::Allowed
    } else {
        SafetyVerdict::BlockedNotAllowed
    }
}

/// Whether some argument is one of the removal force flags.
fn has_force_flag(args: &Vec<String>) -> (r: bool)
    ensures
        r == exists|i: int|
            0 <= i < args.deep_view().len() && (args.deep_view()[i] == "-rf"@
                || args.deep_view()[i] == "-r"@ || args.deep_view()[i] == "-f"@),
{
    let n = args.len();
    let mut i: usize = 0;
    while i < n
        invariant
            n == args@.len(),
            i <= n,
            forall|k: int| #![auto] 0 <= k < i ==> !(args.deep_view()[k] == "-rf"@
                || args.deep_view()[k] == "-r"@ || args.deep_view()[k] == "-f"@),
        decreases n - i,
    {
        let a = str_chars(args[i].as_str());
        if chars_eq_str(a.as_slice(), "-rf") || chars_eq_str(a.as_slice(), "-r")
            || chars_eq_str(a.as_slice(), "-f") {
            assert(args.deep_view()[i as int] == args@[i as int]@);
            return true;
        }
        assert(args.deep_view()[i as int] == args@[i as int]@);
        i += 1;
    }
    false
}

/// Exec suffix test against a string literal.
fn ends_with_str(s: &[char], suffix: &str) -> (r: bool)
    ensures
        r == ends_with(s@, suffix@),
{
    let suf = str_chars(suffix);
    chars_end_with(s, suf.as_slice())
}

/// The last `max` bytes of `all`, or all of it when it is shorter.
pub open spec fn spec_tail(all: Seq<u8>, max: int) -> Seq<u8> {
    if all.len() <= max {
        all
    } else {
        all.subrange(all.len() - max, all.len() as int)
    }
}

/// Append a chunk of captured output to the bounded tail buffer, keeping
/// only the last `max` bytes.
pub fn append_tail(tail: &mut Vec<u8>, chunk: &[u8], max: usize)
    requires
        old(tail)@.len() <= max,
    ensures
        final(tail)@ == spec_tail(old(tail)@ + chunk@, max as int),
        final(tail)@.len() <= max,
{
    let n = chunk.len();
    let mut i: usize = 0;
    while i < n
        invariant
            n == chunk@.len(),
            i <= n,
            tail@ == spec_tail(old(tail)@ + chunk@.subrange(0, i as int), max as int),
            tail@.len() <= max,
        decreases n - i,
    {
        proof {
            assert(old(tail)@ + chunk@.subrange(0, i + 1 as int) =~= (old(tail)@
                + chunk@.subrange(0, i as int)).push(chunk@[i as int]));
        }
        if max == 0 {
            assert(tail@ =~= spec_tail(old(tail)@ + chunk@.subrange(0, i + 1 as int),
                max as int));
            i += 1;
            continue;
        }
        if tail.len() == max {
            tail.remove(0);
        }
        tail.push(chunk[i]);
        assert(tail@ =~= spec_tail(old(tail)@ + chunk@.subrange(0, i + 1 as int), max as int));
        i += 1;
    }
    proof {
        assert(old(tail)@ + chunk@.subrange(0, n as int) =~= old(tail)@ + chunk@);
    }
}

/// Result of a PTY run, as plain values: the child's exit code and
/// success flag, the bounded tail of its output, whether the deadline
/// expired, and any runner-side error text.
pub struct PtyRunResult {
    pub exit_code: u32,
    pub success: bool,
    pub last_output: String,
    pub timed_out: bool,
    pub error: Option<String>,
}

impl PtyRunResult {
    /// Assemble a result from the parts the PTY loop collected.
    pub fn from_parts(
        exit_code: u32,
        success: bool,
        last_output: String,
        timed_out: bool,
        error: Option<String>,
    ) -> (r: PtyRunResult)
        ensures
            r.exit_code == exit_code,
            r.success == success,
            r.last_output == last_output,
            r.timed_out == timed_out,
            r.error == error,
    {
        PtyRunResult { exit_code, success, last_output, timed_out, error }
    }
}

} // verus!
