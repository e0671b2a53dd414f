//! Editing support: the dry-run switch read from configuration text, the
//! shebang line of an ad-hoc snippet, ignore-pattern handling, and the
//! summarizer fallback chain. Editors, temporary files and subprocesses
//! are driven outside the library.

use vstd::prelude::*;

use crate::text::{
    lower_seq, starts_with, str_chars, string_from_chars, to_lower_chars, ws_tokens, split_chars,
    chars_eq_str, chars_start_with, SepClass,
};
use crate::fsutil::merge_spec;

verus! {

/// A configuration value switches a flag on when, lower-cased, it reads
/// `1`, `true` or `yes`.
pub open spec fn spec_truthy(v: Seq<char>) -> bool {
    let l = lower_seq(v);
    l == "1"@ || l == "true"@ || l == "yes"@
}

/// Whether a configuration value switches its flag on.
pub fn truthy(val: &str) -> (r: bool)
    ensures
        r == spec_truthy(val@),
{
    let c = str_chars(val);
    let l = to_lower_chars(c.as_slice());
    chars_eq_str(l.as_slice(), "1") || chars_eq_str(l.as_slice(), "true") || chars_eq_str(
        l.as_slice(),
        "yes",
    )
}

/// What a shebang line names: the interpreter and its arguments, the
/// whitespace tokens after `#!`.
pub open spec fn spec_shebang(line: Seq<char>) -> Option<Seq<Seq<char>>> {
    if starts_with(line, "#!"@) {
        let toks = ws_tokens(line.skip(2));
        if toks.len() > 0 {
            Some(toks)
        } else {
            None
        }
    } else {
        None
    }
}

/// Parse the shebang of a snippet's first line: the interpreter and its
/// arguments, or nothing when the line is no shebang or names nothing.
pub fn parse_shebang(line: &str) -> (r: Option<Vec<String>>)
    ensures
        spec_shebang(line@) is None ==> r is None,
        spec_shebang(line@) matches Some(toks) ==> (r matches Some(v) && v.deep_view() == toks
            && v@.len() > 0),
{
    let chars = str_chars(line);
    let bang = str_chars("#!");
    if !chars_start_with(chars.as_slice(), bang.as_slice()) {
        return None;
    }
    let n = chars.len();
    proof {
        reveal_strlit("#!");
    }
    let mut rest: Vec<char> = Vec::new();
    let mut i: usize = 2;
    while i < n
        invariant
            n == chars@.len(),
            2 <= i <= n,
            n >= 2,
            rest@ == chars@.subrange(2, i as int),
        decreases n - i,
    {
        rest.push(chars[i]);
        assert(rest@ =~= chars@.subrange(2, i + 1 as int));
        i += 1;
    }
    proof {
        assert(rest@ =~= line@.skip(2));
    }
    let toks = split_chars(rest.as_slice(), SepClass::Whitespace);
    if toks.len() == 0 {
        return None;
    }
    let ghost all = toks.deep_view();
    let m = toks.len();
    let mut out: Vec<String> = Vec::new();
    let mut j: usize = 0;
    while j < m
        invariant
            m == toks@.len(),
            j <= m,
            all == toks.deep_view(),
            out.deep_view() == all.subrange(0, j as int),
        decreases m - j,
    {
        proof {
            assert(all[j as int] == toks@[j as int]@);
        }
        let ghost before = out.deep_view();
        out.push(string_from_chars(toks[j].as_slice()));
        proof {
            assert(out.deep_view() =~~= before.push(all[j as int]));
            assert(before.push(all[j as int]) =~= all.subrange(0, j + 1 as int));
        }
        j += 1;
    }
    proof {
        assert(out.deep_view() =~= all.subrange(0, m as int));
        assert(all.subrange(0, m as int) =~= all);
        assert(all.len() == toks@.len());
    }
    Some(out)
}

/// Split an ignore-command argument into its patterns.
pub fn split_patterns(arg_str: &str) -> (r: Vec<String>)
    ensures
        r.deep_view() == ws_tokens(arg_str@),
{
    let chars = str_chars(arg_str);
    let toks = split_chars(chars.as_slice(), SepClass::Whitespace);
    let ghost all = toks.deep_view();
    let m = toks.len();
    let mut out: Vec<String> = Vec::new();
    let mut j: usize = 0;
    while j < m
        invariant
            m == toks@.len(),
            j <= m,
            all == toks.deep_view(),
            out.deep_view() == all.subrange(0, j as int),
        decreases m - j,
    {
        proof {
            assert(all[j as int] == toks@[j as int]@);
        }
        let ghost before = out.deep_view();
        out.push(string_from_chars(toks[j].as_slice()));
        proof {
            assert(out.deep_view() =~~= before.push(all[j as int]));
            assert(before.push(all[j as int]) =~= all.subrange(0, j + 1 as int));
        }
        j += 1;
    }
    proof {
        assert(out.deep_view() =~= all.subrange(0, m as int));
        assert(all.subrange(0, m as int) =~= all);
    }
    out
}

/// Why the ignore command is refused.
#[derive(Clone, Copy, Debug, PartialEq, Eq, Structural)]
pub enum EditorError {
    /// No ignore patterns were given.
    NoPatterns,
}

/// Handle the ignore command over the ignore file's current lines: in
/// dry-run mode nothing changes; with no patterns the command is refused;
/// otherwise the patterns are merged in with duplicates dropped.
pub fn handle_ignore_command(arg_str: &str, lines: Vec<String>, dry_run: bool) -> (r: Result<
    Vec<String>,
    EditorError,
>)
    ensures
        dry_run ==> (r matches Ok(l) && l@ == lines@),
        !dry_run && ws_tokens(arg_str@).len() == 0 ==> (r matches Err(e) && e
            == EditorError::NoPatterns),
        !dry_run && ws_tokens(arg_str@).len() > 0 ==> (r matches Ok(l) && l.deep_view()
            == merge_spec(lines.deep_view(), ws_tokens(arg_str@))),
{
    if dry_run {
        return Ok(lines);
    }
    let patterns = split_patterns(arg_str);
    if patterns.len() == 0 {
        return Err(EditorError::NoPatterns);
    }
    Ok(crate::fsutil::merge_ignore_patterns(lines, &patterns))
}

/// A provider that can summarize text; implementations live with their
/// transports outside the library, so nothing is promised of the result.
pub trait SummarizerProvider {
    /// Try to produce a summary of the input; the error is the provider's
    /// own message.
    fn summarize(&self, input: &str) -> Result<String, String>;
}

/// Try each provider in order and return the first summary. With no
/// providers, or when every provider fails, the call fails.
pub fn summarize_with_fallback<P: SummarizerProvider>(input: &str, providers: &Vec<P>) -> (r:
    Result<String, EditorSummaryError>)
    ensures
        providers@.len() == 0 ==> r is Err,
{
    let n = providers.len();
    let mut i: usize = 0;
    while i < n
        invariant
            n == providers@.len(),
            i <= n,
        decreases n - i,
    {
        match providers[i].summarize(input) {
            Ok(summary) => {
                return Ok(summary);
            },
            Err(_) => {},
        }
        i += 1;
    }
    Err(EditorSummaryError::AllProvidersFailed)
}

/// Why no summary was produced.
#[derive(Clone, Copy, Debug, PartialEq, Eq, Structural)]
pub enum EditorSummaryError {
    AllProvidersFailed,
}

} // verus!
