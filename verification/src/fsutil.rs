//! File-inventory logic: the metadata record per file, the filter applied
//! while walking the project tree, the compaction that keeps the 800 most
//! relevant files, and the deduplicating merge of ignore patterns. The
//! walk itself and all file I/O stay outside the library.

use vstd::prelude::*;
use vstd::seq_lib::group_to_multiset_ensures;

use crate::text::{str_chars, chars_eq_str, spec_trimmed, trimmed_eq};

verus! {

/// One project file: its relative path, byte size and optional extension.
#[derive(Debug)]
pub struct FileMeta {
    pub path: String,
    pub size: u64,
    pub ext: Option<String>,
}

/// Ranking weight of a file extension: source files first, then
/// configuration and docs, then other known languages, then the rest.
pub open spec fn spec_ext_weight(ext: Option<Seq<char>>) -> int {
    match ext {
        Option::None => 1,
        Option::Some(e) => {
            if e == "rs"@ || e == "ts"@ || e == "tsx"@ || e == "js"@ || e == "jsx"@ || e == "py"@ {
                10
            } else if e == "toml"@ || e == "json"@ || e == "yml"@ || e == "yaml"@ || e == "md"@ {
                8
            } else if e == "go"@ || e == "rb"@ || e == "java"@ || e == "kt"@ || e == "c"@
                || e == "h"@ || e == "cpp"@ || e == "hpp"@ {
                7
            } else {
                1
            }
        },
    }
}

/// Weight of one file record.
pub open spec fn meta_weight(m: FileMeta) -> int {
    spec_ext_weight(
        match m.ext {
            Option::None => Option::None,
            Option::Some(e) => Option::Some(e@),
        },
    )
}

/// Size bucket of one file record: 4 KiB granularity.
pub open spec fn meta_bucket(m: FileMeta) -> int {
    m.size as int / 4096
}

/// Ranking order of the compaction: higher weight first, ties broken by
/// ascending size bucket.
pub open spec fn meta_le(a: FileMeta, b: FileMeta) -> bool {
    meta_weight(a) > meta_weight(b) || (meta_weight(a) == meta_weight(b) && meta_bucket(a)
        <= meta_bucket(b))
}

/// The ranking order relates every pair, one way or the other.
pub proof fn lemma_meta_le_total(a: FileMeta, b: FileMeta)
    ensures
        meta_le(a, b) || meta_le(b, a),
{
}

/// The ranking order is transitive.
pub proof fn lemma_meta_le_trans(a: FileMeta, b: FileMeta, c: FileMeta)
    requires
        meta_le(a, b),
        meta_le(b, c),
    ensures
        meta_le(a, c),
{
}

/// The sequence is ordered by the ranking order.
pub open spec fn metas_sorted(s: Seq<FileMeta>) -> bool {
    forall|i: int, j: int| 0 <= i < j < s.len() ==> meta_le(s[i], s[j])
}

/// Exec ranking weight of an extension.
fn ext_weight(ext: &Option<String>) -> (w: u64)
    ensures
        w as int == spec_ext_weight(
            match *ext {
                Option::None => Option::None,
                Option::Some(e) => Option::Some(e@),
            },
        ),
{
    match ext {
        Option::None => 1,
        Option::Some(e) => {
            let c = str_chars(e.as_str());
            if chars_eq_str(c.as_slice(), "rs") || chars_eq_str(c.as_slice(), "ts")
                || chars_eq_str(c.as_slice(), "tsx") || chars_eq_str(c.as_slice(), "js")
                || chars_eq_str(c.as_slice(), "jsx") || chars_eq_str(c.as_slice(), "py") {
                10
            } else if chars_eq_str(c.as_slice(), "toml") || chars_eq_str(c.as_slice(), "json")
                || chars_eq_str(c.as_slice(), "yml") || chars_eq_str(c.as_slice(), "yaml")
                || chars_eq_str(c.as_slice(), "md") {
                8
            } else if chars_eq_str(c.as_slice(), "go") || chars_eq_str(c.as_slice(), "rb")
                || chars_eq_str(c.as_slice(), "java") || chars_eq_str(c.as_slice(), "kt")
                || chars_eq_str(c.as_slice(), "c") || chars_eq_str(c.as_slice(), "h")
                || chars_eq_str(c.as_slice(), "cpp") || chars_eq_str(c.as_slice(), "hpp") {
                7
            } else {
                1
            }
        },
    }
}

/// Exec test of the ranking order.
fn meta_le_exec(a: &FileMeta, b: &FileMeta) -> (r: bool)
    ensures
        r == meta_le(*a, *b),
{
    let wa = ext_weight(&a.ext);
    let wb = ext_weight(&b.ext);
    if wa != wb {
        wa > wb
    } else {
        a.size / 4096 <= b.size / 4096
    }
}

/// Sort file records by the ranking order: a permutation of the input,
/// ordered by `meta_le`.
pub fn sort_metas(input: Vec<FileMeta>) -> (r: Vec<FileMeta>)
    ensures
        r@.to_multiset() == input@.to_multiset(),
        metas_sorted(r@),
        r@.len() == input@.len(),
{
    broadcast use group_to_multiset_ensures;

    let mut work = input;
    let mut out: Vec<FileMeta> = Vec::new();
    proof {
        assert(out@.to_multiset().add(work@.to_multiset()) =~= input@.to_multiset());
    }
    while work.len() > 0
        invariant
            out@.to_multiset().add(work@.to_multiset()) == input@.to_multiset(),
            out@.len() + work@.len() == input@.len(),
            metas_sorted(out@),
            forall|i: int, j: int|
                0 <= i < out@.len() && 0 <= j < work@.len() ==> meta_le(out@[i], work@[j]),
        decreases work@.len(),
    {
        let n = work.len();
        let mut m: usize = 0;
        let mut k: usize = 1;
        while k < n
            invariant
                n == work@.len(),
                m < k <= n,
                forall|t: int| 0 <= t < k ==> meta_le(work@[m as int], work@[t]),
            decreases n - k,
        {
            if !meta_le_exec(&work[m], &work[k]) {
                proof {
                    lemma_meta_le_total(work@[m as int], work@[k as int]);
                    assert forall|t: int| 0 <= t < k + 1 implies meta_le(work@[k as int], work@[t])
                    by {
                        if t < k {
                            lemma_meta_le_trans(work@[k as int], work@[m as int], work@[t]);
                        }
                    }
                }
                m = k;
            }
            k += 1;
        }
        let ghost old_out = out@;
        let ghost old_work = work@;
        let x = work.remove(m);
        let ghost gx = x;
        proof {
            assert(old_work.contains(gx)) by {
                assert(old_work[m as int] == gx);
            }
            vstd::seq_lib::to_multiset_contains(old_work, gx);
            assert(old_work.to_multiset().count(gx) > 0);
            assert(work@ == old_work.remove(m as int));
            vstd::seq_lib::to_multiset_remove(old_work, m as int);
            assert(old_work.remove(m as int).to_multiset() == old_work.to_multiset().remove(gx));
        }
        out.push(x);
        proof {
            assert(out@ == old_out.push(gx));
            vstd::seq_lib::to_multiset_build(old_out, gx);
            assert(old_out.push(gx).to_multiset() == old_out.to_multiset().insert(gx));
            assert(out@.to_multiset().add(work@.to_multiset()) =~= old_out.to_multiset().add(
                old_work.to_multiset(),
            ));
            assert forall|i: int, j: int|
                0 <= i < out@.len() && 0 <= j < work@.len() implies meta_le(out@[i], work@[j]) by {
                let orig_j: int = if j < m { j } else { j + 1 };
                assert(work@[j] == old_work[orig_j]);
                if i < out@.len() - 1 {
                    assert(out@[i] == old_out[i]);
                } else {
                    assert(out@[i] == gx);
                }
            }
            assert(metas_sorted(out@)) by {
                assert(forall|i: int| 0 <= i < old_out.len() ==> out@[i] == old_out[i]);
            }
        }
    }
    out
}

/// Keep at most the 800 highest-ranked file records: the result is an
/// ordered prefix of a ranked permutation of the input, so every kept
/// record ranks at least as high as every dropped one.
pub fn compact_index(v: Vec<FileMeta>) -> (r: Vec<FileMeta>)
    ensures
        r@.len() == if v@.len() <= 800 {
            v@.len() as int
        } else {
            800int
        },
        exists|s: Seq<FileMeta>|
            {
                &&& s.to_multiset() == v@.to_multiset()
                &&& metas_sorted(s)
                &&& r@ == s.subrange(0, r@.len() as int)
            },
{
    let mut sorted = sort_metas(v);
    let ghost s = sorted@;
    if sorted.len() > 800 {
        sorted.truncate(800);
        proof {
            assert(sorted@ =~= s.subrange(0, 800));
        }
    } else {
        proof {
            assert(sorted@ =~= s.subrange(0, sorted@.len() as int));
        }
    }
    sorted
}

/// Whether the walk keeps a directory entry of this name: hidden entries
/// and the usual build-output directories are skipped.
pub open spec fn spec_keep_entry(name: Seq<char>) -> bool {
    &&& !(name.len() > 0 && name[0] == '.')
    &&& name != "target"@
    &&& name != "node_modules"@
    &&& name != "dist"@
    &&& name != "build"@
}

/// Exec test of the walk filter.
pub fn keep_entry(name: &str) -> (r: bool)
    ensures
        r == spec_keep_entry(name@),
{
    let c = str_chars(name);
    if c.len() > 0 && c[0] == '.' {
        return false;
    }
    !(chars_eq_str(c.as_slice(), "target") || chars_eq_str(c.as_slice(), "node_modules")
        || chars_eq_str(c.as_slice(), "dist") || chars_eq_str(c.as_slice(), "build"))
}

/// Some line of `lines` trims to exactly `pat`.
pub open spec fn has_pattern(lines: Seq<Seq<char>>, pat: Seq<char>) -> bool {
    exists|i: int| 0 <= i < lines.len() && spec_trimmed(lines[i]) == pat
}

/// The merge of ignore patterns into existing lines: each pattern whose
/// trimmed form is not yet present is appended, in order.
pub open spec fn merge_spec(lines: Seq<Seq<char>>, pats: Seq<Seq<char>>) -> Seq<Seq<char>>
    decreases pats.len(),
{
    if pats.len() == 0 {
        lines
    } else if has_pattern(lines, pats[0]) {
        merge_spec(lines, pats.skip(1))
    } else {
        merge_spec(lines.push(pats[0]), pats.skip(1))
    }
}

/// Merge ignore patterns into the lines of an ignore file, appending each
/// pattern that no existing line already holds (compared after trimming
/// the line).
pub fn merge_ignore_patterns(lines: Vec<String>, patterns: &Vec<String>) -> (r: Vec<String>)
    ensures
        r.deep_view() == merge_spec(lines.deep_view(), patterns.deep_view()),
{
    let mut acc = lines;
    let ghost lines0 = acc.deep_view();
    let n = patterns.len();
    let mut i: usize = 0;
    proof {
        assert(patterns.deep_view().skip(0) =~= patterns.deep_view());
    }
    while i < n
        invariant
            n == patterns@.len(),
            i <= n,
            merge_spec(lines0, patterns.deep_view()) == merge_spec(
                acc.deep_view(),
                patterns.deep_view().skip(i as int),
            ),
        decreases n - i,
    {
        let pat = str_chars(patterns[i].as_str());
        let mut found = false;
        let ln = acc.len();
        let mut j: usize = 0;
        while j < ln
            invariant
                ln == acc@.len(),
                j <= ln,
                found == exists|t: int|
                    0 <= t < j && spec_trimmed(acc.deep_view()[t])
                        == patterns.deep_view()[i as int],
                i < patterns@.len(),
            decreases ln - j,
        {
            if trimmed_eq(acc[j].as_str(), patterns[i].as_str()) {
                assert(spec_trimmed(acc.deep_view()[j as int]) == patterns.deep_view()[i as int]);
                found = true;
            }
            j += 1;
        }
        let ghost acc0 = acc.deep_view();
        if !found {
            acc.push(patterns[i].clone());
            proof {
                assert(acc.deep_view() =~= acc0.push(patterns.deep_view()[i as int]));
            }
        }
        proof {
            assert(found == has_pattern(acc0, patterns.deep_view()[i as int]));
            assert(patterns.deep_view().skip(i as int)[0] == patterns.deep_view()[i as int]);
            assert(patterns.deep_view().skip(i as int).skip(1) =~= patterns.deep_view().skip(
                i + 1,
            ));
            assert(merge_spec(acc0, patterns.deep_view().skip(i as int)) == merge_spec(
                acc.deep_view(),
                patterns.deep_view().skip(i + 1),
            ));
        }
        i += 1;
    }
    proof {
        assert(patterns.deep_view().skip(n as int) =~= Seq::<Seq<char>>::empty());
    }
    acc
}

/// Merging extends the lines: the input is a prefix of the result.
pub proof fn lemma_merge_extends(lines: Seq<Seq<char>>, pats: Seq<Seq<char>>)
    ensures
        merge_spec(lines, pats).len() >= lines.len(),
        forall|i: int|
            0 <= i < lines.len() ==> #[trigger] merge_spec(lines, pats)[i] == lines[i],
    decreases pats.len(),
{
    if pats.len() == 0 {
    } else if has_pattern(lines, pats[0]) {
        lemma_merge_extends(lines, pats.skip(1));
    } else {
        lemma_merge_extends(lines.push(pats[0]), pats.skip(1));
    }
}

/// Merging changes nothing when every pattern is already present.
pub proof fn lemma_merge_no_change(lines: Seq<Seq<char>>, pats: Seq<Seq<char>>)
    requires
        forall|k: int| 0 <= k < pats.len() ==> has_pattern(lines, #[trigger] pats[k]),
    ensures
        merge_spec(lines, pats) == lines,
    decreases pats.len(),
{
    if pats.len() > 0 {
        assert(has_pattern(lines, pats[0]));
        assert(forall|k: int|
            0 <= k < pats.skip(1).len() ==> has_pattern(lines, #[trigger] pats.skip(1)[k]));
        lemma_merge_no_change(lines, pats.skip(1));
    }
}

/// After one merge of patterns already in trimmed form, every pattern is
/// present among the lines.
pub proof fn lemma_merge_contains_all(lines: Seq<Seq<char>>, pats: Seq<Seq<char>>)
    requires
        forall|k: int| 0 <= k < pats.len() ==> spec_trimmed(#[trigger] pats[k]) == pats[k],
    ensures
        forall|k: int|
            0 <= k < pats.len() ==> has_pattern(merge_spec(lines, pats), #[trigger] pats[k]),
    decreases pats.len(),
{
    if pats.len() > 0 {
        let rest = pats.skip(1);
        assert(forall|k: int|
            0 <= k < rest.len() ==> spec_trimmed(#[trigger] rest[k]) == rest[k]);
        if has_pattern(lines, pats[0]) {
            lemma_merge_contains_all(lines, rest);
            let i = choose|i: int| 0 <= i < lines.len() && spec_trimmed(lines[i]) == pats[0];
            lemma_merge_extends(lines, rest);
            assert(merge_spec(lines, rest)[i] == lines[i]);
            assert(has_pattern(merge_spec(lines, pats), pats[0]));
        } else {
            let pushed = lines.push(pats[0]);
            lemma_merge_contains_all(pushed, rest);
            lemma_merge_extends(pushed, rest);
            assert(pushed[lines.len() as int] == pats[0]);
            assert(spec_trimmed(merge_spec(pushed, rest)[lines.len() as int]) == pats[0]);
            assert(has_pattern(merge_spec(pushed, rest), pats[0]));
        }
        assert forall|k: int|
            0 <= k < pats.len() implies has_pattern(merge_spec(lines, pats), #[trigger] pats[k])
        by {
            if k > 0 {
                assert(rest[k - 1] == pats[k]);
            }
        }
    }
}

/// Merging the same patterns twice gives the same lines as merging them
/// once, provided each pattern is its own trimmed form.
pub proof fn lemma_merge_idempotent(lines: Seq<Seq<char>>, pats: Seq<Seq<char>>)
    requires
        forall|k: int| 0 <= k < pats.len() ==> spec_trimmed(#[trigger] pats[k]) == pats[k],
    ensures
        merge_spec(merge_spec(lines, pats), pats) == merge_spec(lines, pats),
{
    lemma_merge_contains_all(lines, pats);
    lemma_merge_no_change(merge_spec(lines, pats), pats);
}

} // verus!
