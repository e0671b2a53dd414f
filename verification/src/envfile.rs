//! The agent's environment file: `KEY=VAL` lines with `#` comments. The
//! library parses the text into pairs, looks keys up, and upserts new
//! pairs; reading and writing the file itself happens outside.

use vstd::prelude::*;
use vstd::string::StringExecFns;

use crate::text::{
    str_chars, string_from_chars, split_chars, split_acc, sep_pred, SepClass, text_lines,
};

verus! {

/// The value stored under a key: the first pair that carries it.
pub open spec fn lookup_env(pairs: Seq<(Seq<char>, Seq<char>)>, k: Seq<char>) -> Option<Seq<char>>
    decreases pairs.len(),
{
    if pairs.len() == 0 {
        None
    } else if pairs[0].0 == k {
        Some(pairs[0].1)
    } else {
        lookup_env(pairs.skip(1), k)
    }
}

/// One upsert: the first pair with the key is replaced, a missing key is
/// appended.
pub open spec fn upsert_one(
    env: Seq<(Seq<char>, Seq<char>)>,
    k: Seq<char>,
    v: Seq<char>,
) -> Seq<(Seq<char>, Seq<char>)>
    decreases env.len(),
{
    if env.len() == 0 {
        seq![(k, v)]
    } else if env[0].0 == k {
        seq![(k, v)] + env.skip(1)
    } else {
        seq![env[0]] + upsert_one(env.skip(1), k, v)
    }
}

/// All updates applied left to right.
pub open spec fn upsert_all(
    env: Seq<(Seq<char>, Seq<char>)>,
    updates: Seq<(Seq<char>, Seq<char>)>,
) -> Seq<(Seq<char>, Seq<char>)>
    decreases updates.len(),
{
    if updates.len() == 0 {
        env
    } else {
        upsert_all(upsert_one(env, updates[0].0, updates[0].1), updates.skip(1))
    }
}

/// The last value an update list gives a key, if any.
pub open spec fn last_update(updates: Seq<(Seq<char>, Seq<char>)>, k: Seq<char>) -> Option<
    Seq<char>,
>
    decreases updates.len(),
{
    if updates.len() == 0 {
        None
    } else {
        let rest = last_update(updates.skip(1), k);
        if rest is Some {
            rest
        } else if updates[0].0 == k {
            Some(updates[0].1)
        } else {
            None
        }
    }
}

/// After one upsert, the touched key reads the new value and every other
/// key reads what it read before.
pub proof fn lemma_upsert_one_lookup(
    env: Seq<(Seq<char>, Seq<char>)>,
    k: Seq<char>,
    v: Seq<char>,
    q: Seq<char>,
)
    ensures
        lookup_env(upsert_one(env, k, v), q) == if q == k {
            Some(v)
        } else {
            lookup_env(env, q)
        },
    decreases env.len(),
{
    if env.len() == 0 {
        let u = seq![(k, v)];
        assert(upsert_one(env, k, v) == u);
        assert(u[0] == (k, v));
        assert(u.skip(1) =~= Seq::<(Seq<char>, Seq<char>)>::empty());
        assert(lookup_env(u.skip(1), q) is None);
        assert(lookup_env(u, q) == if q == k { Some(v) } else { lookup_env(u.skip(1), q) });
        assert(lookup_env(env, q) is None);
    } else if env[0].0 == k {
        let u = seq![(k, v)] + env.skip(1);
        assert(upsert_one(env, k, v) == u);
        assert(u[0] == (k, v));
        assert(u.skip(1) =~= env.skip(1));
        assert(lookup_env(u, q) == if q == k { Some(v) } else { lookup_env(env.skip(1), q) });
        assert(lookup_env(env, q) == if q == k { Some(env[0].1) } else {
            lookup_env(env.skip(1), q)
        });
    } else {
        let u = seq![env[0]] + upsert_one(env.skip(1), k, v);
        assert(upsert_one(env, k, v) == u);
        assert(u[0] == env[0]);
        assert(u.skip(1) =~= upsert_one(env.skip(1), k, v));
        lemma_upsert_one_lookup(env.skip(1), k, v, q);
        assert(lookup_env(u, q) == if q == env[0].0 { Some(env[0].1) } else {
            lookup_env(u.skip(1), q)
        });
        assert(lookup_env(env, q) == if q == env[0].0 { Some(env[0].1) } else {
            lookup_env(env.skip(1), q)
        });
    }
}

/// After upserting a list of updates, a key covered by the updates reads
/// the last value the list gives it, and every other key reads what it
/// read before: reading back composed with upserting keeps every updated
/// pair and preserves all prior keys not shadowed.
pub proof fn lemma_upsert_all_lookup(
    env: Seq<(Seq<char>, Seq<char>)>,
    updates: Seq<(Seq<char>, Seq<char>)>,
    q: Seq<char>,
)
    ensures
        lookup_env(upsert_all(env, updates), q) == match last_update(updates, q) {
            Some(v) => Some(v),
            None => lookup_env(env, q),
        },
    decreases updates.len(),
{
    if updates.len() > 0 {
        let env1 = upsert_one(env, updates[0].0, updates[0].1);
        lemma_upsert_all_lookup(env1, updates.skip(1), q);
        lemma_upsert_one_lookup(env, updates[0].0, updates[0].1, q);
    }
}

/// Look a key up among parsed pairs.
pub fn read_agent_env(pairs: &Vec<(String, String)>, key: &str) -> (r: Option<String>)
    ensures
        r matches Some(v) ==> lookup_env(pairs_view(pairs@), key@) == Some(v@),
        r is None ==> lookup_env(pairs_view(pairs@), key@) is None,
{
    let n = pairs.len();
    let mut i: usize = 0;
    proof {
        assert(pairs_view(pairs@).skip(0) =~= pairs_view(pairs@));
    }
    while i < n
        invariant
            n == pairs@.len(),
            i <= n,
            lookup_env(pairs_view(pairs@), key@) == lookup_env(
                pairs_view(pairs@).skip(i as int),
                key@,
            ),
        decreases n - i,
    {
        proof {
            assert(pairs_view(pairs@).skip(i as int)[0] == pairs_view(pairs@)[i as int]);
            assert(pairs_view(pairs@).skip(i as int).skip(1) =~= pairs_view(pairs@).skip(i + 1));
        }
        if crate::text::str_eq(pairs[i].0.as_str(), key) {
            return Some(pairs[i].1.clone());
        }
        i += 1;
    }
    proof {
        assert(pairs_view(pairs@).skip(n as int) =~= Seq::<(Seq<char>, Seq<char>)>::empty());
    }
    None
}

/// The spec-level view of a pair vector.
pub open spec fn pairs_view(pairs: Seq<(String, String)>) -> Seq<(Seq<char>, Seq<char>)> {
    pairs.map_values(|p: (String, String)| (p.0@, p.1@))
}

/// Upsert every update into the pairs, first pair with the key replaced,
/// missing keys appended.
pub fn upsert_agent_env(pairs: Vec<(String, String)>, updates: &Vec<(String, String)>) -> (r: Vec<
    (String, String),
>)
    ensures
        pairs_view(r@) == upsert_all(pairs_view(pairs@), pairs_view(updates@)),
{
    let mut env = pairs;
    let ghost env0 = pairs_view(env@);
    let ghost ups = pairs_view(updates@);
    let n = updates.len();
    let mut i: usize = 0;
    proof {
        assert(ups.skip(0) =~= ups);
    }
    while i < n
        invariant
            n == updates@.len(),
            i <= n,
            ups == pairs_view(updates@),
            ups.len() == n,
            upsert_all(env0, ups) == upsert_all(pairs_view(env@), ups.skip(i as int)),
        decreases n - i,
    {
        proof {
            assert(ups.skip(i as int)[0] == ups[i as int]);
            assert(ups.skip(i as int).skip(1) =~= ups.skip(i + 1));
            assert(ups[i as int] == (updates@[i as int].0@, updates@[i as int].1@));
        }
        let k = updates[i].0.clone();
        let v = updates[i].1.clone();
        env = upsert_pair(env, k, v);
        i += 1;
    }
    proof {
        assert(ups.skip(n as int) =~= Seq::<(Seq<char>, Seq<char>)>::empty());
    }
    env
}

/// One upsert on the pair vector.
fn upsert_pair(pairs: Vec<(String, String)>, k: String, v: String) -> (r: Vec<(String, String)>)
    ensures
        pairs_view(r@) == upsert_one(pairs_view(pairs@), k@, v@),
{
    let ghost gk = k@;
    let ghost gv = v@;
    let mut env = pairs;
    let n = env.len();
    let mut i: usize = 0;
    while i < n
        invariant
            n == env@.len(),
            i <= n,
            env@ == pairs@,
            forall|t: int| 0 <= t < i ==> pairs_view(env@)[t].0 != gk,
            gk == k@,
            gv == v@,
        decreases n - i,
    {
        if crate::text::str_eq(env[i].0.as_str(), k.as_str()) {
            let ghost before = pairs_view(env@);
            proof {
                assert(before[i as int].0 == gk) by {
                    assert(before[i as int].0 == env@[i as int].0@);
                }
            }
            env[i] = (k, v);
            proof {
                lemma_upsert_one_at(before, i as int, gv);
                assert(pairs_view(env@) =~= before.update(i as int, (gk, gv)));
                assert((before[i as int].0, gv) == (gk, gv));
                assert(upsert_one(before, gk, gv) == before.update(i as int, (gk, gv)));
            }
            return env;
        }
        proof {
            assert(pairs_view(env@)[i as int].0 == env@[i as int].0@);
        }
        i += 1;
    }
    let ghost before = pairs_view(env@);
    env.push((k, v));
    proof {
        assert(pairs_view(env@) =~= before.push((gk, gv)));
        lemma_upsert_one_missing(before, gk, gv);
    }
    env
}

/// Replacing the first pair carrying a key is an update in place.
pub proof fn lemma_upsert_one_at(env: Seq<(Seq<char>, Seq<char>)>, i: int, v: Seq<char>)
    requires
        0 <= i < env.len(),
        forall|t: int| 0 <= t < i ==> env[t].0 != env[i].0,
    ensures
        upsert_one(env, env[i].0, v) == env.update(i, (env[i].0, v)),
    decreases env.len(),
{
    if i == 0 {
        assert(upsert_one(env, env[0].0, v) == seq![(env[0].0, v)] + env.skip(1));
        assert(seq![(env[0].0, v)] + env.skip(1) =~= env.update(0, (env[0].0, v)));
    } else {
        assert(env[0].0 != env[i].0);
        assert(env.skip(1)[i - 1] == env[i]);
        assert(forall|t: int| 0 <= t < i - 1 ==> env.skip(1)[t] == env[t + 1]);
        lemma_upsert_one_at(env.skip(1), i - 1, v);
        assert(seq![env[0]] + env.skip(1).update(i - 1, (env[i].0, v)) =~= env.update(
            i,
            (env[i].0, v),
        ));
    }
}

/// Upserting a key nobody carries appends the pair.
pub proof fn lemma_upsert_one_missing(env: Seq<(Seq<char>, Seq<char>)>, k: Seq<char>, v: Seq<char>)
    requires
        forall|t: int| 0 <= t < env.len() ==> env[t].0 != k,
    ensures
        upsert_one(env, k, v) == env.push((k, v)),
    decreases env.len(),
{
    if env.len() == 0 {
        assert(upsert_one(env, k, v) =~= env.push((k, v)));
    } else {
        assert(env.skip(1) =~= env.skip(1));
        assert(forall|t: int| 0 <= t < env.skip(1).len() ==> env.skip(1)[t] == env[t + 1]);
        lemma_upsert_one_missing(env.skip(1), k, v);
        assert(seq![env[0]] + env.skip(1).push((k, v)) =~= env.push((k, v)));
    }
}

/// What one line of the file means: a comment or blank line is nothing, a
/// line without `=` or with an empty key is nothing, anything else is the
/// key before the first `=` and the value after it.
pub open spec fn eq_split_bounds(l: Seq<char>, i: int) -> bool {
    &&& 0 <= i <= l.len()
    &&& forall|t: int| 0 <= t < i ==> l[t] != '='
    &&& (i < l.len() ==> l[i] == '=')
}

/// The meaning of one line.
pub open spec fn parse_line(l: Seq<char>) -> Option<(Seq<char>, Seq<char>)> {
    if l.len() == 0 || l[0] == '#' {
        None
    } else {
        let i = choose|i: int| eq_split_bounds(l, i);
        if i < l.len() && i > 0 {
            Some((l.subrange(0, i), l.subrange(i + 1, l.len() as int)))
        } else {
            None
        }
    }
}

/// The pairs a file's text means: one per line that parses.
pub open spec fn parse_lines(lines: Seq<Seq<char>>) -> Seq<(Seq<char>, Seq<char>)>
    decreases lines.len(),
{
    if lines.len() == 0 {
        Seq::empty()
    } else {
        (match parse_line(lines[0]) {
            Some(p) => seq![p],
            None => Seq::empty(),
        }) + parse_lines(lines.skip(1))
    }
}

/// The pairs of an environment file.
pub open spec fn spec_parse_env(text: Seq<char>) -> Seq<(Seq<char>, Seq<char>)> {
    parse_lines(text_lines(text))
}

/// Split positions for the same line agree.
pub proof fn lemma_eq_split_unique(l: Seq<char>, i1: int, i2: int)
    requires
        eq_split_bounds(l, i1),
        eq_split_bounds(l, i2),
    ensures
        i1 == i2,
{
    if i1 < i2 {
        assert(l[i1] == '=');
        assert(l[i1] != '=');
    }
    if i2 < i1 {
        assert(l[i2] == '=');
        assert(l[i2] != '=');
    }
}

/// Parse the text of an environment file into its pairs.
pub fn parse_agent_env(text: &str) -> (r: Vec<(String, String)>)
    ensures
        pairs_view(r@) == spec_parse_env(text@),
{
    let chars = str_chars(text);
    let lines = split_chars(chars.as_slice(), SepClass::Newline);
    let ghost all = lines.deep_view();
    let n = lines.len();
    let mut out: Vec<(String, String)> = Vec::new();
    let mut i: usize = 0;
    proof {
        assert(all.skip(0) =~= all);
        assert(pairs_view(out@) =~= Seq::<(Seq<char>, Seq<char>)>::empty());
    }
    while i < n
        invariant
            n == lines@.len(),
            i <= n,
            all == lines.deep_view(),
            all.len() == n,
            spec_parse_env(text@) == pairs_view(out@) + parse_lines(all.skip(i as int)),
        decreases n - i,
    {
        proof {
            assert(all.skip(i as int)[0] == all[i as int]);
            assert(all.skip(i as int).skip(1) =~= all.skip(i + 1));
            assert(all[i as int] == lines@[i as int]@);
        }
        let line = &lines[i];
        let ghost before = pairs_view(out@);
        if line.len() > 0 && line[0] != '#' {
            let m = line.len();
            let mut j: usize = 0;
            while j < m && line[j] != '='
                invariant
                    m == line@.len(),
                    j <= m,
                    forall|t: int| 0 <= t < j ==> line@[t] != '=',
                decreases m - j,
            {
                j += 1;
            }
            proof {
                assert(eq_split_bounds(line@, j as int));
                let jj = choose|t: int| eq_split_bounds(line@, t);
                assert(eq_split_bounds(line@, jj)) by {
                    assert(eq_split_bounds(line@, j as int));
                }
                lemma_eq_split_unique(line@, j as int, jj);
            }
            if j < m && j > 0 {
                let key = copy_range(line, 0, j);
                let val = copy_range(line, j + 1, m);
                out.push((key, val));
                proof {
                    assert(pairs_view(out@) =~= before.push(
                        (line@.subrange(0, j as int), line@.subrange(j + 1, m as int)),
                    ));
                    assert(parse_line(all[i as int]) == Some(
                        (line@.subrange(0, j as int), line@.subrange(j + 1, m as int)),
                    ));
                }
            } else {
                proof {
                    assert(parse_line(all[i as int]) is None);
                }
            }
        } else {
            proof {
                assert(parse_line(all[i as int]) is None);
            }
        }
        proof {
            assert(spec_parse_env(text@) =~= pairs_view(out@) + parse_lines(all.skip(i + 1)));
        }
        i += 1;
    }
    proof {
        assert(all.skip(n as int) =~= Seq::<Seq<char>>::empty());
        assert(pairs_view(out@) =~= pairs_view(out@) + parse_lines(all.skip(n as int)));
    }
    out
}

/// A `String` of the characters `v[a..b]`.
fn copy_range(v: &Vec<char>, a: usize, b: usize) -> (r: String)
    requires
        a <= b <= v@.len(),
    ensures
        r@ == v@.subrange(a as int, b as int),
{
    let mut out: Vec<char> = Vec::new();
    let mut i: usize = a;
    while i < b
        invariant
            a <= i <= b <= v@.len(),
            out@ == v@.subrange(a as int, i as int),
        decreases b - i,
    {
        out.push(v[i]);
        assert(out@ =~= v@.subrange(a as int, i + 1 as int));
        i += 1;
    }
    assert(out@ =~= v@.subrange(a as int, b as int));
    string_from_chars(out.as_slice())
}

/// A key the file format can round-trip: non-empty, not a comment marker,
/// and free of line breaks and of the separator itself.
pub open spec fn wf_env_key(k: Seq<char>) -> bool {
    &&& k.len() > 0
    &&& k[0] != '#'
    &&& forall|i: int| 0 <= i < k.len() ==> k[i] != '\n' && k[i] != '='
}

/// A value the file format can round-trip: free of line breaks.
pub open spec fn wf_env_val(v: Seq<char>) -> bool {
    forall|i: int| 0 <= i < v.len() ==> v[i] != '\n'
}

/// Splitting walks through a separator-free chunk by absorbing it into
/// the current run.
proof fn lemma_split_acc_chunk(
    x: Seq<char>,
    rest: Seq<char>,
    p: spec_fn(char) -> bool,
    cur: Seq<char>,
    acc: Seq<Seq<char>>,
)
    requires
        forall|i: int| 0 <= i < x.len() ==> !p(#[trigger] x[i]),
    ensures
        split_acc(x + rest, p, cur, acc) == split_acc(rest, p, cur + x, acc),
    decreases x.len(),
{
    if x.len() == 0 {
        assert(x + rest =~= rest);
        assert(cur + x =~= cur);
    } else {
        let t = x + rest;
        assert(t[0] == x[0]);
        assert(!p(t[0]));
        assert(t.skip(1) =~= x.skip(1) + rest);
        lemma_split_acc_chunk(x.skip(1), rest, p, cur.push(x[0]), acc);
        assert(cur.push(x[0]) + x.skip(1) =~= cur + x);
    }
}

/// Finished runs pass straight through the accumulator.
proof fn lemma_split_acc_shift(
    s: Seq<char>,
    p: spec_fn(char) -> bool,
    cur: Seq<char>,
    acc: Seq<Seq<char>>,
)
    ensures
        split_acc(s, p, cur, acc) == acc + split_acc(s, p, cur, Seq::empty()),
    decreases s.len(),
{
    let e = Seq::<Seq<char>>::empty();
    if s.len() == 0 {
        if cur.len() > 0 {
            assert(acc.push(cur) =~= acc + e.push(cur));
        } else {
            assert(acc =~= acc + e);
        }
    } else if p(s[0]) {
        if cur.len() > 0 {
            lemma_split_acc_shift(s.skip(1), p, Seq::empty(), acc.push(cur));
            lemma_split_acc_shift(s.skip(1), p, Seq::empty(), e.push(cur));
            assert(acc.push(cur) =~= acc + e.push(cur));
            assert((acc + e.push(cur)) + split_acc(s.skip(1), p, Seq::empty(), e) =~= acc + (
            e.push(cur) + split_acc(s.skip(1), p, Seq::empty(), e)));
        } else {
            lemma_split_acc_shift(s.skip(1), p, Seq::empty(), acc);
        }
    } else {
        lemma_split_acc_shift(s.skip(1), p, cur.push(s[0]), acc);
    }
}

/// Parsing reads back exactly what rendering wrote, for pairs the file
/// format can carry.
pub proof fn lemma_env_round_trip(pairs: Seq<(Seq<char>, Seq<char>)>)
    requires
        forall|i: int|
            0 <= i < pairs.len() ==> wf_env_key((#[trigger] pairs[i]).0) && wf_env_val(
                pairs[i].1,
            ),
    ensures
        spec_parse_env(render_lines(pairs)) == pairs,
    decreases pairs.len(),
{
    reveal_strlit("\n");
    reveal_strlit("=");
    let p = sep_pred(SepClass::Newline);
    let e = Seq::<Seq<char>>::empty();
    if pairs.len() == 0 {
        assert(render_lines(pairs) =~= Seq::<char>::empty());
        assert(text_lines(Seq::<char>::empty()) =~= e);
        assert(parse_lines(e) =~= Seq::<(Seq<char>, Seq<char>)>::empty());
        assert(spec_parse_env(render_lines(pairs)) =~= pairs);
    } else {
        let k = pairs[0].0;
        let v = pairs[0].1;
        let line0 = k + "="@ + v;
        let rest_text = render_lines(pairs.skip(1));
        assert("="@ =~= seq!['=']);
        assert("\n"@ =~= seq!['\n']);
        assert(render_lines(pairs) == pairs[0].0 + "="@ + pairs[0].1 + "\n"@ + render_lines(
            pairs.skip(1),
        ));
        assert(render_lines(pairs) =~= line0 + (seq!['\n'] + rest_text));
        assert forall|i: int| 0 <= i < line0.len() implies !p(#[trigger] line0[i]) by {
            if i < k.len() {
                assert(line0[i] == k[i]);
            } else if i == k.len() {
                assert(line0[i] == '=');
            } else {
                assert(line0[i] == v[i - k.len() - 1]);
            }
        }
        lemma_split_acc_chunk(line0, seq!['\n'] + rest_text, p, Seq::empty(), e);
        assert(Seq::<char>::empty() + line0 =~= line0);
        assert((seq!['\n'] + rest_text)[0] == '\n');
        assert(p('\n'));
        assert((seq!['\n'] + rest_text).skip(1) =~= rest_text);
        assert(line0.len() > 0);
        assert(split_acc(seq!['\n'] + rest_text, p, line0, e) == split_acc(
            rest_text,
            p,
            Seq::empty(),
            e.push(line0),
        ));
        lemma_split_acc_shift(rest_text, p, Seq::empty(), e.push(line0));
        assert(text_lines(render_lines(pairs)) == e.push(line0) + text_lines(rest_text));
        assert(line0[0] == k[0]);
        assert(k[0] != '#');
        assert(eq_split_bounds(line0, k.len() as int)) by {
            assert(forall|t: int| 0 <= t < k.len() ==> line0[t] == k[t]);
            assert(line0[k.len() as int] == '=');
        }
        let j = choose|i: int| eq_split_bounds(line0, i);
        assert(eq_split_bounds(line0, j)) by {
            assert(eq_split_bounds(line0, k.len() as int));
        }
        lemma_eq_split_unique(line0, k.len() as int, j);
        assert(line0.subrange(0, k.len() as int) =~= k);
        assert(line0.subrange(k.len() as int + 1, line0.len() as int) =~= v);
        assert(parse_line(line0) == Some((k, v)));
        assert(forall|i: int|
            0 <= i < pairs.skip(1).len() ==> wf_env_key((#[trigger] pairs.skip(1)[i]).0)
                && wf_env_val(pairs.skip(1)[i].1));
        lemma_env_round_trip(pairs.skip(1));
        let lines = e.push(line0) + text_lines(rest_text);
        assert(lines[0] == line0);
        assert(lines.skip(1) =~= text_lines(rest_text));
        assert(parse_lines(lines) == seq![(k, v)] + parse_lines(text_lines(rest_text)));
        assert(seq![(k, v)] + pairs.skip(1) =~= pairs);
        assert(spec_parse_env(render_lines(pairs)) =~= pairs);
    }
}

/// The rendered text of the pairs: one `KEY=VAL` line each.
pub open spec fn render_lines(pairs: Seq<(Seq<char>, Seq<char>)>) -> Seq<char>
    decreases pairs.len(),
{
    if pairs.len() == 0 {
        Seq::empty()
    } else {
        pairs[0].0 + "="@ + pairs[0].1 + "\n"@ + render_lines(pairs.skip(1))
    }
}

/// Render pairs as the text of an environment file.
pub fn render_agent_env(pairs: &Vec<(String, String)>) -> (r: String)
    ensures
        r@ == render_lines(pairs_view(pairs@)),
{
    let ghost all = pairs_view(pairs@);
    let n = pairs.len();
    let mut out = String::new();
    let mut i: usize = 0;
    proof {
        assert(all.skip(0) =~= all);
    }
    while i < n
        invariant
            n == pairs@.len(),
            i <= n,
            all == pairs_view(pairs@),
            all.len() == n,
            render_lines(all) == out@ + render_lines(all.skip(i as int)),
        decreases n - i,
    {
        proof {
            assert(all.skip(i as int)[0] == all[i as int]);
            assert(all.skip(i as int).skip(1) =~= all.skip(i + 1));
            assert(all[i as int] == (pairs@[i as int].0@, pairs@[i as int].1@));
        }
        let ghost before = out@;
        out.append(pairs[i].0.as_str());
        out.append("=");
        out.append(pairs[i].1.as_str());
        out.append("\n");
        proof {
            assert(out@ =~= before + (all[i as int].0 + "="@ + all[i as int].1 + "\n"@));
            assert(render_lines(all) =~= out@ + render_lines(all.skip(i + 1)));
        }
        i += 1;
    }
    proof {
        assert(all.skip(n as int) =~= Seq::<(Seq<char>, Seq<char>)>::empty());
        assert(out@ =~= render_lines(all));
    }
    out
}

} // verus!
