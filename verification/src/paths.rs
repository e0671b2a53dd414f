//! Path containment: the project root owns every mutation, so a planned
//! relative path is accepted only when resolving it can never leave the
//! root. Resolution is modelled over path segments: `.` stays, `..` pops,
//! and a path that would pop above its starting point is rejected.

use vstd::prelude::*;

use crate::text::{path_segments, str_chars, split_chars, chars_eq_str, SepClass};

verus! {

/// Resolve `segs` on top of the stack `acc`: `.` is skipped, `..` pops,
/// anything else is pushed. `None` when a pop reaches below the start.
pub open spec fn norm_onto(acc: Seq<Seq<char>>, segs: Seq<Seq<char>>) -> Option<Seq<Seq<char>>>
    decreases segs.len(),
{
    if segs.len() == 0 {
        Some(acc)
    } else if segs[0] == "."@ {
        norm_onto(acc, segs.skip(1))
    } else if segs[0] == ".."@ {
        if acc.len() == 0 {
            None
        } else {
            norm_onto(acc.drop_last(), segs.skip(1))
        }
    } else {
        norm_onto(acc.push(segs[0]), segs.skip(1))
    }
}

/// A relative path the planner may touch: not absolute, and its segments
/// resolve without ever popping above the starting point.
pub open spec fn path_accepted(s: Seq<char>) -> bool {
    &&& !(s.len() > 0 && s[0] == '/')
    &&& norm_onto(Seq::empty(), path_segments(s)) is Some
}

/// Whether a planned path is accepted: rejected when absolute or when its
/// `..` segments could escape the root.
pub fn accept_rel_path(path: &str) -> (r: bool)
    ensures
        r == path_accepted(path@),
{
    let chars = str_chars(path);
    if chars.len() > 0 && chars[0] == '/' {
        return false;
    }
    let segs = split_chars(chars.as_slice(), SepClass::Slash);
    let ghost all = segs.deep_view();
    let n = segs.len();
    let mut i: usize = 0;
    let mut depth: usize = 0;
    let ghost mut acc: Seq<Seq<char>> = Seq::empty();
    proof {
        assert(all.skip(0) =~= all);
    }
    while i < n
        invariant
            n == segs@.len(),
            i <= n,
            all == segs.deep_view(),
            all == path_segments(path@),
            all.len() == n,
            acc.len() == depth,
            depth <= i,
            norm_onto(Seq::empty(), all) == norm_onto(acc, all.skip(i as int)),
        decreases n - i,
    {
        proof {
            assert(all.skip(i as int)[0] == all[i as int]);
            assert(all.skip(i as int).skip(1) =~= all.skip(i + 1));
            assert(all[i as int] == segs@[i as int]@);
        }
        if chars_eq_str(segs[i].as_slice(), ".") {
            proof {
                assert(all[i as int] == "."@);
            }
        } else if chars_eq_str(segs[i].as_slice(), "..") {
            proof {
                assert(all[i as int] == ".."@);
            }
            if depth == 0 {
                proof {
                    assert(norm_onto(acc, all.skip(i as int)) is None);
                }
                return false;
            }
            depth -= 1;
            proof {
                acc = acc.drop_last();
            }
        } else {
            proof {
                assert(all[i as int] != "."@ && all[i as int] != ".."@);
            }
            depth += 1;
            proof {
                acc = acc.push(all[i as int]);
            }
        }
        i += 1;
    }
    proof {
        assert(all.skip(n as int) =~= Seq::<Seq<char>>::empty());
    }
    true
}

/// `a` is a prefix of `b`.
pub open spec fn seq_prefix_of(a: Seq<Seq<char>>, b: Seq<Seq<char>>) -> bool {
    a.len() <= b.len() && b.subrange(0, a.len() as int) == a
}

/// Resolving on top of a longer stack keeps the extra bottom intact.
pub proof fn lemma_norm_prefix(root: Seq<Seq<char>>, acc: Seq<Seq<char>>, segs: Seq<Seq<char>>)
    requires
        norm_onto(acc, segs) is Some,
    ensures
        norm_onto(root + acc, segs) is Some,
        norm_onto(root + acc, segs)->0 == root + (norm_onto(acc, segs)->0),
    decreases segs.len(),
{
    if segs.len() == 0 {
    } else if segs[0] == "."@ {
        lemma_norm_prefix(root, acc, segs.skip(1));
    } else if segs[0] == ".."@ {
        assert(acc.len() > 0);
        assert((root + acc).drop_last() =~= root + acc.drop_last());
        assert((root + acc).len() > 0);
        lemma_norm_prefix(root, acc.drop_last(), segs.skip(1));
    } else {
        assert((root + acc).push(segs[0]) =~= root + acc.push(segs[0]));
        lemma_norm_prefix(root, acc.push(segs[0]), segs.skip(1));
    }
}

/// Every accepted path stays inside the root: resolving it on top of the
/// root's segments succeeds and the result still begins with the root.
pub proof fn lemma_accepted_path_contained(root: Seq<Seq<char>>, s: Seq<char>)
    requires
        path_accepted(s),
    ensures
        norm_onto(root, path_segments(s)) is Some,
        seq_prefix_of(root, norm_onto(root, path_segments(s))->0),
{
    let segs = path_segments(s);
    assert(root + Seq::<Seq<char>>::empty() =~= root);
    lemma_norm_prefix(root, Seq::empty(), segs);
    let inner = norm_onto(Seq::empty(), segs)->0;
    assert(norm_onto(root, segs)->0 == root + inner);
    assert((root + inner).subrange(0, root.len() as int) =~= root);
}

} // verus!
