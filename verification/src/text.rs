//! Character-level text helpers shared by the guardrails, the planner and
//! the REPL: substring search, token splitting, whitespace trimming and the
//! bridge between `String` and its characters.

use vstd::prelude::*;

verus! {

/// `needle` occurs in `haystack` starting at position `i`.
pub open spec fn matches_at(haystack: Seq<char>, needle: Seq<char>, i: int) -> bool {
    &&& 0 <= i
    &&& i + needle.len() <= haystack.len()
    &&& haystack.subrange(i, i + needle.len() as int) == needle
}

/// `needle` occurs somewhere in `haystack`.
pub open spec fn contains_seq(haystack: Seq<char>, needle: Seq<char>) -> bool {
    exists|i: int| matches_at(haystack, needle, i)
}

/// `s` begins with `prefix`.
pub open spec fn starts_with(s: Seq<char>, prefix: Seq<char>) -> bool {
    matches_at(s, prefix, 0)
}

/// ASCII whitespace, the separators recognised by the token splitter.
pub open spec fn is_space(c: char) -> bool {
    c == ' ' || c == '\t' || c == '\n' || c == '\r'
}

/// Exec test of the whitespace class above.
pub fn space_char(c: char) -> (r: bool)
    ensures
        r == is_space(c),
{
    c == ' ' || c == '\t' || c == '\n' || c == '\r'
}

/// The characters of `s`, as a vector the rest of the library computes on.
pub fn str_chars(s: &str) -> (v: Vec<char>)
    ensures
        v@ == s@,
{
    let n = s.unicode_len();
    let mut v: Vec<char> = Vec::new();
    let mut i: usize = 0;
    while i < n
        invariant
            n == s@.len(),
            i <= n,
            v@ == s@.subrange(0, i as int),
        decreases n - i,
    {
        let c = s.get_char(i);
        v.push(c);
        assert(v@ =~= s@.subrange(0, i + 1 as int));
        i += 1;
    }
    assert(v@ =~= s@);
    v
}

/// Relies on `String::push`: appends exactly the given character.
#[verifier::external_body]
pub fn push_char(s: &mut String, c: char)
    ensures
        final(s)@ == old(s)@.push(c),
{
    s.push(c);
}

/// A `String` holding exactly the given characters.
pub fn string_from_chars(v: &[char]) -> (s: String)
    ensures
        s@ == v@,
{
    let n = v.len();
    let mut s = String::new();
    let mut i: usize = 0;
    while i < n
        invariant
            n == v@.len(),
            i <= n,
            s@ == v@.subrange(0, i as int),
        decreases n - i,
    {
        push_char(&mut s, v[i]);
        assert(s@ =~= v@.subrange(0, i + 1 as int));
        i += 1;
    }
    assert(s@ =~= v@);
    s
}

/// Exec test for a match of `needle` at position `i` of `haystack`.
pub fn check_match_at(haystack: &[char], needle: &[char], i: usize) -> (r: bool)
    requires
        i + needle@.len() <= haystack@.len(),
    ensures
        r == matches_at(haystack@, needle@, i as int),
{
    let nlen = needle.len();
    let hlen = haystack.len();
    let mut j: usize = 0;
    while j < nlen
        invariant
            nlen == needle@.len(),
            hlen == haystack@.len(),
            i + nlen <= hlen,
            j <= nlen,
            forall|k: int| 0 <= k < j ==> haystack@[i + k] == needle@[k],
        decreases nlen - j,
    {
        if haystack[i + j] != needle[j] {
            assert(haystack@.subrange(i as int, i + needle@.len() as int)[j as int]
                != needle@[j as int]);
            return false;
        }
        j += 1;
    }
    assert(haystack@.subrange(i as int, i + needle@.len() as int) =~= needle@);
    true
}

/// Whether `needle` occurs in `haystack`.
pub fn contains_chars(haystack: &[char], needle: &[char]) -> (r: bool)
    ensures
        r == contains_seq(haystack@, needle@),
{
    if needle.len() > haystack.len() {
        assert(forall|i: int| !matches_at(haystack@, needle@, i));
        return false;
    }
    if needle.len() == 0 {
        assert(matches_at(haystack@, needle@, 0)) by {
            assert(haystack@.subrange(0, 0) =~= needle@);
        }
        return true;
    }
    let hlen = haystack.len();
    let last = hlen - needle.len();
    let mut i: usize = 0;
    while i <= last
        invariant
            hlen == haystack@.len(),
            needle@.len() >= 1,
            needle@.len() + last == hlen,
            i <= last + 1,
            forall|k: int| 0 <= k < i ==> !matches_at(haystack@, needle@, k),
        decreases last + 1 - i,
    {
        if check_match_at(haystack, needle, i) {
            return true;
        }
        i += 1;
    }
    assert(forall|k: int| !matches_at(haystack@, needle@, k)) by {
        assert(forall|k: int| k > last ==> !matches_at(haystack@, needle@, k));
    }
    false
}

/// Whether `needle` occurs in `haystack`, for callers holding `&str`.
pub fn str_contains(haystack: &str, needle: &str) -> (r: bool)
    ensures
        r == contains_seq(haystack@, needle@),
{
    let h = str_chars(haystack);
    let n = str_chars(needle);
    contains_chars(h.as_slice(), n.as_slice())
}

/// Whether `s` begins with `prefix`, as executable code.
pub fn chars_start_with(s: &[char], prefix: &[char]) -> (r: bool)
    ensures
        r == starts_with(s@, prefix@),
{
    if prefix.len() > s.len() {
        return false;
    }
    check_match_at(s, prefix, 0)
}

/// `a` and `b` bound the first whitespace-separated token of `s`:
/// everything before `a` is whitespace, `[a, b)` is the maximal run of
/// non-whitespace starting at `a`.
pub open spec fn token_bounds(s: Seq<char>, a: int, b: int) -> bool {
    &&& 0 <= a <= b <= s.len()
    &&& forall|k: int| 0 <= k < a ==> is_space(s[k])
    &&& forall|k: int| a <= k < b ==> !is_space(s[k])
    &&& (b < s.len() ==> is_space(s[b]))
    &&& (a < s.len() ==> !is_space(s[a]))
    &&& (a == s.len() ==> b == s.len())
}

/// The bounds of the first whitespace-separated token of `s`.
pub fn first_token_range(s: &[char]) -> (r: (usize, usize))
    ensures
        token_bounds(s@, r.0 as int, r.1 as int),
{
    let n = s.len();
    let mut a: usize = 0;
    while a < n && space_char(s[a])
        invariant
            n == s@.len(),
            a <= n,
            forall|k: int| 0 <= k < a ==> is_space(s@[k]),
        decreases n - a,
    {
        a += 1;
    }
    let mut b: usize = a;
    while b < n && !space_char(s[b])
        invariant
            n == s@.len(),
            a <= b <= n,
            forall|k: int| a <= k < b ==> !is_space(s@[k]),
        decreases n - b,
    {
        b += 1;
    }
    (a, b)
}

/// The first whitespace-separated token of `s`.
pub fn first_token(s: &[char]) -> (t: Vec<char>)
    ensures
        exists|a: int, b: int|
            token_bounds(s@, a, b) && t@ == s@.subrange(a, b),
{
    let (a, b) = first_token_range(s);
    let mut t: Vec<char> = Vec::new();
    let mut i: usize = a;
    while i < b
        invariant
            a <= i <= b <= s@.len(),
            t@ == s@.subrange(a as int, i as int),
        decreases b - i,
    {
        t.push(s[i]);
        assert(t@ =~= s@.subrange(a as int, i + 1 as int));
        i += 1;
    }
    assert(t@ =~= s@.subrange(a as int, b as int));
    assert(token_bounds(s@, a as int, b as int));
    t
}

/// `a` and `b` bound `s` with surrounding whitespace removed.
pub open spec fn trim_bounds(s: Seq<char>, a: int, b: int) -> bool {
    &&& 0 <= a <= b <= s.len()
    &&& forall|k: int| 0 <= k < a ==> is_space(s[k])
    &&& forall|k: int| b <= k < s.len() ==> is_space(s[k])
    &&& (a < b ==> !is_space(s[a]) && !is_space(s[b - 1]))
    &&& (a == b ==> a == 0)
}

/// The bounds of `s` with surrounding whitespace removed.
pub fn trim_range(s: &[char]) -> (r: (usize, usize))
    ensures
        trim_bounds(s@, r.0 as int, r.1 as int),
{
    let n = s.len();
    let mut a: usize = 0;
    while a < n && space_char(s[a])
        invariant
            n == s@.len(),
            a <= n,
            forall|k: int| 0 <= k < a ==> is_space(s@[k]),
        decreases n - a,
    {
        a += 1;
    }
    if a == n {
        return (0, 0);
    }
    let mut b: usize = n;
    while b > a && space_char(s[b - 1])
        invariant
            n == s@.len(),
            a <= b <= n,
            a < n,
            !is_space(s@[a as int]),
            forall|k: int| b <= k < n ==> is_space(s@[k]),
        decreases b,
    {
        b -= 1;
    }
    assert(b > a);
    (a, b)
}

/// `s` with surrounding whitespace removed.
pub fn trim_chars(s: &[char]) -> (t: Vec<char>)
    ensures
        exists|a: int, b: int|
            trim_bounds(s@, a, b) && t@ == s@.subrange(a, b),
{
    let (a, b) = trim_range(s);
    let mut t: Vec<char> = Vec::new();
    let mut i: usize = a;
    while i < b
        invariant
            a <= i <= b <= s@.len(),
            t@ == s@.subrange(a as int, i as int),
        decreases b - i,
    {
        t.push(s[i]);
        assert(t@ =~= s@.subrange(a as int, i + 1 as int));
        i += 1;
    }
    assert(t@ =~= s@.subrange(a as int, b as int));
    assert(trim_bounds(s@, a as int, b as int));
    t
}

/// Two bound pairs for the trim of the same text agree.
pub proof fn lemma_trim_bounds_unique(s: Seq<char>, a1: int, b1: int, a2: int, b2: int)
    requires
        trim_bounds(s, a1, b1),
        trim_bounds(s, a2, b2),
    ensures
        a1 == a2,
        b1 == b2,
{
    if a1 == b1 && a2 == b2 {
        assert(a1 == 0 && a2 == 0);
    } else if a1 == b1 && a2 < b2 {
        assert(is_space(s[a2]));
        assert(!is_space(s[a2]));
    } else if a2 == b2 && a1 < b1 {
        assert(is_space(s[a1]));
        assert(!is_space(s[a1]));
    } else {
        if a1 < a2 {
            assert(is_space(s[a1]));
            assert(!is_space(s[a1]));
        }
        if a2 < a1 {
            assert(is_space(s[a2]));
            assert(!is_space(s[a2]));
        }
        if b1 < b2 {
            assert(is_space(s[b2 - 1]));
            assert(!is_space(s[b2 - 1]));
        }
        if b2 < b1 {
            assert(is_space(s[b1 - 1]));
            assert(!is_space(s[b1 - 1]));
        }
    }
}

/// `s` with surrounding whitespace removed, as a spec-level value.
pub open spec fn spec_trimmed(s: Seq<char>) -> Seq<char> {
    let ab = choose|ab: (int, int)| trim_bounds(s, ab.0, ab.1);
    s.subrange(ab.0, ab.1)
}

/// The executable trim computes `spec_trimmed`.
pub fn trimmed_chars(s: &[char]) -> (t: Vec<char>)
    ensures
        t@ == spec_trimmed(s@),
{
    let (a, b) = trim_range(s);
    let mut t: Vec<char> = Vec::new();
    let mut i: usize = a;
    while i < b
        invariant
            a <= i <= b <= s@.len(),
            t@ == s@.subrange(a as int, i as int),
        decreases b - i,
    {
        t.push(s[i]);
        assert(t@ =~= s@.subrange(a as int, i + 1 as int));
        i += 1;
    }
    proof {
        assert(t@ =~= s@.subrange(a as int, b as int));
        let ab = choose|ab: (int, int)| trim_bounds(s@, ab.0, ab.1);
        assert(trim_bounds(s@, ab.0, ab.1)) by {
            assert(trim_bounds(s@, a as int, b as int));
        }
        lemma_trim_bounds_unique(s@, a as int, b as int, ab.0, ab.1);
    }
    t
}

/// Whether the trim of `l` equals `pat`, character for character.
pub fn trimmed_eq(l: &str, pat: &str) -> (r: bool)
    ensures
        r == (spec_trimmed(l@) == pat@),
{
    let lc = str_chars(l);
    let t = trimmed_chars(lc.as_slice());
    chars_eq_str(t.as_slice(), pat)
}

/// Lower-case image of a character: ASCII capitals map down, everything
/// else is unchanged.
pub open spec fn lower_char(c: char) -> char {
    if 'A' <= c && c <= 'Z' {
        (((c as u32) + 32) as u8) as char
    } else {
        c
    }
}

/// Lower-case image of a whole sequence.
pub open spec fn lower_seq(s: Seq<char>) -> Seq<char> {
    s.map_values(|c: char| lower_char(c))
}

/// Exec lower-casing of one character.
pub fn to_lower_char(c: char) -> (r: char)
    ensures
        r == lower_char(c),
{
    if 'A' <= c && c <= 'Z' {
        (((c as u32) + 32) as u8) as char
    } else {
        c
    }
}

/// Exec lower-casing of a character vector.
pub fn to_lower_chars(s: &[char]) -> (r: Vec<char>)
    ensures
        r@ == lower_seq(s@),
{
    let n = s.len();
    let mut r: Vec<char> = Vec::new();
    let mut i: usize = 0;
    while i < n
        invariant
            n == s@.len(),
            i <= n,
            r@ == lower_seq(s@.subrange(0, i as int)),
        decreases n - i,
    {
        r.push(to_lower_char(s[i]));
        assert(r@ =~= lower_seq(s@.subrange(0, i + 1 as int)));
        i += 1;
    }
    assert(r@ =~= lower_seq(s@));
    r
}

/// Whether two character slices hold the same characters.
pub fn chars_eq(a: &[char], b: &[char]) -> (r: bool)
    ensures
        r == (a@ == b@),
{
    if a.len() != b.len() {
        return false;
    }
    let n = a.len();
    let mut i: usize = 0;
    while i < n
        invariant
            n == a@.len() == b@.len(),
            i <= n,
            forall|k: int| 0 <= k < i ==> a@[k] == b@[k],
        decreases n - i,
    {
        if a[i] != b[i] {
            return false;
        }
        i += 1;
    }
    assert(a@ =~= b@);
    true
}

/// The maximal runs of non-separator characters of `s`, left to right,
/// carried by an accumulator: `cur` is the run in progress, `acc` the
/// finished runs.
pub open spec fn split_acc(
    s: Seq<char>,
    is_sep: spec_fn(char) -> bool,
    cur: Seq<char>,
    acc: Seq<Seq<char>>,
) -> Seq<Seq<char>>
    decreases s.len(),
{
    if s.len() == 0 {
        if cur.len() > 0 {
            acc.push(cur)
        } else {
            acc
        }
    } else if is_sep(s[0]) {
        if cur.len() > 0 {
            split_acc(s.skip(1), is_sep, Seq::empty(), acc.push(cur))
        } else {
            split_acc(s.skip(1), is_sep, Seq::empty(), acc)
        }
    } else {
        split_acc(s.skip(1), is_sep, cur.push(s[0]), acc)
    }
}

/// The maximal runs of non-separator characters of `s`.
pub open spec fn split_runs(s: Seq<char>, is_sep: spec_fn(char) -> bool) -> Seq<Seq<char>> {
    split_acc(s, is_sep, Seq::empty(), Seq::empty())
}

/// Which separator class an executable split uses.
#[derive(Clone, Copy, Debug, PartialEq, Eq, Structural)]
pub enum SepClass {
    Whitespace,
    Slash,
    Newline,
}

/// The predicate of a separator class.
pub open spec fn sep_pred(class: SepClass) -> spec_fn(char) -> bool {
    match class {
        SepClass::Whitespace => |c: char| is_space(c),
        SepClass::Slash => |c: char| c == '/',
        SepClass::Newline => |c: char| c == '\n',
    }
}

/// The whitespace-separated tokens of `s`.
pub open spec fn ws_tokens(s: Seq<char>) -> Seq<Seq<char>> {
    split_runs(s, sep_pred(SepClass::Whitespace))
}

/// The slash-separated segments of `s`.
pub open spec fn path_segments(s: Seq<char>) -> Seq<Seq<char>> {
    split_runs(s, sep_pred(SepClass::Slash))
}

/// The non-empty lines of `s`.
pub open spec fn text_lines(s: Seq<char>) -> Seq<Seq<char>> {
    split_runs(s, sep_pred(SepClass::Newline))
}

/// Exec test of a separator class.
fn sep_test(class: SepClass, c: char) -> (r: bool)
    ensures
        r == sep_pred(class)(c),
{
    match class {
        SepClass::Whitespace => space_char(c),
        SepClass::Slash => c == '/',
        SepClass::Newline => c == '\n',
    }
}

/// Split `s` into its maximal runs of non-separator characters.
pub fn split_chars(s: &[char], class: SepClass) -> (r: Vec<Vec<char>>)
    ensures
        r.deep_view() == split_runs(s@, sep_pred(class)),
{
    let n = s.len();
    let mut acc: Vec<Vec<char>> = Vec::new();
    let mut cur: Vec<char> = Vec::new();
    let mut i: usize = 0;
    proof {
        assert(s@.skip(0) =~= s@);
        assert(cur@ =~= Seq::<char>::empty());
        assert(acc.deep_view() =~~= Seq::<Seq<char>>::empty());
    }
    while i < n
        invariant
            n == s@.len(),
            i <= n,
            split_runs(s@, sep_pred(class)) == split_acc(
                s@.skip(i as int),
                sep_pred(class),
                cur@,
                acc.deep_view(),
            ),
        decreases n - i,
    {
        proof {
            assert(s@.skip(i as int)[0] == s@[i as int]);
            assert(s@.skip(i as int).skip(1) =~= s@.skip(i + 1));
        }
        let c = s[i];
        if sep_test(class, c) {
            if cur.len() > 0 {
                let ghost old_acc = acc.deep_view();
                let ghost old_cur = cur@;
                let mut finished: Vec<char> = Vec::new();
                core::mem::swap(&mut finished, &mut cur);
                acc.push(finished);
                proof {
                    assert(cur@ =~= Seq::<char>::empty());
                    assert(acc.deep_view() =~~= old_acc.push(old_cur));
                }
            } else {
                proof {
                    assert(cur@ =~= Seq::<char>::empty());
                }
            }
        } else {
            cur.push(c);
        }
        i += 1;
    }
    proof {
        assert(s@.skip(n as int) =~= Seq::<char>::empty());
    }
    if cur.len() > 0 {
        let ghost old_acc = acc.deep_view();
        let ghost old_cur = cur@;
        acc.push(cur);
        proof {
            assert(acc.deep_view() =~~= old_acc.push(old_cur));
        }
    }
    acc
}

/// The decimal digit character for a value below ten.
pub open spec fn spec_digit(d: int) -> char {
    if d == 0 {
        '0'
    } else if d == 1 {
        '1'
    } else if d == 2 {
        '2'
    } else if d == 3 {
        '3'
    } else if d == 4 {
        '4'
    } else if d == 5 {
        '5'
    } else if d == 6 {
        '6'
    } else if d == 7 {
        '7'
    } else if d == 8 {
        '8'
    } else {
        '9'
    }
}

/// The decimal digits of a number, most significant first.
pub open spec fn spec_digits(n: int) -> Seq<char>
    decreases n,
{
    if n < 10 {
        seq![spec_digit(n)]
    } else {
        spec_digits(n / 10).push(spec_digit(n % 10))
    }
}

/// One decimal digit as a character.
fn digit_char(d: u64) -> (c: char)
    requires
        d < 10,
    ensures
        c == spec_digit(d as int),
{
    if d == 0 {
        '0'
    } else if d == 1 {
        '1'
    } else if d == 2 {
        '2'
    } else if d == 3 {
        '3'
    } else if d == 4 {
        '4'
    } else if d == 5 {
        '5'
    } else if d == 6 {
        '6'
    } else if d == 7 {
        '7'
    } else if d == 8 {
        '8'
    } else {
        '9'
    }
}

/// The decimal digits of `n`, most significant first.
pub fn u64_digits(n: u64) -> (v: Vec<char>)
    ensures
        v@ == spec_digits(n as int),
        v@.len() >= 1,
    decreases n,
{
    if n < 10 {
        let v: Vec<char> = vec![digit_char(n)];
        assert(v@ =~= spec_digits(n as int));
        v
    } else {
        let mut v = u64_digits(n / 10);
        v.push(digit_char(n % 10));
        v
    }
}

/// The decimal text of `n`.
pub fn u64_string(n: u64) -> (s: String)
    ensures
        s@ == spec_digits(n as int),
{
    let v = u64_digits(n);
    string_from_chars(v.as_slice())
}

/// Whether two strings hold the same characters.
pub fn str_eq(a: &str, b: &str) -> (r: bool)
    ensures
        r == (a@ == b@),
{
    let ac = str_chars(a);
    chars_eq_str(ac.as_slice(), b)
}

/// Whether a character vector equals the characters of a string.
pub fn chars_eq_str(a: &[char], b: &str) -> (r: bool)
    ensures
        r == (a@ == b@),
{
    let bc = str_chars(b);
    chars_eq(a, bc.as_slice())
}

} // verus!
