//! Strings as sequences of characters: prefixes, trailing slashes and the replacement of a pattern.
use vstd::prelude::*;

verus! {

/// The model of an optional string.
pub open spec fn opt_text(text: Option<String>) -> Option<Seq<char>> {
    match text {
        Some(text) => Some(text@),
        None => None,
    }
}

/// The characters of a string, in order.
pub(crate) fn chars_of(s: &str) -> (v: Vec<char>)
    ensures
        v@ == s@,
{
    let mut v: Vec<char> = Vec::new();
    for c in it: s.chars()
        invariant
            it.seq() == s@,
            v@ == s@.take(it.index() as int),
    {
        v.push(c);
    }
    v
}

/// The string made of the characters of a slice, in order.
pub(crate) fn string_of(v: &[char]) -> (s: String)
    ensures
        s@ == v@,
{
    let mut s = String::new();
    let n: usize = v.len();
    for i in 0..n
        invariant
            n == v@.len(),
            s@ == v@.take(i as int),
    {
        s.push(v[i]);
    }
    s
}

/// Whether two strings hold the same characters.
pub(crate) fn same_text(a: &str, b: &str) -> (same: bool)
    ensures
        same == (a@ == b@),
{
    let x = chars_of(a);
    let y = chars_of(b);
    let n: usize = x.len();
    if n != y.len() {
        return false;
    }
    for i in 0..n
        invariant
            n == x@.len(),
            n == y@.len(),
            x@ == a@,
            y@ == b@,
            forall|j: int| 0 <= j < i ==> x@[j] == y@[j],
    {
        if x[i] != y[i] {
            return false;
        }
    }
    assert(x@ =~= y@);
    true
}

/// Whether a string begins with another.
pub(crate) fn starts_with(s: &str, prefix: &str) -> (yes: bool)
    ensures
        yes == prefix@.is_prefix_of(s@),
{
    let v = chars_of(s);
    let p = chars_of(prefix);
    assert(v@.skip(0) =~= s@);
    matches_at(&v, 0, &p)
}

/// Whether a path is that of a directory or lies in it: it begins with the path of the directory,
/// and a segment of the path ends there.
pub open spec fn lies_in(path: Seq<char>, dir: Seq<char>) -> bool {
    dir.is_prefix_of(path) && (dir.len() == path.len() || (dir.len() > 0 && dir.last() == '/')
        || path[dir.len() as int] == '/')
}

/// Whether a path is that of a directory or lies in it.
pub(crate) fn is_below(path: &str, dir: &str) -> (yes: bool)
    ensures
        yes == lies_in(path@, dir@),
{
    let v = chars_of(path);
    let d = chars_of(dir);
    assert(v@.skip(0) =~= path@);
    let n: usize = d.len();
    matches_at(&v, 0, &d) && (n == v.len() || (n > 0 && d[n - 1] == '/') || v[n] == '/')
}

/// Whether the characters `p` stand in `v` from position `at` on.
fn matches_at(v: &Vec<char>, at: usize, p: &Vec<char>) -> (yes: bool)
    requires
        at <= v@.len(),
    ensures
        yes == p@.is_prefix_of(v@.skip(at as int)),
{
    let n: usize = p.len();
    let m: usize = v.len();
    if n > m - at {
        return false;
    }
    for i in 0..n
        invariant
            n == p@.len(),
            m == v@.len(),
            at + n <= m,
            forall|j: int| 0 <= j < i ==> p@[j] == v@[at + j],
    {
        if v[at + i] != p[i] {
            proof {
                let rest = v@.skip(at as int);
                assert(rest.take(n as int)[i as int] != p@[i as int]);
            }
            return false;
        }
    }
    assert(p@ =~= v@.skip(at as int).take(n as int));
    true
}

/// Whether the characters `pattern` stand somewhere in `s`.
pub open spec fn occurs(s: Seq<char>, pattern: Seq<char>) -> bool {
    exists|i: int| 0 <= i <= s.len() && #[trigger] pattern.is_prefix_of(s.skip(i))
}

/// `s` with every occurrence of `pattern` replaced, from left to right, by `to`.
pub open spec fn replace_all(s: Seq<char>, pattern: Seq<char>, to: Seq<char>) -> Seq<char>
    decreases s.len(),
{
    if s.len() == 0 || pattern.len() == 0 {
        s
    } else if pattern.is_prefix_of(s) {
        to + replace_all(s.skip(pattern.len() as int), pattern, to)
    } else {
        seq![s[0]] + replace_all(s.skip(1), pattern, to)
    }
}

/// `s` without the characters `c` that it ends with.
pub open spec fn trim_end(s: Seq<char>, c: char) -> Seq<char>
    decreases s.len(),
{
    if s.len() > 0 && s.last() == c {
        trim_end(s.drop_last(), c)
    } else {
        s
    }
}

/// Whether a string holds another somewhere.
pub(crate) fn contains(s: &str, pattern: &str) -> (yes: bool)
    ensures
        yes == occurs(s@, pattern@),
{
    let v = chars_of(s);
    let p = chars_of(pattern);
    let n: usize = v.len();
    let mut i: usize = 0;
    loop
        invariant
            v@ == s@,
            p@ == pattern@,
            n == v@.len(),
            i <= n,
            forall|j: int| 0 <= j < i ==> !#[trigger] p@.is_prefix_of(v@.skip(j)),
        decreases n - i,
    {
        if matches_at(&v, i, &p) {
            return true;
        }
        if i == n {
            return false;
        }
        i = i + 1;
    }
}

/// Replaces every occurrence of a pattern, from left to right, by another text.
pub(crate) fn replace(s: &str, pattern: &str, to: &str) -> (out: String)
    requires
        pattern@.len() > 0,
    ensures
        out@ == replace_all(s@, pattern@, to@),
{
    let v = chars_of(s);
    let p = chars_of(pattern);
    let n: usize = v.len();
    let mut out = String::new();
    let mut i: usize = 0;
    assert(v@.skip(0) =~= s@);
    while i < n
        invariant
            v@ == s@,
            p@ == pattern@,
            p@.len() > 0,
            n == v@.len(),
            i <= n,
            replace_all(s@, pattern@, to@) == out@ + replace_all(v@.skip(i as int), p@, to@),
        decreases n - i,
    {
        let ghost rest = v@.skip(i as int);
        let ghost before = out@;
        if matches_at(&v, i, &p) {
            out.append(to);
            assert(rest.skip(p@.len() as int) =~= v@.skip(i + p@.len()));
            assert(out@ + replace_all(v@.skip(i + p@.len()), p@, to@) =~= before + (to@
                + replace_all(rest.skip(p@.len() as int), p@, to@)));
            i = i + p.len();
        } else {
            out.push(v[i]);
            assert(rest.skip(1) =~= v@.skip(i + 1));
            assert(out@ + replace_all(v@.skip(i + 1), p@, to@) =~= before + (seq![rest[0]]
                + replace_all(rest.skip(1), p@, to@)));
            i = i + 1;
        }
    }
    assert(v@.skip(n as int) =~= Seq::<char>::empty());
    assert(replace_all(Seq::<char>::empty(), p@, to@) =~= Seq::<char>::empty());
    out
}

/// Takes one character off the end of a string as often as it stands there.
pub(crate) fn trim_end_matches(s: &str, c: char) -> (out: String)
    ensures
        out@ == trim_end(s@, c),
{
    let mut v = chars_of(s);
    while v.len() > 0 && v[v.len() - 1] == c
        invariant
            trim_end(v@, c) == trim_end(s@, c),
        decreases v@.len(),
    {
        assert(v@.drop_last() =~= v@.subrange(0, v@.len() - 1));
        v.pop();
    }
    string_of(&v)
}

} // verus!
