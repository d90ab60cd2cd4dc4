//! What holds of the operations on text.
use crate::response::decimal;
use crate::text::{lies_in, occurs, replace_all, trim_end};
use vstd::prelude::*;

verus! {

/// The character of a text at a place, where `c` follows the text without end.
pub open spec fn char_at(s: Seq<char>, c: char, i: int) -> char {
    if 0 <= i < s.len() {
        s[i]
    } else {
        c
    }
}

/// Whether two texts differ at most in how many slashes they end with.
pub open spec fn same_but_slashes(a: Seq<char>, b: Seq<char>) -> bool {
    forall|i: int| 0 <= i ==> #[trigger] char_at(a, '/', i) == char_at(b, '/', i)
}

/// Trimming takes off characters `c` at the end, and all of them.
pub proof fn law_trim_end(s: Seq<char>, c: char)
    ensures
        trim_end(s, c).is_prefix_of(s),
        forall|i: int| trim_end(s, c).len() <= i < s.len() ==> #[trigger] s[i] == c,
        trim_end(s, c).len() > 0 ==> trim_end(s, c).last() != c,
    decreases s.len(),
{
    if s.len() > 0 && s.last() == c {
        law_trim_end(s.drop_last(), c);
        let kept = trim_end(s, c);
        assert(s.take(kept.len() as int) =~= s.drop_last().take(kept.len() as int));
        assert forall|i: int| kept.len() <= i < s.len() implies #[trigger] s[i] == c by {
            if i < s.len() - 1 {
                assert(s.drop_last()[i] == c);
            }
        }
    } else {
        assert(s.take(s.len() as int) =~= s);
    }
}

/// Two texts are the same without the slashes at their ends exactly where they differ in nothing
/// but those slashes.
pub proof fn law_trimmed_alike(a: Seq<char>, b: Seq<char>)
    ensures
        trim_end(a, '/') == trim_end(b, '/') <==> same_but_slashes(a, b),
{
    let x = trim_end(a, '/');
    let y = trim_end(b, '/');
    law_trim_end(a, '/');
    law_trim_end(b, '/');
    assert forall|i: int| 0 <= i implies #[trigger] char_at(a, '/', i) == char_at(x, '/', i) by {
        if i < x.len() {
            assert(a.take(x.len() as int)[i] == x[i]);
        } else if i < a.len() {
            assert(a[i] == '/');
        }
    }
    assert forall|i: int| 0 <= i implies #[trigger] char_at(b, '/', i) == char_at(y, '/', i) by {
        if i < y.len() {
            assert(b.take(y.len() as int)[i] == y[i]);
        } else if i < b.len() {
            assert(b[i] == '/');
        }
    }
    if same_but_slashes(a, b) {
        if x.len() > y.len() {
            assert(char_at(a, '/', x.len() - 1) == char_at(b, '/', x.len() - 1));
        }
        if y.len() > x.len() {
            assert(char_at(a, '/', y.len() - 1) == char_at(b, '/', y.len() - 1));
        }
        assert forall|i: int| 0 <= i < x.len() implies x[i] == y[i] by {
            assert(char_at(a, '/', i) == char_at(b, '/', i));
        }
        assert(x =~= y);
    }
}

/// A pattern stands in every text that is put together round it.
pub proof fn law_occurs(before: Seq<char>, pattern: Seq<char>, after: Seq<char>)
    ensures
        occurs(before + pattern + after, pattern),
{
    let s = before + pattern + after;
    assert(s.skip(before.len() as int).take(pattern.len() as int) =~= pattern);
    assert(pattern.is_prefix_of(s.skip(before.len() as int)));
}

/// A text in which a pattern stands is put together round it.
pub proof fn law_occurs_somewhere(s: Seq<char>, pattern: Seq<char>) -> (parts: (
    Seq<char>,
    Seq<char>,
))
    requires
        occurs(s, pattern),
    ensures
        s == parts.0 + pattern + parts.1,
{
    let i = choose|i: int| 0 <= i <= s.len() && #[trigger] pattern.is_prefix_of(s.skip(i));
    let parts = (s.take(i), s.skip(i + pattern.len()));
    assert forall|k: int| 0 <= k < s.len() implies s[k] == (parts.0 + pattern + parts.1)[k] by {
        if i <= k < i + pattern.len() {
            assert(s.skip(i).take(pattern.len() as int)[k - i] == s[k]);
        }
    }
    assert(s =~= parts.0 + pattern + parts.1);
    parts
}

/// Nothing is replaced where the pattern does not occur.
pub proof fn law_replace_nothing(s: Seq<char>, pattern: Seq<char>, to: Seq<char>)
    requires
        !occurs(s, pattern),
    ensures
        replace_all(s, pattern, to) == s,
    decreases s.len(),
{
    if s.len() > 0 {
        assert(s.skip(0) =~= s);
        let rest = s.skip(1);
        assert forall|i: int| 0 <= i <= rest.len() implies !#[trigger] pattern.is_prefix_of(
            rest.skip(i),
        ) by {
            assert(rest.skip(i) =~= s.skip(i + 1));
        }
        law_replace_nothing(rest, pattern, to);
        assert(seq![s[0]] + rest =~= s);
    }
}

/// The first place where the pattern stands is replaced, then those that follow it; what stands
/// before it is kept.
pub proof fn law_replace_first(s: Seq<char>, pattern: Seq<char>, to: Seq<char>, i: int)
    requires
        pattern.len() > 0,
        0 <= i <= s.len(),
        pattern.is_prefix_of(s.skip(i)),
        forall|j: int| 0 <= j < i ==> !#[trigger] pattern.is_prefix_of(s.skip(j)),
    ensures
        replace_all(s, pattern, to) == s.take(i) + to + replace_all(
            s.skip(i + pattern.len()),
            pattern,
            to,
        ),
    decreases i,
{
    assert(s.skip(0) =~= s);
    let tail = replace_all(s.skip(i + pattern.len()), pattern, to);
    if i == 0 {
        assert(s.take(0) + to + tail =~= to + tail);
    } else {
        let rest = s.skip(1);
        assert(!pattern.is_prefix_of(s.skip(0)));
        assert(rest.skip(i - 1) =~= s.skip(i));
        assert forall|j: int| 0 <= j < i - 1 implies !#[trigger] pattern.is_prefix_of(
            rest.skip(j),
        ) by {
            assert(rest.skip(j) =~= s.skip(j + 1));
        }
        law_replace_first(rest, pattern, to, i - 1);
        assert(rest.skip(i - 1 + pattern.len()) =~= s.skip(i + pattern.len()));
        assert(seq![s[0]] + (rest.take(i - 1) + to + tail) =~= s.take(i) + to + tail);
    }
}

/// What follows the path of a directory makes a path in it exactly where it is nothing, begins
/// with a slash, or comes after one; and a path in a directory begins with that of the directory.
pub proof fn law_lies_in(dir: Seq<char>, rest: Seq<char>, path: Seq<char>)
    ensures
        lies_in(dir + rest, dir) <==> (rest.len() == 0 || rest[0] == '/' || (dir.len() > 0
            && dir.last() == '/')),
        lies_in(path, dir) ==> path == dir + path.skip(dir.len() as int),
{
    assert((dir + rest).take(dir.len() as int) =~= dir);
    if lies_in(path, dir) {
        assert(path.take(dir.len() as int) + path.skip(dir.len() as int) =~= path);
    }
}

/// The number that decimal digits stand for.
pub open spec fn number(digits: Seq<char>) -> int
    decreases digits.len(),
{
    if digits.len() == 0 {
        0
    } else {
        10 * number(digits.drop_last()) + (digits.last() as int - '0' as int)
    }
}

/// The decimal digits of a number stand for it, and do not begin with a zero that could be left
/// out.
pub proof fn law_decimal(n: nat)
    ensures
        number(decimal(n)) == n,
        forall|i: int| 0 <= i < decimal(n).len() ==> '0' <= #[trigger] decimal(n)[i] <= '9',
        decimal(n).len() > 0,
        decimal(n).len() > 1 ==> decimal(n)[0] != '0',
    decreases n,
{
    let digit = (0x30 + n % 10) as char;
    reveal_with_fuel(number, 2);
    if n < 10 {
        assert(decimal(n) =~= seq![digit]);
        assert(seq![digit].drop_last() =~= Seq::empty());
    } else {
        law_decimal(n / 10);
        assert(decimal(n).drop_last() =~= decimal(n / 10));
        if decimal(n / 10).len() == 1 {
            assert(decimal(n / 10)[0] == decimal(n / 10).last());
            assert(decimal(n / 10).drop_last() =~= Seq::empty());
        }
    }
}

} // verus!
