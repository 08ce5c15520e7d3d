//! Text on the level of characters: comparison, search, splitting at a
//! separator and trimming of white space.

use vstd::prelude::*;
use vstd::string::*;

verus! {

/// Whether two strings hold the same characters.
pub fn str_eq(a: &str, b: &str) -> (r: bool)
    ensures
        r == (a@ == b@),
{
    let n = a.unicode_len();
    if n != b.unicode_len() {
        return false;
    }
    let mut i: usize = 0;
    while i < n
        invariant
            n == a@.len(),
            n == b@.len(),
            i <= n,
            forall|j: int| 0 <= j < i ==> a@[j] == b@[j],
        decreases n - i,
    {
        if a.get_char(i) != b.get_char(i) {
            return false;
        }
        i += 1;
    }
    assert(a@ =~= b@);
    true
}

/// The two strings one after the other.
pub fn joined(a: &str, b: &str) -> (r: String)
    ensures
        r@ == a@ + b@,
{
    let mut s = a.to_owned();
    s.append(b);
    s
}

/// White space as the Unicode property `White_Space` defines it.
pub open spec fn is_space(c: char) -> bool {
    let u = c as u32;
    ||| 0x09 <= u <= 0x0d
    ||| u == 0x20
    ||| u == 0x85
    ||| u == 0xa0
    ||| u == 0x1680
    ||| 0x2000 <= u <= 0x200a
    ||| u == 0x2028
    ||| u == 0x2029
    ||| u == 0x202f
    ||| u == 0x205f
    ||| u == 0x3000
}

/// Whether the character is white space.
pub fn char_is_space(c: char) -> (r: bool)
    ensures
        r == is_space(c),
{
    let u: u32 = c as u32;
    (0x09 <= u && u <= 0x0d) || u == 0x20 || u == 0x85 || u == 0xa0 || u == 0x1680 || (0x2000 <= u
        && u <= 0x200a) || u == 0x2028 || u == 0x2029 || u == 0x202f || u == 0x205f || u == 0x3000
}

/// The string without the white space at its start.
pub open spec fn trim_start(s: Seq<char>) -> Seq<char>
    decreases s.len(),
{
    if s.len() > 0 && is_space(s[0]) {
        trim_start(s.drop_first())
    } else {
        s
    }
}

/// The string without the white space at its end.
pub open spec fn trim_end(s: Seq<char>) -> Seq<char>
    decreases s.len(),
{
    if s.len() > 0 && is_space(s.last()) {
        trim_end(s.drop_last())
    } else {
        s
    }
}

/// The string without the white space at its start and at its end.
pub open spec fn trim(s: Seq<char>) -> Seq<char> {
    trim_end(trim_start(s))
}

/// The index of the first `c` in `s`, or the length of `s` where it holds
/// none.
pub open spec fn find_char(s: Seq<char>, c: char) -> int
    decreases s.len(),
{
    if s.len() == 0 {
        0
    } else if s[0] == c {
        0
    } else {
        1 + find_char(s.drop_first(), c)
    }
}

/// `find_char` stays within the string, stops at an occurrence, and passes
/// none.
pub proof fn lemma_find_char(s: Seq<char>, c: char)
    ensures
        0 <= find_char(s, c) <= s.len(),
        find_char(s, c) < s.len() ==> s[find_char(s, c)] == c,
        forall|j: int| 0 <= j < find_char(s, c) ==> s[j] != c,
    decreases s.len(),
{
    if s.len() > 0 && s[0] != c {
        lemma_find_char(s.drop_first(), c);
        assert forall|j: int| 0 <= j < find_char(s, c) implies s[j] != c by {
            if j > 0 {
                assert(s.drop_first()[j - 1] == s[j]);
            }
        }
    }
}

/// An index that stops at an occurrence or at the end, and passes no
/// occurrence, is the one that `find_char` gives.
pub proof fn lemma_find_char_is(s: Seq<char>, c: char, k: int)
    requires
        0 <= k <= s.len(),
        k < s.len() ==> s[k] == c,
        forall|j: int| 0 <= j < k ==> s[j] != c,
    ensures
        find_char(s, c) == k,
{
    lemma_find_char(s, c);
}

/// The part of `s` before the first `c` (all of `s` where it holds none).
pub open spec fn before_char(s: Seq<char>, c: char) -> Seq<char> {
    s.take(find_char(s, c))
}

/// The part of `s` after the first `c`, if `s` holds one.
pub open spec fn after_char(s: Seq<char>, c: char) -> Option<Seq<char>> {
    if find_char(s, c) < s.len() {
        Some(s.skip(find_char(s, c) + 1))
    } else {
        None
    }
}

/// The index of the first `c` in `s[from..to]`, counted in characters from
/// the start of `s`; `to` where there is none.
pub fn find_in(s: &str, from: usize, to: usize, c: char) -> (r: usize)
    requires
        from <= to <= s@.len(),
    ensures
        from <= r <= to,
        r - from == find_char(s@.subrange(from as int, to as int), c),
{
    let mut i: usize = from;
    while i < to && s.get_char(i) != c
        invariant
            from <= i <= to <= s@.len(),
            forall|j: int| from <= j < i ==> s@[j] != c,
        decreases to - i,
    {
        i += 1;
    }
    proof {
        lemma_find_char_is(s@.subrange(from as int, to as int), c, i - from);
    }
    i
}

/// The bounds, in characters, of `s[from..to]` without the white space at
/// its start and at its end.
pub fn trim_bounds(s: &str, from: usize, to: usize) -> (r: (usize, usize))
    requires
        from <= to <= s@.len(),
    ensures
        from <= r.0 <= r.1 <= to,
        s@.subrange(r.0 as int, r.1 as int) == trim(s@.subrange(from as int, to as int)),
{
    let mut a: usize = from;
    while a < to && char_is_space(s.get_char(a))
        invariant
            from <= a <= to <= s@.len(),
            trim_start(s@.subrange(from as int, to as int)) == trim_start(
                s@.subrange(a as int, to as int),
            ),
        decreases to - a,
    {
        assert(s@.subrange(a as int, to as int).drop_first() =~= s@.subrange(a + 1, to as int));
        a += 1;
    }
    let mut b: usize = to;
    while a < b && char_is_space(s.get_char(b - 1))
        invariant
            a <= b <= to <= s@.len(),
            trim_end(s@.subrange(a as int, to as int)) == trim_end(s@.subrange(a as int, b as int)),
        decreases b - a,
    {
        assert(s@.subrange(a as int, b as int).drop_last() =~= s@.subrange(a as int, b - 1));
        b -= 1;
    }
    (a, b)
}

/// `s` with every occurrence of `pat` replaced by `with`: occurrences are
/// found from left to right and do not overlap. An empty `pat` occurs
/// nowhere.
pub open spec fn replace(s: Seq<char>, pat: Seq<char>, with: Seq<char>) -> Seq<char>
    decreases s.len(),
{
    if pat.len() == 0 || s.len() < pat.len() {
        s
    } else if s.take(pat.len() as int) == pat {
        with + replace(s.skip(pat.len() as int), pat, with)
    } else {
        seq![s[0]] + replace(s.drop_first(), pat, with)
    }
}

/// Whether `pat` occurs somewhere in `s`.
pub open spec fn contains(s: Seq<char>, pat: Seq<char>) -> bool {
    exists|i: int|
        0 <= i && i + pat.len() <= s.len() && #[trigger] s.subrange(i, i + pat.len()) == pat
}

/// Whether `pat` stands in `s` at the index `at`, counted in characters.
pub fn matches_at(s: &str, at: usize, pat: &str) -> (r: bool)
    requires
        at + pat@.len() <= s@.len() <= usize::MAX,
    ensures
        r == (s@.subrange(at as int, at + pat@.len()) == pat@),
{
    let m = pat.unicode_len();
    let mut j: usize = 0;
    while j < m
        invariant
            m == pat@.len(),
            at + m <= s@.len() <= usize::MAX,
            j <= m,
            forall|k: int| 0 <= k < j ==> s@[at + k] == pat@[k],
        decreases m - j,
    {
        if s.get_char(at + j) != pat.get_char(j) {
            return false;
        }
        j += 1;
    }
    assert(s@.subrange(at as int, at + m) =~= pat@);
    true
}

/// Whether `pat` occurs somewhere in `s`.
pub fn str_contains(s: &str, pat: &str) -> (r: bool)
    ensures
        r == contains(s@, pat@),
{
    let n = s.unicode_len();
    let m = pat.unicode_len();
    if m > n {
        return false;
    }
    let last = n - m;
    let mut i: usize = 0;
    loop
        invariant
            n == s@.len(),
            m == pat@.len(),
            last == n - m,
            i <= last,
            forall|k: int| 0 <= k < i ==> #[trigger] s@.subrange(k, k + m) != pat@,
        decreases last - i,
    {
        if matches_at(s, i, pat) {
            return true;
        }
        if i == last {
            return false;
        }
        i += 1;
    }
}

/// `s` with every occurrence of `pat` replaced by `with`.
pub fn str_replace(s: &str, pat: &str, with: &str) -> (r: String)
    ensures
        r@ == replace(s@, pat@, with@),
{
    let n = s.unicode_len();
    let m = pat.unicode_len();
    if m == 0 || m > n {
        return s.to_owned();
    }
    let mut out = String::new();
    let mut start: usize = 0;
    let mut i: usize = 0;
    assert(s@.skip(0) =~= s@);
    while i <= n - m
        invariant
            n == s@.len(),
            m == pat@.len(),
            0 < m <= n,
            start <= i <= n,
            replace(s@, pat@, with@) == out@ + s@.subrange(start as int, i as int) + replace(
                s@.skip(i as int),
                pat@,
                with@,
            ),
        decreases n - i,
    {
        let ghost rest = s@.skip(i as int);
        assert(rest.take(m as int) =~= s@.subrange(i as int, i + m));
        if matches_at(s, i, pat) {
            out.append(s.substring_char(start, i));
            out.append(with);
            assert(rest.skip(m as int) =~= s@.skip(i + m));
            i += m;
            start = i;
        } else {
            assert(rest.drop_first() =~= s@.skip(i + 1));
            i += 1;
        }
    }
    out.append(s.substring_char(start, n));
    out
}

} // verus!
