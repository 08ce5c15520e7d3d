//! The grammar of decimal number literals.
//!
//! ```text
//! Literal  ::= Sign? ( 'inf' | 'infinity' | 'nan' | Decimal )
//! Decimal  ::= ( Digit+ | Digit+ '.' Digit* | Digit* '.' Digit+ ) Exponent?
//! Exponent ::= 'e' Sign? Digit+
//! Sign     ::= '+' | '-'
//! ```
//!
//! Letters count without regard to case.

use crate::text::{find_char, find_in};
use vstd::prelude::*;
use vstd::string::*;

verus! {

/// A decimal digit.
pub open spec fn is_digit(c: char) -> bool {
    '0' <= c <= '9'
}

/// A sign.
pub open spec fn is_sign(c: char) -> bool {
    c == '+' || c == '-'
}

/// Whether `s` holds decimal digits only.
pub open spec fn all_digits(s: Seq<char>) -> bool {
    forall|i: int| 0 <= i < s.len() ==> is_digit(#[trigger] s[i])
}

/// `s` without a sign at its start.
pub open spec fn unsigned(s: Seq<char>) -> Seq<char> {
    if s.len() > 0 && is_sign(s[0]) {
        s.drop_first()
    } else {
        s
    }
}

/// Digits with at most one `.` among them, and at least one digit.
pub open spec fn is_mantissa(s: Seq<char>) -> bool {
    let dot = find_char(s, '.');
    if dot < s.len() {
        all_digits(s.take(dot)) && all_digits(s.skip(dot + 1)) && s.len() > 1
    } else {
        s.len() > 0 && all_digits(s)
    }
}

/// What follows the `e` of an exponent: an optional sign and at least one
/// digit.
pub open spec fn is_exponent(s: Seq<char>) -> bool {
    unsigned(s).len() > 0 && all_digits(unsigned(s))
}

/// The index of the first `e` or `E` in `s`, or the length of `s` where it
/// holds none.
pub open spec fn exponent_mark(s: Seq<char>) -> int
    decreases s.len(),
{
    if s.len() == 0 {
        0
    } else if s[0] == 'e' || s[0] == 'E' {
        0
    } else {
        1 + exponent_mark(s.drop_first())
    }
}

/// A mantissa, or a mantissa and an exponent with the first `e` or `E`
/// between them.
pub open spec fn is_decimal(s: Seq<char>) -> bool {
    let e = exponent_mark(s);
    if e < s.len() {
        is_mantissa(s.take(e)) && is_exponent(s.skip(e + 1))
    } else {
        is_mantissa(s)
    }
}

/// Whether `c` is the lower-case letter `w` or its upper-case form.
pub open spec fn is_letter(c: char, w: char) -> bool {
    c == w || ('a' <= w <= 'z' && c as u32 + 32 == w as u32)
}

/// Whether `s` is the lower-case word `w` without regard to case.
pub open spec fn is_word(s: Seq<char>, w: Seq<char>) -> bool {
    s.len() == w.len() && forall|i: int| 0 <= i < s.len() ==> is_letter(s[i], #[trigger] w[i])
}

/// Whether `s` reads as a number: an optional sign, then `inf`, `infinity`,
/// `nan` or a decimal.
pub open spec fn is_number_literal(s: Seq<char>) -> bool {
    let body = unsigned(s);
    is_word(body, "inf"@) || is_word(body, "infinity"@) || is_word(body, "nan"@) || is_decimal(
        body,
    )
}

/// `exponent_mark` stays within the string, stops at an `e` or `E`, and
/// passes none; it is the only index that does.
proof fn lemma_exponent_mark(s: Seq<char>, k: int)
    requires
        0 <= k <= s.len(),
        k < s.len() ==> s[k] == 'e' || s[k] == 'E',
        forall|j: int| 0 <= j < k ==> s[j] != 'e' && s[j] != 'E',
    ensures
        exponent_mark(s) == k,
    decreases s.len(),
{
    if s.len() > 0 && k > 0 {
        let t = s.drop_first();
        assert forall|j: int| 0 <= j < k - 1 implies t[j] != 'e' && t[j] != 'E' by {}
        lemma_exponent_mark(t, k - 1);
    }
}

fn char_is_digit(c: char) -> (r: bool)
    ensures
        r == is_digit(c),
{
    '0' <= c && c <= '9'
}

fn char_is_letter(c: char, w: char) -> (r: bool)
    ensures
        r == is_letter(c, w),
{
    let cu: u32 = c as u32;
    let wu: u32 = w as u32;
    c == w || ('a' <= w && w <= 'z' && cu + 32 == wu)
}

/// Whether `s[from..to]` holds digits only.
fn all_digits_in(s: &str, from: usize, to: usize) -> (r: bool)
    requires
        from <= to <= s@.len(),
    ensures
        r == all_digits(s@.subrange(from as int, to as int)),
{
    let mut i: usize = from;
    while i < to
        invariant
            from <= i <= to <= s@.len(),
            forall|j: int| from <= j < i ==> is_digit(s@[j]),
        decreases to - i,
    {
        if !char_is_digit(s.get_char(i)) {
            assert(!is_digit(s@.subrange(from as int, to as int)[i - from]));
            return false;
        }
        i += 1;
    }
    true
}

/// Whether `s[from..to]` is a mantissa.
fn is_mantissa_in(s: &str, from: usize, to: usize) -> (r: bool)
    requires
        from <= to <= s@.len(),
    ensures
        r == is_mantissa(s@.subrange(from as int, to as int)),
{
    let ghost part = s@.subrange(from as int, to as int);
    let dot = find_in(s, from, to, '.');
    if dot < to {
        assert(part.take(dot - from) =~= s@.subrange(from as int, dot as int));
        assert(part.skip(dot - from + 1) =~= s@.subrange(dot + 1, to as int));
        all_digits_in(s, from, dot) && all_digits_in(s, dot + 1, to) && to - from > 1
    } else {
        to > from && all_digits_in(s, from, to)
    }
}

/// Whether `s[from..to]` is what follows the `e` of an exponent.
fn is_exponent_in(s: &str, from: usize, to: usize) -> (r: bool)
    requires
        from <= to <= s@.len(),
    ensures
        r == is_exponent(s@.subrange(from as int, to as int)),
{
    let ghost part = s@.subrange(from as int, to as int);
    let mut start: usize = from;
    if from < to {
        let c = s.get_char(from);
        if c == '+' || c == '-' {
            start = from + 1;
        }
    }
    assert(unsigned(part) =~= s@.subrange(start as int, to as int));
    start < to && all_digits_in(s, start, to)
}

/// Whether `s[from..to]` is a decimal.
fn is_decimal_in(s: &str, from: usize, to: usize) -> (r: bool)
    requires
        from <= to <= s@.len(),
    ensures
        r == is_decimal(s@.subrange(from as int, to as int)),
{
    let ghost part = s@.subrange(from as int, to as int);
    let mut e: usize = from;
    while e < to && s.get_char(e) != 'e' && s.get_char(e) != 'E'
        invariant
            from <= e <= to <= s@.len(),
            forall|j: int| from <= j < e ==> s@[j] != 'e' && s@[j] != 'E',
        decreases to - e,
    {
        e += 1;
    }
    proof {
        lemma_exponent_mark(part, e - from);
    }
    if e < to {
        assert(part.take(e - from) =~= s@.subrange(from as int, e as int));
        assert(part.skip(e - from + 1) =~= s@.subrange(e + 1, to as int));
        is_mantissa_in(s, from, e) && is_exponent_in(s, e + 1, to)
    } else {
        is_mantissa_in(s, from, to)
    }
}

/// Whether `s[from..to]` is the lower-case word `w` without regard to case.
fn is_word_in(s: &str, from: usize, to: usize, w: &str) -> (r: bool)
    requires
        from <= to <= s@.len(),
    ensures
        r == is_word(s@.subrange(from as int, to as int), w@),
{
    let ghost part = s@.subrange(from as int, to as int);
    let m = w.unicode_len();
    if to - from != m {
        return false;
    }
    let mut i: usize = 0;
    while i < m
        invariant
            from <= to <= s@.len(),
            m == to - from,
            m == w@.len(),
            i <= m,
            part == s@.subrange(from as int, to as int),
            forall|j: int| 0 <= j < i ==> is_letter(part[j], #[trigger] w@[j]),
        decreases m - i,
    {
        if !char_is_letter(s.get_char(from + i), w.get_char(i)) {
            return false;
        }
        i += 1;
    }
    true
}

/// Whether the text reads as a number.
pub fn is_number(s: &str) -> (r: bool)
    ensures
        r == is_number_literal(s@),
{
    let n = s.unicode_len();
    let mut start: usize = 0;
    if n > 0 {
        let c = s.get_char(0);
        if c == '+' || c == '-' {
            start = 1;
        }
    }
    assert(unsigned(s@) =~= s@.subrange(start as int, n as int));
    is_word_in(s, start, n, "inf") || is_word_in(s, start, n, "infinity") || is_word_in(
        s,
        start,
        n,
        "nan",
    ) || is_decimal_in(s, start, n)
}

} // verus!
