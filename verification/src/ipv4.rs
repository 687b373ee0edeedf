//! Validation of IPv4 literals in dotted-quad form: four decimal octets,
//! each at most 255 and without leading zeroes, separated by dots.

use vstd::prelude::*;
use vstd::string::StrSliceExecFns;

verus! {

/// Is `c` a decimal digit?
pub open spec fn is_digit(c: char) -> bool {
    '0' <= c && c <= '9'
}

/// Numeric value of a decimal digit.
pub open spec fn digit_val(c: char) -> int {
    c as u32 - '0' as u32
}

/// The first position at or after `i` holding a dot, or the end of the
/// sequence (or `i` itself, when `i` is out of range).
pub open spec fn find_dot(s: Seq<char>, i: int) -> int
    decreases s.len() - i,
{
    if 0 <= i < s.len() {
        if s[i] == '.' {
            i
        } else {
            find_dot(s, i + 1)
        }
    } else {
        i
    }
}

/// Value of a digit sequence of length one to three.
pub open spec fn octet_val(s: Seq<char>) -> int {
    if s.len() == 1 {
        digit_val(s[0])
    } else if s.len() == 2 {
        10 * digit_val(s[0]) + digit_val(s[1])
    } else {
        100 * digit_val(s[0]) + 10 * digit_val(s[1]) + digit_val(s[2])
    }
}

/// A valid octet: one to three digits, no leading zero, value at most 255.
pub open spec fn is_octet(s: Seq<char>) -> bool {
    &&& 1 <= s.len() <= 3
    &&& (forall|i: int| 0 <= i < s.len() ==> is_digit(#[trigger] s[i]))
    &&& (s.len() > 1 ==> s[0] != '0')
    &&& octet_val(s) <= 255
}

/// A valid IPv4 literal: exactly three dots, and the four segments they cut
/// out are each a valid octet.
pub open spec fn is_ipv4(s: Seq<char>) -> bool {
    let a = find_dot(s, 0);
    let b = find_dot(s, a + 1);
    let c = find_dot(s, b + 1);
    &&& a < s.len()
    &&& b < s.len()
    &&& c < s.len()
    &&& find_dot(s, c + 1) == s.len()
    &&& is_octet(s.subrange(0, a))
    &&& is_octet(s.subrange(a + 1, b))
    &&& is_octet(s.subrange(b + 1, c))
    &&& is_octet(s.subrange(c + 1, s.len() as int))
}

fn find_dot_from(s: &str, i: usize) -> (r: usize)
    requires
        i <= s@.len(),
    ensures
        r as int == find_dot(s@, i as int),
        i <= r <= s@.len(),
{
    let n = s.unicode_len();
    let mut j: usize = i;
    while j < n
        invariant
            i <= j <= n,
            n == s@.len(),
            find_dot(s@, i as int) == find_dot(s@, j as int),
        decreases n - j,
    {
        if s.get_char(j) == '.' {
            return j;
        }
        j = j + 1;
    }
    j
}

fn check_octet(s: &str, from: usize, to: usize) -> (r: bool)
    requires
        from <= to <= s@.len(),
    ensures
        r == is_octet(s@.subrange(from as int, to as int)),
{
    let ghost seg = s@.subrange(from as int, to as int);
    let len = to - from;
    if len < 1 || len > 3 {
        return false;
    }
    let mut j: usize = from;
    while j < to
        invariant
            from <= j <= to <= s@.len(),
            seg == s@.subrange(from as int, to as int),
            forall|k: int| from <= k < j ==> is_digit(#[trigger] s@[k]),
        decreases to - j,
    {
        let c = s.get_char(j);
        if c < '0' || c > '9' {
            return false;
        }
        j = j + 1;
    }
    assert(forall|k: int| 0 <= k < seg.len() ==> is_digit(#[trigger] seg[k]));
    if len > 1 && s.get_char(from) == '0' {
        return false;
    }
    let mut val: u32 = 0;
    let mut t: usize = from;
    while t < to
        invariant
            from <= t <= to <= s@.len(),
            seg == s@.subrange(from as int, to as int),
            to - from <= 3,
            forall|k: int| from <= k < to ==> is_digit(#[trigger] s@[k]),
            val <= 999,
            t == from ==> val == 0,
            t == from + 1 ==> val == digit_val(s@[from as int]),
            t == from + 2 ==> val == 10 * digit_val(s@[from as int]) + digit_val(
                s@[from as int + 1],
            ),
            t == from + 3 ==> val == 100 * digit_val(s@[from as int]) + 10 * digit_val(
                s@[from as int + 1],
            ) + digit_val(s@[from as int + 2]),
        decreases to - t,
    {
        let c = s.get_char(t);
        let d = c as u32 - 48;
        val = val * 10 + d;
        t = t + 1;
    }
    assert(val as int == octet_val(seg));
    val <= 255
}

/// Decide whether `s` is a valid dotted-quad IPv4 literal.
pub fn is_ipv4_literal(s: &str) -> (r: bool)
    ensures
        r == is_ipv4(s@),
{
    let n = s.unicode_len();
    let a = find_dot_from(s, 0);
    if a >= n {
        return false;
    }
    let b = find_dot_from(s, a + 1);
    if b >= n {
        return false;
    }
    let c = find_dot_from(s, b + 1);
    if c >= n {
        return false;
    }
    let d = find_dot_from(s, c + 1);
    if d != n {
        return false;
    }
    let r1 = check_octet(s, 0, a);
    let r2 = check_octet(s, a + 1, b);
    let r3 = check_octet(s, b + 1, c);
    let r4 = check_octet(s, c + 1, n);
    r1 && r2 && r3 && r4
}

} // verus!
