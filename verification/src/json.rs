//! Decoding of a DoH JSON reply into a [`Resp`](crate::response::Resp).
//!
//! The reply is one JSON object whose `Status` member is a non-negative
//! integer and whose `Answer` member is an array of objects, each carrying
//! `name` and `data` string members; members under other keys, at either
//! level, are skipped. The grammar below covers what such replies hold:
//! strings are runs of printable ASCII without escape sequences, numbers
//! are skipped by their character set, and both tagged members are
//! required, each exactly once.

use vstd::prelude::*;
use crate::response::Hosts;
use crate::response::Resp;

verus! {

/// JSON insignificant whitespace.
pub open spec fn is_ws(b: u8) -> bool {
    b == 0x20 || b == 0x09 || b == 0x0a || b == 0x0d
}

/// The first position at or after `i` holding a non-whitespace byte.
pub open spec fn skip_ws(s: Seq<u8>, i: int) -> int
    decreases s.len() - i,
{
    if 0 <= i < s.len() && is_ws(s[i]) {
        skip_ws(s, i + 1)
    } else {
        i
    }
}

/// A byte that may stand inside a string literal: printable ASCII, but not
/// the quote that ends it nor a backslash (escape sequences are not taken).
pub open spec fn is_string_byte(b: u8) -> bool {
    0x20 <= b <= 0x7e && b != 0x22 && b != 0x5c
}

/// The first position at or after `i` whose byte cannot stand inside a
/// string literal.
pub open spec fn scan_string(s: Seq<u8>, i: int) -> int
    decreases s.len() - i,
{
    if 0 <= i < s.len() && is_string_byte(s[i]) {
        scan_string(s, i + 1)
    } else {
        i
    }
}

/// Parse a string literal whose opening quote stands at `i`: its contents
/// and the position after the closing quote.
pub open spec fn parse_string(s: Seq<u8>, i: int) -> Option<(Seq<u8>, int)> {
    if 0 <= i < s.len() && s[i] == 0x22 {
        let j = scan_string(s, i + 1);
        if j < s.len() && s[j] == 0x22 {
            Some((s.subrange(i + 1, j), j + 1))
        } else {
            None
        }
    } else {
        None
    }
}

/// A decimal digit byte.
pub open spec fn is_digit_byte(b: u8) -> bool {
    0x30 <= b <= 0x39
}

/// Consume decimal digits into an accumulator, refusing a value that would
/// not fit in 32 bits.
pub open spec fn parse_u32_acc(s: Seq<u8>, i: int, acc: u32) -> Option<(u32, int)>
    decreases s.len() - i,
{
    if 0 <= i < s.len() && is_digit_byte(s[i]) {
        let d = (s[i] - 0x30) as u32;
        if acc <= (0xffff_ffffu32 - d) / 10 {
            parse_u32_acc(s, i + 1, (10 * acc + d) as u32)
        } else {
            None
        }
    } else {
        Some((acc, i))
    }
}

/// Parse a non-negative 32-bit decimal number at `i`: at least one digit,
/// no leading zero, value within 32 bits.
pub open spec fn parse_u32(s: Seq<u8>, i: int) -> Option<(u32, int)> {
    if 0 <= i < s.len() && is_digit_byte(s[i]) {
        if s[i] == 0x30 && i + 1 < s.len() && is_digit_byte(s[i + 1]) {
            None
        } else {
            parse_u32_acc(s, i, 0)
        }
    } else {
        None
    }
}

/// A byte that may stand inside a number token.
pub open spec fn is_number_byte(b: u8) -> bool {
    is_digit_byte(b) || b == 0x2d || b == 0x2b || b == 0x2e || b == 0x65 || b == 0x45
}

/// The first position at or after `i` whose byte cannot stand inside a
/// number token.
pub open spec fn scan_number(s: Seq<u8>, i: int) -> int
    decreases s.len() - i,
{
    if 0 <= i < s.len() && is_number_byte(s[i]) {
        scan_number(s, i + 1)
    } else {
        i
    }
}

/// Skip a number token starting at `i`, whose value is not needed.
pub open spec fn skip_number(s: Seq<u8>, i: int) -> Option<int> {
    if 0 <= i < s.len() && is_number_byte(s[i]) {
        Some(scan_number(s, i + 1))
    } else {
        None
    }
}

/// Does the word `w` stand at position `i` of `s`?
pub open spec fn match_word(s: Seq<u8>, i: int, w: Seq<u8>) -> bool {
    0 <= i && i + w.len() <= s.len() && s.subrange(i, i + w.len()) == w
}

/// The bytes of `true`.
pub open spec fn true_word() -> Seq<u8> {
    seq![0x74u8, 0x72u8, 0x75u8, 0x65u8]
}

/// The bytes of `false`.
pub open spec fn false_word() -> Seq<u8> {
    seq![0x66u8, 0x61u8, 0x6cu8, 0x73u8, 0x65u8]
}

/// The bytes of `null`.
pub open spec fn null_word() -> Seq<u8> {
    seq![0x6eu8, 0x75u8, 0x6cu8, 0x6cu8]
}

/// The bytes of the `name` key of an answer object.
pub open spec fn name_key() -> Seq<u8> {
    seq![0x6eu8, 0x61u8, 0x6du8, 0x65u8]
}

/// The bytes of the `data` key of an answer object.
pub open spec fn data_key() -> Seq<u8> {
    seq![0x64u8, 0x61u8, 0x74u8, 0x61u8]
}

/// The bytes of the `Status` key of the reply object.
pub open spec fn status_key() -> Seq<u8> {
    seq![0x53u8, 0x74u8, 0x61u8, 0x74u8, 0x75u8, 0x73u8]
}

/// The bytes of the `Answer` key of the reply object.
pub open spec fn answer_key() -> Seq<u8> {
    seq![0x41u8, 0x6eu8, 0x73u8, 0x77u8, 0x65u8, 0x72u8]
}

/// Skip one JSON value whose first byte stands at `i`: the position after
/// it, or `None` where no value starts there.
pub open spec fn skip_value(s: Seq<u8>, i: int) -> Option<int>
    decreases s.len() - i, 0int,
{
    if 0 <= i < s.len() {
        if s[i] == 0x22 {
            match parse_string(s, i) {
                Some((_c, j)) => Some(j),
                None => None,
            }
        } else if is_number_byte(s[i]) {
            skip_number(s, i)
        } else if s[i] == 0x74 {
            if match_word(s, i, true_word()) {
                Some(i + 4)
            } else {
                None
            }
        } else if s[i] == 0x66 {
            if match_word(s, i, false_word()) {
                Some(i + 5)
            } else {
                None
            }
        } else if s[i] == 0x6e {
            if match_word(s, i, null_word()) {
                Some(i + 4)
            } else {
                None
            }
        } else if s[i] == 0x7b {
            skip_object_body(s, i + 1, true)
        } else if s[i] == 0x5b {
            skip_array_body(s, i + 1, true)
        } else {
            None
        }
    } else {
        None
    }
}

/// Skip the members of an object from position `i` (just after `{` or
/// after a member): the position after the closing `}`.
pub open spec fn skip_object_body(s: Seq<u8>, i: int, first: bool) -> Option<int>
    decreases s.len() - i, 2int,
{
    let j = skip_ws(s, i);
    if !(i <= j <= s.len()) {
        None
    } else if j < s.len() && s[j] == 0x7d {
        Some(j + 1)
    } else if first {
        match skip_object_member(s, j) {
            Some(e) => if i < e <= s.len() {
                skip_object_body(s, e, false)
            } else {
                None
            },
            None => None,
        }
    } else if j < s.len() && s[j] == 0x2c {
        let k = skip_ws(s, j + 1);
        if i < k <= s.len() {
            match skip_object_member(s, k) {
                Some(e) => if i < e <= s.len() {
                    skip_object_body(s, e, false)
                } else {
                    None
                },
                None => None,
            }
        } else {
            None
        }
    } else {
        None
    }
}

/// Skip one `"key": value` member whose key's quote stands at `i`: the
/// position after the value.
pub open spec fn skip_object_member(s: Seq<u8>, i: int) -> Option<int>
    decreases s.len() - i, 1int,
{
    match parse_string(s, i) {
        Some((_key, p)) => {
            let q = skip_ws(s, p);
            if q < s.len() && s[q] == 0x3a {
                let v = skip_ws(s, q + 1);
                if i <= v <= s.len() {
                    skip_value(s, v)
                } else {
                    None
                }
            } else {
                None
            }
        },
        None => None,
    }
}

/// Skip the items of an array from position `i` (just after `[` or after
/// an item): the position after the closing `]`.
pub open spec fn skip_array_body(s: Seq<u8>, i: int, first: bool) -> Option<int>
    decreases s.len() - i, 2int,
{
    let j = skip_ws(s, i);
    if !(i <= j <= s.len()) {
        None
    } else if j < s.len() && s[j] == 0x5d {
        Some(j + 1)
    } else if first {
        match skip_value(s, j) {
            Some(e) => if i < e <= s.len() {
                skip_array_body(s, e, false)
            } else {
                None
            },
            None => None,
        }
    } else if j < s.len() && s[j] == 0x2c {
        let k = skip_ws(s, j + 1);
        if i <= k <= s.len() {
            match skip_value(s, k) {
                Some(e) => if i < e <= s.len() {
                    skip_array_body(s, e, false)
                } else {
                    None
                },
                None => None,
            }
        } else {
            None
        }
    } else {
        None
    }
}

/// Parse the members of one answer object from position `i` (just after
/// `{` or after a member), remembering the `name` and `data` values seen
/// so far: the pair and the position after the closing `}`. Both tagged
/// members are required, each exactly once; members under other keys are
/// skipped.
pub open spec fn parse_answer_body(
    s: Seq<u8>,
    i: int,
    first: bool,
    name: Option<Seq<u8>>,
    data: Option<Seq<u8>>,
) -> Option<((Seq<u8>, Seq<u8>), int)>
    decreases s.len() - i, 2int,
{
    let j = skip_ws(s, i);
    if !(i <= j <= s.len()) {
        None
    } else if j < s.len() && s[j] == 0x7d {
        match (name, data) {
            (Some(n), Some(d)) => Some(((n, d), j + 1)),
            _ => None,
        }
    } else {
        let k = if first {
            j
        } else if j < s.len() && s[j] == 0x2c {
            skip_ws(s, j + 1)
        } else {
            -1
        };
        if !(i <= k <= s.len()) {
            None
        } else {
            match parse_string(s, k) {
                Some((key, p)) => {
                    let q = skip_ws(s, p);
                    if q < s.len() && s[q] == 0x3a {
                        let v = skip_ws(s, q + 1);
                        if !(i <= v <= s.len()) {
                            None
                        } else if key == name_key() {
                            if name is Some {
                                None
                            } else {
                                match parse_string(s, v) {
                                    Some((val, e)) => if i < e <= s.len() {
                                        parse_answer_body(s, e, false, Some(val), data)
                                    } else {
                                        None
                                    },
                                    None => None,
                                }
                            }
                        } else if key == data_key() {
                            if data is Some {
                                None
                            } else {
                                match parse_string(s, v) {
                                    Some((val, e)) => if i < e <= s.len() {
                                        parse_answer_body(s, e, false, name, Some(val))
                                    } else {
                                        None
                                    },
                                    None => None,
                                }
                            }
                        } else {
                            match skip_value(s, v) {
                                Some(e) => if i < e <= s.len() {
                                    parse_answer_body(s, e, false, name, data)
                                } else {
                                    None
                                },
                                None => None,
                            }
                        }
                    } else {
                        None
                    }
                },
                None => None,
            }
        }
    }
}

/// Parse the items of the answer array from position `i` (just after `[`
/// or after an item), each an answer object, onto `acc`: the answers and
/// the position after the closing `]`.
pub open spec fn parse_answers(s: Seq<u8>, i: int, first: bool, acc: Seq<(Seq<u8>, Seq<u8>)>) -> Option<
    (Seq<(Seq<u8>, Seq<u8>)>, int),
>
    decreases s.len() - i, 2int,
{
    let j = skip_ws(s, i);
    if !(i <= j <= s.len()) {
        None
    } else if j < s.len() && s[j] == 0x5d {
        Some((acc, j + 1))
    } else {
        let k = if first {
            j
        } else if j < s.len() && s[j] == 0x2c {
            skip_ws(s, j + 1)
        } else {
            -1
        };
        if !(i <= k < s.len()) {
            None
        } else if s[k] == 0x7b {
            match parse_answer_body(s, k + 1, true, None, None) {
                Some((pair, e)) => if i < e <= s.len() {
                    parse_answers(s, e, false, acc.push(pair))
                } else {
                    None
                },
                None => None,
            }
        } else {
            None
        }
    }
}

/// Parse the members of the reply object from position `i` (just after
/// `{` or after a member), remembering the `Status` and `Answer` values
/// seen so far: the decoded reply and the position after the closing `}`.
/// Both tagged members are required, each exactly once; members under
/// other keys are skipped.
pub open spec fn parse_doh_body(
    s: Seq<u8>,
    i: int,
    first: bool,
    status: Option<u32>,
    answers: Option<Seq<(Seq<u8>, Seq<u8>)>>,
) -> Option<((u32, Seq<(Seq<u8>, Seq<u8>)>), int)>
    decreases s.len() - i, 2int,
{
    let j = skip_ws(s, i);
    if !(i <= j <= s.len()) {
        None
    } else if j < s.len() && s[j] == 0x7d {
        match (status, answers) {
            (Some(n), Some(a)) => Some(((n, a), j + 1)),
            _ => None,
        }
    } else {
        let k = if first {
            j
        } else if j < s.len() && s[j] == 0x2c {
            skip_ws(s, j + 1)
        } else {
            -1
        };
        if !(i <= k <= s.len()) {
            None
        } else {
            match parse_string(s, k) {
                Some((key, p)) => {
                    let q = skip_ws(s, p);
                    if q < s.len() && s[q] == 0x3a {
                        let v = skip_ws(s, q + 1);
                        if !(i <= v <= s.len()) {
                            None
                        } else if key == status_key() {
                            if status is Some {
                                None
                            } else {
                                match parse_u32(s, v) {
                                    Some((n, e)) => if i < e <= s.len() {
                                        parse_doh_body(s, e, false, Some(n), answers)
                                    } else {
                                        None
                                    },
                                    None => None,
                                }
                            }
                        } else if key == answer_key() {
                            if answers is Some {
                                None
                            } else {
                                if v < s.len() && s[v] == 0x5b {
                                    match parse_answers(s, v + 1, true, Seq::empty()) {
                                        Some((a, e)) => if i < e <= s.len() {
                                            parse_doh_body(s, e, false, status, Some(a))
                                        } else {
                                            None
                                        },
                                        None => None,
                                    }
                                } else {
                                    None
                                }
                            }
                        } else {
                            match skip_value(s, v) {
                                Some(e) => if i < e <= s.len() {
                                    parse_doh_body(s, e, false, status, answers)
                                } else {
                                    None
                                },
                                None => None,
                            }
                        }
                    } else {
                        None
                    }
                },
                None => None,
            }
        }
    }
}

/// Decode a whole DoH reply body: one reply object, possibly surrounded by
/// whitespace, with nothing after it.
pub open spec fn parse_doh(s: Seq<u8>) -> Option<(u32, Seq<(Seq<u8>, Seq<u8>)>)> {
    let i = skip_ws(s, 0);
    if i < s.len() && s[i] == 0x7b {
        match parse_doh_body(s, i + 1, true, None, None) {
            Some((m, e)) => if skip_ws(s, e) == s.len() {
                Some(m)
            } else {
                None
            },
            None => None,
        }
    } else {
        None
    }
}

/// The characters of `st` are exactly the bytes of `bs`, read as ASCII.
pub open spec fn str_matches_bytes(st: Seq<char>, bs: Seq<u8>) -> bool {
    st.len() == bs.len() && forall|i: int| 0 <= i < bs.len() ==> st[i] == #[trigger] bs[i] as char
}

/// Each answer's fields are the ASCII reading of the parsed byte pair.
pub open spec fn answers_match(hs: Seq<Hosts>, bs: Seq<(Seq<u8>, Seq<u8>)>) -> bool {
    &&& hs.len() == bs.len()
    &&& forall|i: int|
        0 <= i < bs.len() ==> str_matches_bytes(#[trigger] hs[i].name@, bs[i].0)
            && str_matches_bytes(hs[i].data@, bs[i].1)
}

/// The reply holds the parsed status and the ASCII reading of the parsed
/// answers.
pub open spec fn resp_matches(resp: Resp, m: (u32, Seq<(Seq<u8>, Seq<u8>)>)) -> bool {
    resp.status == m.0 && answers_match(resp.answer@, m.1)
}

/// Every character of `st` is printable ASCII: what a decoded string
/// member can hold, a newline in particular never among it.
pub open spec fn printable(st: Seq<char>) -> bool {
    forall|t: int| 0 <= t < st.len() ==> 0x20 <= #[trigger] st[t] as u32 <= 0x7e
}

/// Every answer's fields are printable ASCII.
pub open spec fn answers_printable(hs: Seq<Hosts>) -> bool {
    forall|i: int|
        0 <= i < hs.len() ==> printable(#[trigger] hs[i].name@) && printable(hs[i].data@)
}

/// An optional string is the ASCII reading of an optional byte sequence.
pub open spec fn opt_str_matches(o: Option<String>, g: Option<Seq<u8>>) -> bool {
    match (o, g) {
        (Option::Some(st), Option::Some(bs)) => str_matches_bytes(st@, bs),
        (Option::None, Option::None) => true,
        _ => false,
    }
}

/// Relies on String::from_utf8: bytes in the ASCII range decode to the
/// string of exactly those characters.
#[verifier::external_body]
fn ascii_to_string(v: Vec<u8>) -> (r: String)
    requires
        forall|i: int| 0 <= i < v@.len() ==> v@[i] < 0x80,
    ensures
        r@.len() == v@.len(),
        forall|i: int| 0 <= i < v@.len() ==> r@[i] == #[trigger] v@[i] as char,
{
    String::from_utf8(v).unwrap()
}

fn ws(s: &Vec<u8>, i: usize) -> (r: usize)
    requires
        i <= s@.len(),
    ensures
        r as int == skip_ws(s@, i as int),
        i <= r <= s@.len(),
{
    let mut j: usize = i;
    while j < s.len()
        invariant
            i <= j <= s@.len(),
            skip_ws(s@, i as int) == skip_ws(s@, j as int),
        decreases s@.len() - j,
    {
        let b = s[j];
        if !(b == 0x20 || b == 0x09 || b == 0x0a || b == 0x0d) {
            assert(skip_ws(s@, j as int) == j as int);
            return j;
        }
        j = j + 1;
    }
    j
}

fn scan_str_from(s: &Vec<u8>, i: usize) -> (r: usize)
    requires
        i <= s@.len(),
    ensures
        r as int == scan_string(s@, i as int),
        i <= r <= s@.len(),
        forall|t: int| i <= t < r ==> is_string_byte(#[trigger] s@[t]),
{
    let mut j: usize = i;
    while j < s.len()
        invariant
            i <= j <= s@.len(),
            scan_string(s@, i as int) == scan_string(s@, j as int),
            forall|t: int| i <= t < j ==> is_string_byte(#[trigger] s@[t]),
        decreases s@.len() - j,
    {
        let b = s[j];
        if !(0x20 <= b && b <= 0x7e && b != 0x22 && b != 0x5c) {
            assert(scan_string(s@, j as int) == j as int);
            return j;
        }
        j = j + 1;
    }
    j
}

fn pstring(s: &Vec<u8>, i: usize) -> (r: Option<(Vec<u8>, usize)>)
    requires
        i <= s@.len(),
    ensures
        match r {
            Some(p) => {
                &&& parse_string(s@, i as int) == Some((p.0@, p.1 as int))
                &&& i < p.1 <= s@.len()
                &&& forall|t: int| 0 <= t < p.0@.len() ==> is_string_byte(#[trigger] p.0@[t])
            },
            None => parse_string(s@, i as int) is None,
        },
{
    if i >= s.len() {
        return None;
    }
    if s[i] != 0x22 {
        return None;
    }
    let j = scan_str_from(s, i + 1);
    if !(j < s.len()) {
        return None;
    }
    if s[j] != 0x22 {
        return None;
    }
    let mut content: Vec<u8> = Vec::new();
    let mut t: usize = i + 1;
    while t < j
        invariant
            i + 1 <= t <= j < s@.len(),
            content@ == s@.subrange(i + 1, t as int),
        decreases j - t,
    {
        content.push(s[t]);
        proof {
            assert(content@ =~= s@.subrange(i + 1, t + 1));
        }
        t = t + 1;
    }
    Some((content, j + 1))
}

fn pu32(s: &Vec<u8>, i: usize) -> (r: Option<(u32, usize)>)
    requires
        i <= s@.len(),
    ensures
        match r {
            Some(p) => parse_u32(s@, i as int) == Some((p.0, p.1 as int)) && i < p.1 <= s@.len(),
            None => parse_u32(s@, i as int) is None,
        },
{
    if i >= s.len() {
        return None;
    }
    let b0 = s[i];
    if !(0x30 <= b0 && b0 <= 0x39) {
        return None;
    }
    if b0 == 0x30 && i + 1 < s.len() {
        let b1 = s[i + 1];
        if 0x30 <= b1 && b1 <= 0x39 {
            return None;
        }
    }
    let mut j: usize = i;
    let mut acc: u32 = 0;
    assert(parse_u32(s@, i as int) == parse_u32_acc(s@, i as int, 0));
    while j < s.len()
        invariant
            i <= j <= s@.len(),
            i < s@.len(),
            is_digit_byte(s@[i as int]),
            parse_u32(s@, i as int) == parse_u32_acc(s@, j as int, acc),
            j == i ==> acc == 0,
        decreases s@.len() - j,
    {
        let b = s[j];
        if !(0x30 <= b && b <= 0x39) {
            assert(parse_u32_acc(s@, j as int, acc) == Some((acc, j as int)));
            assert(j != i);
            return Some((acc, j));
        }
        let d = (b - 0x30) as u32;
        if acc > (0xffff_ffffu32 - d) / 10 {
            return None;
        }
        assert(10 * acc + d <= 0xffff_ffff) by {
            let m = (0xffff_ffffu32 - d) as int;
            assert(acc * 10 <= (m / 10) * 10) by (nonlinear_arith)
                requires
                    acc <= m / 10,
            ;
            assert((m / 10) * 10 <= m);
        };
        acc = acc * 10 + d;
        j = j + 1;
    }
    assert(parse_u32_acc(s@, j as int, acc) == Some((acc, j as int)));
    assert(j != i);
    Some((acc, j))
}

fn scan_num_from(s: &Vec<u8>, i: usize) -> (r: usize)
    requires
        i <= s@.len(),
    ensures
        r as int == scan_number(s@, i as int),
        i <= r <= s@.len(),
{
    let mut j: usize = i;
    while j < s.len()
        invariant
            i <= j <= s@.len(),
            scan_number(s@, i as int) == scan_number(s@, j as int),
        decreases s@.len() - j,
    {
        let b = s[j];
        if !(0x30 <= b && b <= 0x39 || b == 0x2d || b == 0x2b || b == 0x2e || b == 0x65 || b
            == 0x45) {
            assert(scan_number(s@, j as int) == j as int);
            return j;
        }
        j = j + 1;
    }
    j
}

fn is_word4(v: &Vec<u8>, b0: u8, b1: u8, b2: u8, b3: u8) -> (r: bool)
    ensures
        r == (v@ == seq![b0, b1, b2, b3]),
{
    let r = v.len() == 4 && v[0] == b0 && v[1] == b1 && v[2] == b2 && v[3] == b3;
    proof {
        if r {
            assert(v@ =~= seq![b0, b1, b2, b3]);
        } else {
            assert(v@ != seq![b0, b1, b2, b3]);
        }
    }
    r
}

fn is_word6(v: &Vec<u8>, b0: u8, b1: u8, b2: u8, b3: u8, b4: u8, b5: u8) -> (r: bool)
    ensures
        r == (v@ == seq![b0, b1, b2, b3, b4, b5]),
{
    let r = v.len() == 6 && v[0] == b0 && v[1] == b1 && v[2] == b2 && v[3] == b3 && v[4] == b4
        && v[5] == b5;
    proof {
        if r {
            assert(v@ =~= seq![b0, b1, b2, b3, b4, b5]);
        } else {
            assert(v@ != seq![b0, b1, b2, b3, b4, b5]);
        }
    }
    r
}

fn word_at(s: &Vec<u8>, i: usize, w: &Vec<u8>) -> (r: bool)
    requires
        i <= s@.len(),
    ensures
        r == match_word(s@, i as int, w@),
{
    if s.len() - i < w.len() {
        assert(!match_word(s@, i as int, w@));
        return false;
    }
    let n = s.len();
    let mut t: usize = 0;
    while t < w.len()
        invariant
            0 <= t <= w@.len(),
            i + w@.len() <= s@.len(),
            n == s@.len(),
            forall|u: int| 0 <= u < t ==> s@[i + u] == #[trigger] w@[u],
        decreases w@.len() - t,
    {
        if s[i + t] != w[t] {
            assert(s@.subrange(i as int, i + w@.len())[t as int] != w@[t as int]);
            return false;
        }
        t = t + 1;
    }
    proof {
        assert(s@.subrange(i as int, i + w@.len()) =~= w@);
    }
    true
}

fn sval(s: &Vec<u8>, i: usize) -> (r: Option<usize>)
    requires
        i <= s@.len(),
    ensures
        match r {
            Some(e) => skip_value(s@, i as int) == Some(e as int) && i < e <= s@.len(),
            None => skip_value(s@, i as int) is None,
        },
    decreases s@.len() - i, 0int,
{
    if i >= s.len() {
        return None;
    }
    let b = s[i];
    if b == 0x22 {
        match pstring(s, i) {
            Some((_c, j)) => Some(j),
            None => None,
        }
    } else if 0x30 <= b && b <= 0x39 || b == 0x2d || b == 0x2b || b == 0x2e || b == 0x65 || b
        == 0x45 {
        let e = scan_num_from(s, i + 1);
        Some(e)
    } else if b == 0x74 {
        let w = vec![0x74u8, 0x72u8, 0x75u8, 0x65u8];
        proof {
            assert(w@ =~= true_word());
        }
        if word_at(s, i, &w) {
            Some(i + 4)
        } else {
            None
        }
    } else if b == 0x66 {
        let w = vec![0x66u8, 0x61u8, 0x6cu8, 0x73u8, 0x65u8];
        proof {
            assert(w@ =~= false_word());
        }
        if word_at(s, i, &w) {
            Some(i + 5)
        } else {
            None
        }
    } else if b == 0x6e {
        let w = vec![0x6eu8, 0x75u8, 0x6cu8, 0x6cu8];
        proof {
            assert(w@ =~= null_word());
        }
        if word_at(s, i, &w) {
            Some(i + 4)
        } else {
            None
        }
    } else if b == 0x7b {
        sobj_body(s, i + 1, true)
    } else if b == 0x5b {
        sarr_body(s, i + 1, true)
    } else {
        None
    }
}

fn smember(s: &Vec<u8>, i: usize) -> (r: Option<usize>)
    requires
        i <= s@.len(),
    ensures
        match r {
            Some(e) => skip_object_member(s@, i as int) == Some(e as int) && i < e <= s@.len(),
            None => skip_object_member(s@, i as int) is None,
        },
    decreases s@.len() - i, 1int,
{
    match pstring(s, i) {
        Some((_key, p)) => {
            let q = ws(s, p);
            if q < s.len() && s[q] == 0x3a {
                let v = ws(s, q + 1);
                sval(s, v)
            } else {
                None
            }
        },
        None => None,
    }
}

fn sobj_body(s: &Vec<u8>, i: usize, first: bool) -> (r: Option<usize>)
    requires
        i <= s@.len(),
    ensures
        match r {
            Some(e) => skip_object_body(s@, i as int, first) == Some(e as int) && i < e
                <= s@.len(),
            None => skip_object_body(s@, i as int, first) is None,
        },
    decreases s@.len() - i, 2int,
{
    let j = ws(s, i);
    if j < s.len() && s[j] == 0x7d {
        return Some(j + 1);
    }
    if first {
        match smember(s, j) {
            Some(e) => sobj_body(s, e, false),
            None => None,
        }
    } else {
        if j < s.len() && s[j] == 0x2c {
            let k = ws(s, j + 1);
            match smember(s, k) {
                Some(e) => sobj_body(s, e, false),
                None => None,
            }
        } else {
            None
        }
    }
}

fn pans_body(
    s: &Vec<u8>,
    i: usize,
    first: bool,
    name: Option<String>,
    data: Option<String>,
    gname: Ghost<Option<Seq<u8>>>,
    gdata: Ghost<Option<Seq<u8>>>,
) -> (r: Option<(Hosts, usize)>)
    requires
        i <= s@.len(),
        opt_str_matches(name, gname@),
        opt_str_matches(data, gdata@),
        name matches Some(st) ==> printable(st@),
        data matches Some(st) ==> printable(st@),
    ensures
        match r {
            Some(p) => {
                &&& parse_answer_body(s@, i as int, first, gname@, gdata@) matches Some((pair, e))
                    && e == p.1 as int && str_matches_bytes(p.0.name@, pair.0)
                    && str_matches_bytes(p.0.data@, pair.1)
                &&& printable(p.0.name@) && printable(p.0.data@)
                &&& i < p.1 <= s@.len()
            },
            None => parse_answer_body(s@, i as int, first, gname@, gdata@) is None,
        },
    decreases s@.len() - i, 2int,
{
    let j = ws(s, i);
    if j < s.len() && s[j] == 0x7d {
        match (name, data) {
            (Option::Some(n), Option::Some(d)) => {
                return Some((Hosts { name: n, data: d }, j + 1));
            },
            _ => {
                return None;
            },
        }
    }
    let k: usize;
    if first {
        k = j;
    } else if j < s.len() && s[j] == 0x2c {
        k = ws(s, j + 1);
    } else {
        return None;
    }
    match pstring(s, k) {
        Some((key, p)) => {
            let q = ws(s, p);
            if q < s.len() && s[q] == 0x3a {
                let v = ws(s, q + 1);
                if is_word4(&key, 0x6e, 0x61, 0x6d, 0x65) {
                    proof {
                        assert(key@ == name_key());
                    }
                    if name.is_some() {
                        None
                    } else {
                        match pstring(s, v) {
                            Some((val, e)) => {
                                let ghost gv = val@;
                                let vs = ascii_to_string(val);
                                proof {
                                    assert(str_matches_bytes(vs@, gv));
                                    assert forall|t: int| 0 <= t < vs@.len() implies 0x20 <= #[trigger] vs@[t] as u32 <= 0x7e by {
                                        assert(is_string_byte(gv[t]));
                                    }
                                    assert(printable(vs@));
                                }
                                pans_body(s, e, false, Some(vs), data, Ghost(Some(gv)), gdata)
                            },
                            None => None,
                        }
                    }
                } else if is_word4(&key, 0x64, 0x61, 0x74, 0x61) {
                    proof {
                        assert(key@ == data_key());
                        assert(key@ != name_key());
                    }
                    if data.is_some() {
                        None
                    } else {
                        match pstring(s, v) {
                            Some((val, e)) => {
                                let ghost gv = val@;
                                let vs = ascii_to_string(val);
                                proof {
                                    assert(str_matches_bytes(vs@, gv));
                                    assert forall|t: int| 0 <= t < vs@.len() implies 0x20 <= #[trigger] vs@[t] as u32 <= 0x7e by {
                                        assert(is_string_byte(gv[t]));
                                    }
                                    assert(printable(vs@));
                                }
                                pans_body(s, e, false, name, Some(vs), gname, Ghost(Some(gv)))
                            },
                            None => None,
                        }
                    }
                } else {
                    proof {
                        assert(key@ != name_key());
                        assert(key@ != data_key());
                    }
                    match sval(s, v) {
                        Some(e) => pans_body(s, e, false, name, data, gname, gdata),
                        None => None,
                    }
                }
            } else {
                None
            }
        },
        None => None,
    }
}

fn pans_list(
    s: &Vec<u8>,
    i: usize,
    first: bool,
    acc: Vec<Hosts>,
    gacc: Ghost<Seq<(Seq<u8>, Seq<u8>)>>,
) -> (r: Option<(Vec<Hosts>, usize)>)
    requires
        i <= s@.len(),
        answers_match(acc@, gacc@),
        answers_printable(acc@),
    ensures
        match r {
            Some(p) => {
                &&& parse_answers(s@, i as int, first, gacc@) matches Some((bs, e)) && e == p.1
                    as int && answers_match(p.0@, bs)
                &&& answers_printable(p.0@)
                &&& i < p.1 <= s@.len()
            },
            None => parse_answers(s@, i as int, first, gacc@) is None,
        },
    decreases s@.len() - i, 2int,
{
    let j = ws(s, i);
    if j < s.len() && s[j] == 0x5d {
        return Some((acc, j + 1));
    }
    let k: usize;
    if first {
        k = j;
    } else if j < s.len() && s[j] == 0x2c {
        k = ws(s, j + 1);
    } else {
        return None;
    }
    if !(k < s.len()) {
        return None;
    }
    if s[k] != 0x7b {
        return None;
    }
    match pans_body(s, k + 1, true, None, None, Ghost(None), Ghost(None)) {
        Some((h, e)) => {
            let ghost pair = parse_answer_body(s@, k + 1, true, None, None)->Some_0.0;
            let mut acc2 = acc;
            acc2.push(h);
            proof {
                assert(answers_match(acc2@, gacc@.push(pair)));
            }
            pans_list(s, e, false, acc2, Ghost(gacc@.push(pair)))
        },
        None => None,
    }
}

fn pdoh_body(
    s: &Vec<u8>,
    i: usize,
    first: bool,
    status: Option<u32>,
    answers: Option<Vec<Hosts>>,
    ganswers: Ghost<Option<Seq<(Seq<u8>, Seq<u8>)>>>,
) -> (r: Option<(Resp, usize)>)
    requires
        i <= s@.len(),
        match (answers, ganswers@) {
            (Option::Some(hs), Option::Some(bs)) => answers_match(hs@, bs),
            (Option::None, Option::None) => true,
            _ => false,
        },
        answers matches Some(hs) ==> answers_printable(hs@),
    ensures
        match r {
            Some(p) => {
                &&& parse_doh_body(s@, i as int, first, status, ganswers@) matches Some((m, e))
                    && e == p.1 as int && resp_matches(p.0, m)
                &&& answers_printable(p.0.answer@)
                &&& i < p.1 <= s@.len()
            },
            None => parse_doh_body(s@, i as int, first, status, ganswers@) is None,
        },
    decreases s@.len() - i, 2int,
{
    let j = ws(s, i);
    if j < s.len() && s[j] == 0x7d {
        match (status, answers) {
            (Option::Some(n), Option::Some(a)) => {
                return Some((Resp { status: n, answer: a }, j + 1));
            },
            _ => {
                return None;
            },
        }
    }
    let k: usize;
    if first {
        k = j;
    } else if j < s.len() && s[j] == 0x2c {
        k = ws(s, j + 1);
    } else {
        return None;
    }
    match pstring(s, k) {
        Some((key, p)) => {
            let q = ws(s, p);
            if q < s.len() && s[q] == 0x3a {
                let v = ws(s, q + 1);
                if is_word6(&key, 0x53, 0x74, 0x61, 0x74, 0x75, 0x73) {
                    proof {
                        assert(key@ == status_key());
                    }
                    if status.is_some() {
                        None
                    } else {
                        match pu32(s, v) {
                            Some((n, e)) => pdoh_body(s, e, false, Some(n), answers, ganswers),
                            None => None,
                        }
                    }
                } else if is_word6(&key, 0x41, 0x6e, 0x73, 0x77, 0x65, 0x72) {
                    proof {
                        assert(key@ == answer_key());
                        assert(key@ != status_key());
                    }
                    if answers.is_some() {
                        None
                    } else {
                        if v < s.len() && s[v] == 0x5b {
                            match pans_list(s, v + 1, true, Vec::new(), Ghost(Seq::empty())) {
                                Some((a, e)) => {
                                    let ghost ga = parse_answers(
                                        s@,
                                        v + 1,
                                        true,
                                        Seq::empty(),
                                    )->Some_0.0;
                                    pdoh_body(s, e, false, status, Some(a), Ghost(Some(ga)))
                                },
                                None => None,
                            }
                        } else {
                            None
                        }
                    }
                } else {
                    proof {
                        assert(key@ != status_key());
                        assert(key@ != answer_key());
                    }
                    match sval(s, v) {
                        Some(e) => pdoh_body(s, e, false, status, answers, ganswers),
                        None => None,
                    }
                }
            } else {
                None
            }
        },
        None => None,
    }
}

/// Decode one DoH reply body into a reply value. Succeeds exactly when the
/// bytes parse under [`parse_doh`], and then carries the parsed status and
/// the parsed answers, in order.
pub fn decode_doh(body: &Vec<u8>) -> (r: Option<Resp>)
    ensures
        match r {
            Some(resp) => parse_doh(body@) matches Some(m) && resp_matches(resp, m)
                && answers_printable(resp.answer@),
            None => parse_doh(body@) is None,
        },
{
    let i = ws(body, 0);
    if !(i < body.len()) {
        return None;
    }
    if body[i] != 0x7b {
        return None;
    }
    match pdoh_body(body, i + 1, true, None, None, Ghost(None)) {
        Some((resp, e)) => {
            let t = ws(body, e);
            if t == body.len() {
                Some(resp)
            } else {
                None
            }
        },
        None => None,
    }
}

fn sarr_body(s: &Vec<u8>, i: usize, first: bool) -> (r: Option<usize>)
    requires
        i <= s@.len(),
    ensures
        match r {
            Some(e) => skip_array_body(s@, i as int, first) == Some(e as int) && i < e
                <= s@.len(),
            None => skip_array_body(s@, i as int, first) is None,
        },
    decreases s@.len() - i, 2int,
{
    let j = ws(s, i);
    if j < s.len() && s[j] == 0x5d {
        return Some(j + 1);
    }
    if first {
        match sval(s, j) {
            Some(e) => sarr_body(s, e, false),
            None => None,
        }
    } else {
        if j < s.len() && s[j] == 0x2c {
            let k = ws(s, j + 1);
            match sval(s, k) {
                Some(e) => sarr_body(s, e, false),
                None => None,
            }
        } else {
            None
        }
    }
}

} // verus!
