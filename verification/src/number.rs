//! The texts that stand for numbers: which of them are integers, hexadecimal
//! numbers or floating-point literals, what an integer text is worth, and
//! how a number is written in decimal.

use crate::text::{chars_are_ignoring_case, same_ignoring_case, to_chars};
use vstd::prelude::*;
use vstd::string::StringExecFns;

verus! {

/// Whether `c` is a decimal digit.
pub open spec fn is_digit(c: char) -> bool {
    '0' <= c && c <= '9'
}

/// What the decimal digit `c` is worth.
pub open spec fn digit_value(c: char) -> int {
    c as int - '0' as int
}

/// Whether `c` is a hexadecimal digit, in either case.
pub open spec fn is_hex_digit(c: char) -> bool {
    is_digit(c) || ('a' <= c && c <= 'f') || ('A' <= c && c <= 'F')
}

/// Whether `c` is `+` or `-`.
pub open spec fn is_sign(c: char) -> bool {
    c == '+' || c == '-'
}

/// Whether `s[from..]` holds decimal digits only.
pub open spec fn digits_only(s: Seq<char>, from: int) -> bool {
    forall|i: int| from <= i < s.len() ==> is_digit(#[trigger] s[i])
}

/// What the decimal digits `s[from..to]` are worth, read as one number.
pub open spec fn decimal_value(s: Seq<char>, from: int, to: int) -> nat
    decreases to - from,
{
    if from < to {
        (decimal_value(s, from, to - 1) * 10 + digit_value(s[to - 1])) as nat
    } else {
        0
    }
}

/// Where the digits of an integer text start: behind a sign if it has one.
pub open spec fn digits_start(s: Seq<char>, signs: bool) -> int {
    if s.len() > 0 && (s[0] == '+' || (signs && s[0] == '-')) {
        1
    } else {
        0
    }
}

/// What the integer text `s` is worth: `s` is a `+`, or a `-` where `signs`
/// allows one, or nothing, followed by at least one decimal digit and
/// nothing else. `None` for any other text.
pub open spec fn integer_value(s: Seq<char>, signs: bool) -> Option<int> {
    let from = digits_start(s, signs);
    if from < s.len() && digits_only(s, from) {
        let n = decimal_value(s, from, s.len() as int) as int;
        if s[0] == '-' {
            Some(-n)
        } else {
            Some(n)
        }
    } else {
        None
    }
}

/// Whether `s` is the text of a 32-bit signed integer.
pub open spec fn is_i32_text(s: Seq<char>) -> bool {
    integer_value(s, true) matches Some(n) && i32::MIN <= n <= i32::MAX
}

/// Whether `s` is the text of a 32-bit unsigned integer.
pub open spec fn is_u32_text(s: Seq<char>) -> bool {
    integer_value(s, false) matches Some(n) && n <= u32::MAX
}

/// Whether `s` is a hexadecimal number: at least one hexadecimal digit
/// and nothing else. A sign is no part of it.
pub open spec fn is_hex_text(s: Seq<char>) -> bool {
    &&& s.len() > 0
    &&& forall|i: int| 0 <= i < s.len() ==> is_hex_digit(#[trigger] s[i])
}

/// The index of the first character at or after `from` that is no decimal
/// digit, or `s.len()`.
pub open spec fn skip_digits(s: Seq<char>, from: int) -> int
    decreases s.len() - from,
{
    if 0 <= from < s.len() && is_digit(s[from]) {
        skip_digits(s, from + 1)
    } else {
        from
    }
}

/// Whether `s[at..]` is an exponent: `e` or `E`, a sign or none, and at
/// least one decimal digit up to the end of `s`.
pub open spec fn is_exponent(s: Seq<char>, at: int) -> bool {
    let digits = if at + 1 < s.len() && is_sign(s[at + 1]) {
        at + 2
    } else {
        at + 1
    };
    &&& 0 <= at < s.len()
    &&& (s[at] == 'e' || s[at] == 'E')
    &&& digits < s.len()
    &&& skip_digits(s, digits) == s.len()
}

/// Whether `s` is an unsigned decimal number: digits, a point with digits
/// before or behind it, at least one digit in all, and an exponent or none.
pub open spec fn is_number_text(s: Seq<char>) -> bool {
    let a = skip_digits(s, 0);
    let point = a < s.len() && s[a] == '.';
    let b = if point {
        skip_digits(s, a + 1)
    } else {
        a
    };
    let digits = if point {
        b - 1
    } else {
        b
    };
    &&& digits >= 1
    &&& (b == s.len() || is_exponent(s, b))
}

/// `s` without the sign it starts with, if it starts with one.
pub open spec fn unsigned_part(s: Seq<char>) -> Seq<char> {
    if s.len() > 0 && is_sign(s[0]) {
        s.subrange(1, s.len() as int)
    } else {
        s
    }
}

/// Whether `s` is the text of a floating-point number: a sign or none, and
/// then a decimal number or, in any case of letters, `inf`, `infinity` or
/// `nan`.
pub open spec fn is_float_text(s: Seq<char>) -> bool {
    let body = unsigned_part(s);
    ||| is_number_text(body)
    ||| same_ignoring_case(body, "inf"@)
    ||| same_ignoring_case(body, "infinity"@)
    ||| same_ignoring_case(body, "nan"@)
}

/// The decimal digit that is worth `d`.
pub open spec fn digit_char(d: int) -> char {
    if d == 0 {
        '0'
    } else if d == 1 {
        '1'
    } else if d == 2 {
        '2'
    } else if d == 3 {
        '3'
    } else if d == 4 {
        '4'
    } else if d == 5 {
        '5'
    } else if d == 6 {
        '6'
    } else if d == 7 {
        '7'
    } else if d == 8 {
        '8'
    } else {
        '9'
    }
}

/// `n` written in decimal, without leading zeros.
pub open spec fn decimal(n: nat) -> Seq<char>
    decreases n,
{
    if n < 10 {
        seq![digit_char(n as int)]
    } else {
        decimal(n / 10) + seq![digit_char((n % 10) as int)]
    }
}

/// `skip_digits` passes over decimal digits only, and stops at the first
/// character that is none.
pub proof fn lemma_skip_digits(s: Seq<char>, from: int)
    requires
        0 <= from <= s.len(),
    ensures
        from <= skip_digits(s, from) <= s.len(),
        forall|i: int| from <= i < skip_digits(s, from) ==> is_digit(#[trigger] s[i]),
        skip_digits(s, from) < s.len() ==> !is_digit(s[skip_digits(s, from)]),
    decreases s.len() - from,
{
    if from < s.len() && is_digit(s[from]) {
        lemma_skip_digits(s, from + 1);
    }
}

/// Whether `c` is a decimal digit.
pub fn char_is_digit(c: char) -> (r: bool)
    ensures
        r == is_digit(c),
{
    '0' <= c && c <= '9'
}

/// Whether `c` is a hexadecimal digit.
pub fn char_is_hex_digit(c: char) -> (r: bool)
    ensures
        r == is_hex_digit(c),
{
    ('0' <= c && c <= '9') || ('a' <= c && c <= 'f') || ('A' <= c && c <= 'F')
}

/// The index of the first character of `v` at or after `from` that is no
/// decimal digit.
fn digits_end(v: &Vec<char>, from: usize) -> (r: usize)
    requires
        from <= v.len(),
    ensures
        r == skip_digits(v@, from as int),
        from <= r <= v.len(),
{
    let mut i = from;
    while i < v.len() && char_is_digit(v[i])
        invariant
            from <= i <= v.len(),
            skip_digits(v@, from as int) == skip_digits(v@, i as int),
        decreases v.len() - i,
    {
        i += 1;
    }
    i
}

/// What the integer text `s` is worth, where that is at most `limit` in
/// size.
fn magnitude(v: &Vec<char>, signs: bool, limit: u64) -> (r: Option<u64>)
    requires
        limit <= 0x1_0000_0000,
    ensures
        match r {
            Some(n) => integer_value(v@, signs) is Some && n == decimal_value(
                v@,
                digits_start(v@, signs),
                v.len() as int,
            ) && n <= limit,
            None => integer_value(v@, signs) matches Some(_) ==> decimal_value(
                v@,
                digits_start(v@, signs),
                v.len() as int,
            ) > limit,
        },
{
    let n = v.len();
    let from: usize = if n > 0 && (v[0] == '+' || (signs && v[0] == '-')) {
        1
    } else {
        0
    };
    if from >= n {
        return None;
    }
    let mut acc: u64 = 0;
    let mut over = false;
    let mut i = from;
    while i < n
        invariant
            n == v.len(),
            from == digits_start(v@, signs),
            from <= i <= n,
            limit <= 0x1_0000_0000,
            forall|j: int| from <= j < i ==> is_digit(#[trigger] v@[j]),
            !over ==> acc == decimal_value(v@, from as int, i as int) && acc <= limit,
            over ==> decimal_value(v@, from as int, i as int) > limit,
        decreases n - i,
    {
        let c = v[i];
        if !char_is_digit(c) {
            assert(!digits_only(v@, from as int));
            return None;
        }
        let d = (c as u32 - '0' as u32) as u64;
        assert(d == digit_value(c));
        if !over {
            let next = acc * 10 + d;
            if next > limit {
                over = true;
            } else {
                acc = next;
            }
        }
        i += 1;
    }
    assert(digits_only(v@, from as int));
    if over {
        None
    } else {
        Some(acc)
    }
}

/// The 32-bit signed integer that `s` is the text of.
pub fn parse_i32(s: &str) -> (r: Option<i32>)
    ensures
        r is Some <==> is_i32_text(s@),
        r matches Some(n) ==> integer_value(s@, true) == Some(n as int),
{
    let v = to_chars(s);
    match magnitude(&v, true, 0x8000_0000) {
        Some(n) => {
            if v[0] == '-' {
                Some((0 - (n as i64)) as i32)
            } else if n <= 0x7fff_ffff {
                Some(n as i32)
            } else {
                None
            }
        },
        None => None,
    }
}

/// Whether `s` is the text of a 32-bit unsigned integer.
pub fn is_u32(s: &str) -> (r: bool)
    ensures
        r == is_u32_text(s@),
{
    let v = to_chars(s);
    magnitude(&v, false, 0xffff_ffff).is_some()
}

/// Whether `s` is a hexadecimal number.
pub fn is_hex(s: &str) -> (r: bool)
    ensures
        r == is_hex_text(s@),
{
    let v = to_chars(s);
    let n = v.len();
    if n == 0 {
        return false;
    }
    let mut i: usize = 0;
    while i < n
        invariant
            n == v.len(),
            v@ == s@,
            i <= n,
            forall|j: int| 0 <= j < i ==> is_hex_digit(#[trigger] s@[j]),
        decreases n - i,
    {
        if !char_is_hex_digit(v[i]) {
            return false;
        }
        i += 1;
    }
    true
}

fn is_number(v: &Vec<char>) -> (r: bool)
    ensures
        r == is_number_text(v@),
{
    let n = v.len();
    let a = digits_end(v, 0);
    let point = a < n && v[a] == '.';
    let b = if point {
        digits_end(v, a + 1)
    } else {
        a
    };
    let digits = if point {
        b - 1
    } else {
        b
    };
    if digits < 1 {
        return false;
    }
    if b == n {
        return true;
    }
    if v[b] != 'e' && v[b] != 'E' {
        return false;
    }
    let c = if b + 1 < n && (v[b + 1] == '+' || v[b + 1] == '-') {
        b + 2
    } else {
        b + 1
    };
    c < n && digits_end(v, c) == n
}

/// Whether `s` is the text of a floating-point number.
pub fn is_float(s: &str) -> (r: bool)
    ensures
        r == is_float_text(s@),
{
    let v = to_chars(s);
    let n = v.len();
    let body = if n > 0 && (v[0] == '+' || v[0] == '-') {
        to_chars(s.substring_char(1, n))
    } else {
        v
    };
    is_number(&body) || chars_are_ignoring_case(&body, "inf") || chars_are_ignoring_case(
        &body,
        "infinity",
    ) || chars_are_ignoring_case(&body, "nan")
}

fn digit_text(d: usize) -> (r: &'static str)
    requires
        d < 10,
    ensures
        r@ == seq![digit_char(d as int)],
{
    proof {
        reveal_strlit("0");
        reveal_strlit("1");
        reveal_strlit("2");
        reveal_strlit("3");
        reveal_strlit("4");
        reveal_strlit("5");
        reveal_strlit("6");
        reveal_strlit("7");
        reveal_strlit("8");
        reveal_strlit("9");
    }
    let r = if d == 0 {
        "0"
    } else if d == 1 {
        "1"
    } else if d == 2 {
        "2"
    } else if d == 3 {
        "3"
    } else if d == 4 {
        "4"
    } else if d == 5 {
        "5"
    } else if d == 6 {
        "6"
    } else if d == 7 {
        "7"
    } else if d == 8 {
        "8"
    } else {
        "9"
    };
    assert(r@ =~= seq![digit_char(d as int)]);
    r
}

/// Appends `n`, written in decimal, to `out`.
pub fn append_decimal(out: &mut String, n: usize)
    ensures
        final(out)@ == old(out)@ + decimal(n as nat),
    decreases n,
{
    if n >= 10 {
        append_decimal(out, n / 10);
    }
    out.append(digit_text(n % 10));
    assert(final(out)@ =~= old(out)@ + decimal(n as nat));
}

} // verus!
