//! The number canonicalizer: the wire format stores every number as its
//! decimal textual form. This module converts between that form and the
//! native integer types, in both directions, with range and format
//! validation, and validates the decimal-fraction form used for numbers
//! that are not native integers.

use vstd::prelude::*;

use crate::error::Error;

verus! {

/// A decimal digit, by code point.
pub open spec fn is_digit_char(c: char) -> bool {
    48 <= c as int <= 57
}

/// The numeric value of a decimal digit character.
pub open spec fn digit_of(c: char) -> nat
    recommends
        is_digit_char(c),
{
    (c as int - 48) as nat
}

/// Every character of `s` is a decimal digit.
pub open spec fn all_digits(s: Seq<char>) -> bool {
    forall|i: int| 0 <= i < s.len() ==> is_digit_char(#[trigger] s[i])
}

/// The value of a digit string, most significant digit first.
pub open spec fn digits_val(s: Seq<char>) -> nat
    decreases s.len(),
{
    if s.len() == 0 {
        0
    } else {
        digits_val(s.drop_last()) * 10 + digit_of(s.last())
    }
}

/// The textual form of an unsigned integer: one or more digits.
pub open spec fn is_unsigned_str(s: Seq<char>) -> bool {
    s.len() > 0 && all_digits(s)
}

/// An unsigned-integer string with its optional leading plus sign removed;
/// the native unsigned parsers accept the plus.
pub open spec fn unsigned_body(s: Seq<char>) -> Seq<char> {
    if s.len() > 0 && s[0] == '+' {
        s.skip(1)
    } else {
        s
    }
}

/// The textual form of a signed integer: an optional leading plus or minus
/// sign, then one or more digits, as the native integer parsers accept.
pub open spec fn is_signed_str(s: Seq<char>) -> bool {
    if s.len() > 0 && (s[0] == '-' || s[0] == '+') {
        is_unsigned_str(s.skip(1))
    } else {
        is_unsigned_str(s)
    }
}

/// The value of a signed-integer string.
pub open spec fn signed_val(s: Seq<char>) -> int
    recommends
        is_signed_str(s),
{
    if s.len() > 0 && s[0] == '-' {
        -(digits_val(s.skip(1)) as int)
    } else if s.len() > 0 && s[0] == '+' {
        digits_val(s.skip(1)) as int
    } else {
        digits_val(s) as int
    }
}

/// A decimal literal as the number field holds them and the native float
/// parser reads them: an optional sign, a mantissa, and an optional
/// exponent. The non-numeric float spellings (infinities, not-a-number) are
/// no decimal numbers, so they stay outside the grammar.
pub open spec fn is_decimal_lit(s: Seq<char>) -> bool {
    let body = if s.len() > 0 && (s[0] == '-' || s[0] == '+') {
        s.skip(1)
    } else {
        s
    };
    is_decimal_body(body)
}

/// The unsigned part of a decimal literal: a mantissa, optionally followed
/// by an exponent marker and an exponent.
pub open spec fn is_decimal_body(s: Seq<char>) -> bool {
    is_mantissa(s) || exists|k: int|
        #![trigger s[k]]
        0 <= k < s.len() && (s[k] == 'e' || s[k] == 'E') && is_mantissa(s.take(k))
            && is_exponent_part(s.skip(k + 1))
}

/// A mantissa: digits, digits with a dot and an optional fraction, or a
/// bare dot with a fraction.
pub open spec fn is_mantissa(s: Seq<char>) -> bool {
    ||| is_unsigned_str(s)
    ||| (s.len() > 1 && s[0] == '.' && is_unsigned_str(s.skip(1)))
    ||| (exists|k: int|
        #![trigger s[k]]
        1 <= k < s.len() && s[k] == '.' && is_unsigned_str(s.take(k)) && (k == s.len() - 1
            || is_unsigned_str(s.skip(k + 1))))
}

/// An exponent: an optional sign, then one or more digits.
pub open spec fn is_exponent_part(s: Seq<char>) -> bool {
    if s.len() > 0 && (s[0] == '+' || s[0] == '-') {
        is_unsigned_str(s.skip(1))
    } else {
        is_unsigned_str(s)
    }
}

/// What parsing a decimal string as a `u64` yields: an optional plus sign,
/// then digits, and the value must fit.
pub open spec fn u64_result(s: Seq<char>) -> Result<u64, Error> {
    if !is_unsigned_str(unsigned_body(s)) {
        Err(Error::NumberMalformed)
    } else if digits_val(unsigned_body(s)) > u64::MAX {
        Err(Error::NumberOutOfRange)
    } else {
        Ok(digits_val(unsigned_body(s)) as u64)
    }
}

/// What parsing a decimal string as an `i64` yields.
pub open spec fn i64_result(s: Seq<char>) -> Result<i64, Error> {
    if !is_signed_str(s) {
        Err(Error::NumberMalformed)
    } else if signed_val(s) > i64::MAX || signed_val(s) < i64::MIN {
        Err(Error::NumberOutOfRange)
    } else {
        Ok(signed_val(s) as i64)
    }
}

/// What parsing a decimal string as a `u8` yields.
pub open spec fn u8_result(s: Seq<char>) -> Result<u8, Error> {
    match u64_result(s) {
        Ok(x) => if x <= u8::MAX as u64 {
            Ok(x as u8)
        } else {
            Err(Error::NumberOutOfRange)
        },
        Err(e) => Err(e),
    }
}

/// What parsing a decimal string as a `u16` yields.
pub open spec fn u16_result(s: Seq<char>) -> Result<u16, Error> {
    match u64_result(s) {
        Ok(x) => if x <= u16::MAX as u64 {
            Ok(x as u16)
        } else {
            Err(Error::NumberOutOfRange)
        },
        Err(e) => Err(e),
    }
}

/// What parsing a decimal string as a `u32` yields.
pub open spec fn u32_result(s: Seq<char>) -> Result<u32, Error> {
    match u64_result(s) {
        Ok(x) => if x <= u32::MAX as u64 {
            Ok(x as u32)
        } else {
            Err(Error::NumberOutOfRange)
        },
        Err(e) => Err(e),
    }
}

/// What parsing a decimal string as an `i8` yields.
pub open spec fn i8_result(s: Seq<char>) -> Result<i8, Error> {
    match i64_result(s) {
        Ok(x) => if i8::MIN as i64 <= x && x <= i8::MAX as i64 {
            Ok(x as i8)
        } else {
            Err(Error::NumberOutOfRange)
        },
        Err(e) => Err(e),
    }
}

/// What parsing a decimal string as an `i16` yields.
pub open spec fn i16_result(s: Seq<char>) -> Result<i16, Error> {
    match i64_result(s) {
        Ok(x) => if i16::MIN as i64 <= x && x <= i16::MAX as i64 {
            Ok(x as i16)
        } else {
            Err(Error::NumberOutOfRange)
        },
        Err(e) => Err(e),
    }
}

/// What parsing a decimal string as an `i32` yields.
pub open spec fn i32_result(s: Seq<char>) -> Result<i32, Error> {
    match i64_result(s) {
        Ok(x) => if i32::MIN as i64 <= x && x <= i32::MAX as i64 {
            Ok(x as i32)
        } else {
            Err(Error::NumberOutOfRange)
        },
        Err(e) => Err(e),
    }
}

/// The value of a longer digit prefix is at least the value of a shorter one.
pub proof fn lemma_digits_val_monotone(s: Seq<char>, i: int, j: int)
    requires
        0 <= i <= j <= s.len(),
    ensures
        digits_val(s.take(i)) <= digits_val(s.take(j)),
    decreases j - i,
{
    if i < j {
        lemma_digits_val_monotone(s, i, j - 1);
        assert(s.take(j).drop_last() =~= s.take(j - 1));
        assert(digits_val(s.take(j)) == digits_val(s.take(j - 1)) * 10 + digit_of(s.take(j).last()));
        assert(digits_val(s.take(j - 1)) * 10 >= digits_val(s.take(j - 1)));
    }
}

/// Every character of `s` is a decimal digit, decided in one pass.
fn check_all_digits(s: &str) -> (r: bool)
    ensures
        r == all_digits(s@),
{
    let n = s.unicode_len();
    let mut i: usize = 0;
    while i < n
        invariant
            0 <= i <= n,
            n == s@.len(),
            forall|j: int| 0 <= j < i ==> is_digit_char(#[trigger] s@[j]),
        decreases n - i,
    {
        let c = s.get_char(i);
        let cu: u32 = c as u32;
        if cu < 48 || cu > 57 {
            return false;
        }
        i = i + 1;
    }
    assert(s@.take(n as int) =~= s@);
    true
}

/// Parse a digit string as a `u64`, failing on any non-digit or on
/// overflow.
fn parse_digits_u64(s: &str) -> (r: Result<u64, Error>)
    ensures
        r == (if !is_unsigned_str(s@) {
            Err::<u64, Error>(Error::NumberMalformed)
        } else if digits_val(s@) > u64::MAX {
            Err::<u64, Error>(Error::NumberOutOfRange)
        } else {
            Ok::<u64, Error>(digits_val(s@) as u64)
        }),
{
    let n = s.unicode_len();
    if n == 0 || !check_all_digits(s) {
        return Err(Error::NumberMalformed);
    }
    let mut acc: u64 = 0;
    let mut i: usize = 0;
    while i < n
        invariant
            0 <= i <= n,
            n == s@.len(),
            is_unsigned_str(s@),
            acc == digits_val(s@.take(i as int)),
        decreases n - i,
    {
        let c = s.get_char(i);
        let d: u64 = (c as u32 as u64) - 48;
        proof {
            assert(s@.take(i + 1).drop_last() =~= s@.take(i as int));
            assert(s@.take(i + 1).last() == s@[i as int]);
        }
        if acc > (u64::MAX - d) / 10 {
            proof {
                assert(acc * 10 + d > u64::MAX) by {
                    assert(acc >= (u64::MAX - d) / 10 + 1);
                    assert(((u64::MAX - d) / 10 + 1) * 10 == ((u64::MAX - d) / 10) * 10 + 10);
                    assert(acc * 10 >= ((u64::MAX - d) / 10 + 1) * 10) by (nonlinear_arith)
                        requires
                            acc >= (u64::MAX - d) / 10 + 1,
                    ;
                    assert(((u64::MAX - d) / 10) * 10 + (u64::MAX - d) % 10 == u64::MAX - d)
                        by (nonlinear_arith)
                        requires
                            0 <= d <= u64::MAX,
                    ;
                    assert((u64::MAX - d) % 10 < 10) by (nonlinear_arith)
                        requires
                            0 <= d <= u64::MAX,
                    ;
                }
                assert(digits_val(s@.take(i + 1)) == acc * 10 + d);
                lemma_digits_val_monotone(s@, i + 1, n as int);
                assert(s@.take(n as int) =~= s@);
            }
            return Err(Error::NumberOutOfRange);
        }
        proof {
            assert(acc * 10 + d <= u64::MAX) by {
                assert(acc <= (u64::MAX - d) / 10);
                assert(acc * 10 <= ((u64::MAX - d) / 10) * 10) by (nonlinear_arith)
                    requires
                        0 <= acc <= (u64::MAX - d) / 10,
                ;
                assert(((u64::MAX - d) / 10) * 10 <= u64::MAX - d) by (nonlinear_arith)
                    requires
                        0 <= d <= u64::MAX,
                ;
            }
        }
        acc = acc * 10 + d;
        i = i + 1;
    }
    assert(s@.take(n as int) =~= s@);
    Ok(acc)
}

/// Parse a decimal string as a `u64`: an optional plus sign, then digits,
/// failing on malformed input or overflow exactly as [`u64_result`] says.
pub fn parse_u64_str(s: &str) -> (r: Result<u64, Error>)
    ensures
        r == u64_result(s@),
{
    let n = s.unicode_len();
    if n > 0 && s.get_char(0) == '+' {
        let rest = s.substring_char(1, n);
        proof {
            assert(rest@ =~= s@.skip(1));
        }
        parse_digits_u64(rest)
    } else {
        parse_digits_u64(s)
    }
}

/// Parse a decimal string as an `i64`: an optional sign, then digits.
pub fn parse_i64_str(s: &str) -> (r: Result<i64, Error>)
    ensures
        r == i64_result(s@),
{
    let n = s.unicode_len();
    if n == 0 {
        return Err(Error::NumberMalformed);
    }
    let first = s.get_char(0);
    if first == '-' {
        let mag_str = s.substring_char(1, n);
        assert(mag_str@ =~= s@.skip(1));
        match parse_digits_u64(mag_str) {
            Err(e) => Err(e),
            Ok(mag) => {
                if mag > 9223372036854775808u64 {
                    Err(Error::NumberOutOfRange)
                } else {
                    let r: i64 = (-(mag as i128)) as i64;
                    Ok(r)
                }
            },
        }
    } else if first == '+' {
        let mag_str = s.substring_char(1, n);
        assert(mag_str@ =~= s@.skip(1));
        match parse_digits_u64(mag_str) {
            Err(e) => Err(e),
            Ok(x) => {
                if x > i64::MAX as u64 {
                    Err(Error::NumberOutOfRange)
                } else {
                    Ok(x as i64)
                }
            },
        }
    } else {
        match parse_digits_u64(s) {
            Err(e) => Err(e),
            Ok(x) => {
                if x > i64::MAX as u64 {
                    Err(Error::NumberOutOfRange)
                } else {
                    Ok(x as i64)
                }
            },
        }
    }
}

/// Decide [`is_mantissa`] in one pass: find the first dot, then check the
/// digits around it.
fn check_mantissa(s: &str) -> (r: bool)
    ensures
        r == is_mantissa(s@),
{
    let n = s.unicode_len();
    let mut i: usize = 0;
    let mut dot_idx: usize = n;
    while i < n
        invariant
            0 <= i <= n,
            n == s@.len(),
            dot_idx <= n,
            dot_idx == n ==> forall|j: int| 0 <= j < i ==> s@[j] != '.',
            dot_idx < n ==> dot_idx < i && s@[dot_idx as int] == '.' && forall|j: int|
                0 <= j < dot_idx ==> s@[j] != '.',
        decreases n - i,
    {
        if dot_idx == n {
            let c = s.get_char(i);
            if c == '.' {
                dot_idx = i;
            }
        }
        i = i + 1;
    }
    if dot_idx == n {
        let plain = n > 0 && check_all_digits(s);
        proof {
            if !plain {
                assert forall|k: int| !(1 <= k < s@.len() && #[trigger] s@[k] == '.') by {
                    if 0 <= k < s@.len() {
                        assert(s@[k] != '.');
                    }
                }
                if s@.len() > 1 {
                    assert(s@[0] != '.');
                }
            }
        }
        plain
    } else if dot_idx == 0 {
        let after = s.substring_char(1, n);
        proof {
            assert(after@ =~= s@.skip(1));
        }
        let ok = n > 1 && check_all_digits(after);
        proof {
            assert(!is_unsigned_str(s@)) by {
                assert(s@[0] == '.');
                assert(!is_digit_char('.'));
            }
            if !ok {
                assert forall|k: int|
                    !(1 <= k < s@.len() && #[trigger] s@[k] == '.' && is_unsigned_str(s@.take(k))
                        && (k == s@.len() - 1 || is_unsigned_str(s@.skip(k + 1)))) by {
                    if 1 <= k < s@.len() && s@[k] == '.' {
                        assert(!is_digit_char(s@.take(k)[0]));
                    }
                }
            }
        }
        ok
    } else {
        let k = dot_idx;
        let before = s.substring_char(0, k);
        let after = s.substring_char(k + 1, n);
        proof {
            assert(before@ =~= s@.take(k as int));
            assert(after@ =~= s@.skip(k + 1));
        }
        let ok = check_all_digits(before) && (k + 1 == n || check_all_digits(after));
        proof {
            assert(!is_unsigned_str(s@)) by {
                assert(s@[k as int] == '.');
                assert(!is_digit_char('.'));
            }
            assert(s@[0] != '.');
            if ok {
                assert(1 <= k < s@.len() && s@[k as int] == '.' && is_unsigned_str(
                    s@.take(k as int),
                ) && (k as int == s@.len() - 1 || is_unsigned_str(s@.skip(k + 1))));
            } else {
                assert forall|j: int|
                    !(1 <= j < s@.len() && #[trigger] s@[j] == '.' && is_unsigned_str(s@.take(j))
                        && (j == s@.len() - 1 || is_unsigned_str(s@.skip(j + 1)))) by {
                    if 1 <= j < s@.len() && s@[j] == '.' {
                        if j < k as int {
                            assert(s@[j] != '.');
                        } else if j > k as int {
                            assert(!is_digit_char(s@.take(j)[k as int]));
                        }
                    }
                }
            }
        }
        ok
    }
}

/// Decide [`is_exponent_part`]: an optional sign, then digits.
fn check_exponent_part(s: &str) -> (r: bool)
    ensures
        r == is_exponent_part(s@),
{
    let n = s.unicode_len();
    if n == 0 {
        return false;
    }
    let first = s.get_char(0);
    if first == '+' || first == '-' {
        let rest = s.substring_char(1, n);
        proof {
            assert(rest@ =~= s@.skip(1));
        }
        rest.unicode_len() > 0 && check_all_digits(rest)
    } else {
        check_all_digits(s)
    }
}

/// No exponent marker stands inside a mantissa.
proof fn lemma_mantissa_no_marker(s: Seq<char>, k: int)
    requires
        0 <= k < s.len(),
        s[k] == 'e' || s[k] == 'E',
    ensures
        !is_mantissa(s),
{
    assert(!is_digit_char(s[k]));
    assert(!is_unsigned_str(s));
    if s.len() > 1 && s[0] == '.' {
        assert(k >= 1);
        assert(s.skip(1)[k - 1] == s[k]);
        assert(!is_unsigned_str(s.skip(1)));
    }
    assert forall|d: int|
        !(1 <= d < s.len() && #[trigger] s[d] == '.' && is_unsigned_str(s.take(d)) && (d == s.len()
            - 1 || is_unsigned_str(s.skip(d + 1)))) by {
        if 1 <= d < s.len() && s[d] == '.' {
            if k < d {
                assert(s.take(d)[k] == s[k]);
                assert(!is_unsigned_str(s.take(d)));
            } else if k > d {
                assert(d < s.len() - 1);
                assert(s.skip(d + 1)[k - d - 1] == s[k]);
                assert(!is_unsigned_str(s.skip(d + 1)));
            }
        }
    }
}

/// Decide [`is_decimal_body`]: split at the first exponent marker, if any,
/// and check the mantissa and the exponent.
fn check_decimal_body(s: &str) -> (r: bool)
    ensures
        r == is_decimal_body(s@),
{
    let n = s.unicode_len();
    let mut i: usize = 0;
    let mut e_idx: usize = n;
    while i < n
        invariant
            0 <= i <= n,
            n == s@.len(),
            e_idx <= n,
            e_idx == n ==> forall|j: int| 0 <= j < i ==> s@[j] != 'e' && s@[j] != 'E',
            e_idx < n ==> e_idx < i && (s@[e_idx as int] == 'e' || s@[e_idx as int] == 'E')
                && forall|j: int| 0 <= j < e_idx ==> s@[j] != 'e' && s@[j] != 'E',
        decreases n - i,
    {
        if e_idx == n {
            let c = s.get_char(i);
            if c == 'e' || c == 'E' {
                e_idx = i;
            }
        }
        i = i + 1;
    }
    if e_idx == n {
        let r = check_mantissa(s);
        proof {
            if !r {
                assert forall|k: int|
                    !(0 <= k < s@.len() && (#[trigger] s@[k] == 'e' || s@[k] == 'E')) by {
                    if 0 <= k < s@.len() {
                        assert(s@[k] != 'e' && s@[k] != 'E');
                    }
                }
            }
        }
        r
    } else {
        let k = e_idx;
        let mant = s.substring_char(0, k);
        let expo = s.substring_char(k + 1, n);
        proof {
            assert(mant@ =~= s@.take(k as int));
            assert(expo@ =~= s@.skip(k + 1));
        }
        let ok = check_mantissa(mant) && check_exponent_part(expo);
        proof {
            lemma_mantissa_no_marker(s@, k as int);
            if ok {
                assert(0 <= k < s@.len() && (s@[k as int] == 'e' || s@[k as int] == 'E')
                    && is_mantissa(s@.take(k as int)) && is_exponent_part(s@.skip(k + 1)));
            } else {
                assert forall|j: int|
                    !(0 <= j < s@.len() && (#[trigger] s@[j] == 'e' || s@[j] == 'E') && is_mantissa(
                        s@.take(j),
                    ) && is_exponent_part(s@.skip(j + 1))) by {
                    if 0 <= j < s@.len() && (s@[j] == 'e' || s@[j] == 'E') {
                        if j < k as int {
                            assert(s@[j] != 'e' && s@[j] != 'E');
                        } else if j > k as int {
                            assert(s@.take(j)[k as int] == s@[k as int]);
                            lemma_mantissa_no_marker(s@.take(j), k as int);
                        }
                    }
                }
            }
        }
        ok
    }
}

/// Decide [`is_decimal_lit`]: an optional sign, then a decimal body.
pub fn check_decimal_lit(s: &str) -> (r: bool)
    ensures
        r == is_decimal_lit(s@),
{
    let n = s.unicode_len();
    if n > 0 {
        let first = s.get_char(0);
        if first == '-' || first == '+' {
            let body = s.substring_char(1, n);
            proof {
                assert(body@ =~= s@.skip(1));
            }
            return check_decimal_body(body);
        }
    }
    check_decimal_body(s)
}

/// The decimal digit with value `d`.
pub open spec fn digit_char(d: nat) -> char
    recommends
        d < 10,
{
    if d == 0 {
        '0'
    } else if d == 1 {
        '1'
    } else if d == 2 {
        '2'
    } else if d == 3 {
        '3'
    } else if d == 4 {
        '4'
    } else if d == 5 {
        '5'
    } else if d == 6 {
        '6'
    } else if d == 7 {
        '7'
    } else if d == 8 {
        '8'
    } else {
        '9'
    }
}

/// The canonical decimal form of an unsigned integer: no sign, no leading
/// zeros except for zero itself.
pub open spec fn u64_dec(x: nat) -> Seq<char>
    decreases x,
{
    if x < 10 {
        seq![digit_char(x)]
    } else {
        u64_dec(x / 10).push(digit_char(x % 10))
    }
}

/// The canonical decimal form of a signed integer.
pub open spec fn i64_dec(x: int) -> Seq<char> {
    if x >= 0 {
        u64_dec(x as nat)
    } else {
        seq!['-'] + u64_dec((-x) as nat)
    }
}

/// The one-character string for a decimal digit.
fn digit_str(d: u64) -> (r: &'static str)
    requires
        d < 10,
    ensures
        r@ == seq![digit_char(d as nat)],
{
    proof {
        reveal_strlit("0");
        reveal_strlit("1");
        reveal_strlit("2");
        reveal_strlit("3");
        reveal_strlit("4");
        reveal_strlit("5");
        reveal_strlit("6");
        reveal_strlit("7");
        reveal_strlit("8");
        reveal_strlit("9");
    }
    let r = if d == 0 {
        "0"
    } else if d == 1 {
        "1"
    } else if d == 2 {
        "2"
    } else if d == 3 {
        "3"
    } else if d == 4 {
        "4"
    } else if d == 5 {
        "5"
    } else if d == 6 {
        "6"
    } else if d == 7 {
        "7"
    } else if d == 8 {
        "8"
    } else {
        "9"
    };
    assert(r@ =~= seq![digit_char(d as nat)]);
    r
}

/// Render an unsigned integer in its canonical decimal form.
pub fn u64_to_decimal(x: u64) -> (r: String)
    ensures
        r@ == u64_dec(x as nat),
    decreases x,
{
    if x < 10 {
        let r = digit_str(x).to_owned();
        r
    } else {
        assert(x / 10 < x);
        let mut s = u64_to_decimal(x / 10);
        let d = digit_str(x % 10);
        s.append(d);
        assert(s@ =~= u64_dec(x as nat));
        s
    }
}

/// Render a signed integer in its canonical decimal form.
pub fn i64_to_decimal(x: i64) -> (r: String)
    ensures
        r@ == i64_dec(x as int),
{
    if x >= 0 {
        let r = u64_to_decimal(x as u64);
        r
    } else {
        proof {
            reveal_strlit("-");
        }
        let mag: u64 = (-(x as i128)) as u64;
        let mut s = String::from_str("-");
        let t = u64_to_decimal(mag);
        s.append(t.as_str());
        assert(s@ =~= i64_dec(x as int));
        s
    }
}

/// A digit character carries the digit value it was built from.
pub proof fn lemma_digit_roundtrip(d: nat)
    requires
        d < 10,
    ensures
        is_digit_char(digit_char(d)),
        digit_of(digit_char(d)) == d,
{
}

/// The canonical decimal form of an unsigned integer is a digit string
/// whose value is that integer.
pub proof fn lemma_u64_dec_unsigned(x: nat)
    ensures
        is_unsigned_str(u64_dec(x)),
        digits_val(u64_dec(x)) == x,
    decreases x,
{
    if x < 10 {
        lemma_digit_roundtrip(x);
        let s = u64_dec(x);
        assert(s.drop_last() =~= Seq::<char>::empty());
        assert(digits_val(s) == digits_val(Seq::<char>::empty()) * 10 + digit_of(s.last()));
    } else {
        lemma_u64_dec_unsigned(x / 10);
        lemma_digit_roundtrip(x % 10);
        let p = u64_dec(x / 10);
        let c = digit_char(x % 10);
        let s = u64_dec(x);
        assert(s == p.push(c));
        assert(s.drop_last() =~= p);
        assert(s.last() == c);
        assert(digits_val(s) == digits_val(p) * 10 + digit_of(c));
        assert((x / 10) * 10 + x % 10 == x) by (nonlinear_arith)
            requires
                x >= 0,
        ;
        assert forall|i: int| 0 <= i < s.len() implies is_digit_char(#[trigger] s[i]) by {
            if i < p.len() {
                assert(s[i] == p[i]);
            } else {
                assert(s[i] == c);
            }
        }
    }
}

/// Parsing the canonical decimal form of a `u64` gives that `u64` back.
pub proof fn lemma_u64_roundtrip(x: u64)
    ensures
        u64_result(u64_dec(x as nat)) == Ok::<u64, Error>(x),
{
    lemma_u64_dec_unsigned(x as nat);
}

/// Parsing the canonical decimal form of an `i64` gives that `i64` back,
/// and a negative form never reads as an unsigned number.
pub proof fn lemma_i64_roundtrip(x: i64)
    ensures
        i64_result(i64_dec(x as int)) == Ok::<i64, Error>(x),
        x < 0 ==> u64_result(i64_dec(x as int)) == Err::<u64, Error>(Error::NumberMalformed),
{
    if x >= 0 {
        lemma_u64_dec_unsigned(x as nat);
        let s = i64_dec(x as int);
        assert(is_digit_char(s[0]));
        assert(s[0] != '-');
    } else {
        lemma_u64_dec_unsigned((-(x as int)) as nat);
        let m = u64_dec((-(x as int)) as nat);
        let s = i64_dec(x as int);
        assert(s == seq!['-'] + m);
        assert(s[0] == '-');
        assert(s.skip(1) =~= m);
        assert(!is_digit_char('-'));
        assert(!all_digits(s));
    }
}

} // verus!
