//! Small text helpers shared by the identifier and name types: decimal
//! integers as the standard library reads and writes them.

use vstd::prelude::*;

verus! {

/// Whether `c` is one of the ASCII digits `0` to `9`.
pub open spec fn is_digit(c: char) -> bool {
    '0' <= c && c <= '9'
}

/// The value of an ASCII digit.
pub open spec fn digit_value(c: char) -> nat {
    (c as int - '0' as int) as nat
}

/// The value of a string of decimal digits, most significant digit first.
pub open spec fn decimal_value(digits: Seq<char>) -> nat
    decreases digits.len(),
{
    if digits.len() == 0 {
        0
    } else {
        decimal_value(digits.drop_last()) * 10 + digit_value(digits.last())
    }
}

/// Whether every character of `s` is a decimal digit.
pub open spec fn all_digits(s: Seq<char>) -> bool {
    forall|i: int| 0 <= i < s.len() ==> is_digit(#[trigger] s[i])
}

/// The `u16` that `s` denotes when read as the standard library reads an
/// unsigned integer: an optional `+`, then one or more decimal digits, with a
/// value that fits into the type.
pub open spec fn parsed_u16(s: Seq<char>) -> Option<u16> {
    let digits = if s.len() > 0 && s[0] == '+' {
        s.drop_first()
    } else {
        s
    };
    if digits.len() > 0 && all_digits(digits) && decimal_value(digits) <= u16::MAX {
        Some(decimal_value(digits) as u16)
    } else {
        None
    }
}

/// The `u32` that `s` denotes when read as the standard library reads an
/// unsigned integer: an optional `+`, then one or more decimal digits, with a
/// value that fits into the type.
pub open spec fn parsed_u32(s: Seq<char>) -> Option<u32> {
    let digits = if s.len() > 0 && s[0] == '+' {
        s.drop_first()
    } else {
        s
    };
    if digits.len() > 0 && all_digits(digits) && decimal_value(digits) <= u32::MAX {
        Some(decimal_value(digits) as u32)
    } else {
        None
    }
}

/// The decimal digits of `n`, without leading zeros (`0` is written as one
/// digit).
pub open spec fn decimal_digits(n: nat) -> Seq<char>
    decreases n,
{
    if n < 10 {
        seq![(n + '0' as nat) as char]
    } else {
        decimal_digits(n / 10).push(((n % 10) + '0' as nat) as char)
    }
}

/// The decimal digits of `n` are a non-empty string of digits, not starting
/// with `+`, whose value is `n`.
pub proof fn lemma_decimal_digits(n: nat)
    ensures
        decimal_digits(n).len() > 0,
        decimal_digits(n)[0] != '+',
        all_digits(decimal_digits(n)),
        decimal_value(decimal_digits(n)) == n,
    decreases n,
{
    let d = decimal_digits(n);
    if n < 10 {
        assert(d.drop_last() =~= Seq::<char>::empty());
        assert(d.last() as int == n + '0' as int);
        assert(digit_value(d.last()) == n);
        assert(decimal_value(d.drop_last()) == 0);
        assert(decimal_value(d) == decimal_value(d.drop_last()) * 10 + digit_value(d.last()));
    } else {
        lemma_decimal_digits(n / 10);
        let front = decimal_digits(n / 10);
        assert(d.drop_last() =~= front);
        assert(d[0] == front[0]);
        assert forall|i: int| 0 <= i < d.len() implies is_digit(#[trigger] d[i]) by {
            if i < front.len() {
                assert(d[i] == front[i]);
            }
        }
        assert(d.last() as int == n % 10 + '0' as int);
        assert(digit_value(d.last()) == n % 10);
        assert((n / 10) * 10 + n % 10 == n) by (nonlinear_arith);
        assert(decimal_value(d) == decimal_value(d.drop_last()) * 10 + digit_value(d.last()));
    }
}

/// Reads `s` as a `u16` (`str::parse::<u16>`).
///
/// The standard library documents the accepted text as an optional `+`
/// followed by decimal digits whose value fits into the type; this contract
/// states exactly that through [`parsed_u16`].
#[verifier::external_body]
pub fn parse_u16(s: &str) -> (r: Option<u16>)
    ensures
        r == parsed_u16(s@),
{
    s.parse::<u16>().ok()
}

/// Reads `s` as a `u32` (`str::parse::<u32>`).
///
/// The standard library documents the accepted text as an optional `+`
/// followed by decimal digits whose value fits into the type; this contract
/// states exactly that through [`parsed_u32`].
#[verifier::external_body]
pub fn parse_u32(s: &str) -> (r: Option<u32>)
    ensures
        r == parsed_u32(s@),
{
    s.parse::<u32>().ok()
}

/// The standard library's error for text that is not an integer of the
/// requested type.
#[verifier::external_type_specification]
#[verifier::external_body]
pub struct ExParseIntError(std::num::ParseIntError);

/// Reads `s` as a non-zero `u16` (`str::parse::<NonZero<u16>>`).
///
/// The standard library reads the text as a `u16` and then rejects zero; the
/// contract states when the result is `Ok` and its value. Which
/// `ParseIntError` comes back on failure is not stated.
#[verifier::external_body]
pub fn parse_nonzero_u16(s: &str) -> (r: Result<u16, std::num::ParseIntError>)
    ensures
        r is Ok <==> (parsed_u16(s@) matches Some(v) && v != 0),
        r matches Ok(v) ==> parsed_u16(s@) == Some(v),
{
    s.parse::<std::num::NonZero<u16>>().map(|v| v.get())
}

/// Writes `n` in decimal (`u16::to_string`), as the standard library's
/// `Display` for integers documents it.
#[verifier::external_body]
pub fn u16_to_string(n: u16) -> (s: String)
    ensures
        s@ == decimal_digits(n as nat),
{
    n.to_string()
}

} // verus!
