use vstd::prelude::*;
use vstd::string::*;

use std::ops::Range;

verus! {

/// What a command-line validator returns: nothing, or the message to show.
pub type ClapResult = Result<(), String>;

pub open spec fn is_digit(c: char) -> bool {
    '0' <= c && c <= '9'
}

/// The value of a nonempty run of decimal digits.
pub open spec fn digits_value(d: Seq<char>) -> int
    decreases d.len(),
{
    if d.len() == 0 {
        0
    } else {
        digits_value(d.drop_last()) * 10 + (d.last() as int - '0' as int)
    }
}

/// The integer that `s` writes in decimal: an optional `+` or `-`, then one or more digits,
/// and nothing else.
pub open spec fn decimal(s: Seq<char>) -> Option<int> {
    let neg = s.len() > 0 && s[0] == '-';
    let signed = s.len() > 0 && (s[0] == '-' || s[0] == '+');
    let d = if signed {
        s.drop_first()
    } else {
        s
    };
    if d.len() > 0 && forall|i: int| 0 <= i < d.len() ==> is_digit(#[trigger] d[i]) {
        Some(
            if neg {
                -digits_value(d)
            } else {
                digits_value(d)
            },
        )
    } else {
        None
    }
}

/// The `i32` that `s` writes in decimal, if it is in range.
pub open spec fn decimal_i32(s: Seq<char>) -> Option<i32> {
    match decimal(s) {
        Some(v) => if i32::MIN <= v <= i32::MAX {
            Some(v as i32)
        } else {
            None
        },
        None => None,
    }
}

pub open spec fn digit_char(d: int) -> char {
    seq!['0', '1', '2', '3', '4', '5', '6', '7', '8', '9'][d]
}

/// The decimal digits of `n`, without leading zeros.
pub open spec fn digits_text(n: nat) -> Seq<char>
    decreases n,
{
    if n < 10 {
        seq![digit_char(n as int)]
    } else {
        digits_text(n / 10).push(digit_char((n % 10) as int))
    }
}

/// `n` written in decimal, with a `-` where it is negative.
pub open spec fn decimal_text(n: int) -> Seq<char> {
    if n < 0 {
        seq!['-'] + digits_text((-n) as nat)
    } else {
        digits_text(n as nat)
    }
}

/// Relies on std's `str::parse::<i32>`, documented to accept an optional sign followed by
/// decimal digits, and nothing else, whose value is in range.
#[verifier::external_body]
fn parse_i32(s: &str) -> (r: Option<i32>)
    ensures
        r == decimal_i32(s@),
{
    s.parse::<i32>().ok()
}

/// Relies on std's `Display` for `i32`: the number in decimal.
#[verifier::external_body]
fn i32_text(n: i32) -> (r: String)
    ensures
        r@ == decimal_text(n as int),
{
    n.to_string()
}

/// Whether `s` is a well-formed strftime-style format string.
pub uninterp spec fn strftime_valid(s: Seq<char>) -> bool;

/// Relies on chrono::format::strftime::StrftimeItems::parse: a format string is well-formed
/// when none of the items it splits into is an error item.
#[verifier::external_body]
fn is_strftime(s: &str) -> (r: bool)
    ensures
        r == strftime_valid(s@),
{
    chrono::format::strftime::StrftimeItems::new(s).parse().is_ok()
}

pub open spec fn int_message() -> Seq<char> {
    "Must be valid integer"@
}

pub open spec fn int_positive_message() -> Seq<char> {
    "Must be valid integer > 0"@
}

pub open spec fn int_range_message(start: int, end: int) -> Seq<char> {
    "Must be a valid integer between "@ + decimal_text(start) + " and "@ + decimal_text(end)
}

pub open spec fn strftime_message() -> Seq<char> {
    "Must be a valid format string; see chrono::format::strftime docs"@
}

/// `r` is `Ok` exactly when `ok`, and otherwise carries `msg`.
pub open spec fn verdict(r: ClapResult, ok: bool, msg: Seq<char>) -> bool {
    if ok {
        r is Ok
    } else {
        r is Err && r->Err_0@ == msg
    }
}

/// Accepts a decimal integer that fits in an `i32`.
pub fn validate_int(s: String) -> (r: ClapResult)
    ensures
        verdict(r, decimal_i32(s@) is Some, int_message()),
{
    match parse_i32(s.as_str()) {
        Some(_) => Ok(()),
        None => Err("Must be valid integer".to_string()),
    }
}

/// Accepts a decimal `i32` greater than zero.
pub fn validate_int_positive(s: String) -> (r: ClapResult)
    ensures
        verdict(
            r,
            decimal_i32(s@) is Some && decimal_i32(s@)->Some_0 > 0,
            int_positive_message(),
        ),
{
    match parse_i32(s.as_str()) {
        Some(j) => if j > 0 {
            Ok(())
        } else {
            Err("Must be valid integer > 0".to_string())
        },
        None => Err("Must be valid integer > 0".to_string()),
    }
}

/// Accepts a decimal `i32` above `r.start` and at most `r.end`.
pub fn validate_int_range(r: Range<i32>, s: String) -> (res: ClapResult)
    ensures
        verdict(
            res,
            decimal_i32(s@) is Some && r.start < decimal_i32(s@)->Some_0 <= r.end,
            int_range_message(r.start as int, r.end as int),
        ),
{
    let inside = match parse_i32(s.as_str()) {
        Some(j) => r.start < j && j <= r.end,
        None => false,
    };
    if inside {
        Ok(())
    } else {
        let msg = "Must be a valid integer between ".to_string();
        let msg = msg.concat(i32_text(r.start).as_str());
        let msg = msg.concat(" and ");
        let msg = msg.concat(i32_text(r.end).as_str());
        Err(msg)
    }
}

/// Accepts a well-formed strftime-style format string.
pub fn validate_strftime(s: String) -> (r: ClapResult)
    ensures
        verdict(r, strftime_valid(s@), strftime_message()),
{
    if is_strftime(s.as_str()) {
        Ok(())
    } else {
        Err("Must be a valid format string; see chrono::format::strftime docs".to_string())
    }
}

} // verus!
