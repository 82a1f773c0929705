//! Building human-readable texts: decimal numbers and the debugging form of
//! optional numbers.

use vstd::prelude::*;
use vstd::string::StringExecFns;

verus! {

/// The text of a decimal digit.
pub open spec fn spec_digit_text(d: nat) -> Seq<char> {
    if d == 0 {
        "0"@
    } else if d == 1 {
        "1"@
    } else if d == 2 {
        "2"@
    } else if d == 3 {
        "3"@
    } else if d == 4 {
        "4"@
    } else if d == 5 {
        "5"@
    } else if d == 6 {
        "6"@
    } else if d == 7 {
        "7"@
    } else if d == 8 {
        "8"@
    } else {
        "9"@
    }
}

/// The decimal text of `n`, without leading zeros.
pub open spec fn spec_decimal(n: nat) -> Seq<char>
    decreases n,
{
    if n < 10 {
        spec_digit_text(n)
    } else {
        spec_decimal(n / 10) + spec_digit_text(n % 10)
    }
}

/// The debugging form of an optional number: `Some(n)` or `None`.
pub open spec fn spec_option_debug(v: Option<u64>) -> Seq<char> {
    match v {
        Some(n) => "Some("@ + spec_decimal(n as nat) + ")"@,
        None => "None"@,
    }
}

/// Appends the text of a decimal digit.
fn push_digit(s: &mut String, d: u64)
    requires
        d < 10,
    ensures
        final(s)@ == old(s)@ + spec_digit_text(d as nat),
{
    let t = match d {
        0 => "0",
        1 => "1",
        2 => "2",
        3 => "3",
        4 => "4",
        5 => "5",
        6 => "6",
        7 => "7",
        8 => "8",
        _ => "9",
    };
    s.append(t);
}

/// Appends the decimal text of `n`.
pub fn push_decimal(s: &mut String, n: u64)
    ensures
        final(s)@ == old(s)@ + spec_decimal(n as nat),
    decreases n,
{
    if n >= 10 {
        push_decimal(s, n / 10);
        push_digit(s, n % 10);
        proof {
            assert(final(s)@ =~= old(s)@ + spec_decimal(n as nat));
        }
    } else {
        push_digit(s, n);
    }
}

/// Appends the debugging form of an optional number.
pub fn push_option_debug(s: &mut String, v: Option<u64>)
    ensures
        final(s)@ == old(s)@ + spec_option_debug(v),
{
    match v {
        Some(n) => {
            s.append("Some(");
            push_decimal(s, n);
            s.append(")");
            proof {
                assert(final(s)@ =~= old(s)@ + spec_option_debug(v));
            }
        },
        None => s.append("None"),
    }
}

} // verus!
