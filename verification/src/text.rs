//! Decimal text of whole numbers and of thousandths.

use vstd::prelude::*;
use vstd::string::StringExecFns;

verus! {

/// The character of the decimal digit `d`.
pub open spec fn digit_char(d: int) -> char {
    if d == 0 {
        '0'
    } else if d == 1 {
        '1'
    } else if d == 2 {
        '2'
    } else if d == 3 {
        '3'
    } else if d == 4 {
        '4'
    } else if d == 5 {
        '5'
    } else if d == 6 {
        '6'
    } else if d == 7 {
        '7'
    } else if d == 8 {
        '8'
    } else {
        '9'
    }
}

/// The decimal digits of `n`, most significant first, without leading zeros.
pub open spec fn decimal_text(n: nat) -> Seq<char>
    decreases n,
{
    if n < 10 {
        seq![digit_char(n as int)]
    } else {
        decimal_text(n / 10).push(digit_char((n % 10) as int))
    }
}

/// The decimal digits of `n`, with one leading zero where `n` is below ten.
pub open spec fn two_digit_text(n: nat) -> Seq<char> {
    if n < 10 {
        seq!['0', digit_char(n as int)]
    } else {
        decimal_text(n)
    }
}

/// Thousandths with one decimal place, rounded half away from zero: the sign
/// where `value` is negative, the whole part, a point, and the tenths.
pub open spec fn one_decimal_text(value: int) -> Seq<char> {
    let magnitude: int = if value < 0 {
        -value
    } else {
        value
    };
    let tenths: int = (magnitude + 50) / 100;
    let digits: Seq<char> = decimal_text((tenths / 10) as nat) + seq!['.', digit_char(tenths % 10)];
    if value < 0 {
        seq!['-'] + digits
    } else {
        digits
    }
}

/// The text of one decimal digit.
pub fn digit(d: u128) -> (s: &'static str)
    requires
        d < 10,
    ensures
        s@ == seq![digit_char(d as int)],
{
    proof {
        reveal_strlit("0");
        reveal_strlit("1");
        reveal_strlit("2");
        reveal_strlit("3");
        reveal_strlit("4");
        reveal_strlit("5");
        reveal_strlit("6");
        reveal_strlit("7");
        reveal_strlit("8");
        reveal_strlit("9");
    }
    if d == 0 {
        "0"
    } else if d == 1 {
        "1"
    } else if d == 2 {
        "2"
    } else if d == 3 {
        "3"
    } else if d == 4 {
        "4"
    } else if d == 5 {
        "5"
    } else if d == 6 {
        "6"
    } else if d == 7 {
        "7"
    } else if d == 8 {
        "8"
    } else {
        "9"
    }
}

/// The decimal text of `n`.
pub fn decimal(n: u128) -> (s: String)
    ensures
        s@ == decimal_text(n as nat),
    decreases n,
{
    if n < 10 {
        String::from_str(digit(n))
    } else {
        let mut s: String = decimal(n / 10);
        s.append(digit(n % 10));
        s
    }
}

/// The decimal text of `n` in at least two digits.
pub fn two_digits(n: u128) -> (s: String)
    ensures
        s@ == two_digit_text(n as nat),
{
    if n < 10 {
        proof {
            reveal_strlit("0");
        }
        let mut s: String = String::from_str("0");
        s.append(digit(n));
        s
    } else {
        decimal(n)
    }
}

/// The text of `value` thousandths with one decimal place.
pub fn one_decimal(value: i32) -> (s: String)
    ensures
        s@ == one_decimal_text(value as int),
{
    proof {
        reveal_strlit("-");
        reveal_strlit(".");
        reveal_strlit("");
    }
    let magnitude: u128 = if value < 0 {
        (-(value as i64)) as u128
    } else {
        value as u128
    };
    let tenths: u128 = (magnitude + 50) / 100;
    let mut s: String = String::from_str(if value < 0 {
        "-"
    } else {
        ""
    });
    let whole: String = decimal(tenths / 10);
    s.append(whole.as_str());
    s.append(".");
    s.append(digit(tenths % 10));
    s
}

} // verus!
